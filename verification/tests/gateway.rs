use fileserver::error::FileServerError;
use fileserver::auth::AuthService;
use fileserver::file_handler::FileHandler;
use fileserver::messages::{
    ConnectRequest, ConnectResponse, DataChunk, DeleteRequest, DeleteResponse, FileEntry,
    FileMetadata, ListRequest, ReadRequest, StatRequest, WriteResponse,
};
use fileserver::net::parse_ip;
use fileserver::server_config::{DirectoryConfig, ServerConfig, ServerSettings};
use fileserver::service::FileServiceImpl;
use fileserver::transfer::{make_chunks, WriteAccumulator};

/// Basic test to verify error types work correctly
#[test]
fn test_error_types() {
    let error = FileServerError::FileNotFound("test.txt".to_string());
    assert!(error.message().contains("File not found: test.txt"));

    let error = FileServerError::PermissionDenied("Access denied".to_string());
    assert!(error.message().contains("Permission denied: Access denied"));

    let error = FileServerError::InvalidPath("Bad path".to_string());
    assert!(error.message().contains("Invalid path: Bad path"));
}

/// Test message creation and field access
#[test]
fn test_protobuf_messages() {
    // Test ConnectRequest
    let connect_req = ConnectRequest {
        client_id: "test-client".to_string(),
    };
    assert_eq!(connect_req.client_id, "test-client");

    // Test ConnectResponse
    let connect_resp = ConnectResponse {
        success: true,
        message: "Connected successfully".to_string(),
        available_directories: vec!["docs".to_string(), "workspace".to_string()],
    };
    assert!(connect_resp.success);
    assert_eq!(connect_resp.available_directories.len(), 2);

    // Test FileMetadata
    let metadata = FileMetadata {
        name: "test.txt".to_string(),
        size: 1024,
        is_directory: false,
        permissions: "read-write".to_string(),
        modified_time: 1234567890,
        created_time: 1234567890,
    };
    assert_eq!(metadata.name, "test.txt");
    assert_eq!(metadata.size, 1024);
    assert!(!metadata.is_directory);

    // Test FileEntry
    let entry = FileEntry {
        name: "file.txt".to_string(),
        is_directory: false,
        size: 512,
        modified_time: 1234567890,
        permissions: "read-only".to_string(),
    };
    assert_eq!(entry.name, "file.txt");
    assert_eq!(entry.size, 512);

    // Test DataChunk
    let chunk = DataChunk {
        path: "test/file.txt".to_string(),
        data: b"Hello, World!".to_vec(),
        offset: 0,
        is_last: true,
    };
    assert_eq!(chunk.data, b"Hello, World!");
    assert!(chunk.is_last);

    // Test WriteResponse
    let write_resp = WriteResponse {
        success: true,
        message: "Written successfully".to_string(),
        bytes_written: 13,
    };
    assert!(write_resp.success);
    assert_eq!(write_resp.bytes_written, 13);

    // Test DeleteRequest and DeleteResponse
    let delete_req = DeleteRequest {
        path: "test/file.txt".to_string(),
    };
    assert_eq!(delete_req.path, "test/file.txt");

    let delete_resp = DeleteResponse {
        success: true,
        message: "Deleted successfully".to_string(),
    };
    assert!(delete_resp.success);
}

fn make_service() -> (FileServiceImpl, String) {
    let base = format!("/tmp/fileserver_gateway_test_{}", uuid::Uuid::now_v7());
    let handler = FileHandler::new();
    handler.write_file(&format!("{}/docs/readme.txt", base), &b"docs data".to_vec(), None).unwrap();
    handler.write_file(&format!("{}/workspace/seed.txt", base), &b"seed".to_vec(), None).unwrap();

    let config = ServerConfig {
        server: ServerSettings {
            port: 8080,
            allowed_ips: vec!["127.0.0.1".to_string(), "192.168.1.0/24".to_string()],
            user: None,
            group: None,
        },
        directories: vec![
            DirectoryConfig {
                name: "docs".to_string(),
                path: format!("{}/docs", base),
                permissions: "read-only".to_string(),
            },
            DirectoryConfig {
                name: "workspace".to_string(),
                path: format!("{}/workspace", base),
                permissions: "read-write".to_string(),
            },
        ],
    };
    (FileServiceImpl::new(AuthService::new(config)), base)
}

fn cleanup(base: &str) {
    FileHandler::new().delete_file(base).ok();
}

#[test]
fn test_authenticate_lists_directories() {
    let (service, base) = make_service();
    let req = ConnectRequest { client_id: "client-1".to_string() };

    let resp = service.authenticate(Some(parse_ip("127.0.0.1").unwrap()), &req).unwrap();
    assert!(resp.success);
    assert_eq!(resp.message, "Connection established successfully");
    assert_eq!(resp.available_directories, vec!["docs".to_string(), "workspace".to_string()]);

    let denied = service.authenticate(Some(parse_ip("10.9.9.9").unwrap()), &req);
    assert!(denied.is_err());

    let in_range = service.authenticate(Some(parse_ip("192.168.1.200").unwrap()), &req);
    assert!(in_range.is_ok());

    cleanup(&base);
}

#[test]
fn test_health_check_fields() {
    let (service, base) = make_service();
    let status = service.health_check(42);
    assert!(status.healthy);
    assert_eq!(status.uptime_seconds, 42);
    assert_eq!(status.version, "0.1.0");
    assert_eq!(status.message, "Server is healthy");
    cleanup(&base);
}

#[test]
fn test_gateway_write_then_read_round_trip() {
    let (service, base) = make_service();

    let data: Vec<u8> = (0..200000u32).map(|i| (i % 241) as u8).collect();
    let chunks = make_chunks("workspace/out.bin", &data, 0);
    assert_eq!(chunks.len(), 4); // 200000 bytes in 64 KiB segments
    assert!(chunks[3].is_last);
    assert!(!chunks[0].is_last);
    assert_eq!(chunks[1].offset, 65536);

    let resp = service.write(&chunks).unwrap();
    assert!(resp.success);
    assert_eq!(resp.bytes_written, data.len() as u64);

    let read_req = ReadRequest { path: "workspace/out.bin".to_string(), offset: None, length: None };
    let out_chunks = service.read(&read_req).unwrap();
    let mut acc = WriteAccumulator::new();
    for c in &out_chunks {
        acc.push_chunk(c).unwrap();
    }
    let (path, bytes) = acc.finish().unwrap();
    assert_eq!(path, "workspace/out.bin");
    assert_eq!(bytes, data);

    let stat_req = StatRequest { path: "workspace/out.bin".to_string() };
    let meta = service.stat(&stat_req).unwrap();
    assert_eq!(meta.size, data.len() as u64);
    assert_eq!(meta.name, "out.bin");

    cleanup(&base);
}

#[test]
fn test_gateway_partial_read() {
    let (service, base) = make_service();

    let chunks = make_chunks("workspace/hello.txt", &b"Hello, World!".to_vec(), 0);
    service.write(&chunks).unwrap();

    let req = ReadRequest { path: "workspace/hello.txt".to_string(), offset: Some(7), length: Some(5) };
    let out = service.read(&req).unwrap();
    assert_eq!(out.len(), 1);
    assert_eq!(out[0].data, b"World");
    assert_eq!(out[0].offset, 7);
    assert!(out[0].is_last);

    // reading at the end yields an empty stream, not an error
    let req = ReadRequest { path: "workspace/hello.txt".to_string(), offset: Some(13), length: None };
    let out = service.read(&req).unwrap();
    assert!(out.is_empty());

    cleanup(&base);
}

#[test]
fn test_gateway_rejects_traversal_and_absolute_paths() {
    let (service, base) = make_service();

    let req = StatRequest { path: "docs/../secret".to_string() };
    let err = service.stat(&req).unwrap_err();
    assert!(err.message().contains("Path traversal not allowed"));

    let req = StatRequest { path: "docs//etc/passwd".to_string() };
    let err = service.stat(&req).unwrap_err();
    assert!(err.message().contains("Absolute paths not allowed"));

    let req = StatRequest { path: "".to_string() };
    let err = service.stat(&req).unwrap_err();
    assert!(err.message().contains("Path cannot be empty"));

    cleanup(&base);
}

#[test]
fn test_gateway_write_denied_on_read_only_root() {
    let (service, base) = make_service();

    let chunks = make_chunks("docs/new.txt", &b"data".to_vec(), 0);
    let err = service.write(&chunks).unwrap_err();
    assert!(err.message().contains("Write operation not allowed on read-only directory 'docs'"));

    // reading the same root still works
    let req = ReadRequest { path: "docs/readme.txt".to_string(), offset: None, length: None };
    assert!(service.read(&req).is_ok());

    cleanup(&base);
}

#[test]
fn test_gateway_write_mixed_paths_aborts() {
    let (service, base) = make_service();

    let chunks = vec![
        DataChunk {
            path: "workspace/one.txt".to_string(),
            data: b"first".to_vec(),
            offset: 0,
            is_last: false,
        },
        DataChunk {
            path: "workspace/two.txt".to_string(),
            data: b"second".to_vec(),
            offset: 5,
            is_last: true,
        },
    ];
    let err = service.write(&chunks).unwrap_err();
    assert!(err.message().contains("All chunks must have the same path"));

    // nothing was written to either path
    let handler = FileHandler::new();
    assert!(handler.stat(&format!("{}/workspace/one.txt", base)).is_err());
    assert!(handler.stat(&format!("{}/workspace/two.txt", base)).is_err());

    cleanup(&base);
}

#[test]
fn test_gateway_write_without_last_mark_rejected() {
    let (service, base) = make_service();

    let chunks = vec![DataChunk {
        path: "workspace/unfinished.txt".to_string(),
        data: b"partial".to_vec(),
        offset: 0,
        is_last: false,
    }];
    let err = service.write(&chunks).unwrap_err();
    assert!(err.message().contains("No data received"));

    let empty: Vec<DataChunk> = vec![];
    let err = service.write(&empty).unwrap_err();
    assert!(err.message().contains("No data received"));

    let handler = FileHandler::new();
    assert!(handler.stat(&format!("{}/workspace/unfinished.txt", base)).is_err());

    cleanup(&base);
}

#[test]
fn test_gateway_list_sorted() {
    let (service, base) = make_service();

    let handler = FileHandler::new();
    handler.write_file(&format!("{}/workspace/sub/a.txt", base), &b"a".to_vec(), None).unwrap();

    let req = ListRequest { path: "workspace".to_string() };
    let resp = service.list(&req).unwrap();
    let names: Vec<String> = resp.entries.iter().map(|e| e.name.clone()).collect();
    assert_eq!(names, vec!["sub", "seed.txt"]);
    assert!(resp.entries[0].is_directory);

    cleanup(&base);
}

#[test]
fn test_make_chunks_boundaries() {
    let empty: Vec<u8> = vec![];
    assert!(make_chunks("d/p", &empty, 0).is_empty());

    let one = vec![7u8; 1];
    let cs = make_chunks("d/p", &one, 10);
    assert_eq!(cs.len(), 1);
    assert!(cs[0].is_last);
    assert_eq!(cs[0].offset, 10);
    assert_eq!(cs[0].path, "d/p");

    // an exact multiple of the segment size still ends with a last-marked
    // segment
    let exact = vec![1u8; 131072];
    let cs = make_chunks("d/p", &exact, 0);
    assert_eq!(cs.len(), 2);
    assert_eq!(cs[0].data.len(), 65536);
    assert_eq!(cs[1].data.len(), 65536);
    assert!(!cs[0].is_last);
    assert!(cs[1].is_last);
    assert_eq!(cs[1].offset, 65536);

    let over = vec![2u8; 65537];
    let cs = make_chunks("d/p", &over, 0);
    assert_eq!(cs.len(), 2);
    assert_eq!(cs[1].data.len(), 1);
    assert!(cs[1].is_last);
}

#[test]
fn test_accumulator_ignores_segments_after_last() {
    let mut acc = WriteAccumulator::new();
    acc.push_chunk(&DataChunk {
        path: "d/f".to_string(),
        data: b"abc".to_vec(),
        offset: 0,
        is_last: true,
    })
    .unwrap();
    // a trailing segment after the final one is ignored, not appended
    acc.push_chunk(&DataChunk {
        path: "d/f".to_string(),
        data: b"xyz".to_vec(),
        offset: 3,
        is_last: true,
    })
    .unwrap();
    let (path, bytes) = acc.finish().unwrap();
    assert_eq!(path, "d/f");
    assert_eq!(bytes, b"abc".to_vec());
}

#[test]
fn test_error_variant_messages() {
    assert_eq!(
        FileServerError::ConnectionFailed("refused".to_string()).message(),
        "Connection failed: refused"
    );
    assert_eq!(
        FileServerError::ConfigError("bad".to_string()).message(),
        "Configuration error: bad"
    );
    assert_eq!(FileServerError::IoError("oops".to_string()).message(), "IO error: oops");
    assert_eq!(FileServerError::GrpcError("status".to_string()).message(), "gRPC error: status");
    assert_eq!(
        FileServerError::TomlError("syntax".to_string()).message(),
        "TOML parsing error: syntax"
    );
}

#[test]
fn test_gateway_delete() {
    let (service, base) = make_service();

    let req = DeleteRequest { path: "workspace/seed.txt".to_string() };
    let resp = service.delete(&req).unwrap();
    assert!(resp.success);
    assert_eq!(resp.message, "Deleted successfully");
    assert!(service.stat(&StatRequest { path: "workspace/seed.txt".to_string() }).is_err());

    // deleting it again reports it missing
    let err = service.delete(&req).unwrap_err();
    assert!(err.message().contains("File not found"));

    // a read-only root refuses deletion
    let err = service.delete(&DeleteRequest { path: "docs/readme.txt".to_string() }).unwrap_err();
    assert!(err.message().contains("Write operation not allowed on read-only directory 'docs'"));

    // an unregistered root is denied by name
    let err = service.delete(&DeleteRequest { path: "ghost/x".to_string() }).unwrap_err();
    assert!(err.message().contains("Directory 'ghost' not found"));

    cleanup(&base);
}

#[test]
fn test_gateway_unknown_directory_message() {
    let (service, base) = make_service();
    let err = service.stat(&StatRequest { path: "ghost/readme.txt".to_string() }).unwrap_err();
    assert!(err.message().contains("Directory 'ghost' not found"));
    cleanup(&base);
}
