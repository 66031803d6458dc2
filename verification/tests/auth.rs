use fileserver::auth::AuthService;
use fileserver::net::parse_ip;
use fileserver::server_config::{DirectoryConfig, ServerConfig, ServerSettings};

fn create_test_config() -> ServerConfig {
    ServerConfig {
        server: ServerSettings {
            port: 8080,
            allowed_ips: vec!["127.0.0.1".to_string(), "192.168.1.0/24".to_string()],
            user: None,
            group: None,
        },
        directories: vec![
            DirectoryConfig {
                name: "docs".to_string(),
                path: "/tmp/docs".to_string(),
                permissions: "read-only".to_string(),
            },
            DirectoryConfig {
                name: "workspace".to_string(),
                path: "/tmp/workspace".to_string(),
                permissions: "read-write".to_string(),
            },
        ],
    }
}

#[test]
fn test_directory_access_read_operations() {
    let config = create_test_config();
    let auth = AuthService::new(config);

    // Test read access to read-only directory
    let result = auth.check_directory_access("docs", "read");
    assert!(result.is_ok());

    // Test read access to read-write directory
    let result = auth.check_directory_access("workspace", "read");
    assert!(result.is_ok());
}

#[test]
fn test_directory_access_write_operations() {
    let config = create_test_config();
    let auth = AuthService::new(config);

    // Test write access to read-only directory (should fail)
    let result = auth.check_directory_access("docs", "write");
    assert!(result.is_err());
    assert!(result.unwrap_err().message().contains("Write operation not allowed"));

    // Test write access to read-write directory (should succeed)
    let result = auth.check_directory_access("workspace", "write");
    assert!(result.is_ok());
}

#[test]
fn test_directory_access_nonexistent_directory() {
    let config = create_test_config();
    let auth = AuthService::new(config);

    let result = auth.check_directory_access("nonexistent", "read");
    assert!(result.is_err());
    assert!(result.unwrap_err().message().contains("Directory 'nonexistent' not found"));
}

#[test]
fn test_directory_access_invalid_operation() {
    let config = create_test_config();
    let auth = AuthService::new(config);

    let result = auth.check_directory_access("docs", "peek");
    assert!(result.is_err());
    assert!(result.unwrap_err().message().contains("Invalid operation 'peek' on directory 'docs'"));
}

#[test]
fn test_path_validation() {
    let config = create_test_config();
    let auth = AuthService::new(config);

    // Valid paths
    assert!(auth.validate_path("file.txt").is_ok());
    assert!(auth.validate_path("subdir/file.txt").is_ok());
    assert!(auth.validate_path("").is_ok());

    // Invalid paths with directory traversal
    assert!(auth.validate_path("../file.txt").is_err());
    assert!(auth.validate_path("dir/../file.txt").is_err());
    assert!(auth.validate_path("../../etc/passwd").is_err());

    // Invalid absolute paths
    assert!(auth.validate_path("/etc/passwd").is_err());
    assert!(auth.validate_path("\\Windows\\System32").is_err());
}

#[test]
fn test_path_validation_error_messages() {
    let config = create_test_config();
    let auth = AuthService::new(config);

    let result = auth.validate_path("../file.txt");
    assert!(result.is_err());
    assert!(result.unwrap_err().message().contains("Path traversal not allowed"));

    let result = auth.validate_path("/etc/passwd");
    assert!(result.is_err());
    assert!(result.unwrap_err().message().contains("Absolute paths not allowed"));
}

#[test]
fn test_authorize_connection_allowlist() {
    let config = create_test_config();
    let auth = AuthService::new(config);

    // exact allowlist entry
    assert!(auth.authorize_connection(Some(parse_ip("127.0.0.1").unwrap())).is_ok());
    // inside the configured CIDR range
    assert!(auth.authorize_connection(Some(parse_ip("192.168.1.77").unwrap())).is_ok());
    // outside every entry
    let denied = auth.authorize_connection(Some(parse_ip("10.0.0.1").unwrap()));
    assert!(denied.is_err());
    assert!(denied.unwrap_err().message().contains("10.0.0.1 is not allowed to connect"));
    // unknown remote address falls back to loopback, which is allowlisted
    assert!(auth.authorize_connection(None).is_ok());
}
