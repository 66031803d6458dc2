use fileserver::file_handler::{read_slice, FileHandler};

fn create_test_environment() -> String {
    let test_dir = format!("/tmp/fileserver_handler_test_{}", uuid::Uuid::now_v7());
    let handler = FileHandler::new();

    handler
        .write_file(&format!("{}/test_file.txt", test_dir), &b"Hello, World!".to_vec(), None)
        .unwrap();
    handler
        .write_file(
            &format!("{}/subdir/nested_file.txt", test_dir),
            &b"Nested content".to_vec(),
            None,
        )
        .unwrap();

    test_dir
}

fn cleanup_test_environment(test_dir: &str) {
    let handler = FileHandler::new();
    handler.delete_file(test_dir).ok();
}

#[test]
fn test_stat_file() {
    let test_dir = create_test_environment();
    let handler = FileHandler::new();
    let test_file = format!("{}/test_file.txt", test_dir);

    let result = handler.stat(&test_file);
    assert!(result.is_ok());

    let metadata = result.unwrap();
    assert_eq!(metadata.name, "test_file.txt");
    assert!(!metadata.is_directory);
    assert_eq!(metadata.size, 13); // "Hello, World!" length
    assert!(metadata.modified_time > 0);
    // creation time defaults to the epoch: this storage binding cannot
    // supply a birth timestamp
    assert_eq!(metadata.created_time, 0);

    cleanup_test_environment(&test_dir);
}

#[test]
fn test_stat_directory() {
    let test_dir = create_test_environment();
    let handler = FileHandler::new();
    let test_subdir = format!("{}/subdir", test_dir);

    let result = handler.stat(&test_subdir);
    assert!(result.is_ok());

    let metadata = result.unwrap();
    assert_eq!(metadata.name, "subdir");
    assert!(metadata.is_directory);

    cleanup_test_environment(&test_dir);
}

#[test]
fn test_stat_nonexistent_file() {
    let test_dir = create_test_environment();
    let handler = FileHandler::new();
    let nonexistent = format!("{}/nonexistent.txt", test_dir);

    let result = handler.stat(&nonexistent);
    assert!(result.is_err());

    cleanup_test_environment(&test_dir);
}

#[test]
fn test_list_directory() {
    let test_dir = create_test_environment();
    let handler = FileHandler::new();

    let result = handler.list_directory(&test_dir);
    assert!(result.is_ok());

    let entries = result.unwrap();
    assert_eq!(entries.len(), 2); // test_file.txt and subdir

    // Check directory comes first (sorted)
    assert!(entries[0].is_directory);
    assert_eq!(entries[0].name, "subdir");

    // Check file comes second
    assert!(!entries[1].is_directory);
    assert_eq!(entries[1].name, "test_file.txt");
    assert_eq!(entries[1].size, 13);

    cleanup_test_environment(&test_dir);
}

#[test]
fn test_list_directory_name_order() {
    let test_dir = format!("/tmp/fileserver_handler_test_{}", uuid::Uuid::now_v7());
    let handler = FileHandler::new();
    handler.write_file(&format!("{}/zebra.txt", test_dir), &b"z".to_vec(), None).unwrap();
    handler.write_file(&format!("{}/apple.txt", test_dir), &b"a".to_vec(), None).unwrap();
    handler.write_file(&format!("{}/zdir/inner.txt", test_dir), &b"i".to_vec(), None).unwrap();
    handler.write_file(&format!("{}/adir/inner.txt", test_dir), &b"i".to_vec(), None).unwrap();

    let entries = handler.list_directory(&test_dir).unwrap();
    let names: Vec<String> = entries.iter().map(|e| e.name.clone()).collect();
    assert_eq!(names, vec!["adir", "zdir", "apple.txt", "zebra.txt"]);
    assert!(entries[0].is_directory && entries[1].is_directory);
    assert!(!entries[2].is_directory && !entries[3].is_directory);

    cleanup_test_environment(&test_dir);
}

#[test]
fn test_list_nonexistent_directory() {
    let test_dir = create_test_environment();
    let handler = FileHandler::new();
    let nonexistent = format!("{}/nonexistent", test_dir);

    let result = handler.list_directory(&nonexistent);
    assert!(result.is_err());

    cleanup_test_environment(&test_dir);
}

#[test]
fn test_read_file() {
    let test_dir = create_test_environment();
    let handler = FileHandler::new();
    let test_file = format!("{}/test_file.txt", test_dir);

    let result = handler.read_file(&test_file, None, None);
    assert!(result.is_ok());

    let content = result.unwrap();
    assert_eq!(content, b"Hello, World!");

    cleanup_test_environment(&test_dir);
}

#[test]
fn test_read_file_with_offset_and_length() {
    let test_dir = create_test_environment();
    let handler = FileHandler::new();
    let test_file = format!("{}/test_file.txt", test_dir);

    // Read "World" from "Hello, World!"
    let result = handler.read_file(&test_file, Some(7), Some(5));
    assert!(result.is_ok());

    let content = result.unwrap();
    assert_eq!(content, b"World");

    cleanup_test_environment(&test_dir);
}

#[test]
fn test_read_file_offset_at_end() {
    let test_dir = create_test_environment();
    let handler = FileHandler::new();
    let test_file = format!("{}/test_file.txt", test_dir);

    // an offset at the file's size yields empty bytes, not an error
    let content = handler.read_file(&test_file, Some(13), None).unwrap();
    assert!(content.is_empty());

    // a length reaching past the end is clamped
    let content = handler.read_file(&test_file, Some(7), Some(1000)).unwrap();
    assert_eq!(content, b"World!");

    cleanup_test_environment(&test_dir);
}

#[test]
fn test_write_file() {
    let test_dir = create_test_environment();
    let handler = FileHandler::new();
    let new_file = format!("{}/new_file.txt", test_dir);

    let data = b"New file content".to_vec();
    let result = handler.write_file(&new_file, &data, None);
    assert!(result.is_ok());
    assert_eq!(result.unwrap(), data.len() as u64);

    // Verify file was written
    let written_content = handler.read_file(&new_file, None, None).unwrap();
    assert_eq!(written_content, data);

    cleanup_test_environment(&test_dir);
}

#[test]
fn test_write_file_with_offset() {
    let test_dir = create_test_environment();
    let handler = FileHandler::new();
    let test_file = format!("{}/test_file.txt", test_dir);

    // Write "RUST" at offset 7 (replacing "World")
    let data = b"RUST".to_vec();
    let result = handler.write_file(&test_file, &data, Some(7));
    assert!(result.is_ok());

    // Verify the content
    let content = handler.read_file(&test_file, None, None).unwrap();
    let content_str = String::from_utf8(content).unwrap();
    assert!(content_str.contains("Hello, RUST"));

    cleanup_test_environment(&test_dir);
}

#[test]
fn test_write_read_round_trip_sizes() {
    let test_dir = format!("/tmp/fileserver_handler_test_{}", uuid::Uuid::now_v7());
    let handler = FileHandler::new();
    let path = format!("{}/round.bin", test_dir);

    let data: Vec<u8> = (0..100000u32).map(|i| (i % 251) as u8).collect();
    let written = handler.write_file(&path, &data, None).unwrap();
    assert_eq!(written, data.len() as u64);

    let back = handler.read_file(&path, None, None).unwrap();
    assert_eq!(back, data);
    assert_eq!(handler.stat(&path).unwrap().size, data.len() as u64);

    cleanup_test_environment(&test_dir);
}

#[test]
fn test_delete_file() {
    let test_dir = create_test_environment();
    let handler = FileHandler::new();
    let test_file = format!("{}/test_file.txt", test_dir);

    // Ensure file exists before deletion
    assert!(handler.stat(&test_file).is_ok());

    let result = handler.delete_file(&test_file);
    assert!(result.is_ok());

    // Verify file was deleted
    assert!(handler.stat(&test_file).is_err());

    cleanup_test_environment(&test_dir);
}

#[test]
fn test_delete_directory() {
    let test_dir = create_test_environment();
    let handler = FileHandler::new();
    let test_subdir = format!("{}/subdir", test_dir);

    // Ensure directory exists before deletion
    assert!(handler.stat(&test_subdir).is_ok());

    let result = handler.delete_file(&test_subdir);
    assert!(result.is_ok());

    // Verify directory was deleted
    assert!(handler.stat(&test_subdir).is_err());

    cleanup_test_environment(&test_dir);
}

#[test]
fn test_delete_nonexistent_file() {
    let test_dir = create_test_environment();
    let handler = FileHandler::new();
    let nonexistent = format!("{}/nonexistent.txt", test_dir);

    let result = handler.delete_file(&nonexistent);
    assert!(result.is_err());
    assert!(result.unwrap_err().message().contains("File not found"));

    cleanup_test_environment(&test_dir);
}

#[test]
fn test_read_slice_clamping() {
    let content = b"Hello, World!".to_vec();
    assert_eq!(read_slice(&content, Some(7), Some(5)), b"World".to_vec());
    assert_eq!(read_slice(&content, Some(13), None), Vec::<u8>::new());
    assert_eq!(read_slice(&content, Some(20), Some(5)), Vec::<u8>::new());
    assert_eq!(read_slice(&content, None, None), content);
    assert_eq!(read_slice(&content, None, Some(5)), b"Hello".to_vec());
    assert_eq!(read_slice(&content, Some(7), Some(1000)), b"World!".to_vec());
    assert_eq!(read_slice(&content, Some(0), Some(0)), Vec::<u8>::new());
}

#[test]
fn test_stat_ignores_trailing_separator() {
    let test_dir = create_test_environment();
    let handler = FileHandler::new();
    let with_slash = format!("{}/subdir/", test_dir);

    let metadata = handler.stat(&with_slash).unwrap();
    assert_eq!(metadata.name, "subdir");
    assert!(metadata.is_directory);

    cleanup_test_environment(&test_dir);
}
