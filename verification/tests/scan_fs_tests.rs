use dupscan::scan::scan_directories;
use dupscan::types::ScanOptions;
use std::io::Write;
use tempfile::{Builder, NamedTempFile, TempDir};

fn create_test_file(dir: &std::path::Path, prefix: &str, suffix: &str, content: &[u8]) -> NamedTempFile {
    let mut file = Builder::new()
        .prefix(prefix)
        .suffix(suffix)
        .rand_bytes(6)
        .tempfile_in(dir)
        .unwrap();
    file.write_all(content).unwrap();
    file.flush().unwrap();
    file
}

#[test]
fn test_scan_empty_directory() {
    let temp_dir = TempDir::new().unwrap();
    let options = ScanOptions {
        root_paths: vec![temp_dir.path().display().to_string()],
        ..Default::default()
    };

    let result = scan_directories(&options).unwrap();
    assert!(result.files.is_empty());
    assert!(result.errors.is_empty());
}

#[test]
fn test_scan_with_files() {
    let temp_dir = TempDir::new().unwrap();
    let _f1 = create_test_file(temp_dir.path(), "file1", ".txt", b"hello");
    let _f2 = create_test_file(temp_dir.path(), "file2", ".txt", b"world");

    let options = ScanOptions {
        root_paths: vec![temp_dir.path().display().to_string()],
        ..Default::default()
    };

    let result = scan_directories(&options).unwrap();
    assert_eq!(result.files.len(), 2);
}

#[test]
fn test_scan_nested_directories() {
    let temp_dir = TempDir::new().unwrap();
    let sub_dir = Builder::new().prefix("subdir").tempdir_in(temp_dir.path()).unwrap();

    let _f1 = create_test_file(temp_dir.path(), "root", ".txt", b"root");
    let _f2 = create_test_file(sub_dir.path(), "nested", ".txt", b"nested");

    let options = ScanOptions {
        root_paths: vec![temp_dir.path().display().to_string()],
        ..Default::default()
    };

    let result = scan_directories(&options).unwrap();
    assert_eq!(result.files.len(), 2);
}

#[test]
fn test_scan_with_min_size_filter() {
    let temp_dir = TempDir::new().unwrap();
    let _f1 = create_test_file(temp_dir.path(), "small", ".txt", b"hi");
    let _f2 = create_test_file(temp_dir.path(), "large", ".txt", b"hello world this is larger");

    let options = ScanOptions {
        root_paths: vec![temp_dir.path().display().to_string()],
        min_file_size: Some(10),
        ..Default::default()
    };

    let result = scan_directories(&options).unwrap();
    assert_eq!(result.files.len(), 1);
    assert!(result.files[0].path.contains("large"));
}

#[test]
fn test_scan_with_extension_filter() {
    let temp_dir = TempDir::new().unwrap();
    let _f1 = create_test_file(temp_dir.path(), "doc", ".txt", b"text");
    let _f2 = create_test_file(temp_dir.path(), "image", ".jpg", b"image");
    let _f3 = create_test_file(temp_dir.path(), "data", ".json", b"json");

    let options = ScanOptions {
        root_paths: vec![temp_dir.path().display().to_string()],
        include_extensions: Some(vec!["txt".to_string(), "json".to_string()]),
        ..Default::default()
    };

    let result = scan_directories(&options).unwrap();
    assert_eq!(result.files.len(), 2);
}

#[test]
fn test_file_entry_contains_size() {
    let temp_dir = TempDir::new().unwrap();
    let content = b"hello world";
    let _f1 = create_test_file(temp_dir.path(), "test", ".txt", content);

    let options = ScanOptions {
        root_paths: vec![temp_dir.path().display().to_string()],
        ..Default::default()
    };

    let result = scan_directories(&options).unwrap();
    assert_eq!(result.files.len(), 1);
    assert_eq!(result.files[0].size, content.len() as u64);
}
