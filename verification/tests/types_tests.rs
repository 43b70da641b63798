use dupscan::types::{
    DeleteError, DeleteResult, DuplicateGroup, FileEntry, ScanError, ScanOptions, ScanPhase,
    ScanProgress, ScanResult,
};

#[test]
fn test_scan_options_default() {
    let opts = ScanOptions::default();
    assert!(opts.root_paths.is_empty());
    assert!(opts.min_file_size.is_none());
    assert!(opts.include_extensions.is_none());
    assert!(opts.exclude_extensions.is_none());
    assert!(!opts.follow_symlinks);
}

#[test]
fn test_file_entry_creation() {
    let entry = FileEntry::new(
        "/path/to/file.txt".to_string(),
        1024,
        Some("2024-01-15T10:30:00Z".to_string()),
    );

    assert_eq!(entry.path, "/path/to/file.txt");
    assert_eq!(entry.size, 1024);
    assert_eq!(entry.modified, Some("2024-01-15T10:30:00Z".to_string()));
}

#[test]
fn test_duplicate_group_count() {
    let group = DuplicateGroup::new(
        "abc123".to_string(),
        1024,
        vec![
            FileEntry::new("/file1.txt".to_string(), 1024, None),
            FileEntry::new("/file2.txt".to_string(), 1024, None),
            FileEntry::new("/file3.txt".to_string(), 1024, None),
        ],
    );

    assert_eq!(group.count(), 3);
}

#[test]
fn test_duplicate_group_wasted_space() {
    let group = DuplicateGroup::new(
        "abc123".to_string(),
        1000,
        vec![
            FileEntry::new("/file1.txt".to_string(), 1000, None),
            FileEntry::new("/file2.txt".to_string(), 1000, None),
            FileEntry::new("/file3.txt".to_string(), 1000, None),
        ],
    );

    // 3 files, keeping 1 means 2 are wasted = 2 * 1000 = 2000
    assert_eq!(group.wasted_space(), 2000);
}

#[test]
fn test_duplicate_group_single_file_no_waste() {
    let group = DuplicateGroup::new(
        "abc123".to_string(),
        1000,
        vec![FileEntry::new("/file1.txt".to_string(), 1000, None)],
    );

    assert_eq!(group.wasted_space(), 0);
}

#[test]
fn test_duplicate_group_empty_no_waste() {
    let group = DuplicateGroup::new("abc123".to_string(), 1000, vec![]);
    assert_eq!(group.wasted_space(), 0);
}

#[test]
fn test_scan_progress_creation() {
    let progress = ScanProgress::new(50, Some(100), ScanPhase::Hashing);

    assert_eq!(progress.files_scanned, 50);
    assert_eq!(progress.files_total, Some(100));
    assert_eq!(progress.current_phase, ScanPhase::Hashing);
    assert!(progress.message.is_none());
}

#[test]
fn test_scan_progress_with_message() {
    let progress = ScanProgress::new(10, None, ScanPhase::Counting)
        .with_message("Scanning directory...");

    assert_eq!(progress.message, Some("Scanning directory...".to_string()));
}

#[test]
fn test_scan_result_calculations() {
    let groups = vec![
        DuplicateGroup::new(
            "hash1".to_string(),
            1000,
            vec![
                FileEntry::new("/a.txt".to_string(), 1000, None),
                FileEntry::new("/b.txt".to_string(), 1000, None),
            ],
        ),
        DuplicateGroup::new(
            "hash2".to_string(),
            500,
            vec![
                FileEntry::new("/c.txt".to_string(), 500, None),
                FileEntry::new("/d.txt".to_string(), 500, None),
                FileEntry::new("/e.txt".to_string(), 500, None),
            ],
        ),
    ];

    let result = ScanResult::new(groups, 100, vec![], 1000);

    // 2 + 3 = 5 duplicate files
    assert_eq!(result.total_duplicates_found, 5);
    // (2-1)*1000 + (3-1)*500 = 1000 + 1000 = 2000
    assert_eq!(result.total_wasted_space, 2000);
    assert_eq!(result.total_files_scanned, 100);
    assert_eq!(result.duration_ms, 1000);
}

#[test]
fn test_scan_error_creation() {
    let error = ScanError::new("/path/to/file", "Permission denied");

    assert_eq!(error.path, "/path/to/file");
    assert_eq!(error.message, "Permission denied");
}

#[test]
fn test_delete_result() {
    let result = DeleteResult::new(
        vec!["/file1.txt".to_string(), "/file2.txt".to_string()],
        vec![DeleteError::new("/file3.txt", "File is locked")],
    );

    assert_eq!(result.deleted.len(), 2);
    assert_eq!(result.failed.len(), 1);
    assert!(!result.all_succeeded());
}

#[test]
fn test_delete_result_all_succeeded() {
    let result = DeleteResult::new(vec!["/file1.txt".to_string()], vec![]);

    assert!(result.all_succeeded());
}
