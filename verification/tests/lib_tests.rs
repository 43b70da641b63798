use dupscan::delete::collect_delete_outcomes;
use dupscan::events;
use dupscan::text::decimal_string;

#[test]
fn test_modules_accessible() {
    // Verify all modules are properly exported
    let _ = dupscan::types::ScanOptions::default();
    let _ = dupscan::error::ScannerError::Cancelled;
    let _ = dupscan::state::AppState::new();
}

#[test]
fn test_events_module() {
    // Verify event names are correct
    assert_eq!(events::SCAN_PROGRESS, "scan_progress");
    assert_eq!(events::SCAN_FINISHED, "scan_finished");
    assert_eq!(events::SCAN_ERROR, "scan_error");
    assert_eq!(events::SCAN_CANCELLED, "scan_cancelled");
}

#[test]
fn test_decimal_string() {
    assert_eq!(decimal_string(0), "0");
    assert_eq!(decimal_string(7), "7");
    assert_eq!(decimal_string(12345), "12345");
    assert_eq!(decimal_string(u64::MAX), "18446744073709551615");
}

#[test]
fn test_collect_delete_outcomes() {
    let outcomes = vec![
        ("/a.txt".to_string(), Ok(())),
        ("/b.txt".to_string(), Err("File is locked".to_string())),
        ("/c.txt".to_string(), Ok(())),
    ];

    let result = collect_delete_outcomes(outcomes);

    assert_eq!(result.deleted, vec!["/a.txt".to_string(), "/c.txt".to_string()]);
    assert_eq!(result.failed.len(), 1);
    assert_eq!(result.failed[0].path, "/b.txt");
    assert_eq!(result.failed[0].reason, "File is locked");
    assert!(!result.all_succeeded());
}

#[test]
fn test_delete_root_spelling_records_failure() {
    // A path that canonicalizes to the filesystem root is screened out and
    // recorded as a failure instead of being handed to the trash.
    let result = dupscan::delete::delete_files_to_trash(vec!["/..".to_string()]);

    assert!(result.deleted.is_empty());
    assert_eq!(result.failed.len(), 1);
    assert_eq!(result.failed[0].path, "/..");
    assert!(result.failed[0].reason.contains("Invalid path"));
}

#[test]
fn test_delete_trailing_parent_spellings_record_failure() {
    // Trailing-`..` spellings, with or without separators after them, are
    // the shapes the trash cannot take; each is screened, never panicking.
    let result = dupscan::delete::delete_files_to_trash(vec![
        "/../".to_string(),
        "/tmp/..".to_string(),
        "..".to_string(),
    ]);

    assert!(result.deleted.is_empty());
    assert_eq!(result.failed.len(), 3);
    for failure in &result.failed {
        assert!(failure.reason.contains("Invalid path"));
    }
}

#[test]
fn test_delete_missing_file_records_failure() {
    let result = dupscan::delete::delete_files_to_trash(vec![
        "/this/file/does/not/exist/anywhere.txt".to_string(),
    ]);

    assert!(result.deleted.is_empty());
    assert_eq!(result.failed.len(), 1);
    assert_eq!(result.failed[0].path, "/this/file/does/not/exist/anywhere.txt");
}
