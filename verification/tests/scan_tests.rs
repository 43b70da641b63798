use dupscan::error::ScannerError;
use dupscan::filter::FileFilter;
use dupscan::scan::{
    count_files_in_groups, flatten_size_groups, group_by_size, process_walk_item,
    scan_directories, ScanOutput, SizeGroups, WalkItem,
};
use dupscan::types::{FileEntry, ScanError, ScanOptions};

#[test]
fn test_scan_nonexistent_path() {
    let options = ScanOptions {
        root_paths: vec!["/this/path/does/not/exist".to_string()],
        ..Default::default()
    };

    let result = scan_directories(&options);
    assert!(matches!(result, Err(ScannerError::PathNotFound(_))));
}

#[test]
fn test_scan_no_roots() {
    let options = ScanOptions::default();

    let result = scan_directories(&options).unwrap();
    assert!(result.files.is_empty());
    assert!(result.errors.is_empty());
}

#[test]
fn test_group_by_size_basic() {
    let files = vec![
        FileEntry::new("/a.txt".to_string(), 100, None),
        FileEntry::new("/b.txt".to_string(), 100, None),
        FileEntry::new("/c.txt".to_string(), 200, None),
        FileEntry::new("/d.txt".to_string(), 200, None),
        FileEntry::new("/e.txt".to_string(), 300, None), // Unique size
    ];

    let groups = group_by_size(files);

    // Only sizes 100 and 200 have duplicates
    assert_eq!(groups.len(), 2);
    assert!(groups.contains_key(&100));
    assert!(groups.contains_key(&200));
    assert!(!groups.contains_key(&300)); // Unique size removed

    assert_eq!(groups.get(&100).unwrap().len(), 2);
    assert_eq!(groups.get(&200).unwrap().len(), 2);
}

#[test]
fn test_group_by_size_empty() {
    let files: Vec<FileEntry> = vec![];
    let groups = group_by_size(files);
    assert!(groups.is_empty());
}

#[test]
fn test_group_by_size_all_unique() {
    let files = vec![
        FileEntry::new("/a.txt".to_string(), 100, None),
        FileEntry::new("/b.txt".to_string(), 200, None),
        FileEntry::new("/c.txt".to_string(), 300, None),
    ];

    let groups = group_by_size(files);
    assert!(groups.is_empty()); // All unique, no groups
}

#[test]
fn test_count_files_in_groups() {
    let mut groups = SizeGroups::new();
    groups.insert(
        100,
        vec![
            FileEntry::new("/a.txt".to_string(), 100, None),
            FileEntry::new("/b.txt".to_string(), 100, None),
        ],
    );
    groups.insert(
        200,
        vec![
            FileEntry::new("/c.txt".to_string(), 200, None),
            FileEntry::new("/d.txt".to_string(), 200, None),
            FileEntry::new("/e.txt".to_string(), 200, None),
        ],
    );

    assert_eq!(count_files_in_groups(&groups), 5);
}

#[test]
fn test_flatten_size_groups() {
    let files = vec![
        FileEntry::new("/a.txt".to_string(), 100, None),
        FileEntry::new("/b.txt".to_string(), 200, None),
        FileEntry::new("/c.txt".to_string(), 100, None),
        FileEntry::new("/d.txt".to_string(), 300, None),
        FileEntry::new("/e.txt".to_string(), 200, None),
    ];

    let groups = group_by_size(files);
    let flat = flatten_size_groups(&groups);

    // Sizes 100 and 200 are kept, size 300 is not.
    assert_eq!(flat.len(), 4);
    assert!(flat.iter().all(|f| f.size == 100 || f.size == 200));
}

#[test]
fn test_walk_item_directory_is_skipped() {
    let filter = FileFilter::new();
    let mut output = ScanOutput::new();
    process_walk_item(
        WalkItem::Entry { path: "/d".to_string(), is_dir: true, meta: Ok((0, None)) },
        &filter,
        &mut output,
    );

    assert!(output.files.is_empty());
    assert!(output.errors.is_empty());
}

#[test]
fn test_walk_item_metadata_failure_is_recorded() {
    let filter = FileFilter::new();
    let mut output = ScanOutput::new();
    process_walk_item(
        WalkItem::Entry {
            path: "/f.txt".to_string(),
            is_dir: false,
            meta: Err("Permission denied".to_string()),
        },
        &filter,
        &mut output,
    );

    assert!(output.files.is_empty());
    assert_eq!(output.errors.len(), 1);
    assert_eq!(output.errors[0].path, "/f.txt");
    assert_eq!(output.errors[0].message, "Permission denied");
}

#[test]
fn test_walk_item_passing_file_is_kept() {
    let filter = FileFilter::new();
    let mut output = ScanOutput::new();
    process_walk_item(
        WalkItem::Entry {
            path: "/f.txt".to_string(),
            is_dir: false,
            meta: Ok((42, Some(1700000000))),
        },
        &filter,
        &mut output,
    );

    assert_eq!(output.files.len(), 1);
    assert_eq!(output.files[0].path, "/f.txt");
    assert_eq!(output.files[0].size, 42);
    assert_eq!(output.files[0].modified, Some("1700000000".to_string()));
    assert!(output.errors.is_empty());
}

#[test]
fn test_walk_item_filtered_file_is_dropped() {
    let filter = FileFilter::new().with_min_size(100);
    let mut output = ScanOutput::new();
    process_walk_item(
        WalkItem::Entry { path: "/f.txt".to_string(), is_dir: false, meta: Ok((42, None)) },
        &filter,
        &mut output,
    );

    assert!(output.files.is_empty());
    assert!(output.errors.is_empty());
}

#[test]
fn test_walk_item_walk_failure_is_recorded() {
    let filter = FileFilter::new();
    let mut output = ScanOutput::new();
    process_walk_item(
        WalkItem::Failure { path: "/loop".to_string(), message: "symlink cycle".to_string() },
        &filter,
        &mut output,
    );

    assert!(output.files.is_empty());
    assert_eq!(output.errors.len(), 1);
    assert_eq!(output.errors[0].path, "/loop");
    assert_eq!(output.errors[0].message, "symlink cycle");
}

#[test]
fn test_grouped_total_matches_shared_files() {
    // Summing all kept list lengths equals the number of files that share
    // their size with at least one other file.
    let files = vec![
        FileEntry::new("/a.txt".to_string(), 100, None),
        FileEntry::new("/b.txt".to_string(), 100, None),
        FileEntry::new("/c.txt".to_string(), 200, None),
        FileEntry::new("/d.txt".to_string(), 200, None),
        FileEntry::new("/e.txt".to_string(), 200, None),
        FileEntry::new("/f.txt".to_string(), 300, None),
    ];

    let groups = group_by_size(files);
    // Files sharing a size: the two of size 100 and the three of size 200.
    assert_eq!(count_files_in_groups(&groups), 5);
}

#[test]
fn test_scan_output_new() {
    let output = ScanOutput::new();
    assert!(output.files.is_empty());
    assert!(output.errors.is_empty());
}

#[test]
fn test_scan_output_add_file() {
    let mut output = ScanOutput::new();
    output.add_file(FileEntry::new("/test.txt".to_string(), 100, None));

    assert_eq!(output.files.len(), 1);
}

#[test]
fn test_scan_output_add_error() {
    let mut output = ScanOutput::new();
    output.add_error(ScanError::new("/bad/path", "Permission denied"));

    assert_eq!(output.errors.len(), 1);
    assert_eq!(output.errors[0].path, "/bad/path");
}
