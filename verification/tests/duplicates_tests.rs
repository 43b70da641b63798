use dupscan::duplicates::{
    calculate_total_duplicates, calculate_total_wasted_space, filter_by_min_wasted_space,
    find_duplicates,
};
use dupscan::types::{DuplicateGroup, FileEntry};

fn file(path: &str, size: u64) -> FileEntry {
    FileEntry::new(path.to_string(), size, None)
}

#[test]
fn test_find_duplicates_basic() {
    let files = vec![
        (file("/a.txt", 100), "hash1".to_string()),
        (file("/b.txt", 100), "hash1".to_string()),
        (file("/c.txt", 200), "hash2".to_string()),
        (file("/d.txt", 200), "hash2".to_string()),
        (file("/e.txt", 300), "hash3".to_string()), // Unique
    ];

    let groups = find_duplicates(files);

    assert_eq!(groups.len(), 2);
    // Should be sorted by wasted space - 200 byte group comes first
    assert_eq!(groups[0].size, 200);
    assert_eq!(groups[1].size, 100);
}

#[test]
fn test_find_duplicates_empty() {
    let files: Vec<(FileEntry, String)> = vec![];
    let groups = find_duplicates(files);
    assert!(groups.is_empty());
}

#[test]
fn test_find_duplicates_no_duplicates() {
    let files = vec![
        (file("/a.txt", 100), "hash1".to_string()),
        (file("/b.txt", 200), "hash2".to_string()),
        (file("/c.txt", 300), "hash3".to_string()),
    ];

    let groups = find_duplicates(files);
    assert!(groups.is_empty());
}

#[test]
fn test_find_duplicates_all_same() {
    let files = vec![
        (file("/a.txt", 100), "same".to_string()),
        (file("/b.txt", 100), "same".to_string()),
        (file("/c.txt", 100), "same".to_string()),
        (file("/d.txt", 100), "same".to_string()),
    ];

    let groups = find_duplicates(files);

    assert_eq!(groups.len(), 1);
    assert_eq!(groups[0].files.len(), 4);
    assert_eq!(groups[0].hash, "same");
}

#[test]
fn test_find_duplicates_sorted_by_wasted_space() {
    let files = vec![
        // Small files (wasted: 100)
        (file("/small1.txt", 100), "small".to_string()),
        (file("/small2.txt", 100), "small".to_string()),
        // Large files (wasted: 1000)
        (file("/large1.txt", 1000), "large".to_string()),
        (file("/large2.txt", 1000), "large".to_string()),
        // Medium files (wasted: 500)
        (file("/med1.txt", 500), "medium".to_string()),
        (file("/med2.txt", 500), "medium".to_string()),
    ];

    let groups = find_duplicates(files);

    assert_eq!(groups.len(), 3);
    // Should be sorted: large (1000), medium (500), small (100)
    assert_eq!(groups[0].hash, "large");
    assert_eq!(groups[1].hash, "medium");
    assert_eq!(groups[2].hash, "small");
}

#[test]
fn test_find_duplicates_deterministic() {
    let build = || {
        vec![
            (file("/a.txt", 100), "h1".to_string()),
            (file("/b.txt", 100), "h2".to_string()),
            (file("/c.txt", 100), "h1".to_string()),
            (file("/d.txt", 100), "h2".to_string()),
        ]
    };

    // Two groups with equal wasted space: the order is fixed for a fixed
    // input order.
    let first = find_duplicates(build());
    let second = find_duplicates(build());
    assert_eq!(first.len(), 2);
    assert_eq!(first[0].hash, second[0].hash);
    assert_eq!(first[1].hash, second[1].hash);
    assert_eq!(first[0].hash, "h1");
    assert_eq!(first[1].hash, "h2");
}

#[test]
fn test_calculate_total_wasted_space() {
    let groups = vec![
        DuplicateGroup::new(
            "hash1".to_string(),
            100,
            vec![file("/a.txt", 100), file("/b.txt", 100)],
        ),
        DuplicateGroup::new(
            "hash2".to_string(),
            200,
            vec![file("/c.txt", 200), file("/d.txt", 200), file("/e.txt", 200)],
        ),
    ];

    // (2-1)*100 + (3-1)*200 = 100 + 400 = 500
    assert_eq!(calculate_total_wasted_space(&groups), 500);
}

#[test]
fn test_calculate_total_wasted_space_empty() {
    let groups: Vec<DuplicateGroup> = vec![];
    assert_eq!(calculate_total_wasted_space(&groups), 0);
}

#[test]
fn test_calculate_total_duplicates() {
    let groups = vec![
        DuplicateGroup::new(
            "hash1".to_string(),
            100,
            vec![file("/a.txt", 100), file("/b.txt", 100)],
        ),
        DuplicateGroup::new(
            "hash2".to_string(),
            200,
            vec![file("/c.txt", 200), file("/d.txt", 200), file("/e.txt", 200)],
        ),
    ];

    assert_eq!(calculate_total_duplicates(&groups), 5);
}

#[test]
fn test_filter_by_min_wasted_space() {
    let groups = vec![
        DuplicateGroup::new(
            "small".to_string(),
            100,
            vec![file("/a.txt", 100), file("/b.txt", 100)],
        ), // wasted: 100
        DuplicateGroup::new(
            "large".to_string(),
            1000,
            vec![file("/c.txt", 1000), file("/d.txt", 1000)],
        ), // wasted: 1000
    ];

    let filtered = filter_by_min_wasted_space(groups, 500);

    assert_eq!(filtered.len(), 1);
    assert_eq!(filtered[0].hash, "large");
}

#[test]
fn test_filter_by_min_wasted_space_none_match() {
    let groups = vec![DuplicateGroup::new(
        "small".to_string(),
        100,
        vec![file("/a.txt", 100), file("/b.txt", 100)],
    )];

    let filtered = filter_by_min_wasted_space(groups, 1000);
    assert!(filtered.is_empty());
}

#[test]
fn test_group_preserves_file_metadata() {
    let files = vec![
        (
            FileEntry::new("/a.txt".to_string(), 100, Some("2024-01-01".to_string())),
            "hash".to_string(),
        ),
        (
            FileEntry::new("/b.txt".to_string(), 100, Some("2024-01-02".to_string())),
            "hash".to_string(),
        ),
    ];

    let groups = find_duplicates(files);

    assert_eq!(groups.len(), 1);
    // Metadata should be preserved
    let file1 = &groups[0].files[0];
    let file2 = &groups[0].files[1];
    assert!(file1.modified.is_some() || file2.modified.is_some());
}
