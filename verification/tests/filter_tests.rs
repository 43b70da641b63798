use dupscan::filter::FileFilter;

#[test]
fn test_no_filter() {
    let filter = FileFilter::new();
    let path = "/test/file.txt";

    assert!(filter.matches(path, 0));
    assert!(filter.matches(path, 1000));
    assert!(filter.matches(path, u64::MAX));
}

#[test]
fn test_min_size_filter() {
    let filter = FileFilter::new().with_min_size(1024);
    let path = "/test/file.txt";

    assert!(!filter.matches(path, 0));
    assert!(!filter.matches(path, 1023));
    assert!(filter.matches(path, 1024));
    assert!(filter.matches(path, 2048));
}

#[test]
fn test_include_extensions() {
    let filter =
        FileFilter::new().with_include_extensions(vec!["jpg".to_string(), "png".to_string()]);

    assert!(filter.matches("/test/photo.jpg", 100));
    assert!(filter.matches("/test/photo.JPG", 100)); // Case insensitive
    assert!(filter.matches("/test/image.png", 100));
    assert!(!filter.matches("/test/document.pdf", 100));
    assert!(!filter.matches("/test/noextension", 100));
}

#[test]
fn test_include_extensions_with_dot() {
    let filter =
        FileFilter::new().with_include_extensions(vec![".jpg".to_string(), ".png".to_string()]);

    // Should work the same - dots are stripped
    assert!(filter.matches("/test/photo.jpg", 100));
    assert!(filter.matches("/test/image.png", 100));
}

#[test]
fn test_exclude_extensions() {
    let filter =
        FileFilter::new().with_exclude_extensions(vec!["tmp".to_string(), "bak".to_string()]);

    assert!(filter.matches("/test/file.txt", 100));
    assert!(filter.matches("/test/file.jpg", 100));
    assert!(!filter.matches("/test/file.tmp", 100));
    assert!(!filter.matches("/test/file.TMP", 100)); // Case insensitive
    assert!(!filter.matches("/test/file.bak", 100));
}

#[test]
fn test_exclude_takes_precedence() {
    // Include jpg and png, but exclude png
    let filter = FileFilter::new()
        .with_include_extensions(vec!["jpg".to_string(), "png".to_string()])
        .with_exclude_extensions(vec!["png".to_string()]);

    assert!(filter.matches("/test/photo.jpg", 100));
    assert!(!filter.matches("/test/image.png", 100)); // Excluded
}

#[test]
fn test_combined_filters() {
    let filter = FileFilter::new()
        .with_min_size(1024)
        .with_include_extensions(vec!["jpg".to_string()])
        .with_exclude_extensions(vec!["tmp".to_string()]);

    // Too small
    assert!(!filter.matches("/test/photo.jpg", 500));

    // Right size, right extension
    assert!(filter.matches("/test/photo.jpg", 2048));

    // Right size, wrong extension
    assert!(!filter.matches("/test/document.pdf", 2048));

    // Excluded extension
    assert!(!filter.matches("/test/file.tmp", 2048));
}

#[test]
fn test_file_without_extension() {
    let filter = FileFilter::new().with_include_extensions(vec!["txt".to_string()]);

    assert!(!filter.matches("/test/README", 100));
    assert!(filter.matches("/test/README.txt", 100));
}

#[test]
fn test_empty_extension_lists() {
    let filter = FileFilter::new()
        .with_include_extensions(vec![])
        .with_exclude_extensions(vec![]);

    // Empty lists should not filter anything
    assert!(filter.matches("/test/file.txt", 100));
    assert!(filter.matches("/test/file.jpg", 100));
}

#[test]
fn test_empty_string_in_include_matches_missing_extension() {
    // A file without an extension passes an include filter only when the
    // include set explicitly lists the empty string.
    let filter = FileFilter::new()
        .with_include_extensions(vec!["".to_string(), "txt".to_string()]);

    assert!(filter.matches("/test/README", 100));
    assert!(filter.matches("/test/notes.txt", 100));
    assert!(!filter.matches("/test/image.jpg", 100));
}

#[test]
fn test_has_restrictions() {
    let no_filter = FileFilter::new();
    assert!(!no_filter.has_restrictions());

    let size_filter = FileFilter::new().with_min_size(100);
    assert!(size_filter.has_restrictions());

    let include_filter = FileFilter::new().with_include_extensions(vec!["txt".to_string()]);
    assert!(include_filter.has_restrictions());

    let exclude_filter = FileFilter::new().with_exclude_extensions(vec!["tmp".to_string()]);
    assert!(exclude_filter.has_restrictions());
}

#[test]
fn test_default() {
    let filter = FileFilter::default();
    assert!(!filter.has_restrictions());
}

#[test]
fn test_multiple_dots_in_filename() {
    let filter = FileFilter::new().with_include_extensions(vec!["gz".to_string()]);

    assert!(filter.matches("/test/archive.tar.gz", 100));
    assert!(!filter.matches("/test/archive.tar", 100));
}

#[test]
fn test_hidden_file_has_no_extension() {
    let filter = FileFilter::new().with_include_extensions(vec!["bashrc".to_string()]);

    // A name that starts with its only dot carries no extension.
    assert!(!filter.matches("/home/user/.bashrc", 100));
}
