use dupscan::error::{classify_io_failure, ErrorResponse, IoFailureKind, ScannerError};
use std::io::{Error as IoError, ErrorKind};

#[test]
fn test_io_error_conversion() {
    let io_err = IoError::new(ErrorKind::NotFound, "file not found");
    let scanner_err = ScannerError::from(io_err);

    assert!(matches!(scanner_err, ScannerError::Io(_)));
    assert!(scanner_err.to_string().contains("IO error"));
}

#[test]
fn test_path_not_found() {
    let err = ScannerError::PathNotFound("/missing/path".to_string());
    assert_eq!(err.to_string(), "Path not found: /missing/path");
    assert!(!err.is_recoverable());
}

#[test]
fn test_permission_denied_is_recoverable() {
    let err = ScannerError::PermissionDenied("/protected/file".to_string());
    assert!(err.is_recoverable());
}

#[test]
fn test_file_disappeared_is_recoverable() {
    let err = ScannerError::FileDisappeared("/tmp/gone".to_string());
    assert!(err.is_recoverable());
}

#[test]
fn test_cancelled_not_recoverable() {
    let err = ScannerError::Cancelled;
    assert!(!err.is_recoverable());
}

#[test]
fn test_user_message() {
    let err = ScannerError::ScanInProgress;
    assert_eq!(err.user_message(), "A scan is already running");
}

#[test]
fn test_error_response_creation() {
    let response = ErrorResponse::new("TEST_ERROR", "Test message");
    assert_eq!(response.code, "TEST_ERROR");
    assert_eq!(response.message, "Test message");
    assert!(response.path.is_none());
}

#[test]
fn test_error_response_with_path() {
    let response = ErrorResponse::new("ERROR", "Message").with_path("/some/path");

    assert_eq!(response.path, Some("/some/path".to_string()));
}

#[test]
fn test_scanner_error_to_error_response() {
    let err = ScannerError::PathNotFound("/test/path".to_string());
    let response: ErrorResponse = err.into();

    assert_eq!(response.code, "PATH_NOT_FOUND");
    assert!(response.message.contains("/test/path"));
    assert_eq!(response.path, Some("/test/path".to_string()));
}

#[test]
fn test_cancelled_error_response() {
    let err = ScannerError::Cancelled;
    let response: ErrorResponse = err.into();

    assert_eq!(response.code, "CANCELLED");
    assert!(response.path.is_none());
}

#[test]
fn test_every_error_code() {
    let cases = vec![
        (ScannerError::Io("x".to_string()), "IO_ERROR"),
        (ScannerError::PathNotFound("p".to_string()), "PATH_NOT_FOUND"),
        (ScannerError::PermissionDenied("p".to_string()), "PERMISSION_DENIED"),
        (ScannerError::Cancelled, "CANCELLED"),
        (ScannerError::InvalidPath("p".to_string()), "INVALID_PATH"),
        (ScannerError::ScanInProgress, "SCAN_IN_PROGRESS"),
        (ScannerError::NoActiveScan, "NO_ACTIVE_SCAN"),
        (ScannerError::DeleteFailed("p".to_string()), "DELETE_FAILED"),
        (ScannerError::TrashFailed("p".to_string()), "TRASH_FAILED"),
        (ScannerError::FileDisappeared("p".to_string()), "FILE_DISAPPEARED"),
    ];
    for (err, code) in cases {
        let response = ErrorResponse::from_error(&err);
        assert_eq!(response.code, code);
    }
}

#[test]
fn test_classify_io_failure() {
    let gone = classify_io_failure(IoFailureKind::NotFound, "/p", "no such file");
    assert!(matches!(gone, ScannerError::FileDisappeared(p) if p == "/p"));

    let denied = classify_io_failure(IoFailureKind::PermissionDenied, "/p", "denied");
    assert!(matches!(denied, ScannerError::PermissionDenied(p) if p == "/p"));

    let other = classify_io_failure(IoFailureKind::Other, "/p", "disk error");
    assert!(matches!(other, ScannerError::Io(m) if m == "disk error"));
}

#[test]
fn test_user_messages_by_variant() {
    assert_eq!(
        ScannerError::PathNotFound("/p".to_string()).user_message(),
        "Path not found: /p"
    );
    assert_eq!(
        ScannerError::PermissionDenied("/p".to_string()).user_message(),
        "Access denied: /p"
    );
    assert_eq!(ScannerError::Cancelled.user_message(), "Scan was cancelled");
    assert_eq!(
        ScannerError::NoActiveScan.user_message(),
        "No scan is currently running"
    );
    assert_eq!(
        ScannerError::TrashFailed("/p".to_string()).user_message(),
        "Could not move to trash: /p"
    );
    assert_eq!(
        ScannerError::FileDisappeared("/p".to_string()).user_message(),
        "File was removed: /p"
    );
}
