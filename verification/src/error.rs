//! Error taxonomy for scanner operations, with user-facing renderings and a
//! structured response form.

use vstd::prelude::*;
use vstd::string::StringExecFns;

verus! {

/// Main error type for scanner operations.
#[derive(Debug, Clone)]
pub enum ScannerError {
    /// Generic I/O failure, carrying the rendered error message.
    Io(String),
    /// Specified path does not exist.
    PathNotFound(String),
    /// Permission denied when accessing a file or directory.
    PermissionDenied(String),
    /// The scan was cancelled by the user.
    Cancelled,
    /// Invalid or malformed path.
    InvalidPath(String),
    /// A scan is already in progress.
    ScanInProgress,
    /// No scan is currently running.
    NoActiveScan,
    /// Failed to delete a file.
    DeleteFailed(String),
    /// Failed to move a file to the trash.
    TrashFailed(String),
    /// File disappeared during scanning.
    FileDisappeared(String),
}

/// Result type alias for scanner operations.
pub type ScannerResult<T> = Result<T, ScannerError>;

/// Which errors are safe to continue past: scanning may go on after a
/// per-item permission failure, a vanished file or a malformed path.
pub open spec fn spec_is_recoverable(e: ScannerError) -> bool {
    match e {
        ScannerError::PermissionDenied(_) => true,
        ScannerError::FileDisappeared(_) => true,
        ScannerError::InvalidPath(_) => true,
        _ => false,
    }
}

/// The terse rendering of an error, one line per variant.
pub open spec fn spec_display_message(e: ScannerError) -> Seq<char> {
    match e {
        ScannerError::Io(m) => "IO error: "@ + m@,
        ScannerError::PathNotFound(p) => "Path not found: "@ + p@,
        ScannerError::PermissionDenied(p) => "Permission denied: "@ + p@,
        ScannerError::Cancelled => "Scan cancelled"@,
        ScannerError::InvalidPath(p) => "Invalid path: "@ + p@,
        ScannerError::ScanInProgress => "A scan is already in progress"@,
        ScannerError::NoActiveScan => "No scan is currently running"@,
        ScannerError::DeleteFailed(p) => "Failed to delete file: "@ + p@,
        ScannerError::TrashFailed(p) => "Failed to move to trash: "@ + p@,
        ScannerError::FileDisappeared(p) => "File no longer exists: "@ + p@,
    }
}

/// The user-friendly rendering of an error.
pub open spec fn spec_user_message(e: ScannerError) -> Seq<char> {
    match e {
        ScannerError::Io(m) => "File operation failed: "@ + m@,
        ScannerError::PathNotFound(p) => "Path not found: "@ + p@,
        ScannerError::PermissionDenied(p) => "Access denied: "@ + p@,
        ScannerError::Cancelled => "Scan was cancelled"@,
        ScannerError::InvalidPath(p) => "Invalid path: "@ + p@,
        ScannerError::ScanInProgress => "A scan is already running"@,
        ScannerError::NoActiveScan => "No scan is currently running"@,
        ScannerError::DeleteFailed(p) => "Could not delete: "@ + p@,
        ScannerError::TrashFailed(p) => "Could not move to trash: "@ + p@,
        ScannerError::FileDisappeared(p) => "File was removed: "@ + p@,
    }
}

/// The stable code naming an error variant.
pub open spec fn spec_error_code(e: ScannerError) -> Seq<char> {
    match e {
        ScannerError::Io(_) => "IO_ERROR"@,
        ScannerError::PathNotFound(_) => "PATH_NOT_FOUND"@,
        ScannerError::PermissionDenied(_) => "PERMISSION_DENIED"@,
        ScannerError::Cancelled => "CANCELLED"@,
        ScannerError::InvalidPath(_) => "INVALID_PATH"@,
        ScannerError::ScanInProgress => "SCAN_IN_PROGRESS"@,
        ScannerError::NoActiveScan => "NO_ACTIVE_SCAN"@,
        ScannerError::DeleteFailed(_) => "DELETE_FAILED"@,
        ScannerError::TrashFailed(_) => "TRASH_FAILED"@,
        ScannerError::FileDisappeared(_) => "FILE_DISAPPEARED"@,
    }
}

/// The path an error carries, when its variant names one.
pub open spec fn spec_error_path(e: ScannerError) -> Option<Seq<char>> {
    match e {
        ScannerError::PathNotFound(p) => Some(p@),
        ScannerError::PermissionDenied(p) => Some(p@),
        ScannerError::InvalidPath(p) => Some(p@),
        ScannerError::DeleteFailed(p) => Some(p@),
        ScannerError::TrashFailed(p) => Some(p@),
        ScannerError::FileDisappeared(p) => Some(p@),
        _ => None,
    }
}

/// Declares `std::io::Error` so that values of it can cross a signature.
#[verifier::external_type_specification]
#[verifier::external_body]
pub struct ExIoError(std::io::Error);

impl ScannerError {
    /// Relies on the `Display` rendering of `std::io::Error`: wraps the
    /// rendered message in the generic I/O variant.
    #[verifier::external_body]
    pub fn from(e: std::io::Error) -> (r: ScannerError)
        ensures
            r matches ScannerError::Io(_),
    {
        ScannerError::Io(e.to_string())
    }

    /// True when scanning can continue for other files after this error.
    pub fn is_recoverable(&self) -> (r: bool)
        ensures
            r == spec_is_recoverable(*self),
    {
        match self {
            ScannerError::PermissionDenied(_) => true,
            ScannerError::FileDisappeared(_) => true,
            ScannerError::InvalidPath(_) => true,
            _ => false,
        }
    }

    /// The terse one-line rendering of this error.
    pub fn to_string(&self) -> (r: String)
        ensures
            r@ == spec_display_message(*self),
    {
        match self {
            ScannerError::Io(m) => String::from_str("IO error: ").concat(m.as_str()),
            ScannerError::PathNotFound(p) => String::from_str("Path not found: ").concat(
                p.as_str(),
            ),
            ScannerError::PermissionDenied(p) => String::from_str("Permission denied: ").concat(
                p.as_str(),
            ),
            ScannerError::Cancelled => String::from_str("Scan cancelled"),
            ScannerError::InvalidPath(p) => String::from_str("Invalid path: ").concat(p.as_str()),
            ScannerError::ScanInProgress => String::from_str("A scan is already in progress"),
            ScannerError::NoActiveScan => String::from_str("No scan is currently running"),
            ScannerError::DeleteFailed(p) => String::from_str("Failed to delete file: ").concat(
                p.as_str(),
            ),
            ScannerError::TrashFailed(p) => String::from_str("Failed to move to trash: ").concat(
                p.as_str(),
            ),
            ScannerError::FileDisappeared(p) => String::from_str("File no longer exists: ").concat(
                p.as_str(),
            ),
        }
    }

    /// Converts this error to a user-friendly message.
    pub fn user_message(&self) -> (r: String)
        ensures
            r@ == spec_user_message(*self),
    {
        match self {
            ScannerError::Io(m) => String::from_str("File operation failed: ").concat(m.as_str()),
            ScannerError::PathNotFound(p) => String::from_str("Path not found: ").concat(
                p.as_str(),
            ),
            ScannerError::PermissionDenied(p) => String::from_str("Access denied: ").concat(
                p.as_str(),
            ),
            ScannerError::Cancelled => String::from_str("Scan was cancelled"),
            ScannerError::InvalidPath(p) => String::from_str("Invalid path: ").concat(p.as_str()),
            ScannerError::ScanInProgress => String::from_str("A scan is already running"),
            ScannerError::NoActiveScan => String::from_str("No scan is currently running"),
            ScannerError::DeleteFailed(p) => String::from_str("Could not delete: ").concat(
                p.as_str(),
            ),
            ScannerError::TrashFailed(p) => String::from_str("Could not move to trash: ").concat(
                p.as_str(),
            ),
            ScannerError::FileDisappeared(p) => String::from_str("File was removed: ").concat(
                p.as_str(),
            ),
        }
    }
}

/// The three categories of I/O failure the hasher distinguishes for
/// user-facing messaging.
#[derive(Debug, Clone, Copy)]
pub enum IoFailureKind {
    /// The file was not found: it vanished between traversal and digesting.
    NotFound,
    /// Access to the file was denied.
    PermissionDenied,
    /// Any other I/O failure.
    Other,
}

/// Classifies a per-file I/O failure at `path`, rendered as `message`: a
/// vanished file and a permission failure get their own variants; anything
/// else is a generic I/O error carrying the message.
pub fn classify_io_failure(kind: IoFailureKind, path: &str, message: &str) -> (r: ScannerError)
    ensures
        kind matches IoFailureKind::NotFound ==> (r matches ScannerError::FileDisappeared(p)
            && p@ == path@),
        kind matches IoFailureKind::PermissionDenied ==> (r
            matches ScannerError::PermissionDenied(p) && p@ == path@),
        kind matches IoFailureKind::Other ==> (r matches ScannerError::Io(m) && m@ == message@),
{
    match kind {
        IoFailureKind::NotFound => ScannerError::FileDisappeared(path.to_owned()),
        IoFailureKind::PermissionDenied => ScannerError::PermissionDenied(path.to_owned()),
        IoFailureKind::Other => ScannerError::Io(message.to_owned()),
    }
}

/// Structured error response handed to the embedding shell.
#[derive(Debug, Clone)]
pub struct ErrorResponse {
    /// Error code for programmatic handling.
    pub code: String,
    /// Human-readable error message.
    pub message: String,
    /// Optional path related to the error.
    pub path: Option<String>,
}

impl ErrorResponse {
    /// Creates a response without a path.
    pub fn new(code: &str, message: &str) -> (r: Self)
        ensures
            r.code@ == code@,
            r.message@ == message@,
            r.path is None,
    {
        ErrorResponse { code: code.to_owned(), message: message.to_owned(), path: None }
    }

    /// Adds a path to the response.
    pub fn with_path(self, path: &str) -> (r: Self)
        ensures
            r.code == self.code,
            r.message == self.message,
            r.path matches Some(p) && p@ == path@,
    {
        ErrorResponse { path: Some(path.to_owned()), ..self }
    }

    /// Builds the response for an error: its code, its user-friendly message
    /// and the path it names, if any.
    pub fn from_error(e: &ScannerError) -> (r: Self)
        ensures
            r.code@ == spec_error_code(*e),
            r.message@ == spec_user_message(*e),
            spec_error_path(*e) is None ==> r.path is None,
            spec_error_path(*e) matches Some(p) ==> (r.path matches Some(q) && q@ == p),
    {
        let code: &str = match e {
            ScannerError::Io(_) => "IO_ERROR",
            ScannerError::PathNotFound(_) => "PATH_NOT_FOUND",
            ScannerError::PermissionDenied(_) => "PERMISSION_DENIED",
            ScannerError::Cancelled => "CANCELLED",
            ScannerError::InvalidPath(_) => "INVALID_PATH",
            ScannerError::ScanInProgress => "SCAN_IN_PROGRESS",
            ScannerError::NoActiveScan => "NO_ACTIVE_SCAN",
            ScannerError::DeleteFailed(_) => "DELETE_FAILED",
            ScannerError::TrashFailed(_) => "TRASH_FAILED",
            ScannerError::FileDisappeared(_) => "FILE_DISAPPEARED",
        };
        let message: String = e.user_message();
        let path: Option<String> = match e {
            ScannerError::PathNotFound(p) => Some(p.clone()),
            ScannerError::PermissionDenied(p) => Some(p.clone()),
            ScannerError::InvalidPath(p) => Some(p.clone()),
            ScannerError::DeleteFailed(p) => Some(p.clone()),
            ScannerError::TrashFailed(p) => Some(p.clone()),
            ScannerError::FileDisappeared(p) => Some(p.clone()),
            _ => None,
        };
        ErrorResponse { code: code.to_owned(), message, path }
    }
}

impl From<ScannerError> for ErrorResponse {
    fn from(e: ScannerError) -> (r: Self) {
        ErrorResponse::from_error(&e)
    }
}

impl vstd::std_specs::convert::FromSpecImpl<ScannerError> for ErrorResponse {
    open spec fn obeys_from_spec() -> bool {
        false
    }

    open spec fn from_spec(e: ScannerError) -> Self {
        vstd::pervasive::arbitrary()
    }
}

} // verus!
