//! Core value types: scan configuration, file entries, duplicate groups and
//! the assembled scan report.

use vstd::prelude::*;

verus! {

/// Options for configuring a duplicate scan operation.
#[derive(Debug, Clone)]
pub struct ScanOptions {
    /// Root directories to scan for duplicates.
    pub root_paths: Vec<String>,
    /// Minimum file size in bytes to consider (smaller files are skipped).
    pub min_file_size: Option<u64>,
    /// Only include files with these extensions (case-insensitive).
    pub include_extensions: Option<Vec<String>>,
    /// Exclude files with these extensions (case-insensitive); wins over include.
    pub exclude_extensions: Option<Vec<String>>,
    /// Whether to follow symbolic links during scanning.
    pub follow_symlinks: bool,
}

impl Default for ScanOptions {
    /// An empty option set: no roots, no restrictions, symlinks not followed.
    fn default() -> (r: Self)
        ensures
            r.root_paths@.len() == 0,
            r.min_file_size is None,
            r.include_extensions is None,
            r.exclude_extensions is None,
            !r.follow_symlinks,
    {
        ScanOptions {
            root_paths: Vec::new(),
            min_file_size: None,
            include_extensions: None,
            exclude_extensions: None,
            follow_symlinks: false,
        }
    }
}

/// A single file with its metadata, as collected by the traverser.
#[derive(Debug, Clone)]
pub struct FileEntry {
    /// Absolute path to the file.
    pub path: String,
    /// File size in bytes.
    pub size: u64,
    /// Last modification time rendered as a decimal Unix timestamp, if known.
    pub modified: Option<String>,
}

impl FileEntry {
    /// Creates a new entry from its three fields.
    pub fn new(path: String, size: u64, modified: Option<String>) -> (r: Self)
        ensures
            r.path == path,
            r.size == size,
            r.modified == modified,
    {
        FileEntry { path, size, modified }
    }
}

/// The space reclaimable by keeping one file of a group of `count` files of
/// `size` bytes each, saturated at `u64::MAX`.
pub open spec fn spec_wasted_space(count: int, size: int) -> int {
    if count <= 1 {
        0
    } else if (count - 1) * size <= u64::MAX as int {
        (count - 1) * size
    } else {
        u64::MAX as int
    }
}

/// A group of duplicate files sharing one content digest.
#[derive(Debug, Clone)]
pub struct DuplicateGroup {
    /// Content digest shared by every file of the group (lowercase hex).
    pub hash: String,
    /// Size of each file in bytes.
    pub size: u64,
    /// The files carrying this digest.
    pub files: Vec<FileEntry>,
}

impl DuplicateGroup {
    /// Creates a group from its three fields.
    pub fn new(hash: String, size: u64, files: Vec<FileEntry>) -> (r: Self)
        ensures
            r.hash == hash,
            r.size == size,
            r.files == files,
    {
        DuplicateGroup { hash, size, files }
    }

    /// Returns the number of files in this group.
    pub fn count(&self) -> (r: usize)
        ensures
            r == self.files@.len(),
    {
        self.files.len()
    }

    /// The space recoverable by keeping only one copy: `(count - 1) * size`,
    /// saturated at `u64::MAX`; zero for groups of one or no file.
    pub fn wasted_space(&self) -> (r: u64)
        ensures
            r as int == spec_wasted_space(self.files@.len() as int, self.size as int),
    {
        if self.files.len() <= 1 {
            return 0u64;
        }
        let extra: u64 = (self.files.len() - 1) as u64;
        proof {
            assert((extra as int) * (self.size as int) <= (u64::MAX as int) * (u64::MAX as int))
                by (nonlinear_arith)
                requires
                    0 <= extra as int <= u64::MAX as int,
                    0 <= self.size as int <= u64::MAX as int,
            ;
        }
        let prod: u128 = (extra as u128) * (self.size as u128);
        if prod > u64::MAX as u128 {
            u64::MAX
        } else {
            prod as u64
        }
    }
}

/// Phases of the duplicate scanning process.
#[derive(Debug, Clone, Copy, PartialEq, Eq, Structural)]
pub enum ScanPhase {
    /// Initial directory traversal, collecting files.
    Counting,
    /// Grouping files by size.
    Grouping,
    /// Digesting candidate files.
    Hashing,
    /// Final grouping by digest.
    Finalizing,
    /// Scan completed successfully.
    Complete,
    /// Scan was cancelled by the user.
    Cancelled,
}

/// Progress information for an ongoing scan.
#[derive(Debug, Clone)]
pub struct ScanProgress {
    /// Number of files handled so far.
    pub files_scanned: u64,
    /// Total number of files to handle, if known.
    pub files_total: Option<u64>,
    /// Current phase of the scan.
    pub current_phase: ScanPhase,
    /// Optional message with additional details.
    pub message: Option<String>,
}

impl ScanProgress {
    /// Creates a progress record with no message.
    pub fn new(files_scanned: u64, files_total: Option<u64>, current_phase: ScanPhase) -> (r: Self)
        ensures
            r.files_scanned == files_scanned,
            r.files_total == files_total,
            r.current_phase == current_phase,
            r.message is None,
    {
        ScanProgress { files_scanned, files_total, current_phase, message: None }
    }

    /// Sets an optional message.
    pub fn with_message(self, message: &str) -> (r: Self)
        ensures
            r.files_scanned == self.files_scanned,
            r.files_total == self.files_total,
            r.current_phase == self.current_phase,
            r.message matches Some(m) && m@ == message@,
    {
        ScanProgress { message: Some(message.to_owned()), ..self }
    }
}

/// A non-fatal error recorded while scanning.
#[derive(Debug, Clone)]
pub struct ScanError {
    /// Path that caused the error.
    pub path: String,
    /// Human-readable error message.
    pub message: String,
}

impl ScanError {
    /// Creates a record from a path and a message.
    pub fn new(path: &str, message: &str) -> (r: Self)
        ensures
            r.path@ == path@,
            r.message@ == message@,
    {
        ScanError { path: path.to_owned(), message: message.to_owned() }
    }
}

/// The sum of the file counts of `groups`.
pub open spec fn spec_total_count(groups: Seq<DuplicateGroup>) -> int
    decreases groups.len(),
{
    if groups.len() == 0 {
        0
    } else {
        spec_total_count(groups.drop_last()) + groups.last().files@.len()
    }
}

/// The sum of the wasted space of `groups` (each term already saturated).
pub open spec fn spec_total_wasted(groups: Seq<DuplicateGroup>) -> int
    decreases groups.len(),
{
    if groups.len() == 0 {
        0
    } else {
        spec_total_wasted(groups.drop_last()) + spec_wasted_space(
            groups.last().files@.len() as int,
            groups.last().size as int,
        )
    }
}

/// `v` clipped to the range of `u64`.
pub open spec fn spec_saturate_u64(v: int) -> int {
    if v <= u64::MAX as int {
        v
    } else {
        u64::MAX as int
    }
}

/// Result of a completed duplicate scan.
#[derive(Debug, Clone)]
pub struct ScanResult {
    /// Groups of duplicate files found, largest waste first.
    pub duplicate_groups: Vec<DuplicateGroup>,
    /// Total number of files scanned.
    pub total_files_scanned: u64,
    /// Total number of duplicate files found (sum of all group counts).
    pub total_duplicates_found: u64,
    /// Total wasted space in bytes across all groups.
    pub total_wasted_space: u64,
    /// Non-fatal errors encountered during scanning.
    pub errors: Vec<ScanError>,
    /// Duration of the scan in milliseconds.
    pub duration_ms: u64,
}

impl ScanResult {
    /// Assembles a report; the two totals are derived from the groups here
    /// and nowhere else, each sum saturated at `u64::MAX`.
    pub fn new(
        duplicate_groups: Vec<DuplicateGroup>,
        total_files_scanned: u64,
        errors: Vec<ScanError>,
        duration_ms: u64,
    ) -> (r: Self)
        ensures
            r.duplicate_groups == duplicate_groups,
            r.total_files_scanned == total_files_scanned,
            r.errors == errors,
            r.duration_ms == duration_ms,
            r.total_duplicates_found as int == spec_saturate_u64(
                spec_total_count(duplicate_groups@),
            ),
            r.total_wasted_space as int == spec_saturate_u64(spec_total_wasted(duplicate_groups@)),
    {
        let mut total_duplicates_found: u64 = 0;
        let mut total_wasted_space: u64 = 0;
        let mut i: usize = 0;
        while i < duplicate_groups.len()
            invariant
                0 <= i <= duplicate_groups@.len(),
                total_duplicates_found as int == spec_saturate_u64(
                    spec_total_count(duplicate_groups@.take(i as int)),
                ),
                total_wasted_space as int == spec_saturate_u64(
                    spec_total_wasted(duplicate_groups@.take(i as int)),
                ),
            decreases duplicate_groups@.len() - i,
        {
            proof {
                assert(duplicate_groups@.take(i + 1).drop_last() =~= duplicate_groups@.take(
                    i as int,
                ));
                assert(duplicate_groups@.take(i + 1).last() == duplicate_groups@[i as int]);
            }
            let g = &duplicate_groups[i];
            let c: usize = g.count();
            total_duplicates_found = saturating_add_u64_usize(total_duplicates_found, c);
            let w: u64 = g.wasted_space();
            total_wasted_space = saturating_add_u64(total_wasted_space, w);
            i = i + 1;
        }
        proof {
            assert(duplicate_groups@.take(duplicate_groups@.len() as int) =~= duplicate_groups@);
        }
        ScanResult {
            duplicate_groups,
            total_files_scanned,
            total_duplicates_found,
            total_wasted_space,
            errors,
            duration_ms,
        }
    }
}

/// A group's wasted space is exactly `(count - 1) * size` whenever that
/// product fits a `u64`, and zero for a group of one or no file.
pub proof fn lemma_wasted_space_formula(g: DuplicateGroup)
    requires
        (g.files@.len() - 1) * g.size <= u64::MAX as int,
    ensures
        g.files@.len() >= 2 ==> spec_wasted_space(g.files@.len() as int, g.size as int) == (
        g.files@.len() - 1) * g.size,
        g.files@.len() <= 1 ==> spec_wasted_space(g.files@.len() as int, g.size as int) == 0,
{
}

/// `a + b` saturated at `u64::MAX`.
pub(crate) fn saturating_add_u64(a: u64, b: u64) -> (r: u64)
    ensures
        r as int == spec_saturate_u64(a as int + b as int),
{
    if a > u64::MAX - b {
        u64::MAX
    } else {
        a + b
    }
}

/// `a + b` saturated at `u64::MAX`, for a `usize` increment.
pub(crate) fn saturating_add_u64_usize(a: u64, b: usize) -> (r: u64)
    ensures
        r as int == spec_saturate_u64(a as int + b as int),
{
    let wide: u128 = (a as u128) + (b as u128);
    if wide > u64::MAX as u128 {
        u64::MAX
    } else {
        wide as u64
    }
}

/// Error information for a failed file deletion.
#[derive(Debug, Clone)]
pub struct DeleteError {
    /// Path of the file that could not be deleted.
    pub path: String,
    /// Reason for the failure.
    pub reason: String,
}

impl DeleteError {
    /// Creates a record from a path and a reason.
    pub fn new(path: &str, reason: &str) -> (r: Self)
        ensures
            r.path@ == path@,
            r.reason@ == reason@,
    {
        DeleteError { path: path.to_owned(), reason: reason.to_owned() }
    }
}

/// Result of a file deletion operation.
#[derive(Debug, Clone)]
pub struct DeleteResult {
    /// Paths of successfully deleted files.
    pub deleted: Vec<String>,
    /// Files that failed to delete.
    pub failed: Vec<DeleteError>,
}

impl DeleteResult {
    /// Creates a result from the two lists.
    pub fn new(deleted: Vec<String>, failed: Vec<DeleteError>) -> (r: Self)
        ensures
            r.deleted == deleted,
            r.failed == failed,
    {
        DeleteResult { deleted, failed }
    }

    /// Returns true if no deletion failed.
    pub fn all_succeeded(&self) -> (r: bool)
        ensures
            r == (self.failed@.len() == 0),
    {
        self.failed.len() == 0
    }
}

} // verus!
