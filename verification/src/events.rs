//! Names of the outward signals the scan emits while it runs and when it
//! ends.

use vstd::prelude::*;

verus! {

/// A progress update.
pub const SCAN_PROGRESS: &'static str = "scan_progress";

/// The terminal success payload, carrying the full report.
pub const SCAN_FINISHED: &'static str = "scan_finished";

/// The terminal error signal.
pub const SCAN_ERROR: &'static str = "scan_error";

/// The terminal cancellation signal.
pub const SCAN_CANCELLED: &'static str = "scan_cancelled";

} // verus!
