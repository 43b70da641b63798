//! Session state: at most one scan runs at a time, identified by a fresh
//! token, with a cooperative cancellation flag polled between pipeline
//! stages.

use vstd::prelude::*;
use vstd::string::StringExecFns;
use crate::text::{decimal_string, spec_decimal};

verus! {

/// State of the single scan session.
#[derive(Debug)]
pub struct AppState {
    /// Whether a scan is currently in progress.
    is_scanning: bool,
    /// Whether cancellation has been requested.
    cancel_requested: bool,
    /// Token of the scan in flight, if any.
    current_scan_id: Option<String>,
}

/// Relies on `std::time::SystemTime::now`: milliseconds since the Unix
/// epoch, whatever the clock returns.
#[verifier::external_body]
fn now_unix_millis() -> u64 {
    let d = std::time::SystemTime::now().duration_since(std::time::UNIX_EPOCH);
    match d {
        Ok(d) => d.as_millis() as u64,
        Err(_) => 0,
    }
}

/// Derives a scan token from the clock.
fn generate_scan_id() -> (r: String)
    ensures
        exists|t: u64| r@ == "scan_"@ + spec_decimal(t as int),
{
    let t: u64 = now_unix_millis();
    let r: String = String::from_str("scan_").concat(decimal_string(t).as_str());
    proof {
        assert(r@ == "scan_"@ + spec_decimal(t as int));
    }
    r
}

impl AppState {
    /// Whether a scan is in flight.
    pub closed spec fn spec_scanning(&self) -> bool {
        self.is_scanning
    }

    /// Whether cancellation has been requested.
    pub closed spec fn spec_cancel_requested(&self) -> bool {
        self.cancel_requested
    }

    /// The token of the session in flight.
    pub closed spec fn spec_session_id(&self) -> Option<String> {
        self.current_scan_id
    }

    /// A fresh, idle state.
    pub fn new() -> (r: Self)
        ensures
            !r.spec_scanning(),
            !r.spec_cancel_requested(),
            r.spec_session_id() is None,
    {
        AppState { is_scanning: false, cancel_requested: false, current_scan_id: None }
    }

    /// Returns whether a scan is currently in progress.
    pub fn is_scanning(&self) -> (r: bool)
        ensures
            r == self.spec_scanning(),
    {
        self.is_scanning
    }

    /// Attempts to start a new scan: fails while one is in flight; otherwise
    /// issues a fresh token and clears any stale cancellation flag.
    pub fn try_start_scan(&mut self) -> (r: Option<String>)
        ensures
            old(self).spec_scanning() ==> r is None && *final(self) == *old(self),
            !old(self).spec_scanning() ==> r is Some && final(self).spec_scanning()
                && !final(self).spec_cancel_requested()
                && final(self).spec_session_id() == r,
    {
        if self.is_scanning {
            None
        } else {
            let scan_id: String = generate_scan_id();
            self.is_scanning = true;
            self.cancel_requested = false;
            self.current_scan_id = Some(scan_id.clone());
            Some(scan_id)
        }
    }

    /// Marks the current scan as complete: back to idle, flag and token
    /// cleared, on every exit path.
    pub fn finish_scan(&mut self)
        ensures
            !final(self).spec_scanning(),
            !final(self).spec_cancel_requested(),
            final(self).spec_session_id() is None,
    {
        self.is_scanning = false;
        self.cancel_requested = false;
        self.current_scan_id = None;
    }

    /// Requests cancellation of the current scan; reports whether a scan was
    /// actually running, and changes nothing when none was.
    pub fn request_cancel(&mut self) -> (r: bool)
        ensures
            r == old(self).spec_scanning(),
            old(self).spec_scanning() ==> final(self).spec_scanning()
                && final(self).spec_cancel_requested()
                && final(self).spec_session_id() == old(self).spec_session_id(),
            !old(self).spec_scanning() ==> *final(self) == *old(self),
    {
        if self.is_scanning {
            self.cancel_requested = true;
            true
        } else {
            false
        }
    }

    /// Returns whether cancellation has been requested.
    pub fn is_cancel_requested(&self) -> (r: bool)
        ensures
            r == self.spec_cancel_requested(),
    {
        self.cancel_requested
    }

    /// Returns the token of the scan in progress, if any.
    pub fn current_scan_id(&self) -> (r: Option<String>)
        ensures
            r == self.spec_session_id(),
    {
        match &self.current_scan_id {
            Some(s) => Some(s.clone()),
            None => None,
        }
    }

    /// Resets the state to its initial values.
    pub fn reset(&mut self)
        ensures
            !final(self).spec_scanning(),
            !final(self).spec_cancel_requested(),
            final(self).spec_session_id() is None,
    {
        self.is_scanning = false;
        self.cancel_requested = false;
        self.current_scan_id = None;
    }
}

/// An idle state: no scan in flight, no cancellation pending, no token.
pub open spec fn spec_idle(s: AppState) -> bool {
    &&& !s.spec_scanning()
    &&& !s.spec_cancel_requested()
    &&& s.spec_session_id() is None
}

impl Default for AppState {
    /// Same as `AppState::new`: idle, nothing requested.
    fn default() -> (r: Self)
        ensures
            !r.spec_scanning(),
            !r.spec_cancel_requested(),
            r.spec_session_id() is None,
    {
        AppState::new()
    }
}

} // verus!
