//! The orchestrator's decisions: acquiring and releasing the single session,
//! the cancellation checkpoints between stages, the assembly of the final
//! report, and the rate limit on progress emission.
//!
//! The embedding shell drives the stages in order — traversal, grouping,
//! digesting, finalising — performing the file reads itself, and hands each
//! stage's outcome to the next function here.

use vstd::prelude::*;
use crate::duplicates::{
    find_duplicates, spec_count_hash, spec_group_ok, spec_has_hash, spec_sorted_desc,
};
use crate::error::{ScannerError, ScannerResult};
use crate::hasher::{
    extract_hash_errors, extract_successful_hashes, spec_failures, spec_successes, HashResult,
};
use crate::scan::{
    flatten_size_groups, group_by_size, scan_directories, spec_count_size, spec_files_with_size,
    spec_flatten_groups, spec_has_key, spec_options_match, spec_scan_decided, ScanOutput,
    SizeGroups,
};
use crate::state::{spec_idle, AppState};
use crate::text::spec_contains_str;
use crate::types::{
    spec_saturate_u64, spec_total_count, spec_total_wasted, FileEntry, ScanError, ScanOptions,
    ScanResult,
};

verus! {

/// Least interval between two progress events, in milliseconds.
pub const PROGRESS_RATE_LIMIT_MS: u64 = 100;

/// Whether a progress event is due: at least the rate-limit interval has
/// passed since the last emission.  A clock that moved backwards counts as
/// not due.
pub fn should_emit_progress(last_emit_ms: u64, now_ms: u64) -> (r: bool)
    ensures
        r == (last_emit_ms <= now_ms && now_ms - last_emit_ms >= PROGRESS_RATE_LIMIT_MS),
{
    now_ms >= last_emit_ms && now_ms - last_emit_ms >= PROGRESS_RATE_LIMIT_MS
}

/// Acquires the single scan session, or fails with `ScanInProgress` when one
/// is already in flight, leaving the state untouched.
pub fn start_session(state: &mut AppState) -> (r: ScannerResult<String>)
    ensures
        old(state).spec_scanning() ==> (r matches Err(e) && e matches ScannerError::ScanInProgress)
            && *final(state) == *old(state),
        !old(state).spec_scanning() ==> (r matches Ok(id) && final(state).spec_scanning()
            && !final(state).spec_cancel_requested()
            && final(state).spec_session_id() == Some(id)),
{
    match state.try_start_scan() {
        Some(id) => Ok(id),
        None => Err(ScannerError::ScanInProgress),
    }
}

/// The counting stage: checks the cancellation flag, then traverses every
/// root of `options`.
///
/// A pending cancellation releases the session and reports `Cancelled`
/// before any directory is opened.  A missing root releases the session and
/// propagates `PathNotFound`.  On success the session stays as it was and
/// every collected file passes the filter that `options` describes.
pub fn run_traversal(state: &mut AppState, options: &ScanOptions) -> (r: ScannerResult<ScanOutput>)
    ensures
        old(state).spec_cancel_requested() ==> (r matches Err(e) && e
            matches ScannerError::Cancelled) && spec_idle(*final(state)),
        !old(state).spec_cancel_requested() ==> {
            &&& (r matches Err(e) ==> (e matches ScannerError::PathNotFound(p)
                && spec_contains_str(options.root_paths@, p@)) && spec_idle(*final(state)))
            &&& (r matches Ok(out) ==> *final(state) == *old(state) && spec_scan_decided(
                *options,
                out.files@,
                out.errors@,
            ) && (forall|i: int|
                0 <= i < out.files@.len() ==> spec_options_match(
                    *options,
                    (#[trigger] out.files@[i]).path@,
                    out.files@[i].size,
                )))
        },
{
    if state.is_cancel_requested() {
        state.finish_scan();
        return Err(ScannerError::Cancelled);
    }
    match scan_directories(options) {
        Ok(out) => Ok(out),
        Err(e) => {
            state.finish_scan();
            Err(e)
        },
    }
}

/// The grouping stage: checks the cancellation flag, groups the collected
/// files by size, and flattens the kept groups into the candidate set for
/// digesting.
///
/// A pending cancellation releases the session and reports `Cancelled`.  On
/// success the session stays as it was; the groups keep a size if and only
/// if two or more files carry it, each group lists exactly the files of its
/// size, and the candidates are the kept groups concatenated in order.
pub fn prepare_candidates(state: &mut AppState, files: Vec<FileEntry>) -> (r: ScannerResult<
    (SizeGroups, Vec<FileEntry>),
>)
    ensures
        old(state).spec_cancel_requested() ==> (r matches Err(e) && e
            matches ScannerError::Cancelled) && spec_idle(*final(state)),
        !old(state).spec_cancel_requested() ==> (r matches Ok(pair) && *final(state) == *old(state)
            && pair.0.wf() && (forall|i: int|
            0 <= i < pair.0.spec_pairs().len() ==> (#[trigger] pair.0.spec_pairs()[i]).1@
                == spec_files_with_size(files@, pair.0.spec_pairs()[i].0)
                && pair.0.spec_pairs()[i].1@.len() >= 2) && (forall|k: u64|
            spec_has_key(pair.0.spec_pairs(), k) <==> spec_count_size(files@, k) >= 2) && pair.1@
            == spec_flatten_groups(pair.0.spec_pairs())),
{
    if state.is_cancel_requested() {
        state.finish_scan();
        return Err(ScannerError::Cancelled);
    }
    let groups: SizeGroups = group_by_size(files);
    let candidates: Vec<FileEntry> = flatten_size_groups(&groups);
    Ok((groups, candidates))
}

/// The finalising stage: checks the cancellation flag, merges the digest
/// failures into the error list, groups the successful digests into
/// duplicate groups, assembles the report and releases the session.
///
/// A pending cancellation releases the session and reports `Cancelled`.  On
/// success the report's errors are the traversal errors followed by one
/// error per failed digest; its groups hold a digest if and only if two or
/// more successfully digested files share it, each group lists exactly those
/// files, and the groups come ordered by weakly decreasing wasted space; the
/// two totals are derived from the groups, saturated at `u64::MAX`.
pub fn assemble_result(
    state: &mut AppState,
    total_files_scanned: u64,
    traversal_errors: Vec<ScanError>,
    hash_results: Vec<HashResult>,
    duration_ms: u64,
) -> (r: ScannerResult<ScanResult>)
    ensures
        old(state).spec_cancel_requested() ==> (r matches Err(e) && e
            matches ScannerError::Cancelled) && spec_idle(*final(state)),
        !old(state).spec_cancel_requested() ==> (r matches Ok(res) && spec_idle(*final(state)) && {
            let successes = spec_successes(hash_results@);
            let hash_failures = spec_failures(hash_results@);
            &&& res.total_files_scanned == total_files_scanned
            &&& res.duration_ms == duration_ms
            &&& res.errors@.len() == traversal_errors@.len() + hash_failures.len()
            &&& (forall|i: int|
                0 <= i < traversal_errors@.len() ==> #[trigger] res.errors@[i]
                    == traversal_errors@[i])
            &&& (forall|i: int|
                0 <= i < hash_failures.len() ==> (#[trigger] res.errors@[traversal_errors@.len()
                    + i]).path@ == hash_failures[i].0@ && res.errors@[traversal_errors@.len()
                    + i].message@ == hash_failures[i].1@)
            &&& (forall|i: int|
                0 <= i < res.duplicate_groups@.len() ==> spec_group_ok(
                    successes,
                    #[trigger] res.duplicate_groups@[i],
                ))
            &&& (forall|a: int, b: int|
                0 <= a < b < res.duplicate_groups@.len() ==> (
                #[trigger] res.duplicate_groups@[a]).hash@ != (
                #[trigger] res.duplicate_groups@[b]).hash@)
            &&& (forall|h: Seq<char>|
                #[trigger] spec_has_hash(res.duplicate_groups@, h) <==> spec_count_hash(
                    successes,
                    h,
                ) >= 2)
            &&& spec_sorted_desc(res.duplicate_groups@)
            &&& (forall|a: int, b: int|
                0 <= a < b < res.duplicate_groups@.len() && crate::duplicates::spec_group_waste(
                    #[trigger] res.duplicate_groups@[a],
                ) == crate::duplicates::spec_group_waste(#[trigger] res.duplicate_groups@[b])
                    ==> crate::duplicates::spec_first_hash_index(
                    successes,
                    res.duplicate_groups@[a].hash@,
                ) < crate::duplicates::spec_first_hash_index(
                    successes,
                    res.duplicate_groups@[b].hash@,
                ))
            &&& res.total_duplicates_found as int == spec_saturate_u64(
                spec_total_count(res.duplicate_groups@),
            )
            &&& res.total_wasted_space as int == spec_saturate_u64(
                spec_total_wasted(res.duplicate_groups@),
            )
        }),
{
    if state.is_cancel_requested() {
        state.finish_scan();
        return Err(ScannerError::Cancelled);
    }
    let ghost tlen: int = traversal_errors@.len() as int;
    let mut errors: Vec<ScanError> = traversal_errors;
    let ghost terrs: Seq<ScanError> = errors@;
    let hash_errors: Vec<(String, String)> = extract_hash_errors(&hash_results);
    let mut i: usize = 0;
    while i < hash_errors.len()
        invariant
            0 <= i <= hash_errors@.len(),
            0 <= tlen,
            errors@.len() == tlen + i,
            forall|j: int| 0 <= j < tlen ==> #[trigger] errors@[j] == terrs[j],
            forall|j: int|
                0 <= j < i ==> (#[trigger] errors@[tlen + j]).path@ == hash_errors@[j].0@
                    && errors@[tlen + j].message@ == hash_errors@[j].1@,
        decreases hash_errors@.len() - i,
    {
        let ghost epre: Seq<ScanError> = errors@;
        let one: ScanError = ScanError::new(hash_errors[i].0.as_str(), hash_errors[i].1.as_str());
        errors.push(one);
        proof {
            assert forall|j: int|
                0 <= j < i + 1 implies (#[trigger] errors@[tlen + j]).path@ == hash_errors@[j].0@
                && errors@[tlen + j].message@ == hash_errors@[j].1@ by {
                if j < i {
                    assert(errors@[tlen + j] == epre.push(one)[tlen + j]);
                    assert(epre.push(one)[tlen + j] == epre[tlen + j]);
                } else {
                    assert(errors@[tlen + j] == one);
                }
            }
        }
        i = i + 1;
    }
    let successes: Vec<(FileEntry, String)> = extract_successful_hashes(hash_results);
    proof {
        assert(successes@ == spec_successes(hash_results@));
    }
    let groups: Vec<crate::types::DuplicateGroup> = find_duplicates(successes);
    let result: ScanResult = ScanResult::new(groups, total_files_scanned, errors, duration_ms);
    state.finish_scan();
    Ok(result)
}

} // verus!
