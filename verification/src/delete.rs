//! Deletion of files named by the caller: each removal is attempted
//! independently, and one failing path never prevents attempting the rest.
//!
//! Moving a file to the trash goes through the `trash` crate behind a
//! trusted wrapper; permanent removal is I/O of the standard library and
//! stays with the embedding shell, which hands the per-path outcomes back to
//! [`collect_delete_outcomes`].

use vstd::prelude::*;
use vstd::string::StrSliceExecFns;
use vstd::string::StringExecFns;
use crate::types::{DeleteError, DeleteResult};

verus! {

/// `p` with every trailing `/` removed.
pub open spec fn spec_trim_trailing_slashes(p: Seq<char>) -> Seq<char>
    decreases p.len(),
{
    if p.len() > 0 && p.last() == '/' {
        spec_trim_trailing_slashes(p.drop_last())
    } else {
        p
    }
}

/// The greatest index of `p` holding `/`, or -1.
pub open spec fn spec_last_slash(p: Seq<char>) -> int
    decreases p.len(),
{
    if p.len() == 0 {
        -1
    } else if p.last() == '/' {
        p.len() - 1
    } else {
        spec_last_slash(p.drop_last())
    }
}

/// Read as a Unix path (trailing separators ignored), the final component of
/// `p` is `..`.  Such a path has no file name of its own.
pub open spec fn spec_ends_in_parent_component(p: Seq<char>) -> bool {
    let t = spec_trim_trailing_slashes(p);
    let start = spec_last_slash(t) + 1;
    t.len() - start == 2 && t[start] == '.' && t[start + 1] == '.'
}

/// Relies on `trash::delete`: moves the file at `path` to the trash, or
/// reports the rendered error.  The outcome depends on the disk, so nothing
/// more is promised.  The `requires` excludes the one admitted input class
/// on which `trash::delete` panics: for a path whose final component is
/// `..`, its path canonicalisation keeps only the canonical parent, and when
/// that parent is the filesystem root the later `file_name` unwrap fails;
/// every other path either errors out early (the bare root, an empty
/// string, an unresolvable parent) or keeps a final component throughout.
#[verifier::external_body]
fn trash_delete(path: &String) -> Result<(), String>
    requires
        !spec_ends_in_parent_component(path@),
{
    match trash::delete(path.as_str()) {
        Ok(()) => Ok(()),
        Err(e) => Err(e.to_string()),
    }
}

proof fn lemma_trim_trailing_at(s: Seq<char>, t: int)
    requires
        0 <= t <= s.len(),
        forall|j: int| t <= j < s.len() ==> #[trigger] s[j] == '/',
        t > 0 ==> s[t - 1] != '/',
    ensures
        spec_trim_trailing_slashes(s) == s.take(t),
    decreases s.len(),
{
    if s.len() == t {
        assert(s.take(t) =~= s);
    } else {
        assert(s.last() == '/');
        lemma_trim_trailing_at(s.drop_last(), t);
        assert(s.drop_last().take(t) =~= s.take(t));
    }
}

proof fn lemma_last_slash_at(s: Seq<char>, k: int)
    requires
        -1 <= k < s.len(),
        k >= 0 ==> s[k] == '/',
        forall|j: int| k < j < s.len() ==> #[trigger] s[j] != '/',
    ensures
        spec_last_slash(s) == k,
    decreases s.len(),
{
    if s.len() == 0 {
    } else if s.last() == '/' {
        assert(k == s.len() - 1);
    } else {
        assert(k < s.len() - 1);
        lemma_last_slash_at(s.drop_last(), k);
    }
}

/// Whether the final path component of `p`, trailing separators ignored, is
/// `..`.
fn ends_in_parent_component(p: &String) -> (r: bool)
    ensures
        r == spec_ends_in_parent_component(p@),
{
    let s: &str = p.as_str();
    let n: usize = s.unicode_len();
    let mut t: usize = n;
    let mut trimming: bool = true;
    while trimming
        invariant
            0 <= t <= n,
            n == p@.len(),
            s@ == p@,
            forall|j: int| t <= j < n ==> #[trigger] p@[j] == '/',
            !trimming ==> (t == 0 || p@[t - 1] != '/'),
        decreases 2 * t + (if trimming { 1int } else { 0int }),
    {
        if t > 0 {
            let c: char = s.get_char(t - 1);
            if c == '/' {
                t = t - 1;
            } else {
                trimming = false;
            }
        } else {
            trimming = false;
        }
    }
    proof {
        lemma_trim_trailing_at(p@, t as int);
    }
    let ghost trimmed: Seq<char> = p@.take(t as int);
    let mut start: usize = 0;
    let mut idx: usize = 0;
    while idx < t
        invariant
            0 <= start <= idx <= t <= n,
            n == p@.len(),
            s@ == p@,
            start > 0 ==> p@[start - 1] == '/',
            forall|j: int| start <= j < idx ==> #[trigger] p@[j] != '/',
        decreases t - idx,
    {
        let c: char = s.get_char(idx);
        if c == '/' {
            start = idx + 1;
        }
        idx = idx + 1;
    }
    proof {
        assert forall|j: int| (start as int) - 1 < j < trimmed.len() implies #[trigger] trimmed[j]
            != '/' by {
            assert(trimmed[j] == p@[j]);
        }
        if start > 0 {
            assert(trimmed[start - 1] == p@[start - 1]);
        }
        lemma_last_slash_at(trimmed, (start as int) - 1);
    }
    if t - start == 2 {
        let c0: char = s.get_char(start);
        let c1: char = s.get_char(start + 1);
        proof {
            assert(trimmed[start as int] == p@[start as int]);
            assert(trimmed[start as int + 1] == p@[start as int + 1]);
        }
        c0 == '.' && c1 == '.'
    } else {
        false
    }
}

/// The paths of `s` whose outcome is success, in order.
pub open spec fn spec_deleted_paths(s: Seq<(String, Result<(), String>)>) -> Seq<String>
    decreases s.len(),
{
    if s.len() == 0 {
        Seq::empty()
    } else if s.last().1 is Ok {
        spec_deleted_paths(s.drop_last()).push(s.last().0)
    } else {
        spec_deleted_paths(s.drop_last())
    }
}

/// The (path, reason) pairs of `s` whose outcome is failure, in order.
pub open spec fn spec_failed_pairs(s: Seq<(String, Result<(), String>)>) -> Seq<(String, String)>
    decreases s.len(),
{
    if s.len() == 0 {
        Seq::empty()
    } else if s.last().1 is Err {
        spec_failed_pairs(s.drop_last()).push((s.last().0, s.last().1->Err_0))
    } else {
        spec_failed_pairs(s.drop_last())
    }
}

/// Sorts per-path outcomes into the deletion report: the successful paths in
/// order, and one failure record per failed path, in order.
pub fn collect_delete_outcomes(outcomes: Vec<(String, Result<(), String>)>) -> (r: DeleteResult)
    ensures
        r.deleted@ == spec_deleted_paths(outcomes@),
        r.failed@.len() == spec_failed_pairs(outcomes@).len(),
        forall|i: int|
            0 <= i < r.failed@.len() ==> (#[trigger] r.failed@[i]).path@ == spec_failed_pairs(
                outcomes@,
            )[i].0@ && r.failed@[i].reason@ == spec_failed_pairs(outcomes@)[i].1@,
{
    let ghost orig: Seq<(String, Result<(), String>)> = outcomes@;
    let mut rest: Vec<(String, Result<(), String>)> = outcomes;
    let mut deleted: Vec<String> = Vec::new();
    let mut failed: Vec<DeleteError> = Vec::new();
    while rest.len() > 0
        invariant
            rest@.len() <= orig.len(),
            rest@ == orig.skip(orig.len() - rest@.len()),
            deleted@ == spec_deleted_paths(orig.take(orig.len() - rest@.len())),
            failed@.len() == spec_failed_pairs(orig.take(orig.len() - rest@.len())).len(),
            forall|i: int|
                0 <= i < failed@.len() ==> (#[trigger] failed@[i]).path@ == spec_failed_pairs(
                    orig.take(orig.len() - rest@.len()),
                )[i].0@ && failed@[i].reason@ == spec_failed_pairs(
                    orig.take(orig.len() - rest@.len()),
                )[i].1@,
        decreases rest@.len(),
    {
        let ghost k: int = orig.len() - rest@.len();
        let one: (String, Result<(), String>) = rest.remove(0);
        proof {
            assert(one == orig[k]);
            assert(rest@ =~= orig.skip(k + 1));
            assert(orig.take(k + 1).drop_last() =~= orig.take(k));
            assert(orig.take(k + 1).last() == orig[k]);
        }
        match one.1 {
            Ok(_) => {
                deleted.push(one.0);
            },
            Err(reason) => {
                failed.push(DeleteError::new(one.0.as_str(), reason.as_str()));
            },
        }
    }
    proof {
        assert(orig.take(orig.len() as int) =~= orig);
    }
    DeleteResult::new(deleted, failed)
}

/// Attempts to move every named file to the trash, independently, and
/// reports each path under exactly one of the two lists: some per-path
/// outcome sequence, one entry per input path in input order, yields the
/// report.
///
/// A path whose final component is `..` — the one shape `trash::delete`
/// cannot take — is recorded as a failure without the trash being asked;
/// every other path, a broken symlink included, is handed to the trash and
/// its own success or error recorded.
pub fn delete_files_to_trash(file_paths: Vec<String>) -> (r: DeleteResult)
    ensures
        exists|o: Seq<(String, Result<(), String>)>|
            {
                &&& o.len() == file_paths@.len()
                &&& (forall|j: int| 0 <= j < o.len() ==> (#[trigger] o[j]).0 == file_paths@[j])
                &&& r.deleted@ == spec_deleted_paths(o)
                &&& r.failed@.len() == spec_failed_pairs(o).len()
                &&& (forall|i: int|
                    0 <= i < r.failed@.len() ==> (#[trigger] r.failed@[i]).path@
                        == spec_failed_pairs(o)[i].0@ && r.failed@[i].reason@ == spec_failed_pairs(
                        o,
                    )[i].1@)
            },
{
    let mut outcomes: Vec<(String, Result<(), String>)> = Vec::new();
    let mut i: usize = 0;
    while i < file_paths.len()
        invariant
            0 <= i <= file_paths@.len(),
            outcomes@.len() == i,
            forall|j: int| 0 <= j < i ==> (#[trigger] outcomes@[j]).0 == file_paths@[j],
        decreases file_paths@.len() - i,
    {
        let path: String = file_paths[i].clone();
        let outcome: Result<(), String> = if ends_in_parent_component(&path) {
            Err(String::from_str("Invalid path: ").concat(path.as_str()))
        } else {
            trash_delete(&path)
        };
        outcomes.push((path, outcome));
        i = i + 1;
    }
    let ghost o: Seq<(String, Result<(), String>)> = outcomes@;
    let r = collect_delete_outcomes(outcomes);
    proof {
        assert(o.len() == file_paths@.len());
    }
    r
}

} // verus!
