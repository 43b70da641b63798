//! File filtering: a pure predicate over a path and a size, configured with a
//! minimum size and include/exclude extension sets.

use vstd::prelude::*;
use crate::text::{
    contains_string, extension_of, lower_of, normalize_extension, spec_contains_str,
    spec_extension_of, spec_normalize_ext, to_lowercase_str,
};

verus! {

/// Filter configuration for file scanning.  Extension lists are normalised
/// (case-folded, leading dots stripped) when the filter is built, not per
/// file.
#[derive(Debug, Clone)]
pub struct FileFilter {
    /// Minimum file size in bytes.
    min_size: Option<u64>,
    /// Extensions to include (normalised).
    include_extensions: Option<Vec<String>>,
    /// Extensions to exclude (normalised).
    exclude_extensions: Option<Vec<String>>,
}

/// The case-folded extension of a path, if it has one.
pub open spec fn spec_ext_lower(p: Seq<char>) -> Option<Seq<char>> {
    match spec_extension_of(p) {
        Some(e) => Some(lower_of(e)),
        None => None,
    }
}

impl FileFilter {
    /// The configured minimum size.
    pub closed spec fn spec_min_size(&self) -> Option<u64> {
        self.min_size
    }

    /// The configured include list.
    pub closed spec fn spec_include_extensions(&self) -> Option<Seq<String>> {
        match self.include_extensions {
            Some(v) => Some(v@),
            None => None,
        }
    }

    /// The configured exclude list.
    pub closed spec fn spec_exclude_extensions(&self) -> Option<Seq<String>> {
        match self.exclude_extensions {
            Some(v) => Some(v@),
            None => None,
        }
    }

    /// Creates a filter with no restrictions.
    pub fn new() -> (r: Self)
        ensures
            r.spec_min_size() is None,
            r.spec_include_extensions() is None,
            r.spec_exclude_extensions() is None,
    {
        FileFilter { min_size: None, include_extensions: None, exclude_extensions: None }
    }

    /// Sets the minimum file size.
    pub fn with_min_size(self, size: u64) -> (r: Self)
        ensures
            r.spec_min_size() == Some(size),
            r.spec_include_extensions() == self.spec_include_extensions(),
            r.spec_exclude_extensions() == self.spec_exclude_extensions(),
    {
        FileFilter { min_size: Some(size), ..self }
    }

    /// Sets the extensions to include (case-insensitive); an empty list means
    /// no include restriction.
    pub fn with_include_extensions(self, extensions: Vec<String>) -> (r: Self)
        ensures
            r.spec_min_size() == self.spec_min_size(),
            r.spec_exclude_extensions() == self.spec_exclude_extensions(),
            extensions@.len() == 0 ==> r.spec_include_extensions() is None,
            extensions@.len() > 0 ==> (r.spec_include_extensions() matches Some(v)
                && v.len() == extensions@.len() && (forall|i: int|
                0 <= i < v.len() ==> #[trigger] v[i]@ == spec_normalize_ext(extensions@[i]@))),
    {
        if extensions.len() == 0 {
            FileFilter { include_extensions: None, ..self }
        } else {
            let normalized: Vec<String> = normalize_all(&extensions);
            FileFilter { include_extensions: Some(normalized), ..self }
        }
    }

    /// Sets the extensions to exclude (case-insensitive); an empty list means
    /// no exclude restriction.  Exclusion wins over inclusion.
    pub fn with_exclude_extensions(self, extensions: Vec<String>) -> (r: Self)
        ensures
            r.spec_min_size() == self.spec_min_size(),
            r.spec_include_extensions() == self.spec_include_extensions(),
            extensions@.len() == 0 ==> r.spec_exclude_extensions() is None,
            extensions@.len() > 0 ==> (r.spec_exclude_extensions() matches Some(v)
                && v.len() == extensions@.len() && (forall|i: int|
                0 <= i < v.len() ==> #[trigger] v[i]@ == spec_normalize_ext(extensions@[i]@))),
    {
        if extensions.len() == 0 {
            FileFilter { exclude_extensions: None, ..self }
        } else {
            let normalized: Vec<String> = normalize_all(&extensions);
            FileFilter { exclude_extensions: Some(normalized), ..self }
        }
    }

    /// Checks whether a file at `path` of `size` bytes passes the filter:
    /// it is at least the minimum size, its case-folded extension is not
    /// excluded, and, when an include list is configured, its extension is a
    /// member (a missing extension requires the empty string to be listed).
    pub fn matches(&self, path: &str, size: u64) -> (r: bool)
        ensures
            r == spec_filter_matches(*self, path@, size),
    {
        match self.min_size {
            Some(m) => {
                if size < m {
                    return false;
                }
            },
            None => {},
        }
        let extension: Option<String> = match extension_of(path) {
            Some(e) => Some(to_lowercase_str(e.as_str())),
            None => None,
        };
        match &self.exclude_extensions {
            Some(ex) => {
                match &extension {
                    Some(e) => {
                        if contains_string(ex, e) {
                            return false;
                        }
                    },
                    None => {},
                }
            },
            None => {},
        }
        match &self.include_extensions {
            Some(inc) => {
                match &extension {
                    Some(e) => {
                        if !contains_string(inc, e) {
                            return false;
                        }
                    },
                    None => {
                        let empty: String = String::new();
                        if !contains_string(inc, &empty) {
                            return false;
                        }
                    },
                }
            },
            None => {},
        }
        true
    }

    /// Reports whether any of the three criteria is configured.
    pub fn has_restrictions(&self) -> (r: bool)
        ensures
            r == (self.spec_min_size() is Some || self.spec_include_extensions() is Some
                || self.spec_exclude_extensions() is Some),
    {
        self.min_size.is_some() || self.include_extensions.is_some()
            || self.exclude_extensions.is_some()
    }
}

/// What `FileFilter::matches` decides for a path and a size.
pub open spec fn spec_filter_matches(f: FileFilter, p: Seq<char>, size: u64) -> bool {
    &&& match f.spec_min_size() {
        Some(m) => size >= m,
        None => true,
    }
    &&& match f.spec_exclude_extensions() {
        Some(ex) => match spec_ext_lower(p) {
            Some(e) => !spec_contains_str(ex, e),
            None => true,
        },
        None => true,
    }
    &&& match f.spec_include_extensions() {
        Some(inc) => match spec_ext_lower(p) {
            Some(e) => spec_contains_str(inc, e),
            None => spec_contains_str(inc, Seq::<char>::empty()),
        },
        None => true,
    }
}

/// Normalises every extension of `v`.
fn normalize_all(v: &Vec<String>) -> (r: Vec<String>)
    ensures
        r@.len() == v@.len(),
        forall|i: int| 0 <= i < r@.len() ==> #[trigger] r@[i]@ == spec_normalize_ext(v@[i]@),
{
    let mut out: Vec<String> = Vec::new();
    let mut i: usize = 0;
    while i < v.len()
        invariant
            0 <= i <= v@.len(),
            out@.len() == i,
            forall|j: int| 0 <= j < i ==> #[trigger] out@[j]@ == spec_normalize_ext(v@[j]@),
        decreases v@.len() - i,
    {
        out.push(normalize_extension(&v[i]));
        i = i + 1;
    }
    out
}

impl Default for FileFilter {
    /// Same as `FileFilter::new`: no restrictions.
    fn default() -> (r: Self)
        ensures
            r.spec_min_size() is None,
            r.spec_include_extensions() is None,
            r.spec_exclude_extensions() is None,
    {
        FileFilter::new()
    }
}

/// Exclusion wins: a file whose case-folded extension stands in both the
/// exclude and the include list never passes the filter.
pub proof fn lemma_exclude_overrides_include(f: FileFilter, p: Seq<char>, size: u64)
    requires
        f.spec_exclude_extensions() matches Some(ex) && spec_ext_lower(p) matches Some(e)
            && spec_contains_str(ex, e),
    ensures
        !spec_filter_matches(f, p, size),
{
}

/// Extension matching is case-insensitive: two paths whose case-folded
/// extensions agree are treated alike by every filter.
pub proof fn lemma_matches_depends_on_folded_extension(
    f: FileFilter,
    p1: Seq<char>,
    p2: Seq<char>,
    size: u64,
)
    requires
        spec_ext_lower(p1) == spec_ext_lower(p2),
    ensures
        spec_filter_matches(f, p1, size) == spec_filter_matches(f, p2, size),
{
}

} // verus!
