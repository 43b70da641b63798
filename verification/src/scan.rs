//! Directory traversal with filtering, and size-based pre-grouping of the
//! collected files.
//!
//! The walk itself goes through the `walkdir` crate behind trusted wrappers;
//! everything decided about an entry once its plain facts (path, size,
//! modification time) are in hand is verified.

use vstd::prelude::*;
use crate::error::{ScannerError, ScannerResult};
use crate::filter::{spec_ext_lower, spec_filter_matches, FileFilter};
use crate::text::{decimal_string, spec_contains_str, spec_normalize_ext};
use crate::types::{FileEntry, ScanError, ScanOptions};

verus! {

/// Declares `walkdir::DirEntry` so that values of it can cross a signature.
#[verifier::external_type_specification]
#[verifier::external_body]
pub struct ExWalkDirEntry(walkdir::DirEntry);

/// Declares `walkdir::Error` so that values of it can cross a signature.
#[verifier::external_type_specification]
#[verifier::external_body]
pub struct ExWalkDirError(walkdir::Error);

/// Relies on `walkdir::WalkDir`: walks the tree rooted at `root`, following
/// symbolic links when asked to, and yields every entry and error the walk
/// produces.  What comes back depends on the disk, so nothing is promised.
#[verifier::external_body]
fn walk_collect(root: &String, follow_symlinks: bool) -> Vec<
    Result<walkdir::DirEntry, walkdir::Error>,
> {
    walkdir::WalkDir::new(root.as_str()).follow_links(follow_symlinks).into_iter().collect()
}

/// Relies on `walkdir::DirEntry::path`: the entry's full path, rendered.
#[verifier::external_body]
fn entry_path_string(e: &walkdir::DirEntry) -> String {
    e.path().display().to_string()
}

/// Relies on `walkdir::DirEntry::file_type`: whether the entry names a
/// directory.
#[verifier::external_body]
fn entry_is_dir(e: &walkdir::DirEntry) -> bool {
    e.file_type().is_dir()
}

/// Relies on `walkdir::DirEntry::metadata`: the entry's size in bytes and its
/// modification time in Unix seconds if available, or the rendered error.
#[verifier::external_body]
fn entry_size_and_mtime(e: &walkdir::DirEntry) -> Result<(u64, Option<u64>), String> {
    match e.metadata() {
        Ok(m) => {
            let mtime = m.modified().ok().and_then(
                |t| t.duration_since(std::time::UNIX_EPOCH).ok(),
            ).map(|d| d.as_secs());
            Ok((m.len(), mtime))
        },
        Err(err) => Err(err.to_string()),
    }
}

/// Relies on `walkdir::Error::path` and its `Display` rendering: the path the
/// error concerns (empty when it names none) and its message.
#[verifier::external_body]
fn walk_error_parts(e: &walkdir::Error) -> (String, String) {
    let path = e.path().map(|p| p.display().to_string()).unwrap_or_default();
    (path, e.to_string())
}

/// Relies on `std::path::Path::exists`: whether `p` names anything on disk.
#[verifier::external_body]
fn path_exists(p: &String) -> bool {
    std::path::Path::new(p.as_str()).exists()
}

/// Result of scanning directories: the files that passed filtering, and the
/// non-fatal errors met on the way.
#[derive(Debug)]
pub struct ScanOutput {
    /// Files that passed filtering.
    pub files: Vec<FileEntry>,
    /// Non-fatal errors encountered during scanning.
    pub errors: Vec<ScanError>,
}

impl ScanOutput {
    /// Creates an empty output.
    pub fn new() -> (r: Self)
        ensures
            r.files@.len() == 0,
            r.errors@.len() == 0,
    {
        ScanOutput { files: Vec::new(), errors: Vec::new() }
    }

    /// Appends a file.
    pub fn add_file(&mut self, entry: FileEntry)
        ensures
            final(self).files@ == old(self).files@.push(entry),
            final(self).errors == old(self).errors,
    {
        self.files.push(entry);
    }

    /// Appends an error.
    pub fn add_error(&mut self, error: ScanError)
        ensures
            final(self).errors@ == old(self).errors@.push(error),
            final(self).files == old(self).files,
    {
        self.errors.push(error);
    }
}

impl Default for ScanOutput {
    /// Same as `ScanOutput::new`: empty.
    fn default() -> (r: Self)
        ensures
            r.files@.len() == 0,
            r.errors@.len() == 0,
    {
        ScanOutput::new()
    }
}

/// Whether some member of `v` normalises to `e`.
pub open spec fn spec_contains_norm(v: Seq<String>, e: Seq<char>) -> bool {
    exists|i: int| 0 <= i < v.len() && spec_normalize_ext(v[i]@) == e
}

/// What the filter built from `o` decides for a path and a size: the file is
/// at least the minimum size, its case-folded extension is not excluded, and
/// it is included when an include list is configured.  Empty lists restrict
/// nothing.
pub open spec fn spec_options_match(o: ScanOptions, p: Seq<char>, size: u64) -> bool {
    &&& match o.min_file_size {
        Some(m) => size >= m,
        None => true,
    }
    &&& match o.exclude_extensions {
        Some(v) => v@.len() == 0 || (match spec_ext_lower(p) {
            Some(e) => !spec_contains_norm(v@, e),
            None => true,
        }),
        None => true,
    }
    &&& match o.include_extensions {
        Some(v) => v@.len() == 0 || (match spec_ext_lower(p) {
            Some(e) => spec_contains_norm(v@, e),
            None => spec_contains_norm(v@, Seq::<char>::empty()),
        }),
        None => true,
    }
}

/// Membership in a normalised copy of a list agrees with membership by
/// normalisation in the original.
proof fn lemma_norm_membership(v: Seq<String>, w: Seq<String>, e: Seq<char>)
    requires
        w.len() == v.len(),
        forall|i: int| 0 <= i < w.len() ==> #[trigger] w[i]@ == spec_normalize_ext(v[i]@),
    ensures
        spec_contains_str(w, e) <==> spec_contains_norm(v, e),
{
    if spec_contains_str(w, e) {
        let i = choose|i: int| 0 <= i < w.len() && w[i]@ == e;
        assert(spec_normalize_ext(v[i]@) == e);
    }
    if spec_contains_norm(v, e) {
        let i = choose|i: int| 0 <= i < v.len() && spec_normalize_ext(v[i]@) == e;
        assert(w[i]@ == e);
    }
}

/// Copies a list of strings.
fn clone_string_vec(v: &Vec<String>) -> (r: Vec<String>)
    ensures
        r@ == v@,
{
    let mut out: Vec<String> = Vec::new();
    let mut i: usize = 0;
    while i < v.len()
        invariant
            0 <= i <= v@.len(),
            out@ == v@.take(i as int),
        decreases v@.len() - i,
    {
        out.push(v[i].clone());
        proof {
            assert(out@ =~= v@.take(i + 1));
        }
        i = i + 1;
    }
    proof {
        assert(v@.take(v@.len() as int) =~= v@);
    }
    out
}

/// Builds the filter that `options` describes.
pub fn build_filter(options: &ScanOptions) -> (f: FileFilter)
    ensures
        forall|p: Seq<char>, size: u64| #[trigger]
            spec_filter_matches(f, p, size) == spec_options_match(*options, p, size),
{
    let mut f: FileFilter = FileFilter::new();
    match &options.min_file_size {
        Some(m) => {
            f = f.with_min_size(*m);
        },
        None => {},
    }
    match &options.include_extensions {
        Some(v) => {
            f = f.with_include_extensions(clone_string_vec(v));
        },
        None => {},
    }
    match &options.exclude_extensions {
        Some(v) => {
            f = f.with_exclude_extensions(clone_string_vec(v));
        },
        None => {},
    }
    proof {
        assert forall|p: Seq<char>, size: u64| #[trigger]
            spec_filter_matches(f, p, size) == spec_options_match(*options, p, size) by {
            match options.include_extensions {
                Some(v) => {
                    if v@.len() > 0 {
                        let w = f.spec_include_extensions().unwrap();
                        match spec_ext_lower(p) {
                            Some(e) => lemma_norm_membership(v@, w, e),
                            None => lemma_norm_membership(v@, w, Seq::<char>::empty()),
                        }
                    }
                },
                None => {},
            }
            match options.exclude_extensions {
                Some(v) => {
                    if v@.len() > 0 {
                        let w = f.spec_exclude_extensions().unwrap();
                        match spec_ext_lower(p) {
                            Some(e) => lemma_norm_membership(v@, w, e),
                            None => {},
                        }
                    }
                },
                None => {},
            }
        }
    }
    f
}

/// `post` extends `pre` with files that all pass the filter `f`.
pub open spec fn spec_extends_filtered(
    pre: Seq<FileEntry>,
    post: Seq<FileEntry>,
    f: FileFilter,
) -> bool {
    &&& pre.is_prefix_of(post)
    &&& forall|i: int|
        pre.len() <= i < post.len() ==> spec_filter_matches(f, #[trigger] post[i].path@, post[i].size)
}

proof fn lemma_extends_filtered_trans(
    a: Seq<FileEntry>,
    b: Seq<FileEntry>,
    c: Seq<FileEntry>,
    f: FileFilter,
)
    requires
        spec_extends_filtered(a, b, f),
        spec_extends_filtered(b, c, f),
    ensures
        spec_extends_filtered(a, c, f),
{
    assert(a =~= c.subrange(0, a.len() as int));
    assert forall|i: int|
        a.len() <= i < c.len() implies spec_filter_matches(f, #[trigger] c[i].path@, c[i].size) by {
        if i < b.len() {
            assert(b[i] == c[i]);
        }
    }
}

/// One plain fact the walk yielded: a directory entry with its metadata
/// outcome, or a failure of the walk itself.
#[derive(Debug)]
pub enum WalkItem {
    /// An entry the walk reached: its path, whether it names a directory,
    /// and its size and modification time (in Unix seconds) or the rendered
    /// metadata error.
    Entry { path: String, is_dir: bool, meta: Result<(u64, Option<u64>), String> },
    /// A failure of the walk itself (permission denied, symlink loop, ...).
    Failure { path: String, message: String },
}

/// What one walked item does to the output: a directory changes nothing; a
/// walk or metadata failure appends exactly one error carrying its path and
/// message; a readable file is appended exactly when it passes the filter,
/// with its size and its modification time rendered in decimal seconds; a
/// file that fails per-entry is never appended.
pub open spec fn spec_walk_step(
    old_files: Seq<FileEntry>,
    old_errs: Seq<ScanError>,
    new_files: Seq<FileEntry>,
    new_errs: Seq<ScanError>,
    item: WalkItem,
    f: FileFilter,
) -> bool {
    match item {
        WalkItem::Failure { path, message } => {
            &&& new_files == old_files
            &&& new_errs.len() == old_errs.len() + 1
            &&& new_errs.drop_last() == old_errs
            &&& new_errs.last().path@ == path@
            &&& new_errs.last().message@ == message@
        },
        WalkItem::Entry { path, is_dir, meta } => {
            if is_dir {
                new_files == old_files && new_errs == old_errs
            } else {
                match meta {
                    Err(m) => {
                        &&& new_files == old_files
                        &&& new_errs.len() == old_errs.len() + 1
                        &&& new_errs.drop_last() == old_errs
                        &&& new_errs.last().path@ == path@
                        &&& new_errs.last().message@ == m@
                    },
                    Ok((size, mtime)) => {
                        if spec_filter_matches(f, path@, size) {
                            &&& new_errs == old_errs
                            &&& new_files.len() == old_files.len() + 1
                            &&& new_files.drop_last() == old_files
                            &&& new_files.last().path == path
                            &&& new_files.last().size == size
                            &&& (match mtime {
                                Some(t) => new_files.last().modified matches Some(m) && m@
                                    == crate::text::spec_decimal(t as int),
                                None => new_files.last().modified is None,
                            })
                        } else {
                            new_files == old_files && new_errs == old_errs
                        }
                    },
                }
            }
        },
    }
}

/// `(post_files, post_errs)` is exactly what applying `spec_walk_step` to
/// `(pre_files, pre_errs)` once per item of `items`, in order, produces.
pub open spec fn spec_outputs_decided(
    pre_files: Seq<FileEntry>,
    pre_errs: Seq<ScanError>,
    post_files: Seq<FileEntry>,
    post_errs: Seq<ScanError>,
    items: Seq<WalkItem>,
    f: FileFilter,
) -> bool
    decreases items.len(),
{
    if items.len() == 0 {
        post_files == pre_files && post_errs == pre_errs
    } else {
        exists|mid_files: Seq<FileEntry>, mid_errs: Seq<ScanError>|
            spec_outputs_decided(pre_files, pre_errs, mid_files, mid_errs, items.drop_last(), f)
                && #[trigger] spec_walk_step(
                mid_files,
                mid_errs,
                post_files,
                post_errs,
                items.last(),
                f,
            )
    }
}

proof fn lemma_outputs_decided_step(
    pre_files: Seq<FileEntry>,
    pre_errs: Seq<ScanError>,
    mid_files: Seq<FileEntry>,
    mid_errs: Seq<ScanError>,
    post_files: Seq<FileEntry>,
    post_errs: Seq<ScanError>,
    items: Seq<WalkItem>,
    item: WalkItem,
    f: FileFilter,
)
    requires
        spec_outputs_decided(pre_files, pre_errs, mid_files, mid_errs, items, f),
        spec_walk_step(mid_files, mid_errs, post_files, post_errs, item, f),
    ensures
        spec_outputs_decided(pre_files, pre_errs, post_files, post_errs, items.push(item), f),
{
    assert(items.push(item).drop_last() =~= items);
    assert(items.push(item).last() == item);
    assert(spec_outputs_decided(pre_files, pre_errs, mid_files, mid_errs, items, f)
        && spec_walk_step(mid_files, mid_errs, post_files, post_errs, item, f));
}

proof fn lemma_outputs_decided_concat(
    a_files: Seq<FileEntry>,
    a_errs: Seq<ScanError>,
    b_files: Seq<FileEntry>,
    b_errs: Seq<ScanError>,
    c_files: Seq<FileEntry>,
    c_errs: Seq<ScanError>,
    items1: Seq<WalkItem>,
    items2: Seq<WalkItem>,
    f: FileFilter,
)
    requires
        spec_outputs_decided(a_files, a_errs, b_files, b_errs, items1, f),
        spec_outputs_decided(b_files, b_errs, c_files, c_errs, items2, f),
    ensures
        spec_outputs_decided(a_files, a_errs, c_files, c_errs, items1 + items2, f),
    decreases items2.len(),
{
    if items2.len() == 0 {
        assert(items1 + items2 =~= items1);
    } else {
        let (mid_files, mid_errs) = choose|mf: Seq<FileEntry>, me: Seq<ScanError>|
            spec_outputs_decided(b_files, b_errs, mf, me, items2.drop_last(), f)
                && #[trigger] spec_walk_step(mf, me, c_files, c_errs, items2.last(), f);
        lemma_outputs_decided_concat(
            a_files,
            a_errs,
            b_files,
            b_errs,
            mid_files,
            mid_errs,
            items1,
            items2.drop_last(),
            f,
        );
        lemma_outputs_decided_step(
            a_files,
            a_errs,
            mid_files,
            mid_errs,
            c_files,
            c_errs,
            items1 + items2.drop_last(),
            items2.last(),
            f,
        );
        assert((items1 + items2.drop_last()).push(items2.last()) =~= items1 + items2);
    }
}

/// Decides one walked item: a directory is skipped, a walk or metadata
/// failure is recorded as a scan error, and a readable file is kept exactly
/// when it passes the filter, its modification time rendered in decimal
/// seconds.
pub fn process_walk_item(item: WalkItem, f: &FileFilter, output: &mut ScanOutput)
    ensures
        spec_walk_step(
            old(output).files@,
            old(output).errors@,
            final(output).files@,
            final(output).errors@,
            item,
            *f,
        ),
        spec_extends_filtered(old(output).files@, final(output).files@, *f),
{
    let ghost pre_files: Seq<FileEntry> = output.files@;
    let ghost pre_errs: Seq<ScanError> = output.errors@;
    match item {
        WalkItem::Failure { path, message } => {
            output.add_error(ScanError::new(path.as_str(), message.as_str()));
            proof {
                assert(output.errors@.drop_last() =~= pre_errs);
                assert(pre_files.is_prefix_of(output.files@));
            }
        },
        WalkItem::Entry { path, is_dir, meta } => {
            if is_dir {
                proof {
                    assert(pre_files.is_prefix_of(output.files@));
                }
                return ;
            }
            match meta {
                Err(m) => {
                    output.add_error(ScanError::new(path.as_str(), m.as_str()));
                    proof {
                        assert(output.errors@.drop_last() =~= pre_errs);
                        assert(pre_files.is_prefix_of(output.files@));
                    }
                },
                Ok((size, mtime)) => {
                    if f.matches(path.as_str(), size) {
                        let modified: Option<String> = match mtime {
                            Some(t) => Some(decimal_string(t)),
                            None => None,
                        };
                        output.add_file(FileEntry::new(path, size, modified));
                        proof {
                            assert(output.files@.drop_last() =~= pre_files);
                            assert(pre_files =~= output.files@.subrange(
                                0,
                                pre_files.len() as int,
                            ));
                        }
                    } else {
                        proof {
                            assert(pre_files.is_prefix_of(output.files@));
                        }
                    }
                },
            }
        },
    }
}

/// Converts one entry the walk reached into its plain facts and decides it.
fn process_entry(entry: &walkdir::DirEntry, f: &FileFilter, output: &mut ScanOutput)
    ensures
        exists|item: WalkItem| #[trigger]
            spec_walk_step(
                old(output).files@,
                old(output).errors@,
                final(output).files@,
                final(output).errors@,
                item,
                *f,
            ),
        spec_extends_filtered(old(output).files@, final(output).files@, *f),
{
    let ghost pre_files: Seq<FileEntry> = output.files@;
    let ghost pre_errs: Seq<ScanError> = output.errors@;
    let path: String = entry_path_string(entry);
    let is_dir: bool = entry_is_dir(entry);
    let meta: Result<(u64, Option<u64>), String> = entry_size_and_mtime(entry);
    let item = WalkItem::Entry { path, is_dir, meta };
    let ghost witness: WalkItem = item;
    process_walk_item(item, f, output);
    proof {
        assert(spec_walk_step(pre_files, pre_errs, output.files@, output.errors@, witness, *f));
    }
}

/// Walks one root and decides every yielded item: the output extends by
/// exactly the `spec_walk_step` decisions on the facts the walk produced.
fn scan_directory(root: &String, follow_symlinks: bool, f: &FileFilter, output: &mut ScanOutput)
    ensures
        exists|items: Seq<WalkItem>| #[trigger]
            spec_outputs_decided(
                old(output).files@,
                old(output).errors@,
                final(output).files@,
                final(output).errors@,
                items,
                *f,
            ),
        spec_extends_filtered(old(output).files@, final(output).files@, *f),
{
    let items: Vec<Result<walkdir::DirEntry, walkdir::Error>> = walk_collect(
        root,
        follow_symlinks,
    );
    let ghost pre_files: Seq<FileEntry> = output.files@;
    let ghost pre_errs: Seq<ScanError> = output.errors@;
    let ghost mut facts: Seq<WalkItem> = Seq::empty();
    let mut i: usize = 0;
    while i < items.len()
        invariant
            0 <= i <= items@.len(),
            spec_outputs_decided(pre_files, pre_errs, output.files@, output.errors@, facts, *f),
            spec_extends_filtered(pre_files, output.files@, *f),
        decreases items@.len() - i,
    {
        let ghost mid_files: Seq<FileEntry> = output.files@;
        let ghost mid_errs: Seq<ScanError> = output.errors@;
        match &items[i] {
            Ok(e) => {
                process_entry(e, f, output);
                proof {
                    let it = choose|it: WalkItem| #[trigger]
                        spec_walk_step(
                            mid_files,
                            mid_errs,
                            output.files@,
                            output.errors@,
                            it,
                            *f,
                        );
                    lemma_outputs_decided_step(
                        pre_files,
                        pre_errs,
                        mid_files,
                        mid_errs,
                        output.files@,
                        output.errors@,
                        facts,
                        it,
                        *f,
                    );
                    facts = facts.push(it);
                }
            },
            Err(err) => {
                let (path, message) = walk_error_parts(err);
                let item = WalkItem::Failure { path, message };
                let ghost witness: WalkItem = item;
                process_walk_item(item, f, output);
                proof {
                    lemma_outputs_decided_step(
                        pre_files,
                        pre_errs,
                        mid_files,
                        mid_errs,
                        output.files@,
                        output.errors@,
                        facts,
                        witness,
                        *f,
                    );
                    facts = facts.push(witness);
                }
            },
        }
        proof {
            lemma_extends_filtered_trans(pre_files, mid_files, output.files@, *f);
        }
        i = i + 1;
    }
}

/// Some sequence of walked facts, decided item by item by a filter
/// equivalent to the one `o` describes, yields exactly this output from an
/// empty one.  What facts a walk produces depends on the disk; what each
/// fact contributes is fixed by `spec_walk_step`.
pub open spec fn spec_scan_decided(o: ScanOptions, files: Seq<FileEntry>, errs: Seq<ScanError>) -> bool {
    exists|items: Seq<WalkItem>, f: FileFilter|
        (forall|p: Seq<char>, size: u64| #[trigger]
            spec_filter_matches(f, p, size) == spec_options_match(o, p, size))
            && #[trigger] spec_outputs_decided(
            Seq::<FileEntry>::empty(),
            Seq::<ScanError>::empty(),
            files,
            errs,
            items,
            f,
        )
}

/// Scans every root of `options` for files matching its filter.
///
/// Fails with `PathNotFound`, naming an offending root, before any directory
/// is opened when some root does not exist; this is the only error the call
/// can return.  On success the output is exactly the fold of the
/// `spec_walk_step` decisions over the facts the walk yielded, so every
/// collected file passes the filter that `options` describes, every
/// per-entry failure appends its error and never aborts the scan, and a
/// failing entry is never collected.  Which facts the walk yields depends
/// on the disk and cannot be promised here.
pub fn scan_directories(options: &ScanOptions) -> (r: ScannerResult<ScanOutput>)
    ensures
        r matches Err(e) ==> (e matches ScannerError::PathNotFound(p)
            && spec_contains_str(options.root_paths@, p@)),
        r matches Ok(out) ==> spec_scan_decided(*options, out.files@, out.errors@),
        r matches Ok(out) ==> forall|i: int|
            0 <= i < out.files@.len() ==> spec_options_match(
                *options,
                #[trigger] out.files@[i].path@,
                out.files@[i].size,
            ),
{
    let mut i: usize = 0;
    while i < options.root_paths.len()
        invariant
            0 <= i <= options.root_paths@.len(),
        decreases options.root_paths@.len() - i,
    {
        if !path_exists(&options.root_paths[i]) {
            return Err(ScannerError::PathNotFound(options.root_paths[i].clone()));
        }
        i = i + 1;
    }
    let f: FileFilter = build_filter(options);
    let mut output: ScanOutput = ScanOutput::new();
    proof {
        assert(output.files@ =~= Seq::<FileEntry>::empty());
        assert(output.errors@ =~= Seq::<ScanError>::empty());
    }
    let ghost mut all_facts: Seq<WalkItem> = Seq::empty();
    let mut j: usize = 0;
    while j < options.root_paths.len()
        invariant
            0 <= j <= options.root_paths@.len(),
            spec_extends_filtered(Seq::<FileEntry>::empty(), output.files@, f),
            spec_outputs_decided(
                Seq::<FileEntry>::empty(),
                Seq::<ScanError>::empty(),
                output.files@,
                output.errors@,
                all_facts,
                f,
            ),
            forall|p: Seq<char>, size: u64| #[trigger]
                spec_filter_matches(f, p, size) == spec_options_match(*options, p, size),
        decreases options.root_paths@.len() - j,
    {
        let ghost mid_files: Seq<FileEntry> = output.files@;
        let ghost mid_errs: Seq<ScanError> = output.errors@;
        scan_directory(&options.root_paths[j], options.follow_symlinks, &f, &mut output);
        proof {
            lemma_extends_filtered_trans(Seq::<FileEntry>::empty(), mid_files, output.files@, f);
            let items = choose|items: Seq<WalkItem>| #[trigger]
                spec_outputs_decided(
                    mid_files,
                    mid_errs,
                    output.files@,
                    output.errors@,
                    items,
                    f,
                );
            lemma_outputs_decided_concat(
                Seq::<FileEntry>::empty(),
                Seq::<ScanError>::empty(),
                mid_files,
                mid_errs,
                output.files@,
                output.errors@,
                all_facts,
                items,
                f,
            );
            all_facts = all_facts + items;
        }
        j = j + 1;
    }
    proof {
        assert(spec_outputs_decided(
            Seq::<FileEntry>::empty(),
            Seq::<ScanError>::empty(),
            output.files@,
            output.errors@,
            all_facts,
            f,
        ));
        assert(spec_scan_decided(*options, output.files@, output.errors@));
    }
    Ok(output)
}

/// The files of `s` whose size is exactly `k`, in order.
pub open spec fn spec_files_with_size(s: Seq<FileEntry>, k: u64) -> Seq<FileEntry>
    decreases s.len(),
{
    if s.len() == 0 {
        Seq::empty()
    } else if s.last().size == k {
        spec_files_with_size(s.drop_last(), k).push(s.last())
    } else {
        spec_files_with_size(s.drop_last(), k)
    }
}

/// How many files of `s` have size `k`.
pub open spec fn spec_count_size(s: Seq<FileEntry>, k: u64) -> int {
    spec_files_with_size(s, k).len() as int
}

/// Whether some pair of `s` carries the key `k`.
pub open spec fn spec_has_key(s: Seq<(u64, Vec<FileEntry>)>, k: u64) -> bool {
    exists|i: int| 0 <= i < s.len() && s[i].0 == k
}

/// The sum of the lengths of the value lists of `s`.
pub open spec fn spec_sum_lens(s: Seq<(u64, Vec<FileEntry>)>) -> int
    decreases s.len(),
{
    if s.len() == 0 {
        0
    } else {
        spec_sum_lens(s.drop_last()) + s.last().1@.len()
    }
}

/// The value lists of `s`, concatenated in order.
pub open spec fn spec_flatten_groups(s: Seq<(u64, Vec<FileEntry>)>) -> Seq<FileEntry>
    decreases s.len(),
{
    if s.len() == 0 {
        Seq::empty()
    } else {
        spec_flatten_groups(s.drop_last()) + s.last().1@
    }
}

/// How many files of `s` have a size shared by at least two files of `whole`.
pub open spec fn spec_shared_count(s: Seq<FileEntry>, whole: Seq<FileEntry>) -> int
    decreases s.len(),
{
    if s.len() == 0 {
        0
    } else {
        spec_shared_count(s.drop_last(), whole) + if spec_count_size(whole, s.last().size) >= 2 {
            1int
        } else {
            0int
        }
    }
}

/// How many files of `s` have a size that `pairs` keeps as a key.
pub open spec fn spec_member_count(s: Seq<FileEntry>, pairs: Seq<(u64, Vec<FileEntry>)>) -> int
    decreases s.len(),
{
    if s.len() == 0 {
        0
    } else {
        spec_member_count(s.drop_last(), pairs) + if spec_has_key(pairs, s.last().size) {
            1int
        } else {
            0int
        }
    }
}

proof fn lemma_member_count_empty(s: Seq<FileEntry>)
    ensures
        spec_member_count(s, Seq::empty()) == 0,
    decreases s.len(),
{
    if s.len() > 0 {
        lemma_member_count_empty(s.drop_last());
    }
}

proof fn lemma_member_count_push(
    s: Seq<FileEntry>,
    pairs: Seq<(u64, Vec<FileEntry>)>,
    pr: (u64, Vec<FileEntry>),
)
    requires
        !spec_has_key(pairs, pr.0),
    ensures
        spec_member_count(s, pairs.push(pr)) == spec_member_count(s, pairs) + spec_count_size(
            s,
            pr.0,
        ),
    decreases s.len(),
{
    if s.len() > 0 {
        lemma_member_count_push(s.drop_last(), pairs, pr);
        let sz = s.last().size;
        assert(spec_has_key(pairs.push(pr), sz) <==> (spec_has_key(pairs, sz) || sz == pr.0)) by {
            if spec_has_key(pairs, sz) {
                let j = choose|j: int| 0 <= j < pairs.len() && pairs[j].0 == sz;
                assert(pairs.push(pr)[j].0 == sz);
            }
            if sz == pr.0 {
                assert(pairs.push(pr)[pairs.len() as int].0 == sz);
            }
            if spec_has_key(pairs.push(pr), sz) {
                let j = choose|j: int| 0 <= j < pairs.len() + 1 && pairs.push(pr)[j].0 == sz;
                if j < pairs.len() {
                    assert(pairs[j].0 == sz);
                }
            }
        }
    }
}

proof fn lemma_sum_lens_member(pairs: Seq<(u64, Vec<FileEntry>)>, files: Seq<FileEntry>)
    requires
        forall|a: int, b: int| 0 <= a < b < pairs.len() ==> (#[trigger] pairs[a]).0 != (#[trigger] pairs[b]).0,
        forall|i: int|
            0 <= i < pairs.len() ==> (#[trigger] pairs[i]).1@ == spec_files_with_size(
                files,
                pairs[i].0,
            ),
    ensures
        spec_sum_lens(pairs) == spec_member_count(files, pairs),
    decreases pairs.len(),
{
    if pairs.len() == 0 {
        assert(pairs =~= Seq::<(u64, Vec<FileEntry>)>::empty());
        lemma_member_count_empty(files);
    } else {
        let rest = pairs.drop_last();
        let pr = pairs.last();
        lemma_sum_lens_member(rest, files);
        assert(!spec_has_key(rest, pr.0)) by {
            if spec_has_key(rest, pr.0) {
                let j = choose|j: int| 0 <= j < rest.len() && rest[j].0 == pr.0;
                assert(pairs[j].0 == pairs[pairs.len() - 1].0);
            }
        }
        lemma_member_count_push(files, rest, pr);
        assert(rest.push(pr) =~= pairs);
        assert(pairs[pairs.len() - 1].1@ == spec_files_with_size(files, pairs[pairs.len() - 1].0));
        assert(pr.1@.len() == spec_count_size(files, pr.0));
        assert(spec_sum_lens(pairs) == spec_sum_lens(rest) + pr.1@.len());
        assert(spec_member_count(files, pairs) == spec_member_count(files, rest)
            + spec_count_size(files, pr.0));
    }
}

proof fn lemma_member_shared(
    s: Seq<FileEntry>,
    pairs: Seq<(u64, Vec<FileEntry>)>,
    files: Seq<FileEntry>,
)
    requires
        forall|k: u64| spec_has_key(pairs, k) <==> spec_count_size(files, k) >= 2,
    ensures
        spec_member_count(s, pairs) == spec_shared_count(s, files),
    decreases s.len(),
{
    if s.len() > 0 {
        lemma_member_shared(s.drop_last(), pairs, files);
    }
}

/// The sizes that `group_by_size` keeps cover, between them, exactly the
/// files whose size is shared with at least one other file: summing the kept
/// list lengths gives the number of such files.
pub proof fn lemma_group_by_size_total(files: Seq<FileEntry>, pairs: Seq<(u64, Vec<FileEntry>)>)
    requires
        forall|a: int, b: int| 0 <= a < b < pairs.len() ==> (#[trigger] pairs[a]).0 != (#[trigger] pairs[b]).0,
        forall|i: int|
            0 <= i < pairs.len() ==> (#[trigger] pairs[i]).1@ == spec_files_with_size(
                files,
                pairs[i].0,
            ),
        forall|k: u64| spec_has_key(pairs, k) <==> spec_count_size(files, k) >= 2,
    ensures
        spec_sum_lens(pairs) == spec_shared_count(files, files),
{
    lemma_sum_lens_member(pairs, files);
    lemma_member_shared(files, pairs, files);
}

proof fn lemma_flatten_groups_len(s: Seq<(u64, Vec<FileEntry>)>)
    ensures
        spec_flatten_groups(s).len() == spec_sum_lens(s),
    decreases s.len(),
{
    if s.len() > 0 {
        lemma_flatten_groups_len(s.drop_last());
    }
}

/// The candidate set holds exactly as many files as share their size with
/// at least one other collected file: flattening the kept groups of
/// `group_by_size` yields one entry per such file.
pub proof fn lemma_candidate_count(files: Seq<FileEntry>, pairs: Seq<(u64, Vec<FileEntry>)>)
    requires
        forall|a: int, b: int| 0 <= a < b < pairs.len() ==> (#[trigger] pairs[a]).0 != (#[trigger] pairs[b]).0,
        forall|i: int|
            0 <= i < pairs.len() ==> (#[trigger] pairs[i]).1@ == spec_files_with_size(
                files,
                pairs[i].0,
            ),
        forall|k: u64| spec_has_key(pairs, k) <==> spec_count_size(files, k) >= 2,
    ensures
        spec_flatten_groups(pairs).len() == spec_shared_count(files, files),
{
    lemma_flatten_groups_len(pairs);
    lemma_group_by_size_total(files, pairs);
}

/// Files of `files` grouped by exact byte size, only sizes carried by two or
/// more files retained.  Keys are unique.
#[derive(Debug)]
pub struct SizeGroups {
    groups: Vec<(u64, Vec<FileEntry>)>,
}

impl SizeGroups {
    /// The size/file-list pairs held.
    pub closed spec fn spec_pairs(&self) -> Seq<(u64, Vec<FileEntry>)> {
        self.groups@
    }

    /// No two pairs carry the same size.
    pub open spec fn wf(&self) -> bool {
        forall|a: int, b: int|
            0 <= a < b < self.spec_pairs().len() ==> (#[trigger] self.spec_pairs()[a]).0 != (
            #[trigger] self.spec_pairs()[b]).0
    }

    /// An empty grouping.
    pub fn new() -> (r: Self)
        ensures
            r.spec_pairs().len() == 0,
            r.wf(),
    {
        SizeGroups { groups: Vec::new() }
    }

    /// The number of kept sizes.
    pub fn len(&self) -> (r: usize)
        ensures
            r == self.spec_pairs().len(),
    {
        self.groups.len()
    }

    /// Whether no size is kept.
    pub fn is_empty(&self) -> (r: bool)
        ensures
            r == (self.spec_pairs().len() == 0),
    {
        self.groups.len() == 0
    }

    /// Whether size `k` is kept.
    pub fn contains_key(&self, k: &u64) -> (r: bool)
        ensures
            r == spec_has_key(self.spec_pairs(), *k),
    {
        let mut i: usize = 0;
        while i < self.groups.len()
            invariant
                0 <= i <= self.spec_pairs().len(),
                forall|j: int| 0 <= j < i ==> (#[trigger] self.spec_pairs()[j]).0 != *k,
            decreases self.spec_pairs().len() - i,
        {
            if self.groups[i].0 == *k {
                return true;
            }
            i = i + 1;
        }
        false
    }

    /// The files kept under size `k`, if that size is kept.
    pub fn get(&self, k: &u64) -> (r: Option<&Vec<FileEntry>>)
        ensures
            r is Some <==> spec_has_key(self.spec_pairs(), *k),
            r matches Some(v) ==> exists|i: int|
                0 <= i < self.spec_pairs().len() && (#[trigger] self.spec_pairs()[i]).0 == *k
                    && self.spec_pairs()[i].1 == *v,
    {
        let mut i: usize = 0;
        while i < self.groups.len()
            invariant
                0 <= i <= self.spec_pairs().len(),
                forall|j: int| 0 <= j < i ==> (#[trigger] self.spec_pairs()[j]).0 != *k,
            decreases self.spec_pairs().len() - i,
        {
            if self.groups[i].0 == *k {
                return Some(&self.groups[i].1);
            }
            i = i + 1;
        }
        None
    }

    /// Puts `files` under size `k`, replacing what that size held.
    pub fn insert(&mut self, k: u64, files: Vec<FileEntry>)
        requires
            old(self).wf(),
        ensures
            final(self).wf(),
            forall|kk: u64|
                spec_has_key(final(self).spec_pairs(), kk) <==> (spec_has_key(
                    old(self).spec_pairs(),
                    kk,
                ) || kk == k),
            forall|i: int|
                0 <= i < final(self).spec_pairs().len() && (#[trigger] final(self).spec_pairs()[i]).0
                    == k ==> final(self).spec_pairs()[i].1 == files,
            forall|i: int|
                0 <= i < final(self).spec_pairs().len() && (#[trigger] final(self).spec_pairs()[i]).0
                    != k ==> old(self).spec_pairs().contains(final(self).spec_pairs()[i]),
    {
        let mut i: usize = 0;
        while i < self.groups.len()
            invariant
                0 <= i <= self.spec_pairs().len(),
                forall|j: int| 0 <= j < i ==> (#[trigger] self.spec_pairs()[j]).0 != k,
                self.wf(),
                self == old(self),
            decreases self.spec_pairs().len() - i,
        {
            if self.groups[i].0 == k {
                self.groups.set(i, (k, files));
                proof {
                    assert forall|kk: u64|
                        spec_has_key(self.spec_pairs(), kk) <==> (spec_has_key(
                            old(self).spec_pairs(),
                            kk,
                        ) || kk == k) by {
                        if spec_has_key(old(self).spec_pairs(), kk) {
                            let j = choose|j: int|
                                0 <= j < old(self).spec_pairs().len() && old(
                                    self,
                                ).spec_pairs()[j].0 == kk;
                            assert(self.spec_pairs()[j].0 == kk);
                        }
                        if spec_has_key(self.spec_pairs(), kk) {
                            let j = choose|j: int|
                                0 <= j < self.spec_pairs().len() && self.spec_pairs()[j].0 == kk;
                            if j != i {
                                assert(old(self).spec_pairs()[j].0 == kk);
                            }
                        }
                    }
                }
                return ;
            }
            i = i + 1;
        }
        self.groups.push((k, files));
        proof {
            assert forall|kk: u64|
                spec_has_key(self.spec_pairs(), kk) <==> (spec_has_key(old(self).spec_pairs(), kk)
                    || kk == k) by {
                if spec_has_key(old(self).spec_pairs(), kk) {
                    let j = choose|j: int|
                        0 <= j < old(self).spec_pairs().len() && old(self).spec_pairs()[j].0 == kk;
                    assert(self.spec_pairs()[j].0 == kk);
                }
                if kk == k {
                    assert(self.spec_pairs()[self.spec_pairs().len() - 1].0 == kk);
                }
                if spec_has_key(self.spec_pairs(), kk) {
                    let j = choose|j: int|
                        0 <= j < self.spec_pairs().len() && self.spec_pairs()[j].0 == kk;
                    if j < old(self).spec_pairs().len() {
                        assert(old(self).spec_pairs()[j].0 == kk);
                    } else {
                        assert(kk == k);
                    }
                }
            }
            assert forall|x: (u64, Vec<FileEntry>)|
                self.spec_pairs().contains(x) && x.0 != k implies old(self).spec_pairs().contains(
                x,
            ) by {
                let j = choose|j: int| 0 <= j < self.spec_pairs().len() && self.spec_pairs()[j] == x;
                assert(old(self).spec_pairs()[j] == x);
            }
        }
    }
}

/// Copies a file entry field by field.
pub(crate) fn clone_entry(e: &FileEntry) -> (r: FileEntry)
    ensures
        r == *e,
{
    let modified: Option<String> = match &e.modified {
        Some(m) => Some(m.clone()),
        None => None,
    };
    FileEntry { path: e.path.clone(), size: e.size, modified }
}

/// One step of `spec_files_with_size` along a prefix.
proof fn lemma_files_with_size_step(s: Seq<FileEntry>, i: int, k: u64)
    requires
        0 <= i < s.len(),
    ensures
        spec_files_with_size(s.take(i + 1), k) == if s[i].size == k {
            spec_files_with_size(s.take(i), k).push(s[i])
        } else {
            spec_files_with_size(s.take(i), k)
        },
{
    assert(s.take(i + 1).drop_last() =~= s.take(i));
    assert(s.take(i + 1).last() == s[i]);
}

/// Collects the files of `files` whose size is `k`, in order.
fn collect_files_with_size(files: &Vec<FileEntry>, k: u64) -> (r: Vec<FileEntry>)
    ensures
        r@ == spec_files_with_size(files@, k),
{
    let mut out: Vec<FileEntry> = Vec::new();
    let mut j: usize = 0;
    while j < files.len()
        invariant
            0 <= j <= files@.len(),
            out@ == spec_files_with_size(files@.take(j as int), k),
        decreases files@.len() - j,
    {
        proof {
            lemma_files_with_size_step(files@, j as int, k);
        }
        if files[j].size == k {
            out.push(clone_entry(&files[j]));
        }
        j = j + 1;
    }
    proof {
        assert(files@.take(files@.len() as int) =~= files@);
    }
    out
}

/// Groups `files` by their exact byte size and keeps only the sizes carried
/// by at least two files: a file of unique size cannot have a duplicate.
/// Each kept size maps to exactly the files of that size, in input order,
/// and a size is kept if and only if two or more files have it.
pub fn group_by_size(files: Vec<FileEntry>) -> (r: SizeGroups)
    ensures
        r.wf(),
        forall|i: int|
            0 <= i < r.spec_pairs().len() ==> (#[trigger] r.spec_pairs()[i]).1@
                == spec_files_with_size(files@, r.spec_pairs()[i].0) && r.spec_pairs()[i].1@.len()
                >= 2,
        forall|k: u64| spec_has_key(r.spec_pairs(), k) <==> spec_count_size(files@, k) >= 2,
{
    // distinct sizes, in first-occurrence order
    let mut sizes: Vec<u64> = Vec::new();
    let mut i: usize = 0;
    while i < files.len()
        invariant
            0 <= i <= files@.len(),
            forall|a: int, b: int| 0 <= a < b < sizes@.len() ==> sizes@[a] != sizes@[b],
            forall|k: u64|
                #[trigger] sizes@.contains(k) <==> spec_count_size(files@.take(i as int), k) >= 1,
        decreases files@.len() - i,
    {
        let sz: u64 = files[i].size;
        let ghost pre_sizes: Seq<u64> = sizes@;
        let mut seen: bool = false;
        let mut t: usize = 0;
        while t < sizes.len()
            invariant
                0 <= t <= sizes@.len(),
                sizes@ == pre_sizes,
                seen <==> exists|j: int| 0 <= j < t && #[trigger] sizes@[j] == sz,
            decreases sizes@.len() - t,
        {
            if sizes[t] == sz {
                seen = true;
            }
            t = t + 1;
        }
        proof {
            assert(seen <==> pre_sizes.contains(sz));
        }
        if !seen {
            sizes.push(sz);
        }
        proof {
            assert forall|k: u64| #[trigger]
                sizes@.contains(k) <==> spec_count_size(files@.take(i + 1), k) >= 1 by {
                lemma_files_with_size_step(files@, i as int, k);
                if sizes@.contains(k) {
                    let j = choose|j: int| 0 <= j < sizes@.len() && #[trigger] sizes@[j] == k;
                    if j < pre_sizes.len() {
                        assert(pre_sizes[j] == k);
                        assert(pre_sizes.contains(k));
                    } else {
                        assert(k == sz);
                    }
                }
                if spec_count_size(files@.take(i + 1), k) >= 1 {
                    if k == sz {
                        if seen {
                            let j = choose|j: int|
                                0 <= j < pre_sizes.len() && #[trigger] pre_sizes[j] == sz;
                            assert(sizes@[j] == sz);
                        } else {
                            assert(sizes@[sizes@.len() - 1] == sz);
                        }
                    } else {
                        assert(spec_count_size(files@.take(i as int), k) >= 1);
                        assert(pre_sizes.contains(k));
                        let j = choose|j: int|
                            0 <= j < pre_sizes.len() && #[trigger] pre_sizes[j] == k;
                        assert(sizes@[j] == k);
                    }
                }
            }
        }
        i = i + 1;
    }
    proof {
        assert(files@.take(files@.len() as int) =~= files@);
    }
    // collect the files of each size; keep the sizes with two or more
    let mut acc: Vec<(u64, Vec<FileEntry>)> = Vec::new();
    let mut t: usize = 0;
    while t < sizes.len()
        invariant
            0 <= t <= sizes@.len(),
            forall|a: int, b: int| 0 <= a < b < sizes@.len() ==> sizes@[a] != sizes@[b],
            forall|k: u64| #[trigger] sizes@.contains(k) <==> spec_count_size(files@, k) >= 1,
            forall|a: int, b: int| 0 <= a < b < acc@.len() ==> acc@[a].0 != acc@[b].0,
            forall|i2: int|
                0 <= i2 < acc@.len() ==> (#[trigger] acc@[i2]).1@ == spec_files_with_size(
                    files@,
                    acc@[i2].0,
                ) && acc@[i2].1@.len() >= 2,
            forall|k: u64|
                spec_has_key(acc@, k) <==> (sizes@.take(t as int).contains(k) && spec_count_size(
                    files@,
                    k,
                ) >= 2),
        decreases sizes@.len() - t,
    {
        let sz: u64 = sizes[t];
        let collected: Vec<FileEntry> = collect_files_with_size(&files, sz);
        let ghost pre: Seq<(u64, Vec<FileEntry>)> = acc@;
        if collected.len() >= 2 {
            proof {
                assert forall|i2: int| 0 <= i2 < acc@.len() implies (#[trigger] acc@[i2]).0 != sz by {
                    assert(spec_has_key(acc@, acc@[i2].0));
                    assert(sizes@.take(t as int).contains(acc@[i2].0));
                    let j = choose|j: int| 0 <= j < t && sizes@[j] == acc@[i2].0;
                    assert(sizes@[j] != sizes@[t as int]);
                }
            }
            acc.push((sz, collected));
        }
        proof {
            assert(sizes@.take(t as int).push(sizes@[t as int]) =~= sizes@.take(t + 1));
            assert forall|k: u64|
                spec_has_key(acc@, k) <==> (sizes@.take(t + 1).contains(k) && spec_count_size(
                    files@,
                    k,
                ) >= 2) by {
                if spec_has_key(acc@, k) {
                    let j = choose|j: int| 0 <= j < acc@.len() && acc@[j].0 == k;
                    if j < pre.len() {
                        assert(spec_has_key(pre, k));
                        let jj = choose|jj: int| 0 <= jj < t && sizes@[jj] == k;
                        assert(sizes@.take(t + 1)[jj] == k);
                    } else {
                        assert(k == sz);
                        assert(sizes@.take(t + 1)[t as int] == sz);
                    }
                }
                if sizes@.take(t + 1).contains(k) && spec_count_size(files@, k) >= 2 {
                    let jj = choose|jj: int|
                        0 <= jj < t + 1 && #[trigger] sizes@.take(t + 1)[jj] == k;
                    if jj < t {
                        assert(sizes@.take(t as int)[jj] == k);
                        assert(spec_has_key(pre, k));
                        let j = choose|j: int| 0 <= j < pre.len() && pre[j].0 == k;
                        assert(acc@[j].0 == k);
                    } else {
                        assert(k == sz);
                        assert(acc@[acc@.len() - 1].0 == sz);
                    }
                }
            }
        }
        t = t + 1;
    }
    proof {
        assert(sizes@.take(sizes@.len() as int) =~= sizes@);
    }
    SizeGroups { groups: acc }
}

/// `v` clipped to the range of `usize`.
pub open spec fn spec_saturate_usize(v: int) -> int {
    if v <= usize::MAX as int {
        v
    } else {
        usize::MAX as int
    }
}

/// Returns the total number of files across all kept size groups, saturated
/// at `usize::MAX`.
pub fn count_files_in_groups(groups: &SizeGroups) -> (r: usize)
    ensures
        r as int == spec_saturate_usize(spec_sum_lens(groups.spec_pairs())),
{
    let mut total: usize = 0;
    let mut i: usize = 0;
    while i < groups.groups.len()
        invariant
            0 <= i <= groups.spec_pairs().len(),
            total as int == spec_saturate_usize(spec_sum_lens(groups.spec_pairs().take(i as int))),
        decreases groups.spec_pairs().len() - i,
    {
        proof {
            assert(groups.spec_pairs().take(i + 1).drop_last() =~= groups.spec_pairs().take(
                i as int,
            ));
            assert(groups.spec_pairs().take(i + 1).last() == groups.spec_pairs()[i as int]);
        }
        let n: usize = groups.groups[i].1.len();
        if total > usize::MAX - n {
            total = usize::MAX;
        } else {
            total = total + n;
        }
        i = i + 1;
    }
    proof {
        assert(groups.spec_pairs().take(groups.spec_pairs().len() as int) =~= groups.spec_pairs());
    }
    total
}

/// Concatenates the kept groups into the candidate set for hashing, in group
/// order.
pub fn flatten_size_groups(groups: &SizeGroups) -> (r: Vec<FileEntry>)
    ensures
        r@ == spec_flatten_groups(groups.spec_pairs()),
{
    let mut out: Vec<FileEntry> = Vec::new();
    let mut i: usize = 0;
    while i < groups.groups.len()
        invariant
            0 <= i <= groups.spec_pairs().len(),
            out@ == spec_flatten_groups(groups.spec_pairs().take(i as int)),
        decreases groups.spec_pairs().len() - i,
    {
        let ghost mid: Seq<FileEntry> = out@;
        let files: &Vec<FileEntry> = &groups.groups[i].1;
        let mut j: usize = 0;
        while j < files.len()
            invariant
                0 <= j <= files@.len(),
                out@ == mid + files@.take(j as int),
            decreases files@.len() - j,
        {
            out.push(clone_entry(&files[j]));
            proof {
                assert(mid + files@.take(j + 1) =~= (mid + files@.take(j as int)).push(
                    files@[j as int],
                ));
            }
            j = j + 1;
        }
        proof {
            assert(groups.spec_pairs().take(i + 1).drop_last() =~= groups.spec_pairs().take(
                i as int,
            ));
            assert(groups.spec_pairs().take(i + 1).last() == groups.spec_pairs()[i as int]);
            assert(files@.take(files@.len() as int) =~= files@);
        }
        i = i + 1;
    }
    proof {
        assert(groups.spec_pairs().take(groups.spec_pairs().len() as int) =~= groups.spec_pairs());
    }
    out
}

} // verus!

