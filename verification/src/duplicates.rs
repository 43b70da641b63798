//! Duplicate detection: grouping digested files by hash, dropping singleton
//! digests, and ordering the surviving groups by the space they waste.

use vstd::prelude::*;
use crate::scan::clone_entry;
use crate::types::{spec_saturate_u64, spec_total_count, spec_total_wasted, spec_wasted_space,
    DuplicateGroup, FileEntry};

verus! {

/// The files of `s` carrying the digest `h`, in input order.
pub open spec fn spec_files_with_hash(s: Seq<(FileEntry, String)>, h: Seq<char>) -> Seq<FileEntry>
    decreases s.len(),
{
    if s.len() == 0 {
        Seq::empty()
    } else if s.last().1@ == h {
        spec_files_with_hash(s.drop_last(), h).push(s.last().0)
    } else {
        spec_files_with_hash(s.drop_last(), h)
    }
}

/// How many files of `s` carry the digest `h`.
pub open spec fn spec_count_hash(s: Seq<(FileEntry, String)>, h: Seq<char>) -> int {
    spec_files_with_hash(s, h).len() as int
}

/// The space a group would reclaim, per its member count and size.
pub open spec fn spec_group_waste(g: DuplicateGroup) -> int {
    spec_wasted_space(g.files@.len() as int, g.size as int)
}

/// A well-formed duplicate group for the input `s`: it carries the digest's
/// files exactly and in order, holds at least two of them, and takes its size
/// from its first member.
pub open spec fn spec_group_ok(s: Seq<(FileEntry, String)>, g: DuplicateGroup) -> bool {
    &&& g.files@ == spec_files_with_hash(s, g.hash@)
    &&& g.files@.len() >= 2
    &&& g.size == g.files@[0].size
}

/// Whether some group of `gs` carries the digest `h`.
pub open spec fn spec_has_hash(gs: Seq<DuplicateGroup>, h: Seq<char>) -> bool {
    exists|i: int| 0 <= i < gs.len() && gs[i].hash@ == h
}

/// Groups ordered by weakly decreasing wasted space.
pub open spec fn spec_sorted_desc(gs: Seq<DuplicateGroup>) -> bool {
    forall|i: int, j: int|
        0 <= i < j < gs.len() ==> spec_group_waste(#[trigger] gs[i]) >= spec_group_waste(
            #[trigger] gs[j],
        )
}

/// The index of the first entry of `s` carrying the digest `h`, or
/// `s.len()` when none does.
pub open spec fn spec_first_hash_index(s: Seq<(FileEntry, String)>, h: Seq<char>) -> int
    decreases s.len(),
{
    if s.len() == 0 {
        0
    } else if s[0].1@ == h {
        0
    } else {
        1 + spec_first_hash_index(s.drop_first(), h)
    }
}

/// `spec_first_hash_index` points at a carrier of `h` when one exists, and
/// nothing before it carries `h`.
proof fn lemma_first_hash_index_props(s: Seq<(FileEntry, String)>, h: Seq<char>)
    ensures
        0 <= spec_first_hash_index(s, h) <= s.len(),
        spec_first_hash_index(s, h) < s.len() ==> s[spec_first_hash_index(s, h)].1@ == h,
        forall|j: int| 0 <= j < spec_first_hash_index(s, h) ==> (#[trigger] s[j]).1@ != h,
    decreases s.len(),
{
    if s.len() > 0 && s[0].1@ != h {
        lemma_first_hash_index_props(s.drop_first(), h);
        assert forall|j: int| 0 <= j < spec_first_hash_index(s, h) implies (#[trigger] s[j]).1@
            != h by {
            if j > 0 {
                assert(s.drop_first()[j - 1] == s[j]);
            }
        }
    }
}

/// A digest occurs in the first `i` entries exactly when its first carrier
/// stands before index `i`.
proof fn lemma_count_prefix_vs_first_index(s: Seq<(FileEntry, String)>, i: int, h: Seq<char>)
    requires
        0 <= i <= s.len(),
    ensures
        spec_count_hash(s.take(i), h) >= 1 <==> spec_first_hash_index(s, h) < i,
    decreases i,
{
    lemma_first_hash_index_props(s, h);
    if i == 0 {
        assert(s.take(0) =~= Seq::<(FileEntry, String)>::empty());
    } else {
        lemma_count_prefix_vs_first_index(s, i - 1, h);
        lemma_files_with_hash_step(s, i - 1, h);
        if s[i - 1].1@ == h {
            if spec_first_hash_index(s, h) > i - 1 {
                assert(s[i - 1].1@ != h);
            }
        }
    }
}

/// One step of `spec_files_with_hash` along a prefix.
proof fn lemma_files_with_hash_step(s: Seq<(FileEntry, String)>, i: int, h: Seq<char>)
    requires
        0 <= i < s.len(),
    ensures
        spec_files_with_hash(s.take(i + 1), h) == if s[i].1@ == h {
            spec_files_with_hash(s.take(i), h).push(s[i].0)
        } else {
            spec_files_with_hash(s.take(i), h)
        },
{
    assert(s.take(i + 1).drop_last() =~= s.take(i));
    assert(s.take(i + 1).last() == s[i]);
}

/// Collects the files of `input` whose digest reads `h`, in order.
fn collect_files_with_hash(input: &Vec<(FileEntry, String)>, h: &String) -> (r: Vec<FileEntry>)
    ensures
        r@ == spec_files_with_hash(input@, h@),
{
    let mut out: Vec<FileEntry> = Vec::new();
    let mut j: usize = 0;
    while j < input.len()
        invariant
            0 <= j <= input@.len(),
            out@ == spec_files_with_hash(input@.take(j as int), h@),
        decreases input@.len() - j,
    {
        proof {
            lemma_files_with_hash_step(input@, j as int, h@);
        }
        if *(&input[j].1) == *h {
            out.push(clone_entry(&input[j].0));
        }
        j = j + 1;
    }
    proof {
        assert(input@.take(input@.len() as int) =~= input@);
    }
    out
}

/// Finds duplicate files by grouping the digested files by hash.
///
/// The result holds one group per digest carried by two or more files, and
/// none for a digest carried once: a group with digest `h` stands in the
/// result if and only if `h` occurs at least twice in the input.  Each group
/// lists exactly the input files with its digest, in input order, and takes
/// its size from its first member.  Groups are ordered by weakly decreasing
/// wasted space; the construction is deterministic in the input order.
pub fn find_duplicates(files_with_hashes: Vec<(FileEntry, String)>) -> (r: Vec<DuplicateGroup>)
    ensures
        forall|i: int| 0 <= i < r@.len() ==> spec_group_ok(files_with_hashes@, #[trigger] r@[i]),
        forall|i: int, j: int|
            0 <= i < j < r@.len() ==> (#[trigger] r@[i]).hash@ != (#[trigger] r@[j]).hash@,
        forall|h: Seq<char>|
            #[trigger] spec_has_hash(r@, h) <==> spec_count_hash(files_with_hashes@, h) >= 2,
        spec_sorted_desc(r@),
        forall|i: int, j: int|
            0 <= i < j < r@.len() && spec_group_waste(#[trigger] r@[i]) == spec_group_waste(
                #[trigger] r@[j],
            ) ==> spec_first_hash_index(files_with_hashes@, r@[i].hash@) < spec_first_hash_index(
                files_with_hashes@,
                r@[j].hash@,
            ),
{
    let input: &Vec<(FileEntry, String)> = &files_with_hashes;
    // distinct digests, in first-occurrence order
    let mut hashes: Vec<String> = Vec::new();
    let mut i: usize = 0;
    while i < input.len()
        invariant
            0 <= i <= input@.len(),
            forall|a: int, b: int|
                0 <= a < b < hashes@.len() ==> (#[trigger] hashes@[a])@ != (#[trigger] hashes@[b])@,
            forall|h: Seq<char>|
                #[trigger] crate::text::spec_contains_str(hashes@, h) <==> spec_count_hash(
                    input@.take(i as int),
                    h,
                ) >= 1,
            forall|a: int, b: int|
                0 <= a < b < hashes@.len() ==> spec_first_hash_index(
                    input@,
                    (#[trigger] hashes@[a])@,
                ) < spec_first_hash_index(input@, (#[trigger] hashes@[b])@),
        decreases input@.len() - i,
    {
        let ghost pre_hashes: Seq<String> = hashes@;
        let seen: bool = crate::text::contains_string(&hashes, &input[i].1);
        if !seen {
            hashes.push(input[i].1.clone());
        }
        proof {
            let hv = input@[i as int].1@;
            assert forall|a: int, b: int|
                0 <= a < b < hashes@.len() implies spec_first_hash_index(
                input@,
                (#[trigger] hashes@[a])@,
            ) < spec_first_hash_index(input@, (#[trigger] hashes@[b])@) by {
                if b >= pre_hashes.len() {
                    assert(!seen);
                    assert(hashes@[b]@ == hv);
                    assert(pre_hashes[a]@ == hashes@[a]@);
                    assert(crate::text::spec_contains_str(pre_hashes, pre_hashes[a]@));
                    lemma_count_prefix_vs_first_index(input@, i as int, hashes@[a]@);
                    assert(!crate::text::spec_contains_str(pre_hashes, hv));
                    lemma_count_prefix_vs_first_index(input@, i as int, hv);
                } else {
                    assert(pre_hashes[a]@ == hashes@[a]@ && pre_hashes[b]@ == hashes@[b]@);
                }
            }
            assert forall|h: Seq<char>|
                #[trigger] crate::text::spec_contains_str(hashes@, h) <==> spec_count_hash(
                    input@.take(i + 1),
                    h,
                ) >= 1 by {
                lemma_files_with_hash_step(input@, i as int, h);
                if crate::text::spec_contains_str(hashes@, h) {
                    let j = choose|j: int| 0 <= j < hashes@.len() && (#[trigger] hashes@[j])@ == h;
                    if j < pre_hashes.len() {
                        assert(crate::text::spec_contains_str(pre_hashes, h));
                    } else {
                        assert(h == hv);
                    }
                }
                if spec_count_hash(input@.take(i + 1), h) >= 1 {
                    if h == hv {
                        if seen {
                            let j = choose|j: int|
                                0 <= j < pre_hashes.len() && (#[trigger] pre_hashes[j])@ == hv;
                            assert(hashes@[j]@ == hv);
                        } else {
                            assert(hashes@[hashes@.len() - 1]@ == hv);
                        }
                    } else {
                        assert(spec_count_hash(input@.take(i as int), h) >= 1);
                        assert(crate::text::spec_contains_str(pre_hashes, h));
                        let j = choose|j: int|
                            0 <= j < pre_hashes.len() && (#[trigger] pre_hashes[j])@ == h;
                        assert(hashes@[j]@ == h);
                    }
                }
            }
        }
        i = i + 1;
    }
    proof {
        assert(input@.take(input@.len() as int) =~= input@);
    }
    // one group per digest carried twice or more
    let mut pre: Vec<DuplicateGroup> = Vec::new();
    let mut t: usize = 0;
    while t < hashes.len()
        invariant
            0 <= t <= hashes@.len(),
            forall|a: int, b: int|
                0 <= a < b < hashes@.len() ==> (#[trigger] hashes@[a])@ != (#[trigger] hashes@[b])@,
            forall|h: Seq<char>|
                #[trigger] crate::text::spec_contains_str(hashes@, h) <==> spec_count_hash(
                    input@,
                    h,
                ) >= 1,
            forall|i2: int| 0 <= i2 < pre@.len() ==> spec_group_ok(input@, #[trigger] pre@[i2]),
            forall|a: int, b: int|
                0 <= a < b < pre@.len() ==> (#[trigger] pre@[a]).hash@ != (#[trigger] pre@[b]).hash@,
            forall|h: Seq<char>|
                #[trigger] spec_has_hash(pre@, h) <==> (crate::text::spec_contains_str(
                    hashes@.take(t as int),
                    h,
                ) && spec_count_hash(input@, h) >= 2),
            forall|a: int, b: int|
                0 <= a < b < hashes@.len() ==> spec_first_hash_index(
                    input@,
                    (#[trigger] hashes@[a])@,
                ) < spec_first_hash_index(input@, (#[trigger] hashes@[b])@),
            forall|a: int, b: int|
                0 <= a < b < pre@.len() ==> spec_first_hash_index(
                    input@,
                    (#[trigger] pre@[a]).hash@,
                ) < spec_first_hash_index(input@, (#[trigger] pre@[b]).hash@),
        decreases hashes@.len() - t,
    {
        let collected: Vec<FileEntry> = collect_files_with_hash(input, &hashes[t]);
        let ghost before: Seq<DuplicateGroup> = pre@;
        if collected.len() >= 2 {
            proof {
                assert forall|i2: int| 0 <= i2 < pre@.len() implies (#[trigger] pre@[i2]).hash@
                    != hashes@[t as int]@ by {
                    assert(spec_has_hash(pre@, pre@[i2].hash@));
                    assert(crate::text::spec_contains_str(
                        hashes@.take(t as int),
                        pre@[i2].hash@,
                    ));
                    let j = choose|j: int|
                        0 <= j < t && (#[trigger] hashes@.take(t as int)[j])@ == pre@[i2].hash@;
                    assert(hashes@[j]@ != hashes@[t as int]@);
                }
            }
            let size: u64 = collected[0].size;
            pre.push(DuplicateGroup::new(hashes[t].clone(), size, collected));
        }
        proof {
            let hv = hashes@[t as int]@;
            assert forall|h: Seq<char>|
                #[trigger] spec_has_hash(pre@, h) <==> (crate::text::spec_contains_str(
                    hashes@.take(t + 1),
                    h,
                ) && spec_count_hash(input@, h) >= 2) by {
                if spec_has_hash(pre@, h) {
                    let j = choose|j: int| 0 <= j < pre@.len() && (#[trigger] pre@[j]).hash@ == h;
                    if j < before.len() {
                        assert(spec_has_hash(before, h));
                        let jj = choose|jj: int|
                            0 <= jj < t && (#[trigger] hashes@.take(t as int)[jj])@ == h;
                        assert(hashes@.take(t + 1)[jj]@ == h);
                    } else {
                        assert(h == hv);
                        assert(hashes@.take(t + 1)[t as int]@ == h);
                    }
                }
                if crate::text::spec_contains_str(hashes@.take(t + 1), h) && spec_count_hash(
                    input@,
                    h,
                ) >= 2 {
                    let jj = choose|jj: int|
                        0 <= jj < t + 1 && (#[trigger] hashes@.take(t + 1)[jj])@ == h;
                    if jj < t {
                        assert(hashes@.take(t as int)[jj]@ == h);
                        assert(spec_has_hash(before, h));
                        let j = choose|j: int|
                            0 <= j < before.len() && (#[trigger] before[j]).hash@ == h;
                        assert(pre@[j].hash@ == h);
                    } else {
                        assert(h == hv);
                        assert(spec_count_hash(input@, hv) >= 2);
                        assert(pre@[pre@.len() - 1].hash@ == hv);
                    }
                }
            }
            assert forall|a: int, b: int|
                0 <= a < b < pre@.len() implies spec_first_hash_index(
                input@,
                (#[trigger] pre@[a]).hash@,
            ) < spec_first_hash_index(input@, (#[trigger] pre@[b]).hash@) by {
                if b >= before.len() {
                    assert(pre@[b].hash@ == hv);
                    assert(pre@[a].hash@ == before[a].hash@);
                    assert(spec_has_hash(before, before[a].hash@));
                    assert(crate::text::spec_contains_str(
                        hashes@.take(t as int),
                        before[a].hash@,
                    ));
                    let j = choose|j: int|
                        0 <= j < t && (#[trigger] hashes@.take(t as int)[j])@ == before[a].hash@;
                    assert(hashes@[j]@ == before[a].hash@);
                    assert(spec_first_hash_index(input@, hashes@[j]@) < spec_first_hash_index(
                        input@,
                        hashes@[t as int]@,
                    ));
                } else {
                    assert(pre@[a].hash@ == before[a].hash@ && pre@[b].hash@ == before[b].hash@);
                }
            }
        }
        t = t + 1;
    }
    proof {
        assert(hashes@.take(hashes@.len() as int) =~= hashes@);
    }
    // order by wasted space, largest first
    let mut out: Vec<DuplicateGroup> = Vec::new();
    let mut n: usize = 0;
    while n < pre.len()
        invariant
            0 <= n <= pre@.len(),
            forall|i2: int| 0 <= i2 < pre@.len() ==> spec_group_ok(input@, #[trigger] pre@[i2]),
            forall|a: int, b: int|
                0 <= a < b < pre@.len() ==> (#[trigger] pre@[a]).hash@ != (#[trigger] pre@[b]).hash@,
            forall|h: Seq<char>|
                #[trigger] spec_has_hash(pre@, h) <==> spec_count_hash(input@, h) >= 2,
            forall|i2: int| 0 <= i2 < out@.len() ==> spec_group_ok(input@, #[trigger] out@[i2]),
            forall|a: int, b: int|
                0 <= a < b < out@.len() ==> (#[trigger] out@[a]).hash@ != (#[trigger] out@[b]).hash@,
            forall|h: Seq<char>|
                #[trigger] spec_has_hash(out@, h) <==> spec_has_hash(pre@.take(n as int), h),
            spec_sorted_desc(out@),
            forall|a: int, b: int|
                0 <= a < b < pre@.len() ==> spec_first_hash_index(
                    input@,
                    (#[trigger] pre@[a]).hash@,
                ) < spec_first_hash_index(input@, (#[trigger] pre@[b]).hash@),
            forall|a: int, b: int|
                0 <= a < b < out@.len() && spec_group_waste(#[trigger] out@[a]) == spec_group_waste(
                    #[trigger] out@[b],
                ) ==> spec_first_hash_index(input@, out@[a].hash@) < spec_first_hash_index(
                    input@,
                    out@[b].hash@,
                ),
        decreases pre@.len() - n,
    {
        let g: DuplicateGroup = clone_group(&pre[n]);
        let wg: u64 = g.wasted_space();
        let mut p: usize = 0;
        let mut walking: bool = true;
        while walking
            invariant
                0 <= p <= out@.len(),
                forall|q: int| 0 <= q < p ==> spec_group_waste(#[trigger] out@[q]) >= wg as int,
                !walking ==> (p == out@.len() || spec_group_waste(out@[p as int]) < wg as int),
                wg as int == spec_group_waste(g),
            decreases 2 * (out@.len() - p) + (if walking { 1int } else { 0int }),
        {
            if p < out.len() {
                let w: u64 = out[p].wasted_space();
                if w >= wg {
                    p = p + 1;
                } else {
                    walking = false;
                }
            } else {
                walking = false;
            }
        }
        let ghost before_out: Seq<DuplicateGroup> = out@;
        proof {
            assert forall|i2: int| 0 <= i2 < out@.len() implies (#[trigger] out@[i2]).hash@
                != g.hash@ by {
                assert(spec_has_hash(out@, out@[i2].hash@));
                assert(spec_has_hash(pre@.take(n as int), out@[i2].hash@));
                let j = choose|j: int|
                    0 <= j < n && (#[trigger] pre@.take(n as int)[j]).hash@ == out@[i2].hash@;
                assert(pre@[j].hash@ != pre@[n as int].hash@);
            }
            assert(p == before_out.len() || spec_group_waste(before_out[p as int]) < wg as int);
            assert forall|q: int|
                0 <= q < before_out.len() implies spec_first_hash_index(
                input@,
                (#[trigger] before_out[q]).hash@,
            ) < spec_first_hash_index(input@, g.hash@) by {
                assert(spec_has_hash(before_out, before_out[q].hash@));
                assert(spec_has_hash(pre@.take(n as int), before_out[q].hash@));
                let j = choose|j: int|
                    0 <= j < n && (#[trigger] pre@.take(n as int)[j]).hash@ == before_out[q].hash@;
                assert(pre@[j].hash@ == before_out[q].hash@);
                assert(spec_first_hash_index(input@, pre@[j].hash@) < spec_first_hash_index(
                    input@,
                    pre@[n as int].hash@,
                ));
            }
        }
        out.insert(p, g);
        proof {
            before_out.insert_ensures(p as int, g);
            assert(pre@.take(n + 1).drop_last() =~= pre@.take(n as int));
            assert forall|h: Seq<char>|
                #[trigger] spec_has_hash(out@, h) <==> spec_has_hash(pre@.take(n + 1), h) by {
                if spec_has_hash(out@, h) {
                    let j = choose|j: int| 0 <= j < out@.len() && (#[trigger] out@[j]).hash@ == h;
                    if j < p {
                        assert(before_out[j].hash@ == h);
                        assert(spec_has_hash(before_out, h));
                        let jj = choose|jj: int|
                            0 <= jj < n && (#[trigger] pre@.take(n as int)[jj]).hash@ == h;
                        assert(pre@.take(n + 1)[jj].hash@ == h);
                    } else if j == p {
                        assert(h == g.hash@);
                        assert(pre@.take(n + 1)[n as int].hash@ == h);
                    } else {
                        assert(before_out[j - 1].hash@ == h);
                        assert(spec_has_hash(before_out, h));
                        let jj = choose|jj: int|
                            0 <= jj < n && (#[trigger] pre@.take(n as int)[jj]).hash@ == h;
                        assert(pre@.take(n + 1)[jj].hash@ == h);
                    }
                }
                if spec_has_hash(pre@.take(n + 1), h) {
                    let jj = choose|jj: int|
                        0 <= jj < n + 1 && (#[trigger] pre@.take(n + 1)[jj]).hash@ == h;
                    if jj < n {
                        assert(pre@.take(n as int)[jj].hash@ == h);
                        assert(spec_has_hash(before_out, h));
                        let j = choose|j: int|
                            0 <= j < before_out.len() && (#[trigger] before_out[j]).hash@ == h;
                        if j < p {
                            assert(out@[j].hash@ == h);
                        } else {
                            assert(out@[j + 1].hash@ == h);
                        }
                    } else {
                        assert(h == g.hash@);
                        assert(out@[p as int].hash@ == h);
                    }
                }
            }
            assert forall|a: int, b: int|
                0 <= a < b < out@.len() implies (#[trigger] out@[a]).hash@ != (
            #[trigger] out@[b]).hash@ by {
                let av = if a < p {
                    before_out[a]
                } else if a == p {
                    g
                } else {
                    before_out[a - 1]
                };
                let bv = if b < p {
                    before_out[b]
                } else if b == p {
                    g
                } else {
                    before_out[b - 1]
                };
                assert(out@[a] == av);
                assert(out@[b] == bv);
            }
            assert forall|a: int, b: int|
                0 <= a < b < out@.len() implies spec_group_waste(#[trigger] out@[a])
                >= spec_group_waste(#[trigger] out@[b]) by {
                let av = if a < p {
                    before_out[a]
                } else if a == p {
                    g
                } else {
                    before_out[a - 1]
                };
                let bv = if b < p {
                    before_out[b]
                } else if b == p {
                    g
                } else {
                    before_out[b - 1]
                };
                assert(out@[a] == av);
                assert(out@[b] == bv);
            }
            assert forall|a: int, b: int|
                0 <= a < b < out@.len() && spec_group_waste(#[trigger] out@[a])
                == spec_group_waste(#[trigger] out@[b]) implies spec_first_hash_index(
                input@,
                out@[a].hash@,
            ) < spec_first_hash_index(input@, out@[b].hash@) by {
                let av = if a < p {
                    before_out[a]
                } else if a == p {
                    g
                } else {
                    before_out[a - 1]
                };
                let bv = if b < p {
                    before_out[b]
                } else if b == p {
                    g
                } else {
                    before_out[b - 1]
                };
                assert(out@[a] == av);
                assert(out@[b] == bv);
                if b == p {
                    assert(spec_first_hash_index(input@, before_out[a].hash@)
                        < spec_first_hash_index(input@, g.hash@));
                } else if a == p {
                    // no tie can stand here: everything after the insertion
                    // point wastes strictly less than the inserted group
                    assert(p < before_out.len());
                    assert(spec_group_waste(before_out[p as int]) < wg as int);
                    assert(spec_group_waste(bv) <= spec_group_waste(before_out[p as int]));
                } else {
                    let aa = if a < p {
                        a
                    } else {
                        a - 1
                    };
                    let bb = if b < p {
                        b
                    } else {
                        b - 1
                    };
                    assert(0 <= aa < bb < before_out.len());
                    assert(spec_group_waste(before_out[aa]) == spec_group_waste(before_out[bb]));
                }
            }
        }
        n = n + 1;
    }
    proof {
        assert(pre@.take(pre@.len() as int) =~= pre@);
    }
    out
}

/// Copies a duplicate group field by field.
fn clone_group(g: &DuplicateGroup) -> (r: DuplicateGroup)
    ensures
        r.hash == g.hash,
        r.size == g.size,
        r.files@ == g.files@,
{
    let mut files: Vec<FileEntry> = Vec::new();
    let mut i: usize = 0;
    while i < g.files.len()
        invariant
            0 <= i <= g.files@.len(),
            files@ == g.files@.take(i as int),
        decreases g.files@.len() - i,
    {
        files.push(clone_entry(&g.files[i]));
        proof {
            assert(files@ =~= g.files@.take(i + 1));
        }
        i = i + 1;
    }
    proof {
        assert(g.files@.take(g.files@.len() as int) =~= g.files@);
    }
    let r = DuplicateGroup { hash: g.hash.clone(), size: g.size, files };
    proof {
        assert(r.files@ =~= g.files@);
    }
    r
}

/// Calculates the total wasted space across `groups`, saturated at
/// `u64::MAX`.
pub fn calculate_total_wasted_space(groups: &Vec<DuplicateGroup>) -> (r: u64)
    ensures
        r as int == spec_saturate_u64(spec_total_wasted(groups@)),
{
    let mut total: u64 = 0;
    let mut i: usize = 0;
    while i < groups.len()
        invariant
            0 <= i <= groups@.len(),
            total as int == spec_saturate_u64(spec_total_wasted(groups@.take(i as int))),
        decreases groups@.len() - i,
    {
        proof {
            assert(groups@.take(i + 1).drop_last() =~= groups@.take(i as int));
            assert(groups@.take(i + 1).last() == groups@[i as int]);
        }
        let w: u64 = groups[i].wasted_space();
        total = crate::types::saturating_add_u64(total, w);
        i = i + 1;
    }
    proof {
        assert(groups@.take(groups@.len() as int) =~= groups@);
    }
    total
}

/// Calculates the total number of duplicate files across `groups`, saturated
/// at `u64::MAX`.
pub fn calculate_total_duplicates(groups: &Vec<DuplicateGroup>) -> (r: u64)
    ensures
        r as int == spec_saturate_u64(spec_total_count(groups@)),
{
    let mut total: u64 = 0;
    let mut i: usize = 0;
    while i < groups.len()
        invariant
            0 <= i <= groups@.len(),
            total as int == spec_saturate_u64(spec_total_count(groups@.take(i as int))),
        decreases groups@.len() - i,
    {
        proof {
            assert(groups@.take(i + 1).drop_last() =~= groups@.take(i as int));
            assert(groups@.take(i + 1).last() == groups@[i as int]);
        }
        let n: usize = groups[i].count();
        total = crate::types::saturating_add_u64_usize(total, n);
        i = i + 1;
    }
    proof {
        assert(groups@.take(groups@.len() as int) =~= groups@);
    }
    total
}

/// The groups of `s` whose wasted space reaches `min`, in order.
pub open spec fn spec_filter_min_waste(s: Seq<DuplicateGroup>, min: int) -> Seq<DuplicateGroup>
    decreases s.len(),
{
    if s.len() == 0 {
        Seq::empty()
    } else if spec_group_waste(s.last()) >= min {
        spec_filter_min_waste(s.drop_last(), min).push(s.last())
    } else {
        spec_filter_min_waste(s.drop_last(), min)
    }
}

/// Keeps only the groups whose wasted space is at least `min_wasted`,
/// preserving their order.
pub fn filter_by_min_wasted_space(groups: Vec<DuplicateGroup>, min_wasted: u64) -> (r: Vec<
    DuplicateGroup,
>)
    ensures
        r@ == spec_filter_min_waste(groups@, min_wasted as int),
{
    let ghost orig: Seq<DuplicateGroup> = groups@;
    let mut rest: Vec<DuplicateGroup> = groups;
    let mut out: Vec<DuplicateGroup> = Vec::new();
    while rest.len() > 0
        invariant
            rest@.len() <= orig.len(),
            rest@ == orig.skip(orig.len() - rest@.len()),
            out@ == spec_filter_min_waste(
                orig.take(orig.len() - rest@.len()),
                min_wasted as int,
            ),
        decreases rest@.len(),
    {
        let ghost k: int = orig.len() - rest@.len();
        let g: DuplicateGroup = rest.remove(0);
        proof {
            assert(g == orig[k]);
            assert(rest@ =~= orig.skip(k + 1));
            assert(orig.take(k + 1).drop_last() =~= orig.take(k));
            assert(orig.take(k + 1).last() == orig[k]);
        }
        let w: u64 = g.wasted_space();
        if w >= min_wasted {
            out.push(g);
        }
    }
    proof {
        assert(orig.take(orig.len() as int) =~= orig);
    }
    out
}

} // verus!
