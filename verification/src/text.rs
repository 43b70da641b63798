//! Text helpers: decimal rendering of counters and timestamps, extraction of
//! a path's extension, and case folding through the standard library.

use vstd::prelude::*;
use vstd::string::StrSliceExecFns;
use vstd::string::StringExecFns;

verus! {

/// The lowercase equivalent of a string, as `str::to_lowercase` computes it.
pub uninterp spec fn lower_of(s: Seq<char>) -> Seq<char>;

/// Relies on `str::to_lowercase`: the result depends on the characters alone.
#[verifier::external_body]
pub fn to_lowercase_str(s: &str) -> (r: String)
    ensures
        r@ == lower_of(s@),
{
    s.to_lowercase()
}

/// The character for one decimal digit.
pub open spec fn spec_digit_char(d: int) -> char {
    if d == 0 {
        '0'
    } else if d == 1 {
        '1'
    } else if d == 2 {
        '2'
    } else if d == 3 {
        '3'
    } else if d == 4 {
        '4'
    } else if d == 5 {
        '5'
    } else if d == 6 {
        '6'
    } else if d == 7 {
        '7'
    } else if d == 8 {
        '8'
    } else {
        '9'
    }
}

/// The decimal rendering of `n`, most significant digit first.
pub open spec fn spec_decimal(n: int) -> Seq<char>
    decreases n,
{
    if n < 10 {
        seq![spec_digit_char(n)]
    } else {
        spec_decimal(n / 10).push(spec_digit_char(n % 10))
    }
}

/// A one-character string for the digit `d`.
fn digit_str(d: u64) -> (r: &'static str)
    requires
        d < 10,
    ensures
        r@ =~= seq![spec_digit_char(d as int)],
{
    proof {
        reveal_strlit("0");
        reveal_strlit("1");
        reveal_strlit("2");
        reveal_strlit("3");
        reveal_strlit("4");
        reveal_strlit("5");
        reveal_strlit("6");
        reveal_strlit("7");
        reveal_strlit("8");
        reveal_strlit("9");
    }
    if d == 0 {
        "0"
    } else if d == 1 {
        "1"
    } else if d == 2 {
        "2"
    } else if d == 3 {
        "3"
    } else if d == 4 {
        "4"
    } else if d == 5 {
        "5"
    } else if d == 6 {
        "6"
    } else if d == 7 {
        "7"
    } else if d == 8 {
        "8"
    } else {
        "9"
    }
}

/// Appends the decimal rendering of `n` to `out`.
fn push_decimal(n: u64, out: &mut String)
    ensures
        final(out)@ == old(out)@ + spec_decimal(n as int),
    decreases n,
{
    let ghost pre: Seq<char> = out@;
    if n >= 10 {
        push_decimal(n / 10, out);
    }
    out.append(digit_str(n % 10));
    proof {
        assert((n % 10) as int == n as int % 10);
        if n >= 10 {
            assert((n / 10) as int == n as int / 10);
            assert(out@ =~= pre + spec_decimal(n as int));
        } else {
            assert(out@ =~= pre + spec_decimal(n as int));
        }
    }
}

/// Renders `n` in decimal, as the standard formatter would.
pub fn decimal_string(n: u64) -> (r: String)
    ensures
        r@ == spec_decimal(n as int),
{
    let mut out: String = String::new();
    push_decimal(n, &mut out);
    proof {
        assert(out@ =~= spec_decimal(n as int));
    }
    out
}

/// Whether `c` separates path segments.
pub open spec fn spec_is_sep(c: char) -> bool {
    c == '/' || c == '\\'
}

/// The greatest index of `s` holding a path separator, or -1.
pub open spec fn spec_last_sep(s: Seq<char>) -> int
    decreases s.len(),
{
    if s.len() == 0 {
        -1
    } else if spec_is_sep(s.last()) {
        s.len() - 1
    } else {
        spec_last_sep(s.drop_last())
    }
}

/// The greatest index of `s` holding a `.`, or -1.
pub open spec fn spec_last_dot(s: Seq<char>) -> int
    decreases s.len(),
{
    if s.len() == 0 {
        -1
    } else if s.last() == '.' {
        s.len() - 1
    } else {
        spec_last_dot(s.drop_last())
    }
}

/// `spec_last_sep` is the position characterised by: a separator stands there
/// (if any does) and none stands later.
proof fn lemma_last_sep_at(s: Seq<char>, k: int)
    requires
        -1 <= k < s.len(),
        k >= 0 ==> spec_is_sep(s[k]),
        forall|j: int| k < j < s.len() ==> !spec_is_sep(#[trigger] s[j]),
    ensures
        spec_last_sep(s) == k,
    decreases s.len(),
{
    if s.len() == 0 {
    } else if spec_is_sep(s.last()) {
        assert(k == s.len() - 1);
    } else {
        assert(k < s.len() - 1);
        lemma_last_sep_at(s.drop_last(), k);
    }
}

/// `spec_last_dot` is the position characterised by: a dot stands there
/// (if any does) and none stands later.
proof fn lemma_last_dot_at(s: Seq<char>, k: int)
    requires
        -1 <= k < s.len(),
        k >= 0 ==> s[k] == '.',
        forall|j: int| k < j < s.len() ==> #[trigger] s[j] != '.',
    ensures
        spec_last_dot(s) == k,
    decreases s.len(),
{
    if s.len() == 0 {
    } else if s.last() == '.' {
        assert(k == s.len() - 1);
    } else {
        assert(k < s.len() - 1);
        lemma_last_dot_at(s.drop_last(), k);
    }
}

/// The file extension of `s` read as a path: the text after the last `.` of
/// the final path segment; absent when the segment has no dot or starts with
/// its only dot.
pub open spec fn spec_extension_of(s: Seq<char>) -> Option<Seq<char>> {
    let start = spec_last_sep(s) + 1;
    let name = s.subrange(start, s.len() as int);
    let d = spec_last_dot(name);
    if d <= 0 {
        None
    } else {
        Some(name.subrange(d + 1, name.len() as int))
    }
}

/// Extracts the extension of `path`, not yet case-folded.
pub fn extension_of(path: &str) -> (r: Option<String>)
    ensures
        r is Some <==> spec_extension_of(path@) is Some,
        r matches Some(e) ==> Some(e@) == spec_extension_of(path@),
{
    let n: usize = path.unicode_len();
    let mut name_start: usize = 0;
    let mut idx: usize = 0;
    while idx < n
        invariant
            0 <= name_start <= idx <= n,
            n == path@.len(),
            name_start > 0 ==> spec_is_sep(path@[name_start - 1]),
            forall|j: int| name_start <= j < idx ==> !spec_is_sep(#[trigger] path@[j]),
        decreases n - idx,
    {
        let c: char = path.get_char(idx);
        if c == '/' || c == '\\' {
            name_start = idx + 1;
        }
        idx = idx + 1;
    }
    proof {
        lemma_last_sep_at(path@, name_start as int - 1);
    }
    let ghost name: Seq<char> = path@.subrange(name_start as int, n as int);
    let mut dot_after: usize = name_start;
    let mut k: usize = name_start;
    while k < n
        invariant
            name_start <= k <= n,
            name_start <= dot_after <= k,
            n == path@.len(),
            dot_after > name_start ==> path@[dot_after - 1] == '.',
            forall|j: int| dot_after <= j < k ==> #[trigger] path@[j] != '.',
        decreases n - k,
    {
        let c: char = path.get_char(k);
        if c == '.' {
            dot_after = k + 1;
        }
        k = k + 1;
    }
    proof {
        assert forall|j: int| (dot_after - name_start) - 1 < j < name.len() implies #[trigger] name[j]
            != '.' by {
            assert(name[j] == path@[j + name_start]);
        }
        if dot_after > name_start {
            assert(name[(dot_after - name_start) - 1] == path@[dot_after - 1]);
        }
        lemma_last_dot_at(name, (dot_after - name_start) - 1);
    }
    if dot_after - name_start <= 1 {
        None
    } else {
        let ext: &str = path.substring_char(dot_after, n);
        proof {
            assert(ext@ =~= name.subrange((dot_after - name_start) as int, name.len() as int));
        }
        Some(ext.to_owned())
    }
}

/// Whether some member of `v` reads `x`.
pub open spec fn spec_contains_str(v: Seq<String>, x: Seq<char>) -> bool {
    exists|i: int| 0 <= i < v.len() && v[i]@ == x
}

/// Linear membership test on a list of strings.
pub fn contains_string(v: &Vec<String>, x: &String) -> (r: bool)
    ensures
        r == spec_contains_str(v@, x@),
{
    let mut i: usize = 0;
    while i < v.len()
        invariant
            0 <= i <= v@.len(),
            forall|j: int| 0 <= j < i ==> #[trigger] v@[j]@ != x@,
        decreases v@.len() - i,
    {
        if *(&v[i]) == *x {
            return true;
        }
        i = i + 1;
    }
    false
}

/// Strips every leading `.` from `s`.
pub open spec fn spec_strip_leading_dots(s: Seq<char>) -> Seq<char>
    decreases s.len(),
{
    if s.len() > 0 && s[0] == '.' {
        spec_strip_leading_dots(s.drop_first())
    } else {
        s
    }
}

proof fn lemma_strip_leading_dots_at(s: Seq<char>, i: int)
    requires
        0 <= i <= s.len(),
        forall|j: int| 0 <= j < i ==> #[trigger] s[j] == '.',
        i < s.len() ==> s[i] != '.',
    ensures
        spec_strip_leading_dots(s) == s.subrange(i, s.len() as int),
    decreases i,
{
    if i == 0 {
        assert(s.subrange(0, s.len() as int) =~= s);
    } else {
        assert(s.len() > 0 && s[0] == '.');
        lemma_strip_leading_dots_at(s.drop_first(), i - 1);
        assert(s.drop_first().subrange(i - 1, s.drop_first().len() as int) =~= s.subrange(
            i,
            s.len() as int,
        ));
    }
}

/// Normalises one extension as the filter stores it: case-folded, then
/// stripped of every leading dot.
pub open spec fn spec_normalize_ext(s: Seq<char>) -> Seq<char> {
    spec_strip_leading_dots(lower_of(s))
}

/// Lower-cases `s` and strips its leading dots.
pub fn normalize_extension(s: &String) -> (r: String)
    ensures
        r@ == spec_normalize_ext(s@),
{
    let lowered: String = to_lowercase_str(s.as_str());
    let n: usize = lowered.as_str().unicode_len();
    let mut i: usize = 0;
    let mut stop: bool = false;
    while i < n && !stop
        invariant
            0 <= i <= n,
            n == lowered@.len(),
            forall|j: int| 0 <= j < i ==> #[trigger] lowered@[j] == '.',
            stop ==> i < n && lowered@[i as int] != '.',
        decreases 2 * (n - i) + (if stop { 0int } else { 1int }),
    {
        let c: char = lowered.as_str().get_char(i);
        if c != '.' {
            stop = true;
        } else {
            i = i + 1;
        }
    }
    proof {
        lemma_strip_leading_dots_at(lowered@, i as int);
    }
    let stripped: &str = lowered.as_str().substring_char(i, n);
    stripped.to_owned()
}

} // verus!
