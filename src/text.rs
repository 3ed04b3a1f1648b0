//! Character-level helpers on strings, each proved against a spec function
//! over `Seq<char>`.
use vstd::prelude::*;

verus! {

/// `s` begins with `p`.
pub open spec fn has_prefix(s: Seq<char>, p: Seq<char>) -> bool {
    p.len() <= s.len() && s.subrange(0, p.len() as int) == p
}

/// `s` ends with `p`.
pub open spec fn has_suffix(s: Seq<char>, p: Seq<char>) -> bool {
    p.len() <= s.len() && s.subrange(s.len() - p.len(), s.len() as int) == p
}

/// `s` ends with at least one of `sufs`.
pub open spec fn has_any_suffix(s: Seq<char>, sufs: Seq<Seq<char>>) -> bool {
    exists|k: int| 0 <= k < sufs.len() && has_suffix(s, #[trigger] sufs[k])
}

/// Position of the first `c` in `s`; `s.len()` when `c` does not occur.
pub open spec fn find(s: Seq<char>, c: char) -> nat
    decreases s.len(),
{
    if s.len() == 0 {
        0
    } else if s[0] == c {
        0
    } else {
        find(s.drop_first(), c) + 1
    }
}

/// `s` with every trailing newline removed.
pub open spec fn trim_newlines(s: Seq<char>) -> Seq<char>
    decreases s.len(),
{
    if s.len() > 0 && s.last() == '\n' {
        trim_newlines(s.drop_last())
    } else {
        s
    }
}

/// `find` is the first position holding `c`, or the length when none does.
pub proof fn lemma_find(s: Seq<char>, c: char, e: int)
    requires
        0 <= e <= s.len(),
        forall|k: int| 0 <= k < e ==> s[k] != c,
        e < s.len() ==> s[e] == c,
    ensures
        find(s, c) == e,
    decreases e,
{
    if e > 0 {
        lemma_find(s.drop_first(), c, e - 1);
    }
}

/// Whether the part of `s` from `start` up to `end` begins with `p`.
pub fn prefix_in(s: &str, start: usize, end: usize, p: &str) -> (r: bool)
    requires
        start <= end <= s@.len(),
    ensures
        r == has_prefix(s@.subrange(start as int, end as int), p@),
{
    let m = p.unicode_len();
    if m > end - start {
        return false;
    }
    let mut j: usize = 0;
    while j < m
        invariant
            m == p@.len(),
            start + m <= end <= s@.len(),
            j <= m,
            forall|k: int| 0 <= k < j ==> s@[start + k] == p@[k],
        decreases m - j,
    {
        if s.get_char(start + j) != p.get_char(j) {
            assert(s@.subrange(start as int, end as int).subrange(0, m as int)[j as int] != p@[j as int]);
            return false;
        }
        j = j + 1;
    }
    assert(s@.subrange(start as int, end as int).subrange(0, m as int) =~= p@);
    true
}

/// Whether `s` starts with `p`.
pub fn starts_with(s: &str, p: &str) -> (r: bool)
    ensures
        r == has_prefix(s@, p@),
{
    let n = s.unicode_len();
    assert(s@.subrange(0, n as int) =~= s@);
    prefix_in(s, 0, n, p)
}

/// Whether `s` ends with `p`.
pub fn ends_with(s: &str, p: &str) -> (r: bool)
    ensures
        r == has_suffix(s@, p@),
{
    let n = s.unicode_len();
    let m = p.unicode_len();
    if m > n {
        return false;
    }
    let mut j: usize = 0;
    while j < m
        invariant
            n == s@.len(),
            m == p@.len(),
            m <= n,
            j <= m,
            forall|k: int| 0 <= k < j ==> s@[n - m + k] == p@[k],
        decreases m - j,
    {
        if s.get_char(n - m + j) != p.get_char(j) {
            assert(s@.subrange(n - m, n as int)[j as int] != p@[j as int]);
            return false;
        }
        j = j + 1;
    }
    assert(s@.subrange(n - m, n as int) =~= p@);
    true
}

/// Whether `s` ends with any of `sufs`.
pub fn ends_with_any(s: &str, sufs: &Vec<String>) -> (r: bool)
    ensures
        r == has_any_suffix(s@, sufs@.map_values(|x: String| x@)),
{
    let ghost views = sufs@.map_values(|x: String| x@);
    let mut k: usize = 0;
    while k < sufs.len()
        invariant
            k <= sufs@.len(),
            views == sufs@.map_values(|x: String| x@),
            forall|j: int| 0 <= j < k ==> !has_suffix(s@, #[trigger] views[j]),
        decreases sufs@.len() - k,
    {
        if ends_with(s, sufs[k].as_str()) {
            assert(has_suffix(s@, views[k as int]));
            return true;
        }
        k = k + 1;
    }
    false
}

/// `s` with every trailing newline removed.
pub fn trim_trailing_newlines(s: &str) -> (r: String)
    ensures
        r@ == trim_newlines(s@),
{
    let mut e = s.unicode_len();
    assert(s@.subrange(0, e as int) =~= s@);
    while e > 0 && s.get_char(e - 1) == '\n'
        invariant
            e <= s@.len(),
            trim_newlines(s@.subrange(0, e as int)) == trim_newlines(s@),
        decreases e,
    {
        assert(s@.subrange(0, e as int).drop_last() =~= s@.subrange(0, e - 1));
        e = e - 1;
    }
    String::from_str(s.substring_char(0, e))
}

/// The first position in `start..end` that holds `c`, or `end` when none
/// does.
pub fn find_in(s: &str, c: char, start: usize, end: usize) -> (e: usize)
    requires
        start <= end <= s@.len(),
    ensures
        start <= e <= end,
        forall|k: int| start <= k < e ==> s@[k] != c,
        e < end ==> s@[e as int] == c,
{
    let mut e = start;
    while e < end && s.get_char(e) != c
        invariant
            start <= e <= end <= s@.len(),
            forall|k: int| start <= k < e ==> s@[k] != c,
        decreases end - e,
    {
        e = e + 1;
    }
    e
}

} // verus!
