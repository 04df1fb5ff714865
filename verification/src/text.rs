//! Character-level string operations with exact specifications.

use vstd::prelude::*;
use vstd::string::*;

verus! {

/// `s` begins with `prefix`.
pub open spec fn has_prefix(s: Seq<char>, prefix: Seq<char>) -> bool {
    prefix.len() <= s.len() && s.subrange(0, prefix.len() as int) == prefix
}

/// `s` ends with `suffix`.
pub open spec fn has_suffix(s: Seq<char>, suffix: Seq<char>) -> bool {
    suffix.len() <= s.len() && s.subrange(s.len() - suffix.len(), s.len() as int) == suffix
}

/// What is left of `s` once `prefix` is taken off its front, if it starts with it.
pub open spec fn strip_prefix_spec(s: Seq<char>, prefix: Seq<char>) -> Option<Seq<char>> {
    if has_prefix(s, prefix) {
        Some(s.skip(prefix.len() as int))
    } else {
        None
    }
}

/// `s` without `prefix` where it starts with it, else `s` itself.
pub open spec fn strip_prefix_or_self_spec(s: Seq<char>, prefix: Seq<char>) -> Seq<char> {
    match strip_prefix_spec(s, prefix) {
        Some(rest) => rest,
        None => s,
    }
}

/// Whether `s@[start..start + pat.len()]` equals `pat`, scanning character by character.
fn matches_at(s: &str, s_len: usize, start: usize, pat: &str, pat_len: usize) -> (r: bool)
    requires
        s_len == s@.len(),
        pat_len == pat@.len(),
        start + pat_len <= s_len,
    ensures
        r == (s@.subrange(start as int, start + pat_len) == pat@),
{
    let mut i: usize = 0;
    while i < pat_len
        invariant
            s_len == s@.len(),
            pat_len == pat@.len(),
            start + pat_len <= s_len,
            i <= pat_len,
            forall|j: int| 0 <= j < i ==> s@[start + j] == pat@[j],
        decreases pat_len - i,
    {
        if s.get_char(start + i) != pat.get_char(i) {
            assert(s@.subrange(start as int, start + pat_len)[i as int] != pat@[i as int]);
            return false;
        }
        i = i + 1;
    }
    assert(s@.subrange(start as int, start + pat_len) =~= pat@);
    true
}

/// Character-wise equality of two strings.
pub fn str_eq(a: &str, b: &str) -> (r: bool)
    ensures
        r == (a@ == b@),
{
    let a_len: usize = a.unicode_len();
    let b_len: usize = b.unicode_len();
    if a_len != b_len {
        return false;
    }
    let r = matches_at(a, a_len, 0, b, b_len);
    assert(a@.subrange(0, a_len as int) =~= a@);
    r
}

/// Whether `s` begins with `prefix`.
pub fn starts_with(s: &str, prefix: &str) -> (r: bool)
    ensures
        r == has_prefix(s@, prefix@),
{
    let s_len: usize = s.unicode_len();
    let p_len: usize = prefix.unicode_len();
    if p_len > s_len {
        return false;
    }
    matches_at(s, s_len, 0, prefix, p_len)
}

/// Whether `s` ends with `suffix`.
pub fn ends_with(s: &str, suffix: &str) -> (r: bool)
    ensures
        r == has_suffix(s@, suffix@),
{
    let s_len: usize = s.unicode_len();
    let x_len: usize = suffix.unicode_len();
    if x_len > s_len {
        return false;
    }
    matches_at(s, s_len, s_len - x_len, suffix, x_len)
}

/// `s` without `prefix`, if `s` starts with it.
pub fn strip_prefix<'a>(s: &'a str, prefix: &str) -> (r: Option<&'a str>)
    ensures
        r matches Some(rest) ==> strip_prefix_spec(s@, prefix@) == Some(rest@),
        r is None ==> strip_prefix_spec(s@, prefix@) is None,
{
    let s_len: usize = s.unicode_len();
    let p_len: usize = prefix.unicode_len();
    if p_len > s_len {
        return None;
    }
    if matches_at(s, s_len, 0, prefix, p_len) {
        let rest = s.substring_char(p_len, s_len);
        assert(rest@ =~= s@.skip(p_len as int));
        Some(rest)
    } else {
        None
    }
}

/// `s` without `prefix` where it starts with it, else all of `s`.
pub fn strip_prefix_or_self<'a>(s: &'a str, prefix: &str) -> (r: &'a str)
    ensures
        r@ == strip_prefix_or_self_spec(s@, prefix@),
{
    match strip_prefix(s, prefix) {
        Some(rest) => rest,
        None => s,
    }
}

} // verus!
