//! Sequence predicates over characters, and the few string operations of std
//! that the library relies on.
use vstd::prelude::*;

verus! {

/// `p` stands in `s` starting at position `i`.
pub open spec fn occurs_at(s: Seq<char>, p: Seq<char>, i: int) -> bool {
    &&& 0 <= i
    &&& i + p.len() <= s.len()
    &&& s.subrange(i, i + p.len()) == p
}

/// `p` stands somewhere in `s`.
pub open spec fn contains_seq(s: Seq<char>, p: Seq<char>) -> bool {
    exists|i: int| occurs_at(s, p, i)
}

/// `i` is the leftmost position at which `p` stands in `s`.
pub open spec fn first_occurrence(s: Seq<char>, p: Seq<char>, i: int) -> bool {
    &&& occurs_at(s, p, i)
    &&& forall|j: int| 0 <= j < i ==> !occurs_at(s, p, j)
}

/// Relies on `str::contains` with a `&str` pattern: true exactly when the
/// needle stands somewhere in the haystack.
#[verifier::external_body]
pub(crate) fn str_contains(haystack: &str, needle: &str) -> (r: bool)
    ensures
        r == contains_seq(haystack@, needle@),
{
    haystack.contains(needle)
}

/// Relies on `str::split_once` with a `&str` pattern: splits around the first
/// occurrence of the pattern, or gives `None` where it does not occur.
#[verifier::external_body]
pub(crate) fn str_split_once<'a>(s: &'a str, pat: &str) -> (r: Option<(&'a str, &'a str)>)
    ensures
        match r {
            None => !contains_seq(s@, pat@),
            Some((a, b)) => {
                &&& first_occurrence(s@, pat@, a@.len() as int)
                &&& s@ == a@ + pat@ + b@
            },
        },
{
    s.split_once(pat)
}

/// Relies on `str`'s `==`: true exactly for the same characters.
#[verifier::external_body]
pub(crate) fn str_eq(a: &str, b: &str) -> (r: bool)
    ensures
        r == (a@ == b@),
{
    a == b
}

/// The string starts with `-`.
pub open spec fn starts_with_dash(s: Seq<char>) -> bool {
    s.len() > 0 && s[0] == '-'
}

/// Whether the string starts with `-`.
pub fn is_dashed(s: &str) -> (r: bool)
    ensures
        r == starts_with_dash(s@),
{
    if s.is_empty() {
        false
    } else {
        s.get_char(0) == '-'
    }
}

/// Relies on `String::push`: appends one character.
#[verifier::external_body]
pub(crate) fn push_char(s: &mut String, c: char)
    ensures
        final(s)@ == old(s)@.push(c),
{
    s.push(c)
}

/// Relies on `String::pop`: removes and returns the last character, if any.
#[verifier::external_body]
pub(crate) fn pop_char(s: &mut String) -> (r: Option<char>)
    ensures
        old(s)@.len() == 0 ==> r is None && final(s)@ == old(s)@,
        old(s)@.len() > 0 ==> r == Some(old(s)@.last()) && final(s)@ == old(s)@.drop_last(),
{
    s.pop()
}

} // verus!
