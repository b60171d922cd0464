//! The selection engine: turns one line typed by the user into a 1-based
//! position in a match set, or into "no selection".
use vstd::prelude::*;

verus! {

/// The outcome of reading a selection against a match set of `max_len`
/// entries.
#[derive(Debug, PartialEq, Eq)]
pub enum Selection {
    /// Empty or non-numeric input, or zero: nothing is to be done.
    Cancel,
    /// A number above the size of the match set, as the user typed it.
    OutOfRange(String),
    /// A valid 1-based position in the match set.
    Chosen(usize),
}

impl Selection {
    /// The 1-based position chosen, or the cancellation sentinel `0`.
    pub fn index(&self) -> (r: usize)
        ensures
            r == match self {
                Selection::Chosen(n) => *n,
                _ => 0,
            },
    {
        match self {
            Selection::Chosen(n) => *n,
            _ => 0,
        }
    }
}

pub open spec fn is_ascii_digit(c: char) -> bool {
    '0' <= c <= '9'
}

/// The characters after an optional leading `+`.
pub open spec fn unsigned_digits(s: Seq<char>) -> Seq<char> {
    if s.len() > 0 && s[0] == '+' {
        s.drop_first()
    } else {
        s
    }
}

/// An optional `+` followed by one or more ASCII digits.
pub open spec fn is_decimal(s: Seq<char>) -> bool {
    let d = unsigned_digits(s);
    d.len() > 0 && forall|i: int| 0 <= i < d.len() ==> is_ascii_digit(#[trigger] d[i])
}

/// The value of a sequence of ASCII digits.
pub open spec fn digits_value(d: Seq<char>) -> nat
    decreases d.len(),
{
    if d.len() == 0 {
        0
    } else {
        digits_value(d.drop_last()) * 10 + (d.last() as nat - '0' as nat) as nat
    }
}

/// The value of a decimal number, sign ignored.
pub open spec fn decimal_value(s: Seq<char>) -> nat {
    digits_value(unsigned_digits(s))
}

/// Relies on `str::parse::<usize>`: it accepts exactly an optional `+` and one
/// or more ASCII digits whose value fits in `usize`, and gives that value.
#[verifier::external_body]
pub(crate) fn parse_usize(s: &str) -> (r: Option<usize>)
    ensures
        match r {
            Some(n) => is_decimal(s@) && decimal_value(s@) == n,
            None => !is_decimal(s@) || decimal_value(s@) > usize::MAX,
        },
{
    s.parse::<usize>().ok()
}

/// What `str::trim` makes of a string.
pub uninterp spec fn trim_of(s: Seq<char>) -> Seq<char>;

/// Relies on `str::trim`: the result depends on the characters alone, and an
/// empty string stays empty.
#[verifier::external_body]
fn trim(s: &str) -> (r: &str)
    ensures
        r@ == trim_of(s@),
        s@.len() == 0 ==> r@.len() == 0,
{
    s.trim()
}

/// The selection that the text `s` stands for against a match set of `max_len`
/// entries.
pub open spec fn selection_of(s: Seq<char>, max_len: usize) -> Selection {
    if !is_decimal(s) {
        Selection::Cancel
    } else if decimal_value(s) > max_len {
        Selection::OutOfRange(arbitrary())
    } else if decimal_value(s) == 0 {
        Selection::Cancel
    } else {
        Selection::Chosen(decimal_value(s) as usize)
    }
}

/// The two selections are the same, an out-of-range one carrying the text `s`.
pub open spec fn selection_matches(r: Selection, s: Seq<char>, max_len: usize) -> bool {
    match selection_of(s, max_len) {
        Selection::OutOfRange(_) => r matches Selection::OutOfRange(t) && t@ == s,
        other => r == other,
    }
}

/// Reads already trimmed text as a selection: empty or non-numeric text, and
/// zero, cancel; a number above `max_len` is out of range; a number in
/// `[1, max_len]` is chosen unchanged.
pub fn resolve_selection(text: &str, max_len: usize) -> (r: Selection)
    ensures
        selection_matches(r, text@, max_len),
        !is_decimal(text@) ==> r == Selection::Cancel,
        is_decimal(text@) && decimal_value(text@) > max_len ==> r is OutOfRange,
        is_decimal(text@) && 1 <= decimal_value(text@) <= max_len ==> r == Selection::Chosen(
            decimal_value(text@) as usize,
        ),
{
    match parse_usize(text) {
        Some(n) => {
            if n > max_len {
                Selection::OutOfRange(text.to_owned())
            } else if n == 0 {
                Selection::Cancel
            } else {
                Selection::Chosen(n)
            }
        },
        None => {
            if is_decimal_text(text) {
                Selection::OutOfRange(text.to_owned())
            } else {
                Selection::Cancel
            }
        },
    }
}

/// The text is an optional `+` followed by one or more ASCII digits.
fn is_decimal_text(text: &str) -> (r: bool)
    ensures
        r == is_decimal(text@),
{
    let ghost s = text@;
    let mut any_digit = false;
    let mut ok = true;
    let mut first = true;
    for c in it: text.chars()
        invariant
            s == text@,
            it.seq() == s,
            it.index() <= s.len(),
            first <==> it.index() == 0,
            any_digit <==> exists|i: int|
                0 <= i < it.index() && !(i == 0 && s[0] == '+') && #[trigger] is_ascii_digit(s[i]),
            ok <==> (forall|i: int|
                0 <= i < it.index() ==> (i == 0 && s[0] == '+') || is_ascii_digit(#[trigger] s[i])),
    {
        let ghost k = it.index();
        assert(c == s[k]);
        if first && c == '+' {
        } else if '0' <= c && c <= '9' {
            any_digit = true;
            assert(is_ascii_digit(s[k]));
        } else {
            ok = false;
        }
        first = false;
    }
    let r = ok && any_digit;
    proof {
        let d = unsigned_digits(s);
        if s.len() > 0 && s[0] == '+' {
            assert forall|i: int| 0 <= i < d.len() implies #[trigger] d[i] == s[i + 1] by {}
            if ok {
                assert forall|i: int| 0 <= i < d.len() implies is_ascii_digit(#[trigger] d[i]) by {
                    assert(d[i] == s[i + 1]);
                }
            } else {
                let i = choose|i: int|
                    0 <= i < s.len() && !((i == 0 && s[0] == '+') || is_ascii_digit(#[trigger] s[i]));
                assert(d[i - 1] == s[i]);
            }
            if any_digit {
                let i = choose|i: int|
                    0 <= i < s.len() && !(i == 0 && s[0] == '+') && #[trigger] is_ascii_digit(s[i]);
                assert(d[i - 1] == s[i]);
            }
            if is_decimal(s) {
                assert forall|i: int| 0 <= i < s.len() implies (i == 0 && s[0] == '+')
                    || is_ascii_digit(#[trigger] s[i]) by {
                    if i > 0 {
                        assert(d[i - 1] == s[i]);
                    }
                }
                assert(is_ascii_digit(d[0]));
                assert(d[0] == s[1]);
                assert(is_ascii_digit(s[1]));
            }
        } else {
            assert(d == s);
            if any_digit {
                let i = choose|i: int|
                    0 <= i < s.len() && !(i == 0 && s[0] == '+') && #[trigger] is_ascii_digit(s[i]);
                assert(d.len() > 0);
            }
            if is_decimal(s) {
                assert(is_ascii_digit(s[0]));
                assert(s[0] != '+');
            }
        }
    }
    r
}

/// Reads one line typed by the user as a selection against a match set of
/// `max_len` entries, surrounding whitespace ignored.
pub fn get_index(input: &str, max_len: usize) -> (r: Selection)
    ensures
        selection_matches(r, trim_of(input@), max_len),
        input@.len() == 0 ==> r == Selection::Cancel,
{
    let text = trim(input);
    resolve_selection(text, max_len)
}

} // verus!
