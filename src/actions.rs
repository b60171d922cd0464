//! Finding an entry to copy and deleting an entry: the scanner, the selection
//! engine and the record codec put together over the store.
use vstd::prelude::*;
use crate::locale::LangStrings;
use crate::record::{decode, decode_spec};
use crate::scan::{lemma_match_set_members, line_matches, match_set, scan};
use crate::select::{get_index, selection_matches, trim_of, Selection};

verus! {

/// What one command works on: the texts, the length of generated passwords,
/// the password of the store file, and the store's lines.
pub struct AppData {
    pub app_locale: LangStrings,
    pub app_pw_len: usize,
    pub app_encryp_pass: String,
    pub app_line_vec: Vec<String>,
}

/// The result of looking for an entry whose secret goes to the clipboard.
#[derive(Debug, PartialEq, Eq)]
pub enum FindOutcome {
    /// No line matches the pattern.
    NoMatch,
    /// The user chose nothing.
    Cancelled,
    /// The user typed a number above the number of matches.
    OutOfRange(String),
    /// The chosen line is malformed: it has no secret to copy.
    Malformed,
    /// The secret of the chosen entry.
    Secret(String),
}

/// The result of deleting an entry.
#[derive(Debug, PartialEq, Eq)]
pub enum DeleteOutcome {
    /// No line matches the pattern; the store is untouched.
    NoMatch,
    /// The user chose nothing; the store is untouched.
    Cancelled,
    /// The user typed a number above the number of matches; the store is
    /// untouched.
    OutOfRange(String),
    /// One line was removed: the description of the removed entry, or `None`
    /// where that line was malformed.
    Removed(Option<String>),
}

impl DeleteOutcome {
    /// The store changed and must be saved again.
    pub fn needs_saving(&self) -> (r: bool)
        ensures
            r == self is Removed,
    {
        match self {
            DeleteOutcome::Removed(_) => true,
            _ => false,
        }
    }
}

/// The store's lines as character sequences.
pub open spec fn lines_of(lines: &Vec<String>) -> Seq<Seq<char>> {
    lines.deep_view()
}

/// The positions are valid indices of a store of `n` lines.
pub open spec fn indices_below(ms: Seq<usize>, n: int) -> bool {
    forall|k: int| 0 <= k < ms.len() ==> #[trigger] ms[k] < n
}

/// `d` is the description of `line`, or `None` where `line` is malformed.
pub open spec fn is_description_of(d: Option<String>, line: Seq<char>) -> bool {
    match d {
        Some(x) => decode_spec(line) matches Some((_, desc)) && x@ == desc,
        None => decode_spec(line) is None,
    }
}

/// The store after deleting the `choice`-th (1-based) entry of the match set
/// of `pattern`.
pub open spec fn store_after_delete(lines: Seq<Seq<char>>, pattern: Seq<char>, choice: int) -> Seq<
    Seq<char>,
> {
    lines.remove(match_set(pattern, lines)[choice - 1] as int)
}

/// The outcome of deleting for the line `input` that the user typed, and
/// the store after it.
pub open spec fn delete_outcome_matches(
    r: DeleteOutcome,
    lines: Seq<Seq<char>>,
    after: Seq<Seq<char>>,
    pattern: Seq<char>,
    input: Seq<char>,
) -> bool {
    let ms = match_set(pattern, lines);
    if ms.len() == 0 {
        r == DeleteOutcome::NoMatch && after == lines
    } else {
        exists|sel: Selection|
            #[trigger] selection_matches(sel, trim_of(input), ms.len() as usize) && match sel {
                Selection::Chosen(k) => {
                    &&& after == store_after_delete(lines, pattern, k as int)
                    &&& r matches DeleteOutcome::Removed(d) && is_description_of(
                        d,
                        lines[ms[k - 1] as int],
                    )
                },
                Selection::Cancel => r == DeleteOutcome::Cancelled && after == lines,
                Selection::OutOfRange(t) => r matches DeleteOutcome::OutOfRange(u) && u@ == t@
                    && after == lines,
            }
    }
}

/// The outcome of copying for selection `sel` from the lines `lines` at the
/// positions `ms`.
pub open spec fn find_outcome_matches(
    r: FindOutcome,
    lines: Seq<Seq<char>>,
    ms: Seq<usize>,
    sel: Selection,
) -> bool {
    match sel {
        Selection::Cancel => r == FindOutcome::Cancelled,
        Selection::OutOfRange(t) => r matches FindOutcome::OutOfRange(u) && u@ == t@,
        Selection::Chosen(k) => match decode_spec(lines[ms[k - 1] as int]) {
            Some((secret, _)) => r matches FindOutcome::Secret(x) && x@ == secret,
            None => r == FindOutcome::Malformed,
        },
    }
}

/// The secret that a selection points at, among the lines `lines` at the
/// positions `ms`.
pub fn secret_of_selection(lines: &Vec<String>, ms: &Vec<usize>, sel: Selection) -> (r:
    FindOutcome)
    requires
        indices_below(ms@, lines.len() as int),
        sel matches Selection::Chosen(k) ==> 1 <= k <= ms.len(),
    ensures
        find_outcome_matches(r, lines_of(lines), ms@, sel),
{
    match sel {
        Selection::Cancel => FindOutcome::Cancelled,
        Selection::OutOfRange(t) => FindOutcome::OutOfRange(t),
        Selection::Chosen(k) => {
            let i = ms[k - 1];
            assert(lines_of(lines)[i as int] == lines@[i as int]@);
            match decode(lines[i].as_str()) {
                Some((secret, _)) => FindOutcome::Secret(secret),
                None => FindOutcome::Malformed,
            }
        },
    }
}

/// Looks for `ptrn` in the store and reads `input`, the line that the user
/// typed, as a choice among the matches: the outcome holds the secret of the
/// chosen entry.
pub fn find(ptrn: &str, data: &AppData, input: &str) -> (r: FindOutcome)
    ensures
        ({
            let lines = lines_of(&data.app_line_vec);
            let ms = match_set(ptrn@, lines);
            if ms.len() == 0 {
                r == FindOutcome::NoMatch
            } else {
                exists|sel: Selection|
                    selection_matches(sel, trim_of(input@), ms.len() as usize)
                        && find_outcome_matches(r, lines, ms, sel)
            }
        }),
{
    let ms = scan(ptrn, &data.app_line_vec);
    if ms.len() == 0 {
        return FindOutcome::NoMatch;
    }
    let sel = get_index(input, ms.len());
    let ghost g = sel;
    let r = secret_of_selection(&data.app_line_vec, &ms, sel);
    assert(selection_matches(g, trim_of(input@), ms.len()) && find_outcome_matches(
        r,
        lines_of(&data.app_line_vec),
        ms@,
        g,
    ));
    r
}

/// Applies a selection to the store: the chosen entry among the positions
/// `ms` is removed, every other line kept in order.
pub fn remove_selected(lines: &mut Vec<String>, ms: &Vec<usize>, sel: Selection) -> (r:
    DeleteOutcome)
    requires
        indices_below(ms@, old(lines).len() as int),
        sel matches Selection::Chosen(k) ==> 1 <= k <= ms.len(),
    ensures
        match sel {
            Selection::Cancel => r == DeleteOutcome::Cancelled && final(lines)@ == old(lines)@,
            Selection::OutOfRange(t) => r matches DeleteOutcome::OutOfRange(u) && u@ == t@
                && final(lines)@ == old(lines)@,
            Selection::Chosen(k) => {
                let i = ms@[k - 1] as int;
                &&& final(lines)@ == old(lines)@.remove(i)
                &&& r matches DeleteOutcome::Removed(d) && is_description_of(d, old(lines)@[i]@)
            },
        },
{
    match sel {
        Selection::Cancel => DeleteOutcome::Cancelled,
        Selection::OutOfRange(t) => DeleteOutcome::OutOfRange(t),
        Selection::Chosen(k) => {
            let i = ms[k - 1];
            let line = lines.remove(i);
            match decode(line.as_str()) {
                Some((_, description)) => DeleteOutcome::Removed(Some(description)),
                None => DeleteOutcome::Removed(None),
            }
        },
    }
}

/// Looks for `ptrn` in the store and reads `input`, the line that the user
/// typed, as a choice among the matches: the chosen line, and only it, is
/// removed from the store. Nothing else changes.
pub fn del(ptrn: &str, data: &mut AppData, input: &str) -> (r: DeleteOutcome)
    ensures
        final(data).app_locale == old(data).app_locale,
        final(data).app_pw_len == old(data).app_pw_len,
        final(data).app_encryp_pass == old(data).app_encryp_pass,
        delete_outcome_matches(
            r,
            lines_of(&old(data).app_line_vec),
            lines_of(&final(data).app_line_vec),
            ptrn@,
            input@,
        ),
        r is Removed ==> final(data).app_line_vec.len() == old(data).app_line_vec.len() - 1,
        !(r is Removed) ==> final(data).app_line_vec@ == old(data).app_line_vec@,
{
    let ms = scan(ptrn, &data.app_line_vec);
    if ms.len() == 0 {
        return DeleteOutcome::NoMatch;
    }
    let sel = get_index(input, ms.len());
    let ghost g = sel;
    let ghost before = data.app_line_vec@;
    let r = remove_selected(&mut data.app_line_vec, &ms, sel);
    proof {
        let lines = lines_of(&old(data).app_line_vec);
        let after = lines_of(&data.app_line_vec);
        assert(ms@ == match_set(ptrn@, lines));
        if let Selection::Chosen(k) = g {
            let i = ms@[k - 1] as int;
            assert(after =~= lines.remove(i));
            assert(lines[i] == before[i]@);
            assert(after == store_after_delete(lines, ptrn@, k as int));
            assert(r matches DeleteOutcome::Removed(d) && is_description_of(d, lines[i]));
        } else {
            assert(after =~= lines);
        }
        assert(selection_matches(g, trim_of(input@), match_set(ptrn@, lines).len() as usize));
    }
    r
}

/// Law of deletion: where exactly one line of the store matches the pattern,
/// deleting the first (and only) match leaves one line fewer, no line that
/// matches, and every other line in its order.
pub proof fn lemma_delete_single_match(lines: Seq<Seq<char>>, pattern: Seq<char>)
    requires
        lines.len() <= usize::MAX,
        match_set(pattern, lines).len() == 1,
    ensures
        ({
            let i = match_set(pattern, lines)[0] as int;
            let after = store_after_delete(lines, pattern, 1);
            &&& 0 <= i < lines.len()
            &&& line_matches(pattern, lines[i])
            &&& after.len() == lines.len() - 1
            &&& forall|k: int| 0 <= k < after.len() ==> !line_matches(pattern, #[trigger] after[k])
            &&& after == lines.take(i) + lines.skip(i + 1)
        }),
{
    lemma_match_set_members(pattern, lines);
    let ms = match_set(pattern, lines);
    let i = ms[0] as int;
    assert(ms.contains(ms[0]));
    let after = store_after_delete(lines, pattern, 1);
    assert(after =~= lines.take(i) + lines.skip(i + 1));
    assert forall|k: int| 0 <= k < after.len() implies !line_matches(pattern, #[trigger] after[k]) by {
        let j = if k < i { k } else { k + 1 };
        assert(after[k] == lines[j]);
        if line_matches(pattern, lines[j]) {
            assert(ms.contains(j as usize));
            let m = choose|m: int| 0 <= m < ms.len() && ms[m] == j as usize;
            assert(m == 0);
        }
    }
}

} // verus!
