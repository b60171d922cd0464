//! The pattern scanner: case-insensitive substring search over the store.
use vstd::prelude::*;
use crate::text::{contains_seq, str_contains};

verus! {

/// What `str::to_lowercase` makes of a string.
pub uninterp spec fn lower_of(s: Seq<char>) -> Seq<char>;

/// Relies on `str::to_lowercase`: the result depends on the characters alone,
/// and an empty string stays empty.
#[verifier::external_body]
fn lowercase(s: &str) -> (r: String)
    ensures
        r@ == lower_of(s@),
        s@.len() == 0 ==> r@.len() == 0,
{
    s.to_lowercase()
}

/// The indices, in increasing order, of the lines that hold `p`.
pub open spec fn positions_containing(p: Seq<char>, lines: Seq<Seq<char>>) -> Seq<usize>
    decreases lines.len(),
{
    if lines.len() == 0 {
        Seq::empty()
    } else {
        let before = positions_containing(p, lines.drop_last());
        if contains_seq(lines.last(), p) {
            before.push((lines.len() - 1) as usize)
        } else {
            before
        }
    }
}

/// Each line, lowercased.
pub open spec fn lowered_all(lines: Seq<Seq<char>>) -> Seq<Seq<char>> {
    lines.map_values(|l: Seq<char>| lower_of(l))
}

/// The line matches the pattern: its lowercase form holds the pattern's.
pub open spec fn line_matches(pattern: Seq<char>, line: Seq<char>) -> bool {
    contains_seq(lower_of(line), lower_of(pattern))
}

/// The match set of a pattern over a store: the indices of the matching lines,
/// in store order.
pub open spec fn match_set(pattern: Seq<char>, lines: Seq<Seq<char>>) -> Seq<usize> {
    positions_containing(lower_of(pattern), lowered_all(lines))
}

/// The positions list holds exactly the indices of the lines that hold `p`,
/// each once, in increasing order.
pub proof fn lemma_positions_containing(p: Seq<char>, lines: Seq<Seq<char>>)
    requires
        lines.len() <= usize::MAX,
    ensures
        forall|k: int|
            0 <= k < positions_containing(p, lines).len() ==> {
                let i = #[trigger] positions_containing(p, lines)[k];
                i < lines.len() && contains_seq(lines[i as int], p)
            },
        forall|i: int|
            0 <= i < lines.len() ==> (positions_containing(p, lines).contains(i as usize)
                <==> contains_seq(#[trigger] lines[i], p)),
        forall|a: int, b: int|
            0 <= a < b < positions_containing(p, lines).len() ==> positions_containing(p, lines)[a]
                < positions_containing(p, lines)[b],
    decreases lines.len(),
{
    if lines.len() > 0 {
        let rest = lines.drop_last();
        lemma_positions_containing(p, rest);
        let before = positions_containing(p, rest);
        let all = positions_containing(p, lines);
        let last = (lines.len() - 1) as usize;
        assert forall|i: int|
            0 <= i < lines.len() implies (all.contains(i as usize) <==> contains_seq(
            #[trigger] lines[i],
            p,
        )) by {
            if i < lines.len() - 1 {
                assert(rest[i] == lines[i]);
                if all.contains(i as usize) {
                    let k = choose|k: int| 0 <= k < all.len() && all[k] == i as usize;
                    if k < before.len() {
                        assert(before[k] == all[k]);
                        assert(before.contains(i as usize));
                    }
                }
                if before.contains(i as usize) {
                    let k = choose|k: int| 0 <= k < before.len() && before[k] == i as usize;
                    assert(all[k] == before[k]);
                }
            } else {
                assert(i == last);
                if contains_seq(lines[i], p) {
                    assert(all[all.len() - 1] == last);
                }
                if all.contains(i as usize) {
                    let k = choose|k: int| 0 <= k < all.len() && all[k] == i as usize;
                    if k < before.len() {
                        assert(before[k] == all[k]);
                    }
                }
            }
        }
    }
}

/// Law of the scanner: index `i` of the store is in the match set of `pattern`
/// exactly when the lowercase line holds the lowercase pattern; the match set
/// lists each such index once, in store order.
pub proof fn lemma_match_set_members(pattern: Seq<char>, lines: Seq<Seq<char>>)
    requires
        lines.len() <= usize::MAX,
    ensures
        forall|i: int|
            0 <= i < lines.len() ==> (match_set(pattern, lines).contains(i as usize)
                <==> line_matches(pattern, #[trigger] lines[i])),
        forall|k: int|
            0 <= k < match_set(pattern, lines).len() ==> #[trigger] match_set(pattern, lines)[k]
                < lines.len(),
        forall|a: int, b: int|
            0 <= a < b < match_set(pattern, lines).len() ==> match_set(pattern, lines)[a]
                < match_set(pattern, lines)[b],
{
    let low = lowered_all(lines);
    lemma_positions_containing(lower_of(pattern), low);
    assert forall|i: int| 0 <= i < lines.len() implies (match_set(pattern, lines).contains(
        i as usize,
    ) <==> line_matches(pattern, #[trigger] lines[i])) by {
        assert(low[i] == lower_of(lines[i]));
    }
}

/// The match set of an already lowercased pattern over already lowercased
/// lines: the indices of the lines that hold the pattern, in order.
pub fn scan_lowered(pattern_lower: &str, lines_lower: &Vec<String>) -> (r: Vec<usize>)
    ensures
        r@ == positions_containing(pattern_lower@, lines_lower.deep_view()),
{
    let ghost lines = lines_lower.deep_view();
    let mut r: Vec<usize> = Vec::new();
    let mut i: usize = 0;
    while i < lines_lower.len()
        invariant
            i <= lines_lower.len(),
            lines == lines_lower.deep_view(),
            r@ == positions_containing(pattern_lower@, lines.take(i as int)),
        decreases lines_lower.len() - i,
    {
        assert(lines.take(i + 1).drop_last() =~= lines.take(i as int));
        assert(lines[i as int] == lines_lower@[i as int]@);
        if str_contains(lines_lower[i].as_str(), pattern_lower) {
            r.push(i);
        }
        i = i + 1;
    }
    assert(lines.take(i as int) =~= lines);
    r
}

/// The match set of `ptrn` over the store `list`: the index of every line
/// whose lowercase form holds the lowercase pattern, malformed lines included,
/// in store order.
pub fn scan(ptrn: &str, list: &Vec<String>) -> (r: Vec<usize>)
    ensures
        r@ == match_set(ptrn@, list.deep_view()),
        forall|i: int|
            0 <= i < list.len() ==> (r@.contains(i as usize) <==> line_matches(
                ptrn@,
                #[trigger] list@[i]@,
            )),
        forall|k: int| 0 <= k < r.len() ==> #[trigger] r@[k] < list.len(),
        forall|a: int, b: int| 0 <= a < b < r.len() ==> r@[a] < r@[b],
{
    let pattern_lower = lowercase(ptrn);
    let mut lowered: Vec<String> = Vec::new();
    let mut i: usize = 0;
    while i < list.len()
        invariant
            i <= list.len(),
            lowered.len() == i,
            forall|k: int| 0 <= k < i ==> (#[trigger] lowered@[k])@ == lower_of(list@[k]@),
        decreases list.len() - i,
    {
        lowered.push(lowercase(list[i].as_str()));
        i = i + 1;
    }
    assert(lowered.deep_view() =~= lowered_all(list.deep_view()));
    let r = scan_lowered(pattern_lower.as_str(), &lowered);
    proof {
        lemma_match_set_members(ptrn@, list.deep_view());
        assert forall|i: int| 0 <= i < list.len() implies (r@.contains(i as usize) <==> line_matches(
            ptrn@,
            #[trigger] list@[i]@,
        )) by {
            assert(list.deep_view()[i] == list@[i]@);
        }
    }
    r
}

} // verus!
