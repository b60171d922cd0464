//! The store as text: the decrypted file is split into lines, and the lines
//! are joined with line feeds to be encrypted again.
use vstd::prelude::*;
use crate::text::{pop_char, push_char};

verus! {

/// The pieces of `text` between line feeds; there is always one more piece
/// than there are line feeds.
pub open spec fn pieces(text: Seq<char>) -> Seq<Seq<char>>
    decreases text.len(),
{
    if text.len() == 0 {
        seq![Seq::empty()]
    } else {
        let before = pieces(text.drop_last());
        if text.last() == '\n' {
            before.push(Seq::empty())
        } else {
            before.update(before.len() - 1, before.last().push(text.last()))
        }
    }
}

proof fn lemma_pieces_nonempty(text: Seq<char>)
    ensures
        pieces(text).len() >= 1,
    decreases text.len(),
{
    if text.len() > 0 {
        lemma_pieces_nonempty(text.drop_last());
    }
}

/// A line without the carriage return that ended it, if any.
pub open spec fn strip_cr(l: Seq<char>) -> Seq<char> {
    if l.len() > 0 && l.last() == '\r' {
        l.drop_last()
    } else {
        l
    }
}

/// The lines of a text: the pieces between line feeds, a carriage return
/// before a line feed dropped, and no empty line after a final line feed.
pub open spec fn text_lines(text: Seq<char>) -> Seq<Seq<char>> {
    let p = pieces(text);
    let body = p.drop_last().map_values(|l: Seq<char>| strip_cr(l));
    if p.last().len() == 0 {
        body
    } else {
        body.push(p.last())
    }
}

/// The lines joined, with a line feed between each two.
pub open spec fn joined_lines(lines: Seq<Seq<char>>) -> Seq<char>
    decreases lines.len(),
{
    if lines.len() == 0 {
        Seq::empty()
    } else if lines.len() == 1 {
        lines[0]
    } else {
        joined_lines(lines.drop_last()) + seq!['\n'] + lines.last()
    }
}

proof fn lemma_pieces_append(x: Seq<char>, y: Seq<char>)
    requires
        forall|i: int| 0 <= i < y.len() ==> y[i] != '\n',
    ensures
        pieces(x).len() >= 1,
        pieces(x + y) == pieces(x).update(pieces(x).len() - 1, pieces(x).last() + y),
    decreases y.len(),
{
    lemma_pieces_nonempty(x);
    if y.len() == 0 {
        assert(x + y =~= x);
        assert(pieces(x).last() + y =~= pieces(x).last());
        assert(pieces(x).update(pieces(x).len() - 1, pieces(x).last()) =~= pieces(x));
    } else {
        let y0 = y.drop_last();
        lemma_pieces_append(x, y0);
        assert((x + y).drop_last() =~= x + y0);
        assert((x + y).last() == y.last());
        assert(pieces(x).last() + y0 + seq![y.last()] =~= pieces(x).last() + y);
        assert((pieces(x).last() + y0).push(y.last()) =~= pieces(x).last() + y);
        assert(pieces(x + y) =~= pieces(x).update(pieces(x).len() - 1, pieces(x).last() + y));
    }
}

proof fn lemma_pieces_of_joined(lines: Seq<Seq<char>>)
    requires
        lines.len() >= 1,
        forall|k: int, i: int|
            0 <= k < lines.len() && 0 <= i < lines[k].len() ==> lines[k][i] != '\n',
    ensures
        pieces(joined_lines(lines)) == lines,
    decreases lines.len(),
{
    if lines.len() == 1 {
        lemma_pieces_append(Seq::empty(), lines[0]);
        assert(Seq::<char>::empty() + lines[0] =~= lines[0]);
        assert(pieces(Seq::<char>::empty()).last() + lines[0] =~= lines[0]);
        assert(seq![Seq::<char>::empty()].update(0, lines[0]) =~= lines);
    } else {
        let rest = lines.drop_last();
        lemma_pieces_of_joined(rest);
        let x = joined_lines(rest) + seq!['\n'];
        assert(x.drop_last() =~= joined_lines(rest));
        assert(pieces(x) == rest.push(Seq::empty()));
        lemma_pieces_append(x, lines.last());
        assert(Seq::<char>::empty() + lines.last() =~= lines.last());
        assert(rest.push(Seq::empty()).update(rest.len() as int, lines.last()) =~= lines);
    }
}

/// Law of the store's text: joining lines and splitting the text again gives
/// the same lines, where no line holds a line feed or ends with a carriage
/// return and the last line is not empty.
pub proof fn lemma_split_join(lines: Seq<Seq<char>>)
    requires
        forall|k: int, i: int|
            0 <= k < lines.len() && 0 <= i < lines[k].len() ==> lines[k][i] != '\n',
        forall|k: int| 0 <= k < lines.len() ==> strip_cr(#[trigger] lines[k]) == lines[k],
        lines.len() > 0 ==> lines.last().len() > 0,
    ensures
        text_lines(joined_lines(lines)) == lines,
{
    if lines.len() == 0 {
        assert(text_lines(Seq::empty()) =~= lines);
    } else {
        lemma_pieces_of_joined(lines);
        let body = lines.drop_last().map_values(|l: Seq<char>| strip_cr(l));
        assert forall|k: int| 0 <= k < body.len() implies body[k] == lines[k] by {
            assert(strip_cr(lines[k]) == lines[k]);
        }
        assert(body.push(lines.last()) =~= lines);
    }
}

/// Splits decrypted text into the store's lines.
pub fn split_lines(text: &str) -> (lines: Vec<String>)
    ensures
        lines.deep_view() == text_lines(text@),
{
    let ghost t = text@;
    let mut done: Vec<String> = Vec::new();
    let mut current = String::new();
    let mut ends_with_cr = false;
    for c in it: text.chars()
        invariant
            t == text@,
            it.seq() == t,
            it.index() <= t.len(),
            pieces(t.take(it.index() as int)).len() >= 1,
            done.deep_view() == pieces(t.take(it.index() as int)).drop_last().map_values(
                |l: Seq<char>| strip_cr(l),
            ),
            current@ == pieces(t.take(it.index() as int)).last(),
            ends_with_cr == (current@.len() > 0 && current@.last() == '\r'),
    {
        let ghost k = it.index() as int;
        let ghost before = pieces(t.take(k));
        proof {
            assert(t.take(k + 1).drop_last() =~= t.take(k));
            assert(t.take(k + 1).last() == c);
            lemma_pieces_nonempty(t.take(k + 1));
        }
        if c == '\n' {
            let ghost full = current@;
            let ghost old_done = done.deep_view();
            if ends_with_cr {
                pop_char(&mut current);
            }
            assert(current@ == strip_cr(full));
            done.push(current);
            current = String::new();
            ends_with_cr = false;
            proof {
                let after = pieces(t.take(k + 1));
                assert(after == before.push(Seq::empty()));
                assert(after.drop_last() =~= before);
                let m = before.map_values(|l: Seq<char>| strip_cr(l));
                let d = done.deep_view();
                assert(d.len() == old_done.len() + 1);
                assert forall|j: int| 0 <= j < m.len() implies m[j] == d[j] by {
                    if j < m.len() - 1 {
                        assert(before.drop_last()[j] == before[j]);
                        assert(old_done[j] == d[j]);
                    }
                }
                assert(d =~= m);
            }
        } else {
            push_char(&mut current, c);
            ends_with_cr = c == '\r';
            proof {
                let after = pieces(t.take(k + 1));
                assert(after.drop_last() =~= before.drop_last());
            }
        }
    }
    assert(t.take(t.len() as int) =~= t);
    if current.as_str().is_empty() {
        assert(done.deep_view() =~= text_lines(t));
    } else {
        done.push(current);
        assert(done.deep_view() =~= text_lines(t));
    }
    done
}

/// Joins the store's lines with a line feed between each two, to be
/// encrypted.
pub fn join_lines(lines: &Vec<String>) -> (text: String)
    ensures
        text@ == joined_lines(lines.deep_view()),
{
    let ghost ls = lines.deep_view();
    let mut text = String::new();
    let mut i: usize = 0;
    while i < lines.len()
        invariant
            i <= lines.len(),
            ls == lines.deep_view(),
            text@ == joined_lines(ls.take(i as int)),
        decreases lines.len() - i,
    {
        proof {
            assert(ls.take(i + 1).drop_last() =~= ls.take(i as int));
            assert(ls[i as int] == lines@[i as int]@);
        }
        if i > 0 {
            push_char(&mut text, '\n');
        }
        text.append(lines[i].as_str());
        proof {
            if i == 0 {
                assert(ls.take(1) =~= seq![ls[0]]);
                assert(text@ =~= joined_lines(ls.take(1)));
            } else {
                assert(text@ =~= joined_lines(ls.take(i + 1)));
            }
        }
        i = i + 1;
    }
    assert(ls.take(lines.len() as int) =~= ls);
    text
}

} // verus!
