//! The record format: one store line holds a secret and a description,
//! separated by a reserved delimiter.
use vstd::prelude::*;
use crate::text::{contains_seq, first_occurrence, occurs_at, str_split_once};

verus! {

/// The reserved token that separates the secret from the description.
pub const DELIMITER: &'static str = "∫∆∫";

pub open spec fn delimiter() -> Seq<char> {
    seq!['∫', '∆', '∫']
}

pub proof fn lemma_delimiter_view()
    ensures
        DELIMITER@ == delimiter(),
{
    reveal_strlit("∫∆∫");
    assert(DELIMITER@ =~= delimiter());
}

/// The line that stores `secret` with `description`.
pub open spec fn encode_spec(secret: Seq<char>, description: Seq<char>) -> Seq<char> {
    secret + delimiter() + description
}

/// The (secret, description) pair of a line, split at the first delimiter;
/// `None` for a line without one (a malformed or legacy line).
pub open spec fn decode_spec(line: Seq<char>) -> Option<(Seq<char>, Seq<char>)> {
    if contains_seq(line, delimiter()) {
        let i = choose|i: int| first_occurrence(line, delimiter(), i);
        Some((line.subrange(0, i), line.subrange(i + delimiter().len(), line.len() as int)))
    } else {
        None
    }
}

/// `s` ends with the first two characters of the delimiter, so that a
/// delimiter written after it would start inside it.
pub open spec fn ends_with_delimiter_head(s: Seq<char>) -> bool {
    s.len() >= 2 && s.subrange(s.len() - 2, s.len() as int) == delimiter().take(2)
}

/// Joins a secret and a description into one store line.
pub fn encode(secret: &str, description: &str) -> (line: String)
    ensures
        line@ == encode_spec(secret@, description@),
{
    proof {
        lemma_delimiter_view();
    }
    let mut line = secret.to_owned();
    line.append(DELIMITER);
    line.append(description);
    line
}

/// Splits a store line into its secret and description at the first
/// delimiter; `None` where the line holds no delimiter.
pub fn decode(line: &str) -> (r: Option<(String, String)>)
    ensures
        match r {
            None => decode_spec(line@) is None,
            Some((secret, description)) => decode_spec(line@) == Some((secret@, description@)),
        },
{
    proof {
        lemma_delimiter_view();
    }
    match str_split_once(line, DELIMITER) {
        None => None,
        Some((secret, description)) => {
            let ghost i = secret@.len() as int;
            proof {
                let k = choose|k: int| first_occurrence(line@, delimiter(), k);
                assert(k == i) by {
                    if k < i {
                        assert(!occurs_at(line@, delimiter(), k));
                    } else if i < k {
                        assert(!occurs_at(line@, delimiter(), i));
                    }
                }
                assert(line@.subrange(0, i) =~= secret@);
                assert(line@.subrange(i + 3, line@.len() as int) =~= description@);
            }
            Some((secret.to_owned(), description.to_owned()))
        },
    }
}

/// Decoding an encoded record gives back its secret and description, where
/// neither holds the delimiter and the secret does not end with the
/// delimiter's first two characters (else the line's first delimiter would
/// start inside the secret).
pub proof fn lemma_decode_encode(secret: Seq<char>, description: Seq<char>)
    requires
        !contains_seq(secret, delimiter()),
        !contains_seq(description, delimiter()),
        !ends_with_delimiter_head(secret),
    ensures
        decode_spec(encode_spec(secret, description)) == Some((secret, description)),
{
    let line = encode_spec(secret, description);
    let n = secret.len() as int;
    let d = delimiter();
    assert(line.subrange(n, n + 3) =~= d);
    assert(occurs_at(line, d, n));
    assert forall|j: int| 0 <= j < n implies !occurs_at(line, d, j) by {
        if occurs_at(line, d, j) {
            if j + 3 <= n {
                assert(secret.subrange(j, j + 3) =~= line.subrange(j, j + 3));
                assert(occurs_at(secret, d, j));
            } else if j == n - 1 {
                assert(line.subrange(j, j + 3)[1] == line[n]);
            } else {
                assert(j == n - 2);
                assert(line.subrange(j, j + 3)[0] == secret[n - 2]);
                assert(line.subrange(j, j + 3)[1] == secret[n - 1]);
                assert(secret.subrange(n - 2, n) =~= d.take(2));
            }
        }
    }
    assert(first_occurrence(line, d, n));
    let k = choose|k: int| first_occurrence(line, d, k);
    assert(k == n) by {
        if k < n {
            assert(!occurs_at(line, d, k));
        } else if n < k {
            assert(!occurs_at(line, d, n));
        }
    }
    assert(line.subrange(0, n) =~= secret);
    assert(line.subrange(n + 3, line.len() as int) =~= description);
}

} // verus!
