//! Masked keyboard capture: the decisions taken on each byte typed while
//! echo is off. The caller reads the bytes and draws what each decision says.
use vstd::prelude::*;
use crate::text::{pop_char, push_char};

verus! {

/// Line feed.
pub const LINE_FEED: u8 = 0x0A;

/// Carriage return.
pub const CARRIAGE_RETURN: u8 = 0x0D;

/// Delete, sent by most terminals for the backspace key.
pub const DELETE: u8 = 0x7F;

/// Backspace.
pub const BACKSPACE: u8 = 0x08;

/// Escape, which starts a multi-byte key sequence.
pub const ESCAPE: u8 = 0x1B;

/// What the display must show after one byte.
#[derive(Clone, Copy, Debug, PartialEq, Eq, Structural)]
pub enum KeyEffect {
    /// The line is complete: end it on the display and stop reading.
    Finish,
    /// One character was removed: erase one mask character.
    EraseMask,
    /// One character was added: draw one mask character.
    ShowMask,
    /// An escape sequence starts: read up to two more bytes and drop them.
    SkipSequence,
    /// Nothing changes.
    Ignore,
}

pub open spec fn is_printable(b: u8) -> bool {
    32 <= b <= 126
}

pub open spec fn is_erase(b: u8) -> bool {
    b == DELETE || b == BACKSPACE
}

/// The captured text after byte `b` arrives with `t` captured so far.
pub open spec fn next_text(t: Seq<char>, b: u8) -> Seq<char> {
    if b == LINE_FEED || b == CARRIAGE_RETURN || b == ESCAPE {
        t
    } else if is_erase(b) {
        if t.len() > 0 {
            t.drop_last()
        } else {
            t
        }
    } else if is_printable(b) {
        t.push(b as char)
    } else {
        t
    }
}

/// What the display must show after byte `b` arrives with `t` captured so far.
pub open spec fn key_effect(t: Seq<char>, b: u8) -> KeyEffect {
    if b == LINE_FEED || b == CARRIAGE_RETURN {
        KeyEffect::Finish
    } else if is_erase(b) {
        if t.len() > 0 {
            KeyEffect::EraseMask
        } else {
            KeyEffect::Ignore
        }
    } else if b == ESCAPE {
        KeyEffect::SkipSequence
    } else if is_printable(b) {
        KeyEffect::ShowMask
    } else {
        KeyEffect::Ignore
    }
}

/// The text captured so far from the keyboard.
pub struct MaskedInput {
    buffer: String,
}

impl View for MaskedInput {
    type V = Seq<char>;

    closed spec fn view(&self) -> Seq<char> {
        self.buffer@
    }
}

impl MaskedInput {
    /// Nothing captured yet.
    pub fn new() -> (r: Self)
        ensures
            r@ == Seq::<char>::empty(),
    {
        MaskedInput { buffer: String::new() }
    }

    /// Takes one byte typed: a line end finishes, backspace or delete removes
    /// the last character if there is one, escape starts a sequence to drop,
    /// a printable ASCII byte is added, and any other byte is ignored.
    pub fn feed(&mut self, byte: u8) -> (r: KeyEffect)
        ensures
            final(self)@ == next_text(old(self)@, byte),
            r == key_effect(old(self)@, byte),
    {
        if byte == LINE_FEED || byte == CARRIAGE_RETURN {
            KeyEffect::Finish
        } else if byte == DELETE || byte == BACKSPACE {
            match pop_char(&mut self.buffer) {
                Some(_) => KeyEffect::EraseMask,
                None => KeyEffect::Ignore,
            }
        } else if byte == ESCAPE {
            KeyEffect::SkipSequence
        } else if 32 <= byte && byte <= 126 {
            push_char(&mut self.buffer, byte as char);
            KeyEffect::ShowMask
        } else {
            KeyEffect::Ignore
        }
    }

    /// The captured text.
    pub fn into_text(self) -> (r: String)
        ensures
            r@ == self@,
    {
        self.buffer
    }
}

/// Laws of the capture: erasing on an empty capture changes nothing and shows
/// nothing; three printable bytes then one erase leave the first two; a line
/// end with nothing typed finishes with an empty text.
pub proof fn lemma_masked_capture(a: u8, b: u8, c: u8, erase: u8, end: u8)
    requires
        is_printable(a),
        is_printable(b),
        is_printable(c),
        is_erase(erase),
        end == LINE_FEED || end == CARRIAGE_RETURN,
    ensures
        next_text(Seq::empty(), erase) == Seq::<char>::empty(),
        key_effect(Seq::empty(), erase) == KeyEffect::Ignore,
        next_text(
            next_text(next_text(next_text(Seq::empty(), a), b), c),
            erase,
        ) == seq![a as char, b as char],
        key_effect(Seq::empty(), end) == KeyEffect::Finish,
        next_text(Seq::empty(), end) == Seq::<char>::empty(),
{
    let t3 = next_text(next_text(next_text(Seq::empty(), a), b), c);
    assert(t3 =~= seq![a as char, b as char, c as char]);
    assert(t3.drop_last() =~= seq![a as char, b as char]);
}

} // verus!
