use mdp::masked::{KeyEffect, MaskedInput, BACKSPACE, CARRIAGE_RETURN, DELETE, ESCAPE, LINE_FEED};

#[test]
fn backspace_on_empty_is_noop() {
    let mut m = MaskedInput::new();
    assert_eq!(m.feed(DELETE), KeyEffect::Ignore);
    assert_eq!(m.feed(BACKSPACE), KeyEffect::Ignore);
    assert_eq!(m.into_text(), "");
}

#[test]
fn three_chars_then_backspace_leaves_two() {
    let mut m = MaskedInput::new();
    assert_eq!(m.feed(b'a'), KeyEffect::ShowMask);
    assert_eq!(m.feed(b'b'), KeyEffect::ShowMask);
    assert_eq!(m.feed(b'c'), KeyEffect::ShowMask);
    assert_eq!(m.feed(DELETE), KeyEffect::EraseMask);
    assert_eq!(m.feed(LINE_FEED), KeyEffect::Finish);
    assert_eq!(m.into_text(), "ab");
}

#[test]
fn enter_without_input_is_empty() {
    let mut m = MaskedInput::new();
    assert_eq!(m.feed(LINE_FEED), KeyEffect::Finish);
    assert_eq!(m.into_text(), "");
    let mut m = MaskedInput::new();
    assert_eq!(m.feed(CARRIAGE_RETURN), KeyEffect::Finish);
    assert_eq!(m.into_text(), "");
}

#[test]
fn escape_and_control_bytes_leave_text() {
    let mut m = MaskedInput::new();
    assert_eq!(m.feed(b'x'), KeyEffect::ShowMask);
    assert_eq!(m.feed(ESCAPE), KeyEffect::SkipSequence);
    assert_eq!(m.feed(0x01), KeyEffect::Ignore);
    assert_eq!(m.feed(0xC3), KeyEffect::Ignore);
    assert_eq!(m.feed(b' '), KeyEffect::ShowMask);
    assert_eq!(m.feed(b'~'), KeyEffect::ShowMask);
    assert_eq!(m.into_text(), "x ~");
}
