//! The terminal attributes that masked capture changes: echo and canonical
//! (line-buffered) mode are switched off, everything else is kept.
use vstd::prelude::*;

verus! {

/// Echo of typed characters.
pub const ECHO: u32 = 0o000010;

/// Canonical mode: input arrives a line at a time.
pub const ICANON: u32 = 0o000002;

/// A terminal's attributes, field for field as the C library's `termios`.
#[allow(non_camel_case_types)]
#[derive(Clone, Copy)]
pub struct termios {
    pub c_iflag: u32,
    pub c_oflag: u32,
    pub c_cflag: u32,
    pub c_lflag: u32,
    pub c_line: u8,
    pub c_cc: [u8; 32],
    pub c_ispeed: u32,
    pub c_ospeed: u32,
}

/// The attributes for masked capture: those of `t` with echo and canonical
/// mode off, every other flag and field unchanged.
pub fn hidden_mode(t: &termios) -> (r: termios)
    ensures
        r.c_lflag == t.c_lflag & !(ECHO | ICANON),
        r.c_lflag & ECHO == 0,
        r.c_lflag & ICANON == 0,
        r.c_lflag | (ECHO | ICANON) == t.c_lflag | (ECHO | ICANON),
        r.c_iflag == t.c_iflag,
        r.c_oflag == t.c_oflag,
        r.c_cflag == t.c_cflag,
        r.c_line == t.c_line,
        r.c_cc == t.c_cc,
        r.c_ispeed == t.c_ispeed,
        r.c_ospeed == t.c_ospeed,
{
    let mut hidden = *t;
    hidden.c_lflag = t.c_lflag & !(ECHO | ICANON);
    let l = t.c_lflag;
    assert((l & !(0o10u32 | 0o2u32)) & 0o10u32 == 0) by (bit_vector);
    assert((l & !(0o10u32 | 0o2u32)) & 0o2u32 == 0) by (bit_vector);
    assert((l & !(0o10u32 | 0o2u32)) | (0o10u32 | 0o2u32) == l | (0o10u32 | 0o2u32)) by (bit_vector);
    hidden
}

} // verus!
