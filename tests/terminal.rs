use mdp::terminal::{hidden_mode, termios, ECHO, ICANON};

#[test]
fn hidden_mode_clears_echo_and_canonical() {
    let t = termios {
        c_iflag: 1,
        c_oflag: 2,
        c_cflag: 3,
        c_lflag: 0o777,
        c_line: 4,
        c_cc: [7u8; 32],
        c_ispeed: 38400,
        c_ospeed: 9600,
    };
    let h = hidden_mode(&t);
    assert_eq!(h.c_lflag, 0o765);
    assert_eq!(h.c_lflag & (ECHO | ICANON), 0);
    assert_eq!(h.c_iflag, 1);
    assert_eq!(h.c_oflag, 2);
    assert_eq!(h.c_cflag, 3);
    assert_eq!(h.c_line, 4);
    assert_eq!(h.c_cc, [7u8; 32]);
    assert_eq!(h.c_ispeed, 38400);
    assert_eq!(h.c_ospeed, 9600);
}
