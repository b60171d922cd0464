use mdp::store::{join_lines, split_lines};

fn owned(lines: &[&str]) -> Vec<String> {
    lines.iter().map(|s| s.to_string()).collect()
}

#[test]
fn split_text_into_lines() {
    assert_eq!(split_lines("a∫∆∫b\nc∫∆∫d"), owned(&["a∫∆∫b", "c∫∆∫d"]));
    assert_eq!(split_lines("a\nb\n"), owned(&["a", "b"]));
    assert_eq!(split_lines("a\r\nb\r\n"), owned(&["a", "b"]));
    assert_eq!(split_lines("a\n\nb"), owned(&["a", "", "b"]));
    assert_eq!(split_lines("\n"), owned(&[""]));
    assert_eq!(split_lines(""), Vec::<String>::new());
    assert_eq!(split_lines("a\rb"), owned(&["a\rb"]));
}

#[test]
fn split_matches_std_lines() {
    for text in ["x\ny\nz", "one line", "\n\n", "a\r\n\r\nb\n", "é∫∆∫ü\nlegacy"] {
        let expected: Vec<String> = text.lines().map(|s| s.to_string()).collect();
        assert_eq!(split_lines(text), expected);
    }
}

#[test]
fn join_lines_with_line_feeds() {
    assert_eq!(join_lines(&owned(&["a", "b", "c"])), "a\nb\nc");
    assert_eq!(join_lines(&owned(&["only"])), "only");
    assert_eq!(join_lines(&Vec::new()), "");
    assert_eq!(join_lines(&owned(&["", ""])), "\n");
}

#[test]
fn join_then_split_restores_store() {
    let store = owned(&["p1∫∆∫site-a", "legacy", "p2∫∆∫site-b"]);
    assert_eq!(split_lines(&join_lines(&store)), store);
}
