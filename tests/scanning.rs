use mdp::scan::{scan, scan_lowered};

fn store(lines: &[&str]) -> Vec<String> {
    lines.iter().map(|s| s.to_string()).collect()
}

#[test]
fn scan_finds_both_sites() {
    let lines = store(&["p1∫∆∫site-a", "p2∫∆∫site-b"]);
    assert_eq!(scan("site", &lines), vec![0, 1]);
}

#[test]
fn scan_without_match_is_empty() {
    let lines = store(&["p1∫∆∫site-a"]);
    assert_eq!(scan("zzz", &lines), Vec::<usize>::new());
}

#[test]
fn scan_ignores_case_and_keeps_malformed_lines() {
    let lines = store(&["p1∫∆∫Bank", "legacy BANK line", "x7∫∆∫mail", "x∫∆∫bAnK"]);
    assert_eq!(scan("bank", &lines), vec![0, 1, 3]);
    assert_eq!(scan("BaNk", &lines), vec![0, 1, 3]);
}

#[test]
fn scan_matches_secret_field_too() {
    let lines = store(&["hunter2∫∆∫forum", "other∫∆∫mail"]);
    assert_eq!(scan("HUNTER", &lines), vec![0]);
}

#[test]
fn scan_empty_pattern_matches_every_line() {
    let lines = store(&["a", "b∫∆∫c", ""]);
    assert_eq!(scan("", &lines), vec![0, 1, 2]);
}

#[test]
fn scan_empty_store() {
    assert_eq!(scan("x", &Vec::new()), Vec::<usize>::new());
}

#[test]
fn scan_lowered_is_case_sensitive_on_its_input() {
    let lines = store(&["abc", "ABC", "xabcx"]);
    assert_eq!(scan_lowered("abc", &lines), vec![0, 2]);
}
