use mdp::actions::{del, find, remove_selected, secret_of_selection, AppData, DeleteOutcome, FindOutcome};
use mdp::locale::english;
use mdp::select::Selection;

fn data(lines: &[&str]) -> AppData {
    AppData {
        app_locale: english(),
        app_pw_len: 12,
        app_encryp_pass: String::from("pw"),
        app_line_vec: lines.iter().map(|s| s.to_string()).collect(),
    }
}

#[test]
fn delete_single_match() {
    let mut d = data(&["p1∫∆∫site-a", "p2∫∆∫mail", "x7∫∆∫bank"]);
    let r = del("mail", &mut d, "1\n");
    assert_eq!(r, DeleteOutcome::Removed(Some("mail".to_string())));
    assert!(r.needs_saving());
    assert_eq!(d.app_line_vec, vec!["p1∫∆∫site-a".to_string(), "x7∫∆∫bank".to_string()]);
}

#[test]
fn delete_second_of_two_matches() {
    let mut d = data(&["p1∫∆∫site-a", "p2∫∆∫mail", "x7∫∆∫site-b"]);
    let r = del("SITE", &mut d, "2");
    assert_eq!(r, DeleteOutcome::Removed(Some("site-b".to_string())));
    assert_eq!(d.app_line_vec, vec!["p1∫∆∫site-a".to_string(), "p2∫∆∫mail".to_string()]);
}

#[test]
fn delete_out_of_range_leaves_store() {
    let mut d = data(&["p1∫∆∫site-a", "p2∫∆∫site-b"]);
    let r = del("site", &mut d, "9\n");
    assert_eq!(r, DeleteOutcome::OutOfRange("9".to_string()));
    assert!(!r.needs_saving());
    assert_eq!(d.app_line_vec.len(), 2);
}

#[test]
fn delete_no_match_leaves_store() {
    let mut d = data(&["p1∫∆∫site-a"]);
    assert_eq!(del("zzz", &mut d, "1"), DeleteOutcome::NoMatch);
    assert_eq!(d.app_line_vec, vec!["p1∫∆∫site-a".to_string()]);
}

#[test]
fn delete_cancelled_leaves_store() {
    let mut d = data(&["p1∫∆∫site-a"]);
    assert_eq!(del("site", &mut d, "\n"), DeleteOutcome::Cancelled);
    assert_eq!(del("site", &mut d, "x"), DeleteOutcome::Cancelled);
    assert_eq!(d.app_line_vec.len(), 1);
}

#[test]
fn delete_malformed_line_removes_it() {
    let mut d = data(&["legacy site", "p2∫∆∫site-b"]);
    assert_eq!(del("site", &mut d, "1"), DeleteOutcome::Removed(None));
    assert_eq!(d.app_line_vec, vec!["p2∫∆∫site-b".to_string()]);
}

#[test]
fn find_gives_secret_of_choice() {
    let d = data(&["p1∫∆∫site-a", "p2∫∆∫mail", "x7∫∆∫site-b"]);
    assert_eq!(find("site", &d, "2\n"), FindOutcome::Secret("x7".to_string()));
    assert_eq!(find("site", &d, "1\n"), FindOutcome::Secret("p1".to_string()));
}

#[test]
fn find_outcomes_without_secret() {
    let d = data(&["p1∫∆∫site-a", "old site line"]);
    assert_eq!(find("nothing", &d, "1"), FindOutcome::NoMatch);
    assert_eq!(find("site", &d, ""), FindOutcome::Cancelled);
    assert_eq!(find("site", &d, "3"), FindOutcome::OutOfRange("3".to_string()));
    assert_eq!(find("site", &d, "2"), FindOutcome::Malformed);
}

#[test]
fn selection_applied_to_positions() {
    let lines: Vec<String> = vec!["a∫∆∫x".to_string(), "b∫∆∫y".to_string(), "c".to_string()];
    let ms = vec![1, 2];
    assert_eq!(secret_of_selection(&lines, &ms, Selection::Chosen(1)), FindOutcome::Secret("b".to_string()));
    assert_eq!(secret_of_selection(&lines, &ms, Selection::Chosen(2)), FindOutcome::Malformed);
    let mut store = lines.clone();
    assert_eq!(remove_selected(&mut store, &ms, Selection::Chosen(1)), DeleteOutcome::Removed(Some("y".to_string())));
    assert_eq!(store, vec!["a∫∆∫x".to_string(), "c".to_string()]);
    assert_eq!(remove_selected(&mut store, &ms, Selection::Cancel), DeleteOutcome::Cancelled);
    assert_eq!(store.len(), 2);
}
