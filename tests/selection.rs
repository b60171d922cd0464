use mdp::select::{get_index, resolve_selection, Selection};

#[test]
fn selection_in_range_is_chosen() {
    assert_eq!(get_index("1\n", 2), Selection::Chosen(1));
    assert_eq!(get_index("  2 \n", 2), Selection::Chosen(2));
    assert_eq!(resolve_selection("+2", 3), Selection::Chosen(2));
    assert_eq!(get_index("2\n", 2).index(), 2);
}

#[test]
fn selection_out_of_range_reports_and_cancels() {
    let s = get_index("9\n", 2);
    assert_eq!(s, Selection::OutOfRange("9".to_string()));
    assert_eq!(s.index(), 0);
    let big = resolve_selection("99999999999999999999999", 5);
    assert_eq!(big, Selection::OutOfRange("99999999999999999999999".to_string()));
    assert_eq!(big.index(), 0);
}

#[test]
fn selection_non_numeric_or_empty_cancels() {
    assert_eq!(get_index("\n", 3), Selection::Cancel);
    assert_eq!(get_index("", 3), Selection::Cancel);
    assert_eq!(get_index("abc\n", 3), Selection::Cancel);
    assert_eq!(resolve_selection("-1", 3), Selection::Cancel);
    assert_eq!(resolve_selection("1a", 3), Selection::Cancel);
    assert_eq!(resolve_selection("+", 3), Selection::Cancel);
    assert_eq!(get_index("abc", 3).index(), 0);
}

#[test]
fn selection_zero_cancels() {
    assert_eq!(get_index("0\n", 3), Selection::Cancel);
    assert_eq!(get_index("0", 0), Selection::Cancel);
}
