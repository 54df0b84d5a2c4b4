use tsm::rename::{normalize_title, rename_outcome, RenameOutcome};

#[test]
fn normalize_trims_and_collapses_line_breaks_and_tabs() {
    assert_eq!(
        normalize_title(" \t hello\t\tworld \n next line \r\n "),
        Some("hello world next line".to_string())
    );
    assert_eq!(
        normalize_title("no length limit"),
        Some("no length limit".to_string())
    );
    assert_eq!(normalize_title(" \n\t\r "), None);
}

#[test]
fn normalize_keeps_inner_spaces_of_a_line() {
    assert_eq!(normalize_title("a  b"), Some("a  b".to_string()));
    assert_eq!(normalize_title("a \u{a0}\nb"), Some("a b".to_string()));
    assert_eq!(normalize_title(""), None);
}

#[test]
fn normalizing_twice_changes_nothing() {
    for input in [" \t hello\t\tworld \n next line \r\n ", "x\r\ry", "  p  \n\n  q  "] {
        let once = normalize_title(input).unwrap();
        assert_eq!(normalize_title(&once), Some(once.clone()));
        assert!(!once.contains(['\n', '\r', '\t']));
    }
}

#[test]
fn rename_outcome_by_changed_rows() {
    assert_eq!(rename_outcome(0), RenameOutcome::Missing);
    assert_eq!(rename_outcome(1), RenameOutcome::Renamed);
}
