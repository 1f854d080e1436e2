use gitstat::{parse_status, ParseError};

#[test]
fn parses_untracked_scenario() {
    let input = "On branch main\n\nUntracked files:\n  (use ...)\n  a.txt\n  b.txt\n\n";
    let st = parse_status(input).unwrap();
    assert_eq!(st.branch, "main");
    let paths: Vec<&str> = st.untracked.iter().map(|e| e.path.as_str()).collect();
    assert_eq!(paths, vec!["a.txt", "b.txt"]);
    assert_eq!(st.unstaged.len(), 0);
    assert_eq!(st.staged.len(), 0);
    assert_eq!(st.cursor, 0);
    assert!(st.untracked.iter().all(|e| !e.expanded));
}

#[test]
fn parses_staged_scenario() {
    let input = "On branch dev\n\nChanges to be committed:\n  (use ...)\n  modified:   src/main.rs\n  new file:   Cargo.lock\n\n";
    let st = parse_status(input).unwrap();
    assert_eq!(st.branch, "dev");
    let paths: Vec<&str> = st.staged.iter().map(|e| e.path.as_str()).collect();
    assert_eq!(paths, vec!["src/main.rs", "Cargo.lock"]);
    assert_eq!(st.untracked.len(), 0);
    assert!(st.staged.iter().all(|e| !e.expanded));
}

#[test]
fn parses_both_sections_in_report_order() {
    let input = "On branch main\n\nChanges to be committed:\n  (use ...)\n  new file:   one.rs\n\nUntracked files:\n  (use ...)\n  two.rs\n  three.rs\n\n";
    let st = parse_status(input).unwrap();
    let untracked: Vec<&str> = st.untracked.iter().map(|e| e.path.as_str()).collect();
    let staged: Vec<&str> = st.staged.iter().map(|e| e.path.as_str()).collect();
    assert_eq!(untracked, vec!["two.rs", "three.rs"]);
    assert_eq!(staged, vec!["one.rs"]);
}

#[test]
fn rejects_missing_branch_prefix() {
    match parse_status("Branch main\n") {
        Err(ParseError::NoBranchPrefix { line }) => assert_eq!(line, "Branch main"),
        other => panic!("expected a branch-prefix error, got {:?}", other),
    }
}

#[test]
fn rejects_empty_report() {
    assert_eq!(parse_status("").unwrap_err(), ParseError::EmptyReport);
}

#[test]
fn rejects_marker_as_last_line() {
    let input = "On branch main\nUntracked files:";
    assert_eq!(parse_status(input).unwrap_err(), ParseError::TruncatedSection);
}

#[test]
fn rejects_unknown_staged_label() {
    let input = "On branch main\n\nChanges to be committed:\n  (use ...)\n  deleted:    gone.rs\n\n";
    match parse_status(input) {
        Err(ParseError::UnknownLabel { line }) => assert_eq!(line, "  deleted:    gone.rs"),
        other => panic!("expected an unknown-label error, got {:?}", other),
    }
}

#[test]
fn ignores_changes_not_staged_block() {
    let input = "On branch main\n\nChanges not staged for commit:\n  (use ...)\n  modified:   quietly.rs\n\nUntracked files:\n  (use ...)\n  loud.rs\n\n";
    let st = parse_status(input).unwrap();
    assert_eq!(st.unstaged.len(), 0);
    let untracked: Vec<&str> = st.untracked.iter().map(|e| e.path.as_str()).collect();
    assert_eq!(untracked, vec!["loud.rs"]);
}

#[test]
fn section_may_end_with_the_input() {
    let input = "On branch main\n\nUntracked files:\n  (use ...)\n  tail.rs";
    let st = parse_status(input).unwrap();
    let untracked: Vec<&str> = st.untracked.iter().map(|e| e.path.as_str()).collect();
    assert_eq!(untracked, vec!["tail.rs"]);
}

#[test]
fn branch_name_is_everything_after_the_prefix() {
    let st = parse_status("On branch feature/nested name\n").unwrap();
    assert_eq!(st.branch, "feature/nested name");
    assert_eq!(st.untracked.len() + st.unstaged.len() + st.staged.len(), 0);
}
