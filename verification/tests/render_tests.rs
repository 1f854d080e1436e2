use gitstat::{
    split_lines, str_eq, trim_start, try_strip_prefix, BranchList, BranchRow, Item, Row, Status,
};

fn snapshot(untracked: &[&str], staged: &[&str], cursor: usize) -> Status {
    Status {
        branch: "main".to_string(),
        untracked: untracked.iter().map(|p| Item::new(p)).collect(),
        unstaged: Vec::new(),
        staged: staged.iter().map(|p| Item::new(p)).collect(),
        cursor,
    }
}

#[test]
fn renders_headers_entries_and_highlight() {
    let st = snapshot(&["a.txt"], &["b.txt"], 1);
    let previews = vec![Vec::new(), Vec::new()];
    let rows = st.render(&previews);
    let expected = vec![
        Row::Branch { name: "main".to_string() },
        Row::Header { title: "Untracked files:".to_string() },
        Row::Entry { path: "a.txt".to_string(), expanded: false, highlighted: false },
        Row::Header { title: "Changed files:".to_string() },
        Row::Header { title: "Staged for commit:".to_string() },
        Row::Entry { path: "b.txt".to_string(), expanded: false, highlighted: true },
    ];
    assert_eq!(rows, expected);
}

#[test]
fn renders_preview_lines_under_an_expanded_entry() {
    let mut st = snapshot(&["a.txt", "z.txt"], &[], 0);
    st.expand();
    let previews = vec![vec!["line one".to_string(), "line two".to_string()], Vec::new()];
    let rows = st.render(&previews);
    let expected = vec![
        Row::Branch { name: "main".to_string() },
        Row::Header { title: "Untracked files:".to_string() },
        Row::Entry { path: "a.txt".to_string(), expanded: true, highlighted: true },
        Row::Preview { text: "line one".to_string() },
        Row::Preview { text: "line two".to_string() },
        Row::Entry { path: "z.txt".to_string(), expanded: false, highlighted: false },
        Row::Header { title: "Changed files:".to_string() },
        Row::Header { title: "Staged for commit:".to_string() },
    ];
    assert_eq!(rows, expected);
}

#[test]
fn render_is_deterministic_and_leaves_the_snapshot_alone() {
    let st = snapshot(&["a"], &["b"], 0);
    let previews = vec![Vec::new(), Vec::new()];
    let first = st.render(&previews);
    let second = st.render(&previews);
    assert_eq!(first, second);
    assert_eq!(st.cursor, 0);
    assert_eq!(st.untracked[0].path, "a");
}

#[test]
fn collapsed_entry_shows_no_preview_rows() {
    let st = snapshot(&["a.txt"], &[], 0);
    let previews = vec![vec!["hidden".to_string()]];
    let rows = st.render(&previews);
    assert!(rows.iter().all(|r| !matches!(r, Row::Preview { .. })));
}

#[test]
fn split_lines_matches_line_semantics() {
    assert_eq!(split_lines("a\nb"), vec!["a", "b"]);
    assert_eq!(split_lines("a\nb\n"), vec!["a", "b"]);
    assert_eq!(split_lines("a\n\n"), vec!["a", ""]);
    assert_eq!(split_lines(""), Vec::<String>::new());
    assert_eq!(split_lines("\n"), vec![""]);
}

#[test]
fn text_helpers_behave_like_their_contracts() {
    assert_eq!(trim_start("   x y "), "x y ");
    assert_eq!(trim_start("\t\tz"), "z");
    assert_eq!(trim_start("plain"), "plain");
    assert_eq!(try_strip_prefix("modified:   a.rs", "modified:"), Some("   a.rs"));
    assert_eq!(try_strip_prefix("new file:   b.rs", "modified:"), None);
    assert!(str_eq("same", "same"));
    assert!(!str_eq("same", "sane"));
    assert!(!str_eq("same", "same "));
}

#[test]
fn branch_panel_rows_mark_cursor_and_current_branch() {
    let mut bl = BranchList::new();
    bl.branches = split_lines("* main\n  dev\n");
    bl.cursor = 1;
    let rows = bl.render();
    let expected = vec![
        BranchRow { line: "* main".to_string(), highlighted: false, current: true },
        BranchRow { line: "  dev".to_string(), highlighted: true, current: false },
    ];
    assert_eq!(rows, expected);
    assert_eq!(BranchList::new().render(), Vec::<BranchRow>::new());
}

#[test]
fn branch_list_selects_the_name_under_the_cursor() {
    let mut bl = BranchList::new();
    assert_eq!(bl.branches.len(), 0);
    assert_eq!(bl.cursor, 0);
    assert_eq!(bl.selected_name(), None);
    bl.branches = split_lines("* main\n  dev\n");
    assert_eq!(bl.selected_name(), Some("main".to_string()));
    bl.cursor = 1;
    assert_eq!(bl.selected_name(), Some("dev".to_string()));
    bl.cursor = 2;
    assert_eq!(bl.selected_name(), None);
    bl.branches.push("x".to_string());
    assert_eq!(bl.selected_name(), None);
}
