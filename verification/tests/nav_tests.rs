use gitstat::{Action, Item, Key, Section, Status};

fn snapshot(untracked: &[&str], unstaged: &[&str], staged: &[&str], cursor: usize) -> Status {
    Status {
        branch: "main".to_string(),
        untracked: untracked.iter().map(|p| Item::new(p)).collect(),
        unstaged: unstaged.iter().map(|p| Item::new(p)).collect(),
        staged: staged.iter().map(|p| Item::new(p)).collect(),
        cursor,
    }
}

#[test]
fn cursor_maps_into_the_staged_section() {
    let st = snapshot(&["a", "b"], &[], &["c", "d", "e"], 4);
    assert_eq!(st.index_to_entry(4), (Section::Staged, 2));
    assert_eq!(st.entry_at(4).path, "e");
}

#[test]
fn index_partition_covers_every_index_once() {
    let st = snapshot(&["a", "b"], &["c"], &["d", "e", "f"], 0);
    let expected = [
        (Section::Untracked, 0),
        (Section::Untracked, 1),
        (Section::Unstaged, 0),
        (Section::Staged, 0),
        (Section::Staged, 1),
        (Section::Staged, 2),
    ];
    for (i, want) in expected.iter().enumerate() {
        assert_eq!(st.index_to_entry(i), *want);
    }
    let flat = ["a", "b", "c", "d", "e", "f"];
    for (i, want) in flat.iter().enumerate() {
        assert_eq!(st.entry_at(i).path, *want);
    }
}

#[test]
fn move_down_clamps_at_the_last_entry() {
    let mut st = snapshot(&["a"], &[], &["b", "c"], 0);
    for _ in 0..10 {
        st.move_down();
    }
    assert_eq!(st.cursor, 2);
}

#[test]
fn move_up_clamps_at_the_first_entry() {
    let mut st = snapshot(&["a", "b"], &[], &[], 1);
    st.move_up();
    assert_eq!(st.cursor, 0);
    st.move_up();
    assert_eq!(st.cursor, 0);
}

#[test]
fn moves_on_an_empty_snapshot_stay_at_zero() {
    let mut st = snapshot(&[], &[], &[], 0);
    st.move_down();
    assert_eq!(st.cursor, 0);
    st.move_up();
    assert_eq!(st.cursor, 0);
    st.expand();
    assert_eq!(st.cursor, 0);
    assert_eq!(st.len(), 0);
}

#[test]
fn single_section_navigation_stays_in_range() {
    for lens in [(3usize, 0usize, 0usize), (0, 3, 0), (0, 0, 3)] {
        let names = ["x", "y", "z"];
        let mut st = snapshot(
            &names[..lens.0],
            &names[..lens.1],
            &names[..lens.2],
            0,
        );
        for _ in 0..5 {
            st.move_down();
            assert!(st.cursor < st.len());
        }
        for _ in 0..5 {
            st.move_up();
            assert!(st.cursor < st.len());
        }
        assert_eq!(st.cursor, 0);
    }
}

#[test]
fn toggling_twice_restores_the_entry() {
    let mut st = snapshot(&["a", "b"], &[], &["c"], 1);
    assert!(!st.untracked[1].expanded);
    st.expand();
    assert!(st.untracked[1].expanded);
    assert!(!st.untracked[0].expanded);
    assert!(!st.staged[0].expanded);
    st.expand();
    assert!(!st.untracked[1].expanded);
}

#[test]
fn expand_reaches_the_staged_section() {
    let mut st = snapshot(&["a"], &["b"], &["c"], 2);
    st.expand();
    assert!(st.staged[0].expanded);
    assert!(!st.untracked[0].expanded);
    assert!(!st.unstaged[0].expanded);
}

#[test]
fn step_routes_keys_to_the_right_effects() {
    let mut st = snapshot(&["a", "b"], &[], &[], 0);
    assert_eq!(st.step(Key::Down), Action::Idle);
    assert_eq!(st.cursor, 1);
    assert_eq!(st.step(Key::Up), Action::Idle);
    assert_eq!(st.cursor, 0);
    assert_eq!(st.step(Key::ToggleExpand), Action::Idle);
    assert!(st.untracked[0].expanded);
    assert_eq!(st.step(Key::StageAll), Action::Refresh);
    assert_eq!(st.step(Key::Quit), Action::Quit);
    assert_eq!(st.step(Key::Other), Action::Idle);
    assert_eq!(st.cursor, 0);
    assert!(st.untracked[0].expanded);
}

#[test]
fn len_sums_the_three_sections() {
    let st = snapshot(&["a", "b"], &["c"], &["d", "e", "f"], 0);
    assert_eq!(st.len(), 6);
}

#[test]
fn empty_snapshot_builder_is_empty() {
    let st = Status::empty("work".to_string());
    assert_eq!(st.branch, "work");
    assert_eq!(st.len(), 0);
    assert_eq!(st.cursor, 0);
}
