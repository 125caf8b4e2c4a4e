use lazymvn::ui::state::tabs::{TabOpening, TabSet, MAX_TABS};

fn create_test_state() -> TabSet {
    TabSet::new("/test".to_string())
}

#[test]
fn test_get_tab_count() {
    let state = create_test_state();
    assert_eq!(state.get_tab_count(), 1);
}

#[test]
fn test_get_active_tab_index() {
    let state = create_test_state();
    assert_eq!(state.get_active_tab_index(), 0);
}

#[test]
fn test_switch_to_tab() {
    let mut state = create_test_state();
    // Create with one tab, switch should be safe even with same index
    state.switch_to_tab(0);
    assert_eq!(state.active_tab_index, 0);
}

#[test]
fn test_next_tab_single() {
    let mut state = create_test_state();
    state.next_tab();
    // With single tab, should stay at 0
    assert_eq!(state.active_tab_index, 0);
}

#[test]
fn test_prev_tab_single() {
    let mut state = create_test_state();
    state.prev_tab();
    // With single tab, should stay at 0
    assert_eq!(state.active_tab_index, 0);
}

#[test]
fn test_close_tab_last_tab_fails() {
    let mut state = create_test_state();
    let result = state.close_tab(0);
    assert!(result.is_err());
    assert_eq!(result.unwrap_err(), "Cannot close last tab");
}

#[test]
fn test_close_tab_out_of_bounds() {
    let mut state = create_test_state();
    let result = state.close_tab(5);
    assert!(result.is_err());
    assert_eq!(result.unwrap_err(), "Tab index out of bounds");
}

#[test]
fn test_find_tab_by_project_found() {
    let state = create_test_state();
    let result = state.find_tab_by_project("/test");
    assert_eq!(result, Some(0));
}

#[test]
fn test_find_tab_by_project_not_found() {
    let state = create_test_state();
    let result = state.find_tab_by_project("/other");
    assert!(result.is_none());
}

fn three_tabs() -> TabSet {
    let mut state = create_test_state();
    for root in ["/a", "/b"] {
        assert_eq!(state.create_tab(root), Ok(TabOpening::Load));
        state.add_tab(root.to_string());
    }
    state
}

#[test]
fn new_with_tabs_starts_empty() {
    let mut state = TabSet::new_with_tabs();
    assert_eq!(state.get_tab_count(), 0);
    state.next_tab();
    state.prev_tab();
    assert_eq!(state.active_tab_index, 0);
    assert_eq!(state.create_tab("/p"), Ok(TabOpening::Load));
    assert_eq!(state.add_tab("/p".to_string()), 0);
    assert_eq!(state.ids, vec![1]);
    assert_eq!(state.next_tab_id, 2);
}

#[test]
fn add_tab_gives_fresh_ids_and_activates() {
    let state = three_tabs();
    assert_eq!(state.ids, vec![1, 2, 3]);
    assert_eq!(state.project_roots, vec!["/test", "/a", "/b"]);
    assert_eq!(state.active_tab_index, 2);
    assert_eq!(state.next_tab_id, 4);
}

#[test]
fn create_tab_for_open_project_switches_to_it() {
    let mut state = three_tabs();
    assert_eq!(state.create_tab("/a"), Ok(TabOpening::AlreadyOpen(1)));
    assert_eq!(state.active_tab_index, 1);
    assert_eq!(state.get_tab_count(), 3);
}

#[test]
fn create_tab_refused_when_full() {
    let mut state = create_test_state();
    for i in 1..MAX_TABS {
        let root = format!("/p{}", i);
        assert_eq!(state.create_tab(&root), Ok(TabOpening::Load));
        state.add_tab(root);
    }
    assert_eq!(state.get_tab_count(), MAX_TABS);
    assert_eq!(
        state.create_tab("/one-more"),
        Err("Maximum 10 onglets atteints. Fermez-en un avec Ctrl+W".to_string())
    );
    // An open project is still found when full.
    assert_eq!(state.create_tab("/test"), Ok(TabOpening::AlreadyOpen(0)));
}

#[test]
fn next_and_prev_wrap_around() {
    let mut state = three_tabs();
    state.next_tab();
    assert_eq!(state.active_tab_index, 0);
    state.prev_tab();
    assert_eq!(state.active_tab_index, 2);
    state.switch_to_tab(1);
    state.next_tab();
    state.prev_tab();
    assert_eq!(state.active_tab_index, 1);
    state.switch_to_tab(7);
    assert_eq!(state.active_tab_index, 1);
}

#[test]
fn close_other_tab_keeps_active_tab() {
    let mut state = three_tabs();
    state.switch_to_tab(2);
    assert_eq!(state.close_tab(0), Ok(()));
    assert_eq!(state.ids, vec![2, 3]);
    assert_eq!(state.active_tab_index, 1);
    assert_eq!(state.ids[state.active_tab_index], 3);
}

#[test]
fn close_active_last_tab_moves_to_new_last() {
    let mut state = three_tabs();
    assert_eq!(state.close_tab(2), Ok(()));
    assert_eq!(state.project_roots, vec!["/test", "/a"]);
    assert_eq!(state.active_tab_index, 1);
}

#[test]
fn close_active_middle_tab_moves_to_successor() {
    let mut state = three_tabs();
    state.switch_to_tab(1);
    assert_eq!(state.close_tab(1), Ok(()));
    assert_eq!(state.ids, vec![1, 3]);
    assert_eq!(state.active_tab_index, 1);
}
