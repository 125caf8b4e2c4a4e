use lazymvn::ui::search::SearchMatch;
use lazymvn::ui::state::auto_reload::{
    change_reaction, command_matches_watch_list, pending_rerun_step, rerun_notice,
    to_ascii_lowercase, watch_term_matches, WatchReaction, WatchStep,
};
use lazymvn::ui::state::output::{
    clipboard_payload, max_scroll_offset, no_output_notice, page_scroll_delta, total_display_rows,
};
use lazymvn::ui::state::navigation::within_debounce;
use lazymvn::ui::state::search::{centered_offset, SearchSession};
use lazymvn::ui::state::types::OutputMetrics;
use lazymvn::utils::git::branch_from_git_output;
use lazymvn::utils::loading::LoadingProgress;

fn output(lines: &[&str]) -> Vec<String> {
    lines.iter().map(|s| s.to_string()).collect()
}

#[test]
fn test_has_search_results_false() {
    let state = SearchSession::new();
    assert!(!state.has_search_results());
}

#[test]
fn test_begin_search_input() {
    let mut state = SearchSession::new();
    state.begin_search_input();
    assert!(state.search_input.is_some());
    assert_eq!(state.search_input.as_ref().unwrap(), "");
    assert!(state.search_history_index.is_none());
    assert!(state.search_error.is_none());
}

#[test]
fn test_cancel_search_input() {
    let mut state = SearchSession::new();
    state.search_input = Some("test".to_string());
    state.search_history_index = Some(0);
    state.search_error = Some("error".to_string());
    state.cancel_search_input();
    assert!(state.search_input.is_none());
    assert!(state.search_history_index.is_none());
    assert!(state.search_error.is_none());
}

#[test]
fn test_push_search_char() {
    let mut state = SearchSession::new();
    state.begin_search_input();
    state.push_search_char('t');
    state.push_search_char('e');
    state.push_search_char('s');
    state.push_search_char('t');
    assert_eq!(state.search_input.as_ref().unwrap(), "test");
}

#[test]
fn test_backspace_search_char() {
    let mut state = SearchSession::new();
    state.search_input = Some("test".to_string());
    state.backspace_search_char();
    assert_eq!(state.search_input.as_ref().unwrap(), "tes");
}

#[test]
fn test_backspace_search_char_empty() {
    let mut state = SearchSession::new();
    state.search_input = Some("".to_string());
    state.backspace_search_char();
    assert_eq!(state.search_input.as_ref().unwrap(), "");
}

#[test]
fn test_submit_search_adds_to_history() {
    let mut state = SearchSession::new();
    let out = output(&["ERROR: test failed", "SUCCESS: all ok"]);
    state.search_input = Some("ERROR".to_string());
    state.submit_search(&out);
    assert!(state.search_history.contains(&"ERROR".to_string()));
    assert!(state.search_input.is_none());
}

#[test]
fn test_submit_search_empty_clears_state() {
    let mut state = SearchSession::new();
    state.search_input = Some("".to_string());
    state.submit_search(&[]);
    assert!(state.search_input.is_none());
    assert!(state.search_state.is_none());
}

#[test]
fn test_submit_search_invalid_regex() {
    let mut state = SearchSession::new();
    state.search_input = Some("[invalid".to_string());
    state.submit_search(&[]);
    assert!(state.search_error.is_some());
    assert!(state.search_input.is_some());
}

#[test]
fn test_live_search_empty_clears() {
    let mut state = SearchSession::new();
    state.search_input = Some("".to_string());
    state.live_search(&[]);
    assert!(state.search_state.is_none());
    assert!(state.search_error.is_none());
}

#[test]
fn test_live_search_with_pattern() {
    let mut state = SearchSession::new();
    let out = output(&["ERROR: test", "INFO: ok"]);
    state.search_input = Some("ERROR".to_string());
    state.live_search(&out);
    assert!(state.search_state.is_some());
    assert!(state.search_error.is_none());
}

#[test]
fn test_recall_previous_search_empty_history() {
    let mut state = SearchSession::new();
    state.begin_search_input();
    state.recall_previous_search();
    assert_eq!(state.search_input.as_ref().unwrap(), "");
}

#[test]
fn test_recall_previous_search() {
    let mut state = SearchSession::new();
    state.search_history.push("query1".to_string());
    state.search_history.push("query2".to_string());
    state.search_input = Some("".to_string());
    state.recall_previous_search();
    assert_eq!(state.search_input.as_ref().unwrap(), "query2");
    assert_eq!(state.search_history_index, Some(1));
}

#[test]
fn test_recall_previous_search_twice() {
    let mut state = SearchSession::new();
    state.search_history.push("query1".to_string());
    state.search_history.push("query2".to_string());
    state.search_input = Some("".to_string());
    state.recall_previous_search();
    state.recall_previous_search();
    assert_eq!(state.search_input.as_ref().unwrap(), "query1");
    assert_eq!(state.search_history_index, Some(0));
}

#[test]
fn test_recall_next_search() {
    let mut state = SearchSession::new();
    state.search_history.push("query1".to_string());
    state.search_history.push("query2".to_string());
    state.search_history_index = Some(0);
    state.search_input = Some("query1".to_string());
    state.recall_next_search();
    assert_eq!(state.search_input.as_ref().unwrap(), "query2");
    assert_eq!(state.search_history_index, Some(1));
}

#[test]
fn recall_next_past_the_end_clears_input() {
    let mut state = SearchSession::new();
    state.search_history.push("query1".to_string());
    state.search_history_index = Some(0);
    state.search_input = Some("query1".to_string());
    state.recall_next_search();
    assert_eq!(state.search_input.as_ref().unwrap(), "");
    assert_eq!(state.search_history_index, None);
}

#[test]
fn test_next_search_match_no_results() {
    let mut state = SearchSession::new();
    state.next_search_match();
    assert!(state.search_state.is_none());
}

#[test]
fn test_previous_search_match_no_results() {
    let mut state = SearchSession::new();
    state.previous_search_match();
    assert!(state.search_state.is_none());
}

#[test]
fn test_has_search_results_after_search() {
    let mut state = SearchSession::new();
    let out = output(&["ERROR: test", "INFO: ok"]);
    state.search_input = Some("ERROR".to_string());
    state.submit_search(&out);
    assert!(state.has_search_results());
}

#[test]
fn test_search_history_no_duplicates() {
    let mut state = SearchSession::new();
    let out = output(&["ERROR: test"]);
    state.search_input = Some("ERROR".to_string());
    state.submit_search(&out);
    state.search_input = Some("ERROR".to_string());
    state.submit_search(&out);
    assert_eq!(state.search_history.iter().filter(|q| *q == "ERROR").count(), 1);
}

#[test]
fn test_push_char_clears_history_index() {
    let mut state = SearchSession::new();
    state.search_history.push("old".to_string());
    state.search_input = Some("".to_string());
    state.search_history_index = Some(0);
    state.push_search_char('n');
    assert!(state.search_history_index.is_none());
}

#[test]
fn test_backspace_clears_history_index() {
    let mut state = SearchSession::new();
    state.search_history.push("old".to_string());
    state.search_input = Some("test".to_string());
    state.search_history_index = Some(0);
    state.backspace_search_char();
    assert!(state.search_history_index.is_none());
}

#[test]
fn match_navigation_centres_view() {
    let mut state = SearchSession::new();
    let out = output(&["a x", "b", "x c x"]);
    state.search_input = Some("x".to_string());
    state.submit_search(&out);
    let found = state.search_state.as_ref().unwrap();
    assert_eq!(found.matches.len(), 3);
    assert_eq!(state.pending_center.map(|m| (m.line_index, m.start)), Some((0, 2)));
    state.next_search_match();
    assert_eq!(state.pending_center.map(|m| (m.line_index, m.start)), Some((2, 0)));
    state.previous_search_match();
    state.previous_search_match();
    assert_eq!(state.search_state.as_ref().unwrap().current, 2);
    assert_eq!(state.pending_center.map(|m| (m.line_index, m.start)), Some((2, 4)));
}

#[test]
fn refresh_keeps_current_match_number() {
    let mut state = SearchSession::new();
    state.search_input = Some("x".to_string());
    state.submit_search(&output(&["x", "x", "x"]));
    state.next_search_match();
    state.next_search_match();
    state.refresh_search_matches(&output(&["x", "x"]));
    assert_eq!(state.search_state.as_ref().unwrap().current, 1);
    assert_eq!(state.search_state.as_ref().unwrap().matches.len(), 2);
}

#[test]
fn pending_center_applies_to_view() {
    let lines = output(&["l0", "l1", "l2", "l3", "l4", "l5", "l6", "l7", "l8", "l9"]);
    let metrics = OutputMetrics::new(80, &lines);
    let mut state = SearchSession::new();
    state.pending_center = Some(SearchMatch { line_index: 7, start: 0, end: 2 });
    assert_eq!(state.apply_pending_center(0, 80, Some(&metrics)), None);
    assert!(state.pending_center.is_some());
    assert_eq!(state.apply_pending_center(4, 80, Some(&metrics)), Some(5));
    assert!(state.pending_center.is_none());
    assert_eq!(centered_offset(1, 4, 10), 0);
    assert_eq!(centered_offset(9, 4, 10), 6);
}

#[test]
fn watch_terms_match_arguments() {
    assert_eq!(to_ascii_lowercase("Spring-Boot:RUN É"), "spring-boot:run É");
    assert!(watch_term_matches("clean install", "Install"));
    assert!(watch_term_matches("spring-boot:run", "start"));
    assert!(watch_term_matches("org.codehaus:exec:java", "RUN"));
    assert!(!watch_term_matches("test", "start"));
    let cmd = vec!["-pl".to_string(), "App".to_string(), "Spring-Boot:Run".to_string()];
    assert!(command_matches_watch_list(&cmd, &["run".to_string()]));
    assert!(!command_matches_watch_list(&cmd, &["test".to_string()]));
    assert!(!command_matches_watch_list(&cmd, &[]));
}

#[test]
fn auto_reload_decisions() {
    assert_eq!(pending_rerun_step(false, true, false, true), (WatchStep::Stop, true));
    assert_eq!(pending_rerun_step(true, true, false, true), (WatchStep::RunPending, false));
    assert_eq!(pending_rerun_step(true, true, false, false), (WatchStep::PollWatcher, false));
    assert_eq!(pending_rerun_step(true, true, true, true), (WatchStep::PollWatcher, true));
    assert_eq!(change_reaction(false, true, true, false), WatchReaction::Ignore);
    assert_eq!(change_reaction(true, true, false, false), WatchReaction::Ignore);
    assert_eq!(change_reaction(true, true, true, true), WatchReaction::Restart);
    assert_eq!(change_reaction(true, true, true, false), WatchReaction::Reload);
    assert_eq!(rerun_notice(false), vec!["", "🔄 Files changed, reloading...", ""]);
    assert_eq!(rerun_notice(true)[1], "🔁 Files changed, restarting command...");
}

#[test]
fn scrolling_helpers() {
    assert_eq!(max_scroll_offset(0, 100), 0);
    assert_eq!(max_scroll_offset(10, 100), 90);
    assert_eq!(max_scroll_offset(10, 5), 0);
    assert_eq!(total_display_rows(None, 7), 7);
    let lines = output(&["0123456789", "ab"]);
    let metrics = OutputMetrics::new(4, &lines);
    assert_eq!(total_display_rows(Some(&metrics), 2), 4);
    assert_eq!(page_scroll_delta(-2, 0), -2);
    assert_eq!(page_scroll_delta(3, 20), 60);
}

#[test]
fn clipboard_text() {
    assert!(clipboard_payload(&[]).is_none());
    assert_eq!(
        clipboard_payload(&output(&["a", "b", "c"])),
        Some(("a\nb\nc".to_string(), 3))
    );
    assert_eq!(no_output_notice(), vec!["", "⚠ No output to copy"]);
}

#[test]
fn git_branch_from_output() {
    assert_eq!(branch_from_git_output(true, b"main\n".to_vec()), Some("main".to_string()));
    assert_eq!(branch_from_git_output(true, b"  \n".to_vec()), None);
    assert_eq!(branch_from_git_output(false, b"main\n".to_vec()), None);
    assert_eq!(branch_from_git_output(true, vec![0xff, 0xfe]), None);
}

#[test]
fn loading_progress_steps() {
    let mut p = LoadingProgress::new(3);
    assert_eq!(p.current_step(), 0);
    assert_eq!(p.total_steps(), 3);
    assert_eq!(p.current_message(), "Initializing...");
    assert_eq!(p.status_symbol(), "⠋");
    p.set_step(1, "Loading modules".to_string());
    assert_eq!(p.current_message(), "Loading modules");
    assert_eq!(p.logo_frame(), 1);
    assert_eq!(p.status_symbol(), "⠙");
    for _ in 0..9 {
        p.set_step(2, "x".to_string());
    }
    assert_eq!(p.status_symbol(), "⠋");
    assert_eq!(p.logo_frame(), 0);
    p.set_step(3, "Done".to_string());
    assert_eq!(p.status_symbol(), "✓");
}

#[test]
fn navigation_debounce_window() {
    assert!(!within_debounce(None, 100));
    assert!(within_debounce(Some(99), 100));
    assert!(!within_debounce(Some(100), 100));
}
