use lazymvn::ui::search::highlighter::{search_line_style, select_highlight_style, MatchHighlight};
use lazymvn::ui::search::matcher::{collect_search_matches, create_search_match};
use lazymvn::ui::search::status::{get_match_position, search_status_line, SpanStyle};
use lazymvn::ui::search::{SearchMatch, SearchState};
use lazymvn::utils::text::regex_find::compile_regex;

#[test]
fn search_test_search_state_new() {
    let matches = vec![
        SearchMatch {
            line_index: 0,
            start: 5,
            end: 10,
        },
        SearchMatch {
            line_index: 1,
            start: 15,
            end: 20,
        },
    ];
    let state = SearchState::new("test".to_string(), matches.clone());
    assert_eq!(state.query, "test");
    assert_eq!(state.matches.len(), 2);
    assert_eq!(state.current, 0);
}

#[test]
fn search_test_search_state_has_matches() {
    let state_with_matches = SearchState::new(
        "test".to_string(),
        vec![SearchMatch {
            line_index: 0,
            start: 0,
            end: 4,
        }],
    );
    assert!(state_with_matches.has_matches());

    let state_without_matches = SearchState::new("test".to_string(), vec![]);
    assert!(!state_without_matches.has_matches());
}

#[test]
fn search_test_search_state_current_match() {
    let matches = vec![
        SearchMatch {
            line_index: 0,
            start: 0,
            end: 4,
        },
        SearchMatch {
            line_index: 1,
            start: 5,
            end: 9,
        },
    ];
    let state = SearchState::new("test".to_string(), matches);
    let current = state.current_match().unwrap();
    assert_eq!(current.line_index, 0);
    assert_eq!(current.start, 0);
    assert_eq!(current.end, 4);
}

#[test]
fn search_test_search_state_total_matches() {
    let matches = vec![
        SearchMatch {
            line_index: 0,
            start: 0,
            end: 4,
        },
        SearchMatch {
            line_index: 1,
            start: 5,
            end: 9,
        },
        SearchMatch {
            line_index: 2,
            start: 10,
            end: 14,
        },
    ];
    let state = SearchState::new("test".to_string(), matches);
    assert_eq!(state.total_matches(), 3);
}

#[test]
fn search_test_search_state_next_match() {
    let matches = vec![
        SearchMatch {
            line_index: 0,
            start: 0,
            end: 4,
        },
        SearchMatch {
            line_index: 1,
            start: 5,
            end: 9,
        },
        SearchMatch {
            line_index: 2,
            start: 10,
            end: 14,
        },
    ];
    let mut state = SearchState::new("test".to_string(), matches);

    assert_eq!(state.current, 0);
    state.next_match();
    assert_eq!(state.current, 1);
    state.next_match();
    assert_eq!(state.current, 2);
    state.next_match();
    // Should wrap around to 0
    assert_eq!(state.current, 0);
}

#[test]
fn search_test_search_state_previous_match() {
    let matches = vec![
        SearchMatch {
            line_index: 0,
            start: 0,
            end: 4,
        },
        SearchMatch {
            line_index: 1,
            start: 5,
            end: 9,
        },
        SearchMatch {
            line_index: 2,
            start: 10,
            end: 14,
        },
    ];
    let mut state = SearchState::new("test".to_string(), matches);

    assert_eq!(state.current, 0);
    state.previous_match();
    // Should wrap to last match
    assert_eq!(state.current, 2);
    state.previous_match();
    assert_eq!(state.current, 1);
    state.previous_match();
    assert_eq!(state.current, 0);
}

#[test]
fn search_test_search_state_jump_to_match() {
    let matches = vec![
        SearchMatch {
            line_index: 0,
            start: 0,
            end: 4,
        },
        SearchMatch {
            line_index: 1,
            start: 5,
            end: 9,
        },
        SearchMatch {
            line_index: 2,
            start: 10,
            end: 14,
        },
    ];
    let mut state = SearchState::new("test".to_string(), matches);

    state.jump_to_match(2);
    assert_eq!(state.current, 2);

    state.jump_to_match(0);
    assert_eq!(state.current, 0);

    // Out of bounds should not change current
    state.jump_to_match(10);
    assert_eq!(state.current, 0);
}

#[test]
fn search_test_search_state_next_match_empty() {
    let mut state = SearchState::new("test".to_string(), vec![]);
    state.next_match();
    assert_eq!(state.current, 0);
}

#[test]
fn search_test_search_state_previous_match_empty() {
    let mut state = SearchState::new("test".to_string(), vec![]);
    state.previous_match();
    assert_eq!(state.current, 0);
}

#[test]
fn search_test_collect_search_matches_basic() {
    let output = vec![
        "This is a test line".to_string(),
        "Another test here".to_string(),
        "No match on this line".to_string(),
    ];
    let regex = compile_regex("test").unwrap();
    let matches = collect_search_matches(&output, &regex);

    assert_eq!(matches.len(), 2);
    assert_eq!(matches[0].line_index, 0);
    assert_eq!(matches[1].line_index, 1);
}

#[test]
fn search_test_collect_search_matches_multiple_per_line() {
    let output = vec!["test test test".to_string()];
    let regex = compile_regex("test").unwrap();
    let matches = collect_search_matches(&output, &regex);

    assert_eq!(matches.len(), 3);
    assert_eq!(matches[0].line_index, 0);
    assert_eq!(matches[1].line_index, 0);
    assert_eq!(matches[2].line_index, 0);
}

#[test]
fn search_test_collect_search_matches_case_sensitive() {
    let output = vec!["Test test TEST".to_string()];
    let regex = compile_regex("test").unwrap();
    let matches = collect_search_matches(&output, &regex);

    // Should only match lowercase "test"
    assert_eq!(matches.len(), 1);
}

#[test]
fn search_test_collect_search_matches_case_insensitive() {
    let output = vec!["Test test TEST".to_string()];
    let regex = compile_regex("(?i)test").unwrap();
    let matches = collect_search_matches(&output, &regex);

    // Should match all three
    assert_eq!(matches.len(), 3);
}

#[test]
fn search_test_collect_search_matches_empty_output() {
    let output: Vec<String> = vec![];
    let regex = compile_regex("test").unwrap();
    let matches = collect_search_matches(&output, &regex);

    assert_eq!(matches.len(), 0);
}

#[test]
fn search_test_collect_search_matches_no_matches() {
    let output = vec!["No match here".to_string(), "Still no match".to_string()];
    let regex = compile_regex("test").unwrap();
    let matches = collect_search_matches(&output, &regex);

    assert_eq!(matches.len(), 0);
}

#[test]
fn search_test_create_search_match() {
    let mat = create_search_match(5, 10, 15);
    assert_eq!(mat.line_index, 5);
    assert_eq!(mat.start, 10);
    assert_eq!(mat.end, 15);
}

#[test]
fn search_test_get_match_position() {
    let matches = vec![
        SearchMatch {
            line_index: 0,
            start: 0,
            end: 4,
        },
        SearchMatch {
            line_index: 1,
            start: 5,
            end: 9,
        },
    ];
    let mut state = SearchState::new("test".to_string(), matches);

    let (current, total) = get_match_position(&state);
    assert_eq!(current, 1);
    assert_eq!(total, 2);

    state.next_match();
    let (current, total) = get_match_position(&state);
    assert_eq!(current, 2);
    assert_eq!(total, 2);
}

#[test]
fn matcher_test_collect_search_matches_basic() {
    let output = vec![
        "This is a test line".to_string(),
        "Another test here".to_string(),
        "No match on this line".to_string(),
    ];
    let regex = compile_regex("test").unwrap();
    let matches = collect_search_matches(&output, &regex);
    assert_eq!(matches.len(), 2);
    assert_eq!(matches[0].line_index, 0);
    assert_eq!(matches[1].line_index, 1);
}

#[test]
fn matcher_test_collect_search_matches_multiple_per_line() {
    let output = vec!["test test test".to_string()];
    let regex = compile_regex("test").unwrap();
    let matches = collect_search_matches(&output, &regex);
    assert_eq!(matches.len(), 3);
}

#[test]
fn matcher_test_collect_search_matches_case_sensitive() {
    let output = vec!["Test test TEST".to_string()];
    let regex = compile_regex("test").unwrap();
    let matches = collect_search_matches(&output, &regex);
    assert_eq!(matches.len(), 1);
}

#[test]
fn matcher_test_collect_search_matches_case_insensitive() {
    let output = vec!["Test test TEST".to_string()];
    let regex = compile_regex("(?i)test").unwrap();
    let matches = collect_search_matches(&output, &regex);
    assert_eq!(matches.len(), 3);
}

#[test]
fn matcher_test_collect_search_matches_empty_output() {
    let output: Vec<String> = vec![];
    let regex = compile_regex("test").unwrap();
    let matches = collect_search_matches(&output, &regex);
    assert_eq!(matches.len(), 0);
}

#[test]
fn matcher_test_collect_search_matches_no_matches() {
    let output = vec!["No match here".to_string(), "Still no match".to_string()];
    let regex = compile_regex("test").unwrap();
    let matches = collect_search_matches(&output, &regex);
    assert_eq!(matches.len(), 0);
}

#[test]
fn matcher_test_create_search_match() {
    let mat = create_search_match(5, 10, 15);
    assert_eq!(mat.line_index, 5);
    assert_eq!(mat.start, 10);
    assert_eq!(mat.end, 15);
}

#[test]
fn status_test_get_match_position() {
    let matches = vec![
        SearchMatch { line_index: 0, start: 0, end: 4 },
        SearchMatch { line_index: 1, start: 5, end: 9 },
    ];
    let mut state = SearchState::new("test".to_string(), matches);
    let (current, total) = get_match_position(&state);
    assert_eq!(current, 1);
    assert_eq!(total, 2);
    state.next_match();
    let (current, total) = get_match_position(&state);
    assert_eq!(current, 2);
    assert_eq!(total, 2);
}

#[test]
fn types_test_search_state_new() {
    let matches = vec![
        SearchMatch {
            line_index: 0,
            start: 5,
            end: 10,
        },
        SearchMatch {
            line_index: 1,
            start: 15,
            end: 20,
        },
    ];
    let state = SearchState::new("test".to_string(), matches.clone());
    assert_eq!(state.query, "test");
    assert_eq!(state.matches.len(), 2);
    assert_eq!(state.current, 0);
}

#[test]
fn types_test_search_state_has_matches() {
    let state_with_matches = SearchState::new(
        "test".to_string(),
        vec![SearchMatch {
            line_index: 0,
            start: 0,
            end: 4,
        }],
    );
    assert!(state_with_matches.has_matches());

    let state_without_matches = SearchState::new("test".to_string(), vec![]);
    assert!(!state_without_matches.has_matches());
}

#[test]
fn types_test_search_state_current_match() {
    let matches = vec![
        SearchMatch {
            line_index: 0,
            start: 0,
            end: 4,
        },
        SearchMatch {
            line_index: 1,
            start: 5,
            end: 9,
        },
    ];
    let state = SearchState::new("test".to_string(), matches);
    let current = state.current_match().unwrap();
    assert_eq!(current.line_index, 0);
    assert_eq!(current.start, 0);
    assert_eq!(current.end, 4);
}

#[test]
fn types_test_search_state_total_matches() {
    let matches = vec![
        SearchMatch {
            line_index: 0,
            start: 0,
            end: 4,
        },
        SearchMatch {
            line_index: 1,
            start: 5,
            end: 9,
        },
        SearchMatch {
            line_index: 2,
            start: 10,
            end: 14,
        },
    ];
    let state = SearchState::new("test".to_string(), matches);
    assert_eq!(state.total_matches(), 3);
}

#[test]
fn types_test_search_state_next_match() {
    let matches = vec![
        SearchMatch {
            line_index: 0,
            start: 0,
            end: 4,
        },
        SearchMatch {
            line_index: 1,
            start: 5,
            end: 9,
        },
        SearchMatch {
            line_index: 2,
            start: 10,
            end: 14,
        },
    ];
    let mut state = SearchState::new("test".to_string(), matches);

    assert_eq!(state.current, 0);
    state.next_match();
    assert_eq!(state.current, 1);
    state.next_match();
    assert_eq!(state.current, 2);
    state.next_match();
    assert_eq!(state.current, 0);
}

#[test]
fn types_test_search_state_previous_match() {
    let matches = vec![
        SearchMatch {
            line_index: 0,
            start: 0,
            end: 4,
        },
        SearchMatch {
            line_index: 1,
            start: 5,
            end: 9,
        },
        SearchMatch {
            line_index: 2,
            start: 10,
            end: 14,
        },
    ];
    let mut state = SearchState::new("test".to_string(), matches);

    assert_eq!(state.current, 0);
    state.previous_match();
    assert_eq!(state.current, 2);
    state.previous_match();
    assert_eq!(state.current, 1);
    state.previous_match();
    assert_eq!(state.current, 0);
}

#[test]
fn types_test_search_state_jump_to_match() {
    let matches = vec![
        SearchMatch {
            line_index: 0,
            start: 0,
            end: 4,
        },
        SearchMatch {
            line_index: 1,
            start: 5,
            end: 9,
        },
        SearchMatch {
            line_index: 2,
            start: 10,
            end: 14,
        },
    ];
    let mut state = SearchState::new("test".to_string(), matches);

    state.jump_to_match(2);
    assert_eq!(state.current, 2);

    state.jump_to_match(0);
    assert_eq!(state.current, 0);

    state.jump_to_match(10);
    assert_eq!(state.current, 0);
}

#[test]
fn types_test_search_state_next_match_empty() {
    let mut state = SearchState::new("test".to_string(), vec![]);
    state.next_match();
    assert_eq!(state.current, 0);
}

#[test]
fn types_test_search_state_previous_match_empty() {
    let mut state = SearchState::new("test".to_string(), vec![]);
    state.previous_match();
    assert_eq!(state.current, 0);
}

#[test]
fn search_test_search_line_style_with_matches() {
    let matches = vec![
        SearchMatch { line_index: 0, start: 5, end: 9 },
        SearchMatch { line_index: 0, start: 15, end: 19 },
        SearchMatch { line_index: 1, start: 0, end: 4 },
    ];
    let state = SearchState::new("test".to_string(), matches);
    let highlights = search_line_style(0, &state);
    assert!(highlights.is_some());
    let highlights = highlights.unwrap();
    assert_eq!(highlights.len(), 2);
    assert_eq!(highlights[0].1.start, 5);
    assert_eq!(highlights[0].1.end, 9);
    assert_eq!(highlights[1].1.start, 15);
    assert_eq!(highlights[1].1.end, 19);
}

#[test]
fn search_test_search_line_style_no_matches_on_line() {
    let matches = vec![SearchMatch { line_index: 1, start: 0, end: 4 }];
    let state = SearchState::new("test".to_string(), matches);
    let highlights = search_line_style(0, &state);
    assert!(highlights.is_none());
}

#[test]
fn test_search_line_style_highlights_current_match() {
    let matches = vec![
        SearchMatch { line_index: 0, start: 0, end: 4 },
        SearchMatch { line_index: 0, start: 10, end: 14 },
    ];
    let mut state = SearchState::new("test".to_string(), matches);
    state.current = 1;
    let highlights = search_line_style(0, &state);
    assert!(highlights.is_some());
    let highlights = highlights.unwrap();
    assert_eq!(highlights.len(), 2);
    assert_eq!(highlights[1].0, MatchHighlight::Current);
}

#[test]
fn search_test_select_highlight_style_current() {
    assert_eq!(select_highlight_style(2, 2), MatchHighlight::Current);
}

#[test]
fn search_test_select_highlight_style_not_current() {
    assert_eq!(select_highlight_style(1, 2), MatchHighlight::Other);
}

#[test]
fn search_test_search_status_line_empty_input() {
    let line = search_status_line(Some(""), None, None);
    assert!(line.is_some());
    let text: String = line.unwrap().iter().map(|s| s.1.as_str()).collect();
    assert!(text.contains("type to search"));
}

#[test]
fn search_test_search_status_line_with_results() {
    let matches = vec![SearchMatch { line_index: 0, start: 0, end: 4 }];
    let state = SearchState::new("test".to_string(), matches);
    let line = search_status_line(Some("test"), None, Some(&state));
    assert!(line.is_some());
    let text: String = line.unwrap().iter().map(|s| s.1.as_str()).collect();
    assert!(text.contains("1/1"));
}

#[test]
fn test_search_status_line_no_matches() {
    let state = SearchState::new("test".to_string(), vec![]);
    let line = search_status_line(Some("test"), None, Some(&state));
    assert!(line.is_some());
    let text: String = line.unwrap().iter().map(|s| s.1.as_str()).collect();
    assert!(text.contains("no matches"));
}

#[test]
fn search_test_search_status_line_error() {
    let line = search_status_line(None, Some("Invalid regex"), None);
    assert!(line.is_some());
    let text: String = line.unwrap().iter().map(|s| s.1.as_str()).collect();
    assert!(text.contains("Invalid regex"));
}

#[test]
fn test_search_status_line_confirmed_search() {
    let matches = vec![
        SearchMatch { line_index: 0, start: 0, end: 4 },
        SearchMatch { line_index: 1, start: 5, end: 9 },
    ];
    let state = SearchState::new("test".to_string(), matches);
    let line = search_status_line(None, None, Some(&state));
    assert!(line.is_some());
    let text: String = line.unwrap().iter().map(|s| s.1.as_str()).collect();
    assert!(text.contains("1/2"));
    assert!(text.contains("/test"));
}

#[test]
fn highlighter_test_search_line_style_with_matches() {
    let matches = vec![
        SearchMatch { line_index: 0, start: 5, end: 9 },
        SearchMatch { line_index: 0, start: 15, end: 19 },
        SearchMatch { line_index: 1, start: 0, end: 4 },
    ];
    let state = SearchState::new("test".to_string(), matches);
    let highlights = search_line_style(0, &state);
    assert!(highlights.is_some());
    let highlights = highlights.unwrap();
    assert_eq!(highlights.len(), 2);
    assert_eq!(highlights[0].1.start, 5);
    assert_eq!(highlights[1].1.start, 15);
}

#[test]
fn highlighter_test_search_line_style_no_matches_on_line() {
    let matches = vec![SearchMatch { line_index: 1, start: 0, end: 4 }];
    let state = SearchState::new("test".to_string(), matches);
    assert!(search_line_style(0, &state).is_none());
}

#[test]
fn highlighter_test_select_highlight_style_current() {
    assert_eq!(select_highlight_style(2, 2), MatchHighlight::Current);
}

#[test]
fn highlighter_test_select_highlight_style_not_current() {
    assert_eq!(select_highlight_style(1, 2), MatchHighlight::Other);
}

#[test]
fn status_test_search_status_line_empty_input() {
    let line = search_status_line(Some(""), None, None);
    assert!(line.is_some());
    let text: String = line.unwrap().iter().map(|s| s.1.as_str()).collect();
    assert!(text.contains("type to search"));
}

#[test]
fn status_test_search_status_line_with_results() {
    let matches = vec![SearchMatch { line_index: 0, start: 0, end: 4 }];
    let state = SearchState::new("test".to_string(), matches);
    let line = search_status_line(Some("test"), None, Some(&state));
    assert!(line.is_some());
    let text: String = line.unwrap().iter().map(|s| s.1.as_str()).collect();
    assert!(text.contains("1/1"));
}

#[test]
fn status_test_search_status_line_error() {
    let line = search_status_line(None, Some("Invalid regex"), None);
    assert!(line.is_some());
    let text: String = line.unwrap().iter().map(|s| s.1.as_str()).collect();
    assert!(text.contains("Invalid regex"));
}
