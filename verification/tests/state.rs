use lazymvn::ui::state::output::{
    clamp_output_offset, max_scroll_offset, page_scroll_delta, scroll_output_lines, scroll_output_to_end,
    scroll_output_to_start,
};
use lazymvn::ui::state::selection::{selection_on_enter, toggle_flag, toggle_profile};
use lazymvn::ui::state::project_tab::initial_build_flags;
use lazymvn::ui::state::output::{yank_notice, ClipboardOutcome};
use lazymvn::ui::state::navigation::{calculate_next_index, calculate_previous_index, is_navigation_debounced};
use lazymvn::ui::state::output::{
    calculate_clamped_scroll, calculate_output_metrics, format_clipboard_error, format_clipboard_success,
};
use lazymvn::ui::state::types::{MavenProfile, ProfileState};
use std::time::Instant;

#[test]
fn mod_test_profile_state_transitions() {
    let mut profile = MavenProfile::new("test-profile".to_string(), false);

    // Default state for non-auto profile
    assert_eq!(profile.state, ProfileState::Default);
    assert!(!profile.is_active());

    // Toggle should enable
    profile.toggle();
    assert_eq!(profile.state, ProfileState::ExplicitlyEnabled);
    assert!(profile.is_active());

    // Toggle again should return to default
    profile.toggle();
    assert_eq!(profile.state, ProfileState::Default);
    assert!(!profile.is_active());
}

#[test]
fn mod_test_auto_activated_profile_state_transitions() {
    let mut profile = MavenProfile::new("auto-profile".to_string(), true);

    // Default state for auto-activated profile
    assert_eq!(profile.state, ProfileState::Default);
    assert!(profile.is_active()); // Auto-activated, so active by default

    // Toggle should disable
    profile.toggle();
    assert_eq!(profile.state, ProfileState::ExplicitlyDisabled);
    assert!(!profile.is_active());

    // Toggle again should return to default (auto-activated)
    profile.toggle();
    assert_eq!(profile.state, ProfileState::Default);
    assert!(profile.is_active());
}

#[test]
fn mod_test_profile_maven_arg_generation() {
    let mut profile = MavenProfile::new("test".to_string(), false);

    // Default state: no arg
    assert_eq!(profile.to_maven_arg(), None);

    // Explicitly enabled: returns profile name
    profile.state = ProfileState::ExplicitlyEnabled;
    assert_eq!(profile.to_maven_arg(), Some("test".to_string()));

    // Explicitly disabled: returns !profile
    profile.state = ProfileState::ExplicitlyDisabled;
    assert_eq!(profile.to_maven_arg(), Some("!test".to_string()));
}

#[test]
fn types_test_profile_state_transitions() {
    let mut profile = MavenProfile::new("test-profile".to_string(), false);

    // Default state for non-auto profile
    assert_eq!(profile.state, ProfileState::Default);
    assert!(!profile.is_active());

    // Toggle should enable
    profile.toggle();
    assert_eq!(profile.state, ProfileState::ExplicitlyEnabled);
    assert!(profile.is_active());

    // Toggle again should return to default
    profile.toggle();
    assert_eq!(profile.state, ProfileState::Default);
    assert!(!profile.is_active());
}

#[test]
fn types_test_auto_activated_profile_state_transitions() {
    let mut profile = MavenProfile::new("auto-profile".to_string(), true);

    // Default state for auto-activated profile
    assert_eq!(profile.state, ProfileState::Default);
    assert!(profile.is_active()); // Auto-activated, so active by default

    // Toggle should disable
    profile.toggle();
    assert_eq!(profile.state, ProfileState::ExplicitlyDisabled);
    assert!(!profile.is_active());

    // Toggle again should return to default (auto-activated)
    profile.toggle();
    assert_eq!(profile.state, ProfileState::Default);
    assert!(profile.is_active());
}

#[test]
fn types_test_profile_maven_arg_generation() {
    let mut profile = MavenProfile::new("test".to_string(), false);

    // Default state: no arg
    assert_eq!(profile.to_maven_arg(), None);

    // Explicitly enabled: returns profile name
    profile.state = ProfileState::ExplicitlyEnabled;
    assert_eq!(profile.to_maven_arg(), Some("test".to_string()));

    // Explicitly disabled: returns !profile
    profile.state = ProfileState::ExplicitlyDisabled;
    assert_eq!(profile.to_maven_arg(), Some("!test".to_string()));
}

#[test]
fn navigation_test_is_navigation_debounced_none() {
    let now = Instant::now();
    let debounce = std::time::Duration::from_millis(100);
    assert!(!is_navigation_debounced(None, now, debounce));
}

#[test]
fn navigation_test_is_navigation_debounced_too_fast() {
    let last = Instant::now();
    let now = last + std::time::Duration::from_millis(50);
    let debounce = std::time::Duration::from_millis(100);
    assert!(is_navigation_debounced(Some(last), now, debounce));
}

#[test]
fn navigation_test_is_navigation_debounced_allowed() {
    let last = Instant::now();
    let now = last + std::time::Duration::from_millis(150);
    let debounce = std::time::Duration::from_millis(100);
    assert!(!is_navigation_debounced(Some(last), now, debounce));
}

#[test]
fn navigation_test_calculate_next_index_none() {
    assert_eq!(calculate_next_index(None, 5), 0);
}

#[test]
fn navigation_test_calculate_next_index_middle() {
    assert_eq!(calculate_next_index(Some(2), 5), 3);
}

#[test]
fn navigation_test_calculate_next_index_wraps() {
    assert_eq!(calculate_next_index(Some(4), 5), 0);
}

#[test]
fn navigation_test_calculate_previous_index_none() {
    assert_eq!(calculate_previous_index(None, 5), 0);
}

#[test]
fn navigation_test_calculate_previous_index_middle() {
    assert_eq!(calculate_previous_index(Some(2), 5), 1);
}

#[test]
fn navigation_test_calculate_previous_index_wraps() {
    assert_eq!(calculate_previous_index(Some(0), 5), 4);
}

#[test]
fn navigation_test_calculate_next_index_single_item() {
    assert_eq!(calculate_next_index(Some(0), 1), 0);
}

#[test]
fn navigation_test_calculate_previous_index_single_item() {
    assert_eq!(calculate_previous_index(Some(0), 1), 0);
}

#[test]
fn navigation_tests_test_is_navigation_debounced_none() {
    let now = Instant::now();
    let debounce = std::time::Duration::from_millis(100);
    assert!(!is_navigation_debounced(None, now, debounce));
}

#[test]
fn navigation_tests_test_is_navigation_debounced_too_fast() {
    let last = Instant::now();
    let now = last + std::time::Duration::from_millis(50);
    let debounce = std::time::Duration::from_millis(100);
    assert!(is_navigation_debounced(Some(last), now, debounce));
}

#[test]
fn navigation_tests_test_is_navigation_debounced_allowed() {
    let last = Instant::now();
    let now = last + std::time::Duration::from_millis(150);
    let debounce = std::time::Duration::from_millis(100);
    assert!(!is_navigation_debounced(Some(last), now, debounce));
}

#[test]
fn navigation_tests_test_calculate_next_index_none() {
    assert_eq!(calculate_next_index(None, 5), 0);
}

#[test]
fn navigation_tests_test_calculate_next_index_middle() {
    assert_eq!(calculate_next_index(Some(2), 5), 3);
}

#[test]
fn navigation_tests_test_calculate_next_index_wraps() {
    assert_eq!(calculate_next_index(Some(4), 5), 0);
}

#[test]
fn navigation_tests_test_calculate_previous_index_none() {
    assert_eq!(calculate_previous_index(None, 5), 0);
}

#[test]
fn navigation_tests_test_calculate_previous_index_middle() {
    assert_eq!(calculate_previous_index(Some(2), 5), 1);
}

#[test]
fn navigation_tests_test_calculate_previous_index_wraps() {
    assert_eq!(calculate_previous_index(Some(0), 5), 4);
}

#[test]
fn navigation_tests_test_calculate_next_index_single_item() {
    assert_eq!(calculate_next_index(Some(0), 1), 0);
}

#[test]
fn navigation_tests_test_calculate_previous_index_single_item() {
    assert_eq!(calculate_previous_index(Some(0), 1), 0);
}

#[test]
fn test_calculate_output_metrics_empty() {
    assert!(calculate_output_metrics(80, &[]).is_none());
}

#[test]
fn test_calculate_output_metrics_zero_width() {
    let lines = vec!["test".to_string()];
    assert!(calculate_output_metrics(0, &lines).is_none());
}

#[test]
fn test_calculate_output_metrics_valid() {
    let lines = vec!["test".to_string()];
    assert!(calculate_output_metrics(80, &lines).is_some());
}

#[test]
fn test_calculate_clamped_scroll_normal() {
    assert_eq!(calculate_clamped_scroll(10, 5, 100), 15);
}

#[test]
fn test_calculate_clamped_scroll_negative() {
    assert_eq!(calculate_clamped_scroll(10, -5, 100), 5);
}

#[test]
fn test_calculate_clamped_scroll_below_zero() {
    assert_eq!(calculate_clamped_scroll(3, -5, 100), 0);
}

#[test]
fn test_calculate_clamped_scroll_above_max() {
    assert_eq!(calculate_clamped_scroll(95, 10, 100), 100);
}

#[test]
fn test_format_clipboard_success() {
    assert_eq!(
        format_clipboard_success(42),
        "✓ Copied 42 lines to clipboard"
    );
}

#[test]
fn test_format_clipboard_error() {
    assert_eq!(
        format_clipboard_error("permission denied"),
        "✗ Failed to copy: permission denied"
    );
}

#[test]
fn yank_notice_reports_each_outcome() {
    assert_eq!(yank_notice(ClipboardOutcome::Copied, 12), vec!["", "✓ Copied 12 lines to clipboard"]);
    assert_eq!(
        yank_notice(ClipboardOutcome::Unavailable("no display".to_string()), 3),
        vec!["", "✗ Clipboard not available: no display"]
    );
    assert_eq!(
        yank_notice(ClipboardOutcome::Failed("denied".to_string()), 3),
        vec!["", "✗ Failed to copy: denied"]
    );
}

#[test]
fn test_scroll_output_to_start() {
    // Three lines of output, offset 5.
    assert_eq!(scroll_output_to_start(5, true).0, 0);
}

#[test]
fn test_scroll_output_to_start_empty() {
    assert_eq!(scroll_output_to_start(0, false).0, 0);
}

#[test]
fn test_scroll_output_to_end() {
    // Five lines, a view of two rows.
    let max_offset = max_scroll_offset(2, 5);
    assert_eq!(scroll_output_to_end(max_offset).0, max_offset);
}

#[test]
fn test_scroll_output_lines_down() {
    let max_offset = max_scroll_offset(2, 4);
    assert_eq!(scroll_output_lines(0, 1, true, max_offset).0, 1);
}

#[test]
fn test_scroll_output_lines_up() {
    let max_offset = max_scroll_offset(2, 4);
    assert_eq!(scroll_output_lines(2, -1, true, max_offset).0, 1);
}

#[test]
fn test_scroll_output_lines_clamps_at_top() {
    let max_offset = max_scroll_offset(2, 2);
    assert_eq!(scroll_output_lines(0, -10, true, max_offset).0, 0);
}

#[test]
fn test_scroll_output_lines_clamps_at_bottom() {
    let max_offset = max_scroll_offset(2, 3);
    assert_eq!(scroll_output_lines(0, 100, true, max_offset).0, max_offset);
}

#[test]
fn test_scroll_output_pages() {
    // Six lines, a view of two rows: one page is two lines.
    let max_offset = max_scroll_offset(2, 6);
    let delta = page_scroll_delta(1, 2);
    assert_eq!(scroll_output_lines(0, delta, true, max_offset).0, 2);
}

#[test]
fn test_max_scroll_offset_with_content() {
    // 5 lines - 2 visible = 3 max offset
    assert_eq!(max_scroll_offset(2, 5), 3);
}

#[test]
fn test_max_scroll_offset_zero_height() {
    assert_eq!(max_scroll_offset(0, 2), 0);
}

#[test]
fn test_max_scroll_offset_no_overflow() {
    assert_eq!(max_scroll_offset(5, 2), 0);
}

#[test]
fn scroll_steps_report_whether_to_store() {
    assert_eq!(scroll_output_lines(3, 1, false, 10), (3, false));
    assert_eq!(scroll_output_lines(3, 0, true, 10), (3, false));
    assert_eq!(scroll_output_lines(3, 2, true, 10), (5, true));
    assert_eq!(scroll_output_to_end(7), (7, true));
    assert_eq!(clamp_output_offset(9, 4), 4);
    assert_eq!(clamp_output_offset(2, 4), 2);
}

#[test]
fn test_toggle_profile_not_in_profiles_focus() {
    let mut profiles = vec![MavenProfile::new("dev".to_string(), false)];
    let initial_state = profiles[0].state;
    toggle_profile(&mut profiles, false, Some(0));
    // Should not toggle when not in Profiles focus
    assert_eq!(profiles[0].state, initial_state);
}

#[test]
fn test_toggle_profile_no_selection() {
    let mut profiles = vec![MavenProfile::new("dev".to_string(), false)];
    // Should not panic with no selection
    assert!(!toggle_profile(&mut profiles, true, None));
}

#[test]
fn toggling_the_selected_profile_and_flag() {
    let mut profiles = vec![MavenProfile::new("dev".to_string(), false), MavenProfile::new("ci".to_string(), true)];
    assert!(toggle_profile(&mut profiles, true, Some(1)));
    assert_eq!(profiles[1].state, ProfileState::ExplicitlyDisabled);
    assert_eq!(profiles[0].state, ProfileState::Default);
    assert!(!toggle_profile(&mut profiles, true, Some(5)));
    let mut flags = initial_build_flags(Vec::new());
    assert!(toggle_flag(&mut flags, true, Some(2)));
    assert!(flags[2].enabled);
    assert!(!flags[1].enabled);
    assert!(!toggle_flag(&mut flags, false, Some(2)));
    assert!(flags[2].enabled);
    assert_eq!(selection_on_enter(None, 3), Some(0));
    assert_eq!(selection_on_enter(None, 0), None);
    assert_eq!(selection_on_enter(Some(2), 3), Some(2));
}
