use lazymvn::ui::state::profiles::{
    no_profile_selected_output, profile_output, set_profiles, ProfileLoading, ProfilesMessage,
};
use lazymvn::ui::state::types::{ProfileLoadingStatus, ProfileState};

fn create_test_state() -> ProfileLoading {
    ProfileLoading::new()
}

#[test]
fn test_set_profiles_empty() {
    let (profiles, _) = set_profiles(vec![], &vec![]);
    assert!(profiles.is_empty());
}

#[test]
fn test_set_profiles_with_names() {
    let (profiles, _) = set_profiles(vec!["dev".to_string(), "prod".to_string()], &vec![]);
    assert_eq!(profiles.len(), 2);
    assert_eq!(profiles[0].name, "dev");
    assert_eq!(profiles[1].name, "prod");
}

#[test]
fn test_set_profiles_selects_first() {
    let (_, selected) = set_profiles(vec!["dev".to_string()], &vec![]);
    assert_eq!(selected, Some(0));
}

#[test]
fn set_profiles_marks_auto_activated() {
    let (profiles, selected) =
        set_profiles(vec!["dev".to_string(), "ci".to_string()], &vec!["ci".to_string()]);
    assert!(!profiles[0].auto_activated);
    assert!(profiles[1].auto_activated);
    assert!(profiles.iter().all(|p| p.state == ProfileState::Default));
    assert_eq!(selected, Some(0));
    assert_eq!(set_profiles(vec![], &vec![]).1, None);
}

#[test]
fn profiles_test_profile_loading_spinner_frames() {
    let mut state = create_test_state();
    let frame1 = state.profile_loading_spinner();
    state.profile_spinner_frame = 1;
    let frame2 = state.profile_loading_spinner();
    assert_ne!(frame1, frame2);
}

#[test]
fn mod_test_profile_loading_spinner_frames() {
    let mut state = create_test_state();

    // Test spinner cycles through frames
    let frame1 = state.profile_loading_spinner();
    state.profile_spinner_frame = 1;
    let frame2 = state.profile_loading_spinner();
    state.profile_spinner_frame = 7;
    let frame3 = state.profile_loading_spinner();

    // Should have different frames
    assert_ne!(frame1, frame2);
    assert_ne!(frame2, frame3);

    // Should cycle back after 8 frames
    state.profile_spinner_frame = 8;
    let frame_cycled = state.profile_loading_spinner();
    assert_eq!(frame1, frame_cycled);
}

#[test]
fn test_profile_loading_spinner_wraps() {
    let mut state = create_test_state();
    state.profile_spinner_frame = 0;
    let first = state.profile_loading_spinner();

    state.profile_spinner_frame = 8; // Should wrap
    let wrapped = state.profile_loading_spinner();

    assert_eq!(first, wrapped);
}

#[test]
fn test_start_loading_profiles() {
    let mut state = create_test_state();

    state.start_loading_profiles();

    assert!(state.receiving);
    assert!(matches!(state.profile_loading_status, ProfileLoadingStatus::Loading));
    assert!(state.loading_started);
    assert_eq!(state.profile_spinner_frame, 0);
}

#[test]
fn test_poll_profiles_updates_advances_spinner() {
    let mut state = create_test_state();
    state.profile_loading_status = ProfileLoadingStatus::Loading;
    state.profile_spinner_frame = 0;

    state.poll_profiles_updates(0, ProfilesMessage::Nothing);

    assert_eq!(state.profile_spinner_frame, 1);
}

#[test]
fn test_poll_profiles_updates_no_spinner_when_not_loading() {
    let mut state = create_test_state();
    state.profile_loading_status = ProfileLoadingStatus::Loaded;
    state.profile_spinner_frame = 0;

    state.poll_profiles_updates(0, ProfilesMessage::Nothing);

    assert_eq!(state.profile_spinner_frame, 0);
}

#[test]
fn poll_spinner_wraps_after_last_frame() {
    let mut state = create_test_state();
    state.start_loading_profiles();
    state.profile_spinner_frame = 7;
    state.poll_profiles_updates(0, ProfilesMessage::Nothing);
    assert_eq!(state.profile_spinner_frame, 0);
    assert!(state.receiving);
}

#[test]
fn poll_delivers_loaded_names() {
    let mut state = create_test_state();
    state.start_loading_profiles();
    let names = state.poll_profiles_updates(
        1_000,
        ProfilesMessage::Received(Ok(vec!["dev".to_string(), "prod".to_string()])),
    );
    assert_eq!(names, Some(vec!["dev".to_string(), "prod".to_string()]));
    assert!(matches!(state.profile_loading_status, ProfileLoadingStatus::Loaded));
    assert!(!state.receiving && !state.loading_started);
}

#[test]
fn poll_reports_failure_and_disconnection() {
    let mut state = create_test_state();
    state.start_loading_profiles();
    assert!(state.poll_profiles_updates(5, ProfilesMessage::Received(Err("no pom".to_string()))).is_none());
    assert!(matches!(&state.profile_loading_status, ProfileLoadingStatus::Error(e) if e == "no pom"));

    let mut state = create_test_state();
    state.start_loading_profiles();
    state.poll_profiles_updates(5, ProfilesMessage::Disconnected);
    assert!(matches!(&state.profile_loading_status,
        ProfileLoadingStatus::Error(e) if e == "Profile loading channel disconnected"));
    assert!(!state.receiving);
}

#[test]
fn poll_times_out_after_thirty_seconds() {
    let mut state = create_test_state();
    state.start_loading_profiles();
    state.poll_profiles_updates(30_000_000_000, ProfilesMessage::Nothing);
    assert!(matches!(state.profile_loading_status, ProfileLoadingStatus::Loading));
    let names = state.poll_profiles_updates(
        30_000_000_001,
        ProfilesMessage::Received(Ok(vec!["late".to_string()])),
    );
    assert!(names.is_none());
    assert!(matches!(&state.profile_loading_status,
        ProfileLoadingStatus::Error(e) if e == "Timeout: Profile loading took too long (>30s)"));
    assert!(!state.receiving && !state.loading_started);
}

#[test]
fn test_sync_selected_profile_output_no_selection() {
    let output = no_profile_selected_output();
    assert_eq!(output.len(), 1);
    assert_eq!(output[0], "No profile selected.");
}

#[test]
fn test_sync_selected_profile_output_with_selection() {
    // Should generate output (may not find XML but should not panic)
    let output = profile_output("dev", None);
    assert!(!output.is_empty());
}

#[test]
fn profile_output_with_and_without_xml() {
    assert_eq!(
        profile_output("dev", None),
        vec!["Profile: dev", "", "XML not found in POM files."]
    );
    assert_eq!(
        profile_output("dev", Some(("<profile>\r\n  <id>dev</id>\n</profile>\n", "app/pom.xml"))),
        vec!["Profile: dev", "From: app/pom.xml", "", "<profile>", "  <id>dev</id>", "</profile>"]
    );
}
