use lazymvn::ui::panes::basic_panes::{
    flag_item, flags_pane_title, highlight_pieces, is_xml_output, module_display_name,
    output_line_pieces, output_pane_title, profile_item, profiles_pane_title,
    project_line_pieces, ItemStyle,
};
use lazymvn::ui::panes::layout::PaneArea;
use lazymvn::ui::panes::popups::{
    centered_popup_area, custom_goal_item_pieces, filter_display, list_title,
    starter_item_pieces, starter_name_parts,
};
use lazymvn::ui::panes::tab_footer::{tab_bar_pieces, TabPieceStyle};
use lazymvn::ui::search::highlighter::MatchHighlight;
use lazymvn::ui::state::types::{BuildFlag, MavenProfile, ProfileLoadingStatus, ProfileState};
use lazymvn::utils::text::styled::TextStyle;

fn profile(name: &str, state: ProfileState, auto: bool) -> MavenProfile {
    MavenProfile { name: name.to_string(), state, auto_activated: auto }
}

fn flag(name: &str, enabled: bool) -> BuildFlag {
    BuildFlag { name: name.to_string(), flag: format!("--{}", name), enabled }
}

#[test]
fn profiles_title_by_status_and_count() {
    let profiles = vec![
        profile("dev", ProfileState::ExplicitlyEnabled, false),
        profile("ci", ProfileState::Default, true),
        profile("prod", ProfileState::ExplicitlyDisabled, true),
        profile("local", ProfileState::Default, false),
    ];
    assert_eq!(profiles_pane_title(&ProfileLoadingStatus::Loaded, &profiles, "⠋"), "[3] Profiles (2)");
    assert_eq!(profiles_pane_title(&ProfileLoadingStatus::Loaded, &[], "⠋"), "[3] Profiles");
    assert_eq!(
        profiles_pane_title(&ProfileLoadingStatus::Loading, &profiles, "⠙"),
        "[3] Profiles (⠙ loading...)"
    );
    assert_eq!(
        profiles_pane_title(&ProfileLoadingStatus::Error("boom".to_string()), &profiles, "⠙"),
        "[3] Profiles (error)"
    );
}

#[test]
fn profile_items_show_state() {
    assert_eq!(
        profile_item(&profile("ci", ProfileState::Default, true)),
        ("☑ ci (auto)".to_string(), ItemStyle::AutoProfile)
    );
    assert_eq!(
        profile_item(&profile("local", ProfileState::Default, false)),
        ("☐ local".to_string(), ItemStyle::Plain)
    );
    assert_eq!(
        profile_item(&profile("dev", ProfileState::ExplicitlyEnabled, false)),
        ("☑ dev".to_string(), ItemStyle::Active)
    );
    assert_eq!(
        profile_item(&profile("prod", ProfileState::ExplicitlyDisabled, true)),
        ("☒ prod (disabled)".to_string(), ItemStyle::Disabled)
    );
}

#[test]
fn flags_title_and_items() {
    let flags = vec![flag("offline", true), flag("quiet", false), flag("debug", true)];
    assert_eq!(flags_pane_title(&flags), "[4] Build Flags (2)");
    assert_eq!(flags_pane_title(&[flag("quiet", false)]), "[4] Build Flags");
    assert_eq!(flag_item(&flags[0]), ("☑ offline".to_string(), ItemStyle::Active));
    assert_eq!(flag_item(&flags[1]), ("☐ quiet".to_string(), ItemStyle::Plain));
}

#[test]
fn module_names_and_project_line() {
    assert_eq!(module_display_name("."), "(root project)");
    assert_eq!(module_display_name("core"), "core");
    let line = project_line_pieces("/work/app", Some("main"));
    assert_eq!(
        line,
        vec![
            ("/work/app".to_string(), false),
            ("  ".to_string(), false),
            ("".to_string(), true),
            (" main".to_string(), true),
        ]
    );
    assert_eq!(project_line_pieces("/work/app", None), vec![("/work/app".to_string(), false)]);
}

#[test]
fn output_title_variants() {
    let context = Some((
        "clean install".to_string(),
        vec!["dev".to_string(), "ci".to_string()],
        vec!["-o".to_string()],
    ));
    assert_eq!(
        output_pane_title(Some("core"), context.clone(), false, None),
        "[0] Output: core • clean install • dev, ci • -o"
    );
    assert_eq!(
        output_pane_title(Some("core"), Some(("test".to_string(), vec![], vec![])), false, None),
        "[0] Output: core • test"
    );
    assert_eq!(output_pane_title(Some("core"), None, false, None), "[0] Output: core");
    assert_eq!(output_pane_title(None, context, false, None), "Output");
    assert_eq!(output_pane_title(None, None, true, Some(12)), "Output ⠹ Running (12s)");
    assert_eq!(output_pane_title(None, None, true, None), "Output ⠋ Running (0s)");
}

#[test]
fn xml_mode_detection() {
    assert!(is_xml_output(&["Profile: dev".to_string(), "<profile>".to_string()]));
    assert!(!is_xml_output(&["[INFO] Building".to_string()]));
    assert!(!is_xml_output(&[]));
}

#[test]
fn highlight_pieces_cut_text() {
    let highlights = vec![(MatchHighlight::Other, 0..3), (MatchHighlight::Current, 6..9)];
    let pieces = highlight_pieces("abc - def ghi", &highlights);
    assert_eq!(
        pieces,
        vec![
            (TextStyle::SearchMatch, "abc".to_string()),
            (TextStyle::Raw, " - ".to_string()),
            (TextStyle::SearchCurrentMatch, "def".to_string()),
            (TextStyle::Raw, " ghi".to_string()),
        ]
    );
    let beyond = vec![(MatchHighlight::Other, 3..40)];
    assert_eq!(
        highlight_pieces("héllo", &beyond),
        vec![(TextStyle::Raw, "hé".to_string()), (TextStyle::Raw, "héllo".to_string())]
    );
    let multibyte = vec![(MatchHighlight::Other, 1..3)];
    assert_eq!(
        highlight_pieces("héllo", &multibyte),
        vec![
            (TextStyle::Raw, "h".to_string()),
            (TextStyle::SearchMatch, "é".to_string()),
            (TextStyle::Raw, "llo".to_string()),
        ]
    );
}

#[test]
fn output_line_modes() {
    let raw = "\u{1b}[32m[INFO]\u{1b}[0m Build ok  ";
    let search = output_line_pieces(raw, 0, true, Some(vec![(MatchHighlight::Current, 7..12)]), false, None);
    assert_eq!(
        search,
        vec![
            (TextStyle::Raw, "[INFO] ".to_string()),
            (TextStyle::SearchCurrentMatch, "Build".to_string()),
            (TextStyle::Raw, " ok".to_string()),
        ]
    );
    assert_eq!(
        output_line_pieces(raw, 0, true, None, false, None),
        vec![(TextStyle::Raw, "[INFO] Build ok".to_string())]
    );
    assert_eq!(
        output_line_pieces(raw, 0, false, None, false, None),
        vec![(TextStyle::LevelInfo, "[INFO]".to_string()), (TextStyle::Raw, " Build ok".to_string())]
    );
    let xml = output_line_pieces("  <id>dev</id>", 3, false, None, true, None);
    assert_eq!(xml[0], (TextStyle::Raw, "  ".to_string()));
    assert_eq!(xml[2], (TextStyle::XmlTagName, "id".to_string()));
    let header = output_line_pieces("Profile: dev", 0, false, None, true, None);
    assert_eq!(header, vec![(TextStyle::Raw, "Profile: dev".to_string())]);
}

#[test]
fn popup_geometry_and_titles() {
    let area = PaneArea { x: 5, y: 5, width: 100, height: 40 };
    assert_eq!(centered_popup_area(area, 70, 70), PaneArea { x: 15, y: 6, width: 70, height: 28 });
    assert_eq!(centered_popup_area(area, 150, 50), PaneArea { x: 0, y: 10, width: 150, height: 20 });
    assert_eq!(list_title("Recent Projects", 0, "no matches", "matches"), "Recent Projects (no matches)");
    assert_eq!(list_title("Recent Projects", 3, "no matches", "matches"), "Recent Projects (3 matches)");
    assert_eq!(list_title("Manage Starters", 2, "empty", "cached"), "Manage Starters (2 cached)");
    assert_eq!(filter_display("", "Type to filter..."), ("Type to filter...".to_string(), true));
    assert_eq!(filter_display("app", "Type to filter..."), ("app".to_string(), false));
}

#[test]
fn starter_and_goal_items() {
    assert_eq!(
        starter_name_parts("com.example.Application"),
        ("com.example".to_string(), "Application".to_string())
    );
    assert_eq!(starter_name_parts("Application"), ("".to_string(), "Application".to_string()));
    assert_eq!(starter_name_parts("trailing."), ("trailing".to_string(), "".to_string()));
    assert_eq!(
        starter_item_pieces(true, "App", "com.x.App"),
        vec!["★ ", "App", " (", "com.x.App", ")"]
    );
    assert_eq!(starter_item_pieces(false, "App", "com.x.App")[0], "  ");
    assert_eq!(
        custom_goal_item_pieces(0, "fmt", "spotless:apply"),
        vec!["[1] ", "fmt", " → ", "spotless:apply"]
    );
}

#[test]
fn tab_bar_labels() {
    let names = vec!["api".to_string(), "web".to_string(), "db".to_string()];
    assert_eq!(
        tab_bar_pieces(&names, 1),
        vec![
            ("  1  api ".to_string(), TabPieceStyle::Inactive),
            ("│".to_string(), TabPieceStyle::Separator),
            (" [2] web ".to_string(), TabPieceStyle::Active),
            ("│".to_string(), TabPieceStyle::Separator),
            ("  3  db ".to_string(), TabPieceStyle::Inactive),
            (" (2/3) ".to_string(), TabPieceStyle::Dim),
        ]
    );
    assert_eq!(
        tab_bar_pieces(&["solo".to_string()], 0),
        vec![(" [1] solo ".to_string(), TabPieceStyle::Active)]
    );
    assert!(tab_bar_pieces(&[], 0).is_empty());
}
