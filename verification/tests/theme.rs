use lazymvn::ui::panes::basic_panes::ItemStyle;
use lazymvn::ui::theme::{style_for_item, style_for_text, Color, Theme};
use lazymvn::utils::text::styled::TextStyle;

#[test]
fn test_focus_style_is_yellow() {
    assert_eq!(Theme::focus_style().fg, Some(Color::Yellow));
}

#[test]
fn test_selected_style_has_background() {
    assert_eq!(Theme::selected_style().bg, Some(Color::LightBlue));
}

#[test]
fn test_active_profile_style_is_green_bold() {
    assert_eq!(Theme::active_profile_style().fg, Some(Color::Green));
    assert!(Theme::active_profile_style().bold);
}

#[test]
fn test_auto_profile_style_is_cyan() {
    assert_eq!(Theme::auto_profile_style().fg, Some(Color::Cyan));
}

#[test]
fn test_disabled_profile_style_is_red() {
    assert_eq!(Theme::disabled_profile_style().fg, Some(Color::Red));
}

#[test]
fn test_search_match_style() {
    assert_eq!(Theme::search_match_style().bg, Some(Color::Yellow));
    assert_eq!(Theme::search_match_style().fg, Some(Color::Black));
}

#[test]
fn test_current_search_match_style() {
    assert_eq!(Theme::current_search_match_style().bg, Some(Color::Red));
    assert_eq!(Theme::current_search_match_style().fg, Some(Color::White));
}

#[test]
fn test_error_style_is_red() {
    assert_eq!(Theme::error_style().fg, Some(Color::Red));
}

#[test]
fn test_info_style_is_green() {
    assert_eq!(Theme::info_style().fg, Some(Color::Green));
}

#[test]
fn test_dim_style_is_dark_gray() {
    assert_eq!(Theme::dim_style().fg, Some(Color::DarkGray));
}

#[test]
fn piece_styles_follow_theme() {
    assert_eq!(style_for_text(TextStyle::SearchMatch), Theme::search_match_style());
    assert_eq!(style_for_text(TextStyle::LevelDebug).fg, Some(Color::Magenta));
    assert_eq!(style_for_text(TextStyle::XmlClosingTagName).fg, Some(Color::LightRed));
    assert_eq!(style_for_text(TextStyle::Raw), Theme::default_style());
    assert_eq!(style_for_item(ItemStyle::Disabled), Theme::disabled_profile_style());
}
