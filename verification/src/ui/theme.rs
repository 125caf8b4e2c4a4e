//! The colours of the interface: the theme's styles, and the style given to
//! each kind of styled piece.

use vstd::prelude::*;
use crate::ui::panes::basic_panes::ItemStyle;
use crate::ui::panes::tab_footer::TabPieceStyle;
use crate::utils::text::styled::TextStyle;

verus! {

/// A terminal colour.
#[derive(Clone, Copy, Debug, PartialEq, Eq, Structural)]
pub enum Color {
    Black,
    Red,
    Green,
    Yellow,
    Blue,
    Magenta,
    Cyan,
    White,
    DarkGray,
    LightRed,
    LightGreen,
    LightYellow,
    LightBlue,
    LightMagenta,
    LightCyan,
}

/// A text style: foreground and background colours (none keeps the
/// terminal's) and modifiers.
#[derive(Clone, Copy, Debug, PartialEq, Eq, Structural)]
pub struct StyleSpec {
    pub fg: Option<Color>,
    pub bg: Option<Color>,
    pub bold: bool,
    pub italic: bool,
    pub underlined: bool,
}

/// The style with only a foreground colour.
pub open spec fn fg_only(c: Color) -> StyleSpec {
    StyleSpec { fg: Some(c), bg: None, bold: false, italic: false, underlined: false }
}

/// The style with a foreground colour, in bold.
pub open spec fn fg_bold(c: Color) -> StyleSpec {
    StyleSpec { fg: Some(c), bg: None, bold: true, italic: false, underlined: false }
}

fn fg(c: Color) -> (s: StyleSpec)
    ensures
        s == fg_only(c),
{
    StyleSpec { fg: Some(c), bg: None, bold: false, italic: false, underlined: false }
}

fn bold(c: Color) -> (s: StyleSpec)
    ensures
        s == fg_bold(c),
{
    StyleSpec { fg: Some(c), bg: None, bold: true, italic: false, underlined: false }
}

/// Theme constants for the TUI
pub struct Theme;

impl Theme {
    /// Style for focused borders and highlighted elements
    pub fn focus_style() -> (s: StyleSpec)
        ensures
            s == fg_only(Color::Yellow),
    {
        fg(Color::Yellow)
    }

    /// Style for default borders and text
    pub fn default_style() -> (s: StyleSpec)
        ensures
            s == (StyleSpec { fg: None, bg: None, bold: false, italic: false, underlined: false }),
    {
        StyleSpec { fg: None, bg: None, bold: false, italic: false, underlined: false }
    }

    /// Style for selected list items
    pub fn selected_style() -> (s: StyleSpec)
        ensures
            s == (StyleSpec {
                fg: None,
                bg: Some(Color::LightBlue),
                bold: true,
                italic: false,
                underlined: false,
            }),
    {
        StyleSpec { fg: None, bg: Some(Color::LightBlue), bold: true, italic: false, underlined: false }
    }

    /// Style for active profiles (explicitly enabled)
    pub fn active_profile_style() -> (s: StyleSpec)
        ensures
            s == fg_bold(Color::Green),
    {
        bold(Color::Green)
    }

    /// Style for auto-activated profiles (default state, auto-enabled)
    pub fn auto_profile_style() -> (s: StyleSpec)
        ensures
            s == fg_only(Color::Cyan),
    {
        fg(Color::Cyan)
    }

    /// Style for disabled profiles (explicitly disabled)
    pub fn disabled_profile_style() -> (s: StyleSpec)
        ensures
            s == fg_only(Color::Red),
    {
        fg(Color::Red)
    }

    /// Style for key hints in footer
    pub fn key_hint_style() -> (s: StyleSpec)
        ensures
            s == fg_bold(Color::Cyan),
    {
        bold(Color::Cyan)
    }

    /// Style for footer section labels
    pub fn footer_section_style() -> (s: StyleSpec)
        ensures
            s == fg_bold(Color::LightMagenta),
    {
        bold(Color::LightMagenta)
    }

    /// Style for focused footer section titles
    pub fn footer_section_focused_style() -> (s: StyleSpec)
        ensures
            s == (StyleSpec {
                fg: Some(Color::LightCyan),
                bg: None,
                bold: true,
                italic: false,
                underlined: true,
            }),
    {
        StyleSpec { fg: Some(Color::LightCyan), bg: None, bold: true, italic: false, underlined: true }
    }

    /// Style for footer box borders
    pub fn footer_box_border_style() -> (s: StyleSpec)
        ensures
            s == fg_only(Color::Blue),
    {
        fg(Color::Blue)
    }

    /// Style for dimmed/secondary text
    pub fn dim_style() -> (s: StyleSpec)
        ensures
            s == fg_only(Color::DarkGray),
    {
        fg(Color::DarkGray)
    }

    /// Style for search match highlights
    pub fn search_match_style() -> (s: StyleSpec)
        ensures
            s == (StyleSpec {
                fg: Some(Color::Black),
                bg: Some(Color::Yellow),
                bold: false,
                italic: false,
                underlined: false,
            }),
    {
        StyleSpec {
            fg: Some(Color::Black),
            bg: Some(Color::Yellow),
            bold: false,
            italic: false,
            underlined: false,
        }
    }

    /// Style for current search match
    pub fn current_search_match_style() -> (s: StyleSpec)
        ensures
            s == (StyleSpec {
                fg: Some(Color::White),
                bg: Some(Color::Red),
                bold: false,
                italic: false,
                underlined: false,
            }),
    {
        StyleSpec {
            fg: Some(Color::White),
            bg: Some(Color::Red),
            bold: false,
            italic: false,
            underlined: false,
        }
    }

    /// Style for error messages
    pub fn error_style() -> (s: StyleSpec)
        ensures
            s == fg_only(Color::Red),
    {
        fg(Color::Red)
    }

    /// Style for success/info messages
    pub fn info_style() -> (s: StyleSpec)
        ensures
            s == fg_only(Color::Green),
    {
        fg(Color::Green)
    }
}

/// The style of each kind of piece of a log, XML or search line.
pub open spec fn text_style_spec(t: TextStyle) -> StyleSpec {
    match t {
        TextStyle::Raw => StyleSpec { fg: None, bg: None, bold: false, italic: false, underlined: false },
        TextStyle::Command => fg_bold(Color::Cyan),
        TextStyle::LevelDebug => fg_only(Color::Magenta),
        TextStyle::LevelInfo => fg_only(Color::Green),
        TextStyle::LevelWarning => fg_only(Color::Yellow),
        TextStyle::LevelError => fg_only(Color::Red),
        TextStyle::Package => fg_only(Color::Cyan),
        TextStyle::Exception => fg_bold(Color::Red),
        TextStyle::StackAt => fg_only(Color::DarkGray),
        TextStyle::StackClass => fg_only(Color::Cyan),
        TextStyle::StackMethod => fg_only(Color::Yellow),
        TextStyle::StackSource => fg_only(Color::DarkGray),
        TextStyle::XmlComment => fg_only(Color::DarkGray),
        TextStyle::XmlDeclaration => fg_only(Color::LightMagenta),
        TextStyle::XmlPunctuation => fg_only(Color::DarkGray),
        TextStyle::XmlTagName => fg_only(Color::LightBlue),
        TextStyle::XmlClosingTagName => fg_only(Color::LightRed),
        TextStyle::XmlAttributeName => fg_only(Color::LightYellow),
        TextStyle::XmlAttributeValue => fg_only(Color::LightGreen),
        TextStyle::SearchMatch => StyleSpec {
            fg: Some(Color::Black),
            bg: Some(Color::Yellow),
            bold: false,
            italic: false,
            underlined: false,
        },
        TextStyle::SearchCurrentMatch => StyleSpec {
            fg: Some(Color::White),
            bg: Some(Color::Red),
            bold: false,
            italic: false,
            underlined: false,
        },
    }
}

/// The style of a piece of a log, XML or search line.
pub fn style_for_text(t: TextStyle) -> (s: StyleSpec)
    ensures
        s == text_style_spec(t),
{
    match t {
        TextStyle::Raw => Theme::default_style(),
        TextStyle::Command => bold(Color::Cyan),
        TextStyle::LevelDebug => fg(Color::Magenta),
        TextStyle::LevelInfo => fg(Color::Green),
        TextStyle::LevelWarning => fg(Color::Yellow),
        TextStyle::LevelError => fg(Color::Red),
        TextStyle::Package => fg(Color::Cyan),
        TextStyle::Exception => bold(Color::Red),
        TextStyle::StackAt => fg(Color::DarkGray),
        TextStyle::StackClass => fg(Color::Cyan),
        TextStyle::StackMethod => fg(Color::Yellow),
        TextStyle::StackSource => fg(Color::DarkGray),
        TextStyle::XmlComment => fg(Color::DarkGray),
        TextStyle::XmlDeclaration => fg(Color::LightMagenta),
        TextStyle::XmlPunctuation => fg(Color::DarkGray),
        TextStyle::XmlTagName => fg(Color::LightBlue),
        TextStyle::XmlClosingTagName => fg(Color::LightRed),
        TextStyle::XmlAttributeName => fg(Color::LightYellow),
        TextStyle::XmlAttributeValue => fg(Color::LightGreen),
        TextStyle::SearchMatch => Theme::search_match_style(),
        TextStyle::SearchCurrentMatch => Theme::current_search_match_style(),
    }
}

/// The style of a list item.
pub fn style_for_item(i: ItemStyle) -> (s: StyleSpec)
    ensures
        s == match i {
            ItemStyle::Plain => StyleSpec {
                fg: None,
                bg: None,
                bold: false,
                italic: false,
                underlined: false,
            },
            ItemStyle::AutoProfile => fg_only(Color::Cyan),
            ItemStyle::Active => fg_bold(Color::Green),
            ItemStyle::Disabled => fg_only(Color::Red),
        },
{
    match i {
        ItemStyle::Plain => Theme::default_style(),
        ItemStyle::AutoProfile => Theme::auto_profile_style(),
        ItemStyle::Active => Theme::active_profile_style(),
        ItemStyle::Disabled => Theme::disabled_profile_style(),
    }
}

/// The style of a piece of the tab bar.
pub fn style_for_tab_piece(p: TabPieceStyle) -> (s: StyleSpec)
    ensures
        s == match p {
            TabPieceStyle::Active => fg_bold(Color::Green),
            TabPieceStyle::Dim => fg_only(Color::DarkGray),
            _ => StyleSpec { fg: None, bg: None, bold: false, italic: false, underlined: false },
        },
{
    match p {
        TabPieceStyle::Active => Theme::active_profile_style(),
        TabPieceStyle::Dim => Theme::dim_style(),
        _ => Theme::default_style(),
    }
}

} // verus!
