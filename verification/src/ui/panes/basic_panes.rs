//! What the basic panes show: titles with counts and state, the labels of
//! list items, and the styled pieces of each output line.

use vstd::prelude::*;
use crate::strings::{
    chars_of, concat2, concat3, decimal, starts_with_chars, starts_with_seq, string_from_range,
    u64_to_string, usize_to_string,
};
use crate::ui::search::highlighter::{Highlight, MatchHighlight};
use crate::ui::state::types::{
    profile_active, BuildFlag, MavenProfile, ProfileLoadingStatus, ProfileState,
};
use crate::utils::loading::spinner_glyph;
use crate::utils::text::log_parser::{
    clean_log_line, colorize_log_line_with_format, colorized_log_line, display_text,
    package_chars,
};
use crate::utils::text::styled::{
    lemma_pieces_text_concat, lemma_pieces_text_small, pieces_text, push_styled, styled_texts,
    StyledText, TextStyle,
};
use crate::utils::text::width::{
    byte_offset, char_at_byte, char_index_at_byte, lemma_byte_offset_injective,
    lemma_byte_offset_strictly_increasing,
};
use crate::utils::text::xml_formatter::{colorize_xml_line, colorized_xml_line};

verus! {

/// How a list item is styled.
#[derive(Clone, Copy, Debug, PartialEq, Eq, Structural)]
pub enum ItemStyle {
    /// An ordinary item.
    Plain,
    /// A profile active by Maven's own rules.
    AutoProfile,
    /// An enabled profile or flag.
    Active,
    /// An explicitly disabled profile.
    Disabled,
}

/// Number of active profiles among the first `k`.
pub open spec fn active_count(ps: Seq<MavenProfile>, k: int) -> nat
    decreases k,
{
    if k <= 0 {
        0
    } else {
        active_count(ps, k - 1) + if profile_active(ps[k - 1].state, ps[k - 1].auto_activated) {
            1nat
        } else {
            0nat
        }
    }
}

/// Number of enabled flags among the first `k`.
pub open spec fn enabled_count(fs: Seq<BuildFlag>, k: int) -> nat
    decreases k,
{
    if k <= 0 {
        0
    } else {
        enabled_count(fs, k - 1) + if fs[k - 1].enabled {
            1nat
        } else {
            0nat
        }
    }
}

/// Title of the profiles pane: the spinner while loading, a mark on error,
/// and the number of active profiles once loaded (none shown for zero).
pub open spec fn profiles_title(
    status: ProfileLoadingStatus,
    profiles: Seq<MavenProfile>,
    spinner: Seq<char>,
) -> Seq<char> {
    match status {
        ProfileLoadingStatus::Loading => "[3] Profiles ("@ + spinner + " loading...)"@,
        ProfileLoadingStatus::Error(_) => "[3] Profiles (error)"@,
        ProfileLoadingStatus::Loaded => {
            let n = active_count(profiles, profiles.len() as int);
            if n == 0 {
                "[3] Profiles"@
            } else {
                "[3] Profiles ("@ + decimal(n) + ")"@
            }
        },
    }
}

/// Title of the flags pane, with the number of enabled flags (none shown
/// for zero).
pub open spec fn flags_title(flags: Seq<BuildFlag>) -> Seq<char> {
    let n = enabled_count(flags, flags.len() as int);
    if n == 0 {
        "[4] Build Flags"@
    } else {
        "[4] Build Flags ("@ + decimal(n) + ")"@
    }
}

/// Number of active profiles.
fn count_active(profiles: &[MavenProfile]) -> (n: usize)
    ensures
        n == active_count(profiles@, profiles@.len() as int),
{
    let mut n: usize = 0;
    let mut i: usize = 0;
    while i < profiles.len()
        invariant
            i <= profiles@.len(),
            n == active_count(profiles@, i as int),
            n <= i,
        decreases profiles.len() - i,
    {
        if profiles[i].is_active() {
            n += 1;
        }
        i += 1;
    }
    n
}

/// Number of enabled flags.
fn count_enabled(flags: &[BuildFlag]) -> (n: usize)
    ensures
        n == enabled_count(flags@, flags@.len() as int),
{
    let mut n: usize = 0;
    let mut i: usize = 0;
    while i < flags.len()
        invariant
            i <= flags@.len(),
            n == enabled_count(flags@, i as int),
            n <= i,
        decreases flags.len() - i,
    {
        if flags[i].enabled {
            n += 1;
        }
        i += 1;
    }
    n
}

/// Title of the profiles pane.
pub fn profiles_pane_title(
    status: &ProfileLoadingStatus,
    profiles: &[MavenProfile],
    spinner: &str,
) -> (r: String)
    ensures
        r@ == profiles_title(*status, profiles@, spinner@),
{
    match status {
        ProfileLoadingStatus::Loading => concat3("[3] Profiles (", spinner, " loading...)"),
        ProfileLoadingStatus::Error(_) => String::from_str("[3] Profiles (error)"),
        ProfileLoadingStatus::Loaded => {
            let n = count_active(profiles);
            if n == 0 {
                String::from_str("[3] Profiles")
            } else {
                concat3("[3] Profiles (", usize_to_string(n).as_str(), ")")
            }
        },
    }
}

/// Title of the flags pane.
pub fn flags_pane_title(flags: &[BuildFlag]) -> (r: String)
    ensures
        r@ == flags_title(flags@),
{
    let n = count_enabled(flags);
    if n == 0 {
        String::from_str("[4] Build Flags")
    } else {
        concat3("[4] Build Flags (", usize_to_string(n).as_str(), ")")
    }
}

/// The checkbox, suffix and style of a profile's list item: checked and
/// marked "(auto)" when active by Maven's rules, checked when enabled,
/// crossed and marked "(disabled)" when disabled, unchecked otherwise.
pub open spec fn profile_marks(state: ProfileState, auto_activated: bool) -> (Seq<char>, Seq<char>, ItemStyle) {
    match state {
        ProfileState::Default => if auto_activated {
            ("☑"@, " (auto)"@, ItemStyle::AutoProfile)
        } else {
            ("☐"@, ""@, ItemStyle::Plain)
        },
        ProfileState::ExplicitlyEnabled => ("☑"@, ""@, ItemStyle::Active),
        ProfileState::ExplicitlyDisabled => ("☒"@, " (disabled)"@, ItemStyle::Disabled),
    }
}

/// The label and style of a profile's list item: its checkbox, a space,
/// its name and its suffix.
pub fn profile_item(profile: &MavenProfile) -> (r: (String, ItemStyle))
    ensures
        ({
            let (checkbox, suffix, style) = profile_marks(profile.state, profile.auto_activated);
            r.0@ == checkbox + " "@ + profile.name@ + suffix && r.1 == style
        }),
{
    let (checkbox, suffix, style) = match profile.state {
        ProfileState::Default => if profile.auto_activated {
            ("☑", " (auto)", ItemStyle::AutoProfile)
        } else {
            ("☐", "", ItemStyle::Plain)
        },
        ProfileState::ExplicitlyEnabled => ("☑", "", ItemStyle::Active),
        ProfileState::ExplicitlyDisabled => ("☒", " (disabled)", ItemStyle::Disabled),
    };
    let head = concat2(checkbox, " ");
    (concat3(head.as_str(), profile.name.as_str(), suffix), style)
}

/// The label and style of a flag's list item: a checked box and the active
/// style when enabled, an unchecked box otherwise, then its name.
pub fn flag_item(flag: &BuildFlag) -> (r: (String, ItemStyle))
    ensures
        r.0@ == (if flag.enabled {
            "☑"@
        } else {
            "☐"@
        }) + " "@ + flag.name@,
        r.1 == (if flag.enabled {
            ItemStyle::Active
        } else {
            ItemStyle::Plain
        }),
{
    if flag.enabled {
        (concat3("☑", " ", flag.name.as_str()), ItemStyle::Active)
    } else {
        (concat3("☐", " ", flag.name.as_str()), ItemStyle::Plain)
    }
}

/// The name shown for a module: "(root project)" for `.`.
pub fn module_display_name(module: &str) -> (r: String)
    ensures
        r@ == (if module@ == "."@ {
            "(root project)"@
        } else {
            module@
        }),
{
    if crate::strings::str_equal(module, ".") {
        String::from_str("(root project)")
    } else {
        String::from_str(module)
    }
}

/// The pieces of the projects pane line: the project root, and when on a
/// branch a separator, an empty marker and the branch name (styled as a
/// branch).
pub fn project_line_pieces(project_root: &str, git_branch: Option<&str>) -> (r: Vec<(String, bool)>)
    ensures
        r@.len() == (if git_branch is Some {
            4int
        } else {
            1int
        }),
        r@[0].0@ == project_root@ && !r@[0].1,
        git_branch matches Some(b) ==> {
            &&& r@[1].0@ == "  "@ && !r@[1].1
            &&& r@[2].0@ == ""@ && r@[2].1
            &&& r@[3].0@ == " "@ + b@ && r@[3].1
        },
{
    let mut r: Vec<(String, bool)> = Vec::new();
    r.push((String::from_str(project_root), false));
    if let Some(branch) = git_branch {
        r.push((String::from_str("  "), false));
        r.push((String::from_str(""), true));
        r.push((concat2(" ", branch), true));
    }
    r
}

/// Texts joined with a separator.
pub open spec fn joined(parts: Seq<Seq<char>>, sep: Seq<char>) -> Seq<char>
    decreases parts.len(),
{
    if parts.len() == 0 {
        seq![]
    } else if parts.len() == 1 {
        parts[0]
    } else {
        joined(parts.drop_last(), sep) + sep + parts.last()
    }
}

/// Strings joined with a separator (`[String]::join`).
pub fn join_strings(parts: &[String], sep: &str) -> (r: String)
    ensures
        r@ == joined(parts@.map_values(|p: String| p@), sep@),
{
    let ghost all = parts@.map_values(|p: String| p@);
    let mut r = String::new();
    let mut k: usize = 0;
    assert(all.take(0) =~= Seq::<Seq<char>>::empty());
    while k < parts.len()
        invariant
            k <= parts@.len(),
            all == parts@.map_values(|p: String| p@),
            r@ == joined(all.take(k as int), sep@),
        decreases parts.len() - k,
    {
        if k > 0 {
            r.append(sep);
        }
        r.append(parts[k].as_str());
        proof {
            let taken = all.take(k + 1);
            assert(taken.drop_last() =~= all.take(k as int));
            assert(taken.last() == parts@[k as int]@);
            if k == 0 {
                assert(taken =~= seq![parts@[0]@]);
            }
        }
        k += 1;
    }
    assert(all.take(parts.len() as int) =~= all);
    r
}

/// The parts of the output title: the module, the command, then the
/// profiles and the flags (each list joined with ", ") when not empty.
pub open spec fn title_parts(module: Seq<char>, cmd: Seq<char>, profiles: Seq<Seq<char>>, flags: Seq<Seq<char>>) -> Seq<Seq<char>> {
    seq![module, cmd] + (if profiles.len() > 0 {
        seq![joined(profiles, ", "@)]
    } else {
        seq![]
    }) + (if flags.len() > 0 {
        seq![joined(flags, ", "@)]
    } else {
        seq![]
    })
}

/// Title of the output pane: the module with the command context (parts
/// joined with " • "), or the module alone, or "Output"; while a command
/// runs, followed by the spinner frame of the elapsed seconds and the
/// elapsed time.
pub open spec fn output_title(
    module: Option<Seq<char>>,
    context: Option<(Seq<char>, Seq<Seq<char>>, Seq<Seq<char>>)>,
    is_command_running: bool,
    elapsed_seconds: Option<u64>,
) -> Seq<char> {
    let base = match (module, context) {
        (Some(m), Some((cmd, profiles, flags))) => "[0] Output: "@ + joined(
            title_parts(m, cmd, profiles, flags),
            " • "@,
        ),
        (Some(m), None) => "[0] Output: "@ + m,
        (None, _) => "Output"@,
    };
    if is_command_running {
        let secs = match elapsed_seconds {
            Some(s) => s,
            None => 0u64,
        };
        base + " "@ + spinner_glyph((secs % 10) as usize) + " Running ("@ + decimal(secs as nat)
            + "s)"@
    } else {
        base
    }
}

/// The spinner frame with the given index, as text.
fn spinner_text(frame: usize) -> (r: &'static str)
    requires
        frame < 10,
    ensures
        r@ == spinner_glyph(frame),
{
    match frame {
        0 => "⠋",
        1 => "⠙",
        2 => "⠹",
        3 => "⠸",
        4 => "⠼",
        5 => "⠴",
        6 => "⠦",
        7 => "⠧",
        8 => "⠇",
        _ => "⠏",
    }
}

/// Title of the output pane.
pub fn output_pane_title(
    module_name: Option<&str>,
    output_context: Option<(String, Vec<String>, Vec<String>)>,
    is_command_running: bool,
    elapsed_seconds: Option<u64>,
) -> (r: String)
    ensures
        r@ == output_title(
            match module_name {
                Some(m) => Some(m@),
                None => None,
            },
            match output_context {
                Some((c, p, f)) => Some(
                    (c@, p@.map_values(|x: String| x@), f@.map_values(|x: String| x@)),
                ),
                None => None,
            },
            is_command_running,
            elapsed_seconds,
        ),
{
    let base = match (module_name, output_context) {
        (Some(module), Some((cmd, profiles, flags))) => {
            let mut parts: Vec<String> = Vec::new();
            parts.push(String::from_str(module));
            parts.push(cmd);
            if profiles.len() > 0 {
                parts.push(join_strings(profiles.as_slice(), ", "));
            }
            if flags.len() > 0 {
                parts.push(join_strings(flags.as_slice(), ", "));
            }
            proof {
                let ps = profiles@.map_values(|x: String| x@);
                let fs = flags@.map_values(|x: String| x@);
                assert(parts@.map_values(|x: String| x@) =~= title_parts(module@, cmd@, ps, fs));
            }
            concat2("[0] Output: ", join_strings(parts.as_slice(), " • ").as_str())
        },
        (Some(module), None) => concat2("[0] Output: ", module),
        (None, _) => String::from_str("Output"),
    };
    if is_command_running {
        let secs: u64 = match elapsed_seconds {
            Some(s) => s,
            None => 0,
        };
        let frame = (secs % 10) as usize;
        let head = concat3(base.as_str(), " ", spinner_text(frame));
        let tail = concat3(" Running (", u64_to_string(secs).as_str(), "s)");
        concat2(head.as_str(), tail.as_str())
    } else {
        base
    }
}

/// Whether the output shows a profile's XML: its first line starts with
/// "Profile:".
pub fn is_xml_output(command_output: &[String]) -> (b: bool)
    ensures
        b == (command_output@.len() > 0 && starts_with_seq(command_output@[0]@, "Profile:"@)),
{
    if command_output.len() == 0 {
        return false;
    }
    let first = chars_of(command_output[0].as_str());
    let prefix = chars_of("Profile:");
    starts_with_chars(&first, &prefix)
}

/// Number of bytes of the UTF-8 encoding of `text`.
pub open spec fn byte_len(text: Seq<char>) -> nat {
    byte_offset(text, text.len() as int)
}

/// Whether `offset` is a character boundary of `text`.
pub open spec fn is_boundary(text: Seq<char>, offset: usize) -> bool {
    exists|a: int| 0 <= a <= text.len() && byte_offset(text, a) == offset
}

/// The characters of `text` between two byte offsets.
pub open spec fn byte_slice(text: Seq<char>, from: usize, to: usize) -> Seq<char> {
    text.subrange(char_at_byte(text, from), char_at_byte(text, to))
}

/// Whether the highlights `hs[k..]` can be cut out of `text`, the text
/// before byte `last_end` having been emitted: a highlight that starts
/// after `last_end` starts on a character boundary, and one that ends
/// within the text is a range between character boundaries.
pub open spec fn highlights_fit(text: Seq<char>, hs: Seq<Highlight>, k: int, last_end: usize) -> bool
    decreases hs.len() - k,
{
    if k < 0 || k >= hs.len() {
        true
    } else {
        let range = hs[k].1;
        &&& range.start > last_end ==> is_boundary(text, range.start)
        &&& range.end <= byte_len(text) ==> range.start <= range.end && is_boundary(text, range.start)
            && is_boundary(text, range.end)
        &&& highlights_fit(
            text,
            hs,
            k + 1,
            if range.end <= byte_len(text) {
                range.end
            } else {
                last_end
            },
        )
    }
}

/// The style of a search highlight.
pub open spec fn highlight_style(h: MatchHighlight) -> TextStyle {
    match h {
        MatchHighlight::Current => TextStyle::SearchCurrentMatch,
        MatchHighlight::Other => TextStyle::SearchMatch,
    }
}

/// The pieces of `text` for the highlights `hs[k..]`, the text before byte
/// `last_end` having been emitted: raw text up to each highlight, the
/// highlight when it ends within the text, and the raw rest.
pub open spec fn highlight_pieces_from(text: Seq<char>, hs: Seq<Highlight>, k: int, last_end: usize) -> Seq<
    (TextStyle, Seq<char>),
>
    decreases hs.len() - k,
{
    if k < 0 || k >= hs.len() {
        if last_end < byte_len(text) {
            seq![(TextStyle::Raw, byte_slice(text, last_end, byte_len(text) as usize))]
        } else {
            seq![]
        }
    } else {
        let (h, range) = hs[k];
        let raw = if range.start > last_end {
            seq![(TextStyle::Raw, byte_slice(text, last_end, range.start))]
        } else {
            seq![]
        };
        if range.end <= byte_len(text) {
            raw + seq![(highlight_style(h), byte_slice(text, range.start, range.end))]
                + highlight_pieces_from(text, hs, k + 1, range.end)
        } else {
            raw + highlight_pieces_from(text, hs, k + 1, last_end)
        }
    }
}

/// The character position of a boundary has that byte offset, and
/// positions follow the order of the boundaries.
proof fn lemma_boundary_order(text: Seq<char>, x: usize, y: usize)
    requires
        is_boundary(text, x),
        is_boundary(text, y),
        x <= y,
    ensures
        0 <= char_at_byte(text, x) <= char_at_byte(text, y) <= text.len(),
        byte_offset(text, char_at_byte(text, x)) == x,
        byte_offset(text, char_at_byte(text, y)) == y,
{
    let a = char_at_byte(text, x);
    let b = char_at_byte(text, y);
    if b < a {
        lemma_byte_offset_strictly_increasing(text, b, a);
    }
}

/// Whether the highlights `hs[k..]` are in order, do not overlap, begin at
/// or after byte `last_end` and lie between character boundaries within the
/// text.
pub open spec fn highlights_in_order(text: Seq<char>, hs: Seq<Highlight>, k: int, last_end: usize) -> bool
    decreases hs.len() - k,
{
    if k < 0 || k >= hs.len() {
        true
    } else {
        let range = hs[k].1;
        &&& last_end <= range.start <= range.end <= byte_len(text)
        &&& is_boundary(text, range.start)
        &&& is_boundary(text, range.end)
        &&& highlights_in_order(text, hs, k + 1, range.end)
    }
}

/// Highlighting keeps the text: when the highlights are in order and within
/// the text, the pieces put together give back the text from `last_end` on.
pub proof fn lemma_highlight_pieces_keep_text(text: Seq<char>, hs: Seq<Highlight>, k: int, last_end: usize)
    requires
        0 <= k,
        byte_len(text) <= usize::MAX,
        is_boundary(text, last_end),
        highlights_in_order(text, hs, k, last_end),
    ensures
        pieces_text(highlight_pieces_from(text, hs, k, last_end)) == byte_slice(
            text,
            last_end,
            byte_len(text) as usize,
        ),
    decreases hs.len() - k,
{
    let len = byte_len(text) as usize;
    assert(byte_offset(text, text.len() as int) == len);
    assert(is_boundary(text, len));
    let a0 = char_at_byte(text, last_end);
    if a0 < text.len() {
        lemma_byte_offset_strictly_increasing(text, a0, text.len() as int);
    }
    lemma_boundary_order(text, last_end, len);
    lemma_byte_offset_injective(text, char_at_byte(text, len), text.len() as int);
    if k >= hs.len() {
        lemma_pieces_text_small((TextStyle::Raw, byte_slice(text, last_end, len)));
        if last_end >= len {
            assert(a0 == text.len()) by {
                lemma_byte_offset_injective(text, a0, text.len() as int);
            }
            assert(byte_slice(text, last_end, len) =~= Seq::<char>::empty());
        }
    } else {
        let (h, range) = hs[k];
        lemma_boundary_order(text, last_end, range.start);
        lemma_boundary_order(text, range.start, range.end);
        lemma_boundary_order(text, range.end, len);
        let a = char_at_byte(text, range.start);
        let b = char_at_byte(text, range.end);
        lemma_highlight_pieces_keep_text(text, hs, k + 1, range.end);
        let raw: Seq<(TextStyle, Seq<char>)> = if range.start > last_end {
            seq![(TextStyle::Raw, byte_slice(text, last_end, range.start))]
        } else {
            seq![]
        };
        let mid: Seq<(TextStyle, Seq<char>)> = seq![(highlight_style(h), byte_slice(text, range.start, range.end))];
        let rest = highlight_pieces_from(text, hs, k + 1, range.end);
        lemma_pieces_text_small((TextStyle::Raw, byte_slice(text, last_end, range.start)));
        lemma_pieces_text_small((highlight_style(h), byte_slice(text, range.start, range.end)));
        lemma_pieces_text_concat(raw, mid);
        lemma_pieces_text_concat(raw + mid, rest);
        if range.start <= last_end {
            assert(a == a0) by {
                lemma_byte_offset_injective(text, a, a0);
            }
        }
        assert(pieces_text(raw) =~= text.subrange(a0, a));
        assert(text.subrange(a0, a) + text.subrange(a, b) + text.subrange(b, text.len() as int)
            =~= text.subrange(a0, text.len() as int));
    }
}

/// Highlighting the displayed text of a line keeps that text, when the
/// highlights are in order and within it.
pub proof fn lemma_highlighting_keeps_line(text: Seq<char>, hs: Seq<Highlight>)
    requires
        byte_len(text) <= usize::MAX,
        highlights_in_order(text, hs, 0, 0),
    ensures
        pieces_text(highlight_pieces_from(text, hs, 0, 0)) == text,
{
    assert(byte_offset(text, 0) == 0);
    assert(is_boundary(text, 0));
    lemma_highlight_pieces_keep_text(text, hs, 0, 0);
    let len = byte_len(text) as usize;
    assert(byte_offset(text, text.len() as int) == len);
    assert(is_boundary(text, len));
    lemma_boundary_order(text, 0, len);
    lemma_byte_offset_injective(text, char_at_byte(text, 0), 0);
    lemma_byte_offset_injective(text, char_at_byte(text, len), text.len() as int);
    assert(text.subrange(0, text.len() as int) =~= text);
}

/// The style of a search highlight.
fn style_of_highlight(h: MatchHighlight) -> (s: TextStyle)
    ensures
        s == highlight_style(h),
{
    match h {
        MatchHighlight::Current => TextStyle::SearchCurrentMatch,
        MatchHighlight::Other => TextStyle::SearchMatch,
    }
}

/// Number of bytes of the UTF-8 encoding of the characters `text`.
pub fn utf8_byte_len(text: &Vec<char>) -> (n: usize)
    requires
        byte_len(text@) <= usize::MAX,
    ensures
        n == byte_len(text@),
{
    let mut n: usize = 0;
    let mut k: usize = 0;
    while k < text.len()
        invariant
            k <= text@.len(),
            n == byte_offset(text@, k as int),
            byte_len(text@) <= usize::MAX,
        decreases text.len() - k,
    {
        proof {
            if k + 1 < text@.len() {
                crate::utils::text::width::lemma_byte_offset_strictly_increasing(
                    text@,
                    k + 1,
                    text@.len() as int,
                );
            }
        }
        n = n + crate::utils::text::width::char_utf8_len(text[k]);
        k += 1;
    }
    n
}

/// Cuts `text` into raw pieces and highlighted pieces: raw text up to each
/// highlight, the highlight when it ends within the text, and the raw rest.
pub fn highlight_pieces(text: &str, highlights: &Vec<Highlight>) -> (r: Vec<StyledText>)
    requires
        byte_len(text@) <= usize::MAX,
        highlights_fit(text@, highlights@, 0, 0),
    ensures
        styled_texts(r@) == highlight_pieces_from(text@, highlights@, 0, 0),
{
    let cs = chars_of(text);
    let len = utf8_byte_len(&cs);
    let mut spans: Vec<StyledText> = Vec::new();
    let mut last_end: usize = 0;
    let mut last_char: usize = 0;
    let mut k: usize = 0;
    assert(styled_texts(spans@) =~= Seq::<(TextStyle, Seq<char>)>::empty());
    proof {
        assert(byte_offset(text@, 0) == 0);
        assert(is_boundary(text@, 0));
        lemma_byte_offset_injective(text@, char_at_byte(text@, 0), 0);
    }
    while k < highlights.len()
        invariant
            k <= highlights@.len(),
            cs@ == text@,
            len == byte_len(text@),
            last_char <= cs@.len(),
            byte_offset(text@, last_char as int) == last_end,
            last_char == char_at_byte(text@, last_end),
            highlights_fit(text@, highlights@, k as int, last_end),
            styled_texts(spans@) + highlight_pieces_from(text@, highlights@, k as int, last_end)
                == highlight_pieces_from(text@, highlights@, 0, 0),
        decreases highlights.len() - k,
    {
        let h = highlights[k].0;
        let start = highlights[k].1.start;
        let end = highlights[k].1.end;
        if start > last_end {
            let a = char_index_at_byte(&cs, start);
            proof {
                if a < last_char {
                    crate::utils::text::width::lemma_byte_offset_strictly_increasing(
                        text@,
                        a as int,
                        last_char as int,
                    );
                }
            }
            push_styled(&mut spans, TextStyle::Raw, string_from_range(&cs, last_char, a));
        }
        if end <= len {
            let a = char_index_at_byte(&cs, start);
            let b = char_index_at_byte(&cs, end);
            proof {
                if b < a {
                    crate::utils::text::width::lemma_byte_offset_strictly_increasing(
                        text@,
                        b as int,
                        a as int,
                    );
                }
            }
            push_styled(&mut spans, style_of_highlight(h), string_from_range(&cs, a, b));
            last_end = end;
            last_char = b;
        }
        k += 1;
    }
    if last_end < len {
        proof {
            lemma_byte_offset_injective(text@, char_at_byte(text@, len), cs@.len() as int);
            if cs@.len() < last_char {
                crate::utils::text::width::lemma_byte_offset_strictly_increasing(
                    text@,
                    cs@.len() as int,
                    last_char as int,
                );
            }
        }
        push_styled(&mut spans, TextStyle::Raw, string_from_range(&cs, last_char, cs.len()));
    }
    spans
}

/// The styled pieces of output line `line_index`: with a search active, its
/// cleaned text cut by the line's search highlights (or whole without
/// any); for a profile's XML, past the three header lines, the raw line
/// coloured as XML; otherwise the cleaned line coloured as a log line.
pub open spec fn output_line_spec(
    line: Seq<char>,
    line_index: usize,
    is_search_active: bool,
    highlights: Option<Seq<Highlight>>,
    is_xml_mode: bool,
    has_log_format: bool,
) -> Seq<(TextStyle, Seq<char>)> {
    if is_search_active {
        let cleaned = display_text(line);
        match highlights {
            Some(hs) => highlight_pieces_from(cleaned, hs, 0, 0),
            None => seq![(TextStyle::Raw, cleaned)],
        }
    } else if is_xml_mode && line_index >= 3 {
        colorized_xml_line(line)
    } else {
        let cleaned = display_text(line);
        colorized_log_line(
            cleaned,
            if has_log_format {
                package_chars(cleaned)
            } else {
                None
            },
        )
    }
}

/// The styled pieces of one output line.
pub fn output_line_pieces(
    line: &str,
    line_index: usize,
    is_search_active: bool,
    highlights: Option<Vec<Highlight>>,
    is_xml_mode: bool,
    log_format: Option<&str>,
) -> (r: Vec<StyledText>)
    requires
        is_search_active ==> byte_len(display_text(line@)) <= usize::MAX,
        is_search_active && highlights is Some ==> highlights_fit(
            display_text(line@),
            highlights->0@,
            0,
            0,
        ),
    ensures
        styled_texts(r@) == output_line_spec(
            line@,
            line_index,
            is_search_active,
            match highlights {
                Some(hs) => Some(hs@),
                None => None,
            },
            is_xml_mode,
            log_format is Some,
        ),
{
    if is_search_active {
        let cleaned = match clean_log_line(line) {
            Some(c) => c,
            None => String::new(),
        };
        match highlights {
            Some(hs) => highlight_pieces(cleaned.as_str(), &hs),
            None => {
                let mut spans: Vec<StyledText> = Vec::new();
                push_styled(&mut spans, TextStyle::Raw, cleaned);
                assert(styled_texts(Seq::<StyledText>::empty()) =~= Seq::<(TextStyle, Seq<char>)>::empty());
                spans
            },
        }
    } else if is_xml_mode && line_index >= 3 {
        colorize_xml_line(line)
    } else {
        let cleaned = match clean_log_line(line) {
            Some(c) => c,
            None => String::new(),
        };
        colorize_log_line_with_format(cleaned.as_str(), log_format)
    }
}

} // verus!
