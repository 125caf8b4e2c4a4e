//! Output display helpers: wrapping metrics, scroll clamping and clipboard
//! status messages.

use vstd::prelude::*;
use crate::strings::{concat2, concat3, decimal, usize_to_string};
use crate::ui::panes::basic_panes::{join_strings, joined};
use crate::ui::state::types::{metrics_fit, OutputMetrics};

verus! {

/// Calculate output metrics for text wrapping: none for an empty view or no
/// output, and none when the metrics would not fit in machine integers.
pub fn calculate_output_metrics(width: u16, lines: &[String]) -> (r: Option<OutputMetrics>)
    ensures
        (width == 0 || lines@.len() == 0) ==> r is None,
        (width > 0 && lines@.len() > 0) ==> (r is Some <==> metrics_fit(width as usize, lines@)),
        r matches Some(m) ==> m.describes(width as usize, lines@),
{
    if width == 0 || lines.len() == 0 {
        None
    } else {
        OutputMetrics::checked_new(width as usize, lines)
    }
}

/// `v` limited to the range `lo..=hi`.
pub open spec fn clamp_int(v: int, lo: int, hi: int) -> int {
    if v < lo {
        lo
    } else if v > hi {
        hi
    } else {
        v
    }
}

/// Calculate clamped scroll position: `current + delta`, kept within `0..=max`.
pub fn calculate_clamped_scroll(current: usize, delta: isize, max: usize) -> (r: usize)
    requires
        current <= isize::MAX,
        max <= isize::MAX,
        isize::MIN <= current + delta <= isize::MAX,
    ensures
        r == clamp_int(current + delta, 0, max as int),
{
    let current_i = current as isize;
    let moved = current_i + delta;
    let max_i = max as isize;
    if moved < 0 {
        0
    } else if moved > max_i {
        max
    } else {
        moved as usize
    }
}

/// Format success message for clipboard operation
pub fn format_clipboard_success(line_count: usize) -> (s: String)
    ensures
        s@ == "✓ Copied "@ + decimal(line_count as nat) + " lines to clipboard"@,
{
    let n = usize_to_string(line_count);
    concat3("✓ Copied ", n.as_str(), " lines to clipboard")
}

/// Format error message for clipboard operation
pub fn format_clipboard_error(error: &str) -> (s: String)
    ensures
        s@ == "✗ Failed to copy: "@ + error@,
{
    concat2("✗ Failed to copy: ", error)
}

/// Scrolling by `delta` and back by `-delta` returns to the start when the
/// first move stayed within the range.
pub proof fn lemma_scroll_round_trip(current: int, delta: int, max: int)
    requires
        0 <= current <= max,
        0 <= current + delta <= max,
    ensures
        clamp_int(clamp_int(current + delta, 0, max) - delta, 0, max) == current,
{
}

/// Scrolling always ends within `0..=max`.
pub proof fn lemma_scroll_in_range(v: int, max: int)
    requires
        0 <= max,
    ensures
        0 <= clamp_int(v, 0, max) <= max,
{
}

/// The furthest the output can be scrolled: all rows but one view's worth,
/// none for a view without height.
pub fn max_scroll_offset(view_height: u16, total_rows: usize) -> (r: usize)
    ensures
        r == (if view_height == 0 || total_rows <= view_height {
            0
        } else {
            total_rows - view_height
        }),
{
    let height = view_height as usize;
    if height == 0 {
        return 0;
    }
    total_rows.saturating_sub(height)
}

/// Rows the output takes: as measured by the metrics when there are any,
/// else one per line.
pub fn total_display_rows(metrics: Option<&OutputMetrics>, line_count: usize) -> (r: usize)
    ensures
        r == match metrics {
            Some(m) => m.total_rows_of(),
            None => line_count,
        },
{
    match metrics {
        Some(m) => m.total_rows(),
        None => line_count,
    }
}

/// Lines moved by scrolling `delta` pages of a view of `view_height` rows
/// (a view counts as at least one row).
pub fn page_scroll_delta(delta: isize, view_height: u16) -> (r: isize)
    requires
        isize::MIN <= delta * (if view_height == 0 {
            1
        } else {
            view_height as int
        }) <= isize::MAX,
    ensures
        r == delta * (if view_height == 0 {
            1
        } else {
            view_height as int
        }),
{
    let page: isize = if view_height == 0 {
        1
    } else {
        view_height as isize
    };
    delta * page
}

/// The text copied to the clipboard for some output: its lines joined with
/// newlines, with the number of lines; nothing for empty output.
pub fn clipboard_payload(command_output: &[String]) -> (r: Option<(String, usize)>)
    ensures
        command_output@.len() == 0 ==> r is None,
        command_output@.len() > 0 ==> (r matches Some((text, n)) && text@ == joined(
            command_output@.map_values(|l: String| l@),
            "\n"@,
        ) && n == command_output@.len()),
{
    if command_output.len() == 0 {
        return None;
    }
    Some((join_strings(command_output, "\n"), command_output.len()))
}

/// The notice shown when there is no output to copy.
pub fn no_output_notice() -> (r: Vec<String>)
    ensures
        r@.len() == 2,
        r@[0]@.len() == 0,
        r@[1]@ == "⚠ No output to copy"@,
{
    let mut r: Vec<String> = Vec::new();
    r.push(String::new());
    r.push(String::from_str("⚠ No output to copy"));
    r
}

/// How an attempt to copy the output to the clipboard ended.
pub enum ClipboardOutcome {
    /// The text was copied.
    Copied,
    /// No clipboard could be opened, for this reason.
    Unavailable(String),
    /// The clipboard refused the text, for this reason.
    Failed(String),
}

/// The lines added to the output after copying `line_count` lines ended
/// with `outcome`: an empty line, then the success or error message.
pub fn yank_notice(outcome: ClipboardOutcome, line_count: usize) -> (r: Vec<String>)
    ensures
        r@.len() == 2,
        r@[0]@.len() == 0,
        r@[1]@ == match outcome {
            ClipboardOutcome::Copied => "✓ Copied "@ + decimal(line_count as nat) + " lines to clipboard"@,
            ClipboardOutcome::Unavailable(e) => "✗ Clipboard not available: "@ + e@,
            ClipboardOutcome::Failed(e) => "✗ Failed to copy: "@ + e@,
        },
{
    let message = match outcome {
        ClipboardOutcome::Copied => format_clipboard_success(line_count),
        ClipboardOutcome::Unavailable(e) => concat2("✗ Clipboard not available: ", e.as_str()),
        ClipboardOutcome::Failed(e) => format_clipboard_error(e.as_str()),
    };
    let mut r: Vec<String> = Vec::new();
    r.push(String::new());
    r.push(message);
    r
}

/// The offset kept within `0..=max_offset`.
pub fn clamp_output_offset(offset: usize, max_offset: usize) -> (r: usize)
    ensures
        r == (if offset <= max_offset { offset } else { max_offset }),
{
    if offset <= max_offset {
        offset
    } else {
        max_offset
    }
}

/// Scrolling the output by `delta` lines from `offset`, `max_offset` being
/// the furthest it can go: nothing happens without output; otherwise the
/// offset moves, kept within `0..=max_offset`. Also whether the module's
/// output is to be stored again: when the offset moved.
pub fn scroll_output_lines(offset: usize, delta: isize, has_output: bool, max_offset: usize) -> (r: (usize, bool))
    requires
        offset <= isize::MAX,
        max_offset <= isize::MAX,
        isize::MIN <= offset + delta <= isize::MAX,
    ensures
        !has_output ==> r == (offset, false),
        has_output ==> r.0 == clamp_int(offset + delta, 0, max_offset as int) && r.1 == (r.0 != offset),
{
    if !has_output {
        return (offset, false);
    }
    let next = calculate_clamped_scroll(offset, delta, max_offset);
    (next, next != offset)
}

/// Scrolling the output to its start: nothing happens without output;
/// otherwise the offset becomes 0 and the module's output is stored again.
pub fn scroll_output_to_start(offset: usize, has_output: bool) -> (r: (usize, bool))
    ensures
        r == (if has_output { (0usize, true) } else { (offset, false) }),
{
    if has_output {
        (0, true)
    } else {
        (offset, false)
    }
}

/// Scrolling the output to its end: the offset becomes the furthest one
/// and the module's output is stored again.
pub fn scroll_output_to_end(max_offset: usize) -> (r: (usize, bool))
    ensures
        r == (max_offset, true),
{
    (max_offset, true)
}

} // verus!
