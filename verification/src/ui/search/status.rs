//! The search status line shown in the footer, as styled text spans.

use vstd::prelude::*;
use crate::strings::{decimal, usize_to_string};
use crate::ui::search::types::SearchState;

verus! {

/// Style of a span of the status line.
#[derive(Clone, Copy, Debug, PartialEq, Eq, Structural)]
pub enum SpanStyle {
    Plain,
    Info,
    Error,
}

/// A styled span of text.
pub type StyledSpan = (SpanStyle, String);

/// The texts of a sequence of spans.
pub open spec fn span_texts(v: Seq<StyledSpan>) -> Seq<(SpanStyle, Seq<char>)> {
    v.map_values(|p: StyledSpan| (p.0, p.1@))
}

fn span(style: SpanStyle, text: &str) -> (r: StyledSpan)
    ensures
        r.0 == style,
        r.1@ == text@,
{
    (style, String::from_str(text))
}

/// Position of the current match, counted from one, and the number of matches.
pub fn get_match_position(search: &SearchState) -> (r: (usize, usize))
    requires
        search.current < usize::MAX,
    ensures
        r.0 == search.current + 1,
        r.1 == search.matches@.len(),
{
    (search.current + 1, search.total_matches())
}

/// Spans of the prompt shown while the search buffer is empty.
pub open spec fn empty_prompt_spans() -> Seq<(SpanStyle, Seq<char>)> {
    seq![
        (SpanStyle::Info, "/"@),
        (SpanStyle::Plain, "_ (type to search, Enter to confirm, Esc to cancel)"@),
    ]
}

/// Spans of the prompt shown while typing with no search results yet.
pub open spec fn typing_prompt_spans(buffer: Seq<char>) -> Seq<(SpanStyle, Seq<char>)> {
    seq![
        (SpanStyle::Info, "/"@),
        (SpanStyle::Plain, buffer + "_ (type to search, Enter to confirm, Esc to cancel)"@),
    ]
}

/// Spans showing live results while typing.
pub open spec fn live_results_spans(buffer: Seq<char>, search: SearchState) -> Seq<
    (SpanStyle, Seq<char>),
> {
    if search.matches@.len() > 0 {
        seq![
            (SpanStyle::Info, "/"@),
            (
                SpanStyle::Plain,
                buffer + "_ - "@ + decimal((search.current + 1) as nat) + "/"@ + decimal(
                    search.matches@.len(),
                ) + " matches (Enter to confirm, Esc to cancel)"@,
            ),
        ]
    } else {
        seq![
            (SpanStyle::Info, "/"@),
            (SpanStyle::Plain, buffer + "_ - "@),
            (SpanStyle::Error, "no matches"@),
            (SpanStyle::Plain, " (Enter to confirm, Esc to cancel)"@),
        ]
    }
}

/// Spans of the search error line.
pub open spec fn error_spans(error: Seq<char>) -> Seq<(SpanStyle, Seq<char>)> {
    seq![
        (SpanStyle::Plain, "Search error: "@),
        (SpanStyle::Error, error),
        (SpanStyle::Plain, " (Esc to dismiss)"@),
    ]
}

/// Spans of the line shown after a search was confirmed.
pub open spec fn result_spans(search: SearchState) -> Seq<(SpanStyle, Seq<char>)> {
    if search.matches@.len() > 0 {
        seq![
            (SpanStyle::Info, "Search"@),
            (
                SpanStyle::Plain,
                " Match "@ + decimal((search.current + 1) as nat) + "/"@ + decimal(
                    search.matches@.len(),
                ) + "   /"@ + search.query@ + " (n/N/Enter to exit)"@,
            ),
        ]
    } else {
        seq![
            (SpanStyle::Info, "Search"@),
            (SpanStyle::Plain, " No matches   /"@ + search.query@ + " (Enter to exit)"@),
        ]
    }
}

/// Spans of the input line while typing a search.
pub open spec fn input_line_spans(buffer: Seq<char>, search: Option<SearchState>) -> Seq<
    (SpanStyle, Seq<char>),
> {
    if buffer.len() == 0 {
        empty_prompt_spans()
    } else {
        match search {
            Some(s) => live_results_spans(buffer, s),
            None => typing_prompt_spans(buffer),
        }
    }
}

/// The footer's search line: the input line while typing, else the error,
/// else the result of the confirmed search, else nothing.
pub open spec fn status_line_spans(
    input: Option<Seq<char>>,
    error: Option<Seq<char>>,
    search: Option<SearchState>,
) -> Option<Seq<(SpanStyle, Seq<char>)>> {
    match input {
        Some(b) => Some(input_line_spans(b, search)),
        None => match error {
            Some(e) => Some(error_spans(e)),
            None => match search {
                Some(s) => Some(result_spans(s)),
                None => None,
            },
        },
    }
}

/// Create empty search prompt
pub fn create_empty_search_prompt() -> (r: Vec<StyledSpan>)
    ensures
        span_texts(r@) == empty_prompt_spans(),
{
    let r = vec![
        span(SpanStyle::Info, "/"),
        span(SpanStyle::Plain, "_ (type to search, Enter to confirm, Esc to cancel)"),
    ];
    assert(span_texts(r@) =~= empty_prompt_spans());
    r
}

/// Create typing prompt
pub fn create_typing_prompt(buffer: &str) -> (r: Vec<StyledSpan>)
    ensures
        span_texts(r@) == typing_prompt_spans(buffer@),
{
    let mut text = String::from_str(buffer);
    text.append("_ (type to search, Enter to confirm, Esc to cancel)");
    let r = vec![span(SpanStyle::Info, "/"), (SpanStyle::Plain, text)];
    assert(span_texts(r@) =~= typing_prompt_spans(buffer@));
    r
}

/// Format live search results
pub fn format_live_search_results(buffer: &str, search: &SearchState) -> (r: Vec<StyledSpan>)
    requires
        search.current < usize::MAX,
    ensures
        span_texts(r@) == live_results_spans(buffer@, *search),
{
    if search.has_matches() {
        let (current, total) = get_match_position(search);
        let mut text = String::from_str(buffer);
        text.append("_ - ");
        text.append(usize_to_string(current).as_str());
        text.append("/");
        text.append(usize_to_string(total).as_str());
        text.append(" matches (Enter to confirm, Esc to cancel)");
        let r = vec![span(SpanStyle::Info, "/"), (SpanStyle::Plain, text)];
        assert(span_texts(r@) =~= live_results_spans(buffer@, *search));
        r
    } else {
        let mut text = String::from_str(buffer);
        text.append("_ - ");
        let r = vec![
            span(SpanStyle::Info, "/"),
            (SpanStyle::Plain, text),
            span(SpanStyle::Error, "no matches"),
            span(SpanStyle::Plain, " (Enter to confirm, Esc to cancel)"),
        ];
        assert(span_texts(r@) =~= live_results_spans(buffer@, *search));
        r
    }
}

/// Format search error line
pub fn format_search_error_line(error: &str) -> (r: Vec<StyledSpan>)
    ensures
        span_texts(r@) == error_spans(error@),
{
    let r = vec![
        span(SpanStyle::Plain, "Search error: "),
        span(SpanStyle::Error, error),
        span(SpanStyle::Plain, " (Esc to dismiss)"),
    ];
    assert(span_texts(r@) =~= error_spans(error@));
    r
}

/// Format search result line (after confirming search)
pub fn format_search_result_line(search: &SearchState) -> (r: Vec<StyledSpan>)
    requires
        search.current < usize::MAX,
    ensures
        span_texts(r@) == result_spans(*search),
{
    if search.has_matches() {
        let (current, total) = get_match_position(search);
        let mut text = String::from_str(" Match ");
        text.append(usize_to_string(current).as_str());
        text.append("/");
        text.append(usize_to_string(total).as_str());
        text.append("   /");
        text.append(search.query.as_str());
        text.append(" (n/N/Enter to exit)");
        let r = vec![span(SpanStyle::Info, "Search"), (SpanStyle::Plain, text)];
        assert(span_texts(r@) =~= result_spans(*search));
        r
    } else {
        let mut text = String::from_str(" No matches   /");
        text.append(search.query.as_str());
        text.append(" (Enter to exit)");
        let r = vec![span(SpanStyle::Info, "Search"), (SpanStyle::Plain, text)];
        assert(span_texts(r@) =~= result_spans(*search));
        r
    }
}

/// Format the search input line (during typing)
pub fn format_search_input_line(buffer: &str, search_state: Option<&SearchState>) -> (r: Vec<
    StyledSpan,
>)
    requires
        search_state matches Some(s) ==> s.current < usize::MAX,
    ensures
        span_texts(r@) == input_line_spans(
            buffer@,
            match search_state {
                Some(s) => Some(*s),
                None => None,
            },
        ),
{
    if buffer.is_empty() {
        return create_empty_search_prompt();
    }
    match search_state {
        Some(search) => format_live_search_results(buffer, search),
        None => create_typing_prompt(buffer),
    }
}

/// Generate search status line for the footer
pub fn search_status_line(
    search_input: Option<&str>,
    search_error: Option<&str>,
    search_state: Option<&SearchState>,
) -> (r: Option<Vec<StyledSpan>>)
    requires
        search_state matches Some(s) ==> s.current < usize::MAX,
    ensures
        match r {
            Some(v) => status_line_spans(
                match search_input {
                    Some(b) => Some(b@),
                    None => None,
                },
                match search_error {
                    Some(e) => Some(e@),
                    None => None,
                },
                match search_state {
                    Some(s) => Some(*s),
                    None => None,
                },
            ) == Some(span_texts(v@)),
            None => status_line_spans(
                match search_input {
                    Some(b) => Some(b@),
                    None => None,
                },
                match search_error {
                    Some(e) => Some(e@),
                    None => None,
                },
                match search_state {
                    Some(s) => Some(*s),
                    None => None,
                },
            ) is None,
        },
{
    if let Some(buffer) = search_input {
        return Some(format_search_input_line(buffer, search_state));
    }
    if let Some(error) = search_error {
        return Some(format_search_error_line(error));
    }
    match search_state {
        Some(s) => Some(format_search_result_line(s)),
        None => None,
    }
}

} // verus!
