//! Finding the matches of a search expression in command output.

use vstd::prelude::*;
use crate::ui::search::types::SearchMatch;
use crate::utils::text::log_parser::{clean_log_line, display_text};
use crate::utils::text::regex_find::{regex_all_matches, regex_find_all, CompiledRegex};

verus! {

/// The matches of `pattern` in one line, numbered `line_index`: each match
/// of the expression in the line's displayed (cleaned) text, in order.
pub open spec fn line_matches(pattern: Seq<char>, line: Seq<char>, line_index: usize) -> Seq<
    SearchMatch,
> {
    regex_all_matches(pattern, display_text(line)).map_values(
        |r: (usize, usize)| SearchMatch { line_index, start: r.0, end: r.1 },
    )
}

/// The matches of `pattern` in the first `k` lines of `lines`, line by line.
pub open spec fn output_matches(pattern: Seq<char>, lines: Seq<String>, k: int) -> Seq<SearchMatch>
    decreases k,
{
    if k <= 0 {
        seq![]
    } else {
        output_matches(pattern, lines, k - 1) + line_matches(
            pattern,
            lines[k - 1]@,
            (k - 1) as usize,
        )
    }
}

/// The matches found in a line are, one for one and in order, the matches
/// of the expression in the line's displayed text (the line cleaned of
/// control sequences, carriage returns and trailing whitespace), not in
/// the raw line; each carries the line's index.
pub proof fn lemma_line_matches_are_display_matches(pattern: Seq<char>, line: Seq<char>, line_index: usize)
    ensures
        line_matches(pattern, line, line_index).len() == regex_all_matches(pattern, display_text(line)).len(),
        forall|q: int|
            0 <= q < line_matches(pattern, line, line_index).len() ==> {
                let m = #[trigger] line_matches(pattern, line, line_index)[q];
                &&& m.line_index == line_index
                &&& m.start == regex_all_matches(pattern, display_text(line))[q].0
                &&& m.end == regex_all_matches(pattern, display_text(line))[q].1
            },
{
}

/// Every match collected from the first `k` output lines is a match of the
/// expression in the displayed text of the line it names, and every match
/// of the expression in the displayed text of one of those lines is
/// collected.
pub proof fn lemma_output_matches_are_display_matches(pattern: Seq<char>, lines: Seq<String>, k: int)
    requires
        0 <= k <= lines.len(),
        lines.len() <= usize::MAX,
    ensures
        forall|j: int|
            0 <= j < output_matches(pattern, lines, k).len() ==> {
                let m = #[trigger] output_matches(pattern, lines, k)[j];
                &&& m.line_index < k
                &&& regex_all_matches(pattern, display_text(lines[m.line_index as int]@)).contains(
                    (m.start, m.end),
                )
            },
        forall|i: int, q: int|
            0 <= i < k && 0 <= q < regex_all_matches(pattern, display_text(lines[i]@)).len()
                ==> output_matches(pattern, lines, k).contains(
                SearchMatch {
                    line_index: i as usize,
                    start: #[trigger] regex_all_matches(pattern, display_text(lines[i]@))[q].0,
                    end: regex_all_matches(pattern, display_text(lines[i]@))[q].1,
                },
            ),
    decreases k,
{
    if k > 0 {
        lemma_output_matches_are_display_matches(pattern, lines, k - 1);
        let a = output_matches(pattern, lines, k - 1);
        let li = (k - 1) as usize;
        let b = line_matches(pattern, lines[k - 1]@, li);
        let all = regex_all_matches(pattern, display_text(lines[k - 1]@));
        lemma_line_matches_are_display_matches(pattern, lines[k - 1]@, li);
        assert(output_matches(pattern, lines, k) == a + b);
        assert forall|j: int| 0 <= j < (a + b).len() implies {
            let m = #[trigger] (a + b)[j];
            &&& m.line_index < k
            &&& regex_all_matches(pattern, display_text(lines[m.line_index as int]@)).contains(
                (m.start, m.end),
            )
        } by {
            if j < a.len() {
                assert((a + b)[j] == a[j]);
            } else {
                let q = j - a.len();
                assert((a + b)[j] == b[q]);
                assert(b[q].line_index == li);
                assert(all[q] == (b[q].start, b[q].end));
            }
        }
        assert forall|i: int, q: int|
            0 <= i < k && 0 <= q < regex_all_matches(pattern, display_text(lines[i]@)).len()
                implies (a + b).contains(
            SearchMatch {
                line_index: i as usize,
                start: #[trigger] regex_all_matches(pattern, display_text(lines[i]@))[q].0,
                end: regex_all_matches(pattern, display_text(lines[i]@))[q].1,
            },
        ) by {
            let sm = SearchMatch {
                line_index: i as usize,
                start: regex_all_matches(pattern, display_text(lines[i]@))[q].0,
                end: regex_all_matches(pattern, display_text(lines[i]@))[q].1,
            };
            if i < k - 1 {
                let w = choose|x: int| 0 <= x < a.len() && a[x] == sm;
                assert((a + b)[w] == sm);
            } else {
                assert(b[q] == sm);
                assert((a + b)[a.len() + q] == sm);
            }
        }
    }
}

/// Collect search matches from command output using a regex
pub fn collect_search_matches(command_output: &[String], regex: &CompiledRegex) -> (r: Vec<
    SearchMatch,
>)
    ensures
        r@ == output_matches(regex.pattern_of(), command_output@, command_output@.len() as int),
{
    let mut r: Vec<SearchMatch> = Vec::new();
    let mut i: usize = 0;
    while i < command_output.len()
        invariant
            i <= command_output@.len(),
            r@ == output_matches(regex.pattern_of(), command_output@, i as int),
        decreases command_output.len() - i,
    {
        let mut found = find_matches_in_line(command_output[i].as_str(), i, regex);
        r.append(&mut found);
        i += 1;
    }
    r
}

/// Find all matches in a single line
pub fn find_matches_in_line(line: &str, line_index: usize, regex: &CompiledRegex) -> (r: Vec<
    SearchMatch,
>)
    ensures
        r@ == line_matches(regex.pattern_of(), line@, line_index),
{
    let cleaned = match clean_log_line(line) {
        Some(t) => t,
        None => String::new(),
    };
    let spans = regex_find_all(regex, cleaned.as_str());
    let mut r: Vec<SearchMatch> = Vec::new();
    let mut k: usize = 0;
    while k < spans.len()
        invariant
            k <= spans.len(),
            spans@ == regex_all_matches(regex.pattern_of(), display_text(line@)),
            r@ == spans@.take(k as int).map_values(
                |s: (usize, usize)| SearchMatch { line_index, start: s.0, end: s.1 },
            ),
        decreases spans.len() - k,
    {
        let (start, end) = spans[k];
        r.push(create_search_match(line_index, start, end));
        k += 1;
        assert(spans@.take(k as int).drop_last() == spans@.take(k - 1));
    }
    assert(spans@.take(spans.len() as int) == spans@);
    r
}

/// Create a search match
pub fn create_search_match(line_index: usize, start: usize, end: usize) -> (m: SearchMatch)
    ensures
        m == (SearchMatch { line_index, start, end }),
{
    SearchMatch { line_index, start, end }
}

} // verus!
