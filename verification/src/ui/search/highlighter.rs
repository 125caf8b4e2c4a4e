//! Which byte ranges of an output line to highlight for a search, and how.

use vstd::prelude::*;
use std::ops::Range;
use crate::ui::search::types::{SearchMatch, SearchState};

verus! {

/// How a match is highlighted: the current match stands out from the others.
#[derive(Clone, Copy, Debug, PartialEq, Eq, Structural)]
pub enum MatchHighlight {
    Current,
    Other,
}

/// A highlighted byte range of a line.
pub type Highlight = (MatchHighlight, Range<usize>);

/// Highlight of the match numbered `match_idx` when `current_match` is current.
pub open spec fn highlight_kind(match_idx: int, current_match: int) -> MatchHighlight {
    if match_idx == current_match {
        MatchHighlight::Current
    } else {
        MatchHighlight::Other
    }
}

/// Highlights for line `line_index` from the first `k` matches, in match order.
pub open spec fn line_highlights(matches: Seq<SearchMatch>, current: usize, line_index: usize, k: int) -> Seq<
    Highlight,
>
    decreases k,
{
    if k <= 0 {
        seq![]
    } else {
        line_highlights(matches, current, line_index, k - 1) + if matches[k - 1].line_index
            == line_index {
            seq![
                (
                    highlight_kind(k - 1, current as int),
                    Range { start: matches[k - 1].start, end: matches[k - 1].end },
                ),
            ]
        } else {
            seq![]
        }
    }
}

/// The highlights of `s` whose range starts at byte `k`, in order.
pub open spec fn starting_at(s: Seq<Highlight>, k: usize) -> Seq<Highlight>
    decreases s.len(),
{
    if s.len() == 0 {
        s
    } else {
        starting_at(s.drop_last(), k) + if s.last().1.start == k {
            seq![s.last()]
        } else {
            seq![]
        }
    }
}

/// Ranges start in non-decreasing order.
pub open spec fn sorted_by_start(s: Seq<Highlight>) -> bool {
    forall|i: int, j: int| 0 <= i < j < s.len() ==> s[i].1.start <= s[j].1.start
}

/// `out` is `input` sorted by range start, highlights with the same start
/// keeping their order (a stable sort).
pub open spec fn stable_sorted_by_start(input: Seq<Highlight>, out: Seq<Highlight>) -> bool {
    &&& sorted_by_start(out)
    &&& forall|k: usize| #[trigger] starting_at(out, k) == starting_at(input, k)
}

pub proof fn lemma_starting_at_add(a: Seq<Highlight>, b: Seq<Highlight>, k: usize)
    ensures
        starting_at(a + b, k) == starting_at(a, k) + starting_at(b, k),
    decreases b.len(),
{
    if b.len() == 0 {
        assert(a + b == a);
    } else {
        assert((a + b).drop_last() == a + b.drop_last());
        lemma_starting_at_add(a, b.drop_last(), k);
    }
}

pub proof fn lemma_starting_at_single(x: Highlight, k: usize)
    ensures
        starting_at(seq![x], k) == (if x.1.start == k {
            seq![x]
        } else {
            Seq::<Highlight>::empty()
        }),
{
    let e = Seq::<Highlight>::empty();
    assert(seq![x].drop_last() == e);
    assert(seq![x].last() == x);
    assert(starting_at(e, k) == e);
    assert(e + seq![x] == seq![x]);
    assert(e + e == e);
}

pub proof fn lemma_starting_at_none(s: Seq<Highlight>, k: usize)
    requires
        forall|i: int| 0 <= i < s.len() ==> s[i].1.start != k,
    ensures
        starting_at(s, k) == Seq::<Highlight>::empty(),
    decreases s.len(),
{
    if s.len() > 0 {
        lemma_starting_at_none(s.drop_last(), k);
    }
}

/// Select highlight style based on whether it's the current match
pub fn select_highlight_style(match_idx: usize, current_match: usize) -> (h: MatchHighlight)
    ensures
        h == highlight_kind(match_idx as int, current_match as int),
{
    if match_idx == current_match {
        MatchHighlight::Current
    } else {
        MatchHighlight::Other
    }
}

/// Create a highlight with appropriate style
fn create_highlight(match_idx: usize, search_match: &SearchMatch, current_match: usize) -> (h:
    Highlight)
    ensures
        h == (
            highlight_kind(match_idx as int, current_match as int),
            Range { start: search_match.start, end: search_match.end },
        ),
{
    let style = select_highlight_style(match_idx, current_match);
    (style, search_match.start..search_match.end)
}

/// Collect all search highlights for a specific line
fn collect_highlights_for_line(line_index: usize, search_state: &SearchState) -> (r: Vec<Highlight>)
    ensures
        r@ == line_highlights(
            search_state.matches@,
            search_state.current,
            line_index,
            search_state.matches@.len() as int,
        ),
{
    let mut r: Vec<Highlight> = Vec::new();
    let mut idx: usize = 0;
    while idx < search_state.matches.len()
        invariant
            idx <= search_state.matches.len(),
            r@ == line_highlights(
                search_state.matches@,
                search_state.current,
                line_index,
                idx as int,
            ),
        decreases search_state.matches.len() - idx,
    {
        let m = &search_state.matches[idx];
        if m.line_index == line_index {
            r.push(create_highlight(idx, m, search_state.current));
        }
        idx += 1;
    }
    r
}

/// Sort highlights by start position, keeping the order of highlights that
/// start at the same position.
fn sort_highlights(highlights: Vec<Highlight>) -> (r: Vec<Highlight>)
    ensures
        r@.len() == highlights@.len(),
        stable_sorted_by_start(highlights@, r@),
{
    let mut out: Vec<Highlight> = Vec::new();
    let mut i: usize = 0;
    assert(highlights@.take(0) == out@);
    while i < highlights.len()
        invariant
            i <= highlights.len(),
            out@.len() == i,
            stable_sorted_by_start(highlights@.take(i as int), out@),
        decreases highlights.len() - i,
    {
        let x: Highlight = (highlights[i].0, highlights[i].1.start..highlights[i].1.end);
        assert(x == highlights@[i as int]);
        let key = x.1.start;
        let mut p: usize = 0;
        while p < out.len() && out[p].1.start <= key
            invariant
                p <= out.len(),
                forall|j: int| 0 <= j < p ==> out@[j].1.start <= key,
            decreases out.len() - p,
        {
            p += 1;
        }
        let ghost before = out@;
        out.insert(p, x);
        proof {
            let pre = before.take(p as int);
            let post = before.skip(p as int);
            assert(before == pre + post);
            assert(out@ == pre + seq![x] + post);
            assert forall|j: int| 0 <= j < post.len() implies post[j].1.start > key by {
                if p < before.len() {
                    assert(before[p as int].1.start > key);
                    assert(post[j] == before[p + j]);
                }
            }
            assert(sorted_by_start(out@)) by {
                assert forall|a: int, b: int| 0 <= a < b < out@.len() implies out@[a].1.start
                    <= out@[b].1.start by {
                    if a < p && b > p {
                        assert(out@[a] == before[a]);
                        assert(out@[b] == before[b - 1]);
                    } else if a < p && b == p {
                        assert(out@[a] == before[a]);
                    } else if a == p {
                        assert(out@[b] == post[b - p - 1]);
                    } else if a > p {
                        assert(out@[a] == before[a - 1]);
                        assert(out@[b] == before[b - 1]);
                    } else {
                        assert(out@[a] == before[a]);
                        assert(out@[b] == before[b]);
                    }
                }
            }
            let input = highlights@.take(i + 1);
            assert(input == highlights@.take(i as int) + seq![x]);
            assert forall|k: usize| #[trigger] starting_at(out@, k) == starting_at(input, k) by {
                lemma_starting_at_add(pre + seq![x], post, k);
                lemma_starting_at_add(pre, seq![x], k);
                lemma_starting_at_add(pre, post, k);
                lemma_starting_at_add(highlights@.take(i as int), seq![x], k);
                lemma_starting_at_single(x, k);
                if k == key {
                    lemma_starting_at_none(post, k);
                    assert(starting_at(before, k) == starting_at(highlights@.take(i as int), k));
                }
                assert(starting_at(before, k) == starting_at(highlights@.take(i as int), k));
            }
        }
        i += 1;
    }
    assert(highlights@.take(highlights.len() as int) == highlights@);
    out
}

/// Generate styled spans for a line with search highlights: the matches on
/// that line sorted by start, or `None` when the line has none.
pub fn search_line_style(line_index: usize, search_state: &SearchState) -> (r: Option<Vec<Highlight>>)
    ensures
        match r {
            None => line_highlights(
                search_state.matches@,
                search_state.current,
                line_index,
                search_state.matches@.len() as int,
            ).len() == 0,
            Some(v) => v@.len() > 0 && stable_sorted_by_start(
                line_highlights(
                    search_state.matches@,
                    search_state.current,
                    line_index,
                    search_state.matches@.len() as int,
                ),
                v@,
            ),
        },
{
    let highlights = collect_highlights_for_line(line_index, search_state);
    if highlights.len() == 0 {
        None
    } else {
        let sorted = sort_highlights(highlights);
        Some(sorted)
    }
}

} // verus!
