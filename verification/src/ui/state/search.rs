//! The search session over command output: typing a query, recalling
//! earlier queries, running the query as a regular expression over the
//! output, moving between matches, and centring the view on the current
//! match.

use vstd::prelude::*;
use regex::Error;
use crate::strings::{chars_of, contains_string, push_char, string_from_range, texts};
use crate::ui::search::highlighter::{
    line_highlights, search_line_style, stable_sorted_by_start, Highlight,
};
use crate::ui::search::matcher::{collect_search_matches, output_matches};
use crate::ui::search::status::{search_status_line, span_texts, status_line_spans, StyledSpan};
use crate::ui::search::types::{SearchMatch, SearchState};
use crate::ui::state::types::OutputMetrics;
use crate::utils::text::regex_find::{compile_regex, regex_error_text, regex_valid};
use crate::utils::watcher::{lemma_push_unique, push_unique};

verus! {

/// The matches of the expression `query` over `output`.
pub open spec fn searched(query: Seq<char>, output: Seq<String>) -> Seq<SearchMatch> {
    output_matches(query, output, output.len() as int)
}

/// The text of an optional string.
pub open spec fn opt_text(o: Option<String>) -> Option<Seq<char>> {
    match o {
        Some(s) => Some(s@),
        None => None,
    }
}

/// Whether `state` holds the search for `query` over `output` with match
/// `current` current.
pub open spec fn holds_search(
    state: Option<SearchState>,
    query: Seq<char>,
    output: Seq<String>,
    current: int,
) -> bool {
    state matches Some(s) && s.query@ == query && s.matches@ == searched(query, output)
        && s.current == current
}

/// The match to centre on after moving to `current`: the current match if
/// there is one, else what was pending.
pub open spec fn center_after(matches: Seq<SearchMatch>, current: int, pending: Option<SearchMatch>) -> Option<
    SearchMatch,
> {
    if 0 <= current < matches.len() {
        Some(matches[current])
    } else {
        pending
    }
}

/// Index of the query recalled by "previous": the last query when none was
/// recalled yet, the first one again at the start, else the one before.
pub open spec fn previous_history_index(index: Option<usize>, len: nat) -> int {
    match index {
        None => len - 1,
        Some(i) => if i == 0 {
            0
        } else {
            i - 1
        },
    }
}

/// Where the view should start to centre `target_row` in a view of
/// `view_height` rows over `total_rows` rows: half a view above the row,
/// without scrolling past the end.
pub open spec fn centered_offset_spec(target_row: usize, view_height: usize, total_rows: usize) -> int {
    let desired = if target_row >= view_height / 2 {
        target_row - view_height / 2
    } else {
        0
    };
    let max_offset = if total_rows >= view_height {
        total_rows - view_height
    } else {
        0
    };
    if desired < max_offset {
        desired
    } else {
        max_offset
    }
}

/// The output offset that centres `target_row` in the view.
pub fn centered_offset(target_row: usize, view_height: usize, total_rows: usize) -> (r: usize)
    ensures
        r == centered_offset_spec(target_row, view_height, total_rows),
{
    let desired_offset = target_row.saturating_sub(view_height / 2);
    let max_offset = total_rows.saturating_sub(view_height);
    if desired_offset < max_offset {
        desired_offset
    } else {
        max_offset
    }
}

/// The search session: the search being shown, the query being typed, the
/// queries submitted so far, which of them is recalled, the last error,
/// and the match the view should be centred on.
pub struct SearchSession {
    pub search_state: Option<SearchState>,
    pub search_input: Option<String>,
    pub search_history: Vec<String>,
    pub search_history_index: Option<usize>,
    pub search_error: Option<String>,
    pub pending_center: Option<SearchMatch>,
}

impl SearchSession {
    /// No search, no query typed, no history.
    pub fn new() -> (s: Self)
        ensures
            s.search_state is None,
            s.search_input is None,
            s.search_history@.len() == 0,
            s.search_history_index is None,
            s.search_error is None,
            s.pending_center is None,
    {
        SearchSession {
            search_state: None,
            search_input: None,
            search_history: Vec::new(),
            search_history_index: None,
            search_error: None,
            pending_center: None,
        }
    }

    /// Check if there are active search results
    pub fn has_search_results(&self) -> (b: bool)
        ensures
            b == (self.search_state matches Some(s) && s.matches@.len() > 0),
    {
        match &self.search_state {
            Some(s) => s.has_matches(),
            None => false,
        }
    }

    /// Begin search input mode
    pub fn begin_search_input(&mut self)
        ensures
            opt_text(final(self).search_input) == Some(Seq::<char>::empty()),
            final(self).search_history_index is None,
            final(self).search_error is None,
            final(self).search_state == old(self).search_state,
            final(self).search_history == old(self).search_history,
            final(self).pending_center == old(self).pending_center,
    {
        self.search_input = Some(String::new());
        self.search_history_index = None;
        self.search_error = None;
    }

    /// Cancel search input mode
    pub fn cancel_search_input(&mut self)
        ensures
            final(self).search_input is None,
            final(self).search_history_index is None,
            final(self).search_error is None,
            final(self).search_state == old(self).search_state,
            final(self).search_history == old(self).search_history,
            final(self).pending_center == old(self).pending_center,
    {
        self.search_input = None;
        self.search_history_index = None;
        self.search_error = None;
    }

    /// Add character to search input
    pub fn push_search_char(&mut self, ch: char)
        ensures
            opt_text(final(self).search_input) == match opt_text(old(self).search_input) {
                Some(b) => Some(b.push(ch)),
                None => None,
            },
            final(self).search_history_index == (if old(self).search_input is Some {
                None
            } else {
                old(self).search_history_index
            }),
            final(self).search_error == old(self).search_error,
            final(self).search_state == old(self).search_state,
            final(self).search_history == old(self).search_history,
            final(self).pending_center == old(self).pending_center,
    {
        match self.search_input.take() {
            Some(mut buffer) => {
                push_char(&mut buffer, ch);
                self.search_input = Some(buffer);
                self.search_history_index = None;
            },
            None => {},
        }
    }

    /// Remove last character from search input
    pub fn backspace_search_char(&mut self)
        ensures
            opt_text(final(self).search_input) == match opt_text(old(self).search_input) {
                Some(b) => Some(
                    if b.len() > 0 {
                        b.drop_last()
                    } else {
                        b
                    },
                ),
                None => None,
            },
            final(self).search_history_index == (if old(self).search_input is Some {
                None
            } else {
                old(self).search_history_index
            }),
            final(self).search_error == old(self).search_error,
            final(self).search_state == old(self).search_state,
            final(self).search_history == old(self).search_history,
            final(self).pending_center == old(self).pending_center,
    {
        match self.search_input.take() {
            Some(buffer) => {
                let cs = chars_of(buffer.as_str());
                let shorter = if cs.len() > 0 {
                    string_from_range(&cs, 0, cs.len() - 1)
                } else {
                    string_from_range(&cs, 0, 0)
                };
                proof {
                    if cs@.len() > 0 {
                        assert(cs@.subrange(0, cs@.len() - 1) =~= cs@.drop_last());
                    } else {
                        assert(cs@.subrange(0, 0) =~= cs@);
                    }
                }
                self.search_input = Some(shorter);
                self.search_history_index = None;
            },
            None => {},
        }
    }

    /// Recall previous search from history (up arrow)
    pub fn recall_previous_search(&mut self)
        ensures
            ({
                let len = old(self).search_history@.len();
                let idx = previous_history_index(old(self).search_history_index, len);
                if len > 0 && 0 <= idx < len {
                    &&& opt_text(final(self).search_input) == Some(old(self).search_history@[idx]@)
                    &&& final(self).search_history_index == Some(idx as usize)
                } else {
                    &&& final(self).search_input == old(self).search_input
                    &&& final(self).search_history_index == old(self).search_history_index
                }
            }),
            final(self).search_error == old(self).search_error,
            final(self).search_state == old(self).search_state,
            final(self).search_history == old(self).search_history,
            final(self).pending_center == old(self).pending_center,
    {
        if self.search_history.len() == 0 {
            return;
        }
        let len = self.search_history.len();
        let idx = match self.search_history_index {
            None => len - 1,
            Some(i) => if i == 0 {
                0
            } else {
                i - 1
            },
        };
        if idx < len {
            let query = self.search_history[idx].clone();
            self.search_input = Some(query);
            self.search_history_index = Some(idx);
        }
    }

    /// Recall next search from history (down arrow)
    pub fn recall_next_search(&mut self)
        requires
            old(self).search_history_index matches Some(i) ==> i < usize::MAX,
        ensures
            ({
                let len = old(self).search_history@.len();
                match old(self).search_history_index {
                    Some(i) => if len == 0 {
                        &&& final(self).search_input == old(self).search_input
                        &&& final(self).search_history_index == old(self).search_history_index
                    } else if i + 1 < len {
                        &&& opt_text(final(self).search_input) == Some(
                            old(self).search_history@[i + 1]@,
                        )
                        &&& final(self).search_history_index == Some((i + 1) as usize)
                    } else {
                        &&& opt_text(final(self).search_input) == Some(Seq::<char>::empty())
                        &&& final(self).search_history_index is None
                    },
                    None => {
                        &&& final(self).search_input == old(self).search_input
                        &&& final(self).search_history_index is None
                    },
                }
            }),
            final(self).search_error == old(self).search_error,
            final(self).search_state == old(self).search_state,
            final(self).search_history == old(self).search_history,
            final(self).pending_center == old(self).pending_center,
    {
        if self.search_history.len() == 0 {
            return;
        }
        if let Some(idx) = self.search_history_index {
            if idx + 1 < self.search_history.len() {
                let query = self.search_history[idx + 1].clone();
                self.search_input = Some(query);
                self.search_history_index = Some(idx + 1);
            } else {
                self.search_input = Some(String::new());
                self.search_history_index = None;
            }
        }
    }

    /// Runs `query` as a regular expression over `output` and shows its
    /// matches; with `keep_current`, the current match keeps its number
    /// (the last one at most), otherwise the first match is current; the
    /// view is to be centred on the current match. A query that is not a
    /// valid expression changes nothing and gives its error.
    pub fn apply_search_query(&mut self, query: String, keep_current: bool, output: &[String]) -> (r:
        Result<(), Error>)
        ensures
            r is Ok <==> regex_valid(query@),
            r is Err ==> *final(self) == *old(self),
            r is Ok ==> {
                let n = searched(query@, output@).len();
                let current = if keep_current && old(self).search_state is Some && n > 0 {
                    let c = old(self).search_state->0.current;
                    if c < n - 1 {
                        c as int
                    } else {
                        n - 1
                    }
                } else {
                    0
                };
                &&& holds_search(final(self).search_state, query@, output@, current)
                &&& final(self).pending_center == center_after(
                    searched(query@, output@),
                    current,
                    old(self).pending_center,
                )
                &&& final(self).search_input == old(self).search_input
                &&& final(self).search_history == old(self).search_history
                &&& final(self).search_history_index == old(self).search_history_index
                &&& final(self).search_error == old(self).search_error
            },
    {
        let regex = match compile_regex(query.as_str()) {
            Ok(re) => re,
            Err(e) => {
                return Err(e);
            },
        };
        let matches = collect_search_matches(output, &regex);
        let mut current_index: usize = 0;
        if keep_current {
            if let Some(existing) = &self.search_state {
                let last = matches.len().saturating_sub(1);
                current_index = if existing.current < last {
                    existing.current
                } else {
                    last
                };
            }
        }
        let mut state = SearchState::new(query, matches);
        state.jump_to_match(current_index);
        let target = match state.current_match() {
            Some(m) => Some(*m),
            None => None,
        };
        self.search_state = Some(state);
        if let Some(m) = target {
            self.pending_center = Some(m);
        }
        Ok(())
    }

    /// Perform live search without committing to history
    pub fn live_search(&mut self, output: &[String])
        ensures
            match opt_text(old(self).search_input) {
                None => *final(self) == *old(self),
                Some(p) => if p.len() == 0 {
                    &&& final(self).search_state is None
                    &&& final(self).search_error is None
                    &&& final(self).pending_center == old(self).pending_center
                } else if regex_valid(p) {
                    &&& holds_search(final(self).search_state, p, output@, 0)
                    &&& final(self).search_error is None
                    &&& final(self).pending_center == center_after(
                        searched(p, output@),
                        0,
                        old(self).pending_center,
                    )
                } else {
                    &&& final(self).search_state == old(self).search_state
                    &&& final(self).search_error is Some
                    &&& final(self).pending_center == old(self).pending_center
                },
            },
            final(self).search_input == old(self).search_input,
            final(self).search_history == old(self).search_history,
            final(self).search_history_index == old(self).search_history_index,
    {
        let pattern = match &self.search_input {
            Some(p) => p.clone(),
            None => {
                return;
            },
        };
        if pattern.as_str().is_empty() {
            self.search_state = None;
            self.search_error = None;
            return;
        }
        match self.apply_search_query(pattern, false, output) {
            Ok(_) => {
                self.search_error = None;
            },
            Err(e) => {
                self.search_error = Some(regex_error_text(&e));
            },
        }
    }

    /// Submit search query and add to history: an empty query ends the
    /// search; a valid one is run, joins the history unless already there,
    /// and ends the input; an invalid one keeps the input and shows the
    /// error.
    pub fn submit_search(&mut self, output: &[String])
        ensures
            match opt_text(old(self).search_input) {
                None => *final(self) == *old(self),
                Some(p) => if p.len() == 0 {
                    &&& final(self).search_input is None
                    &&& final(self).search_state is None
                    &&& final(self).search_error is None
                    &&& final(self).search_history_index is None
                    &&& final(self).search_history == old(self).search_history
                    &&& final(self).pending_center == old(self).pending_center
                } else if regex_valid(p) {
                    &&& holds_search(final(self).search_state, p, output@, 0)
                    &&& texts(final(self).search_history@) == push_unique(
                        texts(old(self).search_history@),
                        p,
                    )
                    &&& final(self).search_input is None
                    &&& final(self).search_error is None
                    &&& final(self).search_history_index is None
                    &&& final(self).pending_center == center_after(
                        searched(p, output@),
                        0,
                        old(self).pending_center,
                    )
                } else {
                    &&& final(self).search_error is Some
                    &&& final(self).search_input == old(self).search_input
                    &&& final(self).search_state == old(self).search_state
                    &&& final(self).search_history == old(self).search_history
                    &&& final(self).search_history_index == old(self).search_history_index
                    &&& final(self).pending_center == old(self).pending_center
                },
            },
            texts(old(self).search_history@).no_duplicates() ==> texts(
                final(self).search_history@,
            ).no_duplicates(),
    {
        let pattern = match &self.search_input {
            Some(p) => p.clone(),
            None => {
                return;
            },
        };
        proof {
            lemma_push_unique(texts(self.search_history@), pattern@);
        }
        if !pattern.as_str().is_empty() {
            let entry = pattern.clone();
            match self.apply_search_query(pattern, false, output) {
                Ok(_) => {
                    if !contains_string(&self.search_history, entry.as_str()) {
                        let ghost before = texts(self.search_history@);
                        let ghost entry_text = entry@;
                        self.search_history.push(entry);
                        assert(texts(self.search_history@) =~= before.push(entry_text));
                    }
                    self.search_input = None;
                    self.search_error = None;
                    self.search_history_index = None;
                },
                Err(e) => {
                    self.search_error = Some(regex_error_text(&e));
                },
            }
        } else {
            self.search_input = None;
            self.search_state = None;
            self.search_error = None;
            self.search_history_index = None;
        }
    }

    /// Refresh search matches after output changes: the shown search is run
    /// again over the new output, keeping the current match's number.
    pub fn refresh_search_matches(&mut self, output: &[String])
        ensures
            old(self).search_state is None ==> *final(self) == *old(self),
            match old(self).search_state {
                Some(s) => regex_valid(s.query@) ==> {
                    let n = searched(s.query@, output@).len();
                    let current = if n > 0 {
                        if s.current < n - 1 {
                            s.current as int
                        } else {
                            n - 1
                        }
                    } else {
                        0
                    };
                    holds_search(final(self).search_state, s.query@, output@, current)
                },
                None => true,
            },
            final(self).search_input == old(self).search_input,
            final(self).search_history == old(self).search_history,
            final(self).search_history_index == old(self).search_history_index,
            final(self).search_error == old(self).search_error,
    {
        let query = match &self.search_state {
            Some(existing) => existing.query.clone(),
            None => {
                return;
            },
        };
        let _ = self.apply_search_query(query, true, output);
    }

    /// Navigate to next search match; the view is to be centred on it.
    pub fn next_search_match(&mut self)
        requires
            old(self).search_state matches Some(s) ==> s.current < usize::MAX,
        ensures
            match old(self).search_state {
                Some(s) => if s.matches@.len() > 0 {
                    let c = (s.current + 1) % (s.matches@.len() as int);
                    &&& final(self).search_state matches Some(t) && t.query == s.query && t.matches
                        == s.matches && t.current == c
                    &&& final(self).pending_center == Some(s.matches@[c])
                } else {
                    &&& final(self).search_state == old(self).search_state
                    &&& final(self).pending_center == old(self).pending_center
                },
                None => {
                    &&& final(self).search_state is None
                    &&& final(self).pending_center == old(self).pending_center
                },
            },
            final(self).search_input == old(self).search_input,
            final(self).search_history == old(self).search_history,
            final(self).search_history_index == old(self).search_history_index,
            final(self).search_error == old(self).search_error,
    {
        match self.search_state.take() {
            Some(mut search) => {
                if search.has_matches() {
                    search.next_match();
                    let target = match search.current_match() {
                        Some(m) => Some(*m),
                        None => None,
                    };
                    self.search_state = Some(search);
                    if let Some(m) = target {
                        self.pending_center = Some(m);
                    }
                } else {
                    self.search_state = Some(search);
                }
            },
            None => {},
        }
    }

    /// Navigate to previous search match; the view is to be centred on it.
    pub fn previous_search_match(&mut self)
        ensures
            match old(self).search_state {
                Some(s) => if s.matches@.len() > 0 {
                    let c = if s.current == 0 {
                        s.matches@.len() - 1
                    } else {
                        s.current - 1
                    };
                    &&& final(self).search_state matches Some(t) && t.query == s.query && t.matches
                        == s.matches && t.current == c
                    &&& (0 <= c < s.matches@.len() ==> final(self).pending_center == Some(
                        s.matches@[c],
                    ))
                } else {
                    &&& final(self).search_state == old(self).search_state
                    &&& final(self).pending_center == old(self).pending_center
                },
                None => {
                    &&& final(self).search_state is None
                    &&& final(self).pending_center == old(self).pending_center
                },
            },
            final(self).search_input == old(self).search_input,
            final(self).search_history == old(self).search_history,
            final(self).search_history_index == old(self).search_history_index,
            final(self).search_error == old(self).search_error,
    {
        match self.search_state.take() {
            Some(mut search) => {
                if search.has_matches() {
                    search.previous_match();
                    let target = match search.current_match() {
                        Some(m) => Some(*m),
                        None => None,
                    };
                    self.search_state = Some(search);
                    if let Some(m) = target {
                        self.pending_center = Some(m);
                    }
                } else {
                    self.search_state = Some(search);
                }
            },
            None => {},
        }
    }

    /// Ensure current search match is visible in output view: the view is to
    /// be centred on the current match, if any.
    pub fn ensure_current_match_visible(&mut self)
        ensures
            final(self).pending_center == match old(self).search_state {
                Some(s) => center_after(s.matches@, s.current as int, old(self).pending_center),
                None => old(self).pending_center,
            },
            final(self).search_state == old(self).search_state,
            final(self).search_input == old(self).search_input,
            final(self).search_history == old(self).search_history,
            final(self).search_history_index == old(self).search_history_index,
            final(self).search_error == old(self).search_error,
    {
        let target = match &self.search_state {
            Some(search) => match search.current_match() {
                Some(m) => Some(*m),
                None => None,
            },
            None => None,
        };
        if let Some(m) = target {
            self.pending_center = Some(m);
        }
    }

    /// Applies the pending centring to a view of `view_height` rows and
    /// `area_width` columns over output described by `metrics`: gives the
    /// new output offset when the target row is known. The request stays
    /// pending while the view or its metrics are not known yet.
    pub fn apply_pending_center(
        &mut self,
        view_height: usize,
        area_width: usize,
        metrics: Option<&OutputMetrics>,
    ) -> (r: Option<usize>)
        ensures
            match (old(self).pending_center, metrics) {
                (Some(target), Some(m)) => if view_height == 0 || area_width == 0 {
                    r is None && final(self).pending_center == old(self).pending_center
                } else {
                    &&& final(self).pending_center is None
                    &&& r == if m.total_rows_of() == 0 {
                        None
                    } else {
                        match m.match_row(target) {
                            Some(row) => Some(
                                centered_offset_spec(row, view_height, m.total_rows_of()) as usize,
                            ),
                            None => None,
                        }
                    }
                },
                _ => r is None && final(self).pending_center == old(self).pending_center,
            },
            final(self).search_state == old(self).search_state,
            final(self).search_input == old(self).search_input,
            final(self).search_history == old(self).search_history,
            final(self).search_history_index == old(self).search_history_index,
            final(self).search_error == old(self).search_error,
    {
        let target = match self.pending_center {
            Some(t) => t,
            None => {
                return None;
            },
        };
        if view_height == 0 || area_width == 0 {
            return None;
        }
        let m = match metrics {
            Some(m) => m,
            None => {
                return None;
            },
        };
        let total_rows = m.total_rows();
        if total_rows == 0 {
            self.pending_center = None;
            return None;
        }
        let r = match m.row_for_match(&target) {
            Some(target_row) => Some(centered_offset(target_row, view_height, total_rows)),
            None => None,
        };
        self.pending_center = None;
        r
    }

    /// Get styling information for search highlighting on a specific line
    pub fn search_line_style(&self, line_index: usize) -> (r: Option<Vec<Highlight>>)
        ensures
            match self.search_state {
                None => r is None,
                Some(s) => {
                    let hs = line_highlights(s.matches@, s.current, line_index, s.matches@.len() as int);
                    match r {
                        None => hs.len() == 0,
                        Some(v) => v@.len() > 0 && stable_sorted_by_start(hs, v@),
                    }
                },
            },
    {
        match &self.search_state {
            Some(search) => search_line_style(line_index, search),
            None => None,
        }
    }

    /// Get formatted status line for search UI
    pub fn search_status_line(&self) -> (r: Option<Vec<StyledSpan>>)
        requires
            self.search_state matches Some(s) ==> s.current < usize::MAX,
        ensures
            match r {
                Some(v) => status_line_spans(
                    opt_text(self.search_input),
                    opt_text(self.search_error),
                    self.search_state,
                ) == Some(span_texts(v@)),
                None => status_line_spans(
                    opt_text(self.search_input),
                    opt_text(self.search_error),
                    self.search_state,
                ) is None,
            },
    {
        let input = match &self.search_input {
            Some(s) => Some(s.as_str()),
            None => None,
        };
        let error = match &self.search_error {
            Some(s) => Some(s.as_str()),
            None => None,
        };
        search_status_line(input, error, self.search_state.as_ref())
    }
}

} // verus!
