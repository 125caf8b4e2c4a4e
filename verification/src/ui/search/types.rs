//! Search matches over command output and the cursor over them.

use vstd::prelude::*;

verus! {

/// Represents a search match within the output: a line and a byte range of
/// its cleaned text.
#[derive(Clone, Copy, Debug)]
pub struct SearchMatch {
    pub line_index: usize,
    pub start: usize,
    pub end: usize,
}

/// State for managing search functionality: the query, its matches and the
/// index of the current match.
#[derive(Clone, Debug)]
pub struct SearchState {
    pub query: String,
    pub matches: Vec<SearchMatch>,
    pub current: usize,
}

/// Index after `current` in a ring of `len` positions.
pub open spec fn ring_next(current: int, len: int) -> int {
    (current + 1) % len
}

/// Index before `current` in a ring of `len` positions.
pub open spec fn ring_previous(current: int, len: int) -> int {
    if current == 0 { len - 1 } else { current - 1 }
}

impl SearchState {
    /// The cursor designates one of the matches, or there are none.
    pub open spec fn cursor_valid(&self) -> bool {
        self.matches.len() == 0 || self.current < self.matches.len()
    }

    pub fn new(query: String, matches: Vec<SearchMatch>) -> (s: Self)
        ensures
            s.query@ == query@,
            s.matches@ == matches@,
            s.current == 0,
            s.cursor_valid(),
    {
        Self { query, matches, current: 0 }
    }

    pub fn has_matches(&self) -> (b: bool)
        ensures
            b == (self.matches.len() > 0),
    {
        !self.matches.is_empty()
    }

    pub fn current_match(&self) -> (r: Option<&SearchMatch>)
        ensures
            r == (if self.current < self.matches.len() {
                Some(&self.matches@[self.current as int])
            } else {
                None::<&SearchMatch>
            }),
    {
        if self.current < self.matches.len() {
            Some(&self.matches[self.current])
        } else {
            None
        }
    }

    pub fn total_matches(&self) -> (n: usize)
        ensures
            n == self.matches.len(),
    {
        self.matches.len()
    }

    /// Moves to the next match, wrapping after the last one.
    pub fn next_match(&mut self)
        requires
            old(self).matches.len() > 0 ==> old(self).current < usize::MAX,
        ensures
            final(self).query == old(self).query,
            final(self).matches == old(self).matches,
            final(self).current == (if old(self).matches.len() > 0 {
                ring_next(old(self).current as int, old(self).matches.len() as int)
            } else {
                old(self).current as int
            }),
    {
        if !self.matches.is_empty() {
            self.current = (self.current + 1) % self.matches.len();
        }
    }

    /// Moves to the previous match, wrapping before the first one.
    pub fn previous_match(&mut self)
        ensures
            final(self).query == old(self).query,
            final(self).matches == old(self).matches,
            final(self).current == (if old(self).matches.len() > 0 {
                ring_previous(old(self).current as int, old(self).matches.len() as int)
            } else {
                old(self).current as int
            }),
    {
        if !self.matches.is_empty() {
            self.current = if self.current == 0 {
                self.matches.len() - 1
            } else {
                self.current - 1
            };
        }
    }

    /// Moves to match `index` when it exists; otherwise nothing changes.
    pub fn jump_to_match(&mut self, index: usize)
        ensures
            final(self).query == old(self).query,
            final(self).matches == old(self).matches,
            final(self).current == (if index < old(self).matches.len() {
                index
            } else {
                old(self).current
            }),
    {
        if index < self.matches.len() {
            self.current = index;
        }
    }
}

/// The next index in a ring: one more, or zero after the last.
pub proof fn lemma_ring_next_value(current: int, len: int)
    requires
        0 <= current < len,
    ensures
        ring_next(current, len) == (if current + 1 < len { current + 1 } else { 0 }),
{
    assert((current + 1) % len == (if current + 1 < len { current + 1 } else { 0 }))
        by (nonlinear_arith)
        requires
            0 <= current < len,
    {
        if current + 1 == len {
            vstd::arithmetic::div_mod::lemma_mod_self_0(len);
        } else {
            vstd::arithmetic::div_mod::lemma_small_mod((current + 1) as nat, len as nat);
        }
    }
}

/// Stepping forward then backward through a ring returns to the start.
pub proof fn lemma_ring_previous_of_next(current: int, len: int)
    requires
        0 <= current < len,
    ensures
        ring_previous(ring_next(current, len), len) == current,
        0 <= ring_next(current, len) < len,
{
    lemma_ring_next_value(current, len);
}

/// Stepping backward then forward through a ring returns to the start.
pub proof fn lemma_ring_next_of_previous(current: int, len: int)
    requires
        0 <= current < len,
    ensures
        ring_next(ring_previous(current, len), len) == current,
        0 <= ring_previous(current, len) < len,
{
    lemma_ring_next_value(ring_previous(current, len), len);
}

/// Moving to the next or previous match keeps the cursor on a match, and
/// the two moves undo each other.
pub proof fn lemma_search_cursor_round_trip(s: SearchState)
    requires
        s.cursor_valid(),
        s.matches.len() > 0,
    ensures
        0 <= ring_next(s.current as int, s.matches.len() as int) < s.matches.len(),
        0 <= ring_previous(s.current as int, s.matches.len() as int) < s.matches.len(),
        ring_previous(ring_next(s.current as int, s.matches.len() as int), s.matches.len() as int)
            == s.current,
        ring_next(ring_previous(s.current as int, s.matches.len() as int), s.matches.len() as int)
            == s.current,
{
    lemma_ring_previous_of_next(s.current as int, s.matches.len() as int);
    lemma_ring_next_of_previous(s.current as int, s.matches.len() as int);
}

} // verus!
