//! Type definitions for TUI state management: module output, Maven profiles
//! and their activation states, build flags.

use vstd::prelude::*;
use crate::strings::{chars_of, concat2};
use crate::ui::search::types::SearchMatch;
use crate::utils::text::log_parser::{clean_log_line, display_text};
use crate::utils::text::width::{
    char_display_width, char_utf8_len, char_width, display_width, str_width, utf8_len,
};

verus! {

/// Output data for a specific module
#[derive(Clone, Debug, Default)]
pub struct ModuleOutput {
    pub lines: Vec<String>,
    pub scroll_offset: usize,
    pub command: Option<String>,
    pub profiles: Vec<String>,
    pub flags: Vec<String>,
}

/// `a / b` rounded up.
pub open spec fn ceil_div(a: nat, b: nat) -> nat {
    if a % b == 0 {
        a / b
    } else {
        a / b + 1
    }
}

/// Rows that a text `w` columns wide takes in a view `width` columns wide:
/// at least one.
pub open spec fn rows_for_width(w: nat, width: nat) -> nat {
    if width == 0 {
        1
    } else if ceil_div(w, width) < 1 {
        1
    } else {
        ceil_div(w, width)
    }
}

/// Rows that a raw output line takes once cleaned and wrapped at `width`.
pub open spec fn line_rows(raw: Seq<char>, width: nat) -> nat {
    rows_for_width(str_width(display_text(raw)) as nat, width)
}

/// Rows taken by the first `k` lines.
pub open spec fn rows_before(lines: Seq<String>, width: nat, k: int) -> nat
    decreases k,
{
    if k <= 0 {
        0
    } else {
        rows_before(lines, width, k - 1) + line_rows(lines[k - 1]@, width)
    }
}

/// Columns taken by a character: its width, or nothing for a control one.
pub open spec fn char_cols(c: char) -> nat {
    match char_width(c) {
        Some(w) => w as nat,
        None => 0,
    }
}

/// Columns taken by the characters of `s` from the `k`-th on (the `k`-th one
/// starting at byte `pos`) that start before byte `b`.
pub open spec fn columns_from(s: Seq<char>, k: int, pos: nat, b: nat) -> nat
    decreases s.len() - k,
{
    if k < 0 || k >= s.len() || pos >= b {
        0
    } else {
        char_cols(s[k]) + columns_from(s, k + 1, pos + utf8_len(s[k]), b)
    }
}

/// Column at which byte `b` of the text `s` is displayed: the columns of the
/// characters that start before it.
pub open spec fn column_of_byte(s: Seq<char>, b: nat) -> nat {
    columns_from(s, 0, 0, b)
}

/// Building metrics for `lines` at `width` stays within machine integers:
/// the total number of rows, and each line's first row plus three columns
/// per character of its displayed text, fit in a `usize`.
pub open spec fn metrics_fit(width: usize, lines: Seq<String>) -> bool {
    width > 0 ==> {
        &&& rows_before(lines, width as nat, lines.len() as int) <= usize::MAX
        &&& forall|i: int|
            0 <= i < lines.len() ==> rows_before(lines, width as nat, i) + 3 * display_text(
                lines[i]@,
            ).len() <= usize::MAX
    }
}

/// Metrics for calculating output display and scrolling
pub struct OutputMetrics {
    width: usize,
    line_display: Vec<String>,
    line_start_rows: Vec<usize>,
    total_rows: usize,
}

impl OutputMetrics {
    #[verifier::type_invariant]
    spec fn inv(self) -> bool {
        &&& self.line_display.len() == self.line_start_rows.len()
        &&& forall|i: int|
            0 <= i < self.line_display.len() ==> self.line_start_rows[i] + 3
                * self.line_display[i]@.len() <= usize::MAX
    }

    /// Width in columns that the metrics were computed for (zero: none).
    pub closed spec fn width_of(&self) -> usize {
        self.width
    }

    /// Displayed (cleaned) text of each line.
    pub closed spec fn displays_of(&self) -> Seq<Seq<char>> {
        self.line_display@.map_values(|l: String| l@)
    }

    /// First row of each line.
    pub closed spec fn start_rows_of(&self) -> Seq<usize> {
        self.line_start_rows@
    }

    /// Total number of rows.
    pub closed spec fn total_rows_of(&self) -> usize {
        self.total_rows
    }

    /// The metrics describe `lines` wrapped at `width`.
    pub open spec fn describes(&self, width: usize, lines: Seq<String>) -> bool {
        &&& self.width_of() == width
        &&& width == 0 ==> {
            &&& self.displays_of().len() == 0
            &&& self.start_rows_of().len() == 0
            &&& self.total_rows_of() == 0
        }
        &&& width > 0 ==> {
            &&& self.displays_of().len() == lines.len()
            &&& self.start_rows_of().len() == lines.len()
            &&& forall|i: int|
                0 <= i < lines.len() ==> self.displays_of()[i] == display_text(lines[i]@)
            &&& forall|i: int|
                0 <= i < lines.len() ==> self.start_rows_of()[i] == rows_before(
                    lines,
                    width as nat,
                    i,
                )
            &&& self.total_rows_of() == rows_before(lines, width as nat, lines.len() as int)
        }
    }

    /// Metrics of `lines` wrapped at `width`, or `None` when they do not fit
    /// in machine integers.
    pub fn checked_new(width: usize, lines: &[String]) -> (r: Option<Self>)
        ensures
            r is Some <==> metrics_fit(width, lines@),
            r matches Some(m) ==> m.describes(width, lines@),
    {
        if width == 0 {
            let m = Self {
                width: 0,
                line_display: Vec::new(),
                line_start_rows: Vec::new(),
                total_rows: 0,
            };
            assert(m.displays_of() =~= Seq::<Seq<char>>::empty());
            return Some(m);
        }
        let mut line_display: Vec<String> = Vec::new();
        let mut line_start_rows: Vec<usize> = Vec::new();
        let mut cumulative: usize = 0;
        let mut i: usize = 0;
        while i < lines.len()
            invariant
                width > 0,
                i <= lines.len(),
                line_display.len() == i,
                line_start_rows.len() == i,
                cumulative == rows_before(lines@, width as nat, i as int),
                forall|j: int| 0 <= j < i ==> line_display[j]@ == display_text(lines@[j]@),
                forall|j: int|
                    0 <= j < i ==> line_start_rows[j] == rows_before(lines@, width as nat, j),
                forall|j: int|
                    0 <= j < i ==> line_start_rows[j] + 3 * line_display[j]@.len() <= usize::MAX,
            decreases lines.len() - i,
        {
            let display = match clean_log_line(lines[i].as_str()) {
                Some(t) => t,
                None => String::new(),
            };
            let n = chars_of(display.as_str()).len();
            let room = match n.checked_mul(3) {
                Some(x) => cumulative.checked_add(x),
                None => None,
            };
            if room.is_none() {
                proof {
                    assert(rows_before(lines@, width as nat, i as int) + 3 * display_text(
                        lines@[i as int]@,
                    ).len() > usize::MAX);
                }
                return None;
            }
            let rows = visual_rows(display.as_str(), width);
            line_start_rows.push(cumulative);
            line_display.push(display);
            match cumulative.checked_add(rows) {
                Some(c) => {
                    cumulative = c;
                },
                None => {
                    proof {
                        lemma_rows_before_monotonic(lines@, width as nat, i + 1, lines.len() as int);
                    }
                    return None;
                },
            }
            i += 1;
        }
        assert forall|j: int| 0 <= j < lines@.len() implies rows_before(lines@, width as nat, j)
            + 3 * display_text(lines@[j]@).len() <= usize::MAX by {
            assert(line_start_rows[j] + 3 * line_display[j]@.len() <= usize::MAX);
        }
        let m = Self { width, line_display, line_start_rows, total_rows: cumulative };
        assert(metrics_fit(width, lines@));
        Some(m)
    }

    pub fn new(width: usize, lines: &[String]) -> (m: Self)
        requires
            metrics_fit(width, lines@),
        ensures
            m.describes(width, lines@),
    {
        match Self::checked_new(width, lines) {
            Some(m) => m,
            None => {
                proof {
                    assert(false);
                }
                Self { width: 0, line_display: Vec::new(), line_start_rows: Vec::new(), total_rows: 0 }
            },
        }
    }

    pub fn total_rows(&self) -> (n: usize)
        ensures
            n == self.total_rows_of(),
    {
        self.total_rows
    }

    /// Row (among all wrapped rows) at which match `m` is displayed: the
    /// first row of its line plus the rows of the columns before it.
    pub open spec fn match_row(&self, m: SearchMatch) -> Option<usize> {
        if self.width_of() == 0 {
            Some(0usize)
        } else if m.line_index < self.start_rows_of().len() && m.line_index
            < self.displays_of().len() {
            Some(
                (self.start_rows_of()[m.line_index as int] + column_of_byte(
                    self.displays_of()[m.line_index as int],
                    m.start as nat,
                ) / (self.width_of() as nat)) as usize,
            )
        } else {
            None::<usize>
        }
    }

    /// Row (among all wrapped rows) at which a match is displayed.
    pub fn row_for_match(&self, m: &SearchMatch) -> (r: Option<usize>)
        ensures
            r == self.match_row(*m),
    {
        proof {
            use_type_invariant(self);
        }
        if self.width == 0 {
            return Some(0);
        }
        let line_index = m.line_index;
        if line_index >= self.line_start_rows.len() || line_index >= self.line_display.len() {
            return None;
        }
        let start_rows = self.line_start_rows[line_index];
        let display = &self.line_display[line_index];
        let col = column_for_byte_index(display.as_str(), m.start);
        let row_in_line = col / self.width;
        proof {
            assert(self.displays_of()[line_index as int] == display@);
            assert(row_in_line <= col) by (nonlinear_arith)
                requires
                    row_in_line == col / self.width,
                    self.width > 0,
            ;
        }
        Some(start_rows + row_in_line)
    }
}

/// Adding lines never decreases the number of rows before a position.
pub proof fn lemma_rows_before_monotonic(lines: Seq<String>, width: nat, j: int, k: int)
    requires
        0 <= j <= k,
    ensures
        rows_before(lines, width, j) <= rows_before(lines, width, k),
    decreases k - j,
{
    if j < k {
        lemma_rows_before_monotonic(lines, width, j, k - 1);
    }
}

/// A text `w` columns wide takes, in a view `width` columns wide, the
/// fewest rows that hold all its columns, and never less than one row
/// (an empty line still takes a row).
pub proof fn lemma_rows_for_width_bounds(w: nat, width: nat)
    requires
        width > 0,
    ensures
        rows_for_width(w, width) >= 1,
        w <= rows_for_width(w, width) * width,
        rows_for_width(w, width) == 1 || (rows_for_width(w, width) - 1) * width < w,
{
    let q = w / width;
    let m = w % width;
    assert(w == q * width + m && 0 <= m < width) by (nonlinear_arith)
        requires
            width > 0,
            q == w / width,
            m == w % width,
    ;
    let r = rows_for_width(w, width);
    if m == 0 {
        if q < 1 {
            assert(q == 0);
            assert(w == 0) by (nonlinear_arith)
                requires
                    w == q * width + m,
                    q == 0,
                    m == 0,
            ;
        } else {
            assert(r == q);
            assert((q - 1) * width < w) by (nonlinear_arith)
                requires
                    w == q * width,
                    width > 0,
            ;
        }
    } else {
        assert(r == q + 1);
        assert(w <= (q + 1) * width) by (nonlinear_arith)
            requires
                w == q * width + m,
                m < width,
        ;
        assert(q * width < w) by (nonlinear_arith)
            requires
                w == q * width + m,
                m > 0,
        ;
    }
}

/// Every output line takes at least one row: the first `k` lines take at
/// least `k` rows, and each line starts at least one row after the one
/// before it.
pub proof fn lemma_rows_before_at_least_lines(lines: Seq<String>, width: nat, j: int, k: int)
    requires
        width > 0,
        0 <= j <= k,
    ensures
        rows_before(lines, width, k) >= rows_before(lines, width, j) + (k - j),
        rows_before(lines, width, k) >= k,
    decreases k,
{
    if k > 0 {
        lemma_rows_for_width_bounds(str_width(display_text(lines[k - 1]@)) as nat, width);
        if j < k {
            lemma_rows_before_at_least_lines(lines, width, j, k - 1);
        } else {
            lemma_rows_before_at_least_lines(lines, width, 0, k - 1);
        }
    }
}

/// In metrics of output lines wrapped at a positive width, each line takes
/// at least one row: the total is at least the number of lines, and a
/// line's first row is at least its index and comes at least one row after
/// the previous line's.
pub proof fn lemma_metrics_one_row_per_line(m: OutputMetrics, width: usize, lines: Seq<String>)
    requires
        width > 0,
        m.describes(width, lines),
    ensures
        m.total_rows_of() >= lines.len(),
        forall|i: int| 0 <= i < lines.len() ==> #[trigger] m.start_rows_of()[i] >= i,
        forall|i: int, j: int|
            0 <= i < j < lines.len() ==> #[trigger] m.start_rows_of()[j] >= #[trigger] m.start_rows_of()[i] + (j - i),
        forall|i: int| 0 <= i < lines.len() ==> #[trigger] m.start_rows_of()[i] < m.total_rows_of(),
{
    lemma_rows_before_at_least_lines(lines, width as nat, 0, lines.len() as int);
    assert forall|i: int| 0 <= i < lines.len() implies #[trigger] m.start_rows_of()[i] >= i by {
        lemma_rows_before_at_least_lines(lines, width as nat, 0, i);
    }
    assert forall|i: int, j: int| 0 <= i < j < lines.len() implies #[trigger] m.start_rows_of()[j]
        >= #[trigger] m.start_rows_of()[i] + (j - i) by {
        lemma_rows_before_at_least_lines(lines, width as nat, i, j);
    }
    assert forall|i: int| 0 <= i < lines.len() implies #[trigger] m.start_rows_of()[i] < m.total_rows_of() by {
        lemma_rows_before_at_least_lines(lines, width as nat, i, lines.len() as int);
    }
}

/// Rows that a displayed text takes at `width` (at least one).
fn visual_rows(line: &str, width: usize) -> (r: usize)
    requires
        width > 0,
    ensures
        r == rows_for_width(str_width(line@) as nat, width as nat),
{
    let w = display_width(line);
    let q = w / width;
    let rows = if w % width != 0 {
        proof {
            assert(q < usize::MAX) by (nonlinear_arith)
                requires
                    q == w / width,
                    w % width != 0,
                    width > 0,
                    w <= usize::MAX,
            {
                if width == 1 {
                } else {
                    assert(q <= w / 2) by {
                        vstd::arithmetic::div_mod::lemma_div_is_ordered_by_denominator(
                            w as int,
                            2,
                            width as int,
                        );
                    }
                }
            }
        }
        q + 1
    } else {
        q
    };
    if rows < 1 {
        1
    } else {
        rows
    }
}

/// Column at which byte `byte_index` of `s` is displayed.
fn column_for_byte_index(s: &str, byte_index: usize) -> (c: usize)
    requires
        3 * s@.len() <= usize::MAX,
    ensures
        c == column_of_byte(s@, byte_index as nat),
        c <= 3 * s@.len(),
{
    let chars = chars_of(s);
    let mut column: usize = 0;
    let mut pos: usize = 0;
    let mut k: usize = 0;
    while k < chars.len()
        invariant
            k <= chars.len(),
            chars@ == s@,
            3 * s@.len() <= usize::MAX,
            column <= 3 * k,
            column + columns_from(chars@, k as int, pos as nat, byte_index as nat)
                == column_of_byte(s@, byte_index as nat),
        decreases chars.len() - k,
    {
        if pos >= byte_index {
            return column;
        }
        let ch = chars[k];
        let w = match char_display_width(ch) {
            Some(w) => w,
            None => 0,
        };
        column += w;
        let l = char_utf8_len(ch);
        if l > usize::MAX - pos {
            proof {
                assert(columns_from(chars@, k + 1, (pos + l) as nat, byte_index as nat) == 0);
            }
            return column;
        }
        pos += l;
        k += 1;
    }
    column
}

#[derive(Clone, Debug, PartialEq, Eq)]
pub enum ProfileLoadingStatus {
    /// Profiles are being loaded asynchronously
    Loading,
    /// Profiles have been loaded successfully
    Loaded,
    /// Failed to load profiles
    Error(String),
}

/// State of a Maven profile
#[derive(Clone, Copy, Debug, PartialEq, Eq, Structural)]
pub enum ProfileState {
    /// Profile follows Maven's auto-activation rules
    Default,
    /// Profile is explicitly enabled (will add to -P)
    ExplicitlyEnabled,
    /// Profile is explicitly disabled (will add !profile to -P)
    ExplicitlyDisabled,
}

/// Maven profile with activation state
#[derive(Clone, Debug)]
pub struct MavenProfile {
    pub name: String,
    pub state: ProfileState,
    /// Whether this profile is auto-activated by Maven (file, JDK, OS, etc.)
    pub auto_activated: bool,
}

/// Whether a profile in `state` is active when Maven runs.
pub open spec fn profile_active(state: ProfileState, auto_activated: bool) -> bool {
    match state {
        ProfileState::Default => auto_activated,
        ProfileState::ExplicitlyEnabled => true,
        ProfileState::ExplicitlyDisabled => false,
    }
}

/// The state that follows `state` when the profile is toggled.
pub open spec fn toggled_state(state: ProfileState, auto_activated: bool) -> ProfileState {
    match state {
        ProfileState::Default => if auto_activated {
            ProfileState::ExplicitlyDisabled
        } else {
            ProfileState::ExplicitlyEnabled
        },
        _ => ProfileState::Default,
    }
}

/// The `-P` argument for a profile: none in the default state, the name when
/// enabled, the name after `!` when disabled.
pub open spec fn profile_arg(name: Seq<char>, state: ProfileState) -> Option<Seq<char>> {
    match state {
        ProfileState::Default => None,
        ProfileState::ExplicitlyEnabled => Some(name),
        ProfileState::ExplicitlyDisabled => Some(seq!['!'] + name),
    }
}

/// A state that toggling can reach from the default one: only a profile that
/// is not auto-activated is ever explicitly enabled, and only an
/// auto-activated one is ever explicitly disabled.
pub open spec fn state_reachable(state: ProfileState, auto_activated: bool) -> bool {
    match state {
        ProfileState::Default => true,
        ProfileState::ExplicitlyEnabled => !auto_activated,
        ProfileState::ExplicitlyDisabled => auto_activated,
    }
}

impl MavenProfile {
    pub fn new(name: String, auto_activated: bool) -> (p: Self)
        ensures
            p.name@ == name@,
            p.state == ProfileState::Default,
            p.auto_activated == auto_activated,
    {
        Self { name, state: ProfileState::Default, auto_activated }
    }

    /// Returns true if this profile will be active when running Maven
    pub fn is_active(&self) -> (b: bool)
        ensures
            b == profile_active(self.state, self.auto_activated),
    {
        match self.state {
            ProfileState::Default => self.auto_activated,
            ProfileState::ExplicitlyEnabled => true,
            ProfileState::ExplicitlyDisabled => false,
        }
    }

    /// Returns the profile argument string for Maven (-P flag)
    /// Returns None if profile is in Default state
    pub fn to_maven_arg(&self) -> (r: Option<String>)
        ensures
            match r {
                Some(s) => profile_arg(self.name@, self.state) == Some(s@),
                None => profile_arg(self.name@, self.state) is None,
            },
    {
        match self.state {
            ProfileState::Default => None,
            ProfileState::ExplicitlyEnabled => Some(self.name.clone()),
            ProfileState::ExplicitlyDisabled => {
                let r = concat2("!", self.name.as_str());
                proof {
                    reveal_strlit("!");
                }
                Some(r)
            },
        }
    }

    /// Cycle through states when toggled
    pub fn toggle(&mut self)
        ensures
            final(self).name == old(self).name,
            final(self).auto_activated == old(self).auto_activated,
            final(self).state == toggled_state(old(self).state, old(self).auto_activated),
    {
        self.state = match self.state {
            ProfileState::Default => {
                if self.auto_activated {
                    ProfileState::ExplicitlyDisabled
                } else {
                    ProfileState::ExplicitlyEnabled
                }
            },
            ProfileState::ExplicitlyEnabled => ProfileState::Default,
            ProfileState::ExplicitlyDisabled => ProfileState::Default,
        };
    }
}

/// Toggling keeps a profile in a reachable state, toggling twice gives the
/// state back, and each toggle flips whether the profile is active.
pub proof fn lemma_toggle_laws(state: ProfileState, auto_activated: bool)
    requires
        state_reachable(state, auto_activated),
    ensures
        state_reachable(toggled_state(state, auto_activated), auto_activated),
        toggled_state(toggled_state(state, auto_activated), auto_activated) == state,
        profile_active(toggled_state(state, auto_activated), auto_activated) != profile_active(
            state,
            auto_activated,
        ),
{
}

/// Only the default state contributes no `-P` argument.
pub proof fn lemma_profile_arg_only_default_is_none(name: Seq<char>, state: ProfileState)
    ensures
        profile_arg(name, state) is None <==> state == ProfileState::Default,
{
}

/// Maven build flags that can be toggled
#[derive(Clone, Debug)]
pub struct BuildFlag {
    pub name: String,
    pub flag: String,
    pub enabled: bool,
}

} // verus!
