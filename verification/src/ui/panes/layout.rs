//! Adaptive layout of the screen: a tab bar, the content panes and a
//! footer, in one column on narrow or two columns on wide terminals, with
//! the focused pane expanded. The rectangles are computed by `ratatui`'s
//! layout solver from the constraints chosen here.

use vstd::prelude::*;
use ratatui::layout::{Constraint, Direction, Layout, Rect};

verus! {

/// The pane that has the keyboard focus.
#[derive(Clone, Copy, Debug, PartialEq, Eq, Structural)]
pub enum Focus {
    Projects,
    Modules,
    Profiles,
    Flags,
    Output,
}

/// A size constraint of one pane along the split direction.
#[derive(Clone, Copy, Debug, PartialEq, Eq, Structural)]
pub enum PaneConstraint {
    /// Exactly this many cells.
    Length(u16),
    /// At least this many cells.
    Min(u16),
    /// This percentage of the split area.
    Percentage(u16),
}

/// A rectangle of the terminal, in cells.
#[derive(Clone, Copy, Debug, PartialEq, Eq, Structural)]
pub struct PaneArea {
    pub x: u16,
    pub y: u16,
    pub width: u16,
    pub height: u16,
}

/// Height of the tab bar.
pub const TAB_BAR_HEIGHT: u16 = 2;

/// Height of the footer.
pub const FOOTER_HEIGHT: u16 = 10;

/// Output width below which the panes are stacked in one column.
pub const MIN_OUTPUT_WIDTH: u16 = 150;

/// Widest the left column may be in two-column mode.
pub const MAX_LEFT_WIDTH: u16 = 40;

/// Terminal height below which non-focused panes are collapsed further.
pub const SHORT_HEIGHT: u16 = 30;

/// Whether `part` spans the whole of `area` across the split direction.
pub open spec fn spans_across(area: PaneArea, part: PaneArea, vertical: bool) -> bool {
    if vertical {
        part.x == area.x && part.width == area.width
    } else {
        part.y == area.y && part.height == area.height
    }
}

/// Whether `part` lies within `area` along the split direction.
pub open spec fn within_along(area: PaneArea, part: PaneArea, vertical: bool) -> bool {
    if vertical {
        area.y <= part.y && part.y + part.height <= area.y + area.height
    } else {
        area.x <= part.x && part.x + part.width <= area.x + area.width
    }
}

/// Whether `parts` is an outcome of `ratatui`'s `Layout::split` for `area`
/// split vertically or horizontally by `constraints`. A relation, not a
/// function: the solver may give different outcomes for the same input.
pub uninterp spec fn layout_outcome(area: PaneArea, vertical: bool, constraints: Seq<PaneConstraint>, parts: Seq<PaneArea>) -> bool;

/// `Layout::split` (no margin): divides `area` vertically or horizontally
/// into one rectangle per constraint, in order, with `ratatui`'s constraint
/// solver. Trusted: the rectangles are an outcome of the split of this
/// area, direction and constraints; as the source shows, there is one
/// rectangle per constraint, each spanning the whole area across the split
/// direction and lying within it along that direction (the solver's
/// required constraints keep every bound inside the area, and the rounding
/// to whole cells keeps them there). Where each lies within the area, and
/// whether they come in order, rests on the solver's weighted constraints
/// and the order its hash maps are walked in, and is not stated.
#[verifier::external_body]
fn split_area(area: PaneArea, vertical: bool, constraints: &Vec<PaneConstraint>) -> (r: Vec<PaneArea>)
    ensures
        layout_outcome(area, vertical, constraints@, r@),
        r@.len() == constraints@.len(),
        forall|i: int| 0 <= i < r@.len() ==> spans_across(area, #[trigger] r@[i], vertical),
        forall|i: int| 0 <= i < r@.len() ==> within_along(area, #[trigger] r@[i], vertical),
{
    let direction = if vertical { Direction::Vertical } else { Direction::Horizontal };
    let cs: Vec<Constraint> = constraints.iter().map(|c| match *c {
        PaneConstraint::Length(n) => Constraint::Length(n),
        PaneConstraint::Min(n) => Constraint::Min(n),
        PaneConstraint::Percentage(n) => Constraint::Percentage(n),
    }).collect();
    let rect = Rect { x: area.x, y: area.y, width: area.width, height: area.height };
    let parts = Layout::new(direction, cs).split(rect);
    parts.iter().map(|r| PaneArea { x: r.x, y: r.y, width: r.width, height: r.height }).collect()
}

/// Width of the left column in two-column mode: 30% of the width, at most
/// `MAX_LEFT_WIDTH`.
pub open spec fn left_width_of(width: u16) -> int {
    let share = (width * 30) / 100;
    if share < MAX_LEFT_WIDTH {
        share
    } else {
        MAX_LEFT_WIDTH as int
    }
}

/// The panes are stacked in one column when the output would be narrower
/// than `MIN_OUTPUT_WIDTH` in two-column mode.
pub open spec fn is_narrow_width(width: u16) -> bool {
    width - left_width_of(width) < MIN_OUTPUT_WIDTH
}

/// Width of the left column in two-column mode.
pub fn left_column_width(width: u16) -> (w: u16)
    requires
        width * 30 <= u16::MAX,
    ensures
        w == left_width_of(width),
        w <= width,
        w <= MAX_LEFT_WIDTH,
{
    let share = (width * 30) / 100;
    if share < MAX_LEFT_WIDTH {
        share
    } else {
        MAX_LEFT_WIDTH
    }
}

/// The panes are in two columns exactly on terminals at least 190 columns
/// wide: only there does the output keep 150 columns beside a left column
/// of at most 40.
pub proof fn lemma_two_columns_from_190(width: u16)
    requires
        width * 30 <= u16::MAX,
    ensures
        is_narrow_width(width) <==> width < 190,
{
    let share = (width * 30) / 100;
    if width >= 190 {
        assert(share >= 40) by (nonlinear_arith)
            requires
                width >= 190,
                share == (width * 30) / 100,
        ;
    } else if width >= 134 {
        assert(share >= 40) by (nonlinear_arith)
            requires
                width >= 134,
                share == (width * 30) / 100,
        ;
    }
}

/// Index of a pane in the column: projects, modules, profiles, flags,
/// output; no focus counts as the output.
pub open spec fn focus_index(focus: Option<Focus>) -> int {
    match focus {
        Some(Focus::Projects) => 0,
        Some(Focus::Modules) => 1,
        Some(Focus::Profiles) => 2,
        Some(Focus::Flags) => 3,
        _ => 4,
    }
}

/// Constraints of the five panes stacked in one column: the focused one
/// takes at least 5 rows; the others one row each on a short terminal,
/// otherwise three rows, except the output which takes 30%.
pub open spec fn single_column_spec(focus: Option<Focus>, is_short: bool) -> Seq<PaneConstraint> {
    Seq::new(
        5,
        |i: int|
            if i == focus_index(focus) {
                PaneConstraint::Min(5)
            } else if is_short {
                PaneConstraint::Length(1)
            } else if i == 4 {
                PaneConstraint::Percentage(30)
            } else {
                PaneConstraint::Length(3)
            },
    )
}

/// Constraints of the four left panes in two-column mode: on a short
/// terminal with a left pane focused, that pane takes at least 5 rows and
/// the others three; otherwise three rows for the projects and 40%, 30%
/// and 30% for the others.
pub open spec fn left_column_spec(focus: Option<Focus>, is_short: bool) -> Seq<PaneConstraint> {
    if is_short && focus_index(focus) < 4 {
        Seq::new(
            4,
            |i: int|
                if i == focus_index(focus) {
                    PaneConstraint::Min(5)
                } else {
                    PaneConstraint::Length(3)
                },
        )
    } else {
        seq![
            PaneConstraint::Length(3),
            PaneConstraint::Percentage(40),
            PaneConstraint::Percentage(30),
            PaneConstraint::Percentage(30),
        ]
    }
}

/// Constraints of the five panes stacked in one column.
pub fn single_column_constraints(focus: Option<Focus>, is_short: bool) -> (r: Vec<PaneConstraint>)
    ensures
        r@ == single_column_spec(focus, is_short),
{
    let focused: usize = match focus {
        Some(Focus::Projects) => 0,
        Some(Focus::Modules) => 1,
        Some(Focus::Profiles) => 2,
        Some(Focus::Flags) => 3,
        _ => 4,
    };
    let mut r: Vec<PaneConstraint> = Vec::new();
    let mut i: usize = 0;
    while i < 5
        invariant
            i <= 5,
            focused == focus_index(focus),
            r@ == single_column_spec(focus, is_short).take(i as int),
        decreases 5 - i,
    {
        let c = if i == focused {
            PaneConstraint::Min(5)
        } else if is_short {
            PaneConstraint::Length(1)
        } else if i == 4 {
            PaneConstraint::Percentage(30)
        } else {
            PaneConstraint::Length(3)
        };
        r.push(c);
        assert(single_column_spec(focus, is_short).take(i + 1) =~= single_column_spec(
            focus,
            is_short,
        ).take(i as int).push(c));
        i += 1;
    }
    assert(single_column_spec(focus, is_short).take(5) =~= single_column_spec(focus, is_short));
    r
}

/// Constraints of the four left panes in two-column mode.
pub fn left_column_constraints(focus: Option<Focus>, is_short: bool) -> (r: Vec<PaneConstraint>)
    ensures
        r@ == left_column_spec(focus, is_short),
{
    let focused: usize = match focus {
        Some(Focus::Projects) => 0,
        Some(Focus::Modules) => 1,
        Some(Focus::Profiles) => 2,
        Some(Focus::Flags) => 3,
        _ => 4,
    };
    if is_short && focused < 4 {
        let mut r: Vec<PaneConstraint> = Vec::new();
        let mut i: usize = 0;
        while i < 4
            invariant
                i <= 4,
                focused == focus_index(focus),
                is_short && focused < 4,
                r@ == left_column_spec(focus, is_short).take(i as int),
            decreases 4 - i,
        {
            let c = if i == focused {
                PaneConstraint::Min(5)
            } else {
                PaneConstraint::Length(3)
            };
            r.push(c);
            assert(left_column_spec(focus, is_short).take(i + 1) =~= left_column_spec(
                focus,
                is_short,
            ).take(i as int).push(c));
            i += 1;
        }
        assert(left_column_spec(focus, is_short).take(4) =~= left_column_spec(focus, is_short));
        r
    } else {
        let r = vec![
            PaneConstraint::Length(3),
            PaneConstraint::Percentage(40),
            PaneConstraint::Percentage(30),
            PaneConstraint::Percentage(30),
        ];
        assert(r@ =~= left_column_spec(focus, is_short));
        r
    }
}

/// Whether the five areas `panes` are an outcome of stacking the panes in
/// one column in `content`, with the constraints for the focused pane and
/// the terminal's height.
pub open spec fn single_column_outcome(content: PaneArea, focus: Option<Focus>, is_short: bool, panes: Seq<
    PaneArea,
>) -> bool {
    panes.len() == 5 && layout_outcome(content, true, single_column_spec(focus, is_short), panes)
}

/// The constraints of the two columns of `content`: the left column's
/// width, and the rest.
pub open spec fn column_spec(content: PaneArea) -> Seq<PaneConstraint> {
    seq![
        PaneConstraint::Length(left_width_of(content.width) as u16),
        PaneConstraint::Length((content.width - left_width_of(content.width)) as u16),
    ]
}

/// Whether the five areas `panes` are an outcome of the two-column layout
/// of `content`: `content` split into `columns` by `column_spec`, the left
/// column split into the four left panes by the constraints for the
/// focused pane and the terminal's height, and the output being the right
/// column.
pub open spec fn two_column_outcome(
    content: PaneArea,
    focus: Option<Focus>,
    is_short: bool,
    columns: Seq<PaneArea>,
    panes: Seq<PaneArea>,
) -> bool {
    &&& columns.len() == 2
    &&& panes.len() == 5
    &&& layout_outcome(content, false, column_spec(content), columns)
    &&& layout_outcome(columns[0], true, left_column_spec(focus, is_short), panes.take(4))
    &&& panes[4] == columns[1]
}

/// The five pane areas of a layout's result: projects, modules, profiles,
/// flags, output.
pub open spec fn five_panes(r: (PaneArea, PaneArea, PaneArea, PaneArea, PaneArea, PaneArea)) -> Seq<PaneArea> {
    seq![r.0, r.1, r.2, r.3, r.4]
}

/// The five pane areas of the screen's layout: projects, modules, profiles,
/// flags, output (between the tab bar and the footer).
pub open spec fn screen_panes(r: (PaneArea, PaneArea, PaneArea, PaneArea, PaneArea, PaneArea, PaneArea)) -> Seq<
    PaneArea,
> {
    seq![r.1, r.2, r.3, r.4, r.5]
}

/// Whether a terminal of `height` rows is short: its non-focused panes
/// are collapsed further.
pub open spec fn is_short_height(height: u16) -> bool {
    height < SHORT_HEIGHT
}

/// The constraints of the screen's rows: tab bar, content, footer.
pub open spec fn screen_row_spec() -> Seq<PaneConstraint> {
    seq![
        PaneConstraint::Length(TAB_BAR_HEIGHT),
        PaneConstraint::Min(0),
        PaneConstraint::Length(FOOTER_HEIGHT),
    ]
}

/// The areas of the one-column layout from the five rectangles the content
/// was split into: projects, modules, profiles, flags and output, in that
/// order, then `footer_area`.
pub fn single_column_panes(blocks: &Vec<PaneArea>, footer_area: PaneArea) -> (r: (
    PaneArea,
    PaneArea,
    PaneArea,
    PaneArea,
    PaneArea,
    PaneArea,
))
    requires
        blocks@.len() == 5,
    ensures
        r == (blocks@[0], blocks@[1], blocks@[2], blocks@[3], blocks@[4], footer_area),
{
    (blocks[0], blocks[1], blocks[2], blocks[3], blocks[4], footer_area)
}

/// The areas of the two-column layout from the two columns the content was
/// split into and the four rectangles the left column was split into: the
/// four left panes in order, the output as the right column, then
/// `footer_area`.
pub fn two_column_panes(columns: &Vec<PaneArea>, left_blocks: &Vec<PaneArea>, footer_area: PaneArea) -> (r: (
    PaneArea,
    PaneArea,
    PaneArea,
    PaneArea,
    PaneArea,
    PaneArea,
))
    requires
        columns@.len() == 2,
        left_blocks@.len() == 4,
    ensures
        r == (left_blocks@[0], left_blocks@[1], left_blocks@[2], left_blocks@[3], columns@[1], footer_area),
{
    (left_blocks[0], left_blocks[1], left_blocks[2], left_blocks[3], columns[1], footer_area)
}

/// The areas of the screen from its three rows (tab bar, content, footer)
/// and the five pane areas laid out in the content: the tab bar, the
/// panes in order, and the footer row.
pub fn adaptive_panes(
    rows: &Vec<PaneArea>,
    panes: (PaneArea, PaneArea, PaneArea, PaneArea, PaneArea, PaneArea),
) -> (r: (PaneArea, PaneArea, PaneArea, PaneArea, PaneArea, PaneArea, PaneArea))
    requires
        rows@.len() == 3,
    ensures
        r == (rows@[0], panes.0, panes.1, panes.2, panes.3, panes.4, rows@[2]),
{
    (rows[0], panes.0, panes.1, panes.2, panes.3, panes.4, rows[2])
}

/// Single column layout for narrow terminals: the five panes stacked in
/// `content_area` with `single_column_constraints`; gives the projects,
/// modules, profiles, flags and output areas, each as wide as the content,
/// and `footer_area` unchanged.
pub fn create_single_column_layout(
    content_area: PaneArea,
    footer_area: PaneArea,
    focused_pane: Option<Focus>,
    is_short: bool,
) -> (r: (PaneArea, PaneArea, PaneArea, PaneArea, PaneArea, PaneArea))
    ensures
        single_column_outcome(content_area, focused_pane, is_short, five_panes(r)),
        spans_across(content_area, r.0, true) && within_along(content_area, r.0, true),
        spans_across(content_area, r.1, true) && within_along(content_area, r.1, true),
        spans_across(content_area, r.2, true) && within_along(content_area, r.2, true),
        spans_across(content_area, r.3, true) && within_along(content_area, r.3, true),
        spans_across(content_area, r.4, true) && within_along(content_area, r.4, true),
        r.5 == footer_area,
{
    let constraints = single_column_constraints(focused_pane, is_short);
    let blocks = split_area(content_area, true, &constraints);
    let r = single_column_panes(&blocks, footer_area);
    assert(blocks@ =~= seq![r.0, r.1, r.2, r.3, r.4]);
    r
}

/// Two column layout for wide terminals: `content_area` is split into a
/// left column of `left_column_width` cells and the output to its right;
/// the four left panes are stacked with `left_column_constraints`; gives
/// their areas (all as wide as the left column), the output area (as tall
/// as the content), and `footer_area` unchanged.
pub fn create_two_column_layout(
    content_area: PaneArea,
    footer_area: PaneArea,
    focused_pane: Option<Focus>,
    is_short: bool,
) -> (r: (PaneArea, PaneArea, PaneArea, PaneArea, PaneArea, PaneArea))
    requires
        content_area.width * 30 <= u16::MAX,
    ensures
        exists|columns: Seq<PaneArea>|
            #[trigger] two_column_outcome(content_area, focused_pane, is_short, columns, five_panes(r)) && spans_across(content_area, columns[0], false) && within_along(content_area, columns[0], false)
                && spans_across(columns[0], r.0, true) && within_along(columns[0], r.0, true)
                && spans_across(columns[0], r.1, true) && within_along(columns[0], r.1, true)
                && spans_across(columns[0], r.2, true) && within_along(columns[0], r.2, true)
                && spans_across(columns[0], r.3, true) && within_along(columns[0], r.3, true),
        r.0.x == r.1.x == r.2.x == r.3.x,
        r.0.width == r.1.width == r.2.width == r.3.width,
        spans_across(content_area, r.4, false) && within_along(content_area, r.4, false),
        r.5 == footer_area,
{
    let left_width = left_column_width(content_area.width);
    let right_width = content_area.width - left_width;
    let columns = vec![PaneConstraint::Length(left_width), PaneConstraint::Length(right_width)];
    assert(columns@ =~= column_spec(content_area));
    let content_chunks = split_area(content_area, false, &columns);
    let left_constraints = left_column_constraints(focused_pane, is_short);
    let left_blocks = split_area(content_chunks[0], true, &left_constraints);
    assert(spans_across(content_chunks[0], left_blocks[0], true));
    assert(spans_across(content_chunks[0], left_blocks[1], true));
    assert(spans_across(content_chunks[0], left_blocks[2], true));
    assert(spans_across(content_chunks[0], left_blocks[3], true));
    let r = two_column_panes(&content_chunks, &left_blocks, footer_area);
    proof {
        let panes = five_panes(r);
        assert(panes.take(4) =~= left_blocks@);
        assert(within_along(content_area, content_chunks@[0], false));
        assert(within_along(content_area, content_chunks@[1], false));
        assert(within_along(content_chunks@[0], left_blocks@[0], true));
        assert(within_along(content_chunks@[0], left_blocks@[1], true));
        assert(within_along(content_chunks@[0], left_blocks@[2], true));
        assert(within_along(content_chunks@[0], left_blocks@[3], true));
        assert(two_column_outcome(content_area, focused_pane, is_short, content_chunks@, panes));
    }
    r
}

/// Whether the terminal is treated as narrow (one column) and as short.
pub fn layout_mode(area: PaneArea) -> (r: (bool, bool))
    requires
        area.width * 30 <= u16::MAX,
    ensures
        r.0 == is_narrow_width(area.width),
        r.1 == (area.height < SHORT_HEIGHT),
{
    let potential_left_width = left_column_width(area.width);
    let potential_output_width = area.width - potential_left_width;
    (potential_output_width < MIN_OUTPUT_WIDTH, area.height < SHORT_HEIGHT)
}

/// Adaptive layout for the terminal `area` and the focused pane: a tab bar
/// of `TAB_BAR_HEIGHT` rows, the content and a footer of `FOOTER_HEIGHT`
/// rows stacked vertically; the content in one column when
/// `is_narrow_width`, else in two, with the focused pane expanded when the
/// terminal is short. Gives the tab bar, projects, modules, profiles,
/// flags, output and footer areas.
pub fn create_adaptive_layout(area: PaneArea, focused_pane: Option<Focus>) -> (r: (
    PaneArea,
    PaneArea,
    PaneArea,
    PaneArea,
    PaneArea,
    PaneArea,
    PaneArea,
))
    requires
        area.width * 30 <= u16::MAX,
    ensures
        exists|rows: Seq<PaneArea>|
            #[trigger] layout_outcome(area, true, screen_row_spec(), rows) && rows.len() == 3 && r.0 == rows[0]
                && r.6 == rows[2] && within_along(area, rows[1], true) && spans_across(area, rows[1], true) && (
            is_narrow_width(area.width) ==> single_column_outcome(
                rows[1],
                focused_pane,
                is_short_height(area.height),
                screen_panes(r),
            )) && (!is_narrow_width(area.width) ==> exists|columns: Seq<PaneArea>|
                #[trigger] two_column_outcome(
                    rows[1],
                    focused_pane,
                    is_short_height(area.height),
                    columns,
                    screen_panes(r),
                )),
        spans_across(area, r.0, true) && within_along(area, r.0, true),
        spans_across(area, r.6, true) && within_along(area, r.6, true),
        is_narrow_width(area.width) ==> {
            &&& r.1.width == area.width
            &&& r.2.width == area.width
            &&& r.3.width == area.width
            &&& r.4.width == area.width
            &&& r.5.width == area.width
        },
        !is_narrow_width(area.width) ==> r.1.width == r.2.width == r.3.width == r.4.width,
{
    let (is_narrow, is_short) = layout_mode(area);
    let rows = vec![
        PaneConstraint::Length(TAB_BAR_HEIGHT),
        PaneConstraint::Min(0),
        PaneConstraint::Length(FOOTER_HEIGHT),
    ];
    let vertical = split_area(area, true, &rows);
    let content_area = vertical[1];
    let footer_area = vertical[2];
    assert(spans_across(area, vertical[0], true));
    assert(spans_across(area, vertical[1], true));
    assert(spans_across(area, vertical[2], true));
    assert(rows@ =~= screen_row_spec());
    assert(within_along(area, vertical@[0], true));
    assert(within_along(area, vertical@[1], true));
    assert(within_along(area, vertical@[2], true));
    let panes = if is_narrow {
        create_single_column_layout(content_area, footer_area, focused_pane, is_short)
    } else {
        create_two_column_layout(content_area, footer_area, focused_pane, is_short)
    };
    let r = adaptive_panes(&vertical, panes);
    proof {
        assert(screen_panes(r) =~= five_panes(panes));
        assert(is_short == is_short_height(area.height));
        if !is_narrow {
            let columns = choose|c: Seq<PaneArea>|
                #[trigger] two_column_outcome(content_area, focused_pane, is_short, c, five_panes(panes));
            assert(two_column_outcome(vertical@[1], focused_pane, is_short_height(area.height), columns, screen_panes(r)));
        }
        assert(layout_outcome(area, true, screen_row_spec(), vertical@));
    }
    r
}

} // verus!
