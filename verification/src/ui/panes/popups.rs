//! What the popups show: where a popup sits, list titles with counts, the
//! filter line, and the pieces of starter and custom-goal items.

use vstd::prelude::*;
use crate::strings::{chars_of, concat2, concat3, decimal, string_from_range, usize_to_string};
use crate::ui::panes::layout::PaneArea;

verus! {

/// A popup of the given percentages of `area`'s size, centred in it (the
/// position counted from the area's own origin).
pub open spec fn centered_area(area: PaneArea, width_percent: u16, height_percent: u16) -> PaneArea {
    let w = (area.width * width_percent) / 100;
    let h = (area.height * height_percent) / 100;
    PaneArea {
        x: (if area.width >= w { (area.width - w) / 2 } else { 0 }) as u16,
        y: (if area.height >= h { (area.height - h) / 2 } else { 0 }) as u16,
        width: w as u16,
        height: h as u16,
    }
}

/// Create a centered popup area with the given width and height percentages.
pub fn centered_popup_area(area: PaneArea, width_percent: u16, height_percent: u16) -> (r: PaneArea)
    requires
        area.width * width_percent <= u16::MAX,
        area.height * height_percent <= u16::MAX,
    ensures
        r == centered_area(area, width_percent, height_percent),
{
    let popup_width = (area.width * width_percent) / 100;
    let popup_height = (area.height * height_percent) / 100;
    let popup_x = area.width.saturating_sub(popup_width) / 2;
    let popup_y = area.height.saturating_sub(popup_height) / 2;
    PaneArea { x: popup_x, y: popup_y, width: popup_width, height: popup_height }
}

/// Title of a list popup: the label, then the empty note when the list is
/// empty, else the count and its unit, in parentheses.
pub open spec fn list_title_text(label: Seq<char>, count: nat, empty_note: Seq<char>, unit: Seq<char>) -> Seq<
    char,
> {
    if count == 0 {
        label + " ("@ + empty_note + ")"@
    } else {
        label + " ("@ + decimal(count) + " "@ + unit + ")"@
    }
}

/// Title of a list popup, such as "Recent Projects (3 matches)" or
/// "Recent Projects (no matches)".
pub fn list_title(label: &str, count: usize, empty_note: &str, unit: &str) -> (r: String)
    ensures
        r@ == list_title_text(label@, count as nat, empty_note@, unit@),
{
    if count == 0 {
        concat3(label, " (", concat2(empty_note, ")").as_str())
    } else {
        let head = concat3(label, " (", usize_to_string(count).as_str());
        concat3(head.as_str(), " ", concat2(unit, ")").as_str())
    }
}

/// The filter line of a popup: the placeholder (shown dimmed) while the
/// filter is empty, else the filter itself.
pub fn filter_display(filter: &str, placeholder: &str) -> (r: (String, bool))
    ensures
        r.1 == (filter@.len() == 0),
        r.0@ == (if filter@.len() == 0 {
            placeholder@
        } else {
            filter@
        }),
{
    if filter.is_empty() {
        (String::from_str(placeholder), true)
    } else {
        (String::from_str(filter), false)
    }
}

/// Position of the last `.` in `s`, if any.
pub open spec fn last_dot(s: Seq<char>) -> Option<int> {
    if exists|i: int| 0 <= i < s.len() && s[i] == '.' {
        Some(choose|i: int| 0 <= i < s.len() && s[i] == '.' && forall|j: int| i < j < s.len() ==> s[j] != '.')
    } else {
        None
    }
}

/// The package and class name of a starter's class: split at the last `.`,
/// the package being empty when there is none.
pub fn starter_name_parts(candidate: &str) -> (r: (String, String))
    ensures
        match last_dot(candidate@) {
            Some(i) => r.0@ == candidate@.subrange(0, i) && r.1@ == candidate@.subrange(
                i + 1,
                candidate@.len() as int,
            ),
            None => r.0@.len() == 0 && r.1@ == candidate@,
        },
{
    let cs = chars_of(candidate);
    let mut k: usize = cs.len();
    while k > 0 && cs[k - 1] != '.'
        invariant
            k <= cs@.len(),
            cs@ == candidate@,
            forall|j: int| k <= j < cs@.len() ==> cs@[j] != '.',
        decreases k,
    {
        k -= 1;
    }
    if k == 0 {
        assert(cs@.subrange(0, cs@.len() as int) =~= cs@);
        (String::new(), string_from_range(&cs, 0, cs.len()))
    } else {
        let i = k - 1;
        proof {
            let c = choose|c: int|
                0 <= c < cs@.len() && cs@[c] == '.' && forall|j: int| c < j < cs@.len() ==> cs@[j] != '.';
            assert(cs@[i as int] == '.');
            if c < i {
                assert(cs@[i as int] != '.');
            }
            if c > i {
                assert(cs@[c] != '.');
            }
        }
        (string_from_range(&cs, 0, i), string_from_range(&cs, k, cs.len()))
    }
}

/// The pieces of a cached starter's item: a star for the default starter
/// (blank otherwise), its label, and its class name in parentheses.
pub fn starter_item_pieces(is_default: bool, label: &str, class_name: &str) -> (r: Vec<String>)
    ensures
        r@.len() == 5,
        r@[0]@ == (if is_default {
            "★ "@
        } else {
            "  "@
        }),
        r@[1]@ == label@,
        r@[2]@ == " ("@,
        r@[3]@ == class_name@,
        r@[4]@ == ")"@,
{
    let mut r: Vec<String> = Vec::new();
    if is_default {
        r.push(String::from_str("★ "));
    } else {
        r.push(String::from_str("  "));
    }
    r.push(String::from_str(label));
    r.push(String::from_str(" ("));
    r.push(String::from_str(class_name));
    r.push(String::from_str(")"));
    r
}

/// The pieces of the item of the custom goal at `index`: its number counted
/// from one in brackets, its name, an arrow, and the goal.
pub fn custom_goal_item_pieces(index: usize, name: &str, goal: &str) -> (r: Vec<String>)
    requires
        index < usize::MAX,
    ensures
        r@.len() == 4,
        r@[0]@ == "["@ + decimal((index + 1) as nat) + "] "@,
        r@[1]@ == name@,
        r@[2]@ == " → "@,
        r@[3]@ == goal@,
{
    let mut r: Vec<String> = Vec::new();
    r.push(concat3("[", usize_to_string(index + 1).as_str(), "] "));
    r.push(String::from_str(name));
    r.push(String::from_str(" → "));
    r.push(String::from_str(goal));
    r
}

} // verus!
