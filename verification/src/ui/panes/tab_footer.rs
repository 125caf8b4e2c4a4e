//! The tab bar: one label per open project, the active one in brackets,
//! separated by bars, with the position among the tabs when there are
//! several.

use vstd::prelude::*;
use crate::strings::{concat3, decimal, usize_to_string};

verus! {

/// How a piece of the tab bar is styled.
#[derive(Clone, Copy, Debug, PartialEq, Eq, Structural)]
pub enum TabPieceStyle {
    /// The active tab.
    Active,
    /// Another tab.
    Inactive,
    /// A separator between tabs.
    Separator,
    /// The position indicator.
    Dim,
}

/// The label of tab `idx` showing `name`: numbered from one, in brackets
/// when active.
pub open spec fn tab_label(idx: int, name: Seq<char>, active: bool) -> Seq<char> {
    if active {
        " ["@ + decimal((idx + 1) as nat) + "] "@ + name + " "@
    } else {
        "  "@ + decimal((idx + 1) as nat) + "  "@ + name + " "@
    }
}

/// The pieces for the first `k` tabs: each label, followed by a separator
/// unless it is the last tab.
pub open spec fn tab_pieces_upto(names: Seq<Seq<char>>, active: usize, k: int) -> Seq<
    (Seq<char>, TabPieceStyle),
>
    decreases k,
{
    if k <= 0 {
        seq![]
    } else {
        let i = k - 1;
        tab_pieces_upto(names, active, i) + seq![
            (
                tab_label(i, names[i], i == active),
                if i == active {
                    TabPieceStyle::Active
                } else {
                    TabPieceStyle::Inactive
                },
            ),
        ] + if i < names.len() - 1 {
            seq![("│"@, TabPieceStyle::Separator)]
        } else {
            seq![]
        }
    }
}

/// All pieces of the tab bar: nothing without tabs; the tab pieces, and
/// the position "(active/total)" when there is more than one tab.
pub open spec fn tab_bar_spec(names: Seq<Seq<char>>, active: usize) -> Seq<(Seq<char>, TabPieceStyle)> {
    if names.len() == 0 {
        seq![]
    } else {
        tab_pieces_upto(names, active, names.len() as int) + if names.len() > 1 {
            seq![
                (
                    " ("@ + decimal((active + 1) as nat) + "/"@ + decimal(names.len()) + ") "@,
                    TabPieceStyle::Dim,
                ),
            ]
        } else {
            seq![]
        }
    }
}

/// The texts and styles of tab-bar pieces.
pub open spec fn piece_texts(v: Seq<(String, TabPieceStyle)>) -> Seq<(Seq<char>, TabPieceStyle)> {
    v.map_values(|p: (String, TabPieceStyle)| (p.0@, p.1))
}

fn push_piece(out: &mut Vec<(String, TabPieceStyle)>, text: String, style: TabPieceStyle)
    ensures
        piece_texts(final(out)@) == piece_texts(old(out)@).push((text@, style)),
{
    out.push((text, style));
    assert(piece_texts(out@) =~= piece_texts(old(out)@).push((text@, style)));
}

/// The pieces of the tab bar for the projects `names` (each tab's project
/// directory name), `active_tab_index` being the active tab.
pub fn tab_bar_pieces(names: &[String], active_tab_index: usize) -> (r: Vec<(String, TabPieceStyle)>)
    requires
        active_tab_index < usize::MAX,
    ensures
        piece_texts(r@) == tab_bar_spec(names@.map_values(|n: String| n@), active_tab_index),
{
    let ghost ns = names@.map_values(|n: String| n@);
    let mut out: Vec<(String, TabPieceStyle)> = Vec::new();
    if names.len() == 0 {
        assert(piece_texts(out@) =~= seq![]);
        return out;
    }
    let mut idx: usize = 0;
    assert(piece_texts(out@) =~= tab_pieces_upto(ns, active_tab_index, 0));
    while idx < names.len()
        invariant
            idx <= names@.len(),
            names@.len() > 0,
            ns == names@.map_values(|n: String| n@),
            piece_texts(out@) == tab_pieces_upto(ns, active_tab_index, idx as int),
        decreases names.len() - idx,
    {
        let is_active = idx == active_tab_index;
        let number = usize_to_string(idx + 1);
        let label = if is_active {
            let head = concat3(" [", number.as_str(), "] ");
            concat3(head.as_str(), names[idx].as_str(), " ")
        } else {
            let head = concat3("  ", number.as_str(), "  ");
            concat3(head.as_str(), names[idx].as_str(), " ")
        };
        let style = if is_active {
            TabPieceStyle::Active
        } else {
            TabPieceStyle::Inactive
        };
        push_piece(&mut out, label, style);
        if idx < names.len() - 1 {
            push_piece(&mut out, String::from_str("│"), TabPieceStyle::Separator);
        }
        idx += 1;
    }
    if names.len() > 1 {
        let head = concat3(" (", usize_to_string(active_tab_index + 1).as_str(), "/");
        let text = concat3(head.as_str(), usize_to_string(names.len()).as_str(), ") ");
        push_piece(&mut out, text, TabPieceStyle::Dim);
    }
    out
}

} // verus!
