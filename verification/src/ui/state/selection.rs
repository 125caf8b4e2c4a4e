//! Toggling the selected profile or flag, and the selection a list gets
//! when its pane is entered.

use vstd::prelude::*;
use crate::ui::state::types::{toggled_state, BuildFlag, MavenProfile};

verus! {

/// The selection of a list when its pane is entered: the first item when
/// nothing is selected and the list has items, else unchanged.
pub fn selection_on_enter(selected: Option<usize>, len: usize) -> (r: Option<usize>)
    ensures
        r == (if selected is None && len > 0 { Some(0usize) } else { selected }),
{
    if selected.is_none() && len > 0 {
        Some(0)
    } else {
        selected
    }
}

/// Toggles the selected flag when the flags pane has the focus: the flag at
/// `selected` (if there is one) is turned on or off, the others stay.
/// Returns whether a flag changed (and the preferences are to be saved).
pub fn toggle_flag(flags: &mut Vec<BuildFlag>, flags_focused: bool, selected: Option<usize>) -> (changed: bool)
    ensures
        changed == (flags_focused && (selected matches Some(i) && i < old(flags)@.len())),
        final(flags)@.len() == old(flags)@.len(),
        forall|j: int|
            0 <= j < old(flags)@.len() ==> {
                &&& (#[trigger] final(flags)@[j]).name == old(flags)@[j].name
                &&& final(flags)@[j].flag == old(flags)@[j].flag
                &&& final(flags)@[j].enabled == (if changed && selected == Some(j as usize) {
                    !old(flags)@[j].enabled
                } else {
                    old(flags)@[j].enabled
                })
            },
{
    if !flags_focused {
        return false;
    }
    match selected {
        Some(i) => {
            if i < flags.len() {
                let updated = BuildFlag {
                    name: flags[i].name.clone(),
                    flag: flags[i].flag.clone(),
                    enabled: !flags[i].enabled,
                };
                flags.set(i, updated);
                true
            } else {
                false
            }
        },
        None => false,
    }
}

/// Toggles the selected profile when the profiles pane has the focus: the
/// profile at `selected` (if there is one) moves on to its next state, the
/// others stay. Returns whether a profile changed (and the preferences are
/// to be saved).
pub fn toggle_profile(profiles: &mut Vec<MavenProfile>, profiles_focused: bool, selected: Option<usize>) -> (changed:
    bool)
    ensures
        changed == (profiles_focused && (selected matches Some(i) && i < old(profiles)@.len())),
        final(profiles)@.len() == old(profiles)@.len(),
        forall|j: int|
            0 <= j < old(profiles)@.len() ==> {
                &&& (#[trigger] final(profiles)@[j]).name == old(profiles)@[j].name
                &&& final(profiles)@[j].auto_activated == old(profiles)@[j].auto_activated
                &&& final(profiles)@[j].state == (if changed && selected == Some(j as usize) {
                    toggled_state(old(profiles)@[j].state, old(profiles)@[j].auto_activated)
                } else {
                    old(profiles)@[j].state
                })
            },
{
    if !profiles_focused {
        return false;
    }
    match selected {
        Some(i) => {
            if i < profiles.len() {
                let mut p = MavenProfile {
                    name: profiles[i].name.clone(),
                    state: profiles[i].state,
                    auto_activated: profiles[i].auto_activated,
                };
                p.toggle();
                profiles.set(i, p);
                true
            } else {
                false
            }
        },
        None => false,
    }
}

} // verus!
