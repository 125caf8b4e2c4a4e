//! Command history and favorites: filtering them by a case-insensitive
//! text, and applying an entry (or a favorite) to a project tab: its module
//! selected, its profiles and flags set, its goal split into arguments.
//!
//! Also which tab an entry of another project runs in. Loading that
//! project, opening its tab and running the command are the caller's part.

use vstd::prelude::*;
use crate::strings::{concat2, concat3, contains_seq, contains_string, lowercase_of, str_contains, str_equal, texts, to_lowercase};
use crate::ui::state::commands::{active_names, active_profile_names, enabled_flag_labels, enabled_labels};
use crate::ui::state::tabs::{first_with_root, TabSet, MAX_TABS};
use crate::ui::state::types::{profile_active, BuildFlag, MavenProfile, ProfileState};
use crate::utils::text::xml_formatter::{split_words, words};

verus! {

/// A command that was run: where, on which module, with which goal,
/// profiles and flags.
pub struct HistoryEntry {
    pub project_root: String,
    pub module: String,
    pub goal: String,
    pub profiles: Vec<String>,
    pub flags: Vec<String>,
}

/// A saved command, under a name.
pub struct Favorite {
    pub name: String,
    pub module: String,
    pub goal: String,
    pub profiles: Vec<String>,
    pub flags: Vec<String>,
}

/// The texts of a history entry: project root, module, goal, profiles,
/// flags.
pub open spec fn entry_view(e: HistoryEntry) -> (Seq<char>, Seq<char>, Seq<char>, Seq<Seq<char>>, Seq<Seq<char>>) {
    (e.project_root@, e.module@, e.goal@, texts(e.profiles@), texts(e.flags@))
}

/// The texts of a favorite: name, module, goal, profiles, flags.
pub open spec fn favorite_view(f: Favorite) -> (Seq<char>, Seq<char>, Seq<char>, Seq<Seq<char>>, Seq<Seq<char>>) {
    (f.name@, f.module@, f.goal@, texts(f.profiles@), texts(f.flags@))
}

/// Whether the text `t` contains the filter `f`, both in lower case.
pub open spec fn holds_filter(t: Seq<char>, f: Seq<char>) -> bool {
    contains_seq(lowercase_of(t), lowercase_of(f))
}

/// Whether one of the texts `ts` contains the filter `f`, ignoring case.
pub open spec fn any_holds_filter(ts: Seq<Seq<char>>, f: Seq<char>) -> bool {
    exists|i: int| 0 <= i < ts.len() && holds_filter(#[trigger] ts[i], f)
}

/// Whether a history entry matches the filter: its module, goal, one of its
/// profiles or one of its flags contains it, ignoring case.
pub open spec fn entry_matches(
    e: (Seq<char>, Seq<char>, Seq<char>, Seq<Seq<char>>, Seq<Seq<char>>),
    f: Seq<char>,
) -> bool {
    holds_filter(e.1, f) || holds_filter(e.2, f) || any_holds_filter(e.3, f) || any_holds_filter(e.4, f)
}

/// Whether a favorite matches the filter: its name, module, goal, one of
/// its profiles or one of its flags contains it, ignoring case.
pub open spec fn favorite_matches(
    v: (Seq<char>, Seq<char>, Seq<char>, Seq<Seq<char>>, Seq<Seq<char>>),
    f: Seq<char>,
) -> bool {
    holds_filter(v.0, f) || holds_filter(v.1, f) || holds_filter(v.2, f) || any_holds_filter(v.3, f)
        || any_holds_filter(v.4, f)
}

fn holds_lower(t: &str, lower_filter: &str, Ghost(f): Ghost<Seq<char>>) -> (b: bool)
    requires
        lower_filter@ == lowercase_of(f),
    ensures
        b == holds_filter(t@, f),
{
    let lower = to_lowercase(t);
    str_contains(lower.as_str(), lower_filter)
}

fn any_holds_lower(ts: &Vec<String>, lower_filter: &str, Ghost(f): Ghost<Seq<char>>) -> (b: bool)
    requires
        lower_filter@ == lowercase_of(f),
    ensures
        b == any_holds_filter(texts(ts@), f),
{
    let mut i: usize = 0;
    while i < ts.len()
        invariant
            i <= ts.len(),
            lower_filter@ == lowercase_of(f),
            forall|j: int| 0 <= j < i ==> !holds_filter(#[trigger] texts(ts@)[j], f),
        decreases ts.len() - i,
    {
        if holds_lower(ts[i].as_str(), lower_filter, Ghost(f)) {
            assert(texts(ts@)[i as int] == ts@[i as int]@);
            return true;
        }
        assert(texts(ts@)[i as int] == ts@[i as int]@);
        i += 1;
    }
    false
}

fn copy_texts(v: &Vec<String>) -> (r: Vec<String>)
    ensures
        texts(r@) == texts(v@),
{
    v.clone()
}

fn copy_entry(e: &HistoryEntry) -> (r: HistoryEntry)
    ensures
        entry_view(r) == entry_view(*e),
{
    HistoryEntry {
        project_root: e.project_root.clone(),
        module: e.module.clone(),
        goal: e.goal.clone(),
        profiles: copy_texts(&e.profiles),
        flags: copy_texts(&e.flags),
    }
}

fn copy_favorite(f: &Favorite) -> (r: Favorite)
    ensures
        favorite_view(r) == favorite_view(*f),
{
    Favorite {
        name: f.name.clone(),
        module: f.module.clone(),
        goal: f.goal.clone(),
        profiles: copy_texts(&f.profiles),
        flags: copy_texts(&f.flags),
    }
}

/// The history entries that the history filter selects, in their order:
/// all of them when the filter is empty, else those that match it.
pub fn get_filtered_history(entries: &Vec<HistoryEntry>, history_filter: &str) -> (r: Vec<HistoryEntry>)
    ensures
        history_filter@.len() == 0 ==> r@.map_values(|e: HistoryEntry| entry_view(e)) == entries@.map_values(
            |e: HistoryEntry| entry_view(e),
        ),
        history_filter@.len() > 0 ==> r@.map_values(|e: HistoryEntry| entry_view(e)) == entries@.map_values(
            |e: HistoryEntry| entry_view(e),
        ).filter(|v: (Seq<char>, Seq<char>, Seq<char>, Seq<Seq<char>>, Seq<Seq<char>>)| entry_matches(v, history_filter@)),
{
    let ghost all = entries@.map_values(|e: HistoryEntry| entry_view(e));
    let ghost pred = |v: (Seq<char>, Seq<char>, Seq<char>, Seq<Seq<char>>, Seq<Seq<char>>)| entry_matches(v, history_filter@);
    let empty = history_filter.is_empty();
    let filter = to_lowercase(history_filter);
    let mut out: Vec<HistoryEntry> = Vec::new();
    let mut i: usize = 0;
    while i < entries.len()
        invariant
            i <= entries.len(),
            all == entries@.map_values(|e: HistoryEntry| entry_view(e)),
            pred == (|v: (Seq<char>, Seq<char>, Seq<char>, Seq<Seq<char>>, Seq<Seq<char>>)| entry_matches(v, history_filter@)),
            filter@ == lowercase_of(history_filter@),
            empty == (history_filter@.len() == 0),
            empty ==> out@.map_values(|e: HistoryEntry| entry_view(e)) == all.take(i as int),
            !empty ==> out@.map_values(|e: HistoryEntry| entry_view(e)) == all.take(i as int).filter(pred),
        decreases entries.len() - i,
    {
        let e = &entries[i];
        let keep = empty || holds_lower(e.module.as_str(), filter.as_str(), Ghost(history_filter@))
            || holds_lower(e.goal.as_str(), filter.as_str(), Ghost(history_filter@))
            || any_holds_lower(&e.profiles, filter.as_str(), Ghost(history_filter@))
            || any_holds_lower(&e.flags, filter.as_str(), Ghost(history_filter@));
        proof {
            reveal(Seq::filter);
            assert(all.take(i + 1).drop_last() == all.take(i as int));
            assert(all.take(i + 1).last() == entry_view(entries@[i as int]));
        }
        let ghost before = out@;
        if keep {
            out.push(copy_entry(e));
            assert(out@.map_values(|e: HistoryEntry| entry_view(e)) =~= before.map_values(
                |e: HistoryEntry| entry_view(e),
            ).push(entry_view(entries@[i as int])));
        }
        i += 1;
    }
    assert(all.take(i as int) == all);
    out
}

/// The favorites that the favorites filter selects, in their order: all of
/// them when the filter is empty, else those that match it.
pub fn get_filtered_favorites(favorites: &Vec<Favorite>, favorites_filter: &str) -> (r: Vec<Favorite>)
    ensures
        favorites_filter@.len() == 0 ==> r@.map_values(|f: Favorite| favorite_view(f)) == favorites@.map_values(
            |f: Favorite| favorite_view(f),
        ),
        favorites_filter@.len() > 0 ==> r@.map_values(|f: Favorite| favorite_view(f)) == favorites@.map_values(
            |f: Favorite| favorite_view(f),
        ).filter(|v: (Seq<char>, Seq<char>, Seq<char>, Seq<Seq<char>>, Seq<Seq<char>>)| favorite_matches(v, favorites_filter@)),
{
    let ghost all = favorites@.map_values(|f: Favorite| favorite_view(f));
    let ghost pred = |v: (Seq<char>, Seq<char>, Seq<char>, Seq<Seq<char>>, Seq<Seq<char>>)| favorite_matches(v, favorites_filter@);
    let empty = favorites_filter.is_empty();
    let filter = to_lowercase(favorites_filter);
    let mut out: Vec<Favorite> = Vec::new();
    let mut i: usize = 0;
    while i < favorites.len()
        invariant
            i <= favorites.len(),
            all == favorites@.map_values(|f: Favorite| favorite_view(f)),
            pred == (|v: (Seq<char>, Seq<char>, Seq<char>, Seq<Seq<char>>, Seq<Seq<char>>)| favorite_matches(v, favorites_filter@)),
            filter@ == lowercase_of(favorites_filter@),
            empty == (favorites_filter@.len() == 0),
            empty ==> out@.map_values(|f: Favorite| favorite_view(f)) == all.take(i as int),
            !empty ==> out@.map_values(|f: Favorite| favorite_view(f)) == all.take(i as int).filter(pred),
        decreases favorites.len() - i,
    {
        let fav = &favorites[i];
        let keep = empty || holds_lower(fav.name.as_str(), filter.as_str(), Ghost(favorites_filter@))
            || holds_lower(fav.module.as_str(), filter.as_str(), Ghost(favorites_filter@))
            || holds_lower(fav.goal.as_str(), filter.as_str(), Ghost(favorites_filter@))
            || any_holds_lower(&fav.profiles, filter.as_str(), Ghost(favorites_filter@))
            || any_holds_lower(&fav.flags, filter.as_str(), Ghost(favorites_filter@));
        proof {
            reveal(Seq::filter);
            assert(all.take(i + 1).drop_last() == all.take(i as int));
            assert(all.take(i + 1).last() == favorite_view(favorites@[i as int]));
        }
        let ghost before = out@;
        if keep {
            out.push(copy_favorite(fav));
            assert(out@.map_values(|f: Favorite| favorite_view(f)) =~= before.map_values(
                |f: Favorite| favorite_view(f),
            ).push(favorite_view(favorites@[i as int])));
        }
        i += 1;
    }
    assert(all.take(i as int) == all);
    out
}

/// The state a profile gets when a command is applied again: a wanted
/// profile stays as it is when already active, else is enabled; a profile
/// not wanted is disabled when Maven activates it on its own, else goes back
/// to its default.
pub open spec fn applied_state(state: ProfileState, auto_activated: bool, wanted: bool) -> ProfileState {
    if wanted {
        if profile_active(state, auto_activated) {
            state
        } else {
            ProfileState::ExplicitlyEnabled
        }
    } else if auto_activated {
        ProfileState::ExplicitlyDisabled
    } else {
        ProfileState::Default
    }
}

/// After applying, a profile is active exactly when it is wanted.
pub proof fn lemma_applied_profile_active_iff_wanted(state: ProfileState, auto_activated: bool, wanted: bool)
    ensures
        profile_active(applied_state(state, auto_activated, wanted), auto_activated) == wanted,
{
}

/// Sets each profile for the profiles a command ran with (`wanted`, by
/// name): see `applied_state`.
pub fn apply_profile_selection(profiles: &mut Vec<MavenProfile>, wanted: &Vec<String>)
    ensures
        final(profiles)@.len() == old(profiles)@.len(),
        forall|i: int|
            0 <= i < old(profiles)@.len() ==> {
                &&& (#[trigger] final(profiles)@[i]).name == old(profiles)@[i].name
                &&& final(profiles)@[i].auto_activated == old(profiles)@[i].auto_activated
                &&& final(profiles)@[i].state == applied_state(
                    old(profiles)@[i].state,
                    old(profiles)@[i].auto_activated,
                    texts(wanted@).contains(old(profiles)@[i].name@),
                )
            },
{
    let ghost orig = profiles@;
    let mut i: usize = 0;
    while i < profiles.len()
        invariant
            i <= profiles.len(),
            profiles@.len() == orig.len(),
            forall|j: int|
                0 <= j < profiles@.len() ==> {
                    &&& (#[trigger] profiles@[j]).name == orig[j].name
                    &&& profiles@[j].auto_activated == orig[j].auto_activated
                    &&& j >= i ==> profiles@[j].state == orig[j].state
                    &&& j < i ==> profiles@[j].state == applied_state(
                        orig[j].state,
                        orig[j].auto_activated,
                        texts(wanted@).contains(orig[j].name@),
                    )
                },
        decreases profiles.len() - i,
    {
        let is_wanted = contains_string(wanted, profiles[i].name.as_str());
        let state = if is_wanted {
            if profiles[i].is_active() {
                profiles[i].state
            } else {
                ProfileState::ExplicitlyEnabled
            }
        } else if profiles[i].auto_activated {
            ProfileState::ExplicitlyDisabled
        } else {
            ProfileState::Default
        };
        let updated = MavenProfile {
            name: profiles[i].name.clone(),
            state,
            auto_activated: profiles[i].auto_activated,
        };
        profiles.set(i, updated);
        i += 1;
    }
}

/// Turns on exactly the flags a command ran with (`wanted`, by display
/// name).
pub fn apply_flag_selection(flags: &mut Vec<BuildFlag>, wanted: &Vec<String>)
    ensures
        final(flags)@.len() == old(flags)@.len(),
        forall|i: int|
            0 <= i < old(flags)@.len() ==> {
                &&& (#[trigger] final(flags)@[i]).name == old(flags)@[i].name
                &&& final(flags)@[i].flag == old(flags)@[i].flag
                &&& final(flags)@[i].enabled == texts(wanted@).contains(old(flags)@[i].name@)
            },
{
    let ghost orig = flags@;
    let mut i: usize = 0;
    while i < flags.len()
        invariant
            i <= flags.len(),
            flags@.len() == orig.len(),
            forall|j: int|
                0 <= j < flags@.len() ==> {
                    &&& (#[trigger] flags@[j]).name == orig[j].name
                    &&& flags@[j].flag == orig[j].flag
                    &&& j < i ==> flags@[j].enabled == texts(wanted@).contains(orig[j].name@)
                },
        decreases flags.len() - i,
    {
        let enabled = contains_string(wanted, flags[i].name.as_str());
        let updated = BuildFlag { name: flags[i].name.clone(), flag: flags[i].flag.clone(), enabled };
        flags.set(i, updated);
        i += 1;
    }
}

/// The position of the first module named `module`, if any.
pub fn module_index(modules: &Vec<String>, module: &str) -> (r: Option<usize>)
    ensures
        match r {
            Some(i) => i < modules@.len() && modules@[i as int]@ == module@ && forall|j: int|
                0 <= j < i ==> modules@[j]@ != module@,
            None => forall|j: int| 0 <= j < modules@.len() ==> modules@[j]@ != module@,
        },
{
    let mut i: usize = 0;
    while i < modules.len()
        invariant
            i <= modules.len(),
            forall|j: int| 0 <= j < i ==> modules@[j]@ != module@,
        decreases modules.len() - i,
    {
        if str_equal(modules[i].as_str(), module) {
            return Some(i);
        }
        i += 1;
    }
    None
}

/// What applying a command to a tab comes to.
pub enum Applied {
    /// Select the module at `module_index` and run `args`.
    Run { module_index: usize, args: Vec<String> },
    /// The module is not in the project: the output shows `output`.
    ModuleMissing { output: Vec<String> },
}

/// The model of what applying gives: the module's index and the goal's
/// words, or the error output.
pub open spec fn applied_model(a: Applied) -> Result<(usize, Seq<Seq<char>>), Seq<Seq<char>>> {
    match a {
        Applied::Run { module_index, args } => Ok((module_index, texts(args@))),
        Applied::ModuleMissing { output } => Err(texts(output@)),
    }
}

fn apply_command(
    modules: &Vec<String>,
    profiles: &mut Vec<MavenProfile>,
    flags: &mut Vec<BuildFlag>,
    module: &str,
    goal: &str,
    wanted_profiles: &Vec<String>,
    wanted_flags: &Vec<String>,
    missing_tail: &str,
) -> (r: Applied)
    ensures
        ({
            let found = exists|i: int| 0 <= i < modules@.len() && modules@[i]@ == module@;
            &&& !found ==> applied_model(r) == Err::<(usize, Seq<Seq<char>>), Seq<Seq<char>>>(
                seq!["Error: Module '"@ + module@ + missing_tail@],
            ) && final(profiles)@ == old(profiles)@ && final(flags)@ == old(flags)@
            &&& found ==> (r matches Applied::Run { module_index, args } && module_index < modules@.len()
                && modules@[module_index as int]@ == module@ && (forall|j: int|
                0 <= j < module_index ==> modules@[j]@ != module@) && texts(args@) == words(goal@))
            &&& found ==> final(profiles)@.len() == old(profiles)@.len() && forall|i: int|
                0 <= i < old(profiles)@.len() ==> {
                    &&& (#[trigger] final(profiles)@[i]).name == old(profiles)@[i].name
                    &&& final(profiles)@[i].auto_activated == old(profiles)@[i].auto_activated
                    &&& final(profiles)@[i].state == applied_state(
                        old(profiles)@[i].state,
                        old(profiles)@[i].auto_activated,
                        texts(wanted_profiles@).contains(old(profiles)@[i].name@),
                    )
                }
            &&& found ==> final(flags)@.len() == old(flags)@.len() && forall|i: int|
                0 <= i < old(flags)@.len() ==> {
                    &&& (#[trigger] final(flags)@[i]).name == old(flags)@[i].name
                    &&& final(flags)@[i].flag == old(flags)@[i].flag
                    &&& final(flags)@[i].enabled == texts(wanted_flags@).contains(old(flags)@[i].name@)
                }
        }),
{
    match module_index(modules, module) {
        None => {
            let mut output: Vec<String> = Vec::new();
            output.push(concat3("Error: Module '", module, missing_tail));
            assert(texts(output@) =~= seq![output@[0]@]);
            Applied::ModuleMissing { output }
        },
        Some(module_index) => {
            apply_profile_selection(profiles, wanted_profiles);
            apply_flag_selection(flags, wanted_flags);
            let args = split_words(goal);
            assert(args@.map_values(|w: String| w@) =~= texts(args@));
            Applied::Run { module_index, args }
        },
    }
}

/// Applies a history entry to the tab of its project, whose modules,
/// profiles and flags are given: when its module is there, the profiles and
/// flags are set as the entry ran (see `apply_profile_selection` and
/// `apply_flag_selection`) and the module's index and the goal's words are
/// returned; otherwise nothing changes and the error output is returned.
pub fn apply_history_entry(
    modules: &Vec<String>,
    profiles: &mut Vec<MavenProfile>,
    flags: &mut Vec<BuildFlag>,
    entry: &HistoryEntry,
) -> (r: Applied)
    ensures
        ({
            let found = exists|i: int| 0 <= i < modules@.len() && modules@[i]@ == entry.module@;
            &&& !found ==> applied_model(r) == Err::<(usize, Seq<Seq<char>>), Seq<Seq<char>>>(
                seq!["Error: Module '"@ + entry.module@ + "' not found in this project"@],
            ) && final(profiles)@ == old(profiles)@ && final(flags)@ == old(flags)@
            &&& found ==> (r matches Applied::Run { module_index, args } && module_index < modules@.len()
                && modules@[module_index as int]@ == entry.module@ && (forall|j: int|
                0 <= j < module_index ==> modules@[j]@ != entry.module@) && texts(args@) == words(entry.goal@))
            &&& found ==> final(profiles)@.len() == old(profiles)@.len() && forall|i: int|
                0 <= i < old(profiles)@.len() ==> {
                    &&& (#[trigger] final(profiles)@[i]).name == old(profiles)@[i].name
                    &&& final(profiles)@[i].auto_activated == old(profiles)@[i].auto_activated
                    &&& final(profiles)@[i].state == applied_state(
                        old(profiles)@[i].state,
                        old(profiles)@[i].auto_activated,
                        texts(entry.profiles@).contains(old(profiles)@[i].name@),
                    )
                }
            &&& found ==> final(flags)@.len() == old(flags)@.len() && forall|i: int|
                0 <= i < old(flags)@.len() ==> {
                    &&& (#[trigger] final(flags)@[i]).name == old(flags)@[i].name
                    &&& final(flags)@[i].flag == old(flags)@[i].flag
                    &&& final(flags)@[i].enabled == texts(entry.flags@).contains(old(flags)@[i].name@)
                }
        }),
{
    apply_command(
        modules,
        profiles,
        flags,
        entry.module.as_str(),
        entry.goal.as_str(),
        &entry.profiles,
        &entry.flags,
        "' not found in this project",
    )
}

/// Applies a favorite to the current tab, as `apply_history_entry` does
/// (with its own error message).
pub fn apply_favorite(
    modules: &Vec<String>,
    profiles: &mut Vec<MavenProfile>,
    flags: &mut Vec<BuildFlag>,
    favorite: &Favorite,
) -> (r: Applied)
    ensures
        ({
            let found = exists|i: int| 0 <= i < modules@.len() && modules@[i]@ == favorite.module@;
            &&& !found ==> applied_model(r) == Err::<(usize, Seq<Seq<char>>), Seq<Seq<char>>>(
                seq!["Error: Module '"@ + favorite.module@ + "' not found in current project"@],
            ) && final(profiles)@ == old(profiles)@ && final(flags)@ == old(flags)@
            &&& found ==> (r matches Applied::Run { module_index, args } && module_index < modules@.len()
                && modules@[module_index as int]@ == favorite.module@ && (forall|j: int|
                0 <= j < module_index ==> modules@[j]@ != favorite.module@) && texts(args@) == words(
                favorite.goal@,
            ))
            &&& found ==> final(profiles)@.len() == old(profiles)@.len() && forall|i: int|
                0 <= i < old(profiles)@.len() ==> {
                    &&& (#[trigger] final(profiles)@[i]).name == old(profiles)@[i].name
                    &&& final(profiles)@[i].auto_activated == old(profiles)@[i].auto_activated
                    &&& final(profiles)@[i].state == applied_state(
                        old(profiles)@[i].state,
                        old(profiles)@[i].auto_activated,
                        texts(favorite.profiles@).contains(old(profiles)@[i].name@),
                    )
                }
            &&& found ==> final(flags)@.len() == old(flags)@.len() && forall|i: int|
                0 <= i < old(flags)@.len() ==> {
                    &&& (#[trigger] final(flags)@[i]).name == old(flags)@[i].name
                    &&& final(flags)@[i].flag == old(flags)@[i].flag
                    &&& final(flags)@[i].enabled == texts(favorite.flags@).contains(old(flags)@[i].name@)
                }
        }),
{
    apply_command(
        modules,
        profiles,
        flags,
        favorite.module.as_str(),
        favorite.goal.as_str(),
        &favorite.profiles,
        &favorite.flags,
        "' not found in current project",
    )
}

/// The entry a favorite is saved from: the current project and module, the
/// active profiles and the enabled flags (by display name); the goal is
/// filled in when it is saved.
pub fn pending_favorite(project_root: &str, module: &str, profiles: &[MavenProfile], flags: &[BuildFlag]) -> (r:
    HistoryEntry)
    ensures
        entry_view(r) == (project_root@, module@, Seq::<char>::empty(), active_names(profiles@), enabled_labels(
            flags@,
        )),
{
    HistoryEntry {
        project_root: String::from_str(project_root),
        module: String::from_str(module),
        goal: String::new(),
        profiles: active_profile_names(profiles),
        flags: enabled_flag_labels(flags),
    }
}

/// The favorite saved under `name` from the pending entry, with `goal`.
pub fn favorite_from_pending(name: String, entry: HistoryEntry, goal: String) -> (r: Favorite)
    ensures
        favorite_view(r) == (name@, entry.module@, goal@, texts(entry.profiles@), texts(entry.flags@)),
{
    Favorite { name, module: entry.module, goal, profiles: entry.profiles, flags: entry.flags }
}

/// The position in `favorites` of the first favorite with the name, module
/// and goal of `target`.
pub fn favorite_position(favorites: &Vec<Favorite>, target: &Favorite) -> (r: Option<usize>)
    ensures
        match r {
            Some(i) => i < favorites@.len() && favorites@[i as int].name@ == target.name@ && favorites@[i as int].module@
                == target.module@ && favorites@[i as int].goal@ == target.goal@ && forall|j: int|
                0 <= j < i ==> !(favorites@[j].name@ == target.name@ && favorites@[j].module@ == target.module@
                    && favorites@[j].goal@ == target.goal@),
            None => forall|j: int|
                0 <= j < favorites@.len() ==> !(favorites@[j].name@ == target.name@ && favorites@[j].module@
                    == target.module@ && favorites@[j].goal@ == target.goal@),
        },
{
    let mut i: usize = 0;
    while i < favorites.len()
        invariant
            i <= favorites.len(),
            forall|j: int|
                0 <= j < i ==> !(favorites@[j].name@ == target.name@ && favorites@[j].module@ == target.module@
                    && favorites@[j].goal@ == target.goal@),
        decreases favorites.len() - i,
    {
        let f = &favorites[i];
        if str_equal(f.name.as_str(), target.name.as_str()) && str_equal(f.module.as_str(), target.module.as_str())
            && str_equal(f.goal.as_str(), target.goal.as_str()) {
            return Some(i);
        }
        i += 1;
    }
    None
}

/// The selection of a filtered list after the item at `selected` was
/// deleted, leaving `new_len` items: none when the list is empty, the last
/// item when the selection fell off its end, else unchanged.
pub fn selection_after_delete(selected: usize, new_len: usize) -> (r: Option<usize>)
    ensures
        r == (if new_len == 0 {
            None
        } else if selected >= new_len {
            Some((new_len - 1) as usize)
        } else {
            Some(selected)
        }),
        r matches Some(i) ==> i < new_len,
{
    if new_len == 0 {
        None
    } else if selected >= new_len {
        Some(new_len - 1)
    } else {
        Some(selected)
    }
}

/// Where a history entry is run, before anything is loaded.
#[derive(Clone, Copy, Debug, PartialEq, Eq, Structural)]
pub enum ProjectSwitch {
    /// The entry is of the active tab's project: run it there.
    Current,
    /// Another open tab has the entry's project: make the tab at this index
    /// active and run it there.
    SwitchTo(usize),
    /// No tab has the entry's project: load it, then see
    /// `history_tab_after_load`.
    Load,
}

/// Decides where a history entry of the project `entry_root` runs: in the
/// active tab when it has that project, else in the first open tab that
/// has it, else in a tab still to be opened.
pub fn history_project_switch(tabs: &TabSet, entry_root: &str) -> (r: ProjectSwitch)
    requires
        tabs.wf(),
        tabs.ids.len() > 0,
    ensures
        ({
            let roots = texts(tabs.project_roots@);
            &&& roots[tabs.active_tab_index as int] == entry_root@ ==> r == ProjectSwitch::Current
            &&& roots[tabs.active_tab_index as int] != entry_root@ && roots.contains(entry_root@) ==> exists|
                i: int,
            | first_with_root(roots, entry_root@, i) && r == ProjectSwitch::SwitchTo(i as usize)
            &&& !roots.contains(entry_root@) ==> r == ProjectSwitch::Load
        }),
{
    let active = tabs.active_tab_index;
    assert(texts(tabs.project_roots@)[active as int] == tabs.project_roots@[active as int]@);
    if str_equal(tabs.project_roots[active].as_str(), entry_root) {
        return ProjectSwitch::Current;
    }
    match tabs.find_tab_by_project(entry_root) {
        Some(i) => ProjectSwitch::SwitchTo(i),
        None => ProjectSwitch::Load,
    }
}

/// After loading the project of a history entry (`project` being its path's
/// debug text, `load_error` why it could not be loaded): a new tab may be
/// opened (and made active) when fewer than `MAX_TABS` are open; otherwise
/// the output to show instead.
pub fn history_tab_after_load(tab_count: usize, project: &str, load_error: Option<&str>) -> (r: Result<
    (),
    Vec<String>,
>)
    ensures
        match load_error {
            Some(e) => r matches Err(out) && texts(out@) == seq![
                "Error: Failed to load project "@ + project@ + ": "@ + e@,
            ],
            None => if tab_count < MAX_TABS {
                r is Ok
            } else {
                r matches Err(out) && texts(out@) == seq![
                    "Error: Cannot switch to project "@ + project@,
                    "Maximum 10 tabs reached. Close some tabs first."@,
                ]
            },
        },
{
    let mut out: Vec<String> = Vec::new();
    match load_error {
        Some(e) => {
            let head = concat3("Error: Failed to load project ", project, ": ");
            out.push(concat2(head.as_str(), e));
            assert(texts(out@) =~= seq![out@[0]@]);
            Err(out)
        },
        None => {
            if tab_count < MAX_TABS {
                Ok(())
            } else {
                out.push(concat2("Error: Cannot switch to project ", project));
                out.push(String::from_str("Maximum 10 tabs reached. Close some tabs first."));
                assert(texts(out@) =~= seq![out@[0]@, out@[1]@]);
                Err(out)
            }
        },
    }
}

} // verus!
