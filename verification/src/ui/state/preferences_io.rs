//! Per-module preferences: which profiles were explicitly enabled or
//! disabled and which build flags were on, saved when leaving a module and
//! restored when coming back to it.

use vstd::prelude::*;
use crate::strings::{concat2, contains_string, texts};
use crate::ui::state::types::{profile_arg, BuildFlag, MavenProfile, ProfileState};

verus! {

/// Preferences remembered for one module.
#[derive(Clone, Debug, Default)]
pub struct ModulePreferences {
    /// `-P` arguments of the explicitly set profiles (`name` or `!name`).
    pub active_profiles: Vec<String>,
    /// Flags that were enabled.
    pub enabled_flags: Vec<String>,
}

/// The arguments saved for a list of profiles: the `-P` argument of each
/// profile that is not in the default state, in order.
pub open spec fn saved_profile_args(ps: Seq<MavenProfile>) -> Seq<Seq<char>>
    decreases ps.len(),
{
    if ps.len() == 0 {
        seq![]
    } else {
        saved_profile_args(ps.drop_last()) + match profile_arg(ps.last().name@, ps.last().state) {
            Some(a) => seq![a],
            None => seq![],
        }
    }
}

/// The flags saved for a list of build flags: the flag of each enabled one,
/// in order.
pub open spec fn saved_flags(fs: Seq<BuildFlag>) -> Seq<Seq<char>>
    decreases fs.len(),
{
    if fs.len() == 0 {
        seq![]
    } else {
        saved_flags(fs.drop_last()) + if fs.last().enabled {
            seq![fs.last().flag@]
        } else {
            seq![]
        }
    }
}

/// The state a profile gets back from saved arguments: enabled when its name
/// is among them, otherwise disabled when `!name` is, otherwise default.
pub open spec fn restored_state(name: Seq<char>, saved: Seq<Seq<char>>) -> ProfileState {
    if saved.contains(name) {
        ProfileState::ExplicitlyEnabled
    } else if saved.contains(seq!['!'] + name) {
        ProfileState::ExplicitlyDisabled
    } else {
        ProfileState::Default
    }
}

/// The `-P` arguments to save for `profiles`.
pub fn explicit_profile_args(profiles: &[MavenProfile]) -> (r: Vec<String>)
    ensures
        texts(r@) == saved_profile_args(profiles@),
{
    let mut r: Vec<String> = Vec::new();
    let mut i: usize = 0;
    while i < profiles.len()
        invariant
            i <= profiles.len(),
            texts(r@) == saved_profile_args(profiles@.take(i as int)),
        decreases profiles.len() - i,
    {
        let ghost before = r@;
        match profiles[i].to_maven_arg() {
            Some(a) => {
                r.push(a);
            },
            None => {},
        }
        assert(profiles@.take(i + 1).drop_last() == profiles@.take(i as int));
        assert(texts(r@) == saved_profile_args(profiles@.take(i + 1)));
        i += 1;
    }
    assert(profiles@.take(profiles.len() as int) == profiles@);
    r
}

/// Names of the enabled flags.
pub fn enabled_flag_names(flags: &[BuildFlag]) -> (r: Vec<String>)
    ensures
        texts(r@) == saved_flags(flags@),
{
    let mut r: Vec<String> = Vec::new();
    let mut i: usize = 0;
    while i < flags.len()
        invariant
            i <= flags.len(),
            texts(r@) == saved_flags(flags@.take(i as int)),
        decreases flags.len() - i,
    {
        if flags[i].enabled {
            r.push(flags[i].flag.clone());
        }
        assert(flags@.take(i + 1).drop_last() == flags@.take(i as int));
        assert(texts(r@) == saved_flags(flags@.take(i + 1)));
        i += 1;
    }
    assert(flags@.take(flags.len() as int) == flags@);
    r
}

/// Preferences to save for a module with these profiles and flags.
pub fn module_preferences_for(profiles: &[MavenProfile], flags: &[BuildFlag]) -> (p:
    ModulePreferences)
    ensures
        texts(p.active_profiles@) == saved_profile_args(profiles@),
        texts(p.enabled_flags@) == saved_flags(flags@),
{
    ModulePreferences {
        active_profiles: explicit_profile_args(profiles),
        enabled_flags: enabled_flag_names(flags),
    }
}

/// Gives each profile back the state recorded in `prefs`.
pub fn restore_profile_states(profiles: &mut Vec<MavenProfile>, prefs: &ModulePreferences)
    ensures
        final(profiles)@.len() == old(profiles)@.len(),
        forall|i: int|
            0 <= i < old(profiles)@.len() ==> #[trigger] final(profiles)@[i].name == old(
                profiles,
            )@[i].name,
        forall|i: int|
            0 <= i < old(profiles)@.len() ==> #[trigger] final(profiles)@[i].auto_activated == old(
                profiles,
            )@[i].auto_activated,
        forall|i: int|
            0 <= i < old(profiles)@.len() ==> #[trigger] final(profiles)@[i].state
                == restored_state(old(profiles)@[i].name@, texts(prefs.active_profiles@)),
{
    let ghost orig = profiles@;
    let mut i: usize = 0;
    while i < profiles.len()
        invariant
            i <= profiles.len(),
            profiles@.len() == orig.len(),
            forall|j: int| 0 <= j < profiles@.len() ==> #[trigger] profiles@[j].name == orig[j].name,
            forall|j: int|
                0 <= j < profiles@.len() ==> #[trigger] profiles@[j].auto_activated
                    == orig[j].auto_activated,
            forall|j: int|
                0 <= j < i ==> #[trigger] profiles@[j].state == restored_state(
                    orig[j].name@,
                    texts(prefs.active_profiles@),
                ),
        decreases profiles.len() - i,
    {
        let disabled_name = concat2("!", profiles[i].name.as_str());
        proof {
            reveal_strlit("!");
            assert("!"@ =~= seq!['!']);
        }
        let state = if contains_string(&prefs.active_profiles, profiles[i].name.as_str()) {
            ProfileState::ExplicitlyEnabled
        } else if contains_string(&prefs.active_profiles, disabled_name.as_str()) {
            ProfileState::ExplicitlyDisabled
        } else {
            ProfileState::Default
        };
        assert(state == restored_state(profiles@[i as int].name@, texts(prefs.active_profiles@)));
        let updated = MavenProfile {
            name: profiles[i].name.clone(),
            state,
            auto_activated: profiles[i].auto_activated,
        };
        let ghost prev = profiles@;
        profiles.set(i, updated);
        proof {
            assert forall|j: int| 0 <= j < i + 1 implies #[trigger] profiles@[j].state
                == restored_state(orig[j].name@, texts(prefs.active_profiles@)) by {
                assert(prev[j].name == orig[j].name);
                if j < i {
                    assert(prev[j].state == restored_state(
                        orig[j].name@,
                        texts(prefs.active_profiles@),
                    ));
                }
            }
        }
        i += 1;
    }
}

/// Turns each flag on exactly when `prefs` lists it.
pub fn restore_flag_states(flags: &mut Vec<BuildFlag>, prefs: &ModulePreferences)
    ensures
        final(flags)@.len() == old(flags)@.len(),
        forall|i: int| 0 <= i < old(flags)@.len() ==> #[trigger] final(flags)@[i].name == old(flags)@[i].name,
        forall|i: int| 0 <= i < old(flags)@.len() ==> #[trigger] final(flags)@[i].flag == old(flags)@[i].flag,
        forall|i: int|
            0 <= i < old(flags)@.len() ==> #[trigger] final(flags)@[i].enabled == texts(
                prefs.enabled_flags@,
            ).contains(old(flags)@[i].flag@),
{
    let ghost orig = flags@;
    let mut i: usize = 0;
    while i < flags.len()
        invariant
            i <= flags.len(),
            flags@.len() == orig.len(),
            forall|j: int| 0 <= j < flags@.len() ==> #[trigger] flags@[j].name == orig[j].name,
            forall|j: int| 0 <= j < flags@.len() ==> #[trigger] flags@[j].flag == orig[j].flag,
            forall|j: int|
                0 <= j < i ==> #[trigger] flags@[j].enabled == texts(prefs.enabled_flags@).contains(
                    orig[j].flag@,
                ),
        decreases flags.len() - i,
    {
        let enabled = contains_string(&prefs.enabled_flags, flags[i].flag.as_str());
        let updated = BuildFlag {
            name: flags[i].name.clone(),
            flag: flags[i].flag.clone(),
            enabled,
        };
        let ghost prev = flags@;
        flags.set(i, updated);
        proof {
            assert forall|j: int| 0 <= j < i + 1 implies #[trigger] flags@[j].enabled == texts(
                prefs.enabled_flags@,
            ).contains(orig[j].flag@) by {
                assert(prev[j].flag == orig[j].flag);
                if j < i {
                    assert(prev[j].enabled == texts(prefs.enabled_flags@).contains(orig[j].flag@));
                }
            }
        }
        i += 1;
    }
}

/// Puts every profile back in the default state.
pub fn reset_profile_states(profiles: &mut Vec<MavenProfile>)
    ensures
        final(profiles)@.len() == old(profiles)@.len(),
        forall|i: int| 0 <= i < old(profiles)@.len() ==> #[trigger] final(profiles)@[i].name == old(profiles)@[i].name,
        forall|i: int|
            0 <= i < old(profiles)@.len() ==> #[trigger] final(profiles)@[i].auto_activated
                == old(profiles)@[i].auto_activated,
        forall|i: int|
            0 <= i < old(profiles)@.len() ==> #[trigger] final(profiles)@[i].state
                == ProfileState::Default,
{
    let ghost orig = profiles@;
    let mut i: usize = 0;
    while i < profiles.len()
        invariant
            i <= profiles.len(),
            profiles@.len() == orig.len(),
            forall|j: int| 0 <= j < profiles@.len() ==> #[trigger] profiles@[j].name == orig[j].name,
            forall|j: int|
                0 <= j < profiles@.len() ==> #[trigger] profiles@[j].auto_activated
                    == orig[j].auto_activated,
            forall|j: int| 0 <= j < i ==> #[trigger] profiles@[j].state == ProfileState::Default,
        decreases profiles.len() - i,
    {
        let updated = MavenProfile {
            name: profiles[i].name.clone(),
            state: ProfileState::Default,
            auto_activated: profiles[i].auto_activated,
        };
        let ghost prev = profiles@;
        profiles.set(i, updated);
        proof {
            assert forall|j: int| 0 <= j < i + 1 implies #[trigger] profiles@[j].state
                == ProfileState::Default by {
                if j < i {
                    assert(prev[j].state == ProfileState::Default);
                }
            }
        }
        i += 1;
    }
}

/// Load preferences (profiles and flags) for a module: with saved preferences
/// the profiles and flags get their saved states back; without, every
/// profile returns to the default state and the flags stay as they are.
pub fn apply_module_preferences(
    profiles: &mut Vec<MavenProfile>,
    flags: &mut Vec<BuildFlag>,
    prefs: Option<&ModulePreferences>,
)
    ensures
        final(profiles)@.len() == old(profiles)@.len(),
        final(flags)@.len() == old(flags)@.len(),
        forall|i: int| 0 <= i < old(profiles)@.len() ==> #[trigger] final(profiles)@[i].name == old(profiles)@[i].name,
        forall|i: int|
            0 <= i < old(profiles)@.len() ==> #[trigger] final(profiles)@[i].state == match prefs {
                Some(p) => restored_state(old(profiles)@[i].name@, texts(p.active_profiles@)),
                None => ProfileState::Default,
            },
        forall|i: int|
            0 <= i < old(flags)@.len() ==> #[trigger] final(flags)@[i].enabled == match prefs {
                Some(p) => texts(p.enabled_flags@).contains(old(flags)@[i].flag@),
                None => old(flags)@[i].enabled,
            },
        prefs is None ==> final(flags)@ == old(flags)@,
{
    match prefs {
        Some(p) => {
            restore_profile_states(profiles, p);
            restore_flag_states(flags, p);
        },
        None => {
            reset_profile_states(profiles);
        },
    }
}

/// An argument is saved for a list of profiles exactly when it is the
/// argument of one of them.
pub proof fn lemma_saved_profile_args_contains(ps: Seq<MavenProfile>, a: Seq<char>)
    ensures
        saved_profile_args(ps).contains(a) <==> exists|i: int|
            0 <= i < ps.len() && #[trigger] profile_arg(ps[i].name@, ps[i].state) == Some(a),
    decreases ps.len(),
{
    if ps.len() > 0 {
        let init = ps.drop_last();
        lemma_saved_profile_args_contains(init, a);
        let tail = match profile_arg(ps.last().name@, ps.last().state) {
            Some(x) => seq![x],
            None => seq![],
        };
        assert(saved_profile_args(ps) == saved_profile_args(init) + tail);
        if saved_profile_args(ps).contains(a) {
            let k = choose|k: int| 0 <= k < saved_profile_args(ps).len() && saved_profile_args(ps)[k] == a;
            if k < saved_profile_args(init).len() {
                assert(saved_profile_args(init)[k] == a);
                let i = choose|i: int| 0 <= i < init.len() && #[trigger] profile_arg(init[i].name@, init[i].state) == Some(a);
                assert(ps[i] == init[i]);
            } else {
                assert(profile_arg(ps[ps.len() - 1].name@, ps[ps.len() - 1].state) == Some(a));
            }
        }
        if exists|i: int| 0 <= i < ps.len() && #[trigger] profile_arg(ps[i].name@, ps[i].state) == Some(a) {
            let i = choose|i: int| 0 <= i < ps.len() && #[trigger] profile_arg(ps[i].name@, ps[i].state) == Some(a);
            if i < ps.len() - 1 {
                assert(init[i] == ps[i]);
                assert(saved_profile_args(init).contains(a));
                let k = choose|k: int| 0 <= k < saved_profile_args(init).len() && saved_profile_args(init)[k] == a;
                assert(saved_profile_args(ps)[k] == a);
            } else {
                assert(saved_profile_args(ps)[saved_profile_args(init).len() as int] == a);
            }
        }
    }
}

/// A flag is saved exactly when one of the enabled flags has it.
pub proof fn lemma_saved_flags_contains(fs: Seq<BuildFlag>, f: Seq<char>)
    ensures
        saved_flags(fs).contains(f) <==> exists|i: int|
            0 <= i < fs.len() && #[trigger] fs[i].enabled && fs[i].flag@ == f,
    decreases fs.len(),
{
    if fs.len() > 0 {
        let init = fs.drop_last();
        lemma_saved_flags_contains(init, f);
        let tail = if fs.last().enabled { seq![fs.last().flag@] } else { seq![] };
        assert(saved_flags(fs) == saved_flags(init) + tail);
        if saved_flags(fs).contains(f) {
            let k = choose|k: int| 0 <= k < saved_flags(fs).len() && saved_flags(fs)[k] == f;
            if k < saved_flags(init).len() {
                assert(saved_flags(init)[k] == f);
                let i = choose|i: int| 0 <= i < init.len() && #[trigger] init[i].enabled && init[i].flag@ == f;
                assert(fs[i] == init[i]);
            } else {
                assert(fs[fs.len() - 1].enabled && fs[fs.len() - 1].flag@ == f);
            }
        }
        if exists|i: int| 0 <= i < fs.len() && #[trigger] fs[i].enabled && fs[i].flag@ == f {
            let i = choose|i: int| 0 <= i < fs.len() && #[trigger] fs[i].enabled && fs[i].flag@ == f;
            if i < fs.len() - 1 {
                assert(init[i] == fs[i]);
                assert(saved_flags(init).contains(f));
                let k = choose|k: int| 0 <= k < saved_flags(init).len() && saved_flags(init)[k] == f;
                assert(saved_flags(fs)[k] == f);
            } else {
                assert(saved_flags(fs)[saved_flags(init).len() as int] == f);
            }
        }
    }
}

/// Saving a module's preferences and loading them back gives every profile
/// its state, provided the profile names are distinct and none begins with
/// `!` (a name `!x` would read as the disabled form of a profile `x`).
pub proof fn lemma_profile_preferences_round_trip(ps: Seq<MavenProfile>, k: int)
    requires
        0 <= k < ps.len(),
        forall|i: int, j: int| 0 <= i < j < ps.len() ==> ps[i].name@ != ps[j].name@,
        forall|i: int| 0 <= i < ps.len() ==> !(#[trigger] ps[i].name@.len() > 0 && ps[i].name@[0] == '!'),
    ensures
        restored_state(ps[k].name@, saved_profile_args(ps)) == ps[k].state,
{
    let name = ps[k].name@;
    let bang = seq!['!'] + name;
    lemma_saved_profile_args_contains(ps, name);
    lemma_saved_profile_args_contains(ps, bang);
    // No other profile produces the argument `name` or `!name`.
    assert forall|i: int| 0 <= i < ps.len() && i != k implies
        #[trigger] profile_arg(ps[i].name@, ps[i].state) != Some(name)
        && profile_arg(ps[i].name@, ps[i].state) != Some(bang) by {
        let other = ps[i].name@;
        if i < k {
            assert(other != name);
        } else {
            assert(other != name);
        }
        assert(!(other.len() > 0 && other[0] == '!'));
        assert(!(name.len() > 0 && name[0] == '!'));
        if (seq!['!'] + other) == name {
            assert(name[0] == '!');
        }
        if (seq!['!'] + other) == bang {
            assert(other =~= bang.drop_first());
            assert(name =~= bang.drop_first());
        }
        if other == bang {
            assert(other[0] == '!');
        }
    }
    assert(bang != name) by {
        if bang == name {
            assert(name[0] == '!');
        }
    }
    match ps[k].state {
        ProfileState::ExplicitlyEnabled => {
            assert(profile_arg(ps[k].name@, ps[k].state) == Some(name));
        },
        ProfileState::ExplicitlyDisabled => {
            assert(profile_arg(ps[k].name@, ps[k].state) == Some(bang));
            assert(!saved_profile_args(ps).contains(name));
        },
        ProfileState::Default => {
            assert(profile_arg(ps[k].name@, ps[k].state) is None);
            assert(!saved_profile_args(ps).contains(name));
            assert(!saved_profile_args(ps).contains(bang));
        },
    }
}

/// Saving the flags and loading them back turns on exactly the flags that
/// were on, provided no two flags have the same flag text.
pub proof fn lemma_flag_preferences_round_trip(fs: Seq<BuildFlag>, k: int)
    requires
        0 <= k < fs.len(),
        forall|i: int, j: int| 0 <= i < j < fs.len() ==> fs[i].flag@ != fs[j].flag@,
    ensures
        saved_flags(fs).contains(fs[k].flag@) == fs[k].enabled,
{
    lemma_saved_flags_contains(fs, fs[k].flag@);
    if saved_flags(fs).contains(fs[k].flag@) {
        let i = choose|i: int| 0 <= i < fs.len() && #[trigger] fs[i].enabled && fs[i].flag@ == fs[k].flag@;
        if i != k {
            if i < k {
                assert(fs[i].flag@ != fs[k].flag@);
            } else {
                assert(fs[k].flag@ != fs[i].flag@);
            }
        }
    }
}

} // verus!
