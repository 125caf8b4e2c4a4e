//! Maven profiles of a tab: building them from the names Maven reports,
//! the state of their loading in the background (spinner, timeout, result),
//! and what the output shows for the selected profile.
//!
//! Asking Maven, the channel and the clock are the caller's part.

use vstd::prelude::*;
use crate::strings::{concat2, contains_string, texts};
use crate::ui::state::types::{MavenProfile, ProfileLoadingStatus, ProfileState};
use crate::utils::logger::reader::{lines_from, text_lines};

verus! {

/// Number of frames of the loading spinner.
pub const SPINNER_FRAME_COUNT: usize = 8;

/// How long profile loading may take, in nanoseconds (thirty seconds).
pub const PROFILE_LOADING_TIMEOUT_NANOS: u128 = 30_000_000_000;

/// The spinner frame shown at step `i` (taken modulo the frame count).
pub open spec fn spinner_frame_text(i: nat) -> Seq<char> {
    let k = i % 8;
    if k == 0 {
        "⠋"@
    } else if k == 1 {
        "⠙"@
    } else if k == 2 {
        "⠹"@
    } else if k == 3 {
        "⠸"@
    } else if k == 4 {
        "⠼"@
    } else if k == 5 {
        "⠴"@
    } else if k == 6 {
        "⠦"@
    } else {
        "⠧"@
    }
}

/// The loading status, as values.
pub enum LoadingModel {
    Loading,
    Loaded,
    Error(Seq<char>),
}

/// The model of a loading status.
pub open spec fn loading_model(s: ProfileLoadingStatus) -> LoadingModel {
    match s {
        ProfileLoadingStatus::Loading => LoadingModel::Loading,
        ProfileLoadingStatus::Loaded => LoadingModel::Loaded,
        ProfileLoadingStatus::Error(e) => LoadingModel::Error(e@),
    }
}

/// What the profiles channel gave at a poll.
pub enum ProfilesMessage {
    /// Nothing yet.
    Nothing,
    /// The loader went away without an answer.
    Disconnected,
    /// The loader's answer: the profile names, or why they could not be had.
    Received(Result<Vec<String>, String>),
}

/// The background loading of a tab's profiles.
pub struct ProfileLoading {
    /// Where loading stands.
    pub profile_loading_status: ProfileLoadingStatus,
    /// The spinner's step.
    pub profile_spinner_frame: usize,
    /// Whether an answer is awaited from the loader.
    pub receiving: bool,
    /// Whether the loading clock runs.
    pub loading_started: bool,
}

/// The message of a timed-out loading.
pub open spec fn timeout_message() -> Seq<char> {
    "Timeout: Profile loading took too long (>30s)"@
}

/// The message of a loader that went away.
pub open spec fn disconnected_message() -> Seq<char> {
    "Profile loading channel disconnected"@
}

impl ProfileLoading {
    /// Nothing loading: profiles count as loaded.
    pub fn new() -> (s: Self)
        ensures
            loading_model(s.profile_loading_status) == LoadingModel::Loaded,
            s.profile_spinner_frame == 0,
            !s.receiving,
            !s.loading_started,
    {
        ProfileLoading {
            profile_loading_status: ProfileLoadingStatus::Loaded,
            profile_spinner_frame: 0,
            receiving: false,
            loading_started: false,
        }
    }

    /// Loading starts: an answer is awaited, the clock runs and the spinner
    /// starts over.
    pub fn start_loading_profiles(&mut self)
        ensures
            loading_model(final(self).profile_loading_status) == LoadingModel::Loading,
            final(self).profile_spinner_frame == 0,
            final(self).receiving,
            final(self).loading_started,
    {
        self.profile_loading_status = ProfileLoadingStatus::Loading;
        self.profile_spinner_frame = 0;
        self.receiving = true;
        self.loading_started = true;
    }

    /// The spinner's current frame.
    pub fn profile_loading_spinner(&self) -> (r: &'static str)
        ensures
            r@ == spinner_frame_text(self.profile_spinner_frame as nat),
    {
        let k = self.profile_spinner_frame % SPINNER_FRAME_COUNT;
        if k == 0 {
            "⠋"
        } else if k == 1 {
            "⠙"
        } else if k == 2 {
            "⠹"
        } else if k == 3 {
            "⠸"
        } else if k == 4 {
            "⠼"
        } else if k == 5 {
            "⠴"
        } else if k == 6 {
            "⠦"
        } else {
            "⠧"
        }
    }

    /// One poll, `elapsed_nanos` after loading started: the spinner moves on
    /// while loading; a loading that runs longer than thirty seconds fails
    /// with a timeout; otherwise the loader's answer, if one is awaited and
    /// came, ends the loading. Returns the profile names to set when they
    /// came.
    pub fn poll_profiles_updates(&mut self, elapsed_nanos: u128, message: ProfilesMessage) -> (r: Option<
        Vec<String>,
    >)
        ensures
            final(self).profile_spinner_frame == (if loading_model(old(self).profile_loading_status)
                is Loading {
                ((old(self).profile_spinner_frame + 1) % 8) as usize
            } else {
                old(self).profile_spinner_frame
            }),
            ({
                let timed_out = old(self).loading_started && elapsed_nanos > PROFILE_LOADING_TIMEOUT_NANOS;
                let ends = timed_out || (old(self).receiving && !(message is Nothing));
                &&& timed_out ==> loading_model(final(self).profile_loading_status) == LoadingModel::Error(
                    timeout_message(),
                ) && r is None
                &&& ends ==> !final(self).receiving && !final(self).loading_started
                &&& !ends ==> final(self).receiving == old(self).receiving && final(self).loading_started
                    == old(self).loading_started && loading_model(final(self).profile_loading_status)
                    == loading_model(old(self).profile_loading_status) && r is None
                &&& !timed_out && old(self).receiving ==> match message {
                    ProfilesMessage::Nothing => true,
                    ProfilesMessage::Disconnected => loading_model(final(self).profile_loading_status)
                        == LoadingModel::Error(disconnected_message()) && r is None,
                    ProfilesMessage::Received(Ok(names)) => loading_model(final(self).profile_loading_status)
                        == LoadingModel::Loaded && (r matches Some(v) && texts(v@) == texts(names@)),
                    ProfilesMessage::Received(Err(e)) => loading_model(final(self).profile_loading_status)
                        == LoadingModel::Error(e@) && r is None,
                }
            }),
    {
        let loading = match self.profile_loading_status {
            ProfileLoadingStatus::Loading => true,
            _ => false,
        };
        if loading {
            let f = self.profile_spinner_frame;
            self.profile_spinner_frame = (f % SPINNER_FRAME_COUNT + 1) % SPINNER_FRAME_COUNT;
            proof {
                vstd::arithmetic::div_mod::lemma_add_mod_noop(f as int, 1, 8);
                vstd::arithmetic::div_mod::lemma_small_mod(1, 8);
            }
        }
        if self.loading_started && elapsed_nanos > PROFILE_LOADING_TIMEOUT_NANOS {
            self.profile_loading_status = ProfileLoadingStatus::Error(
                String::from_str("Timeout: Profile loading took too long (>30s)"),
            );
            self.receiving = false;
            self.loading_started = false;
            return None;
        }
        if !self.receiving {
            return None;
        }
        match message {
            ProfilesMessage::Nothing => None,
            ProfilesMessage::Disconnected => {
                self.profile_loading_status = ProfileLoadingStatus::Error(
                    String::from_str("Profile loading channel disconnected"),
                );
                self.receiving = false;
                self.loading_started = false;
                None
            },
            ProfilesMessage::Received(Ok(names)) => {
                self.profile_loading_status = ProfileLoadingStatus::Loaded;
                self.receiving = false;
                self.loading_started = false;
                Some(names)
            },
            ProfilesMessage::Received(Err(e)) => {
                self.profile_loading_status = ProfileLoadingStatus::Error(e);
                self.receiving = false;
                self.loading_started = false;
                None
            },
        }
    }
}

/// The profiles for the names Maven reports, in order: each in its default
/// state, auto-activated when its name is among `auto_activated`. Also the
/// selection the profile list gets: the first profile, or none (left as it
/// was) when there are no profiles.
pub fn set_profiles(profile_names: Vec<String>, auto_activated: &Vec<String>) -> (r: (
    Vec<MavenProfile>,
    Option<usize>,
))
    ensures
        r.0@.len() == profile_names@.len(),
        forall|i: int|
            0 <= i < profile_names@.len() ==> {
                &&& (#[trigger] r.0@[i]).name@ == profile_names@[i]@
                &&& r.0@[i].state == ProfileState::Default
                &&& r.0@[i].auto_activated == texts(auto_activated@).contains(profile_names@[i]@)
            },
        r.1 == (if profile_names@.len() > 0 { Some(0usize) } else { None }),
{
    let mut profiles: Vec<MavenProfile> = Vec::new();
    let mut i: usize = 0;
    while i < profile_names.len()
        invariant
            i <= profile_names@.len(),
            profiles@.len() == i,
            forall|j: int|
                0 <= j < i ==> {
                    &&& (#[trigger] profiles@[j]).name@ == profile_names@[j]@
                    &&& profiles@[j].state == ProfileState::Default
                    &&& profiles@[j].auto_activated == texts(auto_activated@).contains(profile_names@[j]@)
                },
        decreases profile_names.len() - i,
    {
        let name = profile_names[i].clone();
        let is_auto = contains_string(auto_activated, name.as_str());
        profiles.push(MavenProfile::new(name, is_auto));
        i += 1;
    }
    let selected = if profiles.len() > 0 {
        Some(0)
    } else {
        None
    };
    (profiles, selected)
}

/// The output for the selected profile named `name`: when its XML was
/// found, in the POM at `pom_path` (relative to the project), a header, the
/// POM's path, an empty line and the XML's lines; otherwise a note that it
/// was not found.
pub fn profile_output(name: &str, found: Option<(&str, &str)>) -> (r: Vec<String>)
    ensures
        texts(r@) == match found {
            Some((xml, pom_path)) => seq!["Profile: "@ + name@, "From: "@ + pom_path@, Seq::empty()] + lines_from(
                xml@,
                0,
            ),
            None => seq!["Profile: "@ + name@, Seq::empty(), "XML not found in POM files."@],
        },
{
    let mut r: Vec<String> = Vec::new();
    r.push(concat2("Profile: ", name));
    match found {
        Some((xml, pom_path)) => {
            r.push(concat2("From: ", pom_path));
            r.push(String::new());
            let ghost head = texts(r@);
            let mut lines = text_lines(xml);
            r.append(&mut lines);
            assert(texts(r@) =~= head + lines_from(xml@, 0));
        },
        None => {
            r.push(String::new());
            r.push(String::from_str("XML not found in POM files."));
        },
    }
    proof {
        assert(texts(r@)[0] == r@[0]@);
    }
    assert(texts(r@) =~= match found {
        Some((xml, pom_path)) => seq!["Profile: "@ + name@, "From: "@ + pom_path@, Seq::empty()] + lines_from(
            xml@,
            0,
        ),
        None => seq!["Profile: "@ + name@, Seq::empty(), "XML not found in POM files."@],
    });
    r
}

/// The output when no profile is selected.
pub fn no_profile_selected_output() -> (r: Vec<String>)
    ensures
        texts(r@) == seq!["No profile selected."@],
{
    let mut r: Vec<String> = Vec::new();
    r.push(String::from_str("No profile selected."));
    assert(texts(r@) =~= seq![r@[0]@]);
    r
}

} // verus!
