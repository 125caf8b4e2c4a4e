//! Auto-reload on file changes: whether the last command is one the watch
//! configuration reruns, and what to do when files change.

use vstd::prelude::*;
use crate::strings::{chars_of, contains_seq, str_contains, string_from_chars};

verus! {

/// `c` in ASCII lower case: `A`..`Z` become `a`..`z`, anything else stays.
pub open spec fn ascii_lower(c: char) -> char {
    if 'A' <= c && c <= 'Z' {
        ((c as u32) + 32) as char
    } else {
        c
    }
}

/// `s` in ASCII lower case.
pub open spec fn ascii_lowercase(s: Seq<char>) -> Seq<char> {
    s.map_values(|c: char| ascii_lower(c))
}

/// `s` in ASCII lower case (`str::to_ascii_lowercase`).
pub fn to_ascii_lowercase(s: &str) -> (r: String)
    ensures
        r@ == ascii_lowercase(s@),
{
    let cs = chars_of(s);
    let mut out: Vec<char> = Vec::new();
    let mut i: usize = 0;
    while i < cs.len()
        invariant
            i <= cs@.len(),
            cs@ == s@,
            out@ == ascii_lowercase(s@).take(i as int),
        decreases cs.len() - i,
    {
        let c = cs[i];
        let lower = if 'A' <= c && c <= 'Z' {
            let code = (c as u32) + 32;
            assert(97 <= code <= 122);
            let b = code as u8;
            b as char
        } else {
            c
        };
        proof {
            if 'A' <= c && c <= 'Z' {
                assert(lower == ((c as u32) + 32) as char);
            }
        }
        out.push(lower);
        assert(ascii_lowercase(s@).take(i + 1) =~= ascii_lowercase(s@).take(i as int).push(
            ascii_lower(c),
        ));
        i += 1;
    }
    assert(ascii_lowercase(s@).take(cs@.len() as int) =~= ascii_lowercase(s@));
    string_from_chars(&out)
}

/// Whether an argument (already in lower case) matches a watch term: it
/// contains the term in lower case, or the term is `start` or `run` and the
/// argument contains one of the usual launch goals.
pub open spec fn term_matches(arg_lower: Seq<char>, term: Seq<char>) -> bool {
    let term_lower = ascii_lowercase(term);
    contains_seq(arg_lower, term_lower) || ((term_lower == "start"@ || term_lower == "run"@) && (
    contains_seq(arg_lower, "spring-boot:run"@) || contains_seq(arg_lower, "exec:java"@)))
}

/// Whether a command argument (already in lower case) matches a watch term.
pub fn watch_term_matches(arg_lower: &str, term: &str) -> (b: bool)
    ensures
        b == term_matches(arg_lower@, term@),
{
    let term_lower = to_ascii_lowercase(term);
    if str_contains(arg_lower, term_lower.as_str()) {
        return true;
    }
    if crate::strings::str_equal(term_lower.as_str(), "start") || crate::strings::str_equal(
        term_lower.as_str(),
        "run",
    ) {
        str_contains(arg_lower, "spring-boot:run") || str_contains(arg_lower, "exec:java")
    } else {
        false
    }
}

/// Whether a command is rerun on file changes: one of its arguments, in
/// lower case, matches one of the watched command terms.
pub open spec fn command_watched(last_cmd: Seq<String>, commands: Seq<String>) -> bool {
    exists|i: int, j: int|
        0 <= i < last_cmd.len() && 0 <= j < commands.len() && term_matches(
            ascii_lowercase(#[trigger] last_cmd[i]@),
            #[trigger] commands[j]@,
        )
}

/// Whether the last command is one of the watched commands.
pub fn command_matches_watch_list(last_cmd: &[String], commands: &[String]) -> (b: bool)
    ensures
        b == command_watched(last_cmd@, commands@),
{
    let mut i: usize = 0;
    while i < last_cmd.len()
        invariant
            i <= last_cmd@.len(),
            forall|a: int, j: int|
                0 <= a < i && 0 <= j < commands@.len() ==> !term_matches(
                    ascii_lowercase(#[trigger] last_cmd@[a]@),
                    #[trigger] commands@[j]@,
                ),
        decreases last_cmd.len() - i,
    {
        let arg_lower = to_ascii_lowercase(last_cmd[i].as_str());
        let mut j: usize = 0;
        while j < commands.len()
            invariant
                i < last_cmd@.len(),
                j <= commands@.len(),
                arg_lower@ == ascii_lowercase(last_cmd@[i as int]@),
                forall|a: int, k: int|
                    0 <= a < i && 0 <= k < commands@.len() ==> !term_matches(
                        ascii_lowercase(#[trigger] last_cmd@[a]@),
                        #[trigger] commands@[k]@,
                    ),
                forall|k: int|
                    0 <= k < j ==> !term_matches(
                        ascii_lowercase(last_cmd@[i as int]@),
                        #[trigger] commands@[k]@,
                    ),
            decreases commands.len() - j,
        {
            if watch_term_matches(arg_lower.as_str(), commands[j].as_str()) {
                return true;
            }
            j += 1;
        }
        i += 1;
    }
    false
}

/// What to do before looking at the file watcher.
#[derive(Clone, Copy, Debug, PartialEq, Eq, Structural)]
pub enum WatchStep {
    /// Auto-reload is off: nothing to do.
    Stop,
    /// A rerun was left pending and the command is idle: rerun it now.
    RunPending,
    /// Look at the file watcher for changes.
    PollWatcher,
}

/// What to do about detected file changes.
#[derive(Clone, Copy, Debug, PartialEq, Eq, Structural)]
pub enum WatchReaction {
    /// Nothing to rerun.
    Ignore,
    /// Rerun the last command.
    Reload,
    /// Stop the running command, then rerun it.
    Restart,
}

/// The first step of auto-reload and whether a rerun stays pending: with
/// reload off nothing happens; a pending rerun of an idle command runs when
/// there is a last command, and is dropped otherwise.
pub fn pending_rerun_step(
    watch_enabled: bool,
    pending_rerun: bool,
    is_command_running: bool,
    has_last_command: bool,
) -> (r: (WatchStep, bool))
    ensures
        r == (if !watch_enabled {
            (WatchStep::Stop, pending_rerun)
        } else if pending_rerun && !is_command_running {
            if has_last_command {
                (WatchStep::RunPending, false)
            } else {
                (WatchStep::PollWatcher, false)
            }
        } else {
            (WatchStep::PollWatcher, pending_rerun)
        }),
{
    if !watch_enabled {
        return (WatchStep::Stop, pending_rerun);
    }
    if pending_rerun && !is_command_running {
        if has_last_command {
            (WatchStep::RunPending, false)
        } else {
            (WatchStep::PollWatcher, false)
        }
    } else {
        (WatchStep::PollWatcher, pending_rerun)
    }
}

/// The reaction to the watcher's report: files changed, there is a last
/// command and it is watched, so it is rerun, after stopping it when it is
/// still running.
pub fn change_reaction(
    files_changed: bool,
    has_last_command: bool,
    command_watched: bool,
    is_command_running: bool,
) -> (r: WatchReaction)
    ensures
        r == (if !files_changed || !has_last_command || !command_watched {
            WatchReaction::Ignore
        } else if is_command_running {
            WatchReaction::Restart
        } else {
            WatchReaction::Reload
        }),
{
    if !files_changed || !has_last_command || !command_watched {
        WatchReaction::Ignore
    } else if is_command_running {
        WatchReaction::Restart
    } else {
        WatchReaction::Reload
    }
}

/// The lines added to the output when the command is rerun: a blank line,
/// the notice (restarting a running command, or reloading), a blank line.
pub fn rerun_notice(restart: bool) -> (r: Vec<String>)
    ensures
        r@.len() == 3,
        r@[0]@.len() == 0,
        r@[1]@ == (if restart {
            "🔁 Files changed, restarting command..."@
        } else {
            "🔄 Files changed, reloading..."@
        }),
        r@[2]@.len() == 0,
{
    let mut r: Vec<String> = Vec::new();
    r.push(String::new());
    if restart {
        r.push(String::from_str("🔁 Files changed, restarting command..."));
    } else {
        r.push(String::from_str("🔄 Files changed, reloading..."));
    }
    r.push(String::new());
    r
}

} // verus!
