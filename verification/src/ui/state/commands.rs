//! What the updates of a running Maven command do to a tab: the output
//! buffer (trimmed to its limit), whether the command still runs, its
//! process id, the notification to send, and whether the view follows the
//! output.
//!
//! Also what starting a command for the selected module amounts to: the
//! arguments handed to Maven and what is recorded about the run.
//!
//! Receiving the updates from the command's channel, starting the process,
//! sending the notification and scrolling are the caller's part.

use vstd::prelude::*;
use crate::strings::{concat2, concat3, texts};
use crate::ui::panes::basic_panes::{join_strings, joined};
use crate::ui::state::preferences_io::{enabled_flag_names, explicit_profile_args, saved_flags, saved_profile_args};
use crate::ui::state::types::{profile_active, BuildFlag, MavenProfile};

verus! {

/// One update from a running command.
pub enum CommandUpdate {
    /// The command's process started, with this id.
    Started(u32),
    /// A line of output.
    OutputLine(String),
    /// The command succeeded.
    Completed,
    /// The command failed, with this message.
    Error(String),
}

/// The state of a tab's command that updates change.
pub struct CommandRun {
    /// The output buffer.
    pub command_output: Vec<String>,
    /// Whether a command is running.
    pub is_command_running: bool,
    /// The running command's process id, when known.
    pub running_process_pid: Option<u32>,
    /// Whether updates are still received from the command.
    pub has_receiver: bool,
}

/// A desktop notification to send.
pub struct Notification {
    pub title: String,
    pub body: String,
    pub success: bool,
}

/// What one poll of updates asks the caller to do.
pub struct PollOutcome {
    /// Some output lines arrived.
    pub had_output_lines: bool,
    /// The notification to send (that of the last completion or failure).
    pub notification: Option<Notification>,
    /// Scroll the output to its end.
    pub follow_output: bool,
    /// Store the output for the selected module and drop cached metrics.
    pub store_output: bool,
}

/// The state of a command run, as values.
pub struct RunModel {
    pub output: Seq<Seq<char>>,
    pub running: bool,
    pub pid: Option<u32>,
    pub receiving: bool,
}

/// The model of a command run.
pub open spec fn run_model(r: CommandRun) -> RunModel {
    RunModel {
        output: texts(r.command_output@),
        running: r.is_command_running,
        pid: r.running_process_pid,
        receiving: r.has_receiver,
    }
}

/// The last `max` lines of `out` (all of them when there are no more).
pub open spec fn keep_last(out: Seq<Seq<char>>, max: nat) -> Seq<Seq<char>> {
    if out.len() > max {
        out.skip(out.len() - max)
    } else {
        out
    }
}

/// The line that reports success.
pub open spec fn completed_line() -> Seq<char> {
    "✓ Command completed successfully"@
}

/// The line that reports a failure with message `msg`.
pub open spec fn failed_line(msg: Seq<char>) -> Seq<char> {
    "✗ "@ + msg
}

/// The run after the command finished: an empty line and `last_line` are
/// added, and it no longer runs, is no longer received and has no process.
pub open spec fn finished(s: RunModel, last_line: Seq<char>) -> RunModel {
    RunModel { output: s.output.push(Seq::empty()).push(last_line), running: false, pid: None, receiving: false }
}

/// The run after update `u`, with at most `max` lines kept after an output
/// line.
pub open spec fn after_update(s: RunModel, u: CommandUpdate, max: nat) -> RunModel {
    match u {
        CommandUpdate::Started(pid) => RunModel { pid: Some(pid), ..s },
        CommandUpdate::OutputLine(l) => RunModel { output: keep_last(s.output.push(l@), max), ..s },
        CommandUpdate::Completed => finished(s, completed_line()),
        CommandUpdate::Error(m) => finished(s, failed_line(m@)),
    }
}

/// The run after the updates `us`, in order.
pub open spec fn after_updates(s: RunModel, us: Seq<CommandUpdate>, max: nat) -> RunModel
    decreases us.len(),
{
    if us.len() == 0 {
        s
    } else {
        after_update(after_updates(s, us.drop_last(), max), us.last(), max)
    }
}

/// The notification of update `u`, if it ends the command: title, body and
/// whether it succeeded.
pub open spec fn notification_of(u: CommandUpdate) -> Option<(Seq<char>, Seq<char>, bool)> {
    match u {
        CommandUpdate::Completed => Some(
            ("LazyMVN - Build Complete"@, "Maven command completed successfully ✓"@, true),
        ),
        CommandUpdate::Error(m) => Some(("LazyMVN - Build Failed"@, "Maven command failed: "@ + m@, false)),
        _ => None,
    }
}

/// The notification of the last update among `us` that ends the command.
pub open spec fn last_notification(us: Seq<CommandUpdate>) -> Option<(Seq<char>, Seq<char>, bool)>
    decreases us.len(),
{
    if us.len() == 0 {
        None
    } else {
        match notification_of(us.last()) {
            Some(n) => Some(n),
            None => last_notification(us.drop_last()),
        }
    }
}

/// Whether one of `us` is an output line.
pub open spec fn has_output_line(us: Seq<CommandUpdate>) -> bool {
    exists|i: int| 0 <= i < us.len() && us[i] is OutputLine
}

/// The texts of a notification.
pub open spec fn notification_model(n: Option<Notification>) -> Option<(Seq<char>, Seq<char>, bool)> {
    match n {
        Some(n) => Some((n.title@, n.body@, n.success)),
        None => None,
    }
}

/// After an output line the buffer holds at most `max` lines, the newest
/// last; nothing else changes.
pub proof fn lemma_output_line_bounded(s: RunModel, l: String, max: nat)
    ensures
        after_update(s, CommandUpdate::OutputLine(l), max).output.len() <= max,
        max > 0 ==> after_update(s, CommandUpdate::OutputLine(l), max).output.last() == l@,
        after_update(s, CommandUpdate::OutputLine(l), max).running == s.running,
        after_update(s, CommandUpdate::OutputLine(l), max).pid == s.pid,
{
    let out = s.output.push(l@);
    if out.len() > max {
        assert(out.skip(out.len() - max).len() == max);
        if max > 0 {
            assert(out.skip(out.len() - max).last() == out.last());
        }
    } else {
        assert(out.len() <= max);
    }
}

/// Once a command completed or failed it no longer runs and is no longer
/// received, whatever it was before.
pub proof fn lemma_finish_stops_run(s: RunModel, u: CommandUpdate, max: nat)
    requires
        u is Completed || u is Error,
    ensures
        !after_update(s, u, max).running,
        !after_update(s, u, max).receiving,
        after_update(s, u, max).pid is None,
        notification_of(u) is Some,
{
}

fn line_of(s: &str) -> (r: String)
    ensures
        r@ == s@,
{
    String::from_str(s)
}

/// Applies one update to the run; returns its notification, if any.
pub fn apply_command_update(run: &mut CommandRun, update: CommandUpdate, max_output_lines: usize) -> (r:
    Option<Notification>)
    ensures
        run_model(*final(run)) == after_update(run_model(*old(run)), update, max_output_lines as nat),
        notification_model(r) == notification_of(update),
{
    let ghost before = run_model(*run);
    let ghost u = update;
    match update {
        CommandUpdate::Started(pid) => {
            run.running_process_pid = Some(pid);
            None
        },
        CommandUpdate::OutputLine(line) => {
            let ghost l = line@;
            run.command_output.push(line);
            assert(texts(run.command_output@) =~= before.output.push(l));
            if run.command_output.len() > max_output_lines {
                let excess = run.command_output.len() - max_output_lines;
                let kept = run.command_output.split_off(excess);
                run.command_output = kept;
                assert(texts(run.command_output@) =~= before.output.push(l).skip(
                    before.output.len() + 1 - max_output_lines,
                ));
            }
            None
        },
        CommandUpdate::Completed => {
            run.command_output.push(line_of(""));
            run.command_output.push(line_of("✓ Command completed successfully"));
            run.is_command_running = false;
            run.has_receiver = false;
            run.running_process_pid = None;
            assert(texts(run.command_output@) =~= before.output.push(""@).push(completed_line()));
            assert(""@ =~= Seq::<char>::empty()) by {
                reveal_strlit("");
            }
            Some(
                Notification {
                    title: line_of("LazyMVN - Build Complete"),
                    body: line_of("Maven command completed successfully ✓"),
                    success: true,
                },
            )
        },
        CommandUpdate::Error(msg) => {
            let ghost m = msg@;
            run.command_output.push(line_of(""));
            run.command_output.push(concat2("✗ ", msg.as_str()));
            run.is_command_running = false;
            run.has_receiver = false;
            run.running_process_pid = None;
            assert(texts(run.command_output@) =~= before.output.push(""@).push(failed_line(m)));
            assert(""@ =~= Seq::<char>::empty()) by {
                reveal_strlit("");
            }
            Some(
                Notification {
                    title: line_of("LazyMVN - Build Failed"),
                    body: concat2("Maven command failed: ", msg.as_str()),
                    success: false,
                },
            )
        },
    }
}

/// Applies the updates received in one poll, in order, keeping at most
/// `max_output_lines` lines after each output line; when the channel was
/// found disconnected, the command stops running and is no longer received
/// after them. The output is followed when lines arrived and the view was
/// at the bottom or the command still ran after the updates; it is stored
/// when lines arrived or the command ended.
pub fn poll_command_updates(
    run: &mut CommandRun,
    updates: Vec<CommandUpdate>,
    max_output_lines: usize,
    was_at_bottom: bool,
    channel_disconnected: bool,
) -> (r: PollOutcome)
    ensures
        ({
            let after = after_updates(run_model(*old(run)), updates@, max_output_lines as nat);
            &&& run_model(*final(run)) == (if channel_disconnected {
                RunModel { running: false, receiving: false, ..after }
            } else {
                after
            })
            &&& r.had_output_lines == has_output_line(updates@)
            &&& notification_model(r.notification) == last_notification(updates@)
            &&& r.follow_output == (r.had_output_lines && (was_at_bottom || after.running))
            &&& r.store_output == (r.had_output_lines || r.notification is Some)
        }),
{
    let ghost start = run_model(*run);
    let ghost us = updates@;
    let mut had_output_lines = false;
    let mut notification: Option<Notification> = None;
    let mut updates = updates;
    let mut rest: Vec<CommandUpdate> = Vec::new();
    // Take the updates out in order: reverse them, then pop.
    while updates.len() > 0
        invariant
            rest@ + updates@.reverse() == us.reverse(),
        decreases updates.len(),
    {
        let ghost u_before = updates@;
        let u = updates.pop().unwrap();
        proof {
            assert(u_before == updates@.push(u));
            assert(u_before.reverse() =~= seq![u] + updates@.reverse());
        }
        rest.push(u);
        assert(rest@ + updates@.reverse() =~= us.reverse());
    }
    proof {
        assert(rest@ =~= us.reverse());
    }
    let total = rest.len();
    let mut done: usize = 0;
    while rest.len() > 0
        invariant
            rest@.len() + done == us.len(),
            total == us.len(),
            rest@ == us.skip(done as int).reverse(),
            run_model(*run) == after_updates(start, us.take(done as int), max_output_lines as nat),
            had_output_lines == has_output_line(us.take(done as int)),
            notification_model(notification) == last_notification(us.take(done as int)),
        decreases rest.len(),
    {
        let ghost r_before = rest@;
        let u = rest.pop().unwrap();
        proof {
            assert(r_before == rest@.push(u));
            assert(us.skip(done as int).reverse().last() == us[done as int]);
            assert(u == us[done as int]);
            assert(us.skip(done + 1).reverse() =~= us.skip(done as int).reverse().drop_last());
            assert(us.take(done + 1).drop_last() =~= us.take(done as int));
            assert(us.take(done + 1).last() == u);
        }
        let is_line = match &u {
            CommandUpdate::OutputLine(_) => true,
            _ => false,
        };
        let n = apply_command_update(run, u, max_output_lines);
        if is_line {
            had_output_lines = true;
        }
        match n {
            Some(n) => {
                notification = Some(n);
            },
            None => {},
        }
        proof {
            let t = us.take(done + 1);
            if is_line {
                assert(t[done as int] is OutputLine);
            } else if has_output_line(t) {
                let i = choose|i: int| 0 <= i < t.len() && t[i] is OutputLine;
                assert(i < done);
                assert(us.take(done as int)[i] == t[i]);
            }
            if has_output_line(us.take(done as int)) {
                let i = choose|i: int| 0 <= i < us.take(done as int).len() && us.take(done as int)[i] is OutputLine;
                assert(t[i] == us.take(done as int)[i]);
            }
        }
        done = done + 1;
    }
    proof {
        assert(us.take(done as int) =~= us);
    }
    let still_running = run.is_command_running;
    if channel_disconnected {
        run.is_command_running = false;
        run.has_receiver = false;
    }
    let store_output = had_output_lines || notification.is_some();
    PollOutcome {
        had_output_lines,
        notification,
        follow_output: had_output_lines && (was_at_bottom || still_running),
        store_output,
    }
}

/// The names of the active profiles, in order.
pub open spec fn active_names(ps: Seq<MavenProfile>) -> Seq<Seq<char>>
    decreases ps.len(),
{
    if ps.len() == 0 {
        seq![]
    } else {
        active_names(ps.drop_last()) + if profile_active(ps.last().state, ps.last().auto_activated) {
            seq![ps.last().name@]
        } else {
            seq![]
        }
    }
}

/// The display names of the enabled flags, in order.
pub open spec fn enabled_labels(fs: Seq<BuildFlag>) -> Seq<Seq<char>>
    decreases fs.len(),
{
    if fs.len() == 0 {
        seq![]
    } else {
        enabled_labels(fs.drop_last()) + if fs.last().enabled {
            seq![fs.last().name@]
        } else {
            seq![]
        }
    }
}

/// The names of the active profiles, for display.
pub fn active_profile_names(profiles: &[MavenProfile]) -> (r: Vec<String>)
    ensures
        texts(r@) == active_names(profiles@),
{
    let mut r: Vec<String> = Vec::new();
    let mut i: usize = 0;
    while i < profiles.len()
        invariant
            i <= profiles.len(),
            texts(r@) == active_names(profiles@.take(i as int)),
        decreases profiles.len() - i,
    {
        let ghost before = r@;
        if profiles[i].is_active() {
            r.push(profiles[i].name.clone());
            assert(texts(r@) =~= texts(before).push(profiles@[i as int].name@));
        }
        assert(profiles@.take(i + 1).drop_last() == profiles@.take(i as int));
        i += 1;
    }
    assert(profiles@.take(profiles.len() as int) == profiles@);
    r
}

/// The display names of the enabled flags.
pub fn enabled_flag_labels(flags: &[BuildFlag]) -> (r: Vec<String>)
    ensures
        texts(r@) == enabled_labels(flags@),
{
    let mut r: Vec<String> = Vec::new();
    let mut i: usize = 0;
    while i < flags.len()
        invariant
            i <= flags.len(),
            texts(r@) == enabled_labels(flags@.take(i as int)),
        decreases flags.len() - i,
    {
        let ghost before = r@;
        if flags[i].enabled {
            r.push(flags[i].name.clone());
            assert(texts(r@) =~= texts(before).push(flags@[i as int].name@));
        }
        assert(flags@.take(i + 1).drop_last() == flags@.take(i as int));
        i += 1;
    }
    assert(flags@.take(flags.len() as int) == flags@);
    r
}

/// What a request to run a command for the selected module comes to.
pub enum CommandLaunch {
    /// A command is already running: the request is ignored.
    AlreadyRunning,
    /// No module is selected: the output shows `output`.
    NoModule { output: Vec<String> },
    /// Start the command. The output is cleared to `output`; Maven gets
    /// `profile_args` (`-P`) and `flags`; the run is recorded as
    /// `command_text` with `profile_names` and `flag_names`.
    Start {
        output: Vec<String>,
        command_text: String,
        profile_args: Vec<String>,
        flags: Vec<String>,
        profile_names: Vec<String>,
        flag_names: Vec<String>,
    },
}

/// Decides what a request to run `args` for the selected module does,
/// given whether a command runs and whether a module is selected.
pub fn plan_module_command(
    is_command_running: bool,
    module_selected: bool,
    args: &[String],
    profiles: &[MavenProfile],
    flags: &[BuildFlag],
) -> (r: CommandLaunch)
    ensures
        is_command_running ==> r is AlreadyRunning,
        !is_command_running && !module_selected ==> (r matches CommandLaunch::NoModule { output } && texts(
            output@,
        ) == seq!["No module selected"@]),
        !is_command_running && module_selected ==> (r matches CommandLaunch::Start {
            output,
            command_text,
            profile_args,
            flags: maven_flags,
            profile_names,
            flag_names,
        } && {
            let text = joined(texts(args@), " "@);
            &&& command_text@ == text
            &&& texts(output@) == seq!["Running: "@ + text + " ..."@]
            &&& texts(profile_args@) == saved_profile_args(profiles@)
            &&& texts(maven_flags@) == saved_flags(flags@)
            &&& texts(profile_names@) == active_names(profiles@)
            &&& texts(flag_names@) == enabled_labels(flags@)
        }),
{
    if is_command_running {
        return CommandLaunch::AlreadyRunning;
    }
    if !module_selected {
        let mut output: Vec<String> = Vec::new();
        output.push(String::from_str("No module selected"));
        assert(texts(output@) =~= seq!["No module selected"@]);
        return CommandLaunch::NoModule { output };
    }
    let command_text = join_strings(args, " ");
    assert(args@.map_values(|p: String| p@) =~= texts(args@));
    let mut output: Vec<String> = Vec::new();
    output.push(concat3("Running: ", command_text.as_str(), " ..."));
    assert(texts(output@) =~= seq![output@[0]@]);
    CommandLaunch::Start {
        output,
        command_text,
        profile_args: explicit_profile_args(profiles),
        flags: enabled_flag_names(flags),
        profile_names: active_profile_names(profiles),
        flag_names: enabled_flag_labels(flags),
    }
}

/// The output after Maven could not start the command.
pub fn start_failure_output(error: &str) -> (r: Vec<String>)
    ensures
        texts(r@) == seq!["Error starting command: "@ + error@],
{
    let mut r: Vec<String> = Vec::new();
    r.push(concat2("Error starting command: ", error));
    assert(texts(r@) =~= seq![r@[0]@]);
    r
}

} // verus!
