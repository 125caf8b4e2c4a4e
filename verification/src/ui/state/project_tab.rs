//! A project tab's starting state (its build flags and output), its title,
//! and the status of the last command run in it.

use vstd::prelude::*;
use crate::strings::{chars_of, concat2, concat3, string_from_range, texts};
use crate::ui::state::types::BuildFlag;
use crate::ui::panes::basic_panes::{byte_len, byte_slice, is_boundary, utf8_byte_len};
use crate::utils::text::width::{char_at_byte, char_index_at_byte, lemma_byte_offset_injective};

verus! {

/// Status of a command execution.
#[derive(Clone, Debug, PartialEq, Eq, Structural)]
pub enum CommandExecutionState {
    /// Command is currently running.
    Running,
    /// Command completed successfully.
    Success,
    /// Command failed.
    Failure,
}

/// The last command run: the key that started it and how it went.
#[derive(Clone, Debug)]
pub struct LastCommandStatus {
    /// The key that triggered the command (b, c, t, ...).
    pub command_key: char,
    /// The execution state.
    pub state: CommandExecutionState,
}

/// The title of a project tab: the project directory's name ("???" when it
/// has none), followed by the git branch in parentheses when known.
pub fn get_title(project_name: Option<&str>, git_branch: Option<&str>) -> (r: String)
    ensures
        ({
            let name = match project_name {
                Some(n) => n@,
                None => "???"@,
            };
            r@ == match git_branch {
                Some(b) => name + " ("@ + b@ + ")"@,
                None => name,
            }
        }),
{
    let name = match project_name {
        Some(n) => n,
        None => "???",
    };
    match git_branch {
        Some(branch) => concat3(concat2(name, " (").as_str(), branch, ")"),
        None => String::from_str(name),
    }
}

/// Where a title longer than `max_len` bytes is cut: three bytes before,
/// to make room for "...".
pub open spec fn title_cut(max_len: usize) -> usize {
    if max_len >= 3 {
        (max_len - 3) as usize
    } else {
        0
    }
}

/// The title shortened to `max_len` bytes: unchanged when it fits,
/// otherwise cut and followed by "...".
pub fn get_short_title(title: &str, max_len: usize) -> (r: String)
    requires
        byte_len(title@) <= usize::MAX,
        byte_len(title@) > max_len ==> is_boundary(title@, title_cut(max_len)),
    ensures
        r@ == (if byte_len(title@) <= max_len {
            title@
        } else {
            byte_slice(title@, 0, title_cut(max_len)) + "..."@
        }),
{
    let cs = chars_of(title);
    let len = utf8_byte_len(&cs);
    if len <= max_len {
        return String::from_str(title);
    }
    let cut = max_len.saturating_sub(3);
    let k = char_index_at_byte(&cs, cut);
    proof {
        assert(crate::utils::text::width::byte_offset(title@, 0) == 0);
        lemma_byte_offset_injective(title@, char_at_byte(title@, 0), 0);
    }
    concat2(string_from_range(&cs, 0, k).as_str(), "...")
}

/// The texts of a build flag: display name, Maven flag, and whether it is on.
pub open spec fn flag_view(f: BuildFlag) -> (Seq<char>, Seq<char>, bool) {
    (f.name@, f.flag@, f.enabled)
}

/// The texts of a list of build flags.
pub open spec fn flags_view(fs: Seq<BuildFlag>) -> Seq<(Seq<char>, Seq<char>, bool)> {
    fs.map_values(|f: BuildFlag| flag_view(f))
}

/// The built-in build flags every tab starts with, all off.
pub open spec fn built_in_flags() -> Seq<(Seq<char>, Seq<char>, bool)> {
    seq![
        ("Work offline"@, "-o"@, false),
        ("Force update snapshots"@, "-U"@, false),
        ("Debug output"@, "-X"@, false),
        ("Skip tests"@, "-DskipTests"@, false),
        ("Build with 4 threads"@, "-T 4"@, false),
        ("Build dependencies"@, "--also-make"@, false),
        ("Build dependents"@, "--also-make-dependents"@, false),
    ]
}

fn off_flag(name: &str, maven_flag: &str) -> (r: BuildFlag)
    ensures
        flag_view(r) == (name@, maven_flag@, false),
{
    BuildFlag { name: String::from_str(name), flag: String::from_str(maven_flag), enabled: false }
}

/// The build flags of a new tab: the built-in ones, all off, then the
/// custom flags of the configuration as they are.
pub fn initial_build_flags(custom_flags: Vec<BuildFlag>) -> (r: Vec<BuildFlag>)
    ensures
        flags_view(r@) == built_in_flags() + flags_view(custom_flags@),
{
    let mut flags: Vec<BuildFlag> = Vec::new();
    flags.push(off_flag("Work offline", "-o"));
    flags.push(off_flag("Force update snapshots", "-U"));
    flags.push(off_flag("Debug output", "-X"));
    flags.push(off_flag("Skip tests", "-DskipTests"));
    flags.push(off_flag("Build with 4 threads", "-T 4"));
    flags.push(off_flag("Build dependencies", "--also-make"));
    flags.push(off_flag("Build dependents", "--also-make-dependents"));
    assert(flags_view(flags@) =~= built_in_flags());
    let ghost built_in = flags@;
    let mut custom = custom_flags;
    flags.append(&mut custom);
    assert(flags_view(flags@) =~= flags_view(built_in) + flags_view(custom_flags@));
    flags
}

/// The output of a new tab.
pub fn initial_command_output() -> (r: Vec<String>)
    ensures
        texts(r@) == seq!["Ready. Select a module and press a command key."@],
{
    let mut r: Vec<String> = Vec::new();
    r.push(String::from_str("Ready. Select a module and press a command key."));
    assert(texts(r@) =~= seq![r@[0]@]);
    r
}

/// The selection a list starts with: its first item, or none when empty.
pub fn initial_selection(len: usize) -> (r: Option<usize>)
    ensures
        r == (if len > 0 { Some(0usize) } else { None }),
{
    if len > 0 {
        Some(0)
    } else {
        None
    }
}

} // verus!
