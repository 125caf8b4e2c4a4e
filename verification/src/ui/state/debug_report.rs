//! The debug report copied to the clipboard: its header and footer, the
//! version, system, configuration, tab and log sections, and the messages
//! shown after copying it.
//!
//! Reading the clock, the build metadata, the configuration and the logs is
//! the caller's part; it hands their texts in.

use vstd::prelude::*;
use crate::strings::{concat2, concat3, decimal, push_char, str_equal, texts, usize_to_string};

verus! {

/// Width of the report's rules.
pub const RULE_WIDTH: usize = 80;

/// How many of a tab's last output lines the report shows.
pub const TAB_TAIL_LINES: usize = 10;

/// A rule of `=` across the report.
pub open spec fn rule() -> Seq<char> {
    Seq::new(RULE_WIDTH as nat, |_i: int| '=')
}

fn make_rule() -> (r: String)
    ensures
        r@ == rule(),
{
    let mut r = String::new();
    let mut i: usize = 0;
    while i < RULE_WIDTH
        invariant
            i <= RULE_WIDTH,
            r@ == Seq::new(i as nat, |_i: int| '='),
        decreases RULE_WIDTH - i,
    {
        push_char(&mut r, '=');
        i += 1;
        assert(r@ =~= Seq::new(i as nat, |_i: int| '='));
    }
    r
}

/// The report's header, stamped with `generated`.
pub fn debug_header(generated: &str) -> (r: Vec<String>)
    ensures
        texts(r@) == seq![rule(), "LazyMVN Debug Report"@, rule(), "Generated: "@ + generated@, Seq::empty()],
{
    let mut r: Vec<String> = Vec::new();
    r.push(make_rule());
    r.push(String::from_str("LazyMVN Debug Report"));
    r.push(make_rule());
    r.push(concat2("Generated: ", generated));
    r.push(String::new());
    assert(texts(r@) =~= seq![r@[0]@, r@[1]@, r@[2]@, r@[3]@, r@[4]@]);
    r
}

/// The report's footer.
pub fn debug_footer() -> (r: Vec<String>)
    ensures
        texts(r@) == seq![rule(), "End of Debug Report"@, rule()],
{
    let mut r: Vec<String> = Vec::new();
    r.push(make_rule());
    r.push(String::from_str("End of Debug Report"));
    r.push(make_rule());
    assert(texts(r@) =~= seq![r@[0]@, r@[1]@, r@[2]@]);
    r
}

/// `label` followed by `value`, when there is a value.
pub open spec fn optional_line(label: Seq<char>, value: Option<&str>) -> Seq<Seq<char>> {
    match value {
        Some(v) => seq![label + v@],
        None => Seq::empty(),
    }
}

fn push_optional(r: &mut Vec<String>, label: &str, value: Option<&str>)
    ensures
        texts(final(r)@) == texts(old(r)@) + optional_line(label@, value),
{
    let ghost before = texts(r@);
    match value {
        Some(v) => {
            r.push(concat2(label, v));
            assert(texts(r@) =~= before + seq![label@ + v@]);
        },
        None => {
            assert(texts(r@) =~= before + Seq::<Seq<char>>::empty());
        },
    }
}

/// The version section: the version, then the channel, build tag, commit,
/// build date, git branch and git commit that are known.
pub fn version_info(
    version: &str,
    channel: Option<&str>,
    build_tag: Option<&str>,
    commit_sha: Option<&str>,
    build_date: Option<&str>,
    git_branch: Option<&str>,
    git_sha: Option<&str>,
) -> (r: Vec<String>)
    ensures
        texts(r@) == seq!["=== Version Information ==="@, "LazyMVN Version: "@ + version@] + optional_line(
            "Channel: "@,
            channel,
        ) + optional_line("Build Tag: "@, build_tag) + optional_line("Commit SHA: "@, commit_sha)
            + optional_line("Build Date: "@, build_date) + optional_line("Git Branch: "@, git_branch)
            + optional_line("Git Commit: "@, git_sha) + seq![Seq::<char>::empty()],
{
    let mut r: Vec<String> = Vec::new();
    r.push(String::from_str("=== Version Information ==="));
    r.push(concat2("LazyMVN Version: ", version));
    assert(texts(r@) =~= seq!["=== Version Information ==="@, "LazyMVN Version: "@ + version@]);
    push_optional(&mut r, "Channel: ", channel);
    push_optional(&mut r, "Build Tag: ", build_tag);
    push_optional(&mut r, "Commit SHA: ", commit_sha);
    push_optional(&mut r, "Build Date: ", build_date);
    push_optional(&mut r, "Git Branch: ", git_branch);
    push_optional(&mut r, "Git Commit: ", git_sha);
    let ghost before = texts(r@);
    r.push(String::new());
    assert(texts(r@) =~= before + seq![Seq::<char>::empty()]);
    r
}

/// The system section: operating system and architecture.
pub fn system_info(os: &str, arch: &str) -> (r: Vec<String>)
    ensures
        texts(r@) == seq!["=== System Information ==="@, "OS: "@ + os@, "Architecture: "@ + arch@, Seq::empty()],
{
    let mut r: Vec<String> = Vec::new();
    r.push(String::from_str("=== System Information ==="));
    r.push(concat2("OS: ", os));
    r.push(concat2("Architecture: ", arch));
    r.push(String::new());
    assert(texts(r@) =~= seq![r@[0]@, r@[1]@, r@[2]@, r@[3]@]);
    r
}

/// "true" or "false".
pub open spec fn bool_text(b: bool) -> Seq<char> {
    if b {
        "true"@
    } else {
        "false"@
    }
}

/// The configuration section of the active tab: its project root and
/// settings file (as their debug texts), whether notifications are on (on
/// unless configured off), and, when logging is configured, its log format
/// (debug text) and how many package filters it has.
pub fn config_info(
    project_root: &str,
    maven_settings: &str,
    notifications_enabled: Option<bool>,
    logging: Option<(&str, usize)>,
) -> (r: Vec<String>)
    ensures
        texts(r@) == seq![
            "=== Configuration ==="@,
            "Project root: "@ + project_root@,
            "Settings file: "@ + maven_settings@,
            "Notifications: "@ + bool_text(
                match notifications_enabled {
                    Some(b) => b,
                    None => true,
                },
            ),
        ] + match logging {
            Some((format, packages)) => seq![
                "Log format: "@ + format@,
                "Package filters: "@ + decimal(packages as nat) + " configured"@,
            ],
            None => Seq::empty(),
        } + seq![Seq::<char>::empty()],
{
    let mut r: Vec<String> = Vec::new();
    r.push(String::from_str("=== Configuration ==="));
    r.push(concat2("Project root: ", project_root));
    r.push(concat2("Settings file: ", maven_settings));
    let on = match notifications_enabled {
        Some(b) => b,
        None => true,
    };
    r.push(concat2("Notifications: ", if on { "true" } else { "false" }));
    let ghost head = texts(r@);
    assert(head =~= seq![r@[0]@, r@[1]@, r@[2]@, r@[3]@]);
    match logging {
        Some((format, packages)) => {
            r.push(concat2("Log format: ", format));
            r.push(concat3("Package filters: ", usize_to_string(packages).as_str(), " configured"));
        },
        None => {},
    }
    let ghost mid = texts(r@);
    r.push(String::new());
    assert(texts(r@) =~= mid + seq![Seq::<char>::empty()]);
    assert(mid =~= head + match logging {
        Some((format, packages)) => seq![
            "Log format: "@ + format@,
            "Package filters: "@ + decimal(packages as nat) + " configured"@,
        ],
        None => Seq::<Seq<char>>::empty(),
    });
    r
}

/// The last `TAB_TAIL_LINES` lines of `out` (all when there are fewer),
/// each indented by two spaces.
pub open spec fn indented_tail(out: Seq<Seq<char>>) -> Seq<Seq<char>> {
    let start = if out.len() > TAB_TAIL_LINES { out.len() - TAB_TAIL_LINES } else { 0 };
    out.skip(start).map_values(|l: Seq<char>| "  "@ + l)
}

/// The section of the tab at `index` (counted from zero): its project (as
/// its debug text), module and output line counts, and its last output
/// lines when it has some.
pub fn tab_output_section(index: usize, project: &str, module_count: usize, command_output: &[String]) -> (r: Vec<
    String,
>)
    requires
        index < usize::MAX,
    ensures
        texts(r@) == seq![
            "--- Tab "@ + decimal((index + 1) as nat) + " ---"@,
            "Project: "@ + project@,
            "Modules: "@ + decimal(module_count as nat),
            "Output lines: "@ + decimal(command_output@.len()),
        ] + (if command_output@.len() > 0 {
            seq!["Last 10 lines:"@] + indented_tail(texts(command_output@))
        } else {
            Seq::empty()
        }) + seq![Seq::<char>::empty()],
{
    let mut r: Vec<String> = Vec::new();
    r.push(concat3("--- Tab ", usize_to_string(index + 1).as_str(), " ---"));
    r.push(concat2("Project: ", project));
    r.push(concat2("Modules: ", usize_to_string(module_count).as_str()));
    r.push(concat2("Output lines: ", usize_to_string(command_output.len()).as_str()));
    let ghost head = texts(r@);
    assert(head =~= seq![r@[0]@, r@[1]@, r@[2]@, r@[3]@]);
    let ghost outs = texts(command_output@);
    if command_output.len() > 0 {
        r.push(String::from_str("Last 10 lines:"));
        let start = command_output.len().saturating_sub(TAB_TAIL_LINES);
        let ghost tail = indented_tail(outs);
        let mut i: usize = start;
        while i < command_output.len()
            invariant
                start <= i <= command_output.len(),
                start == (if command_output@.len() > TAB_TAIL_LINES { command_output@.len() - TAB_TAIL_LINES } else { 0 }),
                outs == texts(command_output@),
                tail == indented_tail(outs),
                texts(r@) == head + seq!["Last 10 lines:"@] + tail.take(i - start),
            decreases command_output.len() - i,
        {
            let ghost before = texts(r@);
            r.push(concat2("  ", command_output[i].as_str()));
            assert(tail[i - start] == "  "@ + command_output@[i as int]@);
            assert(tail.take(i + 1 - start) =~= tail.take(i - start).push(tail[i - start]));
            assert(texts(r@) =~= before.push("  "@ + command_output@[i as int]@));
            i += 1;
        }
        assert(tail.take(i - start) =~= tail);
    }
    let ghost mid = texts(r@);
    r.push(String::new());
    assert(texts(r@) =~= mid + seq![Seq::<char>::empty()]);
    r
}

/// The heading of the tabs' sections.
pub fn tab_outputs_heading() -> (r: String)
    ensures
        r@ == "=== Tab Outputs ==="@,
{
    String::from_str("=== Tab Outputs ===")
}

/// The logs section: a heading, a note that TRACE lines are left out, and
/// the logs.
pub fn logs_section(logs: String) -> (r: Vec<String>)
    ensures
        texts(r@) == seq![
            "=== Recent Logs ==="@,
            "(Showing DEBUG, INFO, WARN, ERROR - TRACE logs excluded)"@,
            Seq::empty(),
            logs@,
            Seq::empty(),
        ],
{
    let mut r: Vec<String> = Vec::new();
    r.push(String::from_str("=== Recent Logs ==="));
    r.push(String::from_str("(Showing DEBUG, INFO, WARN, ERROR - TRACE logs excluded)"));
    r.push(String::new());
    r.push(logs);
    r.push(String::new());
    assert(texts(r@) =~= seq![r@[0]@, r@[1]@, r@[2]@, r@[3]@, r@[4]@]);
    r
}

/// The output after the report (of `content_type`, `lines` lines long) was
/// copied with `tool`.
pub fn copied_report_output(content_type: &str, lines: usize, tool: &str) -> (r: Vec<String>)
    ensures
        texts(r@) == seq![
            "✓ Copied "@ + content_type@ + " to clipboard ("@ + decimal(lines as nat) + " lines)"@,
            "  Tool: "@ + tool@,
        ],
{
    let mut r: Vec<String> = Vec::new();
    let head = concat3("✓ Copied ", content_type, " to clipboard (");
    r.push(concat3(head.as_str(), usize_to_string(lines).as_str(), " lines)"));
    r.push(concat2("  Tool: ", tool));
    assert(texts(r@) =~= seq![r@[0]@, r@[1]@]);
    r
}

/// The output after the report could not be copied.
pub fn copy_failed_output(error: &str) -> (r: Vec<String>)
    ensures
        texts(r@) == seq!["❌ Failed to copy to clipboard"@, "Error: "@ + error@],
{
    let mut r: Vec<String> = Vec::new();
    r.push(String::from_str("❌ Failed to copy to clipboard"));
    r.push(concat2("Error: ", error));
    assert(texts(r@) =~= seq![r@[0]@, r@[1]@]);
    r
}

/// How a clipboard tool is named in the message after copying: PowerShell
/// and clip.exe by those names, any other by its program name.
pub fn clipboard_tool_label(program: &str) -> (r: &str)
    ensures
        r@ == (if program@ == "powershell"@ {
            "PowerShell"@
        } else if program@ == "clip"@ {
            "clip.exe"@
        } else {
            program@
        }),
{
    if str_equal(program, "powershell") {
        "PowerShell"
    } else if str_equal(program, "clip") {
        "clip.exe"
    } else {
        program
    }
}

} // verus!
