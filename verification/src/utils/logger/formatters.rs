//! Formatting of log lines and session markers, and selection of the lines
//! that go into a report.

use vstd::prelude::*;
use crate::strings::{
    concat2, concat3, contains_seq, decimal, occurs_at, str_contains, texts, usize_to_string,
};

verus! {

/// Severity of a log record.
#[derive(Clone, Copy, Debug, PartialEq, Eq, Structural)]
pub enum LogLevel {
    Error,
    Warn,
    Info,
    Debug,
    Trace,
}

/// The name a level is written with (`log::Level`'s `Display`).
pub open spec fn level_name(level: LogLevel) -> Seq<char> {
    match level {
        LogLevel::Error => "ERROR"@,
        LogLevel::Warn => "WARN"@,
        LogLevel::Info => "INFO"@,
        LogLevel::Debug => "DEBUG"@,
        LogLevel::Trace => "TRACE"@,
    }
}

impl LogLevel {
    /// The name the level is written with.
    pub fn as_str(&self) -> (s: &'static str)
        ensures
            s@ == level_name(*self),
    {
        match self {
            LogLevel::Error => "ERROR",
            LogLevel::Warn => "WARN",
            LogLevel::Info => "INFO",
            LogLevel::Debug => "DEBUG",
            LogLevel::Trace => "TRACE",
        }
    }
}

/// The prefix that tags a line with its session: `[SESSION:id] `, or
/// nothing without a session.
pub open spec fn session_prefix(session_id: Option<Seq<char>>) -> Seq<char> {
    match session_id {
        Some(id) => "[SESSION:"@ + id + "] "@,
        None => seq![],
    }
}

/// Get session prefix for log line
pub fn get_session_prefix(session_id: &Option<String>) -> (s: String)
    ensures
        s@ == session_prefix(
            match session_id {
                Some(id) => Some(id@),
                None => None,
            },
        ),
{
    match session_id {
        Some(id) => concat3("[SESSION:", id.as_str(), "] "),
        None => String::new(),
    }
}

/// A log line: `<prefix>[<timestamp>] <LEVEL> - <message>`.
pub open spec fn log_line(
    session_id: Option<Seq<char>>,
    timestamp: Seq<char>,
    level: LogLevel,
    message: Seq<char>,
) -> Seq<char> {
    session_prefix(session_id) + "["@ + timestamp + "] "@ + level_name(level) + " - "@ + message
}

/// Format a log line with session ID and timestamp
pub fn format_log_line(
    level: LogLevel,
    message: &str,
    timestamp: &str,
    session_id: &Option<String>,
) -> (s: String)
    ensures
        s@ == log_line(
            match session_id {
                Some(id) => Some(id@),
                None => None,
            },
            timestamp@,
            level,
            message@,
        ),
{
    let mut s = get_session_prefix(session_id);
    s.append("[");
    s.append(timestamp);
    s.append("] ");
    s.append(level.as_str());
    s.append(" - ");
    s.append(message);
    s
}

/// The marker that tags the lines of a session.
pub open spec fn session_marker(session_id: Seq<char>) -> Seq<char> {
    "[SESSION:"@ + session_id + "]"@
}

/// Build session marker string
pub fn build_session_marker(session_id: &str) -> (s: String)
    ensures
        s@ == session_marker(session_id@),
{
    concat3("[SESSION:", session_id, "]")
}

/// Check if line is a TRACE level log
pub fn is_trace_log_line(line: &str) -> (b: bool)
    ensures
        b == contains_seq(line@, "] TRACE - "@),
{
    str_contains(line, "] TRACE - ")
}

/// Check if line is from our session
pub fn is_line_from_session(line: &str, session_marker: &str) -> (b: bool)
    ensures
        b == contains_seq(line@, session_marker@),
{
    str_contains(line, session_marker)
}

/// A line written for a session carries that session's marker, and a line
/// written at TRACE level is recognised as a TRACE line.
pub proof fn lemma_log_line_recognised(
    session_id: Option<Seq<char>>,
    timestamp: Seq<char>,
    level: LogLevel,
    message: Seq<char>,
)
    ensures
        session_id matches Some(id) ==> contains_seq(
            log_line(session_id, timestamp, level, message),
            session_marker(id),
        ),
        level == LogLevel::Trace ==> contains_seq(
            log_line(session_id, timestamp, level, message),
            "] TRACE - "@,
        ),
{
    let line = log_line(session_id, timestamp, level, message);
    reveal_strlit("[SESSION:");
    reveal_strlit("] ");
    reveal_strlit("]");
    reveal_strlit("[");
    reveal_strlit(" - ");
    reveal_strlit("TRACE");
    reveal_strlit("] TRACE - ");
    if let Some(id) = session_id {
        let m = session_marker(id);
        assert(line.subrange(0, m.len() as int) =~= m);
        assert(occurs_at(line, m, 0));
    }
    if level == LogLevel::Trace {
        let at: int = (session_prefix(session_id).len() + 1 + timestamp.len()) as int;
        assert(line.subrange(at, at + 10) =~= "] TRACE - "@);
        assert(occurs_at(line, "] TRACE - "@, at));
    }
}

/// A line that starts another session's lines: it carries a session marker
/// other than ours.
pub open spec fn marks_other_session(line: Seq<char>, marker: Seq<char>) -> bool {
    contains_seq(line, "[SESSION:"@) && !contains_seq(line, marker)
}

/// Check if line marks a different session
pub fn is_different_session_marker(line: &str, session_marker: &str) -> (b: bool)
    ensures
        b == marks_other_session(line@, session_marker@),
{
    str_contains(line, "[SESSION:") && !str_contains(line, session_marker)
}

/// The lines of a session found from position `i` on, `in_session` telling
/// whether a line of the session was already seen: a line with the marker
/// belongs to it, and after such a line every line does until one carries
/// another session's marker.
pub open spec fn session_lines_from(lines: Seq<Seq<char>>, marker: Seq<char>, i: int, in_session: bool) -> Seq<
    Seq<char>,
>
    decreases lines.len() - i,
{
    if i < 0 || i >= lines.len() {
        seq![]
    } else if contains_seq(lines[i], marker) {
        seq![lines[i]] + session_lines_from(lines, marker, i + 1, true)
    } else if in_session {
        if marks_other_session(lines[i], marker) {
            seq![]
        } else {
            seq![lines[i]] + session_lines_from(lines, marker, i + 1, true)
        }
    } else {
        session_lines_from(lines, marker, i + 1, false)
    }
}

/// Collect lines belonging to a session
pub fn collect_session_lines(lines: &Vec<String>, session_marker: &str) -> (r: Vec<String>)
    ensures
        texts(r@) == session_lines_from(texts(lines@), session_marker@, 0, false),
{
    let mut session_logs: Vec<String> = Vec::new();
    let mut in_session = false;
    let mut i: usize = 0;
    while i < lines.len()
        invariant
            i <= lines.len(),
            session_lines_from(texts(lines@), session_marker@, 0, false) == texts(session_logs@)
                + session_lines_from(texts(lines@), session_marker@, i as int, in_session),
        decreases lines.len() - i,
    {
        let line = &lines[i];
        assert(texts(lines@)[i as int] == line@);
        if is_line_from_session(line.as_str(), session_marker) {
            in_session = true;
            session_logs.push(line.clone());
        } else if in_session {
            if is_different_session_marker(line.as_str(), session_marker) {
                assert(texts(session_logs@) + seq![] == texts(session_logs@));
                return session_logs;
            }
            session_logs.push(line.clone());
        }
        i += 1;
    }
    assert(texts(session_logs@) + seq![] == texts(session_logs@));
    session_logs
}

/// Before the first line carrying the marker, lines are skipped.
proof fn lemma_session_lines_skip(lines: Seq<Seq<char>>, marker: Seq<char>, i: int, f: int)
    requires
        0 <= i <= f <= lines.len(),
        forall|j: int| i <= j < f ==> !contains_seq(#[trigger] lines[j], marker),
    ensures
        session_lines_from(lines, marker, i, false) == session_lines_from(lines, marker, f, false),
    decreases f - i,
{
    if i < f {
        lemma_session_lines_skip(lines, marker, i + 1, f);
    }
}

/// Inside the session, every line is kept up to the end `e`, the first
/// line carrying another session's marker (or the end of the file).
proof fn lemma_session_lines_block(lines: Seq<Seq<char>>, marker: Seq<char>, i: int, e: int)
    requires
        0 <= i <= e <= lines.len(),
        forall|j: int|
            i <= j < e ==> !(contains_seq(#[trigger] lines[j], "[SESSION:"@) && !contains_seq(
                lines[j],
                marker,
            )),
        e == lines.len() || (contains_seq(lines[e], "[SESSION:"@) && !contains_seq(lines[e], marker)),
    ensures
        session_lines_from(lines, marker, i, true) == lines.subrange(i, e),
    decreases e - i,
{
    if i < e {
        lemma_session_lines_block(lines, marker, i + 1, e);
        assert(lines.subrange(i, e) =~= seq![lines[i]] + lines.subrange(i + 1, e));
    } else {
        assert(lines.subrange(i, e) =~= seq![]);
    }
}

/// The lines collected for a session are one contiguous block of the log:
/// from the first line carrying the session's marker `f`, every line (the
/// session's own records and the continuation lines after them, such as
/// exception text and stack frames) up to, not including, the first later
/// line that carries another session's marker, or the end of the log; and
/// nothing when no line carries the marker.
pub proof fn lemma_session_lines_are_a_block(lines: Seq<Seq<char>>, marker: Seq<char>, f: int, e: int)
    requires
        0 <= f < e <= lines.len(),
        contains_seq(lines[f], marker),
        forall|j: int| 0 <= j < f ==> !contains_seq(#[trigger] lines[j], marker),
        forall|j: int|
            f < j < e ==> !(contains_seq(#[trigger] lines[j], "[SESSION:"@) && !contains_seq(
                lines[j],
                marker,
            )),
        e == lines.len() || (contains_seq(lines[e], "[SESSION:"@) && !contains_seq(lines[e], marker)),
    ensures
        session_lines_from(lines, marker, 0, false) == lines.subrange(f, e),
{
    lemma_session_lines_skip(lines, marker, 0, f);
    lemma_session_lines_block(lines, marker, f + 1, e);
    assert(lines.subrange(f, e) =~= seq![lines[f]] + lines.subrange(f + 1, e));
}

/// A log without the session's marker gives no session lines.
pub proof fn lemma_session_lines_without_marker(lines: Seq<Seq<char>>, marker: Seq<char>)
    requires
        forall|j: int| 0 <= j < lines.len() ==> !contains_seq(#[trigger] lines[j], marker),
    ensures
        session_lines_from(lines, marker, 0, false) == Seq::<Seq<char>>::empty(),
{
    lemma_session_lines_skip(lines, marker, 0, lines.len() as int);
}

/// Header lines of a session log dump.
pub open spec fn log_header(session_id: Seq<char>, timestamp: Seq<char>) -> Seq<Seq<char>> {
    seq![
        "=== LazyMVN Session Logs ==="@,
        "Session ID: "@ + session_id,
        "Timestamp: "@ + timestamp,
        seq![],
    ]
}

/// Build log header
pub fn build_log_header(session_id: &str, timestamp: &str) -> (r: Vec<String>)
    ensures
        texts(r@) == log_header(session_id@, timestamp@),
{
    let r = vec![
        String::from_str("=== LazyMVN Session Logs ==="),
        concat2("Session ID: ", session_id),
        concat2("Timestamp: ", timestamp),
        String::new(),
    ];
    assert(texts(r@) =~= log_header(session_id@, timestamp@));
    r
}

/// Calculate start index for last N lines
pub fn calculate_start_index(total_lines: usize, max_lines: usize) -> (i: usize)
    ensures
        i == (if total_lines > max_lines {
            total_lines - max_lines
        } else {
            0
        }),
{
    total_lines.saturating_sub(max_lines)
}

/// Get the last N lines from a vector
pub fn get_last_n_lines(all_lines: Vec<String>, max_lines: usize) -> (r: Vec<String>)
    ensures
        r@ == all_lines@.skip(
            if all_lines@.len() > max_lines {
                all_lines@.len() - max_lines
            } else {
                0
            },
        ),
{
    let start_idx = calculate_start_index(all_lines.len(), max_lines);
    let mut r: Vec<String> = Vec::new();
    let mut i = start_idx;
    while i < all_lines.len()
        invariant
            start_idx <= i <= all_lines.len(),
            r@ == all_lines@.subrange(start_idx as int, i as int),
        decreases all_lines.len() - i,
    {
        r.push(all_lines[i].clone());
        i += 1;
        assert(all_lines@.subrange(start_idx as int, i as int) == all_lines@.subrange(
            start_idx as int,
            i - 1,
        ).push(all_lines@[i - 1]));
    }
    r
}

/// Most lines kept in a debug report.
pub const MAX_REPORT_LINES: usize = 300;

/// The lines of `lines` that are not TRACE records, in order.
pub open spec fn non_trace_lines(lines: Seq<Seq<char>>) -> Seq<Seq<char>>
    decreases lines.len(),
{
    if lines.len() == 0 {
        seq![]
    } else {
        non_trace_lines(lines.drop_last()) + if contains_seq(lines.last(), "] TRACE - "@) {
            seq![]
        } else {
            seq![lines.last()]
        }
    }
}

/// The last `n` elements of `s` (all of them when it has fewer).
pub open spec fn last_n<A>(s: Seq<A>, n: nat) -> Seq<A> {
    if s.len() > n {
        s.skip(s.len() - n)
    } else {
        s
    }
}

/// Filter out TRACE logs and limit to the last 300 lines
pub fn filter_and_limit_logs(lines: &[&str]) -> (r: Vec<String>)
    ensures
        texts(r@) == last_n(
            non_trace_lines(lines@.map_values(|l: &str| l@)),
            MAX_REPORT_LINES as nat,
        ),
{
    let ghost views = lines@.map_values(|l: &str| l@);
    let mut kept: Vec<String> = Vec::new();
    let mut i: usize = 0;
    while i < lines.len()
        invariant
            i <= lines.len(),
            views == lines@.map_values(|l: &str| l@),
            texts(kept@) == non_trace_lines(views.take(i as int)),
        decreases lines.len() - i,
    {
        assert(views.take(i + 1).drop_last() == views.take(i as int));
        assert(views.take(i + 1).last() == lines@[i as int]@);
        if !is_trace_log_line(lines[i]) {
            kept.push(String::from_str(lines[i]));
        }
        assert(texts(kept@) == non_trace_lines(views.take(i + 1)));
        i += 1;
    }
    assert(views.take(lines.len() as int) == views);
    let r = get_last_n_lines(kept, MAX_REPORT_LINES);
    proof {
        let f = non_trace_lines(views);
        assert(texts(r@) =~= last_n(f, MAX_REPORT_LINES as nat));
    }
    r
}

/// No line kept for a report is a TRACE record, every kept line comes from
/// the log, and at most `MAX_REPORT_LINES` are kept.
pub proof fn lemma_report_lines_filtered(lines: Seq<Seq<char>>)
    ensures
        last_n(non_trace_lines(lines), MAX_REPORT_LINES as nat).len() <= MAX_REPORT_LINES,
        forall|i: int|
            0 <= i < last_n(non_trace_lines(lines), MAX_REPORT_LINES as nat).len() ==> !contains_seq(
                #[trigger] last_n(non_trace_lines(lines), MAX_REPORT_LINES as nat)[i],
                "] TRACE - "@,
            ) && lines.contains(last_n(non_trace_lines(lines), MAX_REPORT_LINES as nat)[i]),
{
    lemma_non_trace_lines(lines);
    let kept = non_trace_lines(lines);
    let last = last_n(kept, MAX_REPORT_LINES as nat);
    assert forall|i: int| 0 <= i < last.len() implies !contains_seq(#[trigger] last[i], "] TRACE - "@)
        && lines.contains(last[i]) by {
        let j = if kept.len() > MAX_REPORT_LINES { i + (kept.len() - MAX_REPORT_LINES) } else { i };
        assert(last[i] == kept[j]);
    }
}

/// The non-TRACE lines are lines of the log without the TRACE marker.
proof fn lemma_non_trace_lines(lines: Seq<Seq<char>>)
    ensures
        forall|i: int|
            0 <= i < non_trace_lines(lines).len() ==> !contains_seq(
                #[trigger] non_trace_lines(lines)[i],
                "] TRACE - "@,
            ) && lines.contains(non_trace_lines(lines)[i]),
    decreases lines.len(),
{
    if lines.len() > 0 {
        let prev = lines.drop_last();
        lemma_non_trace_lines(prev);
        let kept = non_trace_lines(lines);
        assert forall|i: int| 0 <= i < kept.len() implies !contains_seq(#[trigger] kept[i], "] TRACE - "@)
            && lines.contains(kept[i]) by {
            if i < non_trace_lines(prev).len() {
                assert(kept[i] == non_trace_lines(prev)[i]);
                let k = choose|k: int| 0 <= k < prev.len() && prev[k] == kept[i];
                assert(lines[k] == prev[k]);
            } else {
                assert(kept[i] == lines.last());
                assert(lines[lines.len() - 1] == lines.last());
            }
        }
    }
}

/// `lines` joined with a newline between consecutive ones.
pub open spec fn join_lines(lines: Seq<Seq<char>>) -> Seq<char>
    decreases lines.len(),
{
    if lines.len() == 0 {
        seq![]
    } else if lines.len() == 1 {
        lines[0]
    } else {
        join_lines(lines.drop_last()) + "\n"@ + lines.last()
    }
}

/// Joins strings with a newline between consecutive ones (`join("\n")`).
pub fn join_with_newlines(lines: &Vec<String>) -> (s: String)
    ensures
        s@ == join_lines(texts(lines@)),
{
    let mut s = String::new();
    let mut i: usize = 0;
    while i < lines.len()
        invariant
            i <= lines.len(),
            s@ == join_lines(texts(lines@).take(i as int)),
        decreases lines.len() - i,
    {
        let ghost t = texts(lines@);
        assert(t.take(i + 1).drop_last() == t.take(i as int));
        assert(t.take(i + 1).last() == lines@[i as int]@);
        if i > 0 {
            s.append("\n");
        } else {
            assert(t.take(1) =~= seq![lines@[0]@]);
        }
        s.append(lines[i].as_str());
        i += 1;
    }
    assert(texts(lines@).take(lines.len() as int) == texts(lines@));
    s
}

/// The report output: a note when lines were filtered out, then the kept
/// lines, one per line.
pub open spec fn filtered_output(total: nat, kept: Seq<Seq<char>>) -> Seq<char> {
    if kept.len() < total {
        join_lines(
            seq![
                "(Filtered "@ + decimal(total) + " lines, showing "@ + decimal(kept.len())
                    + " lines - TRACE logs excluded)"@,
            ] + kept,
        )
    } else {
        join_lines(kept)
    }
}

/// Build output with filter information
pub fn build_filtered_output(original_lines: &[&str], filtered_lines: &[String]) -> (s: String)
    ensures
        s@ == filtered_output(original_lines@.len(), texts(filtered_lines@)),
{
    let total_lines = original_lines.len();
    let filtered_count = filtered_lines.len();
    let mut output: Vec<String> = Vec::new();
    let ghost head: Seq<Seq<char>> = seq![];
    if filtered_count < total_lines {
        let mut note = String::from_str("(Filtered ");
        note.append(usize_to_string(total_lines).as_str());
        note.append(" lines, showing ");
        note.append(usize_to_string(filtered_count).as_str());
        note.append(" lines - TRACE logs excluded)");
        proof {
            head = seq![note@];
        }
        output.push(note);
    }
    assert(texts(output@) =~= head);
    let mut i: usize = 0;
    while i < filtered_lines.len()
        invariant
            i <= filtered_lines.len(),
            texts(output@) == head + texts(filtered_lines@).take(i as int),
        decreases filtered_lines.len() - i,
    {
        let ghost prev = output@;
        output.push(filtered_lines[i].clone());
        assert(texts(output@) =~= texts(prev).push(filtered_lines@[i as int]@));
        i += 1;
        assert(texts(filtered_lines@).take(i as int) =~= texts(filtered_lines@).take(i - 1).push(
            filtered_lines@[i - 1]@,
        ));
    }
    assert(texts(filtered_lines@).take(filtered_lines.len() as int) == texts(filtered_lines@));
    assert(!(filtered_count < total_lines) ==> head + texts(filtered_lines@) =~= texts(filtered_lines@));
    join_with_newlines(&output)
}

} // verus!
