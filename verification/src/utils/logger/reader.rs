//! Assembly of session logs and log tails into reports. Reading the log
//! files is left to the caller, which hands over the lines it read (or the
//! error it met); everything shown to the user is composed here.

use vstd::prelude::*;
use crate::strings::{chars_of, concat2, concat3, string_from_range, texts};
use crate::utils::logger::formatters::{
    build_filtered_output, build_log_header, filter_and_limit_logs, filtered_output, get_last_n_lines, join_lines,
    join_with_newlines, last_n, log_header, non_trace_lines, MAX_REPORT_LINES,
};

verus! {

/// Lines read from a log file, or the error met reading it, as texts.
pub open spec fn read_texts(r: Result<Vec<String>, String>) -> Result<Seq<Seq<char>>, Seq<char>> {
    match r {
        Ok(v) => Ok(texts(v@)),
        Err(e) => Err(e@),
    }
}

/// What a session's lines from one file add to a report.
pub open spec fn session_file_lines(read: Result<Seq<Seq<char>>, Seq<char>>, log_type: Seq<char>) -> Seq<
    Seq<char>,
> {
    match read {
        Ok(lines) => if lines.len() == 0 {
            seq!["(No "@ + log_type + " for this session)"@]
        } else {
            lines
        },
        Err(e) => seq!["Error reading "@ + log_type + " logs: "@ + e],
    }
}

/// Most lines of a log file shown in the full log dump.
pub const LOG_TAIL_LINES: usize = 500;

/// What a log file adds to the full log dump, from the lines read from it:
/// its last `LOG_TAIL_LINES` lines, in file order.
pub open spec fn tail_lines(read: Result<Seq<Seq<char>>, Seq<char>>, log_type: Seq<char>) -> Seq<
    Seq<char>,
> {
    match read {
        Ok(lines) => if lines.len() == 0 {
            seq!["(No "@ + log_type + " logs)"@]
        } else {
            last_n(lines, LOG_TAIL_LINES as nat)
        },
        Err(e) => seq!["Error reading "@ + log_type + " logs: "@ + e],
    }
}

fn push_all(out: &mut Vec<String>, lines: Vec<String>)
    ensures
        texts(final(out)@) == texts(old(out)@) + texts(lines@),
{
    let ghost start = texts(out@);
    let mut i: usize = 0;
    while i < lines.len()
        invariant
            i <= lines.len(),
            texts(out@) == start + texts(lines@).take(i as int),
        decreases lines.len() - i,
    {
        let ghost prev = out@;
        out.push(lines[i].clone());
        assert(texts(out@) =~= texts(prev).push(lines@[i as int]@));
        i += 1;
        assert(texts(lines@).take(i as int) =~= texts(lines@).take(i - 1).push(lines@[i - 1]@));
    }
    assert(texts(lines@).take(lines.len() as int) == texts(lines@));
}

/// Add session logs from a file to output
pub fn add_session_logs_from_file(
    all_logs: &mut Vec<String>,
    logs: Result<Vec<String>, String>,
    log_type: &str,
)
    ensures
        texts(final(all_logs)@) == texts(old(all_logs)@) + session_file_lines(read_texts(logs), log_type@),
{
    let ghost read = read_texts(logs);
    match logs {
        Ok(logs) => {
            if logs.len() == 0 {
                let ghost prev = all_logs@;
                all_logs.push(concat3("(No ", log_type, " for this session)"));
                assert(texts(all_logs@) =~= texts(prev) + session_file_lines(read, log_type@));
            } else {
                push_all(all_logs, logs);
            }
        },
        Err(e) => {
            let ghost prev = all_logs@;
            let mut line = concat3("Error reading ", log_type, " logs: ");
            line.append(e.as_str());
            all_logs.push(line);
            assert(texts(all_logs@) =~= texts(prev) + session_file_lines(read, log_type@));
        },
    }
}

/// What a log file adds to a session report: nothing when the file does
/// not exist, else a heading, its lines of the session, and an empty line.
pub open spec fn session_section(
    read: Option<Result<Seq<Seq<char>>, Seq<char>>>,
    heading: Seq<char>,
    log_type: Seq<char>,
) -> Seq<Seq<char>> {
    match read {
        Some(r) => seq![heading] + session_file_lines(r, log_type) + seq![seq![]],
        None => seq![],
    }
}

/// A file's read result, when the file exists.
pub open spec fn opt_read_texts(r: Option<Result<Vec<String>, String>>) -> Option<
    Result<Seq<Seq<char>>, Seq<char>>,
> {
    match r {
        Some(x) => Some(read_texts(x)),
        None => None,
    }
}

fn add_section(
    all_logs: &mut Vec<String>,
    logs: Option<Result<Vec<String>, String>>,
    heading: &str,
    log_type: &str,
)
    ensures
        texts(final(all_logs)@) == texts(old(all_logs)@) + session_section(
            opt_read_texts(logs),
            heading@,
            log_type@,
        ),
{
    let ghost read = opt_read_texts(logs);
    if let Some(logs) = logs {
        let ghost start = texts(all_logs@);
        all_logs.push(String::from_str(heading));
        let ghost mid = texts(all_logs@);
        assert(mid =~= start + seq![heading@]);
        add_session_logs_from_file(all_logs, logs, log_type);
        let ghost prev = all_logs@;
        all_logs.push(String::new());
        assert(texts(all_logs@) =~= texts(prev).push(seq![]));
        assert(texts(all_logs@) =~= start + session_section(read, heading@, log_type@));
    } else {
        assert(texts(all_logs@) =~= texts(all_logs@) + session_section(read, heading@, log_type@));
    }
}

/// Add debug logs to output (`debug_logs` is `None` when there is no debug
/// log file)
pub fn add_debug_logs(all_logs: &mut Vec<String>, debug_logs: Option<Result<Vec<String>, String>>)
    ensures
        texts(final(all_logs)@) == texts(old(all_logs)@) + session_section(
            opt_read_texts(debug_logs),
            "=== Debug Logs ==="@,
            "debug"@,
        ),
{
    add_section(all_logs, debug_logs, "=== Debug Logs ===", "debug");
}

/// Add error logs to output (`error_logs` is `None` when there is no error
/// log file)
pub fn add_error_logs(all_logs: &mut Vec<String>, error_logs: Option<Result<Vec<String>, String>>)
    ensures
        texts(final(all_logs)@) == texts(old(all_logs)@) + session_section(
            opt_read_texts(error_logs),
            "=== Error Logs ==="@,
            "errors"@,
        ),
{
    add_section(all_logs, error_logs, "=== Error Logs ===", "errors");
}

/// The lines of a session report: header, debug section, error section.
pub open spec fn session_report_lines(
    session_id: Seq<char>,
    timestamp: Seq<char>,
    debug: Option<Result<Seq<Seq<char>>, Seq<char>>>,
    error: Option<Result<Seq<Seq<char>>, Seq<char>>>,
) -> Seq<Seq<char>> {
    log_header(session_id, timestamp) + session_section(debug, "=== Debug Logs ==="@, "debug"@)
        + session_section(error, "=== Error Logs ==="@, "errors"@)
}

/// Get concatenated logs from the current session (debug + error logs),
/// given the session's lines read from each log file.
pub fn get_current_session_logs(
    session_id: &str,
    timestamp: &str,
    debug_logs: Option<Result<Vec<String>, String>>,
    error_logs: Option<Result<Vec<String>, String>>,
) -> (r: Result<String, String>)
    ensures
        r matches Ok(s) && s@ == join_lines(
            session_report_lines(
                session_id@,
                timestamp@,
                opt_read_texts(debug_logs),
                opt_read_texts(error_logs),
            ),
        ),
{
    let mut all_logs = build_log_header(session_id, timestamp);
    add_debug_logs(&mut all_logs, debug_logs);
    add_error_logs(&mut all_logs, error_logs);
    Ok(join_with_newlines(&all_logs))
}

/// Add the tail of a log file to output, given all the lines read from
/// the file (or the error met reading it): its last `LOG_TAIL_LINES` lines.
pub fn add_log_tail(output: &mut Vec<String>, lines: Result<Vec<String>, String>, log_type: &str)
    ensures
        texts(final(output)@) == texts(old(output)@) + tail_lines(read_texts(lines), log_type@),
{
    let ghost read = read_texts(lines);
    match lines {
        Ok(lines) => {
            if lines.len() == 0 {
                let ghost prev = output@;
                output.push(concat3("(No ", log_type, " logs)"));
                assert(texts(output@) =~= texts(prev) + tail_lines(read, log_type@));
            } else {
                let ghost all = lines@;
                let tail = get_last_n_lines(lines, LOG_TAIL_LINES);
                proof {
                    if all.len() > LOG_TAIL_LINES {
                        assert(texts(tail@) =~= texts(all).skip(all.len() - LOG_TAIL_LINES));
                    } else {
                        assert(texts(tail@) =~= texts(all));
                    }
                }
                push_all(output, tail);
            }
        },
        Err(e) => {
            let ghost prev = output@;
            let mut line = concat3("Error reading ", log_type, " logs: ");
            line.append(e.as_str());
            output.push(line);
            assert(texts(output@) =~= texts(prev) + tail_lines(read, log_type@));
        },
    }
}

/// What the debug log's tail adds to the full log dump.
pub open spec fn debug_tail_section(read: Option<Result<Seq<Seq<char>>, Seq<char>>>) -> Seq<
    Seq<char>,
> {
    match read {
        Some(r) => seq!["=== Debug Logs (last 500 lines) ==="@] + tail_lines(r, "debug"@) + seq![
            seq![],
        ],
        None => seq![],
    }
}

/// What the error log's tail adds to the full log dump.
pub open spec fn error_tail_section(read: Option<Result<Seq<Seq<char>>, Seq<char>>>) -> Seq<
    Seq<char>,
> {
    match read {
        Some(r) => seq!["=== Error Logs (last 500 lines) ==="@] + tail_lines(r, "error"@),
        None => seq![],
    }
}

/// Add debug log tail to output (`None` when there is no debug log file)
pub fn add_debug_log_tail(output: &mut Vec<String>, debug_tail: Option<Result<Vec<String>, String>>)
    ensures
        texts(final(output)@) == texts(old(output)@) + debug_tail_section(
            opt_read_texts(debug_tail),
        ),
{
    let ghost read = opt_read_texts(debug_tail);
    if let Some(lines) = debug_tail {
        let ghost start = texts(output@);
        output.push(String::from_str("=== Debug Logs (last 500 lines) ==="));
        assert(texts(output@) =~= start + seq!["=== Debug Logs (last 500 lines) ==="@]);
        add_log_tail(output, lines, "debug");
        let ghost prev = output@;
        output.push(String::new());
        assert(texts(output@) =~= texts(prev).push(seq![]));
        assert(texts(output@) =~= start + debug_tail_section(read));
    } else {
        assert(texts(output@) =~= texts(output@) + debug_tail_section(read));
    }
}

/// Add error log tail to output (`None` when there is no error log file)
pub fn add_error_log_tail(output: &mut Vec<String>, error_tail: Option<Result<Vec<String>, String>>)
    ensures
        texts(final(output)@) == texts(old(output)@) + error_tail_section(
            opt_read_texts(error_tail),
        ),
{
    let ghost read = opt_read_texts(error_tail);
    if let Some(lines) = error_tail {
        let ghost start = texts(output@);
        output.push(String::from_str("=== Error Logs (last 500 lines) ==="));
        assert(texts(output@) =~= start + seq!["=== Error Logs (last 500 lines) ==="@]);
        add_log_tail(output, lines, "error");
        assert(texts(output@) =~= start + error_tail_section(read));
    } else {
        assert(texts(output@) =~= texts(output@) + error_tail_section(read));
    }
}

/// Get all available logs (last 500 lines from debug and error logs), given
/// the lines read from each log file (`None` where the file does not exist).
pub fn get_all_logs(
    debug_tail: Option<Result<Vec<String>, String>>,
    error_tail: Option<Result<Vec<String>, String>>,
) -> (s: String)
    ensures
        s@ == join_lines(
            debug_tail_section(opt_read_texts(debug_tail)) + error_tail_section(
                opt_read_texts(error_tail),
            ),
        ),
{
    let mut output: Vec<String> = Vec::new();
    add_debug_log_tail(&mut output, debug_tail);
    add_error_log_tail(&mut output, error_tail);
    assert(texts(output@) =~= debug_tail_section(opt_read_texts(debug_tail)) + error_tail_section(
        opt_read_texts(error_tail),
    ));
    join_with_newlines(&output)
}

/// Position of the first newline of `s` at or after `i`, or the end.
pub open spec fn next_newline(s: Seq<char>, i: int) -> int
    decreases s.len() - i,
{
    if i < 0 || i >= s.len() {
        s.len() as int
    } else if s[i] == '\n' {
        i
    } else {
        next_newline(s, i + 1)
    }
}

pub proof fn lemma_next_newline_bounds(s: Seq<char>, i: int)
    requires
        0 <= i <= s.len(),
    ensures
        i <= next_newline(s, i) <= s.len(),
    decreases s.len() - i,
{
    if i < s.len() && s[i] != '\n' {
        lemma_next_newline_bounds(s, i + 1);
    }
}

/// The lines of `s` from position `i` on, as `str::lines` splits them: each
/// ends at a newline, which is dropped along with a carriage return just
/// before it; a last line without newline is kept as it is, and nothing
/// follows a final newline.
pub open spec fn lines_from(s: Seq<char>, i: int) -> Seq<Seq<char>>
    decreases s.len() - i,
{
    if i < 0 || i >= s.len() {
        seq![]
    } else {
        let j = next_newline(s, i);
        proof {
            lemma_next_newline_bounds(s, i);
        }
        if j >= s.len() {
            seq![s.subrange(i, s.len() as int)]
        } else {
            let l = s.subrange(i, j);
            seq![
                if l.len() > 0 && l.last() == '\r' {
                    l.drop_last()
                } else {
                    l
                },
            ] + lines_from(s, j + 1)
        }
    }
}

/// The lines of a text (`str::lines`).
pub fn text_lines(text: &str) -> (r: Vec<String>)
    ensures
        texts(r@) == lines_from(text@, 0),
{
    let s = chars_of(text);
    let mut r: Vec<String> = Vec::new();
    let mut i: usize = 0;
    while i < s.len()
        invariant
            i <= s.len(),
            s@ == text@,
            lines_from(text@, 0) == texts(r@) + lines_from(text@, i as int),
        decreases s.len() - i,
    {
        let mut j = i;
        while j < s.len() && s[j] != '\n'
            invariant
                i <= j <= s.len(),
                next_newline(s@, j as int) == next_newline(s@, i as int),
            decreases s.len() - j,
        {
            j += 1;
        }
        let ghost prev = r@;
        if j >= s.len() {
            r.push(string_from_range(&s, i, j));
            assert(texts(r@) =~= texts(prev) + lines_from(text@, i as int));
            assert(lines_from(text@, j as int) =~= Seq::<Seq<char>>::empty());
            i = j;
        } else {
            let end = if j > i && s[j - 1] == '\r' {
                j - 1
            } else {
                j
            };
            r.push(string_from_range(&s, i, end));
            proof {
                let l = s@.subrange(i as int, j as int);
                if j > i && s@[j - 1] == '\r' {
                    assert(l.drop_last() =~= s@.subrange(i as int, j - 1));
                }
                assert(texts(r@) =~= texts(prev).push(if l.len() > 0 && l.last() == '\r' {
                    l.drop_last()
                } else {
                    l
                }));
            }
            i = j + 1;
        }
    }
    assert(texts(r@) + seq![] =~= texts(r@));
    r
}

/// The debug report made of a session's logs: their last non-TRACE lines,
/// with a note when lines were left out, or a note that there are none.
pub open spec fn debug_report(session_logs: Seq<char>) -> Seq<char> {
    let lines = lines_from(session_logs, 0);
    let kept = last_n(non_trace_lines(lines), MAX_REPORT_LINES as nat);
    if kept.len() == 0 {
        "(No logs for current session)"@
    } else {
        filtered_output(lines.len(), kept)
    }
}

/// Format session logs for debug report
pub fn format_debug_report(session_logs: &str) -> (s: String)
    ensures
        s@ == debug_report(session_logs@),
{
    let lines = text_lines(session_logs);
    let mut refs: Vec<&str> = Vec::new();
    let mut i: usize = 0;
    while i < lines.len()
        invariant
            i <= lines.len(),
            refs@.len() == i,
            forall|k: int| 0 <= k < i ==> refs@[k]@ == lines@[k]@,
        decreases lines.len() - i,
    {
        refs.push(lines[i].as_str());
        i += 1;
    }
    assert(refs@.map_values(|l: &str| l@) =~= texts(lines@));
    let filtered = filter_and_limit_logs(refs.as_slice());
    if filtered.len() == 0 {
        String::from_str("(No logs for current session)")
    } else {
        build_filtered_output(refs.as_slice(), filtered.as_slice())
    }
}

/// Get logs for debug report (optimized for size), given the session's logs
/// or the error met collecting them
/// - Only includes current session logs (across all rotated files)
/// - Filters out TRACE level logs (keeps DEBUG, INFO, WARN, ERROR)
/// - Limits to last 300 lines to keep report manageable
pub fn get_logs_for_debug_report(session_logs: Result<String, String>) -> (s: String)
    ensures
        s@ == match session_logs {
            Ok(l) => debug_report(l@),
            Err(e) => "Error getting session logs: "@ + e@,
        },
{
    match session_logs {
        Ok(logs) => format_debug_report(logs.as_str()),
        Err(e) => concat2("Error getting session logs: ", e.as_str()),
    }
}

} // verus!
