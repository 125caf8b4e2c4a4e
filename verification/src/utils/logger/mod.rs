//! Session logging: levels, line formats, and the reports built from the
//! debug and error logs.

pub mod routing;
pub mod file_ops;
pub mod formatters;
pub mod reader;

use vstd::prelude::*;
use crate::strings::str_equal;
use crate::utils::logger::formatters::join_lines;
use crate::utils::logger::reader::{debug_report, opt_read_texts, session_report_lines};

verus! {

/// Most verbose level of records that are kept (`log::LevelFilter`).
#[derive(Clone, Copy, Debug, PartialEq, Eq, Structural)]
pub enum LogLevelFilter {
    Off,
    Error,
    Warn,
    Info,
    Debug,
    Trace,
}

/// The level named by a setting, if it names one.
pub open spec fn named_level(name: Seq<char>) -> Option<LogLevelFilter> {
    if name == "off"@ {
        Some(LogLevelFilter::Off)
    } else if name == "error"@ {
        Some(LogLevelFilter::Error)
    } else if name == "warn"@ {
        Some(LogLevelFilter::Warn)
    } else if name == "info"@ {
        Some(LogLevelFilter::Info)
    } else if name == "debug"@ {
        Some(LogLevelFilter::Debug)
    } else if name == "trace"@ {
        Some(LogLevelFilter::Trace)
    } else {
        None
    }
}

/// The level named by `name` ("off", "error", "warn", "info", "debug",
/// "trace"), or `None` for any other text.
pub fn parse_log_level(name: &str) -> (r: Option<LogLevelFilter>)
    ensures
        r == named_level(name@),
{
    if str_equal(name, "off") {
        Some(LogLevelFilter::Off)
    } else if str_equal(name, "error") {
        Some(LogLevelFilter::Error)
    } else if str_equal(name, "warn") {
        Some(LogLevelFilter::Warn)
    } else if str_equal(name, "info") {
        Some(LogLevelFilter::Info)
    } else if str_equal(name, "debug") {
        Some(LogLevelFilter::Debug)
    } else if str_equal(name, "trace") {
        Some(LogLevelFilter::Trace)
    } else {
        None
    }
}

/// Get default log level based on build type: debug for nightly builds,
/// off otherwise.
pub fn get_default_log_level(nightly: bool) -> (l: LogLevelFilter)
    ensures
        l == (if nightly {
            LogLevelFilter::Debug
        } else {
            LogLevelFilter::Off
        }),
{
    if nightly {
        LogLevelFilter::Debug
    } else {
        LogLevelFilter::Off
    }
}

/// Determine the log level filter: the level named by the setting, the
/// build's default without a setting, and info for an unknown name.
pub fn determine_log_level(log_level: Option<&str>, nightly: bool) -> (l: LogLevelFilter)
    ensures
        l == match log_level {
            None => if nightly {
                LogLevelFilter::Debug
            } else {
                LogLevelFilter::Off
            },
            Some(name) => match named_level(name@) {
                Some(level) => level,
                None => LogLevelFilter::Info,
            },
        },
{
    match log_level {
        None => get_default_log_level(nightly),
        Some(name) => match parse_log_level(name) {
            Some(level) => level,
            None => LogLevelFilter::Info,
        },
    }
}

/// Get concatenated logs from the current session (debug + error logs):
/// an error without a session, else the report of the session's lines.
pub fn get_current_session_logs(
    session_id: Option<&str>,
    timestamp: &str,
    debug_logs: Option<Result<Vec<String>, String>>,
    error_logs: Option<Result<Vec<String>, String>>,
) -> (r: Result<String, String>)
    ensures
        match session_id {
            None => r matches Err(e) && e@ == "No session ID available"@,
            Some(id) => r matches Ok(s) && s@ == join_lines(
                session_report_lines(
                    id@,
                    timestamp@,
                    opt_read_texts(debug_logs),
                    opt_read_texts(error_logs),
                ),
            ),
        },
{
    match session_id {
        None => Err(String::from_str("No session ID available")),
        Some(id) => reader::get_current_session_logs(id, timestamp, debug_logs, error_logs),
    }
}

/// Get logs for debug report (optimized for size): an error line without a
/// session, else the debug report of the session's logs.
pub fn get_logs_for_debug_report(session_logs: Option<String>) -> (s: String)
    ensures
        s@ == match session_logs {
            None => "Error: No session ID available"@,
            Some(l) => debug_report(l@),
        },
{
    match session_logs {
        None => String::from_str("Error: No session ID available"),
        Some(logs) => reader::format_debug_report(logs.as_str()),
    }
}

} // verus!
