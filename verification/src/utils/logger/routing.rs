//! Routing of log records: every record goes to the debug log, errors also
//! to the error log.

use vstd::prelude::*;
use crate::utils::logger::formatters::LogLevel;

verus! {

/// Check if record is error level
pub fn is_error_level(level: LogLevel) -> (b: bool)
    ensures
        b == (level == LogLevel::Error),
{
    match level {
        LogLevel::Error => true,
        _ => false,
    }
}

} // verus!
