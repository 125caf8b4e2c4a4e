//! Decisions about log files: which files are rotated backups, when a log
//! is rotated, and how backups are named.

use vstd::prelude::*;
use crate::strings::{concat2, contains_seq, decimal, str_contains, usize_to_string};

verus! {

/// Check if a file name is that of a rotated log file (it holds `.log.`);
/// a path without a (valid UTF-8) file name is not.
pub fn is_rotated_log_file(file_name: Option<&str>) -> (b: bool)
    ensures
        b == match file_name {
            Some(n) => contains_seq(n@, ".log."@),
            None => false,
        },
{
    match file_name {
        Some(n) => str_contains(n, ".log."),
        None => false,
    }
}

/// Bytes in a megabyte.
pub const BYTES_PER_MB: u64 = 1048576;

/// Check if a file needs rotation: its size in whole megabytes has reached
/// the limit.
pub fn needs_rotation(size_bytes: u64, max_size_mb: u64) -> (b: bool)
    ensures
        b == (size_bytes / BYTES_PER_MB >= max_size_mb),
{
    size_bytes / BYTES_PER_MB >= max_size_mb
}

/// Extension of the `index`-th backup of a log file (`log.<index>`).
pub fn backup_extension(index: usize) -> (s: String)
    ensures
        s@ == "log."@ + decimal(index as nat),
{
    let n = usize_to_string(index);
    concat2("log.", n.as_str())
}

/// Age in seconds after which rotated logs are deleted (thirty days).
pub const MAX_LOG_AGE_SECS: u64 = 2592000;

/// Check if log entry should be deleted: a rotated log file last modified
/// before the cutoff (both times in seconds since the epoch).
pub fn should_delete_old_log(file_name: Option<&str>, modified_secs: u64, cutoff_secs: u64) -> (b: bool)
    ensures
        b == (match file_name {
            Some(n) => contains_seq(n@, ".log."@),
            None => false,
        } && modified_secs < cutoff_secs),
{
    if !is_rotated_log_file(file_name) {
        return false;
    }
    modified_secs < cutoff_secs
}

/// Number of rotated backups kept.
pub const MAX_BACKUPS: usize = 5;

/// One step of rotating the backups of a log file.
#[derive(Clone, Copy, Debug, PartialEq, Eq, Structural)]
pub enum BackupStep {
    /// Delete backup `n`.
    Remove(usize),
    /// Rename backup `n`, if it exists, to backup `n + 1`.
    Shift(usize),
}

/// The steps of rotating existing backups, oldest first: the last kept
/// backup is deleted, then each other one moves up by one, so that backup 1
/// is free for the current log.
pub open spec fn rotation_steps_spec() -> Seq<BackupStep> {
    seq![
        BackupStep::Remove(5),
        BackupStep::Shift(4),
        BackupStep::Shift(3),
        BackupStep::Shift(2),
        BackupStep::Shift(1),
    ]
}

/// The steps of rotating existing backups.
pub fn rotate_backups() -> (r: Vec<BackupStep>)
    ensures
        r@ == rotation_steps_spec(),
{
    let mut steps: Vec<BackupStep> = Vec::new();
    let mut i: usize = MAX_BACKUPS;
    while i >= 1
        invariant
            0 <= i <= MAX_BACKUPS,
            steps@ == rotation_steps_spec().take((MAX_BACKUPS - i) as int),
        decreases i,
    {
        if i == MAX_BACKUPS {
            steps.push(BackupStep::Remove(i));
        } else {
            steps.push(BackupStep::Shift(i));
        }
        assert(rotation_steps_spec().take((MAX_BACKUPS - i + 1) as int) =~= rotation_steps_spec().take(
            (MAX_BACKUPS - i) as int,
        ).push(steps@.last()));
        i -= 1;
    }
    assert(rotation_steps_spec().take(5) =~= rotation_steps_spec());
    steps
}

} // verus!
