//! Navigation helpers: debouncing of navigation keys and movement through
//! circular lists.

use vstd::prelude::*;
use std::time::{Duration, Instant};
use crate::ui::search::types::{ring_next, ring_previous};

verus! {

#[verifier::external_type_specification]
#[verifier::external_body]
pub struct ExInstant(Instant);

/// Time elapsed from `earlier` to `later` (`Instant::duration_since`, which
/// saturates at zero). Nothing is stated of the value: instants are opaque
/// readings of the machine's clock.
#[verifier::external_body]
fn elapsed_between(later: Instant, earlier: Instant) -> Duration {
    later.duration_since(earlier)
}

/// Whole nanoseconds in a duration (`Duration::as_nanos`). Nothing is stated
/// of the value: durations are opaque here.
#[verifier::external_body]
fn duration_nanos(d: Duration) -> u128 {
    d.as_nanos()
}

/// Whether a navigation key that comes `elapsed_nanos` after the previous
/// one (none when there was no previous key) is to be ignored: it came
/// sooner than `debounce_nanos`.
pub fn within_debounce(elapsed_nanos: Option<u128>, debounce_nanos: u128) -> (b: bool)
    ensures
        b == match elapsed_nanos {
            Some(e) => e < debounce_nanos,
            None => false,
        },
{
    match elapsed_nanos {
        Some(e) => e < debounce_nanos,
        None => false,
    }
}

/// Check if navigation should be debounced: the previous navigation key was
/// handled less than `debounce_duration` before `now`, as `within_debounce`
/// decides from the clock's readings. Without a previous key nothing is
/// debounced.
pub fn is_navigation_debounced(
    last_time: Option<Instant>,
    now: Instant,
    debounce_duration: Duration,
) -> (debounced: bool)
    ensures
        last_time is None ==> !debounced,
{
    let elapsed = match last_time {
        Some(last) => Some(duration_nanos(elapsed_between(now, last))),
        None => None,
    };
    within_debounce(elapsed, duration_nanos(debounce_duration))
}

/// Calculate next index in a circular list
pub fn calculate_next_index(current: Option<usize>, list_len: usize) -> (r: usize)
    requires
        current is Some ==> list_len > 0 && current->0 < usize::MAX,
    ensures
        r == match current {
            Some(i) => ring_next(i as int, list_len as int),
            None => 0,
        },
{
    match current {
        Some(i) => (i + 1) % list_len,
        None => 0,
    }
}

/// Calculate previous index in a circular list
pub fn calculate_previous_index(current: Option<usize>, list_len: usize) -> (r: usize)
    requires
        current == Some(0usize) ==> list_len > 0,
    ensures
        r == match current {
            Some(i) => ring_previous(i as int, list_len as int),
            None => 0,
        },
{
    match current {
        Some(i) => {
            if i == 0 {
                list_len - 1
            } else {
                i - 1
            }
        },
        None => 0,
    }
}

} // verus!
