//! Build-version metadata checks.

use vstd::prelude::*;
use crate::strings::{contains_seq, str_contains};

verus! {

/// Returns `true` when a version string is that of a nightly build.
pub fn is_nightly(version: &str) -> (b: bool)
    ensures
        b == contains_seq(version@, "nightly"@),
{
    str_contains(version, "nightly")
}

} // verus!
