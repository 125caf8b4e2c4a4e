//! Verified core of a terminal front end for Maven: search over build
//! output, output wrapping metrics, Maven profile states, log-line
//! cleaning and colouring, session log assembly and watch patterns.

use vstd::prelude::*;

pub mod strings;
pub mod ui;
pub mod utils;
pub mod watcher;

verus! {

} // verus!
