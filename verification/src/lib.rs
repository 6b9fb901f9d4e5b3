//! Core of the Ned editing plugin: text ranges, the filter pipeline that the
//! user builds up, and the bookkeeping of temporary key bindings.
use vstd::prelude::*;

pub mod creator;
pub mod filter;
pub mod number;
pub mod range;
pub mod temp_key;

verus! {

/// Logs a message of the plugin. Messages are not shown anywhere at
/// present, so this does nothing.
pub fn info(msg: &str) {
}

} // verus!
