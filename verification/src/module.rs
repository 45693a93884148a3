//! Module-slot identity answers.
//!
//! The host reports slot indices as plain integers and uses a negative
//! answer to say "this script does not run for a module".

use vstd::prelude::*;

verus! {

/// Reads a host index answer: a negative index means there is no such
/// slot, every other index passes through.
pub fn on_negative_to_none(index: i32) -> (r: Option<i32>)
    ensures
        index < 0 ==> r is None,
        index >= 0 ==> r == Some(index),
{
    if index < 0 {
        None
    } else {
        Some(index)
    }
}

} // verus!
