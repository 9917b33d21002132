//! Which display shows which space, and when that is certain enough to act on.
//!
//! Displays are named by their UUID as a number; the nil UUID stands for a display that has none.

use vstd::prelude::*;

pub mod authority;
pub mod topology;

verus! {

} // verus!
