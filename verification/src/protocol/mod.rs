//! What clients and the window manager say to each other. The encoding belongs to the transport.

use vstd::prelude::*;

pub mod events;
pub mod queries;
pub mod transport;

verus! {

} // verus!
