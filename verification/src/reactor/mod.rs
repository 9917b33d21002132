//! The reactor keeps the model of windows, applications and spaces coherent with what the system
//! reports, and decides what to ask of the other actors.

use vstd::prelude::*;

pub mod actor;
pub mod animation;
pub mod commands;
pub mod discovery;
pub mod dispatch;
pub mod drag_session;
pub mod drop;
pub mod event;
pub mod layout;
pub mod main_window;
pub mod managers;
pub mod outcome;
pub mod space;
pub mod transaction_manager;
pub mod window;

verus! {

} // verus!
