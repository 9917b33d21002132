use vstd::prelude::*;

pub mod app;
pub mod centered_bar;
pub mod client;
pub mod collections;
pub mod config;
pub mod config_watcher;
pub mod dimmer;
pub mod drag;
pub mod gesture_tap;
pub mod json;
pub mod menu_bar;
pub mod mission_control;
pub mod mission_control_observer;
pub mod model;
pub mod mouse;
pub mod notification_center;
pub mod protocol;
pub mod reactor;
pub mod spaces;
pub mod stack_line;
pub mod startup;
pub mod swipe;
pub mod text;
pub mod window_id;
pub mod window_notify;
pub mod wm_controller;

verus! {

} // verus!
