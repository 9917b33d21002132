//! Plain values shared by the actors.
//!
//! Coordinates are carried as the bit patterns of 64-bit floating-point numbers. The library
//! stores them, compares them and hands them on; whoever owns a display does the arithmetic and
//! passes in what came of it (which space a frame lies in, whether two frames agree, which zone
//! the pointer is over). Zero is always written without a sign, so that equal coordinates have
//! equal patterns.

use vstd::prelude::*;

use crate::collections::Key;

verus! {

/// A process id.
pub type Pid = i32;

/// A native space, as the window server numbers it.
pub type SpaceId = u64;

/// A window, as the window server numbers it.
pub type WindowServerId = u32;

/// A point in screen coordinates.
#[derive(Clone, Copy, Debug, PartialEq, Eq, Structural)]
pub struct Point {
    pub x: u64,
    pub y: u64,
}

/// A rectangle in screen coordinates.
#[derive(Clone, Copy, Debug, PartialEq, Eq, Structural)]
pub struct Frame {
    pub x: u64,
    pub y: u64,
    pub width: u64,
    pub height: u64,
}

impl Frame {
    /// The corner that the frame hangs from.
    pub open spec fn spec_origin(self) -> Point {
        Point { x: self.x, y: self.y }
    }

    pub fn origin(&self) -> (p: Point)
        ensures
            p == self.spec_origin(),
    {
        Point { x: self.x, y: self.y }
    }
}

impl Key for Frame {
    fn same(&self, other: &Self) -> (r: bool) {
        *self == *other
    }
}

/// Whether the left mouse button is held.
#[derive(Clone, Copy, Debug, PartialEq, Eq, Structural)]
pub enum MouseState {
    Down,
    Up,
}

/// Whether an event was caused by this program, so that nothing needs to react to it.
#[derive(Clone, Copy, Debug, PartialEq, Eq, Structural)]
pub enum Quiet {
    Yes,
    No,
}

impl Default for Quiet {
    fn default() -> (q: Quiet)
        ensures
            q == Quiet::No,
    {
        Quiet::No
    }
}

/// What is known of an application.
#[derive(Clone, Debug, PartialEq, Eq)]
pub struct AppInfo {
    pub bundle_id: Option<String>,
    pub localized_name: Option<String>,
}

/// What the accessibility interface reports of a window.
#[derive(Clone, Debug, PartialEq, Eq)]
pub struct WindowInfo {
    pub is_standard: bool,
    pub is_root: bool,
    pub is_minimized: bool,
    pub title: String,
    pub frame: Frame,
    pub sys_id: Option<WindowServerId>,
    pub bundle_id: Option<String>,
    pub path: Option<String>,
    pub ax_role: Option<String>,
    pub ax_subrole: Option<String>,
}

/// What the window server reports of a window.
#[derive(Clone, Copy, Debug, PartialEq, Eq, Structural)]
pub struct WindowServerInfo {
    pub id: WindowServerId,
    pub pid: Pid,
    pub layer: i32,
    pub frame: Frame,
}

/// A display and the space it shows.
#[derive(Clone, Copy, Debug, PartialEq, Eq, Structural)]
pub struct Screen {
    pub frame: Frame,
    pub space: Option<SpaceId>,
}

/// A frame hangs from the corner that its coordinates give.
pub proof fn frames_hang_from_their_corner(f: Frame)
    ensures
        f.spec_origin().x == f.x,
        f.spec_origin().y == f.y,
{
}

} // verus!
