//! What has to follow once an event was handled.

use vstd::prelude::*;

use crate::reactor::event::LayoutEvent;
use crate::window_id::WindowId;

verus! {

/// Whether and how windows are arranged anew.
#[derive(Clone, Copy, Debug, PartialEq, Eq, Structural)]
pub struct ArrangeRequest {
    pub requested: bool,
    pub is_resize: bool,
    pub window_was_destroyed: bool,
}

impl Default for ArrangeRequest {
    fn default() -> (r: ArrangeRequest)
        ensures
            r == (ArrangeRequest {
                requested: false,
                is_resize: false,
                window_was_destroyed: false,
            }),
    {
        ArrangeRequest { requested: false, is_resize: false, window_was_destroyed: false }
    }
}

/// Follow-up work that an event asks for.
#[derive(Debug, PartialEq, Eq)]
pub struct EventOutcome {
    pub arrange: ArrangeRequest,
    /// How often windows are arranged.
    pub arrange_passes: u8,
    pub focused_window: Option<WindowId>,
    pub refresh_window_notifications: bool,
    pub refresh_layout_mode: bool,
    /// What the layout engine is told first, in this order.
    pub layout_events: Vec<LayoutEvent>,
}

impl EventOutcome {
    /// All the work that follows an event once it is settled.
    pub fn finalized_event(
        focused_window: Option<WindowId>,
        is_resize: bool,
        window_was_destroyed: bool,
        refresh_window_notifications: bool,
    ) -> (r: EventOutcome)
        ensures
            r.arrange == (ArrangeRequest { requested: true, is_resize, window_was_destroyed }),
            r.arrange_passes == 1,
            r.focused_window == focused_window,
            r.refresh_window_notifications == refresh_window_notifications,
            r.refresh_layout_mode,
            r.layout_events@.len() == 0,
    {
        EventOutcome {
            arrange: ArrangeRequest { requested: true, is_resize, window_was_destroyed },
            arrange_passes: 1,
            focused_window,
            refresh_window_notifications,
            refresh_layout_mode: true,
            layout_events: Vec::new(),
        }
    }

    /// Nothing but the layout is touched.
    pub fn layout_changed(is_resize: bool) -> (r: EventOutcome)
        ensures
            r.arrange == (ArrangeRequest {
                requested: false,
                is_resize,
                window_was_destroyed: false,
            }),
            r.arrange_passes == 0,
            r.focused_window is None,
            !r.refresh_window_notifications,
            !r.refresh_layout_mode,
            r.layout_events@.len() == 0,
    {
        EventOutcome {
            arrange: ArrangeRequest { requested: false, is_resize, window_was_destroyed: false },
            arrange_passes: 0,
            focused_window: None,
            refresh_window_notifications: false,
            refresh_layout_mode: false,
            layout_events: Vec::new(),
        }
    }
}

} // verus!
