//! Notifications of the window server: which are subscribed to, and what they tell the reactor.

use vstd::prelude::*;

use crate::collections::{Key, VecSet};
use crate::model::WindowServerId;

verus! {

#[derive(Clone, Copy, Debug, PartialEq, Eq, Structural)]
pub enum CGSEventType {
    ServerWindowDidTerminate,
    ServerWindowDidCreate,
    WindowDestroyed,
    WindowCreated,
    WindowMoved,
    WindowResized,
}

impl Key for CGSEventType {
    fn same(&self, other: &Self) -> (r: bool) {
        *self == *other
    }
}

#[derive(Clone, Debug, PartialEq, Eq)]
pub enum Request {
    Subscribe(CGSEventType),
    UpdateWindowNotifications(Vec<u32>),
    Stop,
}

/// What a request leads to.
#[derive(Clone, Copy, Debug, PartialEq, Eq, Structural)]
pub enum NotifyStep {
    /// Subscribe to an event, and report with [`WindowNotify::subscribe_result`].
    Subscribe(CGSEventType),
    /// Hand the list of windows on.
    UpdateWindows,
    Nothing,
    Exit,
}

/// What the reactor is told.
#[derive(Clone, Copy, Debug, PartialEq, Eq, Structural)]
pub enum WindowNotice {
    Destroyed(WindowServerId),
    Appeared(WindowServerId),
}

pub struct WindowNotify {
    pub subscribed: VecSet<CGSEventType>,
}

/// What the reactor is told of an event about a window.
pub open spec fn notice_of(event: CGSEventType, window_id: Option<u32>) -> Option<WindowNotice> {
    match window_id {
        None => None,
        Some(id) => match event {
            CGSEventType::ServerWindowDidTerminate | CGSEventType::WindowDestroyed => Some(
                WindowNotice::Destroyed(id),
            ),
            CGSEventType::ServerWindowDidCreate => Some(
                WindowNotice::Appeared(id),
            ),
            CGSEventType::WindowCreated | CGSEventType::WindowMoved
            | CGSEventType::WindowResized => None,
        },
    }
}

pub fn notice_for(event: CGSEventType, window_id: Option<u32>) -> (r: Option<WindowNotice>)
    ensures
        r == notice_of(event, window_id),
{
    let id: u32 = match window_id {
        Some(id) => id,
        None => {
            return None;
        },
    };
    match event {
        CGSEventType::ServerWindowDidTerminate | CGSEventType::WindowDestroyed => Some(
            WindowNotice::Destroyed(id),
        ),
        CGSEventType::ServerWindowDidCreate => Some(WindowNotice::Appeared(id)),
        CGSEventType::WindowCreated | CGSEventType::WindowMoved | CGSEventType::WindowResized => {
            None
        },
    }
}

impl WindowNotify {
    pub open spec fn view(self) -> Set<CGSEventType> {
        self.subscribed@
    }

    pub fn new() -> (r: WindowNotify)
        ensures
            r@ == Set::<CGSEventType>::empty(),
    {
        WindowNotify { subscribed: VecSet::new() }
    }

    /// What a request leads to: an event is subscribed to once.
    pub fn handle_request(&self, request: &Request) -> (r: NotifyStep)
        ensures
            r == (match *request {
                Request::Subscribe(event) => if self@.contains(event) {
                    NotifyStep::Nothing
                } else {
                    NotifyStep::Subscribe(event)
                },
                Request::UpdateWindowNotifications(_) => NotifyStep::UpdateWindows,
                Request::Stop => NotifyStep::Exit,
            }),
    {
        match request {
            Request::Subscribe(event) => {
                if self.subscribed.contains(event) {
                    NotifyStep::Nothing
                } else {
                    NotifyStep::Subscribe(*event)
                }
            },
            Request::UpdateWindowNotifications(_) => NotifyStep::UpdateWindows,
            Request::Stop => NotifyStep::Exit,
        }
    }

    /// The window server answered a subscription; 0 means that it succeeded.
    pub fn subscribe_result(&mut self, event: CGSEventType, code: i32) -> (r: Result<(), i32>)
        ensures
            r == (if code == 0 {
                Ok(())
            } else {
                Err(code)
            }),
            final(self)@ == (if code == 0 {
                old(self)@.insert(event)
            } else {
                old(self)@
            }),
    {
        if code != 0 {
            return Err(code);
        }
        let _ = self.subscribed.insert(event);
        Ok(())
    }
}

/// A window that the server makes appears, and one that it ends, or that is destroyed, is gone. It
/// is the window of the event. Other events, and events without a window, say neither.
pub proof fn notices_name_the_window_of_the_event(event: CGSEventType, id: u32)
    ensures
        notice_of(event, None) is None,
        event is ServerWindowDidCreate <==> notice_of(event, Some(id)) == Some(
            WindowNotice::Appeared(id),
        ),
        event is ServerWindowDidTerminate || event is WindowDestroyed <==> notice_of(
            event,
            Some(id),
        ) == Some(WindowNotice::Destroyed(id)),
        event is WindowCreated || event is WindowMoved || event is WindowResized <==> notice_of(
            event,
            Some(id),
        ) is None,
{
}

} // verus!
