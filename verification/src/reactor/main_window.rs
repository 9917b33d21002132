//! Which window has the focus.
//!
//! Two sources speak of focus: the accessibility events of each application, and the window
//! server. Until the window server has spoken once, accessibility events may report a newly
//! focused window; from then on they only keep the per-application record up to date.

use vstd::prelude::*;

use crate::collections::VecMap;
use crate::model::{Pid, Quiet};
use crate::reactor::event::Event;
use crate::window_id::WindowId;

verus! {

#[derive(Clone, Copy, Debug, PartialEq, Eq, Structural)]
pub struct AppState {
    pub is_frontmost: bool,
    pub frontmost_is_quiet: Quiet,
    pub main_window: Option<WindowId>,
}

pub struct MainWindowTracker {
    pub apps: VecMap<Pid, AppState>,
    pub global_frontmost: Option<Pid>,
    pub window_server_focus: Option<WindowId>,
    pub window_server_focus_authoritative: bool,
    /// The process whose window server key window was destroyed before a successor was reported
    /// (native tab switch). Keeps the key process until the window server reports a focus or
    /// another process becomes frontmost.
    pub key_focus_hold: Option<Pid>,
}

/// What the tracker knows.
#[verifier::ext_equal]
pub struct Focus {
    pub apps: Map<Pid, AppState>,
    pub global_frontmost: Option<Pid>,
    pub window_server_focus: Option<WindowId>,
    pub authoritative: bool,
    pub key_focus_hold: Option<Pid>,
}

impl Focus {
    /// The window that has the focus: what the window server said of the frontmost process, and
    /// failing that the main window of the frontmost application.
    pub open spec fn main_window(self) -> Option<WindowId> {
        match self.global_frontmost {
            None => None,
            Some(pid) => match self.window_server_focus {
                Some(w) if w.pid == pid => Some(w),
                _ => if self.apps.dom().contains(pid) && self.apps[pid].is_frontmost {
                    self.apps[pid].main_window
                } else {
                    None
                },
            },
        }
    }

    /// The process that the window server says owns the keyboard, while that claim agrees with
    /// the frontmost process.
    pub open spec fn key_pid(self) -> Option<Pid> {
        let claimed = match self.window_server_focus {
            Some(w) => Some(w.pid),
            None => self.key_focus_hold,
        };
        if self.global_frontmost is Some && claimed == self.global_frontmost {
            self.global_frontmost
        } else {
            None
        }
    }

    /// The record of `pid` changed by `f`, where there is one.
    pub open spec fn with_app(self, pid: Pid, app: AppState) -> Focus {
        Focus { apps: self.apps.insert(pid, app), ..self }
    }

    /// What is known after `event`.
    pub open spec fn after(self, event: Event) -> Focus {
        match event {
            Event::ApplicationLaunched { pid, is_frontmost, main_window, .. } => self.with_app(
                pid,
                AppState { is_frontmost, frontmost_is_quiet: Quiet::No, main_window },
            ),
            Event::ApplicationThreadTerminated(pid) => Focus {
                apps: self.apps.remove(pid),
                window_server_focus: match self.window_server_focus {
                    Some(w) if w.pid == pid => None,
                    other => other,
                },
                key_focus_hold: if self.key_focus_hold == Some(pid) {
                    None
                } else {
                    self.key_focus_hold
                },
                ..self
            },
            Event::WindowDestroyed(wid) => if self.window_server_focus == Some(wid) {
                Focus { window_server_focus: None, key_focus_hold: Some(wid.pid), ..self }
            } else {
                self
            },
            Event::ApplicationActivated(pid, quiet) => if self.apps.dom().contains(pid) {
                self.with_app(
                    pid,
                    AppState { is_frontmost: true, frontmost_is_quiet: quiet, ..self.apps[pid] },
                )
            } else {
                self
            },
            Event::ApplicationDeactivated(pid) => if self.apps.dom().contains(pid) {
                self.with_app(pid, AppState { is_frontmost: false, ..self.apps[pid] })
            } else {
                self
            },
            Event::ApplicationGloballyActivated(pid) => {
                let front = Focus {
                    global_frontmost: Some(pid),
                    key_focus_hold: match self.key_focus_hold {
                        Some(hold) if hold != pid => None,
                        other => other,
                    },
                    ..self
                };
                if self.apps.dom().contains(pid) {
                    front.with_app(pid, AppState { is_frontmost: true, ..self.apps[pid] })
                } else {
                    front
                }
            },
            Event::ApplicationGloballyDeactivated(pid) => {
                let back = Focus {
                    global_frontmost: if self.global_frontmost == Some(pid) {
                        None
                    } else {
                        self.global_frontmost
                    },
                    ..self
                };
                if self.apps.dom().contains(pid) {
                    back.with_app(pid, AppState { is_frontmost: false, ..self.apps[pid] })
                } else {
                    back
                }
            },
            Event::ApplicationMainWindowChanged(pid, wid, _) => if self.apps.dom().contains(pid) {
                self.with_app(pid, AppState { main_window: wid, ..self.apps[pid] })
            } else {
                self
            },
            Event::WindowServerFocusChanged(wid, _) => Focus {
                authoritative: true,
                window_server_focus: Some(wid),
                key_focus_hold: None,
                ..self
            },
            _ => self,
        }
    }

    /// The process of which `event` may report a newly focused window: one that the tracker
    /// knows, unless the change is marked quiet.
    pub open spec fn speaks_of(self, event: Event) -> Option<Pid> {
        match event {
            Event::ApplicationLaunched { pid, .. } => Some(pid),
            Event::ApplicationActivated(pid, quiet) => if self.apps.dom().contains(pid) && quiet
                == Quiet::No {
                Some(pid)
            } else {
                None
            },
            Event::ApplicationGloballyActivated(pid) => if self.apps.dom().contains(pid)
                && self.apps[pid].frontmost_is_quiet == Quiet::No {
                Some(pid)
            } else {
                None
            },
            Event::ApplicationMainWindowChanged(pid, _, quiet) => if self.apps.dom().contains(pid)
                && quiet == Quiet::No {
                Some(pid)
            } else {
                None
            },
            _ => None,
        }
    }

    /// The window that `event` brings to the focus, if it reports one.
    pub open spec fn raised_by(self, event: Event) -> Option<WindowId> {
        let next = self.after(event);
        if !self.authoritative && self.speaks_of(event) is Some && self.speaks_of(event)
            == next.global_frontmost {
            next.main_window()
        } else {
            None
        }
    }
}

impl Default for MainWindowTracker {
    fn default() -> (r: MainWindowTracker)
        ensures
            r@ == (Focus {
                apps: Map::empty(),
                global_frontmost: None,
                window_server_focus: None,
                authoritative: false,
                key_focus_hold: None,
            }),
    {
        MainWindowTracker {
            apps: VecMap::new(),
            global_frontmost: None,
            window_server_focus: None,
            window_server_focus_authoritative: false,
            key_focus_hold: None,
        }
    }
}

impl MainWindowTracker {
    pub open spec fn view(self) -> Focus {
        Focus {
            apps: self.apps@,
            global_frontmost: self.global_frontmost,
            window_server_focus: self.window_server_focus,
            authoritative: self.window_server_focus_authoritative,
            key_focus_hold: self.key_focus_hold,
        }
    }

    fn app(&self, pid: Pid) -> (r: Option<AppState>)
        ensures
            match r {
                Some(app) => self.apps@.dom().contains(pid) && app == self.apps@[pid],
                None => !self.apps@.dom().contains(pid),
            },
    {
        match self.apps.get(&pid) {
            Some(app) => Some(*app),
            None => None,
        }
    }

    /// Takes note of `event`; the result is the window that it brings to the focus.
    #[must_use]
    pub fn handle_event(&mut self, event: &Event) -> (r: Option<WindowId>)
        ensures
            final(self)@ == old(self)@.after(*event),
            r == old(self)@.raised_by(*event),
    {
        let (event_pid, quiet_edge): (Pid, Quiet) = match event {
            Event::ApplicationLaunched { pid, is_frontmost, main_window, .. } => {
                let app = AppState {
                    is_frontmost: *is_frontmost,
                    frontmost_is_quiet: Quiet::No,
                    main_window: *main_window,
                };
                let _ = self.apps.insert(*pid, app);
                (*pid, Quiet::No)
            },
            Event::ApplicationThreadTerminated(pid) => {
                let _ = self.apps.remove(pid);
                match self.window_server_focus {
                    Some(w) => {
                        if w.pid == *pid {
                            self.window_server_focus = None;
                        }
                    },
                    None => {},
                }
                if self.key_focus_hold == Some(*pid) {
                    self.key_focus_hold = None;
                }
                return None;
            },
            Event::WindowDestroyed(wid) => {
                if self.window_server_focus == Some(*wid) {
                    self.window_server_focus = None;
                    self.key_focus_hold = Some(wid.pid);
                }
                return None;
            },
            Event::ApplicationActivated(pid, quiet) => {
                match self.app(*pid) {
                    Some(app) => {
                        let next = AppState {
                            is_frontmost: true,
                            frontmost_is_quiet: *quiet,
                            main_window: app.main_window,
                        };
                        let _ = self.apps.insert(*pid, next);
                        (*pid, *quiet)
                    },
                    None => {
                        return None;
                    },
                }
            },
            Event::ApplicationDeactivated(pid) => {
                match self.app(*pid) {
                    Some(app) => {
                        let next = AppState {
                            is_frontmost: false,
                            frontmost_is_quiet: app.frontmost_is_quiet,
                            main_window: app.main_window,
                        };
                        let _ = self.apps.insert(*pid, next);
                    },
                    None => {},
                }
                return None;
            },
            Event::ApplicationGloballyActivated(pid) => {
                self.global_frontmost = Some(*pid);
                match self.key_focus_hold {
                    Some(hold) => {
                        if hold != *pid {
                            self.key_focus_hold = None;
                        }
                    },
                    None => {},
                }
                match self.app(*pid) {
                    Some(app) => {
                        let next = AppState {
                            is_frontmost: true,
                            frontmost_is_quiet: app.frontmost_is_quiet,
                            main_window: app.main_window,
                        };
                        let _ = self.apps.insert(*pid, next);
                        (*pid, app.frontmost_is_quiet)
                    },
                    None => {
                        return None;
                    },
                }
            },
            Event::ApplicationGloballyDeactivated(pid) => {
                if self.global_frontmost == Some(*pid) {
                    self.global_frontmost = None;
                }
                match self.app(*pid) {
                    Some(app) => {
                        let next = AppState {
                            is_frontmost: false,
                            frontmost_is_quiet: app.frontmost_is_quiet,
                            main_window: app.main_window,
                        };
                        let _ = self.apps.insert(*pid, next);
                    },
                    None => {},
                }
                return None;
            },
            Event::ApplicationMainWindowChanged(pid, wid, quiet) => {
                match self.app(*pid) {
                    Some(app) => {
                        let next = AppState {
                            is_frontmost: app.is_frontmost,
                            frontmost_is_quiet: app.frontmost_is_quiet,
                            main_window: *wid,
                        };
                        let _ = self.apps.insert(*pid, next);
                        (*pid, *quiet)
                    },
                    None => {
                        return None;
                    },
                }
            },
            Event::WindowServerFocusChanged(wid, _) => {
                self.window_server_focus_authoritative = true;
                self.window_server_focus = Some(*wid);
                self.key_focus_hold = None;
                return None;
            },
            _ => {
                return None;
            },
        };
        // Once the window server has reported a focus, accessibility events must not replay an
        // older one while the next report is still under way.
        if self.window_server_focus_authoritative {
            return None;
        }
        if Some(event_pid) == self.global_frontmost && quiet_edge == Quiet::No {
            return self.main_window();
        }
        None
    }

    pub fn main_window(&self) -> (r: Option<WindowId>)
        ensures
            r == self@.main_window(),
    {
        let pid: Pid = match self.global_frontmost {
            Some(pid) => pid,
            None => {
                return None;
            },
        };
        match self.window_server_focus {
            Some(w) => {
                if w.pid == pid {
                    return Some(w);
                }
            },
            None => {},
        }
        match self.app(pid) {
            Some(app) => {
                if app.is_frontmost {
                    app.main_window
                } else {
                    None
                }
            },
            None => None,
        }
    }

    pub fn is_globally_frontmost(&self, pid: Pid) -> (r: bool)
        ensures
            r == (self@.global_frontmost == Some(pid)),
    {
        self.global_frontmost == Some(pid)
    }

    pub fn window_server_focus(&self) -> (r: Option<WindowId>)
        ensures
            r == self@.window_server_focus,
    {
        self.window_server_focus
    }

    /// The process that the system says owns key focus, only while that claim agrees with the
    /// globally frontmost application.
    pub fn key_pid(&self) -> (r: Option<Pid>)
        ensures
            r == self@.key_pid(),
    {
        let claimed: Option<Pid> = match self.window_server_focus {
            Some(w) => Some(w.pid),
            None => self.key_focus_hold,
        };
        match (self.global_frontmost, claimed) {
            (Some(front), Some(pid)) => {
                if front == pid {
                    Some(front)
                } else {
                    None
                }
            },
            _ => None,
        }
    }
}

/// Once the window server has reported a focus, no accessibility event reports another, and the
/// window server stays the authority.
pub proof fn window_server_focus_supersedes_accessibility(focus: Focus, event: Event)
    requires
        focus.authoritative,
    ensures
        focus.raised_by(event) is None,
        focus.after(event).authoritative,
{
}

/// A quiet change never brings a window to the focus.
pub proof fn quiet_changes_raise_nothing(focus: Focus, event: Event)
    requires
        match event {
            Event::ApplicationActivated(_, quiet) => quiet == Quiet::Yes,
            Event::ApplicationMainWindowChanged(_, _, quiet) => quiet == Quiet::Yes,
            _ => false,
        },
    ensures
        focus.raised_by(event) is None,
{
}

/// A window that is brought to the focus is the main window afterwards, and belongs to the
/// application that `event` speaks of, which is then the frontmost one.
pub proof fn a_raised_window_is_the_main_window(focus: Focus, event: Event)
    requires
        focus.raised_by(event) is Some,
    ensures
        focus.after(event).main_window() == focus.raised_by(event),
        focus.after(event).global_frontmost == focus.speaks_of(event),
{
}

/// The destruction of the key window keeps its process the key process until the window server
/// reports a successor.
pub proof fn key_pid_survives_the_key_window(focus: Focus, wid: WindowId)
    requires
        focus.window_server_focus == Some(wid),
    ensures
        focus.after(Event::WindowDestroyed(wid)).key_pid() == focus.key_pid(),
        focus.after(Event::WindowDestroyed(wid)).window_server_focus is None,
{
}

/// Another application coming to the front ends that, for good: coming back does not restore it.
pub proof fn another_frontmost_app_ends_the_hold(focus: Focus, wid: WindowId, pid: Pid)
    requires
        focus.window_server_focus == Some(wid),
        pid != wid.pid,
    ensures
        ({
            let gone = focus.after(Event::WindowDestroyed(wid));
            let away = gone.after(Event::ApplicationGloballyActivated(pid));
            let back = away.after(Event::ApplicationGloballyActivated(wid.pid));
            away.key_pid() is None && back.key_pid() is None
        }),
{
}

/// A repeated activation of the same application changes nothing about the key process.
pub proof fn repeated_activation_keeps_the_key_pid(focus: Focus, pid: Pid)
    requires
        focus.global_frontmost == Some(pid),
    ensures
        focus.after(Event::ApplicationGloballyActivated(pid)).key_pid() == focus.key_pid(),
{
}

/// The key process, when there is one, is the frontmost one.
pub proof fn the_key_pid_is_frontmost(focus: Focus)
    ensures
        focus.key_pid() is Some ==> focus.key_pid() == focus.global_frontmost,
{
}

/// The window with the focus is the one that the window server names, if the frontmost process
/// owns it; otherwise it is the main window of the frontmost application, if that application says
/// it is in front. With no process in front, none has the focus.
pub proof fn the_focus_is_with_the_frontmost_process(focus: Focus, pid: Pid, w: WindowId)
    ensures
        focus.global_frontmost is None ==> focus.main_window() is None && focus.key_pid() is None,
        focus.global_frontmost == Some(pid) && focus.window_server_focus == Some(w) && w.pid == pid
            ==> focus.main_window() == Some(w) && focus.key_pid() == Some(pid),
        focus.global_frontmost == Some(pid) && (focus.window_server_focus is None
            || focus.window_server_focus->0.pid != pid) ==> focus.main_window() == (
        if focus.apps.dom().contains(pid) && focus.apps[pid].is_frontmost {
            focus.apps[pid].main_window
        } else {
            None
        }),
        focus.global_frontmost == Some(pid) && focus.window_server_focus == Some(w) && w.pid != pid
            ==> focus.key_pid() is None,
        focus.global_frontmost == Some(pid) && focus.window_server_focus is None ==> (
        focus.key_pid() == Some(pid) <==> focus.key_focus_hold == Some(pid)),
{
}

/// What an application says of itself is remembered of that application alone.
pub proof fn applications_speak_for_themselves(
    focus: Focus,
    pid: Pid,
    main: Option<WindowId>,
    quiet: Quiet,
    other: Pid,
)
    requires
        focus.apps.dom().contains(pid),
        other != pid,
    ensures
        ({
            let a = focus.after(Event::ApplicationActivated(pid, quiet));
            &&& a.apps[pid].is_frontmost && a.apps[pid].frontmost_is_quiet == quiet
            &&& a.apps[pid].main_window == focus.apps[pid].main_window
            &&& a.apps[other] == focus.apps[other] && a.global_frontmost == focus.global_frontmost
        }),
        ({
            let a = focus.after(Event::ApplicationDeactivated(pid));
            &&& !a.apps[pid].is_frontmost
            &&& a.apps[pid].main_window == focus.apps[pid].main_window
            &&& a.apps[other] == focus.apps[other] && a.global_frontmost == focus.global_frontmost
        }),
        ({
            let a = focus.after(Event::ApplicationMainWindowChanged(pid, main, quiet));
            &&& a.apps[pid].main_window == main
            &&& a.apps[pid].is_frontmost == focus.apps[pid].is_frontmost
            &&& a.apps[pid].frontmost_is_quiet == focus.apps[pid].frontmost_is_quiet
            &&& a.apps[other] == focus.apps[other] && a.global_frontmost == focus.global_frontmost
        }),
        ({
            let a = focus.after(Event::ApplicationGloballyActivated(pid));
            &&& a.global_frontmost == Some(pid) && a.apps[pid].is_frontmost
            &&& a.apps[pid].main_window == focus.apps[pid].main_window
            &&& a.apps[pid].frontmost_is_quiet == focus.apps[pid].frontmost_is_quiet
            &&& a.apps[other] == focus.apps[other]
        }),
        ({
            let a = focus.after(Event::ApplicationGloballyDeactivated(pid));
            &&& a.global_frontmost != Some(pid) && !a.apps[pid].is_frontmost
            &&& focus.global_frontmost != Some(pid) ==> a.global_frontmost
                == focus.global_frontmost
            &&& a.apps[other] == focus.apps[other]
        }),
        ({
            let a = focus.after(Event::ApplicationThreadTerminated(pid));
            &&& !a.apps.dom().contains(pid) && a.apps[other] == focus.apps[other]
            &&& a.apps.dom().contains(other) == focus.apps.dom().contains(other)
            &&& a.window_server_focus is Some ==> a.window_server_focus->0.pid != pid
            &&& a.key_focus_hold != Some(pid)
        }),
{
}

/// Whichever process comes to the front is in front, known or not, and a process that is not in
/// front does not leave it.
pub proof fn any_process_can_come_to_the_front(focus: Focus, pid: Pid, other: Pid)
    ensures
        focus.after(Event::ApplicationGloballyActivated(pid)).global_frontmost == Some(pid),
        other != pid ==> focus.after(Event::ApplicationGloballyActivated(pid)).after(
            Event::ApplicationGloballyDeactivated(other),
        ).global_frontmost == Some(pid),
        focus.after(Event::ApplicationGloballyActivated(pid)).after(
            Event::ApplicationGloballyDeactivated(pid),
        ).global_frontmost is None,
{
}

/// A launched application is known with the main window that it was launched with.
pub proof fn launched_applications_are_known(focus: Focus, event: Event)
    requires
        event is ApplicationLaunched,
    ensures
        ({
            let a = focus.after(event);
            let pid = event->ApplicationLaunched_pid;
            &&& a.apps.dom().contains(pid)
            &&& a.apps[pid].main_window == event->ApplicationLaunched_main_window
            &&& a.apps[pid].is_frontmost == event->ApplicationLaunched_is_frontmost
            &&& a.apps[pid].frontmost_is_quiet == Quiet::No
            &&& a.global_frontmost == focus.global_frontmost
            &&& a.window_server_focus == focus.window_server_focus
        }),
{
}

/// The window server names the window with the focus, and from then on it is the authority; a
/// window that is destroyed loses the focus only if it had it.
pub proof fn the_window_server_names_the_focus(focus: Focus, w: WindowId, other: WindowId, space: u64)
    requires
        other != w,
    ensures
        ({
            let a = focus.after(Event::WindowServerFocusChanged(w, space));
            &&& a.window_server_focus == Some(w) && a.authoritative && a.key_focus_hold is None
            &&& a.apps == focus.apps && a.global_frontmost == focus.global_frontmost
            &&& a.after(Event::WindowDestroyed(other)) == a
            &&& a.after(Event::WindowDestroyed(w)).window_server_focus is None
            &&& a.after(Event::WindowDestroyed(w)).key_focus_hold == Some(w.pid)
        }),
{
}

/// A window that the frontmost application makes its main one, and does so aloud, is reported,
/// until the window server has named a focus.
pub proof fn a_new_main_window_in_front_is_reported(focus: Focus, pid: Pid, w: WindowId)
    requires
        !focus.authoritative,
        focus.global_frontmost == Some(pid),
        focus.apps.dom().contains(pid),
        focus.window_server_focus is None,
    ensures
        focus.apps[pid].is_frontmost ==> focus.raised_by(
            Event::ApplicationMainWindowChanged(pid, Some(w), Quiet::No),
        ) == Some(w),
        focus.raised_by(Event::ApplicationActivated(pid, Quiet::No))
            == focus.apps[pid].main_window,
        focus.apps[pid].frontmost_is_quiet == Quiet::No ==> focus.raised_by(
            Event::ApplicationGloballyActivated(pid),
        ) == focus.apps[pid].main_window,
        focus.apps[pid].frontmost_is_quiet == Quiet::Yes ==> focus.raised_by(
            Event::ApplicationGloballyActivated(pid),
        ) is None,
{
}

/// An application that is not in front brings no window to the focus.
pub proof fn applications_in_the_back_bring_nothing_to_the_focus(
    focus: Focus,
    pid: Pid,
    w: Option<WindowId>,
    quiet: Quiet,
)
    requires
        focus.global_frontmost != Some(pid),
    ensures
        focus.raised_by(Event::ApplicationMainWindowChanged(pid, w, quiet)) is None,
        focus.raised_by(Event::ApplicationActivated(pid, quiet)) is None,
        focus.raised_by(Event::ApplicationDeactivated(pid)) is None,
{
}

} // verus!
