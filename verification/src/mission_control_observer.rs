//! The system's own Mission Control. The window server and the Dock both say when it is entered.
//! The Dock also hints when it is left, but its overlay can stay for a while, so leaving is
//! confirmed by looking for the overlay until it is gone.

use vstd::prelude::*;
use vstd::string::*;

use crate::model::Pid;
use crate::text::same_text;

verus! {

pub const MISSION_CONTROL_EXIT_POLL_DELAY_NS: i64 = 100_000_000;

#[derive(Clone, Copy, Debug, PartialEq, Eq, Structural)]
pub enum MissionControlNotification {
    Enter,
    Exit,
}

/// What the Dock says with the notification of this name.
pub open spec fn notification_named(name: Seq<char>) -> Option<MissionControlNotification> {
    if name == "AXExposeShowAllWindows"@ || name == "AXExposeShowFrontWindows"@ || name
        == "AXExposeShowDesktop"@ {
        Some(MissionControlNotification::Enter)
    } else if name == "AXExposeExit"@ {
        Some(MissionControlNotification::Exit)
    } else {
        None
    }
}

pub fn expose_notification(name: &str) -> (r: Option<MissionControlNotification>)
    ensures
        r == notification_named(name@),
{
    if same_text(name, "AXExposeShowAllWindows") || same_text(name, "AXExposeShowFrontWindows")
        || same_text(name, "AXExposeShowDesktop") {
        Some(MissionControlNotification::Enter)
    } else if same_text(name, "AXExposeExit") {
        Some(MissionControlNotification::Exit)
    } else {
        None
    }
}

/// What follows from looking for the overlay.
#[derive(Clone, Copy, Debug, PartialEq, Eq, Structural)]
pub enum ExitProbeAction {
    Ignore,
    /// Look again after so many nanoseconds.
    Reschedule(i64),
    EmitExit,
}

#[derive(Clone, Copy, Debug, PartialEq, Eq, Structural)]
pub enum Request {
    WindowServerEnter,
    Stop,
}

/// Look for the overlay after so many nanoseconds, on behalf of this epoch.
#[derive(Clone, Copy, Debug, PartialEq, Eq, Structural)]
pub struct ExitProbe {
    pub epoch: u64,
    pub delay_ns: i64,
}

#[derive(Clone, Copy, Debug, PartialEq, Eq, Structural)]
pub struct MissionControlState {
    pub active: bool,
    pub stopped: bool,
    pub epoch: u64,
}

pub open spec fn next_epoch(epoch: u64) -> u64 {
    if epoch == u64::MAX {
        0
    } else {
        (epoch + 1) as u64
    }
}

impl MissionControlState {
    /// Mission Control was entered. The first word of it is told, and a probe begins.
    pub open spec fn entered(self) -> (MissionControlState, Option<ExitProbe>) {
        if self.active {
            (MissionControlState { stopped: false, ..self }, None)
        } else {
            (
                MissionControlState {
                    active: true,
                    stopped: false,
                    epoch: next_epoch(self.epoch),
                },
                Some(
                    ExitProbe {
                        epoch: next_epoch(self.epoch),
                        delay_ns: MISSION_CONTROL_EXIT_POLL_DELAY_NS,
                    },
                ),
            )
        }
    }

    /// Whether a probe on behalf of `epoch` still counts.
    pub open spec fn probes(self, epoch: u64) -> bool {
        !self.stopped && self.active && self.epoch == epoch
    }

    pub open spec fn probed(self, epoch: u64, overlay_visible: bool) -> (
        MissionControlState,
        ExitProbeAction,
    ) {
        if !self.probes(epoch) {
            (self, ExitProbeAction::Ignore)
        } else if overlay_visible {
            (self, ExitProbeAction::Reschedule(MISSION_CONTROL_EXIT_POLL_DELAY_NS))
        } else {
            (MissionControlState { active: false, ..self }, ExitProbeAction::EmitExit)
        }
    }

    /// Mission Control was entered. If this was not known, it is to be told, and the overlay is to
    /// be looked for.
    pub fn handle_enter_notification(&mut self) -> (r: Option<ExitProbe>)
        ensures
            (*final(self), r) == old(self).entered(),
    {
        self.stopped = false;
        if self.active {
            return None;
        }
        self.active = true;
        self.epoch = self.epoch.wrapping_add(1);
        Some(ExitProbe { epoch: self.epoch, delay_ns: MISSION_CONTROL_EXIT_POLL_DELAY_NS })
    }

    /// The Dock hints that Mission Control was left: the overlay is to be looked for at once.
    pub fn handle_exit_notification(&self) -> (r: Option<ExitProbe>)
        ensures
            r == (if self.active {
                Some(ExitProbe { epoch: self.epoch, delay_ns: 0 })
            } else {
                None
            }),
    {
        if !self.active {
            return None;
        }
        Some(ExitProbe { epoch: self.epoch, delay_ns: 0 })
    }

    /// The overlay was looked for on behalf of `epoch`.
    pub fn handle_exit_probe_result(&mut self, epoch: u64, overlay_visible: bool) -> (r:
        ExitProbeAction)
        ensures
            (*final(self), r) == old(self).probed(epoch, overlay_visible),
    {
        if self.stopped || !self.active || self.epoch != epoch {
            return ExitProbeAction::Ignore;
        }
        if overlay_visible {
            return ExitProbeAction::Reschedule(MISSION_CONTROL_EXIT_POLL_DELAY_NS);
        }
        self.active = false;
        ExitProbeAction::EmitExit
    }
}

pub struct NativeMissionControl {
    pub observing: bool,
    pub state: MissionControlState,
}

impl NativeMissionControl {
    pub fn new() -> (r: NativeMissionControl)
        ensures
            !r.observing,
            r.state == (MissionControlState { active: false, stopped: false, epoch: 0 }),
    {
        NativeMissionControl {
            observing: false,
            state: MissionControlState { active: false, stopped: false, epoch: 0 },
        }
    }

    /// Whether the Dock is to be observed: not if it is already, or does not run.
    pub fn wants_observer(&self, dock_pid: Pid) -> (r: bool)
        ensures
            r == (!self.observing && dock_pid != 0),
    {
        !self.observing && dock_pid != 0
    }

    /// The Dock is observed.
    pub fn observe(&mut self)
        ensures
            final(self).observing,
            final(self).state == old(self).state,
    {
        self.observing = true;
    }

    /// The Dock is not observed any more. The result says whether it was.
    pub fn unobserve(&mut self) -> (r: bool)
        ensures
            r == old(self).observing,
            !final(self).observing,
            final(self).state == (if old(self).observing {
                MissionControlState {
                    active: false,
                    stopped: true,
                    epoch: next_epoch(old(self).state.epoch),
                }
            } else {
                old(self).state
            }),
    {
        if !self.observing {
            return false;
        }
        self.observing = false;
        self.state.stopped = true;
        self.state.active = false;
        self.state.epoch = self.state.epoch.wrapping_add(1);
        true
    }

    pub fn is_active(&self) -> (r: bool)
        ensures
            r == self.state.active,
    {
        self.state.active
    }
}

/// A running application, by its bundle.
pub struct RunningApp {
    pub bundle_id: Option<String>,
    pub pid: Pid,
}

/// The process of the Dock, or 0.
pub open spec fn dock_of(apps: Seq<RunningApp>) -> Pid
    decreases apps.len(),
{
    if apps.len() == 0 {
        0
    } else if apps[0].bundle_id is Some && apps[0].bundle_id->0@ == "com.apple.dock"@ {
        apps[0].pid
    } else {
        dock_of(apps.drop_first())
    }
}

pub fn find_dock_pid(apps: &Vec<RunningApp>) -> (r: Pid)
    ensures
        r == dock_of(apps@),
{
    let mut i: usize = 0;
    assert(apps@.skip(0) =~= apps@);
    while i < apps.len()
        invariant
            i <= apps@.len(),
            dock_of(apps@) == dock_of(apps@.skip(i as int)),
        decreases apps@.len() - i,
    {
        if crate::text::is_text(&apps[i].bundle_id, "com.apple.dock") {
            return apps[i].pid;
        }
        assert(apps@.skip(i as int).drop_first() =~= apps@.skip(i + 1));
        i = i + 1;
    }
    0
}

/// Hearing twice that Mission Control was entered is the same as hearing it once.
pub proof fn entering_twice_is_entering_once(s: MissionControlState)
    ensures
        s.entered().0.entered() == (s.entered().0, None::<ExitProbe>),
{
}

/// Leaving is told only when the overlay is gone, and only once.
pub proof fn leaving_is_told_once(s: MissionControlState, epoch: u64, visible: bool, again: u64)
    requires
        s.probed(epoch, visible).1 is EmitExit,
    ensures
        !visible,
        s.active,
        s.probed(epoch, visible).0.probed(again, false).1 is Ignore,
{
}

/// A probe on behalf of an earlier visit to Mission Control does not end a later one.
pub proof fn earlier_probes_are_ignored(s: MissionControlState, visible: bool)
    requires
        !s.active,
    ensures
        s.entered().0.probed(s.epoch, visible) == (s.entered().0, ExitProbeAction::Ignore),
{
}

/// Three notifications say that Mission Control was entered and one that it was left. No other one
/// says anything.
pub proof fn notifications_are_told_by_their_names(name: Seq<char>)
    ensures
        notification_named(name) == Some(MissionControlNotification::Enter) <==> name
            == "AXExposeShowAllWindows"@ || name == "AXExposeShowFrontWindows"@ || name
            == "AXExposeShowDesktop"@,
        notification_named(name) == Some(MissionControlNotification::Exit) <==> name
            == "AXExposeExit"@,
{
    reveal_strlit("AXExposeShowAllWindows");
    reveal_strlit("AXExposeShowFrontWindows");
    reveal_strlit("AXExposeShowDesktop");
    reveal_strlit("AXExposeExit");
    assert("AXExposeExit"@.len() < "AXExposeShowAllWindows"@.len());
    assert("AXExposeExit"@.len() < "AXExposeShowFrontWindows"@.len());
    assert("AXExposeExit"@.len() < "AXExposeShowDesktop"@.len());
}

/// An epoch follows another and is never the same.
pub proof fn epochs_follow_one_another(epoch: u64)
    ensures
        next_epoch(epoch) != epoch,
        epoch < u64::MAX ==> next_epoch(epoch) == epoch + 1,
        epoch == u64::MAX ==> next_epoch(epoch) == 0,
{
}

/// Entered for the first time, Mission Control is active in a new epoch, and a probe of that epoch
/// begins after a tenth of a second.
pub proof fn entering_begins_a_probe(s: MissionControlState)
    ensures
        s.entered().0.active,
        !s.entered().0.stopped,
        s.active ==> s.entered().0.epoch == s.epoch && s.entered().1 is None,
        !s.active ==> {
            &&& s.entered().1 is Some
            &&& s.entered().1->0.epoch == s.entered().0.epoch
            &&& s.entered().0.epoch == if s.epoch == u64::MAX {
                0
            } else {
                s.epoch + 1
            }
            &&& s.entered().1->0.delay_ns == 100_000_000
        },
{
}

/// A probe counts only in its own epoch, while Mission Control is active and observed. While the
/// overlay shows, the next one follows after a tenth of a second; once it is gone, Mission Control
/// was left.
pub proof fn probes_find_out_whether_the_overlay_shows(
    s: MissionControlState,
    epoch: u64,
    visible: bool,
)
    ensures
        s.probed(epoch, visible).0.epoch == s.epoch,
        s.probed(epoch, visible).0.stopped == s.stopped,
        s.probed(epoch, visible).0.active <==> s.active && (visible || s.stopped || s.epoch
            != epoch),
        s.probed(epoch, visible).1 is Ignore <==> s.stopped || !s.active || s.epoch != epoch,
        !s.stopped && s.active && s.epoch == epoch && visible ==> s.probed(epoch, visible).1
            == ExitProbeAction::Reschedule(100_000_000),
        !s.stopped && s.active && s.epoch == epoch && !visible ==> s.probed(
            epoch,
            visible,
        ).1 is EmitExit,
{
}

/// The Dock is the first application with its bundle; without one there is no process.
pub proof fn the_dock_is_found_by_its_bundle(apps: Seq<RunningApp>, i: int)
    requires
        0 <= i <= apps.len(),
        forall|j: int|
            0 <= j < i ==> (#[trigger] apps[j]).bundle_id is None || apps[j].bundle_id->0@
                != "com.apple.dock"@,
    ensures
        i == apps.len() ==> dock_of(apps) == 0,
        i < apps.len() && apps[i].bundle_id is Some && apps[i].bundle_id->0@ == "com.apple.dock"@
            ==> dock_of(apps) == apps[i].pid,
    decreases i,
{
    if i > 0 {
        let rest = apps.drop_first();
        assert(apps[0].bundle_id is None || apps[0].bundle_id->0@ != "com.apple.dock"@);
        assert forall|j: int| 0 <= j < i - 1 implies (#[trigger] rest[j]).bundle_id is None
            || rest[j].bundle_id->0@ != "com.apple.dock"@ by {
            assert(rest[j] == apps[j + 1]);
        }
        the_dock_is_found_by_its_bundle(rest, i - 1);
        assert(i < apps.len() ==> rest[i - 1] == apps[i]);
    }
}

} // verus!
