//! The overlay that shows all workspaces, or the windows of the current one.

use vstd::prelude::*;

use crate::model::WindowServerId;
use crate::window_id::WindowId;

verus! {

#[derive(Clone, Copy, Debug, PartialEq, Eq, Structural)]
pub enum Event {
    ShowAll,
    ShowCurrent,
    Dismiss,
}

/// What the user chose in the overlay.
#[derive(Clone, Copy, Debug, PartialEq, Eq, Structural)]
pub enum MissionControlAction {
    Dismiss,
    SwitchToWorkspace(usize),
    FocusWindow { window_id: WindowId, window_server_id: Option<WindowServerId> },
}

#[derive(Clone, Copy, Debug, PartialEq, Eq, Structural)]
pub enum Shown {
    AllWorkspaces,
    CurrentWorkspace,
}

/// The time in milliseconds that the reactor has to answer.
pub const QUERY_TIMEOUT_MS: u64 = 750;

/// What is to be done, in this order.
#[derive(Clone, Copy, Debug, PartialEq, Eq, Structural)]
pub enum OverlayStep {
    Create,
    Hide,
    /// Show nothing yet.
    ShowEmpty(Shown),
    /// Ask the reactor, and go on with [`MissionControlActor::answered`] if it answers in time.
    Query(Shown),
    /// Show what the reactor answered.
    ShowAnswer(Shown),
    /// Tell the reactor whether the overlay shows.
    TellActive(bool),
    SwitchToWorkspace(usize),
    FocusWindow(WindowId, Option<WindowServerId>),
}

pub struct MissionControlActor {
    pub enabled: bool,
    pub overlay: bool,
    pub mission_control_active: bool,
}

impl MissionControlActor {
    pub open spec fn told(self, active: bool) -> (MissionControlActor, Seq<OverlayStep>) {
        (
            MissionControlActor { mission_control_active: active, ..self },
            if self.mission_control_active == active {
                Seq::empty()
            } else {
                seq![OverlayStep::TellActive(active)]
            },
        )
    }

    /// The overlay is gone.
    pub open spec fn disposed(self) -> (MissionControlActor, Seq<OverlayStep>) {
        let t = self.told(false);
        (
            MissionControlActor { overlay: false, ..t.0 },
            (if self.overlay {
                seq![OverlayStep::Hide]
            } else {
                Seq::empty()
            }) + t.1,
        )
    }

    /// There is an overlay.
    pub open spec fn ensured(self) -> (MissionControlActor, Seq<OverlayStep>) {
        (
            MissionControlActor { overlay: true, ..self },
            if self.overlay {
                Seq::empty()
            } else {
                seq![OverlayStep::Create]
            },
        )
    }

    pub open spec fn shown(self, what: Shown) -> (MissionControlActor, Seq<OverlayStep>) {
        let t = self.told(true);
        let e = t.0.ensured();
        (e.0, t.1 + e.1 + seq![OverlayStep::ShowEmpty(what), OverlayStep::Query(what)])
    }

    pub open spec fn after(self, event: Event) -> (MissionControlActor, Seq<OverlayStep>) {
        match event {
            Event::Dismiss => self.disposed(),
            Event::ShowAll => if self.mission_control_active {
                self.disposed()
            } else {
                self.shown(Shown::AllWorkspaces)
            },
            Event::ShowCurrent => if self.mission_control_active {
                self.disposed()
            } else {
                self.shown(Shown::CurrentWorkspace)
            },
        }
    }

    pub open spec fn acted(self, action: MissionControlAction) -> (
        MissionControlActor,
        Seq<OverlayStep>,
    ) {
        let first: Seq<OverlayStep> = match action {
            MissionControlAction::Dismiss => Seq::empty(),
            MissionControlAction::SwitchToWorkspace(i) => seq![OverlayStep::SwitchToWorkspace(i)],
            MissionControlAction::FocusWindow { window_id, window_server_id } => seq![
                OverlayStep::FocusWindow(window_id, window_server_id),
            ],
        };
        (self.disposed().0, first + self.disposed().1)
    }

    pub fn new(enabled: bool) -> (r: MissionControlActor)
        ensures
            r == (MissionControlActor { enabled, overlay: false, mission_control_active: false }),
    {
        MissionControlActor { enabled, overlay: false, mission_control_active: false }
    }

    fn set_mission_control_active(&mut self, active: bool, out: &mut Vec<OverlayStep>)
        ensures
            *final(self) == old(self).told(active).0,
            final(out)@ == old(out)@ + old(self).told(active).1,
    {
        let ghost before = out@;
        if self.mission_control_active != active {
            self.mission_control_active = active;
            out.push(OverlayStep::TellActive(active));
        }
        assert(out@ =~= before + old(self).told(active).1);
    }

    fn dispose_overlay(&mut self, out: &mut Vec<OverlayStep>)
        ensures
            *final(self) == old(self).disposed().0,
            final(out)@ == old(out)@ + old(self).disposed().1,
    {
        let ghost before = out@;
        if self.overlay {
            self.overlay = false;
            out.push(OverlayStep::Hide);
        }
        self.set_mission_control_active(false, out);
        assert(out@ =~= before + old(self).disposed().1);
    }

    fn ensure_overlay(&mut self, out: &mut Vec<OverlayStep>)
        ensures
            *final(self) == old(self).ensured().0,
            final(out)@ == old(out)@ + old(self).ensured().1,
    {
        let ghost before = out@;
        if !self.overlay {
            self.overlay = true;
            out.push(OverlayStep::Create);
        }
        assert(out@ =~= before + old(self).ensured().1);
    }

    fn show(&mut self, what: Shown, out: &mut Vec<OverlayStep>)
        ensures
            *final(self) == old(self).shown(what).0,
            final(out)@ == old(out)@ + old(self).shown(what).1,
    {
        let ghost before = out@;
        self.set_mission_control_active(true, out);
        self.ensure_overlay(out);
        out.push(OverlayStep::ShowEmpty(what));
        out.push(OverlayStep::Query(what));
        assert(out@ =~= before + old(self).shown(what).1);
    }

    pub fn handle_event(&mut self, event: Event) -> (r: Vec<OverlayStep>)
        ensures
            (*final(self), r@) == old(self).after(event),
    {
        let mut out: Vec<OverlayStep> = Vec::new();
        match event {
            Event::ShowAll => {
                if self.mission_control_active {
                    self.dispose_overlay(&mut out);
                } else {
                    self.show(Shown::AllWorkspaces, &mut out);
                }
            },
            Event::ShowCurrent => {
                if self.mission_control_active {
                    self.dispose_overlay(&mut out);
                } else {
                    self.show(Shown::CurrentWorkspace, &mut out);
                }
            },
            Event::Dismiss => {
                self.dispose_overlay(&mut out);
            },
        }
        assert(out@ =~= old(self).after(event).1);
        out
    }

    /// The reactor answered in time.
    pub fn answered(&mut self, what: Shown) -> (r: Vec<OverlayStep>)
        ensures
            *final(self) == old(self).ensured().0,
            r@ == old(self).ensured().1.push(OverlayStep::ShowAnswer(what)),
    {
        let mut out: Vec<OverlayStep> = Vec::new();
        self.ensure_overlay(&mut out);
        out.push(OverlayStep::ShowAnswer(what));
        assert(out@ =~= old(self).ensured().1.push(OverlayStep::ShowAnswer(what)));
        out
    }

    pub fn handle_overlay_action(&mut self, action: MissionControlAction) -> (r: Vec<OverlayStep>)
        ensures
            (*final(self), r@) == old(self).acted(action),
    {
        let mut out: Vec<OverlayStep> = Vec::new();
        match action {
            MissionControlAction::Dismiss => {},
            MissionControlAction::SwitchToWorkspace(i) => {
                out.push(OverlayStep::SwitchToWorkspace(i));
            },
            MissionControlAction::FocusWindow { window_id, window_server_id } => {
                out.push(OverlayStep::FocusWindow(window_id, window_server_id));
            },
        }
        self.dispose_overlay(&mut out);
        assert(out@ =~= old(self).acted(action).1);
        out
    }
}

/// Asking for the overlay again takes it away.
pub proof fn showing_again_dismisses(a: MissionControlActor, first: Event, second: Event)
    requires
        !a.mission_control_active,
        first !is Dismiss,
    ensures
        a.after(first).0.mission_control_active,
        !a.after(first).0.after(second).0.overlay,
        !a.after(first).0.after(second).0.mission_control_active,
        a.after(first).0.after(second).1 == seq![
            OverlayStep::Hide,
            OverlayStep::TellActive(false),
        ],
{
    assert(a.after(first).0.after(second).1 =~= seq![
        OverlayStep::Hide,
        OverlayStep::TellActive(false),
    ]);
}

/// Whatever the user chooses takes the overlay away.
pub proof fn every_choice_dismisses(a: MissionControlActor, action: MissionControlAction)
    ensures
        !a.acted(action).0.overlay,
        !a.acted(action).0.mission_control_active,
{
}

/// Asked for while it does not show, the overlay is announced, made if there is none, and shown
/// empty; then the reactor is asked for what was asked for.
pub proof fn showing_announces_and_asks(a: MissionControlActor, event: Event)
    requires
        !a.mission_control_active,
        event !is Dismiss,
    ensures
        a.after(event).0.overlay,
        a.after(event).0.mission_control_active,
        a.after(event).0.enabled == a.enabled,
        event is ShowAll && a.overlay ==> a.after(event).1 == seq![
            OverlayStep::TellActive(true),
            OverlayStep::ShowEmpty(Shown::AllWorkspaces),
            OverlayStep::Query(Shown::AllWorkspaces),
        ],
        event is ShowAll && !a.overlay ==> a.after(event).1 == seq![
            OverlayStep::TellActive(true),
            OverlayStep::Create,
            OverlayStep::ShowEmpty(Shown::AllWorkspaces),
            OverlayStep::Query(Shown::AllWorkspaces),
        ],
        event is ShowCurrent && a.overlay ==> a.after(event).1 == seq![
            OverlayStep::TellActive(true),
            OverlayStep::ShowEmpty(Shown::CurrentWorkspace),
            OverlayStep::Query(Shown::CurrentWorkspace),
        ],
        event is ShowCurrent && !a.overlay ==> a.after(event).1 == seq![
            OverlayStep::TellActive(true),
            OverlayStep::Create,
            OverlayStep::ShowEmpty(Shown::CurrentWorkspace),
            OverlayStep::Query(Shown::CurrentWorkspace),
        ],
{
}

/// Dismissed, the overlay is hidden if there is one, and it is told that it is gone if it was told
/// that it shows.
pub proof fn dismissing_hides_and_announces(a: MissionControlActor)
    ensures
        !a.after(Event::Dismiss).0.overlay,
        !a.after(Event::Dismiss).0.mission_control_active,
        a.after(Event::Dismiss).0.enabled == a.enabled,
        a.overlay && a.mission_control_active ==> a.after(Event::Dismiss).1 == seq![
            OverlayStep::Hide,
            OverlayStep::TellActive(false),
        ],
        a.overlay && !a.mission_control_active ==> a.after(Event::Dismiss).1 == seq![
            OverlayStep::Hide,
        ],
        !a.overlay && a.mission_control_active ==> a.after(Event::Dismiss).1 == seq![
            OverlayStep::TellActive(false),
        ],
        !a.overlay && !a.mission_control_active ==> a.after(Event::Dismiss).1.len() == 0,
        a.mission_control_active ==> a.after(Event::ShowAll) == a.after(Event::Dismiss)
            && a.after(Event::ShowCurrent) == a.after(Event::Dismiss),
{
}

/// What the user chose is done before the overlay goes, and it goes as if it were dismissed.
pub proof fn choices_are_carried_out(a: MissionControlActor, action: MissionControlAction)
    ensures
        a.acted(action).0 == a.after(Event::Dismiss).0,
        match action {
            MissionControlAction::Dismiss => a.acted(action).1 == a.after(Event::Dismiss).1,
            MissionControlAction::SwitchToWorkspace(i) => a.acted(action).1 == seq![
                OverlayStep::SwitchToWorkspace(i),
            ] + a.after(Event::Dismiss).1,
            MissionControlAction::FocusWindow { window_id, window_server_id } => a.acted(action).1
                == seq![OverlayStep::FocusWindow(window_id, window_server_id)] + a.after(
                Event::Dismiss,
            ).1,
        },
{
}

/// An overlay is made only where there is none, and nothing else changes.
pub proof fn an_overlay_is_made_once(a: MissionControlActor)
    ensures
        a.ensured().0.overlay,
        a.ensured().0.enabled == a.enabled,
        a.ensured().0.mission_control_active == a.mission_control_active,
        a.overlay ==> a.ensured().1.len() == 0,
        !a.overlay ==> a.ensured().1 == seq![OverlayStep::Create],
        a.ensured().0.ensured().1.len() == 0,
{
}

} // verus!
