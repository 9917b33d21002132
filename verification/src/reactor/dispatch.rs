//! What an event does to the reactor, and what has to follow.

use vstd::prelude::*;

use crate::collections::{VecMap, VecSet};
use crate::model::{
    Frame, MouseState, Pid, Screen, SpaceId, WindowServerId, WindowServerInfo,
};
#[allow(unused_imports)]
use crate::model::WindowInfo;
use crate::reactor::actor::{get_reading, AppEventHandler, Discovery, DiscoveryFacts, Reactor};
#[allow(unused_imports)]
use crate::reactor::actor::{after_server_list, reading_of, same_app, Parts};
use crate::reactor::commands::{CommandEventHandler, CommandPlan, ConfigStep, FocusCommand};
#[allow(unused_imports)]
use crate::reactor::commands::{command_plan, config_steps, is_focus_command, switch_after};
use crate::reactor::drag_session::{DragEnd, SwapStep};
use crate::reactor::event::{Command, Direction, Event, LayoutEvent, ReactorCommand};
use crate::reactor::layout::PassPlan;
#[allow(unused_imports)]
use crate::reactor::main_window::Focus;
use crate::reactor::managers::{focus_follows_mouse_allowed, FullscreenTrack, MenuState};
#[allow(unused_imports)]
use crate::reactor::managers::{
    DragManager, DragSession, DragState, MissionControlManager, MissionControlState, RefocusManager,
    RefocusState, StaleCleanupState, Windows,
};
use crate::reactor::space::{
    ExposedSpace, PendingSpaceChange, PendingStep, SpaceEventHandler, SpaceFacts, SpaceStep,
};
#[allow(unused_imports)]
use crate::reactor::space::{
    exposed_spaces, first_screen_space, left_spaces, shows_fullscreen, space_run, tracked_id,
    with_screen_spaces, SpaceRun,
};
use crate::reactor::window::{
    active_space_for_window, should_raise_on_mouse_over, CreatedStep, DestroyedStep, FrameFacts,
    FrameReport, FrameStep, MouseOverStep, MouseUpStep, WindowEventHandler,
};
#[allow(unused_imports)]
use crate::reactor::window::{
    created, deminiaturized, layout_space, minimized, raises_on_mouse_over, retitled, FrameState,
};
use crate::spaces::authority::SpaceEventKind;
use crate::window_id::WindowId;

verus! {

/// What is known of swaps while a window is dragged.
#[derive(Clone, Copy, Debug, PartialEq, Eq, Structural)]
pub struct SwapFacts {
    /// The space of the dragged window's frame.
    pub best_space: Option<SpaceId>,
    /// The space of the frame where swap tracking began.
    pub swap_origin: Option<SpaceId>,
    /// Whether the dragged window shows in the space in question.
    pub in_active_workspace: bool,
    /// The window that swap tracking finds under the dragged one.
    pub target: Option<WindowId>,
}

/// What is known of a window under the pointer.
pub struct OverFacts {
    /// Whether it shows.
    pub in_active_workspace: bool,
    /// The windows of its space from front to back.
    pub order: Vec<WindowServerId>,
    /// Of each window, whether it lies wholly inside this one.
    pub inside: VecMap<WindowId, bool>,
    /// Whether it has the focus in its layout.
    pub is_focused: bool,
}

/// What a new configuration meets.
#[derive(Clone, Copy, Debug, PartialEq, Eq, Structural)]
pub struct ConfigFacts {
    pub keys_changed: bool,
    pub has_stack_line: bool,
    pub has_controller: bool,
}

/// What the rest of the system says when an event is handled.
pub struct EventFacts {
    /// The mouse button, as it is found where the event does not tell.
    pub mouse: Option<MouseState>,
    pub frame: FrameFacts,
    pub swap: SwapFacts,
    /// The space of the dragged window's frame, once the button is released.
    pub final_space: Option<SpaceId>,
    /// The space of the frame of the window that the event is about, and whether it is active.
    pub best_space: Option<SpaceId>,
    pub best_is_active: bool,
    /// The space that commands go to.
    pub command_space: Option<SpaceId>,
    /// The space of the window that the event raises.
    pub raised_space: Option<SpaceId>,
    pub discovery: DiscoveryFacts,
    pub space: SpaceFacts,
    pub space_kind: SpaceEventKind,
    pub over: OverFacts,
    pub config: ConfigFacts,
    /// The windows that show once Mission Control is left.
    pub visible: Vec<WindowServerInfo>,
    /// The applications that could then be asked for their windows.
    pub asked: Vec<Pid>,
    /// The spaces that are fullscreen ones.
    pub fullscreen: VecSet<SpaceId>,
}

/// What is left to do for an event, beyond what the layout engine is told.
pub enum Outcome {
    /// The event asks for an answer and changes nothing.
    Query,
    /// All is done.
    Done,
    Launched(Discovery),
    ApplyRules(Pid),
    /// The application is asked to stop, if it can be.
    Terminate { pid: Pid, can_be_told: bool },
    Closed(Pid),
    /// The workspace may be switched to where the application is.
    Activate(Pid),
    Resync(WindowServerId),
    RegisterWmSender,
    Discovered(Discovery),
    Created(CreatedStep),
    Destroyed(DestroyedStep),
    ServerDestroyed(Vec<SpaceStep>),
    ServerAppeared(Vec<SpaceStep>),
    FrameChanged { step: FrameStep, swap: SwapStep, mouse_up: MouseUpStep, end: Option<DragEnd> },
    /// The title changed; this was the old one.
    TitleChanged(String),
    /// The workspaces of every exposed space are listed.
    ScreensChanged,
    /// A space change was made, or has to wait; the windows of these applications are asked for.
    SpaceChanged(PendingStep, Vec<FullscreenTrack>),
    MouseUp(DragEnd),
    MouseOver(WindowId, MouseOverStep),
    /// All known windows are watched anew.
    WatchWindows,
    MissionControlEntered,
    /// A space change that waited was looked at; then all applications are asked for their
    /// windows, and windows are laid out.
    MissionControlExited(PendingStep, Vec<FullscreenTrack>),
    RaiseCompleted(WindowId, u64),
    RaiseTimeout(u64),
    LayoutCommand(CommandPlan),
    Metrics,
    Config(Vec<ConfigStep>),
    PrintTree,
    PrintState,
    SaveAndExit,
    SwitchSpace(Direction),
    Focus(FocusCommand),
}

/// What follows from an event.
pub struct EventPlan {
    pub outcome: Outcome,
    /// What the layout engine is told, in order.
    pub events: Vec<LayoutEvent>,
    /// What it is told last, of the window that the event raised.
    pub focus: Option<LayoutEvent>,
    /// How the event is to be ended, once the layout engine was told.
    pub pass: PassPlan,
    /// Whether the focus may follow the mouse, where that may have changed.
    pub focus_follows_mouse: Option<bool>,
}

pub open spec fn is_query(event: Event) -> bool {
    match event {
        Event::QueryWorkspaces => true,
        Event::QueryWindows { .. } => true,
        Event::QueryWindowInfo { .. } => true,
        Event::QueryApplications => true,
        Event::QueryLayoutState { .. } => true,
        Event::QueryMetrics => true,
        _ => false,
    }
}

fn asks_for_an_answer(event: &Event) -> (r: bool)
    ensures
        r == is_query(*event),
{
    match event {
        Event::QueryWorkspaces => true,
        Event::QueryWindows { .. } => true,
        Event::QueryWindowInfo { .. } => true,
        Event::QueryApplications => true,
        Event::QueryLayoutState { .. } => true,
        Event::QueryMetrics => true,
        _ => false,
    }
}

pub open spec fn updates_notifications(event: Event) -> bool {
    match event {
        Event::WindowCreated(..) => true,
        Event::WindowDestroyed(_) => true,
        Event::WindowServerDestroyed(..) => true,
        Event::WindowServerAppeared(..) => true,
        Event::WindowsDiscovered { .. } => true,
        Event::ApplicationLaunched { .. } => true,
        Event::ApplicationTerminated(_) => true,
        Event::ApplicationThreadTerminated(_) => true,
        Event::SpaceChanged(..) => true,
        Event::ScreenParametersChanged(..) => true,
        _ => false,
    }
}

fn notifications_may_change(event: &Event) -> (r: bool)
    ensures
        r == updates_notifications(*event),
{
    match event {
        Event::WindowCreated(..) => true,
        Event::WindowDestroyed(_) => true,
        Event::WindowServerDestroyed(..) => true,
        Event::WindowServerAppeared(..) => true,
        Event::WindowsDiscovered { .. } => true,
        Event::ApplicationLaunched { .. } => true,
        Event::ApplicationTerminated(_) => true,
        Event::ApplicationThreadTerminated(_) => true,
        Event::SpaceChanged(..) => true,
        Event::ScreenParametersChanged(..) => true,
        _ => false,
    }
}

/// The menus after an event.
pub open spec fn menus_after(menus: MenuState, event: Event) -> MenuState {
    match event {
        Event::MenuOpened => menus.opened(),
        Event::MenuClosed => menus.closed(),
        _ => menus,
    }
}

/// Whether Mission Control is shown after an event.
pub open spec fn mission_after(active: bool, event: Event) -> bool {
    match event {
        Event::MissionControlNativeEntered => true,
        Event::MissionControlNativeExited => false,
        Event::Command(Command::Reactor(ReactorCommand::SetMissionControlActive(a))) => a,
        _ => active,
    }
}

/// Whether an event touches whether the focus may follow the mouse.
pub open spec fn touches_focus(menus: MenuState, active: bool, event: Event) -> bool {
    match event {
        Event::MenuOpened => true,
        Event::MenuClosed => menus.depth() > 0,
        _ => mission_after(active, event) != active,
    }
}

/// What the layout engine is told of a frame change.
pub open spec fn frame_events(known: Frame, report: FrameReport, step: FrameStep) -> Seq<
    LayoutEvent,
> {
    let resized = seq![
        LayoutEvent::WindowResized {
            wid: report.wid,
            old_frame: known,
            new_frame: report.frame,
        },
    ];
    match step {
        FrameStep::DragResized(true) => resized,
        FrameStep::Resized => resized,
        FrameStep::ChangedSpace { to, enters_layout } => {
            let removed = seq![LayoutEvent::WindowRemovedPreserveFloating(report.wid)];
            if enters_layout && to is Some {
                removed.push(LayoutEvent::WindowAdded(to->0, report.wid))
            } else {
                removed
            }
        },
        _ => Seq::empty(),
    }
}

/// The space that a drag ends in, if the dragged window is still known.
pub open spec fn end_space(
    windows: Windows,
    drag: DragManager,
    final_space: Option<SpaceId>,
) -> Option<SpaceId> {
    match drag.session() {
        Some(session) if windows.windows.dom().contains(session.window) => final_space,
        _ => None,
    }
}

/// The drag after a frame report by which its window moved.
pub open spec fn after_swap(drag: DragManager, wid: WindowId, step: SwapStep, facts: SwapFacts) ->
    DragManager {
    if step is Consider {
        drag.settled(wid, facts.target)
    } else {
        drag
    }
}

/// The state after a frame report, what follows from it, what swap tracking is to do, and what
/// the released button leads to.
pub open spec fn frame_changed(
    before: FrameState,
    report: FrameReport,
    frame: FrameFacts,
    swap: SwapFacts,
    changing: Set<WindowServerId>,
    final_space: Option<SpaceId>,
    mission_control: bool,
) -> (FrameState, FrameStep, SwapStep, MouseUpStep, Seq<LayoutEvent>) {
    let (mid, step, up) = before.reported(report, frame, mission_control);
    let swap_step = if step is DragMoved {
        mid.drag.swap_step(
            report.wid,
            mid.windows.windows,
            changing,
            swap.best_space,
            swap.swap_origin,
            swap.in_active_workspace,
        )
    } else {
        SwapStep::Ignore
    };
    let drag = after_swap(mid.drag, report.wid, swap_step, swap);
    let told = frame_events(
        before.windows.windows[report.wid].frame_monotonic,
        report,
        step,
    );
    let space = end_space(mid.windows, drag, final_space);
    if up is Finish {
        (
            FrameState { drag: drag.ended(space), ..mid },
            step,
            swap_step,
            up,
            told + drag.end_events(space),
        )
    } else {
        (FrameState { drag, ..mid }, step, swap_step, up, told)
    }
}

/// Whether `events` tell the layout engine of what an application listed: the windows that are
/// gone, then those on each screen, then the focus.
pub open spec fn tells_of_discovery(
    after: Reactor,
    pid: Pid,
    d: Discovery,
    events: Seq<LayoutEvent>,
) -> bool {
    let gone = d.gone@.len() as int;
    let all = gone + d.updates@.len();
    &&& events.len() == (if d.focus is Some {
        all + 1
    } else {
        all
    })
    &&& forall|i: int|
        0 <= i < gone ==> #[trigger] events[i] == LayoutEvent::WindowRemoved(d.gone@[i].wid)
    &&& forall|i: int|
        gone <= i < all ==> {
            let update = d.updates@[i - gone];
            &&& (#[trigger] events[i]) is WindowsOnScreenUpdated
            &&& events[i]->WindowsOnScreenUpdated_0 == update.space
            &&& events[i]->WindowsOnScreenUpdated_1 == pid
            &&& events[i]->WindowsOnScreenUpdated_2@ == update.windows@.map_values(
                |w: WindowId| after.window_manager.laid_out(w),
            )
            &&& match events[i]->WindowsOnScreenUpdated_3 {
                Some(info) => after.app_manager.apps@.dom().contains(pid) && same_app(
                    info,
                    after.app_manager.apps@[pid],
                ),
                None => !after.app_manager.apps@.dom().contains(pid),
            }
        }
    &&& d.focus is Some ==> events[all] == d.focus->0
}

/// What the layout engine is told of spaces that show.
pub open spec fn exposures(spaces: Seq<ExposedSpace>) -> Seq<LayoutEvent> {
    spaces.map_values(|e: ExposedSpace| LayoutEvent::SpaceExposed(e.space, e.frame))
}

/// What it is told of the main window, which lies in `space`.
pub open spec fn main_window_events(main: Option<WindowId>, space: Option<SpaceId>) -> Seq<
    LayoutEvent,
> {
    if main is Some && space is Some {
        seq![LayoutEvent::WindowFocused(space->0, main->0)]
    } else {
        Seq::empty()
    }
}

/// Screens with these frames that show these spaces.
pub open spec fn screens_of(frames: Seq<Frame>, spaces: Seq<Option<SpaceId>>) -> Seq<Screen> {
    Seq::new(frames.len(), |i: int| Screen { frame: frames[i], space: spaces[i] })
}

fn make_screens(frames: &Vec<Frame>, spaces: &Vec<Option<SpaceId>>) -> (r: Vec<Screen>)
    requires
        frames@.len() == spaces@.len(),
    ensures
        r@ == screens_of(frames@, spaces@),
{
    let mut r: Vec<Screen> = Vec::new();
    let mut i: usize = 0;
    while i < frames.len()
        invariant
            i <= frames@.len(),
            frames@.len() == spaces@.len(),
            r@ == screens_of(frames@, spaces@).take(i as int),
        decreases frames@.len() - i,
    {
        r.push(Screen { frame: frames[i], space: spaces[i] });
        i = i + 1;
        assert(r@ =~= screens_of(frames@, spaces@).take(i as int));
    }
    assert(r@ =~= screens_of(frames@, spaces@));
    r
}

fn push_exposures(events: &mut Vec<LayoutEvent>, spaces: &Vec<ExposedSpace>)
    ensures
        final(events)@ == old(events)@ + exposures(spaces@),
{
    let ghost before = events@;
    let mut i: usize = 0;
    assert(events@ =~= before + exposures(spaces@.take(0)));
    while i < spaces.len()
        invariant
            i <= spaces@.len(),
            events@ == before + exposures(spaces@.take(i as int)),
        decreases spaces@.len() - i,
    {
        events.push(LayoutEvent::SpaceExposed(spaces[i].space, spaces[i].frame));
        i = i + 1;
        assert(events@ =~= before + exposures(spaces@.take(i as int)));
    }
    assert(spaces@.take(i as int) =~= spaces@);
}

impl Reactor {
    /// Whether a space change that waits is for the screens there are.
    pub open spec fn fits(self, change: Option<PendingSpaceChange>) -> bool {
        change is Some && change->0.spaces@.len() == self.space_manager.screens@.len()
    }

    /// Whether a space change that waits is made.
    pub open spec fn applies(
        self,
        change: Option<PendingSpaceChange>,
        fullscreen: Set<SpaceId>,
    ) -> bool {
        self.fits(change) && !shows_fullscreen(change->0.spaces@, fullscreen)
    }

    /// The windows once a space change that waits was looked at.
    pub open spec fn windows_with_change(
        self,
        change: Option<PendingSpaceChange>,
        facts: EventFacts,
    ) -> Windows {
        if self.applies(change, facts.fullscreen@) {
            after_server_list(
                Windows { visible: Set::empty(), ..self.window_manager@ },
                change->0.ws_info@,
                facts.discovery.levels@,
            )
        } else {
            self.window_manager@
        }
    }

    /// What the layout engine is told when a space change that waits was looked at: the spaces
    /// that show now, and the main window.
    pub open spec fn change_events(
        self,
        change: Option<PendingSpaceChange>,
        focus: Focus,
        facts: EventFacts,
    ) -> Seq<LayoutEvent> {
        if self.applies(change, facts.fullscreen@) {
            exposures(
                exposed_spaces(
                    with_screen_spaces(self.space_manager.screens@, change->0.spaces@),
                ),
            ) + main_window_events(focus.main_window(), facts.discovery.main_window_space)
        } else {
            Seq::empty()
        }
    }

    /// Whether `after`, `step` and `ask` are what comes of a space change that waits, but for the
    /// windows. One that does not fit goes on waiting; one that shows a fullscreen space is
    /// dropped.
    pub open spec fn is_after_change(
        self,
        change: Option<PendingSpaceChange>,
        fullscreen: Set<SpaceId>,
        after: Reactor,
        step: PendingStep,
        ask: Seq<FullscreenTrack>,
    ) -> bool {
        let known = self.space_manager.fullscreen_by_space@;
        &&& forall|s: SpaceId| #[trigger]
            after.space_manager.fullscreen_by_space@.dom().contains(s)
                ==> after.space_manager.fullscreen_by_space@[s] == known[s]
        &&& if self.applies(change, fullscreen) {
            let spaces = change->0.spaces@;
            &&& after.pending_space_change is None
            &&& step == PendingStep::Apply(change->0)
            &&& ask == left_spaces(known, spaces)
            &&& after.space_manager.screens@ == with_screen_spaces(
                self.space_manager.screens@,
                spaces,
            )
            &&& after.space_manager.changing_screens@ == Set::<WindowServerId>::empty()
            &&& forall|s: SpaceId| #[trigger]
                after.space_manager.fullscreen_by_space@.dom().contains(s)
                    <==> known.dom().contains(s) && !spaces.contains(Some(s))
            &&& after.refocus_manager == (RefocusManager {
                stale_cleanup_state: if forall|i: int|
                    0 <= i < spaces.len() ==> (#[trigger] spaces[i]) is None {
                    StaleCleanupState::Suppressed
                } else {
                    StaleCleanupState::Enabled
                },
                refocus_state: match first_screen_space(self.space_manager.screens@) {
                    Some(space) if ask.len() > 0 => RefocusState::Pending(space),
                    _ => self.refocus_manager.refocus_state,
                },
            })
        } else {
            &&& ask.len() == 0
            &&& after.refocus_manager == self.refocus_manager
            &&& after.space_manager.screens == self.space_manager.screens
            &&& after.space_manager.changing_screens == self.space_manager.changing_screens
            &&& after.space_manager.fullscreen_by_space@.dom() == known.dom()
            &&& if self.fits(change) {
                after.pending_space_change is None && step is Dropped
            } else {
                after.pending_space_change == change && step is Nothing
            }
        }
    }

    /// Looks at the space change that waits.
    fn apply_pending(&mut self, facts: &EventFacts) -> (r: (
        PendingStep,
        Vec<FullscreenTrack>,
        Vec<LayoutEvent>,
    ))
        ensures
            old(self).is_after_change(
                old(self).pending_space_change,
                facts.fullscreen@,
                *final(self),
                r.0,
                r.1@,
            ),
            final(self).window_manager@ == old(self).windows_with_change(
                old(self).pending_space_change,
                *facts,
            ),
            r.2@ == old(self).change_events(
                old(self).pending_space_change,
                old(self).main_window_tracker@,
                *facts,
            ),
            old(self).same_but(
                *final(self),
                (Parts {
                    windows: true,
                    spaces: true,
                    refocus: true,
                    pending: true,
                    ..Parts::nothing()
                }),
            ),
    {
        let ghost before = *self;
        let ghost change = self.pending_space_change;
        let mut refocused = self.refocus_manager;
        let _ = self.space_manager.refocus_after_fullscreen(&mut refocused);
        let (step, exit) = self.space_manager.try_apply_pending_space_change(
            &mut self.pending_space_change,
            &facts.fullscreen,
        );
        let mut events: Vec<LayoutEvent> = Vec::new();
        match &step {
            PendingStep::Apply(change) => {
                if exit.left.len() != 0 {
                    self.refocus_manager = refocused;
                }
                let exposed = self.space_manager.finalize_space_change(
                    &mut self.refocus_manager,
                    &change.spaces,
                );
                push_exposures(&mut events, &exposed);
                match (self.main_window_tracker.main_window(), facts.discovery.main_window_space) {
                    (Some(main), Some(space)) => {
                        events.push(LayoutEvent::WindowFocused(space, main));
                    },
                    _ => {},
                }
                assert(events@ =~= before.change_events(
                    before.pending_space_change,
                    before.main_window_tracker@,
                    *facts,
                ));
                self.window_manager.update_complete_window_server_info(
                    &change.ws_info,
                    &facts.discovery.levels,
                );
            },
            _ => {
                assert(events@ =~= Seq::empty());
                assert(before.space_manager.fullscreen_by_space@.dom()
                    =~= self.space_manager.fullscreen_by_space@.dom());
            },
        }
        (step, exit.left, events)
    }
}

/// The mouse button as an event tells it, else as it is found.
pub open spec fn button(told: Option<MouseState>, found: Option<MouseState>) -> Option<MouseState> {
    if told is Some {
        told
    } else {
        found
    }
}

/// The applications that are known.
fn known_pids(reactor: &Reactor) -> (r: VecSet<Pid>)
    ensures
        r@ == reactor.app_manager.apps@.dom(),
{
    let keys = reactor.app_manager.apps.keys();
    let mut r: VecSet<Pid> = VecSet::new();
    let mut i: usize = 0;
    while i < keys.len()
        invariant
            i <= keys@.len(),
            forall|p: Pid| #[trigger] r@.contains(p) <==> keys@.take(i as int).contains(p),
        decreases keys@.len() - i,
    {
        let _ = r.insert(keys[i]);
        proof {
            assert(keys@.take(i + 1) =~= keys@.take(i as int).push(keys@[i as int]));
            crate::collections::lemma_push_contains(keys@.take(i as int), keys@[i as int]);
        }
        i = i + 1;
    }
    assert(keys@.take(i as int) =~= keys@);
    assert(r@ =~= reactor.app_manager.apps@.dom());
    r
}

impl Reactor {
    /// What the layout engine is told of what an application listed.
    fn tell_discovery(&self, pid: Pid, d: &Discovery) -> (r: Vec<LayoutEvent>)
        requires
            d.focus matches Some(e) ==> e is WindowFocused,
        ensures
            tells_of_discovery(*self, pid, *d, r@),
    {
        let mut r: Vec<LayoutEvent> = Vec::new();
        let mut i: usize = 0;
        while i < d.gone.len()
            invariant
                i <= d.gone@.len(),
                r@.len() == i,
                forall|k: int|
                    0 <= k < i ==> #[trigger] r@[k] == LayoutEvent::WindowRemoved(d.gone@[k].wid),
            decreases d.gone@.len() - i,
        {
            r.push(LayoutEvent::WindowRemoved(d.gone[i].wid));
            i = i + 1;
        }
        let mut j: usize = 0;
        while j < d.updates.len()
            invariant
                j <= d.updates@.len(),
                r@.len() == d.gone@.len() + j,
                forall|k: int|
                    0 <= k < d.gone@.len() ==> #[trigger] r@[k] == LayoutEvent::WindowRemoved(
                        d.gone@[k].wid,
                    ),
                forall|k: int|
                    d.gone@.len() <= k < d.gone@.len() + j ==> {
                        let update = d.updates@[k - d.gone@.len()];
                        &&& (#[trigger] r@[k]) is WindowsOnScreenUpdated
                        &&& r@[k]->WindowsOnScreenUpdated_0 == update.space
                        &&& r@[k]->WindowsOnScreenUpdated_1 == pid
                        &&& r@[k]->WindowsOnScreenUpdated_2@ == update.windows@.map_values(
                            |w: WindowId| self.window_manager.laid_out(w),
                        )
                        &&& match r@[k]->WindowsOnScreenUpdated_3 {
                            Some(info) => self.app_manager.apps@.dom().contains(pid) && same_app(
                                info,
                                self.app_manager.apps@[pid],
                            ),
                            None => !self.app_manager.apps@.dom().contains(pid),
                        }
                    },
            decreases d.updates@.len() - j,
        {
            let windows = self.window_manager.lay_out(&d.updates[j].windows);
            let info = self.known_app_info(pid, None);
            r.push(LayoutEvent::WindowsOnScreenUpdated(d.updates[j].space, pid, windows, info));
            j = j + 1;
        }
        match &d.focus {
            Some(LayoutEvent::WindowFocused(space, wid)) => {
                r.push(LayoutEvent::WindowFocused(*space, *wid));
            },
            _ => {},
        }
        r
    }

    /// The record of one window after a frame report, and what follows.
    fn on_frame_changed(&mut self, report: FrameReport, facts: &EventFacts) -> (r: (
        Outcome,
        Vec<LayoutEvent>,
    ))
        ensures
            old(self).is_after_frame(report, *facts, *final(self), r.0, r.1@),
            old(self).same_but(
                *final(self),
                (Parts { windows: true, transactions: true, drag: true, ..Parts::nothing() }),
            ),
    {
        let ghost before = self.frame_state();
        let mission_control: bool = self.mission_control_manager.is_mission_control_active();
        let known: Option<Frame> = match self.window_manager.windows.get(&report.wid) {
            Some(w) => Some(w.frame_monotonic),
            None => None,
        };
        let (step, mouse_up) = WindowEventHandler::handle_window_frame_changed(
            &mut self.window_manager,
            &mut self.transaction_manager,
            &mut self.drag_manager,
            report,
            facts.frame,
            mission_control,
        );
        let ghost mid = self.frame_state();
        let mut events: Vec<LayoutEvent> = Vec::new();
        match known {
            Some(old_frame) => {
                match step {
                    FrameStep::DragResized(true) | FrameStep::Resized => {
                        events.push(
                            LayoutEvent::WindowResized {
                                wid: report.wid,
                                old_frame,
                                new_frame: report.frame,
                            },
                        );
                    },
                    FrameStep::ChangedSpace { to, enters_layout } => {
                        events.push(LayoutEvent::WindowRemovedPreserveFloating(report.wid));
                        match to {
                            Some(space) => {
                                if enters_layout {
                                    events.push(LayoutEvent::WindowAdded(space, report.wid));
                                }
                            },
                            None => {},
                        }
                    },
                    _ => {},
                }
            },
            None => {},
        }
        assert(events@ =~= frame_events(
            before.windows.windows[report.wid].frame_monotonic,
            report,
            step,
        ));
        let mut swap = SwapStep::Ignore;
        match step {
            FrameStep::DragMoved => {
                swap =
                self.drag_manager.maybe_swap_on_drag(
                    report.wid,
                    &self.window_manager.windows,
                    &self.space_manager.changing_screens,
                    facts.swap.best_space,
                    facts.swap.swap_origin,
                    facts.swap.in_active_workspace,
                );
                match swap {
                    SwapStep::Consider(_) => {
                        self.drag_manager.settle_swap(report.wid, facts.swap.target);
                    },
                    _ => {},
                }
            },
            _ => {},
        }
        assert(self.drag_manager == after_swap(mid.drag, report.wid, swap, facts.swap));
        let mut end: Option<DragEnd> = None;
        match mouse_up {
            MouseUpStep::Finish => {
                let space = self.known_end_space(facts.final_space);
                let (ended, told) = self.drag_manager.end_drag(space);
                let mut told = told;
                end = Some(ended);
                let ghost first = events@;
                let ghost second = told@;
                events.append(&mut told);
                assert(events@ =~= first + second);
            },
            _ => {},
        }
        (Outcome::FrameChanged { step, swap, mouse_up, end }, events)
    }

    /// Whether `after`, `outcome` and `events` are what comes of a frame report.
    pub open spec fn is_after_frame(
        self,
        report: FrameReport,
        facts: EventFacts,
        after: Reactor,
        outcome: Outcome,
        events: Seq<LayoutEvent>,
    ) -> bool {
        let (state, step, swap, up, told) = frame_changed(
            self.frame_state(),
            report,
            facts.frame,
            facts.swap,
            self.space_manager.changing_screens@,
            facts.final_space,
            self.mission_control_manager.active(),
        );
        let (mid, _, _) = self.frame_state().reported(
            report,
            facts.frame,
            self.mission_control_manager.active(),
        );
        let drag = after_swap(mid.drag, report.wid, swap, facts.swap);
        &&& after.frame_state() == state
        &&& events == told
        &&& match outcome {
            Outcome::FrameChanged { step: s, swap: w, mouse_up, end } => {
                &&& s == step && w == swap && mouse_up == up
                &&& end is Some == (up is Finish)
                &&& end is Some ==> drag.ends_with(
                    end_space(mid.windows, drag, facts.final_space),
                    end->0,
                )
            },
            _ => false,
        }
    }

    /// The space that the drag ends in.
    fn known_end_space(&self, final_space: Option<SpaceId>) -> (r: Option<SpaceId>)
        ensures
            r == end_space(self.window_manager@, self.drag_manager, final_space),
    {
        match self.drag_manager.get_active_drag_session() {
            Some(session) => if self.window_manager.windows.contains_key(&session.window) {
                final_space
            } else {
                None
            },
            None => None,
        }
    }

    /// The step for a pointer that moved over a window.
    pub open spec fn over_step(self, wsid: WindowServerId, focus: Focus, facts: EventFacts) -> Option<
        (WindowId, MouseOverStep),
    > {
        let windows = self.window_manager@;
        match tracked_id(windows, wsid) {
            Some(wid) => {
                let raises = raises_on_mouse_over(
                    windows,
                    wid,
                    self.menu_manager.menu_state,
                    facts.best_space,
                    facts.over.in_active_workspace,
                    facts.over.order@,
                    facts.over.inside@,
                );
                let is_main = focus.main_window() == Some(wid);
                if !raises || (is_main && facts.over.is_focused) {
                    None
                } else {
                    Some(
                        (
                            wid,
                            MouseOverStep {
                                raises: !is_main,
                                focuses_in: layout_space(
                                    facts.best_space,
                                    facts.best_is_active,
                                    windows.windows[wid].window_server_id,
                                    facts.command_space,
                                ),
                            },
                        ),
                    )
                }
            },
            None => None,
        }
    }

    fn on_mouse_over(&self, wsid: WindowServerId, facts: &EventFacts) -> (r: Option<
        (WindowId, MouseOverStep),
    >)
        ensures
            r == self.over_step(wsid, self.main_window_tracker@, *facts),
    {
        let wid = match self.window_manager.tracked_window_id(wsid) {
            Some(wid) => wid,
            None => {
                return None;
            },
        };
        let should_sync: bool = should_raise_on_mouse_over(
            &self.window_manager,
            wid,
            &self.menu_manager,
            facts.best_space,
            facts.over.in_active_workspace,
            &facts.over.order,
            &facts.over.inside,
        );
        let is_main: bool = match self.main_window_tracker.main_window() {
            Some(main) => main == wid,
            None => false,
        };
        let server_id: Option<WindowServerId> = match self.window_manager.windows.get(&wid) {
            Some(w) => w.window_server_id,
            None => None,
        };
        let space = active_space_for_window(
            facts.best_space,
            facts.best_is_active,
            server_id,
            facts.command_space,
        );
        match WindowEventHandler::handle_mouse_moved_over_window(
            should_sync,
            is_main,
            facts.over.is_focused,
            space,
        ) {
            Some(step) => Some((wid, step)),
            None => None,
        }
    }
}

/// The parts that follow every event: the focus.
pub open spec fn focus_only() -> Parts {
    Parts { focus: true, ..Parts::nothing() }
}

pub open spec fn only_windows() -> Parts {
    Parts { windows: true, ..focus_only() }
}

pub open spec fn of_one_window() -> Parts {
    Parts { transactions: true, drag: true, ..only_windows() }
}

/// Whether an event leaves nothing but `outcome` to do.
pub open spec fn leaves(outcome: Outcome, events: Seq<LayoutEvent>, expected: Outcome) -> bool {
    outcome == expected && events.len() == 0
}

impl Reactor {
    /// Whether `after`, `outcome` and `events` are what an event leads to, where `focus` is the
    /// focus that it leads to.
    pub open spec fn is_after_event(
        self,
        focus: Focus,
        event: Event,
        facts: EventFacts,
        after: Reactor,
        outcome: Outcome,
        events: Seq<LayoutEvent>,
    ) -> bool {
        let windows = self.window_manager@;
        let mission_control = self.mission_control_manager.active();
        let levels = facts.discovery.levels@;
        &&& event is ApplicationLaunched || event is WindowsDiscovered
            || after.main_window_tracker@ == focus
        &&& match event {
            Event::ApplicationLaunched { pid, info, visible_windows, window_server_info, .. } => {
                &&& outcome is Launched
                &&& self.is_after_list(
                    after_server_list(windows, window_server_info@, levels),
                    focus,
                    pid,
                    visible_windows@,
                    Seq::empty(),
                    facts.discovery,
                    after,
                    outcome->Launched_0,
                )
                &&& after.app_manager.apps@ == self.app_manager.apps@.insert(pid, info)
                &&& after.app_manager.app_rules_recently_applied
                    == self.app_manager.app_rules_recently_applied
                &&& tells_of_discovery(after, pid, outcome->Launched_0, events)
                &&& self.same_but(after, Parts { apps: true, ..Parts::of_discovery() })
            },
            Event::WindowsDiscovered { pid, new, known_visible } => {
                &&& outcome is Discovered
                &&& self.is_after_list(
                    windows,
                    focus,
                    pid,
                    new@,
                    known_visible@,
                    facts.discovery,
                    after,
                    outcome->Discovered_0,
                )
                &&& tells_of_discovery(after, pid, outcome->Discovered_0, events)
                &&& self.same_but(after, Parts::of_discovery())
            },
            Event::ApplyAppRulesToExistingWindows { pid, .. } => {
                leaves(outcome, events, Outcome::ApplyRules(pid)) && self.same_but(after, focus_only())
            },
            Event::ApplicationTerminated(pid) => {
                &&& leaves(outcome, events,
                    Outcome::Terminate {
                        pid,
                        can_be_told: self.app_manager.apps@.dom().contains(pid),
                    },
                )
                &&& self.same_but(after, focus_only())
            },
            Event::ApplicationThreadTerminated(pid) => {
                &&& outcome == Outcome::Closed(pid)
                &&& events == seq![LayoutEvent::AppClosed(pid)]
                &&& after.app_manager.apps@ == self.app_manager.apps@.remove(pid)
                &&& after.app_manager.app_rules_recently_applied
                    == self.app_manager.app_rules_recently_applied
                &&& self.same_but(after, Parts { apps: true, ..focus_only() })
            },
            Event::ApplicationGloballyActivated(pid) => {
                leaves(outcome, events, Outcome::Activate(pid)) && self.same_but(after, focus_only())
            },
            Event::ResyncAppForWindow(wsid) => {
                leaves(outcome, events, Outcome::Resync(wsid)) && self.same_but(after, focus_only())
            },
            Event::RegisterWmSender => {
                leaves(outcome, events, Outcome::RegisterWmSender) && self.same_but(after, focus_only())
            },
            Event::WindowCreated(wid, info, ws_info, _) => {
                let (next, records, step) = created(
                    windows,
                    self.transaction_manager@,
                    wid,
                    info,
                    ws_info,
                    reading_of(levels, info.sys_id),
                    layout_space(
                        facts.best_space,
                        facts.best_is_active,
                        info.sys_id,
                        facts.command_space,
                    ),
                    self.app_manager.apps@.dom().contains(wid.pid),
                );
                &&& after.window_manager@ == next
                &&& after.transaction_manager@ == records
                &&& leaves(outcome, events, Outcome::Created(step))
                &&& self.same_but(after, Parts { transactions: true, ..only_windows() })
            },
            Event::WindowDestroyed(wid) => {
                let destroyed = facts.discovery.destroyed;
                let removed = self.frame_state().destroys(wid, mission_control, destroyed);
                &&& after.frame_state() == self.frame_state().after_destruction(
                    wid,
                    mission_control,
                    destroyed,
                )
                &&& outcome == Outcome::Destroyed(
                    DestroyedStep {
                        removed,
                        resets_swap: removed && (self.drag_manager.spec_dragged() == Some(wid)
                            || destroyed.last_target == Some(wid)),
                    },
                )
                &&& events == (if removed {
                    seq![LayoutEvent::WindowRemoved(wid)]
                } else {
                    Seq::empty()
                })
                &&& self.same_but(after, of_one_window())
            },
            Event::WindowServerDestroyed(wsid, sid) => {
                let run = space_run(windows, self.fullscreen_tracks@);
                let destroyed = facts.space.destroyed;
                &&& outcome is ServerDestroyed
                &&& events.len() == 0
                &&& match run.gone(wsid, sid, facts.space_kind, facts.space) {
                    Some(wid) => {
                        &&& after.frame_state() == self.frame_state().after_destruction(
                            wid,
                            mission_control,
                            destroyed,
                        )
                        &&& after.fullscreen_tracks@ == self.fullscreen_tracks@
                        &&& outcome->ServerDestroyed_0@ == (if self.frame_state().destroys(
                            wid,
                            mission_control,
                            destroyed,
                        ) {
                            seq![
                                SpaceStep::Gone {
                                    wid,
                                    resets_swap: self.drag_manager.spec_dragged() == Some(wid)
                                        || destroyed.last_target == Some(wid),
                                },
                            ]
                        } else {
                            Seq::empty()
                        })
                    },
                    None => {
                        &&& (SpaceRun {
                            windows: after.window_manager@,
                            tracks: after.fullscreen_tracks@,
                            steps: outcome->ServerDestroyed_0@,
                        }) == run.disappeared(
                            wsid,
                            sid,
                            facts.space_kind,
                            facts.space,
                            self.app_manager.apps@.dom(),
                            mission_control,
                        )
                        &&& after.transaction_manager@ == self.transaction_manager@
                        &&& after.drag_manager == self.drag_manager
                    },
                }
                &&& self.same_but(after, Parts { tracks: true, ..of_one_window() })
            },
            Event::WindowServerAppeared(wsid, sid) => {
                &&& outcome is ServerAppeared
                &&& events.len() == 0
                &&& (SpaceRun {
                    windows: after.window_manager@,
                    tracks: after.fullscreen_tracks@,
                    steps: outcome->ServerAppeared_0@,
                }) == space_run(windows, self.fullscreen_tracks@).appeared(
                    wsid,
                    sid,
                    facts.space_kind,
                    facts.space,
                    self.app_manager.apps@.dom(),
                    mission_control,
                )
                &&& self.same_but(after, Parts { tracks: true, ..only_windows() })
            },
            Event::WindowMinimized(wid) => {
                let (next, changed) = minimized(windows, wid);
                &&& after.window_manager@ == next
                &&& outcome is Done
                &&& events == (if changed {
                    seq![LayoutEvent::WindowRemoved(wid)]
                } else {
                    Seq::empty()
                })
                &&& self.same_but(after, only_windows())
            },
            Event::WindowDeminiaturized(wid) => {
                let (next, space) = deminiaturized(
                    windows,
                    wid,
                    reading_of(levels, self.server_id_of(wid)),
                    facts.best_space,
                    facts.best_is_active,
                    facts.command_space,
                );
                &&& after.window_manager@ == next
                &&& outcome is Done
                &&& events == (match space {
                    Some(space) => seq![LayoutEvent::WindowAdded(space, wid)],
                    None => Seq::empty(),
                })
                &&& self.same_but(after, only_windows())
            },
            Event::WindowFrameChanged(wid, frame, last_seen, requested, mouse) => {
                let report = FrameReport {
                    wid,
                    frame,
                    last_seen,
                    requested,
                    mouse: button(mouse, facts.mouse),
                };
                &&& self.is_after_frame(report, facts, after, outcome, events)
                &&& self.same_but(after, of_one_window())
            },
            Event::WindowTitleChanged(wid, title) => {
                let (next, previous) = retitled(windows, wid, title);
                &&& after.window_manager@ == next
                &&& leaves(outcome, events,
                    match previous {
                        Some(t) => Outcome::TitleChanged(t),
                        None => Outcome::Done,
                    },
                )
                &&& self.same_but(after, only_windows())
            },
            Event::WindowIsChangingScreens(wsid) => {
                &&& leaves(outcome, events, Outcome::Done)
                &&& after.space_manager.changing_screens@
                    == self.space_manager.changing_screens@.insert(wsid)
                &&& after.space_manager.screens == self.space_manager.screens
                &&& after.space_manager.fullscreen_by_space
                    == self.space_manager.fullscreen_by_space
                &&& self.same_but(after, Parts { spaces: true, ..focus_only() })
            },
            Event::ScreenParametersChanged(frames, spaces, ws_info) => {
                let screens = if frames@.len() == spaces@.len() {
                    screens_of(frames@, spaces@)
                } else {
                    self.space_manager.screens@
                };
                &&& outcome is ScreensChanged
                &&& events == (if frames@.len() == spaces@.len() {
                    exposures(exposed_spaces(screens))
                } else {
                    Seq::empty()
                })
                &&& after.space_manager.screens@ == screens
                &&& after.space_manager.fullscreen_by_space
                    == self.space_manager.fullscreen_by_space
                &&& after.space_manager.changing_screens == self.space_manager.changing_screens
                &&& after.window_manager@ == after_server_list(
                    Windows { visible: Set::empty(), ..windows },
                    ws_info@,
                    levels,
                )
                &&& self.same_but(after, Parts { spaces: true, ..only_windows() })
            },
            Event::SpaceChanged(spaces, ws_info) => {
                let change = Some(PendingSpaceChange { spaces, ws_info });
                &&& outcome is SpaceChanged
                &&& if mission_control {
                    &&& after.pending_space_change == change
                    &&& outcome->SpaceChanged_0 is Nothing
                    &&& outcome->SpaceChanged_1@.len() == 0
                    &&& events.len() == 0
                    &&& self.same_but(after, Parts { pending: true, ..focus_only() })
                } else {
                    &&& self.is_after_change(
                        change,
                        facts.fullscreen@,
                        after,
                        outcome->SpaceChanged_0,
                        outcome->SpaceChanged_1@,
                    )
                    &&& after.window_manager@ == self.windows_with_change(change, facts)
                    &&& events == self.change_events(change, focus, facts)
                }
                &&& self.same_but(
                    after,
                    Parts { spaces: true, refocus: true, pending: true, ..only_windows() },
                )
            },
            Event::MenuOpened => {
                &&& leaves(outcome, events, Outcome::Done)
                &&& after.menu_manager.menu_state == self.menu_manager.menu_state.opened()
                &&& self.same_but(after, Parts { menus: true, ..focus_only() })
            },
            Event::MenuClosed => {
                &&& leaves(outcome, events, Outcome::Done)
                &&& after.menu_manager.menu_state == self.menu_manager.menu_state.closed()
                &&& self.same_but(after, Parts { menus: true, ..focus_only() })
            },
            Event::MouseUp => {
                let space = end_space(windows, self.drag_manager, facts.final_space);
                &&& after.drag_manager == self.drag_manager.ended(space)
                &&& outcome is MouseUp
                &&& self.drag_manager.ends_with(space, outcome->MouseUp_0)
                &&& events == self.drag_manager.end_events(space)
                &&& self.same_but(after, Parts { drag: true, ..focus_only() })
            },
            Event::MouseMovedOverWindow(wsid) => {
                &&& match self.over_step(wsid, focus, facts) {
                    Some((wid, step)) => {
                        &&& outcome == Outcome::MouseOver(wid, step)
                        &&& events == (match step.focuses_in {
                            Some(space) => seq![LayoutEvent::WindowFocused(space, wid)],
                            None => Seq::empty(),
                        })
                    },
                    None => leaves(outcome, events, Outcome::Done),
                }
                &&& self.same_but(after, focus_only())
            },
            Event::SystemWoke => {
                &&& leaves(outcome, events, Outcome::WatchWindows)
                &&& after.notification_manager.last_sls_notification_ids@
                    == self.window_manager.window_ids.order()
                &&& after.notification_manager.window_tx_store
                    == self.notification_manager.window_tx_store
                &&& self.same_but(after, Parts { notifications: true, ..focus_only() })
            },
            Event::MissionControlNativeEntered => {
                &&& leaves(outcome, events, Outcome::MissionControlEntered)
                &&& after.drag_manager == (DragManager {
                    drag_state: DragState::Inactive,
                    skip_layout_for_window: None,
                })
                &&& after.mission_control_manager == (MissionControlManager {
                    mission_control_state: MissionControlState::Active,
                    ..self.mission_control_manager
                })
                &&& self.same_but(
                    after,
                    Parts { drag: true, mission_control: true, ..focus_only() },
                )
            },
            Event::MissionControlNativeExited => {
                &&& outcome is MissionControlExited
                &&& self.is_after_change(
                    self.pending_space_change,
                    facts.fullscreen@,
                    after,
                    outcome->MissionControlExited_0,
                    outcome->MissionControlExited_1@,
                )
                &&& after.window_manager@ == after_server_list(
                    self.windows_with_change(self.pending_space_change, facts),
                    facts.visible@,
                    levels,
                )
                &&& events == self.change_events(self.pending_space_change, focus, facts)
                &&& after.mission_control_manager.mission_control_state == (if mission_control {
                    MissionControlState::Inactive
                } else {
                    self.mission_control_manager.mission_control_state
                })
                &&& forall|p: Pid|
                    after.mission_control_manager.pending_mission_control_refresh@.contains(p)
                        <==> facts.asked@.contains(p)
                &&& self.same_but(
                    after,
                    Parts {
                        spaces: true,
                        refocus: true,
                        pending: true,
                        mission_control: true,
                        ..only_windows()
                    },
                )
            },
            Event::RaiseCompleted { window_id, sequence_id } => {
                &&& leaves(outcome, events, Outcome::RaiseCompleted(window_id, sequence_id))
                &&& self.same_but(after, focus_only())
            },
            Event::RaiseTimeout { sequence_id } => {
                &&& leaves(outcome, events, Outcome::RaiseTimeout(sequence_id))
                &&& self.same_but(after, focus_only())
            },
            Event::Command(Command::Layout(cmd)) => {
                &&& leaves(outcome, events,
                    Outcome::LayoutCommand(command_plan(cmd, facts.command_space)),
                )
                &&& after.workspace_switch_manager == switch_after(
                    self.workspace_switch_manager,
                    cmd,
                )
                &&& self.same_but(after, Parts { workspace_switch: true, ..focus_only() })
            },
            Event::Command(Command::Metrics(_)) => {
                leaves(outcome, events, Outcome::Metrics) && self.same_but(after, focus_only())
            },
            Event::Command(Command::Reactor(c)) => match c {
                ReactorCommand::Debug => {
                    leaves(outcome, events, Outcome::PrintTree) && self.same_but(after, focus_only())
                },
                ReactorCommand::Serialize => {
                    leaves(outcome, events, Outcome::PrintState) && self.same_but(after, focus_only())
                },
                ReactorCommand::SaveAndExit => {
                    leaves(outcome, events, Outcome::SaveAndExit) && self.same_but(after, focus_only())
                },
                ReactorCommand::SwitchSpace(dir) => {
                    leaves(outcome, events, Outcome::SwitchSpace(dir)) && self.same_but(after, focus_only())
                },
                ReactorCommand::FocusWindow { window_id, window_server_id } => {
                    &&& outcome is Focus
                    &&& is_focus_command(
                        windows,
                        window_id,
                        window_server_id,
                        facts.best_space,
                        self.app_manager.apps@.dom(),
                        outcome->Focus_0,
                    )
                    &&& events.len() == 0
                    &&& self.same_but(after, focus_only())
                },
                ReactorCommand::SetMissionControlActive(active) => {
                    &&& leaves(outcome, events, Outcome::Done)
                    &&& after.mission_control_manager == (MissionControlManager {
                        mission_control_state: if active == mission_control {
                            self.mission_control_manager.mission_control_state
                        } else if active {
                            MissionControlState::Active
                        } else {
                            MissionControlState::Inactive
                        },
                        ..self.mission_control_manager
                    })
                    &&& self.same_but(after, Parts { mission_control: true, ..focus_only() })
                },
            },
            Event::ConfigUpdated => {
                &&& outcome is Config
                &&& outcome->Config_0@ == config_steps(
                    facts.config.keys_changed,
                    facts.config.has_stack_line,
                    facts.config.has_controller,
                )
                &&& events.len() == 0
                &&& self.same_but(after, focus_only())
            },
            _ => leaves(outcome, events, Outcome::Done) && self.same_but(after, focus_only()),
        }
    }

    pub open spec fn server_id_of(self, wid: WindowId) -> Option<WindowServerId> {
        if self.window_manager@.windows.dom().contains(wid) {
            self.window_manager@.windows[wid].window_server_id
        } else {
            None
        }
    }

    fn known_server_id(&self, wid: WindowId) -> (r: Option<WindowServerId>)
        ensures
            r == self.server_id_of(wid),
    {
        match self.window_manager.windows.get(&wid) {
            Some(w) => w.window_server_id,
            None => None,
        }
    }

    /// Takes an event. What it says is taken over into what the reactor knows; what is left to do
    /// is said.
    pub fn handle_event(&mut self, event: Event, facts: &EventFacts) -> (r: EventPlan)
        requires
            old(self).menu_manager.menu_state.wf(),
        ensures
            final(self).menu_manager.menu_state.wf(),
            is_query(event) ==> *final(self) == *old(self) && leaves(r.outcome, r.events@, Outcome::Query)
                && r.focus is None && r.focus_follows_mouse is None && r.pass == (PassPlan {
                is_resize: false,
                window_was_destroyed: false,
                update_notifications: false,
            }),
            !is_query(event) ==> {
                let raised = old(self).main_window_tracker@.raised_by(event);
                let menus = menus_after(old(self).menu_manager.menu_state, event);
                let mission = mission_after(old(self).mission_control_manager.active(), event);
                &&& old(self).is_after_event(
                    old(self).main_window_tracker@.after(event),
                    event,
                    *facts,
                    *final(self),
                    r.outcome,
                    r.events@,
                )
                &&& r.focus == (if raised is Some && facts.raised_space is Some
                    && final(self).window_manager@.windows.dom().contains(raised->0) {
                    Some(LayoutEvent::WindowFocused(facts.raised_space->0, raised->0))
                } else {
                    None
                })
                &&& r.pass == (PassPlan {
                    is_resize: event is WindowFrameChanged
                        && r.outcome->FrameChanged_step is Resized,
                    window_was_destroyed: event is WindowDestroyed,
                    update_notifications: updates_notifications(event),
                })
                &&& r.focus_follows_mouse == (if touches_focus(
                    old(self).menu_manager.menu_state,
                    old(self).mission_control_manager.active(),
                    event,
                ) {
                    Some(menus == MenuState::Closed && !mission)
                } else {
                    None
                })
            },
    {
        if asks_for_an_answer(&event) {
            return EventPlan {
                outcome: Outcome::Query,
                events: Vec::new(),
                focus: None,
                pass: PassPlan {
                    is_resize: false,
                    window_was_destroyed: false,
                    update_notifications: false,
                },
                focus_follows_mouse: None,
            };
        }
        let ghost before = *self;
        let ghost told = event;
        let update_notifications: bool = notifications_may_change(&event);
        let raised = self.main_window_tracker.handle_event(&event);
        let ghost start = *self;
        let taken = self.take_event(event, facts);
        proof {
            lemma_focus_is_given(
                before,
                start,
                told,
                *facts,
                *self,
                taken.outcome,
                taken.events@,
            );
        }
        let focus = self.focus_event(raised, facts.raised_space);
        let focus_follows_mouse = if taken.touches_focus {
            Some(focus_follows_mouse_allowed(&self.menu_manager, &self.mission_control_manager))
        } else {
            None
        };
        EventPlan {
            outcome: taken.outcome,
            events: taken.events,
            focus,
            pass: PassPlan {
                is_resize: taken.is_resize,
                window_was_destroyed: taken.window_was_destroyed,
                update_notifications,
            },
            focus_follows_mouse,
        }
    }

    /// Takes over what an event says, once the focus followed it.
    fn take_event(&mut self, event: Event, facts: &EventFacts) -> (r: Taken)
        requires
            old(self).menu_manager.menu_state.wf(),
            !is_query(event),
        ensures
            final(self).menu_manager.menu_state.wf(),
            old(self).is_after_event(
                old(self).main_window_tracker@,
                event,
                *facts,
                *final(self),
                r.outcome,
                r.events@,
            ),
            final(self).menu_manager.menu_state == menus_after(
                old(self).menu_manager.menu_state,
                event,
            ),
            final(self).mission_control_manager.active() == mission_after(
                old(self).mission_control_manager.active(),
                event,
            ),
            r.is_resize == (event is WindowFrameChanged && r.outcome->FrameChanged_step is Resized),
            r.window_was_destroyed == (event is WindowDestroyed),
            r.touches_focus == touches_focus(
                old(self).menu_manager.menu_state,
                old(self).mission_control_manager.active(),
                event,
            ),
    {
        let mut events: Vec<LayoutEvent> = Vec::new();
        let mut is_resize: bool = false;
        let mut window_was_destroyed: bool = false;
        let mut touches_focus: bool = false;
        assert(events@ =~= Seq::empty());
        let outcome: Outcome = match event {
            Event::ApplicationLaunched {
                pid,
                info,
                visible_windows,
                window_server_info,
                is_frontmost: _,
                main_window: _,
            } => {
                let d = AppEventHandler::handle_application_launched(
                    self,
                    pid,
                    info,
                    &visible_windows,
                    &window_server_info,
                    &facts.discovery,
                );
                events = self.tell_discovery(pid, &d);
                Outcome::Launched(d)
            },
            Event::WindowsDiscovered { pid, new, known_visible } => {
                let d = AppEventHandler::handle_windows_discovered(
                    self,
                    pid,
                    &new,
                    &known_visible,
                    &facts.discovery,
                );
                events = self.tell_discovery(pid, &d);
                Outcome::Discovered(d)
            },
            Event::ApplyAppRulesToExistingWindows { pid, .. } => Outcome::ApplyRules(pid),
            Event::ApplicationTerminated(pid) => {
                let can_be_told: bool = AppEventHandler::handle_application_terminated(self, pid);
                Outcome::Terminate { pid, can_be_told }
            },
            Event::ApplicationThreadTerminated(pid) => {
                let closed = AppEventHandler::handle_application_thread_terminated(self, pid);
                events.push(closed);
                assert(events@ =~= seq![LayoutEvent::AppClosed(pid)]);
                Outcome::Closed(pid)
            },
            Event::ApplicationGloballyActivated(pid) => Outcome::Activate(pid),
            Event::ResyncAppForWindow(wsid) => Outcome::Resync(wsid),
            Event::RegisterWmSender => Outcome::RegisterWmSender,
            Event::WindowCreated(wid, info, ws_info, _) => {
                let reading = get_reading(&facts.discovery.levels, info.sys_id);
                let knows_app: bool = self.app_manager.apps.contains_key(&wid.pid);
                let step = WindowEventHandler::handle_window_created(
                    &mut self.window_manager,
                    &mut self.transaction_manager,
                    wid,
                    info,
                    ws_info,
                    reading.is_tiny,
                    reading.facts,
                    facts.best_space,
                    facts.best_is_active,
                    facts.command_space,
                    knows_app,
                );
                Outcome::Created(step)
            },
            Event::WindowDestroyed(wid) => {
                window_was_destroyed = true;
                let mission_control: bool =
                    self.mission_control_manager.is_mission_control_active();
                let step = WindowEventHandler::handle_window_destroyed(
                    &mut self.window_manager,
                    &mut self.transaction_manager,
                    &mut self.drag_manager,
                    wid,
                    mission_control,
                    &facts.discovery.destroyed,
                );
                if step.removed {
                    events.push(LayoutEvent::WindowRemoved(wid));
                    assert(events@ =~= seq![LayoutEvent::WindowRemoved(wid)]);
                }
                Outcome::Destroyed(step)
            },
            Event::WindowServerDestroyed(wsid, sid) => {
                let apps = known_pids(self);
                let mission_control: bool =
                    self.mission_control_manager.is_mission_control_active();
                let steps = SpaceEventHandler::handle_window_server_destroyed(
                    &mut self.window_manager,
                    &mut self.transaction_manager,
                    &mut self.drag_manager,
                    &mut self.fullscreen_tracks,
                    wsid,
                    sid,
                    facts.space_kind,
                    &facts.space,
                    &apps,
                    mission_control,
                );
                Outcome::ServerDestroyed(steps)
            },
            Event::WindowServerAppeared(wsid, sid) => {
                let apps = known_pids(self);
                let mission_control: bool =
                    self.mission_control_manager.is_mission_control_active();
                let steps = SpaceEventHandler::handle_window_server_appeared(
                    &mut self.window_manager,
                    &mut self.fullscreen_tracks,
                    wsid,
                    sid,
                    facts.space_kind,
                    &facts.space,
                    &apps,
                    mission_control,
                );
                Outcome::ServerAppeared(steps)
            },
            Event::WindowMinimized(wid) => {
                if WindowEventHandler::handle_window_minimized(&mut self.window_manager, wid) {
                    events.push(LayoutEvent::WindowRemoved(wid));
                    assert(events@ =~= seq![LayoutEvent::WindowRemoved(wid)]);
                }
                Outcome::Done
            },
            Event::WindowDeminiaturized(wid) => {
                let id = self.known_server_id(wid);
                let reading = get_reading(&facts.discovery.levels, id);
                let space = WindowEventHandler::handle_window_deminiaturized(
                    &mut self.window_manager,
                    wid,
                    reading.is_tiny,
                    reading.facts,
                    facts.best_space,
                    facts.best_is_active,
                    facts.command_space,
                );
                match space {
                    Some(space) => {
                        events.push(LayoutEvent::WindowAdded(space, wid));
                        assert(events@ =~= seq![LayoutEvent::WindowAdded(space, wid)]);
                    },
                    None => {},
                }
                Outcome::Done
            },
            Event::WindowFrameChanged(wid, frame, last_seen, requested, told) => {
                let mouse = match told {
                    Some(state) => Some(state),
                    None => facts.mouse,
                };
                let report = FrameReport { wid, frame, last_seen, requested, mouse };
                let (outcome, tell) = self.on_frame_changed(report, facts);
                events = tell;
                match &outcome {
                    Outcome::FrameChanged { step: FrameStep::Resized, .. } => {
                        is_resize = true;
                    },
                    _ => {},
                }
                outcome
            },
            Event::WindowTitleChanged(wid, title) => {
                match WindowEventHandler::handle_window_title_changed(
                    &mut self.window_manager,
                    wid,
                    title,
                ) {
                    Some(previous) => Outcome::TitleChanged(previous),
                    None => Outcome::Done,
                }
            },
            Event::WindowIsChangingScreens(wsid) => {
                let _ = self.space_manager.changing_screens.insert(wsid);
                Outcome::Done
            },
            Event::ScreenParametersChanged(frames, spaces, ws_info) => {
                if frames.len() == spaces.len() {
                    self.space_manager.screens = make_screens(&frames, &spaces);
                    let exposed = self.space_manager.expose_all_spaces();
                    push_exposures(&mut events, &exposed);
                    assert(events@ =~= exposures(exposed@));
                }
                self.window_manager.update_complete_window_server_info(
                    &ws_info,
                    &facts.discovery.levels,
                );
                Outcome::ScreensChanged
            },
            Event::SpaceChanged(spaces, ws_info) => {
                self.pending_space_change = Some(PendingSpaceChange { spaces, ws_info });
                if self.mission_control_manager.is_mission_control_active() {
                    Outcome::SpaceChanged(PendingStep::Nothing, Vec::new())
                } else {
                    let (step, ask, tell) = self.apply_pending(facts);
                    events = tell;
                    Outcome::SpaceChanged(step, ask)
                }
            },
            Event::MenuOpened => {
                self.menu_manager.menu_opened();
                touches_focus = true;
                Outcome::Done
            },
            Event::MenuClosed => {
                touches_focus = self.menu_manager.menu_closed();
                Outcome::Done
            },
            Event::MouseUp => {
                let space = self.known_end_space(facts.final_space);
                let (end, tell) = self.drag_manager.end_drag(space);
                events = tell;
                Outcome::MouseUp(end)
            },
            Event::MouseMovedOverWindow(wsid) => {
                match self.on_mouse_over(wsid, facts) {
                    Some((wid, step)) => {
                        match step.focuses_in {
                            Some(space) => {
                                events.push(LayoutEvent::WindowFocused(space, wid));
                                assert(events@ =~= seq![LayoutEvent::WindowFocused(space, wid)]);
                            },
                            None => {},
                        }
                        Outcome::MouseOver(wid, step)
                    },
                    None => Outcome::Done,
                }
            },
            Event::SystemWoke => {
                self.notification_manager.last_sls_notification_ids =
                self.window_manager.window_ids.keys();
                Outcome::WatchWindows
            },
            Event::MissionControlNativeEntered => {
                touches_focus =
                SpaceEventHandler::handle_mission_control_native_entered(
                    &mut self.drag_manager,
                    &mut self.mission_control_manager,
                );
                Outcome::MissionControlEntered
            },
            Event::MissionControlNativeExited => {
                touches_focus =
                SpaceEventHandler::handle_mission_control_native_exited(
                    &mut self.mission_control_manager,
                );
                let (step, ask, tell) = self.apply_pending(facts);
                events = tell;
                self.window_manager.update_partial_window_server_info(
                    &facts.visible,
                    &facts.discovery.levels,
                );
                self.mission_control_manager.begin_refresh(&facts.asked);
                Outcome::MissionControlExited(step, ask)
            },
            Event::RaiseCompleted { window_id, sequence_id } => Outcome::RaiseCompleted(
                window_id,
                sequence_id,
            ),
            Event::RaiseTimeout { sequence_id } => Outcome::RaiseTimeout(sequence_id),
            Event::Command(Command::Layout(cmd)) => {
                let plan = CommandEventHandler::handle_command_layout(
                    &mut self.workspace_switch_manager,
                    &cmd,
                    facts.command_space,
                );
                Outcome::LayoutCommand(plan)
            },
            Event::Command(Command::Metrics(_)) => Outcome::Metrics,
            Event::Command(Command::Reactor(c)) => match c {
                ReactorCommand::Debug => Outcome::PrintTree,
                ReactorCommand::Serialize => Outcome::PrintState,
                ReactorCommand::SaveAndExit => Outcome::SaveAndExit,
                ReactorCommand::SwitchSpace(dir) => Outcome::SwitchSpace(dir),
                ReactorCommand::FocusWindow { window_id, window_server_id } => {
                    let apps = known_pids(self);
                    let command = CommandEventHandler::handle_command_reactor_focus_window(
                        &self.window_manager,
                        window_id,
                        window_server_id,
                        facts.best_space,
                        &apps,
                    );
                    Outcome::Focus(command)
                },
                ReactorCommand::SetMissionControlActive(active) => {
                    touches_focus =
                    CommandEventHandler::handle_command_reactor_set_mission_control_active(
                        &mut self.mission_control_manager,
                        active,
                    );
                    Outcome::Done
                },
            },
            Event::ConfigUpdated => {
                let steps = CommandEventHandler::handle_config_updated(
                    facts.config.keys_changed,
                    facts.config.has_stack_line,
                    facts.config.has_controller,
                );
                Outcome::Config(steps)
            },
            _ => Outcome::Done,
        };
        Taken { outcome, events, is_resize, window_was_destroyed, touches_focus }
    }
}

/// How an event was taken over.
struct Taken {
    outcome: Outcome,
    events: Vec<LayoutEvent>,
    is_resize: bool,
    window_was_destroyed: bool,
    touches_focus: bool,
}

/// What an event leads to depends on the focus only as far as it is given.
proof fn lemma_focus_is_given(
    before: Reactor,
    start: Reactor,
    event: Event,
    facts: EventFacts,
    after: Reactor,
    outcome: Outcome,
    events: Seq<LayoutEvent>,
)
    requires
        before.same_but(start, focus_only()),
        start.is_after_event(start.main_window_tracker@, event, facts, after, outcome, events),
    ensures
        before.is_after_event(start.main_window_tracker@, event, facts, after, outcome, events),
{
}

/// Whether the focus may follow the mouse is said whenever it changed.
pub proof fn changes_of_focus_are_told(menus: MenuState, active: bool, event: Event)
    requires
        menus.wf(),
        (menus_after(menus, event) == MenuState::Closed && !mission_after(active, event)) != (menus
            == MenuState::Closed && !active),
    ensures
        touches_focus(menus, active, event),
{
}

/// The space that a drag of `wid` started in, or starts in now.
pub open spec fn origin_of(drag: DragManager, frame: FrameFacts) -> Option<SpaceId> {
    match drag.session() {
        Some(session) => session.origin_space,
        None => frame.drag_origin,
    }
}

/// A window that the user drags leaves its space when the button is released elsewhere, and enters
/// the space it was dragged to, once; a drag that ends where it started moves nothing. While the
/// button is down no window leaves or enters a space.
pub proof fn a_drag_moves_a_window_once(
    before: FrameState,
    report: FrameReport,
    frame: FrameFacts,
    swap: SwapFacts,
    changing: Set<WindowServerId>,
    found: Option<SpaceId>,
    final_space: Option<SpaceId>,
)
    requires
        before.windows.windows.dom().contains(report.wid),
        before.drag.drag_state == DragState::Inactive || (before.drag.session() is Some
            && before.drag.session()->0.window == report.wid),
        report.mouse == Some(MouseState::Down),
        !report.requested.0,
        !before.outdated(report),
        !frame.matches_current,
        frame.old_active || frame.new_active,
        swap.target is None,
    ensures
        ({
            let origin = origin_of(before.drag, frame);
            let (after, _, _, _, told) = frame_changed(
                before,
                report,
                frame,
                swap,
                changing,
                found,
                false,
            );
            let space = end_space(after.windows, after.drag, final_space);
            let released = after.drag.ended(space);
            &&& forall|i: int| 0 <= i < told.len() ==> (#[trigger] told[i]) is WindowResized
            &&& after.drag.in_drag()
            &&& space == final_space
            &&& after.drag.end_events(space) == (if origin == final_space {
                Seq::empty()
            } else {
                (if origin is Some {
                    seq![LayoutEvent::WindowRemoved(report.wid)]
                } else {
                    Seq::empty()
                }) + (if final_space is Some {
                    seq![LayoutEvent::WindowAdded(final_space->0, report.wid)]
                } else {
                    Seq::empty()
                })
            })
            &&& !released.in_drag()
            &&& forall|again: Option<SpaceId>| #[trigger] released.end_events(again).len() == 0
        }),
{
    let (after, _, _, _, _) = frame_changed(
        before,
        report,
        frame,
        swap,
        changing,
        found,
        false,
    );
    let origin = origin_of(before.drag, frame);
    let moves = (if origin is Some {
        seq![LayoutEvent::WindowRemoved(report.wid)]
    } else {
        Seq::<LayoutEvent>::empty()
    }) + (if final_space is Some {
        seq![LayoutEvent::WindowAdded(final_space->0, report.wid)]
    } else {
        Seq::<LayoutEvent>::empty()
    });
    if origin != final_space {
        assert(after.drag.end_events(final_space) =~= moves);
    }
}

/// A frame report that finds the button released ends the drag as the release itself would.
pub proof fn a_missed_release_ends_the_drag(
    before: FrameState,
    report: FrameReport,
    frame: FrameFacts,
    swap: SwapFacts,
    changing: Set<WindowServerId>,
    final_space: Option<SpaceId>,
)
    requires
        report.mouse == Some(MouseState::Up),
        before.drag.drag_state != DragState::Inactive,
    ensures
        ({
            let (after, _, _, up, _) = frame_changed(
                before,
                report,
                frame,
                swap,
                changing,
                final_space,
                false,
            );
            up is Finish && !after.drag.in_drag()
        }),
{
}

/// Mission Control ends every drag, whatever is reported while it shows.
pub proof fn mission_control_ends_drags(
    before: FrameState,
    report: FrameReport,
    frame: FrameFacts,
    swap: SwapFacts,
    changing: Set<WindowServerId>,
    final_space: Option<SpaceId>,
)
    ensures
        ({
            let (after, _, _, _, told) = frame_changed(
                before,
                report,
                frame,
                swap,
                changing,
                final_space,
                true,
            );
            &&& !after.drag.in_drag()
            &&& after.windows == before.windows
            &&& told.len() == 0
        }),
{
}

/// A destroyed window is forgotten, and takes no part in a drag any more.
pub proof fn destroyed_windows_are_forgotten(
    before: Reactor,
    after: Reactor,
    focus: Focus,
    wid: WindowId,
    facts: EventFacts,
    outcome: Outcome,
    events: Seq<LayoutEvent>,
)
    requires
        !before.mission_control_manager.active(),
        !facts.discovery.destroyed.no_user_space,
        before.is_after_event(focus, Event::WindowDestroyed(wid), facts, after, outcome, events),
    ensures
        !after.window_manager@.windows.dom().contains(wid),
        before.drag_manager.session() is Some && before.drag_manager.session()->0.window == wid
            && before.window_manager@.windows.dom().contains(wid) ==> !after.drag_manager.in_drag(),
{
}

/// The mouse button is as an event tells it; only where the event does not tell, it is as found.
pub proof fn events_tell_the_button(told: MouseState, found: Option<MouseState>)
    ensures
        button(Some(told), found) == Some(told),
        button(None, found) == found,
{
}

/// A resize is told with the frame before and the frame after, and a window that changed its space
/// leaves the layout, with its floating position kept, before it enters the other one.
pub proof fn frame_changes_are_told_in_full(
    known: Frame,
    report: FrameReport,
    space: SpaceId,
)
    ensures
        ({
            let resized = LayoutEvent::WindowResized {
                wid: report.wid,
                old_frame: known,
                new_frame: report.frame,
            };
            &&& frame_events(known, report, FrameStep::Resized) =~= seq![resized]
            &&& frame_events(known, report, FrameStep::DragResized(true)) =~= seq![resized]
        }),
        frame_events(known, report, FrameStep::DragResized(false)).len() == 0,
        frame_events(known, report, FrameStep::Ignored).len() == 0,
        frame_events(known, report, FrameStep::DragMoved).len() == 0,
        frame_events(
            known,
            report,
            FrameStep::ChangedSpace { to: Some(space), enters_layout: true },
        ) =~= seq![
            LayoutEvent::WindowRemovedPreserveFloating(report.wid),
            LayoutEvent::WindowAdded(space, report.wid),
        ],
        frame_events(
            known,
            report,
            FrameStep::ChangedSpace { to: Some(space), enters_layout: false },
        ) =~= seq![LayoutEvent::WindowRemovedPreserveFloating(report.wid)],
        frame_events(known, report, FrameStep::ChangedSpace { to: None, enters_layout: false })
            =~= seq![LayoutEvent::WindowRemovedPreserveFloating(report.wid)],
{
}

/// A drag ends in the space that its window is found in, if the window is still known.
pub proof fn drags_end_where_their_window_is(
    windows: Windows,
    drag: DragManager,
    found: Option<SpaceId>,
)
    ensures
        drag.session() is Some && windows.windows.dom().contains(drag.session()->0.window)
            ==> end_space(windows, drag, found) == found,
        drag.session() is Some && !windows.windows.dom().contains(drag.session()->0.window)
            ==> end_space(windows, drag, found) is None,
        drag.session() is None ==> end_space(windows, drag, found) is None,
{
}

/// Each screen gets the frame and the space that stand at its place, and every space that shows is
/// exposed with the frame of its screen.
pub proof fn screens_pair_frames_and_spaces(
    frames: Seq<Frame>,
    spaces: Seq<Option<SpaceId>>,
    exposed: Seq<ExposedSpace>,
    i: int,
)
    ensures
        screens_of(frames, spaces).len() == frames.len(),
        0 <= i < frames.len() ==> screens_of(frames, spaces)[i].frame == frames[i] && screens_of(
            frames,
            spaces,
        )[i].space == spaces[i],
        exposures(exposed).len() == exposed.len(),
        0 <= i < exposed.len() ==> exposures(exposed)[i] == LayoutEvent::SpaceExposed(
            exposed[i].space,
            exposed[i].frame,
        ),
{
}

/// Exactly the six questions change nothing; every event that is no question is handled as one.
pub proof fn questions_are_told_from_events(event: Event, space: Option<SpaceId>, id: WindowId)
    ensures
        event is QueryWorkspaces || event is QueryWindows || event is QueryWindowInfo
            || event is QueryApplications || event is QueryLayoutState || event is QueryMetrics
            <==> is_query(event),
        updates_notifications(event) <==> event is WindowCreated || event is WindowDestroyed
            || event is WindowServerDestroyed || event is WindowServerAppeared
            || event is WindowsDiscovered || event is ApplicationLaunched
            || event is ApplicationTerminated || event is ApplicationThreadTerminated
            || event is SpaceChanged || event is ScreenParametersChanged,
{
}

/// Only opening and closing menus changes what is known of menus, and only entering and leaving
/// Mission Control, or being told of it, changes whether it shows.
pub proof fn menus_and_mission_control_follow_their_events(
    menus: MenuState,
    active: bool,
    shown: bool,
    event: Event,
)
    ensures
        menus_after(menus, Event::MenuOpened) == menus.opened(),
        menus_after(menus, Event::MenuClosed) == menus.closed(),
        !(event is MenuOpened) && !(event is MenuClosed) ==> menus_after(menus, event) == menus,
        mission_after(active, Event::MissionControlNativeEntered),
        !mission_after(active, Event::MissionControlNativeExited),
        mission_after(
            active,
            Event::Command(
                Command::Reactor(ReactorCommand::SetMissionControlActive(shown)),
            ),
        ) == shown,
        !(event is MissionControlNativeEntered) && !(event is MissionControlNativeExited) && !(
        event is Command) ==> mission_after(active, event) == active,
{
}

/// A window that is minimized leaves the layout and a window that comes back enters that of its
/// space; a window that is gone leaves it, and a closed application's windows all do.
pub proof fn windows_leave_and_enter_the_layout(
    before: Reactor,
    after: Reactor,
    focus: Focus,
    facts: EventFacts,
    outcome: Outcome,
    events: Seq<LayoutEvent>,
    wid: WindowId,
    pid: Pid,
)
    requires
        before.window_manager@.windows.dom().contains(wid),
    ensures
        before.is_after_event(focus, Event::WindowMinimized(wid), facts, after, outcome, events)
            ==> after.window_manager@.windows[wid].is_minimized && (
        !before.window_manager@.windows[wid].is_minimized ==> events =~= seq![
            LayoutEvent::WindowRemoved(wid),
        ]) && after.drag_manager == before.drag_manager && after.space_manager
            == before.space_manager,
        before.is_after_event(
            focus,
            Event::WindowDeminiaturized(wid),
            facts,
            after,
            outcome,
            events,
        ) ==> !after.window_manager@.windows[wid].is_minimized && (forall|k: int|
            0 <= k < events.len() ==> (#[trigger] events[k]) is WindowAdded
                && events[k]->WindowAdded_1 == wid) && events.len() <= 1,
        before.is_after_event(focus, Event::WindowDestroyed(wid), facts, after, outcome, events)
            && !before.mission_control_manager.active() && !facts.discovery.destroyed.no_user_space
            ==> !after.window_manager@.windows.dom().contains(wid) && events =~= seq![
            LayoutEvent::WindowRemoved(wid),
        ],
        before.is_after_event(
            focus,
            Event::ApplicationThreadTerminated(pid),
            facts,
            after,
            outcome,
            events,
        ) ==> !after.app_manager.apps@.dom().contains(pid) && events =~= seq![
            LayoutEvent::AppClosed(pid),
        ] && after.window_manager == before.window_manager,
{
}

/// A created window is known as it was described; a title that was reported is the window's title;
/// and a window that changes screens is remembered as one that does.
pub proof fn what_events_say_of_a_window_is_known(
    before: Reactor,
    after: Reactor,
    focus: Focus,
    facts: EventFacts,
    outcome: Outcome,
    events: Seq<LayoutEvent>,
    wid: WindowId,
    info: WindowInfo,
    title: String,
    wsid: WindowServerId,
)
    ensures
        before.is_after_event(
            focus,
            Event::WindowCreated(wid, info, None, None),
            facts,
            after,
            outcome,
            events,
        ) ==> after.window_manager@.windows.dom().contains(wid)
            && after.window_manager@.windows[wid].title == info.title
            && after.window_manager@.windows[wid].frame_monotonic == info.frame
            && after.window_manager@.windows[wid].window_server_id == info.sys_id
            && outcome is Created && events.len() == 0,
        before.is_after_event(
            focus,
            Event::WindowTitleChanged(wid, title),
            facts,
            after,
            outcome,
            events,
        ) && before.window_manager@.windows.dom().contains(wid)
            ==> after.window_manager@.windows[wid].title@ == title@ && events.len() == 0,
        before.is_after_event(
            focus,
            Event::WindowIsChangingScreens(wsid),
            facts,
            after,
            outcome,
            events,
        ) ==> after.space_manager.changing_screens@.contains(wsid) && after.space_manager.screens
            == before.space_manager.screens && after.window_manager == before.window_manager,
{
}

/// New screens are known with their frames and spaces, and each space that shows is exposed; the
/// windows that show are those that were listed with them.
pub proof fn new_screens_are_known(
    before: Reactor,
    after: Reactor,
    focus: Focus,
    facts: EventFacts,
    outcome: Outcome,
    events: Seq<LayoutEvent>,
    event: Event,
    i: int,
    id: WindowServerId,
)
    requires
        event is ScreenParametersChanged,
        event->ScreenParametersChanged_0@.len() == event->ScreenParametersChanged_1@.len(),
        before.is_after_event(focus, event, facts, after, outcome, events),
    ensures
        ({
            let frames = event->ScreenParametersChanged_0@;
            let spaces = event->ScreenParametersChanged_1@;
            let list = event->ScreenParametersChanged_2@;
            let screens = after.space_manager.screens@;
            &&& screens.len() == frames.len()
            &&& 0 <= i < frames.len() ==> screens[i].frame == frames[i] && screens[i].space
                == spaces[i]
            &&& 0 <= i < frames.len() && spaces[i] is Some ==> events.contains(
                LayoutEvent::SpaceExposed(spaces[i]->0, frames[i]),
            )
            &&& after.window_manager@.visible.contains(id) <==> exists|k: int|
                0 <= k < list.len() && (#[trigger] list[k]).id == id
            &&& after.drag_manager == before.drag_manager && after.app_manager
                == before.app_manager
        }),
{
    let frames = event->ScreenParametersChanged_0@;
    let spaces = event->ScreenParametersChanged_1@;
    let list = event->ScreenParametersChanged_2@;
    let screens = screens_of(frames, spaces);
    crate::reactor::actor::complete_reports_decide_what_shows(
        Windows { visible: Set::empty(), ..before.window_manager@ },
        list,
        facts.discovery.levels@,
        id,
    );
    if 0 <= i < frames.len() && spaces[i] is Some {
        let e = ExposedSpace { space: spaces[i]->0, frame: frames[i] };
        crate::reactor::space::spaces_are_exposed_with_the_frames_of_their_screens(
            screens,
            e.space,
            e.frame,
        );
        assert(screens[i].space == Some(e.space));
        let k = exposed_spaces(screens).index_of(e);
        assert(events[k] == LayoutEvent::SpaceExposed(e.space, e.frame));
    }
}

/// A space change that fits the screens is made at once outside of Mission Control, unless a
/// fullscreen space shows; inside, it waits, and is made when Mission Control is left.
pub proof fn space_changes_are_made_or_wait(
    before: Reactor,
    after: Reactor,
    focus: Focus,
    facts: EventFacts,
    outcome: Outcome,
    events: Seq<LayoutEvent>,
    event: Event,
    i: int,
)
    requires
        event is SpaceChanged,
        before.is_after_event(focus, event, facts, after, outcome, events),
    ensures
        ({
            let spaces = event->SpaceChanged_0@;
            let screens = before.space_manager.screens@;
            let fullscreen = exists|k: int|
                0 <= k < spaces.len() && (#[trigger] spaces[k]) is Some
                    && facts.fullscreen@.contains(spaces[k]->0);
            let made = !before.mission_control_manager.active() && spaces.len() == screens.len()
                && !fullscreen;
            &&& before.mission_control_manager.active() ==> after.pending_space_change is Some
                && after.pending_space_change->0.spaces@ == spaces && after.space_manager
                == before.space_manager && events.len() == 0
            &&& made ==> after.pending_space_change is None
            &&& made && 0 <= i < screens.len() ==> after.space_manager.screens@[i].space
                == spaces[i] && after.space_manager.screens@[i].frame == screens[i].frame
            &&& made && 0 <= i < screens.len() && spaces[i] is Some ==> events.contains(
                LayoutEvent::SpaceExposed(spaces[i]->0, screens[i].frame),
            )
            &&& made && focus.main_window() is Some && facts.discovery.main_window_space is Some
                ==> events.last() == LayoutEvent::WindowFocused(
                facts.discovery.main_window_space->0,
                focus.main_window()->0,
            )
            &&& !made ==> after.space_manager.screens@ == screens && events.len() == 0
            &&& !before.mission_control_manager.active() && spaces.len() != screens.len()
                ==> after.pending_space_change is Some
        }),
{
    let spaces = event->SpaceChanged_0@;
    let screens = before.space_manager.screens@;
    let change = Some(
        PendingSpaceChange { spaces: event->SpaceChanged_0, ws_info: event->SpaceChanged_1 },
    );
    if !before.mission_control_manager.active() && before.applies(change, facts.fullscreen@) {
        let next = with_screen_spaces(screens, spaces);
        if 0 <= i < screens.len() && spaces[i] is Some {
            let e = ExposedSpace { space: spaces[i]->0, frame: screens[i].frame };
            crate::reactor::space::spaces_are_exposed_with_the_frames_of_their_screens(
                next,
                e.space,
                e.frame,
            );
            assert(next[i].space == Some(e.space));
            let k = exposed_spaces(next).index_of(e);
            assert(exposures(exposed_spaces(next))[k] == LayoutEvent::SpaceExposed(
                e.space,
                e.frame,
            ));
            assert(events[k] == LayoutEvent::SpaceExposed(e.space, e.frame));
        }
    }
}

/// Entering Mission Control ends a drag; leaving it has the windows that show noted and every
/// application that was asked remembered as such.
pub proof fn mission_control_comes_and_goes(
    before: Reactor,
    after: Reactor,
    focus: Focus,
    facts: EventFacts,
    outcome: Outcome,
    events: Seq<LayoutEvent>,
    pid: Pid,
    i: int,
)
    ensures
        before.is_after_event(
            focus,
            Event::MissionControlNativeEntered,
            facts,
            after,
            outcome,
            events,
        ) ==> after.mission_control_manager.active() && !after.drag_manager.in_drag()
            && after.drag_manager.skip_layout_for_window is None && after.window_manager
            == before.window_manager,
        before.is_after_event(
            focus,
            Event::MissionControlNativeExited,
            facts,
            after,
            outcome,
            events,
        ) ==> !after.mission_control_manager.active() && (
        after.mission_control_manager.pending_mission_control_refresh@.contains(pid)
            <==> facts.asked@.contains(pid)) && (0 <= i < facts.visible@.len() && (forall|j: int|
            i < j < facts.visible@.len() ==> (#[trigger] facts.visible@[j]).id
                != facts.visible@[i].id) ==> after.window_manager@.visible.contains(
            facts.visible@[i].id,
        )),
{
    if 0 <= i < facts.visible@.len() && (forall|j: int|
        i < j < facts.visible@.len() ==> (#[trigger] facts.visible@[j]).id != facts.visible@[i].id) {
        crate::reactor::actor::the_last_report_counts(
            before.windows_with_change(before.pending_space_change, facts),
            facts.visible@,
            facts.discovery.levels@,
            i,
        );
    }
}

/// Releasing the button ends the drag: a window that was dragged to another space leaves the one
/// and enters the other, and windows that wait to be swapped are.
pub proof fn releasing_the_button_ends_the_drag(
    before: Reactor,
    after: Reactor,
    focus: Focus,
    facts: EventFacts,
    outcome: Outcome,
    events: Seq<LayoutEvent>,
    session: DragSession,
    space: SpaceId,
    a: WindowId,
    b: WindowId,
)
    requires
        before.is_after_event(focus, Event::MouseUp, facts, after, outcome, events),
    ensures
        after.drag_manager.drag_state is Inactive,
        after.window_manager == before.window_manager,
        before.drag_manager.session() == Some(session)
            && before.window_manager@.windows.dom().contains(session.window) && facts.final_space
            == Some(space) && session.origin_space is Some && session.origin_space != Some(space)
            ==> events =~= seq![
            LayoutEvent::WindowRemoved(session.window),
            LayoutEvent::WindowAdded(space, session.window),
        ] && outcome is MouseUp && outcome->MouseUp_0.assign_to == Some((space, session.window)),
        before.drag_manager.session() == Some(session)
            && before.window_manager@.windows.dom().contains(session.window)
            && session.origin_space == facts.final_space ==> events.len() == 0,
        before.drag_manager.drag_state == (DragState::PendingSwap { dragged: a, target: b })
            ==> outcome->MouseUp_0.swap == Some((a, b)) && events.len() == 0,
{
}

/// A window under the pointer that may be raised gets the focus in its own space, and is raised
/// unless it has the focus already; where it may not be raised nothing happens.
pub proof fn the_focus_follows_the_pointer(
    before: Reactor,
    after: Reactor,
    focus: Focus,
    facts: EventFacts,
    outcome: Outcome,
    events: Seq<LayoutEvent>,
    wsid: WindowServerId,
    wid: WindowId,
)
    requires
        before.is_after_event(
            focus,
            Event::MouseMovedOverWindow(wsid),
            facts,
            after,
            outcome,
            events,
        ),
        before.window_manager@.window_ids.dom().contains(wsid),
        before.window_manager@.window_ids[wsid] == wid,
    ensures
        before.menu_manager.menu_state is Open ==> outcome is Done && events.len() == 0,
        focus.main_window() == Some(wid) && facts.over.is_focused ==> outcome is Done
            && events.len() == 0,
        outcome is MouseOver ==> outcome->MouseOver_0 == wid && outcome->MouseOver_1.raises == (
        focus.main_window() != Some(wid)),
        outcome is MouseOver && facts.best_space is Some && facts.best_is_active ==> events
            =~= seq![LayoutEvent::WindowFocused(facts.best_space->0, wid)],
        before.same_but(after, focus_only()),
{
}

/// After the system woke all windows with a number are watched; commands are passed on as given.
pub proof fn commands_are_passed_on(
    before: Reactor,
    after: Reactor,
    focus: Focus,
    facts: EventFacts,
    outcome: Outcome,
    events: Seq<LayoutEvent>,
    dir: Direction,
    wid: WindowId,
    n: u64,
    pid: Pid,
)
    ensures
        before.is_after_event(focus, Event::SystemWoke, facts, after, outcome, events)
            ==> outcome is WatchWindows
            && after.notification_manager.last_sls_notification_ids@
            == before.window_manager.window_ids.order(),
        before.is_after_event(
            focus,
            Event::Command(Command::Reactor(ReactorCommand::SwitchSpace(dir))),
            facts,
            after,
            outcome,
            events,
        ) ==> outcome == Outcome::SwitchSpace(dir),
        before.is_after_event(
            focus,
            Event::Command(Command::Reactor(ReactorCommand::SaveAndExit)),
            facts,
            after,
            outcome,
            events,
        ) ==> outcome is SaveAndExit,
        before.is_after_event(
            focus,
            Event::RaiseCompleted { window_id: wid, sequence_id: n },
            facts,
            after,
            outcome,
            events,
        ) ==> outcome == Outcome::RaiseCompleted(wid, n),
        before.is_after_event(
            focus,
            Event::RaiseTimeout { sequence_id: n },
            facts,
            after,
            outcome,
            events,
        ) ==> outcome == Outcome::RaiseTimeout(n),
        before.is_after_event(
            focus,
            Event::ApplicationTerminated(pid),
            facts,
            after,
            outcome,
            events,
        ) ==> outcome == (Outcome::Terminate {
            pid,
            can_be_told: before.app_manager.apps@.dom().contains(pid),
        }) && after.app_manager == before.app_manager,
        before.is_after_event(
            focus,
            Event::ApplicationGloballyActivated(pid),
            facts,
            after,
            outcome,
            events,
        ) ==> outcome == Outcome::Activate(pid),
{
}

/// A launched application is known by what was said of it, and what was listed with it is told to
/// the layout engine: first the windows that are gone, then each screen's windows.
pub proof fn launched_applications_are_known_with_their_windows(
    before: Reactor,
    after: Reactor,
    focus: Focus,
    facts: EventFacts,
    outcome: Outcome,
    events: Seq<LayoutEvent>,
    event: Event,
    k: int,
)
    requires
        event is ApplicationLaunched,
        before.is_after_event(focus, event, facts, after, outcome, events),
    ensures
        ({
            let pid = event->ApplicationLaunched_pid;
            let d = outcome->Launched_0;
            let n = d.gone@.len() as int;
            &&& after.app_manager.apps@.dom().contains(pid)
            &&& after.app_manager.apps@[pid] == event->ApplicationLaunched_info
            &&& outcome is Launched
            &&& 0 <= k < n ==> events[k] == LayoutEvent::WindowRemoved(d.gone@[k].wid)
            &&& n <= k < n + d.updates@.len() ==> events[k] is WindowsOnScreenUpdated
                && events[k]->WindowsOnScreenUpdated_0 == d.updates@[k - n].space
                && events[k]->WindowsOnScreenUpdated_1 == pid
                && events[k]->WindowsOnScreenUpdated_2@.len() == d.updates@[k - n].windows@.len()
            &&& d.focus is Some ==> events.last() == d.focus->0
        }),
{
}

/// The main window is told to have the focus in the space it lies in, if both are known.
pub proof fn the_main_window_has_the_focus(main: Option<WindowId>, space: Option<SpaceId>)
    ensures
        main_window_events(main, space).len() == (if main is Some && space is Some {
            1int
        } else {
            0int
        }),
        main is Some && space is Some ==> main_window_events(main, space)[0]
            == LayoutEvent::WindowFocused(space->0, main->0),
{
}

/// A swap that is considered settles the drag on its target; otherwise the drag stays as it is.
pub proof fn considered_swaps_settle(
    drag: DragManager,
    wid: WindowId,
    step: SwapStep,
    facts: SwapFacts,
)
    ensures
        step is Consider ==> after_swap(drag, wid, step, facts) == drag.settled(wid, facts.target),
        step !is Consider ==> after_swap(drag, wid, step, facts) == drag,
{
}

/// An event changes only the parts of the reactor that it is about; the focus is the one that it
/// leads to.
pub proof fn events_change_only_what_they_are_about(
    before: Reactor,
    after: Reactor,
    focus: Focus,
    facts: EventFacts,
    outcome: Outcome,
    events: Seq<LayoutEvent>,
    event: Event,
)
    requires
        before.is_after_event(focus, event, facts, after, outcome, events),
    ensures
        ({
            let listed = event is ApplicationLaunched || event is WindowsDiscovered;
            let gone = event is WindowDestroyed || event is WindowServerDestroyed;
            let settles = event is SpaceChanged || event is MissionControlNativeExited;
            &&& !listed ==> after.main_window_tracker@ == focus
            &&& !(event is ApplicationLaunched || event is ApplicationThreadTerminated)
                ==> after.app_manager == before.app_manager
            &&& !(event is MenuOpened || event is MenuClosed) ==> after.menu_manager
                == before.menu_manager
            &&& !(event is SystemWoke) ==> after.notification_manager
                == before.notification_manager
            &&& !(event is Command) ==> after.workspace_switch_manager
                == before.workspace_switch_manager
            &&& !settles ==> after.refocus_manager == before.refocus_manager
                && after.pending_space_change == before.pending_space_change
            &&& !settles && !(event is WindowIsChangingScreens || event is ScreenParametersChanged)
                ==> after.space_manager == before.space_manager
            &&& !(event is WindowServerDestroyed || event is WindowServerAppeared)
                ==> after.fullscreen_tracks == before.fullscreen_tracks
            &&& !listed && !(event is MissionControlNativeEntered
                || event is MissionControlNativeExited || event is Command)
                ==> after.mission_control_manager == before.mission_control_manager
            &&& !listed && !gone && !(event is WindowFrameChanged || event is MouseUp
                || event is MissionControlNativeEntered) ==> after.drag_manager
                == before.drag_manager
            &&& !listed && !gone && !(event is WindowFrameChanged || event is WindowCreated)
                ==> after.transaction_manager == before.transaction_manager
            &&& !listed && !gone && !settles && !(event is WindowFrameChanged
                || event is WindowCreated || event is WindowServerAppeared
                || event is WindowMinimized || event is WindowDeminiaturized
                || event is WindowTitleChanged || event is ScreenParametersChanged)
                ==> after.window_manager == before.window_manager
        }),
{
}

/// A menu that opens or closes is counted, and nothing is left to do.
pub proof fn menus_are_counted(
    before: Reactor,
    after: Reactor,
    focus: Focus,
    facts: EventFacts,
    outcome: Outcome,
    events: Seq<LayoutEvent>,
)
    ensures
        before.is_after_event(focus, Event::MenuOpened, facts, after, outcome, events)
            ==> after.menu_manager.menu_state == before.menu_manager.menu_state.opened()
            && outcome is Done && events.len() == 0,
        before.is_after_event(focus, Event::MenuClosed, facts, after, outcome, events)
            ==> after.menu_manager.menu_state == before.menu_manager.menu_state.closed()
            && outcome is Done && events.len() == 0,
{
}

/// What is asked for is left to whoever does it, with what was named; the layout engine is told
/// nothing.
pub proof fn requests_are_left_to_be_done(
    before: Reactor,
    after: Reactor,
    focus: Focus,
    facts: EventFacts,
    outcome: Outcome,
    events: Seq<LayoutEvent>,
    event: Event,
)
    requires
        before.is_after_event(focus, event, facts, after, outcome, events),
    ensures
        match event {
            Event::ApplyAppRulesToExistingWindows { pid, .. } => outcome == Outcome::ApplyRules(pid)
                && events.len() == 0,
            Event::ResyncAppForWindow(wsid) => outcome == Outcome::Resync(wsid) && events.len()
                == 0,
            Event::RegisterWmSender => outcome is RegisterWmSender && events.len() == 0,
            Event::Command(Command::Metrics(_)) => outcome is Metrics && events.len() == 0,
            Event::Command(Command::Reactor(ReactorCommand::Debug)) => outcome is PrintTree
                && events.len() == 0,
            Event::Command(Command::Reactor(ReactorCommand::Serialize)) => outcome is PrintState
                && events.len() == 0,
            Event::Command(
                Command::Reactor(ReactorCommand::SetMissionControlActive(active)),
            ) => outcome is Done && events.len() == 0 && after.mission_control_manager.active()
                == active
                && after.mission_control_manager.pending_mission_control_refresh
                == before.mission_control_manager.pending_mission_control_refresh,
            Event::Command(Command::Layout(cmd)) => outcome == Outcome::LayoutCommand(
                command_plan(cmd, facts.command_space),
            ) && events.len() == 0 && after.workspace_switch_manager == switch_after(
                before.workspace_switch_manager,
                cmd,
            ),
            Event::ConfigUpdated => outcome is Config && outcome->Config_0@ == config_steps(
                facts.config.keys_changed,
                facts.config.has_stack_line,
                facts.config.has_controller,
            ) && events.len() == 0,
            _ => true,
        },
{
}

/// A space change that fits the screens and shows no fullscreen space is made: each screen shows
/// its space, no window changes screens any more, and the fullscreen windows of the spaces that
/// show are asked for and forgotten. Windows that seem gone are kept while no space shows. A change
/// that does not fit waits; one that shows a fullscreen space is dropped. Neither touches anything.
pub proof fn space_changes_leave_nothing_behind(
    before: Reactor,
    after: Reactor,
    change: Option<PendingSpaceChange>,
    fullscreen: Set<SpaceId>,
    step: PendingStep,
    ask: Seq<FullscreenTrack>,
    s: SpaceId,
)
    requires
        before.is_after_change(change, fullscreen, after, step, ask),
    ensures
        ({
            let known = before.space_manager.fullscreen_by_space@;
            let now = after.space_manager.fullscreen_by_space@;
            let fits = change is Some && change->0.spaces@.len()
                == before.space_manager.screens@.len();
            let made = fits && !shows_fullscreen(change->0.spaces@, fullscreen);
            &&& now.dom().contains(s) ==> known.dom().contains(s) && now[s] == known[s]
            &&& made ==> step == PendingStep::Apply(change->0) && after.pending_space_change is None
            &&& made ==> !after.space_manager.changing_screens@.contains(0)
                && after.space_manager.changing_screens@ == Set::<WindowServerId>::empty()
            &&& made ==> (now.dom().contains(s) <==> known.dom().contains(s)
                && !change->0.spaces@.contains(Some(s)))
            &&& made ==> ask == left_spaces(known, change->0.spaces@)
            &&& made ==> (after.refocus_manager.stale_cleanup_state is Suppressed <==> forall|i: int|
                0 <= i < change->0.spaces@.len() ==> (#[trigger] change->0.spaces@[i]) is None)
            &&& made && ask.len() == 0 ==> after.refocus_manager.refocus_state
                == before.refocus_manager.refocus_state
            &&& made && ask.len() > 0 ==> match first_screen_space(before.space_manager.screens@) {
                Some(space) => after.refocus_manager.refocus_state == RefocusState::Pending(space),
                None => after.refocus_manager.refocus_state
                    == before.refocus_manager.refocus_state,
            }
            &&& !made ==> ask.len() == 0 && after.refocus_manager == before.refocus_manager
                && after.space_manager.screens == before.space_manager.screens
                && after.space_manager.changing_screens == before.space_manager.changing_screens
                && (now.dom().contains(s) <==> known.dom().contains(s))
            &&& fits && !made ==> after.pending_space_change is None && step is Dropped
            &&& !fits ==> after.pending_space_change == change && step is Nothing
        }),
{
}

/// The server id of a window is the one it is known with.
pub proof fn windows_have_the_server_id_they_are_known_with(r: Reactor, wid: WindowId)
    ensures
        r.window_manager@.windows.dom().contains(wid) ==> r.server_id_of(wid)
            == r.window_manager@.windows[wid].window_server_id,
        !r.window_manager@.windows.dom().contains(wid) ==> r.server_id_of(wid) is None,
{
}

} // verus!
