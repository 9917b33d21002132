//! Windows that are created, destroyed, minimized, moved, resized, renamed and pointed at.

use vstd::prelude::*;

use crate::collections::{VecMap, VecSet};
use crate::model::{Frame, MouseState, SpaceId, WindowInfo, WindowServerId, WindowServerInfo};
#[allow(unused_imports)]
use crate::reactor::actor::LevelReading;
use crate::reactor::discovery::{manageable, LevelFacts};
use crate::reactor::event::Requested;
use crate::reactor::managers::{
    DragManager, DragSession, DragState, MenuManager, MenuState, WindowManager, WindowState,
    Windows,
};
use crate::reactor::transaction_manager::{
    last_txid_of, target_of, TransactionId, TransactionManager, Transactions, TxRecord,
};
use crate::text::same_text;
use crate::window_id::WindowId;

verus! {

/// Handler for window events.
pub struct WindowEventHandler;

/// The space in which a window takes part in the layout: its best space if that is active; for a
/// window that the window server does not know yet, the space that commands go to.
pub open spec fn layout_space(
    best: Option<SpaceId>,
    best_is_active: bool,
    server_id: Option<WindowServerId>,
    command_space: Option<SpaceId>,
) -> Option<SpaceId> {
    if best is Some && best_is_active {
        best
    } else if server_id is None {
        command_space
    } else {
        None
    }
}

/// The space in which a window takes part in the layout.
pub fn active_space_for_window(
    best: Option<SpaceId>,
    best_is_active: bool,
    server_id: Option<WindowServerId>,
    command_space: Option<SpaceId>,
) -> (r: Option<SpaceId>)
    ensures
        r == layout_space(best, best_is_active, server_id, command_space),
{
    if best.is_some() && best_is_active {
        return best;
    }
    if server_id.is_none() {
        return command_space;
    }
    None
}

impl Windows {
    /// What is known once the window server's view of `wsid` is dropped.
    pub open spec fn without_server_state(self, wsid: WindowServerId) -> Windows {
        Windows {
            window_ids: self.window_ids.remove(wsid),
            visible: self.visible.remove(wsid),
            observed: self.observed.remove(wsid),
            server_info: self.server_info.remove(wsid),
            server_space: self.server_space.remove(wsid),
            ..self
        }
    }

    /// What is known once `wid` is dropped.
    pub open spec fn without_window(self, wid: WindowId) -> Windows {
        let base = match self.windows[wid].window_server_id {
            Some(id) => self.without_server_state(id),
            None => self,
        };
        Windows { windows: self.windows.remove(wid), ..base }
    }

    /// What is known once `wid` lies at `frame`.
    pub open spec fn with_frame(self, wid: WindowId, frame: Frame) -> Windows {
        Windows {
            windows: self.windows.insert(
                wid,
                WindowState { frame_monotonic: frame, ..self.windows[wid] },
            ),
            ..self
        }
    }

    /// What is known once `wid` was created as `info` and `server_info` describe it.
    pub open spec fn after_creation(
        self,
        wid: WindowId,
        info: WindowInfo,
        server_info: Option<WindowServerInfo>,
        is_manageable: bool,
    ) -> Windows {
        let named = match info.sys_id {
            Some(id) => Windows {
                window_ids: self.window_ids.insert(id, wid),
                observed: self.observed.remove(id),
                ..self
            },
            None => self,
        };
        let described = match server_info {
            Some(i) => Windows {
                observed: named.observed.remove(i.id),
                server_info: named.server_info.insert(i.id, i),
                ..named
            },
            None => named,
        };
        Windows {
            windows: described.windows.insert(
                wid,
                WindowState { is_manageable, ..WindowState::of_info(info) },
            ),
            ..described
        }
    }

    /// What is known once `wid` is minimized.
    pub open spec fn after_minimizing(self, wid: WindowId) -> Windows {
        let hidden = match self.windows[wid].window_server_id {
            Some(id) => Windows { visible: self.visible.remove(id), ..self },
            None => self,
        };
        Windows {
            windows: self.windows.insert(
                wid,
                WindowState { is_minimized: true, is_manageable: false, ..self.windows[wid] },
            ),
            ..hidden
        }
    }
}

/// What a created window asks for.
#[derive(Clone, Copy, Debug, PartialEq, Eq, Structural)]
pub struct CreatedStep {
    /// The app rules are applied to it.
    pub applies_rules: bool,
    /// It is then added to the layout of this space, if it is still managed.
    pub added_to: Option<SpaceId>,
}

/// What is known once a window was created, and what follows. `space` is the one whose layout it
/// would take part in.
pub open spec fn created(
    windows: Windows,
    transactions: Transactions,
    wid: WindowId,
    window: WindowInfo,
    ws_info: Option<WindowServerInfo>,
    reading: LevelReading,
    space: Option<SpaceId>,
    knows_app: bool,
) -> (Windows, Transactions, CreatedStep) {
    let described = match ws_info {
        Some(i) => windows.server_info.insert(i.id, i),
        None => windows.server_info,
    };
    let is_manageable = manageable(
        window.is_minimized,
        window.is_standard,
        window.is_root,
        window.sys_id is Some,
        match window.sys_id {
            Some(id) if described.dom().contains(id) => Some(described[id].layer),
            _ => None,
        },
        reading.is_tiny,
        reading.facts,
    );
    let added_to = if is_manageable {
        space
    } else {
        None
    };
    (
        windows.after_creation(wid, window, ws_info, is_manageable),
        match window.sys_id {
            Some(id) => transactions.with_record(
                id,
                TxRecord {
                    txid: last_txid_of(transactions.records, id),
                    target: Some(window.frame),
                },
            ),
            None => transactions,
        },
        CreatedStep { applies_rules: added_to is Some && knows_app, added_to },
    )
}

/// What is known once a window was minimized, and whether it was not before.
pub open spec fn minimized(windows: Windows, wid: WindowId) -> (Windows, bool) {
    if windows.windows.dom().contains(wid) && !windows.windows[wid].is_minimized {
        (windows.after_minimizing(wid), true)
    } else {
        (windows, false)
    }
}

/// What is known once a window is no longer minimized, and the space whose layout it enters.
pub open spec fn deminiaturized(
    windows: Windows,
    wid: WindowId,
    reading: LevelReading,
    best: Option<SpaceId>,
    best_is_active: bool,
    command_space: Option<SpaceId>,
) -> (Windows, Option<SpaceId>) {
    let state = windows.windows[wid];
    let is_manageable = manageable(
        false,
        state.is_ax_standard,
        state.is_ax_root,
        state.window_server_id is Some,
        match state.window_server_id {
            Some(id) if windows.server_info.dom().contains(id) => Some(
                windows.server_info[id].layer,
            ),
            _ => None,
        },
        reading.is_tiny,
        reading.facts,
    );
    if windows.windows.dom().contains(wid) && state.is_minimized {
        (
            Windows {
                windows: windows.windows.insert(
                    wid,
                    WindowState { is_minimized: false, is_manageable, ..state },
                ),
                ..windows
            },
            if is_manageable {
                layout_space(best, best_is_active, state.window_server_id, command_space)
            } else {
                None
            },
        )
    } else {
        (windows, None)
    }
}

/// What is known once a window has this title, and the old title if that was another.
pub open spec fn retitled(windows: Windows, wid: WindowId, title: String) -> (
    Windows,
    Option<String>,
) {
    if windows.windows.dom().contains(wid) && windows.windows[wid].title@ != title@ {
        (
            Windows {
                windows: windows.windows.insert(
                    wid,
                    WindowState { title, ..windows.windows[wid] },
                ),
                ..windows
            },
            Some(windows.windows[wid].title),
        )
    } else {
        (windows, None)
    }
}

/// What a frame change amounts to.
#[derive(Clone, Copy, Debug, PartialEq, Eq, Structural)]
pub enum FrameStep {
    /// Nothing follows.
    Ignored,
    /// The dragged window was resized; the layout engine is told if this is set.
    DragResized(bool),
    /// The dragged window was moved; it may be swapped with another.
    DragMoved,
    /// The window moved from one space to another on its own: it leaves the layout of the one and
    /// enters that of the other, if there is one and it is active.
    ChangedSpace { to: Option<SpaceId>, enters_layout: bool },
    /// The window was resized; the layout engine is told.
    Resized,
}

/// What is known of a frame change beyond the report itself.
#[derive(Clone, Copy, Debug, PartialEq, Eq, Structural)]
pub struct FrameFacts {
    /// The reported frame agrees with the frame that was asked for.
    pub matches_target: bool,
    /// The reported frame agrees with the known frame.
    pub matches_current: bool,
    /// The reported size agrees with the known size.
    pub same_size: bool,
    /// The spaces of the known and the reported frame, and whether they are active.
    pub old_space: Option<SpaceId>,
    pub new_space: Option<SpaceId>,
    pub old_active: bool,
    pub new_active: bool,
    /// The space that a drag which starts at the known frame starts in.
    pub drag_origin: Option<SpaceId>,
    /// The space that a drag resolves to at the reported frame.
    pub drag_space: Option<SpaceId>,
    /// The reported frame takes part in the layout of some space.
    pub in_layout: bool,
    /// The space that the window was recently sent to.
    pub sent_to: Option<SpaceId>,
    /// The space whose layout the window is in.
    pub assigned_space: Option<SpaceId>,
    /// The window is tiled in a scrolling layout of its old space.
    pub scrolls: bool,
    /// In milliseconds.
    pub now: u64,
}

/// The part of the reactor's state that a frame change touches.
#[verifier::ext_equal]
pub struct FrameState {
    pub windows: Windows,
    pub transactions: Transactions,
    pub drag: DragManager,
}

/// A frame report: the window, the frame, the transaction that the application saw last, whether
/// this program asked for it, and the mouse button.
#[derive(Clone, Copy, Debug, PartialEq, Eq, Structural)]
pub struct FrameReport {
    pub wid: WindowId,
    pub frame: Frame,
    pub last_seen: Option<TransactionId>,
    pub requested: Requested,
    pub mouse: Option<MouseState>,
}

impl FrameState {
    /// Whether a report that `wid` was destroyed is followed: the window is known, and where the
    /// report may be wrong, away from user spaces and in Mission Control, the window server no
    /// longer has the window.
    pub open spec fn destroys(
        self,
        wid: WindowId,
        mission_control: bool,
        facts: DestroyFacts,
    ) -> bool {
        self.windows.windows.dom().contains(wid) && !((facts.no_user_space || mission_control)
            && self.server_id(wid) is Some && facts.alive@.contains(self.server_id(wid)->0))
    }

    /// The state once `wid` is gone.
    pub open spec fn without_window(self, wid: WindowId) -> FrameState {
        FrameState {
            windows: self.windows.without_window(wid),
            transactions: match self.server_id(wid) {
                Some(id) => Transactions {
                    records: self.transactions.records.remove(id),
                    ..self.transactions
                },
                None => self.transactions,
            },
            drag: self.drag.without(wid),
        }
    }

    /// The state after a report that `wid` was destroyed.
    pub open spec fn after_destruction(
        self,
        wid: WindowId,
        mission_control: bool,
        facts: DestroyFacts,
    ) -> FrameState {
        if self.destroys(wid, mission_control, facts) {
            self.without_window(wid)
        } else {
            self
        }
    }

    /// The state after a frame report and a look at the mouse button, and what follows from both.
    pub open spec fn reported(self, r: FrameReport, f: FrameFacts, mission_control: bool) -> (
        FrameState,
        FrameStep,
        MouseUpStep,
    ) {
        let (next, step) = self.after(r, f, mission_control);
        let (drag, up) = next.drag.looked_at(mission_control, r.mouse);
        (FrameState { drag, ..next }, step, up)
    }

    pub open spec fn server_id(self, wid: WindowId) -> Option<WindowServerId> {
        self.windows.windows[wid].window_server_id
    }

    /// Whether a frame that was asked for is still pending.
    pub open spec fn pending(self, wid: WindowId) -> bool {
        self.server_id(wid) is Some && target_of(
            self.transactions.records,
            self.server_id(wid)->0,
        ) is Some
    }

    pub open spec fn last_sent(self, wid: WindowId) -> TransactionId {
        match self.server_id(wid) {
            Some(id) => last_txid_of(self.transactions.records, id),
            None => TransactionId(0),
        }
    }

    /// Whether the report answers the last request.
    pub open spec fn answers_request(self, r: FrameReport) -> bool {
        self.pending(r.wid) && r.last_seen == Some(self.last_sent(r.wid))
    }

    /// Whether the report comes before the last request took effect.
    pub open spec fn outdated(self, r: FrameReport) -> bool {
        self.pending(r.wid) && r.last_seen is Some && r.last_seen != Some(self.last_sent(r.wid))
    }

    pub open spec fn with_cleared_target(self, wid: WindowId, now: u64) -> FrameState {
        match self.server_id(wid) {
            Some(id) => FrameState { transactions: self.transactions.cleared(id, now), ..self },
            None => self,
        }
    }

    pub open spec fn with_frame(self, r: FrameReport, f: FrameFacts) -> FrameState {
        if f.matches_current {
            self
        } else {
            FrameState { windows: self.windows.with_frame(r.wid, r.frame), ..self }
        }
    }

    /// The drag of `r.wid`, which starts now unless it is under way.
    pub open spec fn dragged(self, r: FrameReport, f: FrameFacts, known: Frame) -> DragManager {
        let session = match self.drag.session() {
            Some(session) if session.window == r.wid => session,
            _ => DragSession {
                window: r.wid,
                last_frame: known,
                origin_space: f.drag_origin,
                settled_space: f.drag_origin,
                layout_dirty: false,
            },
        };
        DragManager {
            drag_state: DragState::Active {
                session: DragSession {
                    last_frame: r.frame,
                    settled_space: f.drag_space,
                    layout_dirty: session.layout_dirty || session.settled_space != f.drag_space,
                    ..session
                },
            },
            skip_layout_for_window: Some(r.wid),
        }
    }

    /// The state once the user, not this program, moved the window.
    pub open spec fn after_user_move(self, r: FrameReport, f: FrameFacts) -> (FrameState, FrameStep) {
        let dragging = r.mouse == Some(MouseState::Down) || self.drag.in_drag();
        let known = self.windows.windows[r.wid].frame_monotonic;
        let moved = self.with_frame(r, f);
        if (!f.old_active && !f.new_active) || f.matches_current {
            (self, FrameStep::Ignored)
        } else if dragging {
            (
                FrameState { drag: self.dragged(r, f, known), ..moved },
                if f.same_size {
                    FrameStep::DragMoved
                } else {
                    FrameStep::DragResized(f.in_layout)
                },
            )
        } else {
            let placed = FrameState {
                drag: DragManager { skip_layout_for_window: Some(r.wid), ..self.drag },
                ..moved
            };
            if f.old_space != f.new_space {
                if f.sent_to is Some && f.assigned_space == f.sent_to && f.new_space != f.sent_to {
                    (placed, FrameStep::Ignored)
                } else if f.old_space is Some && f.scrolls {
                    (placed, FrameStep::Ignored)
                } else {
                    (
                        placed.with_server_space(r.wid, f.new_space),
                        FrameStep::ChangedSpace {
                            to: f.new_space,
                            enters_layout: f.new_space is Some && f.new_active,
                        },
                    )
                }
            } else if !f.same_size && f.old_space is Some && f.old_active {
                (placed, FrameStep::Resized)
            } else {
                (placed, FrameStep::Ignored)
            }
        }
    }

    pub open spec fn with_server_space(self, wid: WindowId, space: Option<SpaceId>) -> FrameState {
        match self.server_id(wid) {
            Some(id) => FrameState {
                windows: match space {
                    Some(s) => Windows {
                        server_space: self.windows.server_space.insert(id, s),
                        visible: self.windows.visible.insert(id),
                        ..self.windows
                    },
                    None => Windows {
                        server_space: self.windows.server_space.remove(id),
                        ..self.windows
                    },
                },
                ..self
            },
            None => self,
        }
    }

    /// The state after a frame report, and what follows from it.
    ///
    /// A report that answers a request settles it when the frame is the one asked for, and is
    /// otherwise a step on the way. One that is older than the last request says nothing. While
    /// the mouse button is down the user is in charge, and a pending request is void.
    pub open spec fn after(self, r: FrameReport, f: FrameFacts, mission_control: bool) -> (
        FrameState,
        FrameStep,
    ) {
        if !self.windows.windows.dom().contains(r.wid) || mission_control {
            (self, FrameStep::Ignored)
        } else if self.answers_request(r) && r.mouse != Some(MouseState::Down) {
            if f.matches_target {
                (
                    self.with_frame(r, f).with_cleared_target(r.wid, f.now),
                    FrameStep::Ignored,
                )
            } else {
                (self, FrameStep::Ignored)
            }
        } else if self.outdated(r) {
            (self, FrameStep::Ignored)
        } else {
            let base = if self.answers_request(r) {
                self.with_cleared_target(r.wid, f.now)
            } else {
                self
            };
            if r.requested.0 {
                (
                    base.with_frame(r, f).with_cleared_target(r.wid, f.now),
                    FrameStep::Ignored,
                )
            } else {
                base.after_user_move(r, f)
            }
        }
    }
}

/// What follows from a mouse button that was found released.
#[derive(Clone, Copy, Debug, PartialEq, Eq, Structural)]
pub enum MouseUpStep {
    Nothing,
    /// Mission Control took over: forget about the drag and start swap tracking over.
    Abandoned,
    /// Handle the drag as if the release had been reported.
    Finish,
}

/// What is known when a window is reported destroyed.
pub struct DestroyFacts {
    /// No user space shows.
    pub no_user_space: bool,
    /// The windows that the window server still has, as ones of the same application.
    pub alive: VecSet<WindowServerId>,
    /// The window that a dragged one was last over.
    pub last_target: Option<WindowId>,
}

/// What follows from a window being destroyed.
#[derive(Clone, Copy, Debug, PartialEq, Eq, Structural)]
pub struct DestroyedStep {
    /// Whether the window was dropped, so that it leaves the layout.
    pub removed: bool,
    /// Whether swap tracking starts over.
    pub resets_swap: bool,
}

/// What follows from the pointer resting on a window.
#[derive(Clone, Copy, Debug, PartialEq, Eq, Structural)]
pub struct MouseOverStep {
    pub raises: bool,
    pub focuses_in: Option<SpaceId>,
}

impl DragManager {
    /// The window that is dragged, or was and waits to be swapped.
    pub open spec fn spec_dragged(self) -> Option<WindowId> {
        match self.drag_state {
            DragState::Inactive => None,
            DragState::Active { session } => Some(session.window),
            DragState::PendingSwap { dragged, .. } => Some(dragged),
        }
    }

    pub fn dragged(&self) -> (r: Option<WindowId>)
        ensures
            r == self.spec_dragged(),
    {
        match self.drag_state {
            DragState::Inactive => None,
            DragState::Active { session } => Some(session.window),
            DragState::PendingSwap { dragged, .. } => Some(dragged),
        }
    }

    /// The drag once the mouse button was looked at, and what follows. In Mission Control the drag
    /// is forgotten; one whose button is up is to be finished.
    pub open spec fn looked_at(self, mission_control: bool, mouse: Option<MouseState>) -> (
        DragManager,
        MouseUpStep,
    ) {
        if mission_control {
            (
                DragManager { drag_state: DragState::Inactive, skip_layout_for_window: None },
                MouseUpStep::Abandoned,
            )
        } else if mouse == Some(MouseState::Up) && (self.drag_state != DragState::Inactive
            || self.skip_layout_for_window is Some) {
            (self, MouseUpStep::Finish)
        } else {
            (self, MouseUpStep::Nothing)
        }
    }

    /// The drag once `wid` is gone: it ends if the window takes part in it.
    pub open spec fn without(self, wid: WindowId) -> DragManager {
        DragManager {
            drag_state: match self.drag_state {
                DragState::Active { session } if session.window == wid => DragState::Inactive,
                DragState::PendingSwap { dragged, target } if dragged == wid || target == wid =>
                    DragState::Inactive,
                other => other,
            },
            skip_layout_for_window: if self.skip_layout_for_window == Some(wid) {
                None
            } else {
                self.skip_layout_for_window
            },
        }
    }

    /// A window is gone; `last_target` is the window that the dragged one was last over. The
    /// result says whether swap tracking starts over: it does where the window was one of the two.
    pub fn window_gone(&mut self, wid: WindowId, last_target: Option<WindowId>) -> (r: bool)
        ensures
            *final(self) == old(self).without(wid),
            r == (old(self).spec_dragged() == Some(wid) || last_target == Some(wid)),
    {
        let r: bool = self.dragged() == Some(wid) || last_target == Some(wid);
        match self.drag_state {
            DragState::Inactive => {},
            DragState::Active { session } => {
                if session.window == wid {
                    self.drag_state = DragState::Inactive;
                }
            },
            DragState::PendingSwap { dragged, target } => {
                if dragged == wid || target == wid {
                    self.drag_state = DragState::Inactive;
                }
            },
        }
        if self.skip_layout_for_window == Some(wid) {
            self.skip_layout_for_window = None;
        }
        r
    }
}

impl WindowManager {
    fn forget_server_state(&mut self, wsid: WindowServerId)
        ensures
            final(self)@ == old(self)@.without_server_state(wsid),
    {
        let _ = self.window_ids.remove(&wsid);
        let _ = self.visible_windows.remove(&wsid);
        let _ = self.observed_window_server_ids.remove(&wsid);
        let _ = self.window_server_info.remove(&wsid);
        let _ = self.window_server_space.remove(&wsid);
    }

    fn set_frame(&mut self, wid: WindowId, frame: Frame)
        requires
            old(self)@.windows.dom().contains(wid),
        ensures
            final(self)@ == old(self)@.with_frame(wid, frame),
    {
        let ghost before = self@;
        match self.windows.remove(&wid) {
            Some(state) => {
                let mut state = state;
                state.frame_monotonic = frame;
                let _ = self.windows.insert(wid, state);
                assert(self@.windows =~= before.with_frame(wid, frame).windows);
            },
            None => {},
        }
    }

    fn set_server_space(&mut self, wsid: WindowServerId, space: Option<SpaceId>)
        ensures
            final(self)@ == (match space {
                Some(s) => Windows {
                    server_space: old(self)@.server_space.insert(wsid, s),
                    visible: old(self)@.visible.insert(wsid),
                    ..old(self)@
                },
                None => Windows {
                    server_space: old(self)@.server_space.remove(wsid),
                    ..old(self)@
                },
            }),
    {
        match space {
            Some(s) => {
                let _ = self.window_server_space.insert(wsid, s);
                let _ = self.visible_windows.insert(wsid);
            },
            None => {
                let _ = self.window_server_space.remove(&wsid);
            },
        }
    }
}

impl WindowEventHandler {
    /// A window was created. `is_tiny` and `facts` are what the window server says of it,
    /// `best`, `best_is_active` and `command_space` locate it, and `knows_app` says whether its
    /// application is known.
    pub fn handle_window_created(
        windows: &mut WindowManager,
        transactions: &mut TransactionManager,
        wid: WindowId,
        window: WindowInfo,
        ws_info: Option<WindowServerInfo>,
        is_tiny: bool,
        facts: LevelFacts,
        best: Option<SpaceId>,
        best_is_active: bool,
        command_space: Option<SpaceId>,
        knows_app: bool,
    ) -> (r: CreatedStep)
        ensures
            (final(windows)@, final(transactions)@, r) == created(
                old(windows)@,
                old(transactions)@,
                wid,
                window,
                ws_info,
                (LevelReading { is_tiny, facts }),
                layout_space(best, best_is_active, window.sys_id, command_space),
                knows_app,
            ),
    {
        let sys_id = window.sys_id;
        match sys_id {
            Some(id) => {
                let _ = windows.window_ids.insert(id, wid);
                let _ = windows.observed_window_server_ids.remove(&id);
            },
            None => {},
        }
        match ws_info {
            Some(info) => {
                let _ = windows.observed_window_server_ids.remove(&info.id);
                let _ = windows.window_server_info.insert(info.id, info);
            },
            None => {},
        }
        let is_manageable: bool = windows.compute_manageability_from_parts(
            sys_id,
            window.is_minimized,
            window.is_standard,
            window.is_root,
            is_tiny,
            facts,
        );
        match sys_id {
            Some(id) => {
                let txid = transactions.get_last_sent_txid(id);
                transactions.store_txid(id, txid, window.frame);
            },
            None => {},
        }
        let mut state = WindowState::from_info(window);
        state.is_manageable = is_manageable;
        let _ = windows.windows.insert(wid, state);
        let added_to = if is_manageable {
            active_space_for_window(best, best_is_active, sys_id, command_space)
        } else {
            None
        };
        CreatedStep { applies_rules: added_to.is_some() && knows_app, added_to }
    }

    /// A window was reported destroyed. Away from user spaces and in Mission Control the report
    /// may be wrong: the window server is then asked.
    pub fn handle_window_destroyed(
        windows: &mut WindowManager,
        transactions: &mut TransactionManager,
        drag: &mut DragManager,
        wid: WindowId,
        mission_control: bool,
        facts: &DestroyFacts,
    ) -> (r: DestroyedStep)
        ensures
            ({
                let before = FrameState {
                    windows: old(windows)@,
                    transactions: old(transactions)@,
                    drag: *old(drag),
                };
                let after = FrameState {
                    windows: final(windows)@,
                    transactions: final(transactions)@,
                    drag: *final(drag),
                };
                &&& r.removed == before.destroys(wid, mission_control, *facts)
                &&& r.resets_swap == (r.removed && (old(drag).spec_dragged() == Some(wid)
                    || facts.last_target == Some(wid)))
                &&& after == before.after_destruction(wid, mission_control, *facts)
            }),
    {
        let id: Option<WindowServerId> = match windows.windows.get(&wid) {
            Some(window) => window.window_server_id,
            None => {
                return DestroyedStep { removed: false, resets_swap: false };
            },
        };
        if facts.no_user_space || mission_control {
            match id {
                Some(id) => {
                    if facts.alive.contains(&id) {
                        return DestroyedStep { removed: false, resets_swap: false };
                    }
                },
                None => {},
            }
        }
        match id {
            Some(id) => {
                transactions.remove_for_window(id);
                windows.forget_server_state(id);
            },
            None => {},
        }
        let _ = windows.windows.remove(&wid);
        let resets_swap: bool = drag.window_gone(wid, facts.last_target);
        DestroyedStep { removed: true, resets_swap }
    }

    /// A window was minimized; the result says whether it leaves the layout.
    pub fn handle_window_minimized(windows: &mut WindowManager, wid: WindowId) -> (r: bool)
        ensures
            (final(windows)@, r) == minimized(old(windows)@, wid),
    {
        let ghost before = windows@;
        let id: Option<WindowServerId> = match windows.windows.get(&wid) {
            Some(window) => {
                if window.is_minimized {
                    return false;
                }
                window.window_server_id
            },
            None => {
                return false;
            },
        };
        match windows.windows.remove(&wid) {
            Some(state) => {
                let mut state = state;
                state.is_minimized = true;
                state.is_manageable = false;
                let _ = windows.windows.insert(wid, state);
            },
            None => {},
        }
        match id {
            Some(id) => {
                let _ = windows.visible_windows.remove(&id);
            },
            None => {},
        }
        assert(windows@ =~= before.after_minimizing(wid));
        true
    }

    /// A window was restored; the result is the space whose layout it enters.
    pub fn handle_window_deminiaturized(
        windows: &mut WindowManager,
        wid: WindowId,
        is_tiny: bool,
        facts: LevelFacts,
        best: Option<SpaceId>,
        best_is_active: bool,
        command_space: Option<SpaceId>,
    ) -> (r: Option<SpaceId>)
        ensures
            (final(windows)@, r) == deminiaturized(
                old(windows)@,
                wid,
                (LevelReading { is_tiny, facts }),
                best,
                best_is_active,
                command_space,
            ),
    {
        let ghost before = windows@;
        let (id, standard, root): (Option<WindowServerId>, bool, bool) = match windows.windows.get(
            &wid,
        ) {
            Some(window) => {
                if !window.is_minimized {
                    return None;
                }
                (window.window_server_id, window.is_ax_standard, window.is_ax_root)
            },
            None => {
                return None;
            },
        };
        let is_manageable: bool = windows.compute_manageability_from_parts(
            id,
            false,
            standard,
            root,
            is_tiny,
            facts,
        );
        match windows.windows.remove(&wid) {
            Some(state) => {
                let mut state = state;
                state.is_minimized = false;
                state.is_manageable = is_manageable;
                let _ = windows.windows.insert(wid, state);
                assert(windows@.windows =~= before.windows.insert(wid, state));
            },
            None => {},
        }
        if is_manageable {
            active_space_for_window(best, best_is_active, id, command_space)
        } else {
            None
        }
    }

    /// The frame of a window changed. The button that the report comes with, or that was found, is
    /// looked at last: a drag whose end was missed ends here.
    pub fn handle_window_frame_changed(
        windows: &mut WindowManager,
        transactions: &mut TransactionManager,
        drag: &mut DragManager,
        report: FrameReport,
        facts: FrameFacts,
        mission_control: bool,
    ) -> (r: (FrameStep, MouseUpStep))
        ensures
            ({
                let before = FrameState {
                    windows: old(windows)@,
                    transactions: old(transactions)@,
                    drag: *old(drag),
                };
                let after = FrameState {
                    windows: final(windows)@,
                    transactions: final(transactions)@,
                    drag: *final(drag),
                };
                (after, r.0, r.1) == before.reported(report, facts, mission_control)
            }),
    {
        let step = Self::take_frame_report(
            windows,
            transactions,
            drag,
            report,
            facts,
            mission_control,
        );
        let up = handle_mouse_up_if_needed(drag, mission_control, report.mouse);
        (step, up)
    }

    /// Takes over what a frame report says.
    fn take_frame_report(
        windows: &mut WindowManager,
        transactions: &mut TransactionManager,
        drag: &mut DragManager,
        report: FrameReport,
        facts: FrameFacts,
        mission_control: bool,
    ) -> (r: FrameStep)
        ensures
            ({
                let before = FrameState {
                    windows: old(windows)@,
                    transactions: old(transactions)@,
                    drag: *old(drag),
                };
                let after = FrameState {
                    windows: final(windows)@,
                    transactions: final(transactions)@,
                    drag: *final(drag),
                };
                (after, r) == before.after(report, facts, mission_control)
            }),
    {
        let ghost before = FrameState {
            windows: windows@,
            transactions: transactions@,
            drag: *drag,
        };
        let wid = report.wid;
        let (server_id, old_frame): (Option<WindowServerId>, Frame) = match windows.windows.get(
            &wid,
        ) {
            Some(window) => (window.window_server_id, window.frame_monotonic),
            None => {
                return FrameStep::Ignored;
            },
        };
        if mission_control {
            return FrameStep::Ignored;
        }
        let (pending, last_sent): (bool, TransactionId) = match server_id {
            Some(id) => (
                transactions.get_target_frame(id).is_some(),
                transactions.get_last_sent_txid(id),
            ),
            None => (false, TransactionId(0)),
        };
        let answers: bool = pending && report.last_seen == Some(last_sent);
        if answers && report.mouse != Some(MouseState::Down) {
            if facts.matches_target {
                if !facts.matches_current {
                    windows.set_frame(wid, report.frame);
                }
                match server_id {
                    Some(id) => {
                        transactions.clear_target_for_window(id, facts.now);
                    },
                    None => {},
                }
            }
            return FrameStep::Ignored;
        }
        if pending && report.last_seen.is_some() && report.last_seen != Some(last_sent) {
            return FrameStep::Ignored;
        }
        if answers {
            match server_id {
                Some(id) => {
                    transactions.clear_target_for_window(id, facts.now);
                },
                None => {},
            }
        }
        if report.requested.0 {
            if !facts.matches_current {
                windows.set_frame(wid, report.frame);
            }
            match server_id {
                Some(id) => {
                    transactions.clear_target_for_window(id, facts.now);
                },
                None => {},
            }
            return FrameStep::Ignored;
        }
        if (!facts.old_active && !facts.new_active) || facts.matches_current {
            return FrameStep::Ignored;
        }
        let dragging: bool = report.mouse == Some(MouseState::Down) || drag.is_in_drag();
        windows.set_frame(wid, report.frame);
        if dragging {
            drag.ensure_active_drag(wid, old_frame, facts.drag_origin);
            drag.update_active_drag(wid, report.frame, facts.drag_space);
            if facts.same_size {
                return FrameStep::DragMoved;
            } else {
                return FrameStep::DragResized(facts.in_layout);
            }
        }
        drag.skip_layout_for_window = Some(wid);
        if facts.old_space != facts.new_space {
            if facts.sent_to.is_some() && facts.assigned_space == facts.sent_to && facts.new_space
                != facts.sent_to {
                return FrameStep::Ignored;
            }
            if facts.old_space.is_some() && facts.scrolls {
                return FrameStep::Ignored;
            }
            match server_id {
                Some(id) => {
                    windows.set_server_space(id, facts.new_space);
                },
                None => {},
            }
            return FrameStep::ChangedSpace {
                to: facts.new_space,
                enters_layout: facts.new_space.is_some() && facts.new_active,
            };
        }
        if !facts.same_size && facts.old_space.is_some() && facts.old_active {
            return FrameStep::Resized;
        }
        FrameStep::Ignored
    }

    /// A window got another title; the result is the old one, if the title is indeed another.
    pub fn handle_window_title_changed(
        windows: &mut WindowManager,
        wid: WindowId,
        new_title: String,
    ) -> (r: Option<String>)
        ensures
            (final(windows)@, r) == retitled(old(windows)@, wid, new_title),
    {
        let ghost before = windows@;
        match windows.windows.get(&wid) {
            Some(window) => {
                if same_text(window.title.as_str(), new_title.as_str()) {
                    return None;
                }
            },
            None => {
                return None;
            },
        }
        match windows.windows.remove(&wid) {
            Some(state) => {
                let mut state = state;
                let mut title = new_title;
                std::mem::swap(&mut state.title, &mut title);
                let _ = windows.windows.insert(wid, state);
                assert(windows@.windows =~= before.windows.insert(wid, state));
                Some(title)
            },
            None => None,
        }
    }

    /// The pointer rests on `wid`. `should_sync` says whether the window may be raised so,
    /// `is_main` whether it is the main window and `is_focused` whether the layout engine has it
    /// focused; `space` is the space whose layout it takes part in.
    pub fn handle_mouse_moved_over_window(
        should_sync: bool,
        is_main: bool,
        is_focused: bool,
        space: Option<SpaceId>,
    ) -> (r: Option<MouseOverStep>)
        ensures
            r == (if !should_sync || (is_main && is_focused) {
                None
            } else {
                Some(MouseOverStep { raises: !is_main, focuses_in: space })
            }),
    {
        if !should_sync || (is_main && is_focused) {
            return None;
        }
        Some(MouseOverStep { raises: !is_main, focuses_in: space })
    }
}

/// The mouse button, as found after a frame change.
pub fn handle_mouse_up_if_needed(
    drag: &mut DragManager,
    mission_control: bool,
    mouse: Option<MouseState>,
) -> (r: MouseUpStep)
    ensures
        (*final(drag), r) == old(drag).looked_at(mission_control, mouse),
{
    if mission_control {
        drag.drag_state = DragState::Inactive;
        drag.skip_layout_for_window = None;
        return MouseUpStep::Abandoned;
    }
    if mouse == Some(MouseState::Up) && (drag.drag_state != DragState::Inactive
        || drag.skip_layout_for_window.is_some()) {
        MouseUpStep::Finish
    } else {
        MouseUpStep::Nothing
    }
}

/// Whether the window at `order[i]` hides part of the layout behind the pointer: a known window
/// that lies wholly inside the candidate.
pub open spec fn would_be_covered(
    windows: Windows,
    order: Seq<WindowServerId>,
    inside: Map<WindowId, bool>,
    i: int,
) -> bool {
    &&& windows.window_ids.dom().contains(order[i])
    &&& windows.windows.dom().contains(windows.window_ids[order[i]])
    &&& inside.dom().contains(windows.window_ids[order[i]])
    &&& inside[windows.window_ids[order[i]]]
}

/// Whether raising `wid` on mouse over is harmless: no menu is open, it takes part in the active
/// workspace of its space, and no window above it lies wholly inside it, which would disappear
/// behind it.
pub open spec fn raises_on_mouse_over(
    windows: Windows,
    wid: WindowId,
    menu: MenuState,
    space: Option<SpaceId>,
    in_active_workspace: bool,
    order: Seq<WindowServerId>,
    inside: Map<WindowId, bool>,
) -> bool {
    &&& windows.windows.dom().contains(wid)
    &&& menu == MenuState::Closed
    &&& space is Some
    &&& in_active_workspace
    &&& windows.windows[wid].window_server_id is Some ==> forall|i: int|
        0 <= i < order.len() && !order.take(i + 1).contains(
            windows.windows[wid].window_server_id->0,
        ) ==> !#[trigger] would_be_covered(windows, order, inside, i)
}

/// Whether the window under the pointer may be raised. `order` lists the windows of its space from
/// front to back; `inside` says of each window whether it lies wholly inside this one.
pub fn should_raise_on_mouse_over(
    windows: &WindowManager,
    wid: WindowId,
    menu: &MenuManager,
    space: Option<SpaceId>,
    in_active_workspace: bool,
    order: &Vec<WindowServerId>,
    inside: &VecMap<WindowId, bool>,
) -> (r: bool)
    ensures
        r == raises_on_mouse_over(
            windows@,
            wid,
            menu.menu_state,
            space,
            in_active_workspace,
            order@,
            inside@,
        ),
{
    let server_id: Option<WindowServerId> = match windows.windows.get(&wid) {
        Some(window) => window.window_server_id,
        None => {
            return false;
        },
    };
    if menu.menu_state != MenuState::Closed || space.is_none() || !in_active_workspace {
        return false;
    }
    let candidate: WindowServerId = match server_id {
        Some(id) => id,
        None => {
            return true;
        },
    };
    let mut i: usize = 0;
    while i < order.len()
        invariant
            i <= order@.len(),
            windows@.windows.dom().contains(wid),
            windows@.windows[wid].window_server_id == Some(candidate),
            menu.menu_state == MenuState::Closed,
            space is Some,
            in_active_workspace,
            !order@.take(i as int).contains(candidate),
            forall|j: int| 0 <= j < i ==> !#[trigger] would_be_covered(windows@, order@, inside@, j),
        decreases order@.len() - i,
    {
        let above: WindowServerId = order[i];
        proof {
            assert(order@.take(i + 1) =~= order@.take(i as int).push(above));
            crate::collections::lemma_push_contains(order@.take(i as int), above);
        }
        if above == candidate {
            proof {
                assert forall|j: int|
                    0 <= j < order@.len() && !order@.take(j + 1).contains(candidate) implies !#[trigger] would_be_covered(
                    windows@,
                    order@,
                    inside@,
                    j,
                ) by {
                    if j >= i {
                        assert(order@.take(j + 1)[i as int] == candidate);
                    }
                }
            }
            return true;
        }
        let covered: bool = match windows.window_ids.get(&above) {
            Some(other) => {
                if windows.windows.contains_key(other) {
                    match inside.get(other) {
                        Some(b) => *b,
                        None => false,
                    }
                } else {
                    false
                }
            },
            None => false,
        };
        if covered {
            assert(would_be_covered(windows@, order@, inside@, i as int));
            return false;
        }
        i = i + 1;
    }
    true
}

/// A report that is older than the last request changes no window and no transaction, and outside
/// of Mission Control no drag.
pub proof fn outdated_reports_change_nothing(
    before: FrameState,
    r: FrameReport,
    f: FrameFacts,
    mission_control: bool,
)
    requires
        before.outdated(r),
    ensures
        before.reported(r, f, mission_control).0.windows == before.windows,
        before.reported(r, f, mission_control).0.transactions == before.transactions,
        before.reported(r, f, mission_control).1 == FrameStep::Ignored,
        !mission_control ==> before.reported(r, f, mission_control).0.drag == before.drag,
{
}

/// In Mission Control no frame report changes a window or a transaction, and every one drops the
/// drag and the window that the next layout leaves alone.
pub proof fn mission_control_freezes_frames(before: FrameState, r: FrameReport, f: FrameFacts)
    ensures
        before.reported(r, f, true) == (
            FrameState {
                drag: DragManager {
                    drag_state: DragState::Inactive,
                    skip_layout_for_window: None,
                },
                ..before
            },
            FrameStep::Ignored,
            MouseUpStep::Abandoned,
        ),
{
}

/// A report with the button up never leaves a drag behind unnoticed: outside of Mission Control it
/// is to be finished.
pub proof fn a_released_button_finishes_the_drag(before: FrameState, r: FrameReport, f: FrameFacts)
    requires
        r.mouse == Some(MouseState::Up),
    ensures
        before.reported(r, f, false).0.drag.drag_state != DragState::Inactive ==> before.reported(
            r,
            f,
            false,
        ).2 == MouseUpStep::Finish,
        before.reported(r, f, false).0.drag.skip_layout_for_window is Some ==> before.reported(
            r,
            f,
            false,
        ).2 == MouseUpStep::Finish,
{
}

/// A frame only follows the answer to a request when it is the frame that was asked for: the
/// known frame is monotonic with respect to writes.
pub proof fn intermediate_frames_are_skipped(
    before: FrameState,
    r: FrameReport,
    f: FrameFacts,
    mission_control: bool,
)
    requires
        before.answers_request(r),
        r.mouse != Some(MouseState::Down),
        !f.matches_target,
    ensures
        before.reported(r, f, mission_control).0.windows == before.windows,
        before.reported(r, f, mission_control).0.transactions == before.transactions,
        before.reported(r, f, mission_control).1 == FrameStep::Ignored,
{
}

/// A report that this program asked for never moves a window between spaces, starts a drag or
/// changes the layout.
pub proof fn requested_frames_have_no_consequences(
    before: FrameState,
    r: FrameReport,
    f: FrameFacts,
    mission_control: bool,
)
    requires
        r.requested.0,
    ensures
        before.reported(r, f, mission_control).1 == FrameStep::Ignored,
        !mission_control ==> before.reported(r, f, mission_control).0.drag == before.drag,
{
}

/// A tiled window of a scrolling layout keeps its space however far it is scrolled.
pub proof fn scrolling_windows_keep_their_space(
    before: FrameState,
    r: FrameReport,
    f: FrameFacts,
    mission_control: bool,
)
    requires
        f.scrolls,
        f.old_space is Some,
    ensures
        before.reported(r, f, mission_control).1 !is ChangedSpace,
{
}

/// While a window is dragged it stays in its layout; a drag only resolves to a space.
pub proof fn drags_do_not_change_spaces(
    before: FrameState,
    r: FrameReport,
    f: FrameFacts,
    mission_control: bool,
)
    requires
        r.mouse == Some(MouseState::Down) || before.drag.in_drag(),
    ensures
        before.reported(r, f, mission_control).1 !is ChangedSpace,
        before.reported(r, f, mission_control).1 !is Resized,
{
}

/// A frame report speaks of one window: all others keep their state.
pub proof fn frame_reports_leave_other_windows_alone(
    before: FrameState,
    r: FrameReport,
    f: FrameFacts,
    mission_control: bool,
    other: WindowId,
)
    requires
        other != r.wid,
        before.windows.windows.dom().contains(other),
    ensures
        before.reported(r, f, mission_control).0.windows.windows.dom().contains(other),
        before.reported(r, f, mission_control).0.windows.windows[other]
            == before.windows.windows[other],
{
}

/// A destroyed window that was dragged ends the drag.
pub proof fn destroying_the_dragged_window_ends_the_drag(drag: DragManager, wid: WindowId)
    requires
        drag.spec_dragged() == Some(wid),
    ensures
        drag.without(wid).drag_state == DragState::Inactive,
        !drag.without(wid).in_drag(),
        drag.without(wid).skip_layout_for_window != Some(wid),
{
}

/// A window takes part in the layout of the space it lies in, if that is active. One that the
/// window server does not know yet goes to the space that commands go to.
pub proof fn windows_join_the_layout_they_lie_in(
    best: Option<SpaceId>,
    active: bool,
    server_id: Option<WindowServerId>,
    command_space: Option<SpaceId>,
    space: SpaceId,
)
    ensures
        best == Some(space) && active ==> layout_space(best, active, server_id, command_space)
            == Some(space),
        (best is None || !active) && server_id is None ==> layout_space(
            best,
            active,
            server_id,
            command_space,
        ) == command_space,
        (best is None || !active) && server_id is Some ==> layout_space(
            best,
            active,
            server_id,
            command_space,
        ) is None,
{
}

/// A created window is known as it was described, under the number that the window server has for
/// it, and the frame it has is the one that is pending for it; other windows stay as they are.
pub proof fn created_windows_are_known_as_described(
    windows: Windows,
    transactions: Transactions,
    wid: WindowId,
    info: WindowInfo,
    ws_info: Option<WindowServerInfo>,
    reading: LevelReading,
    space: Option<SpaceId>,
    knows_app: bool,
    other: WindowId,
)
    ensures
        ({
            let (after, tx, step) = created(
                windows,
                transactions,
                wid,
                info,
                ws_info,
                reading,
                space,
                knows_app,
            );
            let w = after.windows[wid];
            &&& after.windows.dom() =~= windows.windows.dom().insert(wid)
            &&& w.title == info.title && w.frame_monotonic == info.frame
            &&& w.is_ax_standard == info.is_standard && w.is_ax_root == info.is_root
            &&& w.is_minimized == info.is_minimized && w.window_server_id == info.sys_id
            &&& w.bundle_id == info.bundle_id && w.bundle_path == info.path
            &&& w.ax_role == info.ax_role && w.ax_subrole == info.ax_subrole
            &&& w.last_sent_txid.0 == 0
            &&& info.is_minimized || !info.is_standard || !info.is_root ==> !w.is_manageable
            &&& info.sys_id is Some && (reading.facts.is_sticky || (reading.facts.level is Some
                && reading.facts.level != Some(0i64))) ==> !w.is_manageable
            &&& info.sys_id is None && !info.is_minimized && info.is_standard && info.is_root
                ==> w.is_manageable
            &&& other != wid ==> after.windows[other] == windows.windows[other]
            &&& info.sys_id matches Some(id) ==> after.window_ids[id] == wid
                && after.window_ids.dom().contains(id) && !after.observed.contains(id)
                && tx.records.dom().contains(id) && tx.records[id].target == Some(info.frame)
                && tx.records[id].txid == last_txid_of(transactions.records, id)
            &&& info.sys_id is None ==> tx == transactions && after.window_ids
                == windows.window_ids
            &&& ws_info matches Some(i) ==> after.server_info.dom().contains(i.id)
                && after.server_info[i.id] == i && !after.observed.contains(i.id)
            &&& after.visible == windows.visible && after.server_space == windows.server_space
            &&& step.added_to == (if w.is_manageable { space } else { None })
            &&& step.applies_rules == (step.added_to is Some && knows_app)
        }),
{
}

/// A dropped window is unknown, and so is everything that the window server said of it; other
/// windows and other numbers stay as they are.
pub proof fn dropped_windows_are_unknown(
    state: FrameState,
    wid: WindowId,
    id: WindowServerId,
    other: WindowId,
    other_id: WindowServerId,
)
    requires
        state.windows.windows.dom().contains(wid),
        state.windows.windows[wid].window_server_id == Some(id),
        other != wid,
        other_id != id,
    ensures
        ({
            let after = state.without_window(wid);
            let w = after.windows;
            &&& !w.windows.dom().contains(wid) && !w.window_ids.dom().contains(id)
            &&& !w.visible.contains(id) && !w.observed.contains(id)
            &&& !w.server_info.dom().contains(id) && !w.server_space.dom().contains(id)
            &&& !after.transactions.records.dom().contains(id)
            &&& w.windows.dom().contains(other) == state.windows.windows.dom().contains(other)
            &&& w.windows[other] == state.windows.windows[other]
            &&& w.window_ids.dom().contains(other_id) == state.windows.window_ids.dom().contains(
                other_id,
            )
            &&& w.window_ids[other_id] == state.windows.window_ids[other_id]
            &&& w.visible.contains(other_id) == state.windows.visible.contains(other_id)
            &&& w.server_info[other_id] == state.windows.server_info[other_id]
            &&& after.transactions.records.dom().contains(other_id)
                == state.transactions.records.dom().contains(other_id)
            &&& after.transactions.records[other_id] == state.transactions.records[other_id]
        }),
{
}

/// A report that a window was destroyed is believed, unless no user space shows or Mission Control
/// does and the window server still has the window.
pub proof fn destructions_are_believed_unless_contradicted(
    state: FrameState,
    wid: WindowId,
    mission_control: bool,
    facts: DestroyFacts,
)
    requires
        state.windows.windows.dom().contains(wid),
    ensures
        !facts.no_user_space && !mission_control ==> state.destroys(wid, mission_control, facts),
        state.windows.windows[wid].window_server_id is None ==> state.destroys(
            wid,
            mission_control,
            facts,
        ),
        state.windows.windows[wid].window_server_id matches Some(id) ==> (!facts.alive@.contains(id)
            ==> state.destroys(wid, mission_control, facts)) && (facts.alive@.contains(id) && (
        facts.no_user_space || mission_control) ==> !state.destroys(wid, mission_control, facts)),
        state.destroys(wid, mission_control, facts) ==> !state.after_destruction(
            wid,
            mission_control,
            facts,
        ).windows.windows.dom().contains(wid),
        !state.destroys(wid, mission_control, facts) ==> state.after_destruction(
            wid,
            mission_control,
            facts,
        ) == state,
{
}

/// A minimized window is kept, but it is not managed and does not show; minimizing it again says
/// nothing new. Taking it back makes it what it was, if it can be managed.
pub proof fn minimized_windows_come_back(
    windows: Windows,
    wid: WindowId,
    reading: LevelReading,
    best: Option<SpaceId>,
    best_is_active: bool,
    command_space: Option<SpaceId>,
    other: WindowId,
)
    requires
        windows.windows.dom().contains(wid),
        other != wid,
    ensures
        ({
            let w = windows.windows[wid];
            let (after, changed) = minimized(windows, wid);
            &&& changed == !w.is_minimized
            &&& after.windows.dom() =~= windows.windows.dom()
            &&& after.windows[wid].is_minimized
            &&& changed ==> !after.windows[wid].is_manageable
            &&& after.windows[wid].title == w.title
            &&& after.windows[wid].frame_monotonic == w.frame_monotonic
            &&& after.windows[wid].window_server_id == w.window_server_id
            &&& after.windows[other] == windows.windows[other]
            &&& changed && w.window_server_id is Some ==> !after.visible.contains(
                w.window_server_id->0,
            )
            &&& minimized(after, wid) == (after, false)
        }),
        ({
            let w = windows.windows[wid];
            let (after, space) = deminiaturized(
                windows,
                wid,
                reading,
                best,
                best_is_active,
                command_space,
            );
            &&& !after.windows[wid].is_minimized
            &&& after.windows.dom() =~= windows.windows.dom()
            &&& after.windows[wid].title == w.title
            &&& after.windows[wid].frame_monotonic == w.frame_monotonic
            &&& after.windows[wid].window_server_id == w.window_server_id
            &&& after.windows[other] == windows.windows[other]
            &&& !w.is_minimized ==> after == windows && space is None
            &&& w.is_minimized ==> space == (if after.windows[wid].is_manageable {
                layout_space(best, best_is_active, w.window_server_id, command_space)
            } else {
                None
            })
            &&& w.is_minimized && after.windows[wid].is_manageable ==> w.is_ax_standard
                && w.is_ax_root
        }),
{
}

/// A window has the title that was reported last, and nothing else about it changes; the old title
/// is told exactly if it was another one.
pub proof fn windows_have_the_title_reported_last(
    windows: Windows,
    wid: WindowId,
    title: String,
    other: WindowId,
)
    requires
        other != wid,
    ensures
        ({
            let (after, previous) = retitled(windows, wid, title);
            let w = windows.windows[wid];
            &&& windows.windows.dom().contains(wid) ==> after.windows[wid].title@ == title@
            &&& previous is Some <==> windows.windows.dom().contains(wid) && w.title@ != title@
            &&& previous matches Some(t) ==> t == w.title
            &&& after.windows[wid].frame_monotonic == w.frame_monotonic
            &&& after.windows[wid].is_manageable == w.is_manageable
            &&& after.windows[wid].window_server_id == w.window_server_id
            &&& after.windows[other] == windows.windows[other]
            &&& after.windows.dom() =~= windows.windows.dom()
        }),
{
}

/// A report answers a request exactly if a frame is pending for the window and the report is of
/// the last transaction; one of another transaction is out of date.
pub proof fn reports_are_told_apart_by_their_transaction(
    state: FrameState,
    r: FrameReport,
    id: WindowServerId,
)
    requires
        state.windows.windows[r.wid].window_server_id == Some(id),
    ensures
        state.answers_request(r) <==> state.transactions.records.dom().contains(id)
            && state.transactions.records[id].target is Some && r.last_seen == Some(
            state.transactions.records[id].txid,
        ),
        state.outdated(r) <==> state.transactions.records.dom().contains(id)
            && state.transactions.records[id].target is Some && r.last_seen is Some && r.last_seen
            != Some(state.transactions.records[id].txid),
{
}

/// The answer to a request that gives the frame asked for settles it: the window has that frame,
/// and nothing is pending for it.
pub proof fn answers_settle_requests(
    state: FrameState,
    r: FrameReport,
    f: FrameFacts,
    id: WindowServerId,
)
    requires
        state.windows.windows.dom().contains(r.wid),
        state.windows.windows[r.wid].window_server_id == Some(id),
        state.answers_request(r),
        f.matches_target,
        r.mouse != Some(MouseState::Down),
    ensures
        ({
            let (after, step, _) = state.reported(r, f, false);
            &&& step == FrameStep::Ignored
            &&& !f.matches_current ==> after.windows.windows[r.wid].frame_monotonic == r.frame
            &&& f.matches_current ==> after.windows == state.windows
            &&& after.transactions.records[id].target is None
            &&& after.transactions.records[id].txid == state.transactions.records[id].txid
            &&& after.transactions.cleared_at[id] == f.now
        }),
{
}

/// A window that the user moves without holding the button has the reported frame, and is left
/// alone by the next layout. If it is in another space then, it leaves the layout of the one and
/// enters that of the other, unless it was just sent elsewhere or scrolls; if it has another size,
/// the layout engine is told.
pub proof fn moves_by_the_user_are_followed(state: FrameState, r: FrameReport, f: FrameFacts)
    requires
        state.windows.windows.dom().contains(r.wid),
        !state.pending(r.wid),
        !r.requested.0,
        r.mouse != Some(MouseState::Down),
        !state.drag.in_drag(),
        !f.matches_current,
        f.old_active || f.new_active,
    ensures
        ({
            let (after, step, _) = state.reported(r, f, false);
            let id = state.windows.windows[r.wid].window_server_id;
            let away = f.sent_to is Some && f.assigned_space == f.sent_to && f.new_space
                != f.sent_to;
            let stays = away || (f.scrolls && f.old_space is Some);
            &&& after.windows.windows[r.wid].frame_monotonic == r.frame
            &&& after.drag.skip_layout_for_window == Some(r.wid)
            &&& !after.drag.in_drag()
            &&& f.old_space != f.new_space && !stays ==> step == (FrameStep::ChangedSpace {
                to: f.new_space,
                enters_layout: f.new_space is Some && f.new_active,
            })
            &&& f.old_space != f.new_space && !stays && id is Some && f.new_space is Some
                ==> after.windows.server_space[id->0] == f.new_space->0
                && after.windows.visible.contains(id->0)
            &&& f.old_space != f.new_space && !stays && id is Some && f.new_space is None
                ==> !after.windows.server_space.dom().contains(id->0)
            &&& f.old_space != f.new_space && stays ==> step == FrameStep::Ignored
            &&& f.old_space == f.new_space ==> step == (if !f.same_size && f.old_space is Some
                && f.old_active {
                FrameStep::Resized
            } else {
                FrameStep::Ignored
            })
        }),
{
}

/// A window that moves while the button is held is dragged: from where it was, to where it is, in
/// the space that the drag resolves to. Its frame is the reported one.
pub proof fn moves_with_the_button_held_are_drags(state: FrameState, r: FrameReport, f: FrameFacts)
    requires
        state.windows.windows.dom().contains(r.wid),
        !state.outdated(r),
        !r.requested.0,
        r.mouse == Some(MouseState::Down),
        !f.matches_current,
        f.old_active || f.new_active,
    ensures
        ({
            let (after, step, up) = state.reported(r, f, false);
            let s = after.drag.session()->0;
            let going = state.drag.session() is Some && state.drag.session()->0.window == r.wid;
            &&& after.drag.session() is Some
            &&& s.window == r.wid && s.last_frame == r.frame && s.settled_space == f.drag_space
            &&& going ==> s.origin_space == state.drag.session()->0.origin_space
            &&& !going ==> s.origin_space == f.drag_origin && s.layout_dirty == (f.drag_origin
                != f.drag_space)
            &&& after.windows.windows[r.wid].frame_monotonic == r.frame
            &&& after.drag.skip_layout_for_window == Some(r.wid)
            &&& step == (if f.same_size {
                FrameStep::DragMoved
            } else {
                FrameStep::DragResized(f.in_layout)
            })
            &&& up == MouseUpStep::Nothing
        }),
{
}

/// A window under the pointer is raised only while no menu is open and it shows, and never if that
/// would hide a window that lies in front of it and wholly inside it.
pub proof fn raising_hides_no_window(
    windows: Windows,
    wid: WindowId,
    menu: MenuState,
    space: Option<SpaceId>,
    shows: bool,
    order: Seq<WindowServerId>,
    inside: Map<WindowId, bool>,
    id: WindowServerId,
    k: int,
)
    requires
        windows.windows.dom().contains(wid),
        windows.windows[wid].window_server_id == Some(id),
    ensures
        menu != MenuState::Closed || !shows || space is None ==> !raises_on_mouse_over(
            windows,
            wid,
            menu,
            space,
            shows,
            order,
            inside,
        ),
        0 <= k < order.len() && order[k] != id && !order.take(k).contains(id)
            && windows.window_ids.dom().contains(order[k]) && windows.windows.dom().contains(
            windows.window_ids[order[k]],
        ) && inside.dom().contains(windows.window_ids[order[k]])
            && inside[windows.window_ids[order[k]]] ==> !raises_on_mouse_over(
            windows,
            wid,
            menu,
            space,
            shows,
            order,
            inside,
        ),
        menu == MenuState::Closed && shows && space is Some && order.len() > 0 && order[0] == id
            ==> raises_on_mouse_over(windows, wid, menu, space, shows, order, inside),
{
    if 0 <= k < order.len() && order[k] != id && !order.take(k).contains(id) {
        assert(order.take(k + 1) =~= order.take(k).push(order[k]));
        crate::collections::lemma_push_contains(order.take(k), order[k]);
        assert(!order.take(k + 1).contains(id));
        if windows.window_ids.dom().contains(order[k]) && windows.windows.dom().contains(
            windows.window_ids[order[k]],
        ) && inside.dom().contains(windows.window_ids[order[k]])
            && inside[windows.window_ids[order[k]]] {
            assert(would_be_covered(windows, order, inside, k));
        }
    }
    if order.len() > 0 && order[0] == id {
        assert forall|i: int| 0 <= i < order.len() && !order.take(i + 1).contains(
            id,
        ) implies !#[trigger] would_be_covered(windows, order, inside, i) by {
            assert(order.take(i + 1)[0] == id);
        }
    }
}

/// The drag of another window, and the window that the next layout leaves alone, stay as they are
/// when a window is gone.
pub proof fn drags_outlive_other_windows(drag: DragManager, wid: WindowId)
    ensures
        drag.session() is Some && drag.session()->0.window != wid ==> drag.without(wid).session()
            == drag.session(),
        drag.drag_state matches DragState::PendingSwap { dragged, target } ==> (drag.without(
            wid,
        ).drag_state == (if dragged == wid || target == wid {
            DragState::Inactive
        } else {
            drag.drag_state
        })),
        drag.skip_layout_for_window != Some(wid) ==> drag.without(wid).skip_layout_for_window
            == drag.skip_layout_for_window,
        drag.session() is Some ==> drag.spec_dragged() == Some(drag.session()->0.window),
        drag.drag_state is Inactive ==> drag.spec_dragged() is None,
{
}

} // verus!
