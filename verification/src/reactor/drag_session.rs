//! Dragging windows between spaces, and swapping a dragged window with another.

use vstd::prelude::*;

use crate::collections::{VecMap, VecSet};
use crate::model::{Frame, Screen, SpaceId, WindowServerId};
use crate::reactor::event::LayoutEvent;
use crate::reactor::managers::{DragManager, DragSession, DragState, WindowState};
use crate::window_id::WindowId;

verus! {

/// Whether screen `i` shows a space and contains the point in question.
pub open spec fn contains_point(screens: Seq<Screen>, contains: Seq<bool>, i: int) -> bool {
    0 <= i < screens.len() && screens[i].space is Some && contains[i]
}

/// Whether `i` is the first screen that shows a space and contains the point.
pub open spec fn first_containing(screens: Seq<Screen>, contains: Seq<bool>, i: int) -> bool {
    contains_point(screens, contains, i) && forall|j: int|
        0 <= j < i ==> !contains_point(screens, contains, j)
}

/// Whether `i` is the last screen with the largest overlap.
pub open spec fn last_largest(overlap: Seq<i64>, i: int) -> bool {
    &&& 0 <= i < overlap.len()
    &&& forall|j: int| 0 <= j < overlap.len() ==> overlap[j] <= overlap[i]
    &&& forall|j: int| i < j < overlap.len() ==> overlap[j] < overlap[i]
}

/// Whether `r` is the space of the first screen that contains a point.
pub open spec fn is_space_at(
    screens: Seq<Screen>,
    contains: Seq<bool>,
    r: Option<SpaceId>,
) -> bool {
    match r {
        Some(space) => exists|i: int| #[trigger]
            first_containing(screens, contains, i) && screens[i].space == r,
        None => forall|i: int| !contains_point(screens, contains, i),
    }
}

/// Whether `r` is the space of a frame: that of the first screen that contains its center, else
/// whatever the screen that it overlaps most shows.
pub open spec fn is_best_space(
    screens: Seq<Screen>,
    contains: Seq<bool>,
    overlap: Seq<i64>,
    r: Option<SpaceId>,
) -> bool {
    if exists|i: int| contains_point(screens, contains, i) {
        is_space_at(screens, contains, r)
    } else {
        match r {
            Some(space) => exists|i: int| #[trigger]
                last_largest(overlap, i) && screens[i].space == r,
            None => screens.len() == 0 || exists|i: int| #[trigger]
                last_largest(overlap, i) && screens[i].space is None,
        }
    }
}

/// The space of the first screen that contains a point; `contains` says of each screen whether it
/// does.
pub fn drag_space_candidate(screens: &Vec<Screen>, contains: &Vec<bool>) -> (r: Option<SpaceId>)
    requires
        screens@.len() == contains@.len(),
    ensures
        is_space_at(screens@, contains@, r),
{
    let mut i: usize = 0;
    while i < screens.len()
        invariant
            i <= screens@.len(),
            screens@.len() == contains@.len(),
            forall|j: int| 0 <= j < i ==> !contains_point(screens@, contains@, j),
        decreases screens@.len() - i,
    {
        if contains[i] && screens[i].space.is_some() {
            assert(first_containing(screens@, contains@, i as int));
            return screens[i].space;
        }
        i = i + 1;
    }
    None
}

/// The space of a frame. `contains` says of each screen whether it contains the center of the
/// frame, `overlap` how much of the frame it covers.
pub fn best_space_for_window(screens: &Vec<Screen>, contains: &Vec<bool>, overlap: &Vec<i64>) -> (r:
    Option<SpaceId>)
    requires
        screens@.len() == contains@.len(),
        screens@.len() == overlap@.len(),
    ensures
        is_best_space(screens@, contains@, overlap@, r),
{
    match drag_space_candidate(screens, contains) {
        Some(space) => {
            let ghost i = choose|i: int| #[trigger]
                first_containing(screens@, contains@, i) && screens@[i].space == Some(space);
            assert(contains_point(screens@, contains@, i));
            return Some(space);
        },
        None => {},
    }
    if screens.len() == 0 {
        return None;
    }
    let mut best: usize = 0;
    let mut i: usize = 1;
    while i < screens.len()
        invariant
            1 <= i <= screens@.len(),
            screens@.len() == overlap@.len(),
            best < i,
            forall|j: int| 0 <= j < i ==> overlap@[j] <= overlap@[best as int],
            forall|j: int| best < j < i ==> overlap@[j] < overlap@[best as int],
        decreases screens@.len() - i,
    {
        if overlap[i] >= overlap[best] {
            best = i;
        }
        i = i + 1;
    }
    assert(last_largest(overlap@, best as int));
    screens[best].space
}

/// What a finished drag amounts to.
#[derive(Clone, Debug, PartialEq, Eq)]
pub struct FinishedDrag {
    /// What to tell the layout engine, in order.
    pub events: Vec<LayoutEvent>,
    /// The window is first given to the workspace that this space shows.
    pub assign_to: Option<(SpaceId, WindowId)>,
    /// Whether the layout is to be computed again.
    pub needs_layout: bool,
}

/// What follows when the button is released, beyond what the layout engine is told.
#[derive(Clone, Copy, Debug, PartialEq, Eq)]
pub struct DragEnd {
    /// The dragged window is swapped with another.
    pub swap: Option<(WindowId, WindowId)>,
    /// The window is first given to the workspace that this space shows.
    pub assign_to: Option<(SpaceId, WindowId)>,
    /// Whether the layout is to be computed again.
    pub needs_layout: bool,
}

/// What the layout engine is told when a drag ends with its window in `final_space`.
pub open spec fn drag_events(session: DragSession, final_space: Option<SpaceId>) -> Seq<
    LayoutEvent,
> {
    let removed = if session.origin_space != final_space && session.origin_space is Some {
        seq![LayoutEvent::WindowRemoved(session.window)]
    } else {
        Seq::<LayoutEvent>::empty()
    };
    if session.origin_space != final_space && final_space is Some {
        removed.push(LayoutEvent::WindowAdded(final_space->0, session.window))
    } else {
        removed
    }
}

/// What a dragged window amounts to while it moves.
#[derive(Clone, Copy, Debug, PartialEq, Eq, Structural)]
pub enum SwapStep {
    Ignore,
    /// The window entered another space; swap tracking starts over.
    ResetTracking,
    /// Look for a window to swap with in this space.
    Consider(SpaceId),
}

/// A window that a dragged one may be swapped with.
#[derive(Clone, Copy, Debug, PartialEq, Eq, Structural)]
pub struct SwapFact {
    pub wid: WindowId,
    pub frame: Frame,
    pub space: Option<SpaceId>,
    pub in_active_workspace: bool,
    pub is_floating: bool,
}

/// Whether `f` can be swapped with `wid` in `space`: another tiled window that shows there.
pub open spec fn can_swap(f: SwapFact, wid: WindowId, space: SpaceId) -> bool {
    f.wid != wid && f.space == Some(space) && f.in_active_workspace && !f.is_floating
}

impl DragManager {
    pub open spec fn in_drag(self) -> bool {
        self.drag_state is Active
    }

    /// The session of a drag.
    pub open spec fn session(self) -> Option<DragSession> {
        match self.drag_state {
            DragState::Active { session } => Some(session),
            _ => None,
        }
    }

    pub fn new() -> (r: DragManager)
        ensures
            r == (DragManager { drag_state: DragState::Inactive, skip_layout_for_window: None }),
    {
        DragManager { drag_state: DragState::Inactive, skip_layout_for_window: None }
    }

    pub fn is_in_drag(&self) -> (r: bool)
        ensures
            r == self.in_drag(),
    {
        match self.drag_state {
            DragState::Active { .. } => true,
            _ => false,
        }
    }

    pub fn get_pending_drag_swap(&self) -> (r: Option<(WindowId, WindowId)>)
        ensures
            r == (match self.drag_state {
                DragState::PendingSwap { dragged, target } => Some((dragged, target)),
                _ => None,
            }),
    {
        match self.drag_state {
            DragState::PendingSwap { dragged, target } => Some((dragged, target)),
            _ => None,
        }
    }

    pub fn get_active_drag_session(&self) -> (r: Option<DragSession>)
        ensures
            r == self.session(),
    {
        match self.drag_state {
            DragState::Active { session } => Some(session),
            _ => None,
        }
    }

    /// Ends a drag or a pending swap; the result is the session of the drag.
    pub fn take_active_drag_session(&mut self) -> (r: Option<DragSession>)
        ensures
            r == old(self).session(),
            *final(self) == (DragManager { drag_state: DragState::Inactive, ..*old(self) }),
    {
        let r = self.get_active_drag_session();
        self.drag_state = DragState::Inactive;
        r
    }

    /// Makes sure that `wid`, which lies in `space`, is being dragged.
    pub fn ensure_active_drag(&mut self, wid: WindowId, frame: Frame, space: Option<SpaceId>)
        ensures
            final(self).skip_layout_for_window == Some(wid),
            final(self).session() == (if old(self).session() is Some
                && old(self).session()->0.window == wid {
                old(self).session()
            } else {
                Some(
                    DragSession {
                        window: wid,
                        last_frame: frame,
                        origin_space: space,
                        settled_space: space,
                        layout_dirty: false,
                    },
                )
            }),
    {
        let needs_new_session: bool = match self.get_active_drag_session() {
            Some(session) => session.window != wid,
            None => true,
        };
        if needs_new_session {
            self.drag_state = DragState::Active {
                session: DragSession {
                    window: wid,
                    last_frame: frame,
                    origin_space: space,
                    settled_space: space,
                    layout_dirty: false,
                },
            };
        }
        self.skip_layout_for_window = Some(wid);
    }

    /// The dragged window moved to `frame`, which lies in `resolved_space`.
    pub fn update_active_drag(
        &mut self,
        wid: WindowId,
        frame: Frame,
        resolved_space: Option<SpaceId>,
    )
        ensures
            ({
                let session = old(self).session();
                if session is Some && session->0.window == wid {
                    let moved = session->0.settled_space != resolved_space;
                    &&& final(self).session() == Some(
                        DragSession {
                            last_frame: frame,
                            settled_space: resolved_space,
                            layout_dirty: session->0.layout_dirty || moved,
                            ..session->0
                        },
                    )
                    &&& final(self).skip_layout_for_window == (if moved {
                        Some(wid)
                    } else {
                        old(self).skip_layout_for_window
                    })
                } else {
                    *final(self) == *old(self)
                }
            }),
    {
        match self.get_active_drag_session() {
            Some(session) => {
                if session.window == wid {
                    let moved: bool = session.settled_space != resolved_space;
                    self.drag_state = DragState::Active {
                        session: DragSession {
                            window: session.window,
                            last_frame: frame,
                            origin_space: session.origin_space,
                            settled_space: resolved_space,
                            layout_dirty: session.layout_dirty || moved,
                        },
                    };
                    if moved {
                        self.skip_layout_for_window = Some(wid);
                    }
                }
            },
            None => {},
        }
    }

    /// Notes that the layout changed under the dragged window.
    pub fn mark_drag_dirty(&mut self, wid: WindowId)
        ensures
            ({
                let session = old(self).session();
                if session is Some && session->0.window == wid {
                    &&& final(self).session() == Some(
                        DragSession { layout_dirty: true, ..session->0 },
                    )
                    &&& final(self).skip_layout_for_window == Some(wid)
                } else {
                    *final(self) == *old(self)
                }
            }),
    {
        match self.get_active_drag_session() {
            Some(session) => {
                if session.window == wid {
                    self.drag_state = DragState::Active {
                        session: DragSession {
                            window: session.window,
                            last_frame: session.last_frame,
                            origin_space: session.origin_space,
                            settled_space: session.settled_space,
                            layout_dirty: true,
                        },
                    };
                    self.skip_layout_for_window = Some(wid);
                }
            },
            None => {},
        }
    }

    /// The drag ended with the window in `final_space`. The window moves from space to space only
    /// here, once.
    pub fn finalize_active_drag(&mut self, final_space: Option<SpaceId>) -> (r: Option<FinishedDrag>)
        ensures
            final(self).drag_state == DragState::Inactive,
            match old(self).session() {
                None => r is None && final(self).skip_layout_for_window == old(
                    self,
                ).skip_layout_for_window,
                Some(session) => {
                    let moved = session.origin_space != final_space;
                    &&& r is Some
                    &&& r->0.needs_layout == (moved || session.layout_dirty)
                    &&& r->0.assign_to == (if moved && final_space is Some {
                        Some((final_space->0, session.window))
                    } else {
                        None
                    })
                    &&& r->0.events@ == drag_events(session, final_space)
                    &&& final(self).skip_layout_for_window == (if r->0.needs_layout {
                        Some(session.window)
                    } else {
                        old(self).skip_layout_for_window
                    })
                },
            },
    {
        let session = match self.take_active_drag_session() {
            Some(session) => session,
            None => {
                return None;
            },
        };
        let wid = session.window;
        let mut events: Vec<LayoutEvent> = Vec::new();
        let mut assign_to: Option<(SpaceId, WindowId)> = None;
        let moved: bool = session.origin_space != final_space;
        if moved {
            if session.origin_space.is_some() {
                events.push(LayoutEvent::WindowRemoved(wid));
                assert(events@ =~= seq![LayoutEvent::WindowRemoved(wid)]);
            }
            match final_space {
                Some(space) => {
                    assign_to = Some((space, wid));
                    events.push(LayoutEvent::WindowAdded(space, wid));
                },
                None => {},
            }
        }
        let needs_layout: bool = moved || session.layout_dirty;
        if needs_layout {
            self.skip_layout_for_window = Some(wid);
        }
        Some(FinishedDrag { events, assign_to, needs_layout })
    }

    /// What the move of a dragged window amounts to.
    pub open spec fn swap_step(
        self,
        wid: WindowId,
        windows: Map<WindowId, WindowState>,
        changing_screens: Set<WindowServerId>,
        best_space: Option<SpaceId>,
        swap_origin: Option<SpaceId>,
        in_active_workspace: bool,
    ) -> SwapStep {
        match self.session() {
            None => SwapStep::Ignore,
            Some(session) => {
                let space = if session.settled_space is Some {
                    session.settled_space
                } else {
                    best_space
                };
                let origin = if session.origin_space is Some {
                    session.origin_space
                } else {
                    swap_origin
                };
                let changing = windows.dom().contains(wid) && windows[wid].window_server_id is Some
                    && changing_screens.contains(windows[wid].window_server_id->0);
                if !windows.dom().contains(wid) || changing || space is None {
                    SwapStep::Ignore
                } else if origin is Some && origin != space {
                    SwapStep::ResetTracking
                } else if in_active_workspace {
                    SwapStep::Consider(space->0)
                } else {
                    SwapStep::Ignore
                }
            },
        }
    }

    /// The drag once swap tracking found `target`, or nothing, under the dragged window.
    pub open spec fn settled(self, wid: WindowId, target: Option<WindowId>) -> DragManager {
        match target {
            Some(target) => DragManager {
                drag_state: DragState::PendingSwap { dragged: wid, target },
                skip_layout_for_window: Some(wid),
            },
            None => DragManager {
                skip_layout_for_window: if self.skip_layout_for_window == Some(wid) {
                    None
                } else {
                    self.skip_layout_for_window
                },
                ..self
            },
        }
    }

    /// The drag once the button is released and its window is in `final_space`.
    pub open spec fn ended(self, final_space: Option<SpaceId>) -> DragManager {
        DragManager {
            drag_state: DragState::Inactive,
            skip_layout_for_window: match self.session() {
                Some(session) if session.origin_space != final_space || session.layout_dirty =>
                    Some(session.window),
                _ => self.skip_layout_for_window,
            },
        }
    }

    /// What the layout engine is told when the button is released.
    pub open spec fn end_events(self, final_space: Option<SpaceId>) -> Seq<LayoutEvent> {
        match self.session() {
            Some(session) => drag_events(session, final_space),
            None => Seq::empty(),
        }
    }

    /// Whether `end` is what follows when the button is released: the swap that waited for it, or
    /// the end of the drag.
    pub open spec fn ends_with(self, final_space: Option<SpaceId>, end: DragEnd) -> bool {
        &&& end.swap == (match self.drag_state {
            DragState::PendingSwap { dragged, target } => Some((dragged, target)),
            _ => None,
        })
        &&& end.assign_to == (match self.session() {
            Some(session) if session.origin_space != final_space && final_space is Some => Some(
                (final_space->0, session.window),
            ),
            _ => None,
        })
        &&& end.needs_layout == (end.swap is Some || match self.session() {
            Some(session) => session.origin_space != final_space || session.layout_dirty,
            None => false,
        })
    }

    /// The button was released. The swap that waited for it is handed out; a drag is finished. The
    /// second result is what the layout engine is told, in order.
    pub fn end_drag(&mut self, final_space: Option<SpaceId>) -> (r: (DragEnd, Vec<LayoutEvent>))
        ensures
            *final(self) == old(self).ended(final_space),
            old(self).ends_with(final_space, r.0),
            r.1@ == old(self).end_events(final_space),
    {
        let swap = self.get_pending_drag_swap();
        match self.finalize_active_drag(final_space) {
            Some(finished) => (
                DragEnd {
                    swap,
                    assign_to: finished.assign_to,
                    needs_layout: swap.is_some() || finished.needs_layout,
                },
                finished.events,
            ),
            None => {
                let events: Vec<LayoutEvent> = Vec::new();
                assert(events@ =~= Seq::empty());
                (DragEnd { swap, assign_to: None, needs_layout: swap.is_some() }, events)
            },
        }
    }

    /// The window moved by a drag. `best_space` is the space of its frame, `swap_origin` that of
    /// the frame where swap tracking began, and `in_active_workspace` says whether the window
    /// shows in the space in question.
    pub fn maybe_swap_on_drag(
        &self,
        wid: WindowId,
        windows: &VecMap<WindowId, WindowState>,
        changing_screens: &VecSet<WindowServerId>,
        best_space: Option<SpaceId>,
        swap_origin: Option<SpaceId>,
        in_active_workspace: bool,
    ) -> (r: SwapStep)
        ensures
            r == self.swap_step(
                wid,
                windows@,
                changing_screens@,
                best_space,
                swap_origin,
                in_active_workspace,
            ),
    {
        let session = match self.get_active_drag_session() {
            Some(session) => session,
            None => {
                return SwapStep::Ignore;
            },
        };
        match windows.get(&wid) {
            Some(window) => match window.window_server_id {
                Some(wsid) => {
                    if changing_screens.contains(&wsid) {
                        return SwapStep::Ignore;
                    }
                },
                None => {},
            },
            None => {
                return SwapStep::Ignore;
            },
        }
        let space: SpaceId = match session.settled_space {
            Some(space) => space,
            None => match best_space {
                Some(space) => space,
                None => {
                    return SwapStep::Ignore;
                },
            },
        };
        let origin = match session.origin_space {
            Some(origin) => Some(origin),
            None => swap_origin,
        };
        if origin.is_some() && origin != Some(space) {
            return SwapStep::ResetTracking;
        }
        if in_active_workspace {
            SwapStep::Consider(space)
        } else {
            SwapStep::Ignore
        }
    }

    /// Swap tracking found `target`, or nothing, under the dragged window. Whatever is found, the
    /// swap waits until the mouse button is released.
    pub fn settle_swap(&mut self, wid: WindowId, target: Option<WindowId>)
        requires
            old(self).in_drag(),
        ensures
            *final(self) == old(self).settled(wid, target),
    {
        match target {
            Some(target) => {
                self.drag_state = DragState::PendingSwap { dragged: wid, target };
                self.skip_layout_for_window = Some(wid);
            },
            None => {
                if self.skip_layout_for_window == Some(wid) {
                    self.skip_layout_for_window = None;
                }
            },
        }
    }
}

/// The space of a dragged frame: that of the screen its center is on, else its best space, else
/// the one it settled in. A frame without area stays where it settled.
pub fn resolve_drag_space(
    settled: Option<SpaceId>,
    has_area: bool,
    candidate: Option<SpaceId>,
    best: Option<SpaceId>,
) -> (r: Option<SpaceId>)
    ensures
        r == (if !has_area {
            if settled is Some {
                settled
            } else {
                best
            }
        } else if candidate is Some {
            candidate
        } else if best is Some {
            best
        } else {
            settled
        }),
{
    if !has_area {
        return match settled {
            Some(space) => Some(space),
            None => best,
        };
    }
    match candidate {
        Some(space) => Some(space),
        None => match best {
            Some(space) => Some(space),
            None => settled,
        },
    }
}

/// The windows that `wid` may be swapped with in `space`, in the order given.
pub fn swap_candidates(facts: &Vec<SwapFact>, wid: WindowId, space: SpaceId) -> (r: Vec<SwapFact>)
    ensures
        r@ == facts@.filter(|f: SwapFact| can_swap(f, wid, space)),
{
    let mut r: Vec<SwapFact> = Vec::new();
    let mut i: usize = 0;
    let ghost pred = |f: SwapFact| can_swap(f, wid, space);
    assert(facts@.take(0).filter(pred) =~= Seq::<SwapFact>::empty()) by {
        reveal(Seq::filter);
    }
    while i < facts.len()
        invariant
            i <= facts@.len(),
            pred == (|f: SwapFact| can_swap(f, wid, space)),
            r@ == facts@.take(i as int).filter(pred),
        decreases facts@.len() - i,
    {
        let f = facts[i];
        proof {
            assert(facts@.take(i + 1).drop_last() =~= facts@.take(i as int));
            assert(facts@.take(i + 1).last() == f);
            reveal(Seq::filter);
        }
        if f.wid != wid && f.space == Some(space) && f.in_active_workspace && !f.is_floating {
            r.push(f);
        }
        i = i + 1;
    }
    assert(facts@.take(i as int) =~= facts@);
    r
}

/// A drag that starts in one space and ends in another takes the window out of the first and puts
/// it into the second; one that ends where it started moves nothing.
pub proof fn a_drag_moves_its_window_once(session: DragSession, final_space: Option<SpaceId>)
    ensures
        session.origin_space == final_space ==> drag_events(session, final_space).len() == 0,
        session.origin_space != final_space && final_space is Some ==> drag_events(
            session,
            final_space,
        ).last() == LayoutEvent::WindowAdded(final_space->0, session.window),
        session.origin_space != final_space && session.origin_space is Some ==> drag_events(
            session,
            final_space,
        ).first() == LayoutEvent::WindowRemoved(session.window),
        drag_events(session, final_space).len() <= 2,
{
}

/// The space of a point is that of the first screen that shows a space and contains the point.
pub proof fn a_point_is_on_the_first_screen_that_contains_it(
    screens: Seq<Screen>,
    contains: Seq<bool>,
    r: Option<SpaceId>,
    i: int,
)
    requires
        is_space_at(screens, contains, r),
        screens.len() == contains.len(),
        0 <= i < screens.len(),
        contains[i],
        screens[i].space is Some,
        forall|j: int| 0 <= j < i && (#[trigger] screens[j]).space is Some ==> !contains[j],
    ensures
        r == screens[i].space,
{
    assert(contains_point(screens, contains, i));
    let k = choose|k: int| #[trigger]
        first_containing(screens, contains, k) && screens[k].space == r;
    if k < i {
        assert(screens[k].space is Some);
    } else if i < k {
        assert(!contains_point(screens, contains, i));
    }
}

/// A frame whose center is on no screen with a space is in the space of the screen that covers
/// most of it, and of equals the last one counts; a center on a screen decides before that.
pub proof fn a_frame_is_where_most_of_it_is(
    screens: Seq<Screen>,
    contains: Seq<bool>,
    overlap: Seq<i64>,
    r: Option<SpaceId>,
    i: int,
)
    requires
        is_best_space(screens, contains, overlap, r),
        screens.len() == contains.len(),
        screens.len() == overlap.len(),
        0 <= i < screens.len(),
    ensures
        contains[i] && screens[i].space is Some && (forall|j: int|
            0 <= j < i && (#[trigger] screens[j]).space is Some ==> !contains[j]) ==> r
            == screens[i].space,
        (forall|j: int|
            0 <= j < screens.len() ==> (#[trigger] screens[j]).space is None || !contains[j]) && (
        forall|j: int| 0 <= j < overlap.len() ==> #[trigger] overlap[j] <= overlap[i]) && (forall|
            j: int,
        | i < j < overlap.len() ==> #[trigger] overlap[j] < overlap[i]) ==> r == screens[i].space,
{
    if contains[i] && screens[i].space is Some && (forall|j: int|
        0 <= j < i && (#[trigger] screens[j]).space is Some ==> !contains[j]) {
        assert(contains_point(screens, contains, i));
        a_point_is_on_the_first_screen_that_contains_it(screens, contains, r, i);
    }
    if (forall|j: int|
        0 <= j < screens.len() ==> (#[trigger] screens[j]).space is None || !contains[j]) && (
    forall|j: int| 0 <= j < overlap.len() ==> #[trigger] overlap[j] <= overlap[i]) && (forall|
        j: int,
    | i < j < overlap.len() ==> #[trigger] overlap[j] < overlap[i]) {
        assert forall|j: int| !contains_point(screens, contains, j) by {
            if 0 <= j < screens.len() {
                assert(screens[j].space is None || !contains[j]);
            }
        }
        match r {
            Some(space) => {
                let k = choose|k: int| #[trigger]
                    last_largest(overlap, k) && screens[k].space == r;
                assert(overlap[k] <= overlap[i] && overlap[i] <= overlap[k]);
                if k < i {
                    assert(overlap[i] < overlap[k]);
                } else if i < k {
                    assert(overlap[k] < overlap[i]);
                }
            },
            None => {
                let k = choose|k: int| #[trigger]
                    last_largest(overlap, k) && screens[k].space is None;
                assert(overlap[k] <= overlap[i] && overlap[i] <= overlap[k]);
                if k < i {
                    assert(overlap[i] < overlap[k]);
                } else if i < k {
                    assert(overlap[k] < overlap[i]);
                }
            },
        }
    }
}

/// A dragged window is swapped only within the space that the drag started in, with another tiled
/// window that shows there; while it changes screens, or once it is in another space, it is not.
pub proof fn windows_are_swapped_within_a_space(
    drag: DragManager,
    session: DragSession,
    wid: WindowId,
    windows: Map<WindowId, WindowState>,
    changing: Set<WindowServerId>,
    best: Option<SpaceId>,
    swap_origin: Option<SpaceId>,
    shows: bool,
    fact: SwapFact,
    space: SpaceId,
)
    requires
        drag.session() == Some(session),
    ensures
        ({
            let step = drag.swap_step(wid, windows, changing, best, swap_origin, shows);
            let at = if session.settled_space is Some { session.settled_space } else { best };
            let from = if session.origin_space is Some {
                session.origin_space
            } else {
                swap_origin
            };
            let usable = windows.dom().contains(wid) && at is Some && !(
            windows[wid].window_server_id is Some && changing.contains(
                windows[wid].window_server_id->0,
            ));
            &&& !usable ==> step == SwapStep::Ignore
            &&& usable && from is Some && from != at ==> step == SwapStep::ResetTracking
            &&& usable && (from is None || from == at) && shows ==> step == SwapStep::Consider(
                at->0,
            )
            &&& usable && (from is None || from == at) && !shows ==> step == SwapStep::Ignore
        }),
        can_swap(fact, wid, space) ==> fact.wid != wid && fact.space == Some(space)
            && fact.in_active_workspace && !fact.is_floating,
        fact.wid != wid && fact.space == Some(space) && fact.in_active_workspace
            && !fact.is_floating ==> can_swap(fact, wid, space),
{
}

/// A window under the dragged one waits to be swapped with it, in this order, until the button is
/// released; then the two are handed out and no drag is left. Nothing under it, and the drag goes
/// on.
pub proof fn swaps_wait_for_the_release(
    drag: DragManager,
    wid: WindowId,
    target: WindowId,
    final_space: Option<SpaceId>,
    end: DragEnd,
)
    ensures
        ({
            let waiting = drag.settled(wid, Some(target));
            &&& waiting.drag_state == (DragState::PendingSwap { dragged: wid, target })
            &&& waiting.skip_layout_for_window == Some(wid)
            &&& waiting.ends_with(final_space, end) ==> end.swap == Some((wid, target))
                && end.assign_to is None && end.needs_layout
            &&& waiting.ended(final_space).drag_state is Inactive
            &&& waiting.end_events(final_space).len() == 0
        }),
        drag.settled(wid, None).drag_state == drag.drag_state,
        drag.settled(wid, None).skip_layout_for_window != Some(wid),
        drag.skip_layout_for_window != Some(wid) ==> drag.settled(wid, None)
            == drag,
{
}

/// A drag that ends elsewhere than it started assigns its window to the space it ends in and has
/// it laid out, leaving the window itself alone once; one that ends where it started has the
/// layout computed again only if it touched it.
pub proof fn a_drag_ends_in_the_space_it_was_dragged_to(
    drag: DragManager,
    session: DragSession,
    final_space: Option<SpaceId>,
    end: DragEnd,
)
    requires
        drag.session() == Some(session),
        drag.ends_with(final_space, end),
    ensures
        end.swap is None,
        session.origin_space != final_space && final_space is Some ==> end.assign_to == Some(
            (final_space->0, session.window),
        ),
        session.origin_space == final_space || final_space is None ==> end.assign_to is None,
        end.needs_layout <==> session.origin_space != final_space || session.layout_dirty,
        !drag.ended(final_space).in_drag(),
        end.needs_layout ==> drag.ended(final_space).skip_layout_for_window == Some(session.window),
        !end.needs_layout ==> drag.ended(final_space).skip_layout_for_window
            == drag.skip_layout_for_window,
        final_space matches Some(space) ==> session.origin_space != final_space
            ==> drag.end_events(final_space).contains(
            LayoutEvent::WindowAdded(space, session.window),
        ),
{
    if session.origin_space != final_space && final_space is Some {
        let events = drag.end_events(final_space);
        assert(events[events.len() - 1] == LayoutEvent::WindowAdded(
            final_space->0,
            session.window,
        ));
    }
}

} // verus!
