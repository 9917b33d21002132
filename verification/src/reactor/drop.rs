//! What a finished drag leads to.

use vstd::prelude::*;

use crate::drag::{DragCommit, DragSceneTarget, WindowDropAction};
use crate::model::{Frame, SpaceId};
#[allow(unused_imports)]
use crate::model::WindowServerId;
use crate::reactor::event::LayoutEvent;
use crate::reactor::managers::WindowManager;
#[allow(unused_imports)]
use crate::reactor::managers::Windows;
use crate::reactor::outcome::{ArrangeRequest, EventOutcome};
#[allow(unused_imports)]
use crate::reactor::space::space_run;
use crate::window_id::WindowId;

verus! {

/// A window that the layout engine lets others be dropped on. Its frame is the one that it has.
#[derive(Clone, Copy, Debug, PartialEq, Eq, Structural)]
pub struct DropCandidate {
    pub window: WindowId,
    pub center_frame: Option<Frame>,
    pub west_frame: Option<Frame>,
    pub east_frame: Option<Frame>,
    pub north_frame: Option<Frame>,
    pub south_frame: Option<Frame>,
    pub directional: bool,
}

impl DropCandidate {
    pub open spec fn at(self, space: SpaceId, frame: Frame) -> DragSceneTarget {
        DragSceneTarget {
            window: self.window,
            space,
            frame,
            center_frame: self.center_frame,
            west_frame: self.west_frame,
            east_frame: self.east_frame,
            north_frame: self.north_frame,
            south_frame: self.south_frame,
            directional: self.directional,
        }
    }
}

/// The windows that `source` can be dropped on: the known ones, but not itself.
pub open spec fn scene_targets(
    windows: Windows,
    candidates: Seq<DropCandidate>,
    source: WindowId,
    space: SpaceId,
) -> Seq<DragSceneTarget>
    decreases candidates.len(),
{
    if candidates.len() == 0 {
        Seq::empty()
    } else {
        let head = scene_targets(windows, candidates.drop_last(), source, space);
        let c = candidates.last();
        if c.window != source && windows.windows.dom().contains(c.window) {
            head.push(c.at(space, windows.windows[c.window].frame_monotonic))
        } else {
            head
        }
    }
}

/// What `source` can be dropped on in `space`.
pub fn build_drag_scene(
    windows: &WindowManager,
    candidates: &Vec<DropCandidate>,
    source: WindowId,
    space: SpaceId,
) -> (r: Vec<DragSceneTarget>)
    ensures
        r@ == scene_targets(windows@, candidates@, source, space),
{
    let mut r: Vec<DragSceneTarget> = Vec::new();
    let mut i: usize = 0;
    while i < candidates.len()
        invariant
            i <= candidates@.len(),
            r@ == scene_targets(windows@, candidates@.take(i as int), source, space),
        decreases candidates@.len() - i,
    {
        assert(candidates@.take(i + 1).drop_last() =~= candidates@.take(i as int));
        let c = candidates[i];
        if c.window != source {
            match windows.windows.get(&c.window) {
                Some(w) => {
                    r.push(
                        DragSceneTarget {
                            window: c.window,
                            space,
                            frame: w.frame_monotonic,
                            center_frame: c.center_frame,
                            west_frame: c.west_frame,
                            east_frame: c.east_frame,
                            north_frame: c.north_frame,
                            south_frame: c.south_frame,
                            directional: c.directional,
                        },
                    );
                },
                None => {},
            }
        }
        i = i + 1;
    }
    assert(candidates@.take(i as int) =~= candidates@);
    r
}

/// A window that is dropped on another.
#[derive(Clone, Copy, Debug, PartialEq, Eq, Structural)]
pub struct WindowDropRequest {
    pub source: WindowId,
    pub target: WindowId,
    pub space: SpaceId,
    pub action: WindowDropAction,
}

/// The drop that a finished drag asks for, if both windows still exist and the dragged one is
/// where it is dropped.
pub open spec fn drop_of(windows: Windows, commit: DragCommit) -> Option<WindowDropRequest> {
    match commit.target {
        Some(t) => if commit.source.current_space == Some(t.space)
            && windows.windows.dom().contains(commit.source.window)
            && windows.windows.dom().contains(t.window) {
            Some(
                WindowDropRequest {
                    source: commit.source.window,
                    target: t.window,
                    space: t.space,
                    action: t.action,
                },
            )
        } else {
            None
        },
        None => None,
    }
}

pub fn requested_drop(windows: &WindowManager, commit: &DragCommit) -> (r: Option<
    WindowDropRequest,
>)
    ensures
        r == drop_of(windows@, *commit),
{
    match commit.target {
        Some(t) => {
            if commit.source.current_space == Some(t.space) && windows.windows.contains_key(
                &commit.source.window,
            ) && windows.windows.contains_key(&t.window) {
                Some(
                    WindowDropRequest {
                        source: commit.source.window,
                        target: t.window,
                        space: t.space,
                        action: t.action,
                    },
                )
            } else {
                None
            }
        },
        None => None,
    }
}

#[derive(Clone, Copy, Debug, PartialEq, Eq, Structural)]
pub struct MouseUpPayload {
    /// The space that the window is in now.
    pub final_space: Option<SpaceId>,
}

/// What is known when the button is released.
#[derive(Clone, Copy, Debug, PartialEq, Eq, Structural)]
pub struct DropFacts {
    /// Whether the layout engine took the drop.
    pub dropped: bool,
    /// Whether the window, if it is known, is one that is managed.
    pub admitted: bool,
    pub floating: bool,
}

/// A finished drag. The preview of the drop is hidden in any case.
pub struct MouseUp {
    pub outcome: EventOutcome,
    /// Whether the window that is controlled from outside is released.
    pub release_controlled: bool,
    /// The space whose active workspace the window is assigned to.
    pub assign: Option<SpaceId>,
    /// Whether the position of a floating window is forgotten first.
    pub forget_position: bool,
    /// The space and the frame for which the position of a floating window is kept.
    pub keep_position: Option<(SpaceId, Frame)>,
}

/// Whether a drag ended in another space, as a managed window.
pub open spec fn changes_space(commit: DragCommit, payload: MouseUpPayload) -> bool {
    commit.source.origin_space != payload.final_space
}

/// What the layout engine is told.
pub open spec fn moved_events(commit: DragCommit, payload: MouseUpPayload, admitted: bool) -> Seq<
    LayoutEvent,
> {
    let wid = commit.source.window;
    if !changes_space(commit, payload) {
        Seq::empty()
    } else {
        let removed = if commit.source.origin_space is Some {
            seq![LayoutEvent::WindowRemoved(wid)]
        } else {
            Seq::empty()
        };
        if payload.final_space is Some && admitted {
            removed.push(LayoutEvent::WindowAdded(payload.final_space->0, wid))
        } else {
            removed
        }
    }
}

/// The windows once a drag ended.
pub open spec fn after_drop(
    windows: Windows,
    commit: DragCommit,
    payload: MouseUpPayload,
    admitted: bool,
) -> Windows {
    let wid = commit.source.window;
    if changes_space(commit, payload) && payload.final_space is Some && admitted
        && windows.windows.dom().contains(wid) && windows.windows[wid].window_server_id is Some {
        space_run(windows, Seq::empty()).placed(
            windows.windows[wid].window_server_id->0,
            payload.final_space->0,
            true,
        ).windows
    } else {
        windows
    }
}

/// The button was released. `commit` is the drag that ended, if there was one.
pub fn handle_mouse_up(
    windows: &mut WindowManager,
    commit: Option<DragCommit>,
    payload: MouseUpPayload,
    facts: DropFacts,
) -> (r: MouseUp)
    ensures
        r.outcome.arrange == (ArrangeRequest {
            requested: false,
            is_resize: false,
            window_was_destroyed: false,
        }),
        r.outcome.focused_window is None,
        !r.outcome.refresh_window_notifications,
        !r.outcome.refresh_layout_mode,
        r.release_controlled == (commit is Some),
        match commit {
            None => {
                &&& final(windows)@ == old(windows)@
                &&& r.outcome.layout_events@.len() == 0
                &&& r.outcome.arrange_passes == 0
                &&& r.assign is None
                &&& !r.forget_position
                &&& r.keep_position is None
            },
            Some(c) => {
                let moved = changes_space(c, payload);
                let admitted = facts.admitted && old(windows)@.windows.dom().contains(
                    c.source.window,
                );
                &&& final(windows)@ == after_drop(old(windows)@, c, payload, admitted)
                &&& r.outcome.layout_events@ == moved_events(c, payload, admitted)
                &&& r.outcome.arrange_passes == (if c.source.tiled || moved || (drop_of(
                    old(windows)@,
                    c,
                ) is Some && facts.dropped) {
                    1u8
                } else {
                    0u8
                })
                &&& r.assign == (if moved && admitted {
                    payload.final_space
                } else {
                    None
                })
                &&& r.forget_position == (facts.floating && moved && payload.final_space is Some)
                &&& r.keep_position == (if facts.floating && payload.final_space is Some {
                    Some((payload.final_space->0, c.source.last_frame))
                } else {
                    None
                })
            },
        },
{
    let mut outcome = EventOutcome::layout_changed(false);
    let c = match commit {
        Some(c) => c,
        None => {
            return MouseUp {
                outcome,
                release_controlled: false,
                assign: None,
                forget_position: false,
                keep_position: None,
            };
        },
    };
    let wid = c.source.window;
    let mut needs_layout: bool = c.source.tiled;
    if requested_drop(windows, &c).is_some() && facts.dropped {
        needs_layout = true;
    }
    let moved: bool = c.source.origin_space != payload.final_space;
    let admitted: bool = facts.admitted && windows.windows.contains_key(&wid);
    let mut assign: Option<SpaceId> = None;
    if moved {
        if c.source.origin_space.is_some() {
            outcome.layout_events.push(LayoutEvent::WindowRemoved(wid));
        }
        match payload.final_space {
            Some(space) => {
                if admitted {
                    let wsid = match windows.windows.get(&wid) {
                        Some(w) => w.window_server_id,
                        None => None,
                    };
                    match wsid {
                        Some(id) => {
                            windows.place(id, space, true);
                        },
                        None => {},
                    }
                    assign = Some(space);
                    outcome.layout_events.push(LayoutEvent::WindowAdded(space, wid));
                }
            },
            None => {},
        }
        needs_layout = true;
    }
    assert(outcome.layout_events@ =~= moved_events(c, payload, admitted));
    outcome.arrange_passes = if needs_layout {
        1
    } else {
        0
    };
    let keep_position: Option<(SpaceId, Frame)> = match payload.final_space {
        Some(space) => if facts.floating {
            Some((space, c.source.last_frame))
        } else {
            None
        },
        None => None,
    };
    MouseUp {
        outcome,
        release_controlled: true,
        assign,
        forget_position: moved && keep_position.is_some(),
        keep_position,
    }
}

/// The workspace in which the position of a floating window is kept: its own, else the active
/// one.
pub fn floating_workspace(own: Option<u64>, active: Option<u64>) -> (r: Option<u64>)
    ensures
        r == (if own is Some {
            own
        } else {
            active
        }),
{
    if own.is_some() {
        own
    } else {
        active
    }
}

/// A window is never offered as a target for itself, and only known windows are.
pub proof fn targets_are_other_known_windows(
    windows: Windows,
    candidates: Seq<DropCandidate>,
    source: WindowId,
    space: SpaceId,
)
    ensures
        forall|i: int|
            0 <= i < scene_targets(windows, candidates, source, space).len() ==> (
            #[trigger] scene_targets(windows, candidates, source, space)[i]).window != source
                && windows.windows.dom().contains(
                scene_targets(windows, candidates, source, space)[i].window,
            ),
    decreases candidates.len(),
{
    if candidates.len() > 0 {
        targets_are_other_known_windows(windows, candidates.drop_last(), source, space);
        let head = scene_targets(windows, candidates.drop_last(), source, space);
        let all = scene_targets(windows, candidates, source, space);
        assert forall|i: int| 0 <= i < all.len() implies (#[trigger] all[i]).window != source
            && windows.windows.dom().contains(all[i].window) by {
            if i < head.len() {
                assert(all[i] == head[i]);
            }
        }
    }
}

/// A drag within one space neither removes nor adds a window.
pub proof fn drags_within_a_space_move_no_window(
    commit: DragCommit,
    payload: MouseUpPayload,
    admitted: bool,
    windows: Windows,
)
    requires
        !changes_space(commit, payload),
    ensures
        moved_events(commit, payload, admitted).len() == 0,
        after_drop(windows, commit, payload, admitted) == windows,
{
}

/// A window that is not managed is never added to a space by a drag.
pub proof fn drags_add_only_managed_windows(commit: DragCommit, payload: MouseUpPayload, i: int)
    requires
        0 <= i < moved_events(commit, payload, false).len(),
    ensures
        moved_events(commit, payload, false)[i] is WindowRemoved,
{
}

/// Windows are offered as targets at the frames that they have, in the space that is dragged in,
/// with what the layout engine shows for each side.
pub proof fn targets_are_offered_where_they_are(
    windows: Windows,
    candidates: Seq<DropCandidate>,
    source: WindowId,
    space: SpaceId,
    i: int,
)
    requires
        0 <= i < candidates.len(),
        candidates[i].window != source,
        windows.windows.dom().contains(candidates[i].window),
    ensures
        exists|k: int|
            {
                let t = #[trigger] scene_targets(windows, candidates, source, space)[k];
                let c = candidates[i];
                &&& 0 <= k < scene_targets(windows, candidates, source, space).len()
                &&& t.window == c.window && t.space == space
                &&& t.frame == windows.windows[c.window].frame_monotonic
                &&& t.center_frame == c.center_frame && t.directional == c.directional
                &&& t.west_frame == c.west_frame && t.east_frame == c.east_frame
                &&& t.north_frame == c.north_frame && t.south_frame == c.south_frame
            },
    decreases candidates.len(),
{
    let head = candidates.drop_last();
    let before = scene_targets(windows, head, source, space);
    let all = scene_targets(windows, candidates, source, space);
    let c = candidates[i];
    if i < head.len() {
        assert(head[i] == c);
        targets_are_offered_where_they_are(windows, head, source, space, i);
        let k = choose|k: int|
            {
                let t = #[trigger] scene_targets(windows, head, source, space)[k];
                &&& 0 <= k < scene_targets(windows, head, source, space).len()
                &&& t.window == c.window && t.space == space
                &&& t.frame == windows.windows[c.window].frame_monotonic
                &&& t.center_frame == c.center_frame && t.directional == c.directional
                &&& t.west_frame == c.west_frame && t.east_frame == c.east_frame
                &&& t.north_frame == c.north_frame && t.south_frame == c.south_frame
            };
        assert(scene_targets(windows, candidates, source, space)[k] == before[k]);
    } else {
        let k = before.len() as int;
        assert(scene_targets(windows, candidates, source, space)[k].window == c.window);
    }
}

/// A drop is of the dragged window on its target, in the space of the target and with its action;
/// it is asked for exactly if both windows are known and the dragged one is in that space.
pub proof fn drops_are_of_the_dragged_window(windows: Windows, commit: DragCommit)
    ensures
        drop_of(windows, commit) matches Some(d) ==> {
            let t = commit.target->0;
            &&& commit.target is Some
            &&& d.source == commit.source.window && d.target == t.window
            &&& d.space == t.space && d.action == t.action
        },
        drop_of(windows, commit) is Some <==> commit.target is Some && commit.source.current_space
            == Some(commit.target->0.space) && windows.windows.dom().contains(
            commit.source.window,
        ) && windows.windows.dom().contains(commit.target->0.window),
{
}

/// A window that was dragged into another space leaves the one and enters the other, and is
/// remembered there as one that shows.
pub proof fn drags_move_windows_to_the_space_they_end_in(
    windows: Windows,
    commit: DragCommit,
    payload: MouseUpPayload,
    space: SpaceId,
    from: SpaceId,
    id: WindowServerId,
)
    requires
        commit.source.origin_space == Some(from),
        payload.final_space == Some(space),
        from != space,
        windows.windows.dom().contains(commit.source.window),
        windows.windows[commit.source.window].window_server_id == Some(id),
    ensures
        moved_events(commit, payload, true) =~= seq![
            LayoutEvent::WindowRemoved(commit.source.window),
            LayoutEvent::WindowAdded(space, commit.source.window),
        ],
        after_drop(windows, commit, payload, true).server_space[id] == space,
        after_drop(windows, commit, payload, true).visible.contains(id),
        after_drop(windows, commit, payload, true).windows == windows.windows,
        after_drop(windows, commit, payload, false) == windows,
        changes_space(commit, payload),
{
}

} // verus!
