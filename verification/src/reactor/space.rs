//! How the reactor follows changes of screens, spaces and fullscreen windows.

use vstd::prelude::*;

use crate::collections::{copied, VecMap, VecSet};
use crate::model::{Frame, Pid, Screen, SpaceId, WindowServerId, WindowServerInfo};
use crate::reactor::actor::LevelReading;
use crate::reactor::managers::{
    DragManager, DragState, FullscreenTrack, MissionControlManager, RefocusManager, RefocusState,
    SpaceManager, StaleCleanupState, WindowManager,
};
#[allow(unused_imports)]
use crate::reactor::managers::{MissionControlState, Windows};
use crate::reactor::transaction_manager::TransactionManager;
#[allow(unused_imports)]
use crate::reactor::window::FrameState;
use crate::reactor::window::{DestroyFacts, WindowEventHandler};
#[allow(unused_imports)]
use crate::spaces::authority::{Forwarded, ForwardedSpaceState, SpaceEventKind};
#[allow(unused_imports)]
use crate::spaces::topology::{
    changes, Delta, DisplayId, DisplaySpace, ResizedSpace, ScreenInfo, SpaceRemap,
    TopologyWindowDelta,
};
use crate::window_id::WindowId;

verus! {

/// A window that was seen in a fullscreen space, and where it was before.
#[derive(Clone, Copy, Debug, PartialEq, Eq, Structural)]
pub struct FullscreenWindowTrack {
    pub pid: Pid,
    pub window_id: Option<WindowId>,
    pub window_server_id: Option<WindowServerId>,
    pub last_known_user_space: Option<SpaceId>,
    pub last_seen_fullscreen_space: SpaceId,
}

impl FullscreenWindowTrack {
    /// Whether this is the track of a window with one of these numbers.
    pub open spec fn is_of(
        self,
        window_id: Option<WindowId>,
        window_server_id: Option<WindowServerId>,
    ) -> bool {
        (window_server_id is Some && self.window_server_id == window_server_id) || (window_id
            is Some && self.window_id == window_id)
    }

    fn is_track_of(
        &self,
        window_id: Option<WindowId>,
        window_server_id: Option<WindowServerId>,
    ) -> (r: bool)
        ensures
            r == self.is_of(window_id, window_server_id),
    {
        (window_server_id.is_some() && self.window_server_id == window_server_id) || (
        window_id.is_some() && self.window_id == window_id)
    }

    /// The track once more is known of its window.
    pub open spec fn completed(
        self,
        window_id: Option<WindowId>,
        window_server_id: Option<WindowServerId>,
        last_known_user_space: Option<SpaceId>,
        sid: SpaceId,
    ) -> FullscreenWindowTrack {
        FullscreenWindowTrack {
            window_id: if self.window_id is None {
                window_id
            } else {
                self.window_id
            },
            window_server_id: if self.window_server_id is None {
                window_server_id
            } else {
                self.window_server_id
            },
            last_known_user_space: if self.last_known_user_space is None {
                last_known_user_space
            } else {
                self.last_known_user_space
            },
            last_seen_fullscreen_space: sid,
            ..self
        }
    }
}

/// The position of the first track of a window in space `sid`, or the number of tracks.
pub open spec fn track_in_space(
    tracks: Seq<FullscreenWindowTrack>,
    sid: SpaceId,
    window_id: Option<WindowId>,
    window_server_id: Option<WindowServerId>,
) -> int
    decreases tracks.len(),
{
    if tracks.len() == 0 {
        0
    } else {
        let i = track_in_space(tracks.drop_last(), sid, window_id, window_server_id);
        if i < tracks.len() - 1 {
            i
        } else if tracks.last().last_seen_fullscreen_space == sid && tracks.last().is_of(
            window_id,
            window_server_id,
        ) {
            tracks.len() - 1
        } else {
            tracks.len() as int
        }
    }
}

/// The position of the first track of a window in any space, or the number of tracks.
pub open spec fn track_anywhere(
    tracks: Seq<FullscreenWindowTrack>,
    window_id: Option<WindowId>,
    window_server_id: Option<WindowServerId>,
) -> int
    decreases tracks.len(),
{
    if tracks.len() == 0 {
        0
    } else {
        let i = track_anywhere(tracks.drop_last(), window_id, window_server_id);
        if i < tracks.len() - 1 {
            i
        } else if tracks.last().is_of(window_id, window_server_id) {
            tracks.len() - 1
        } else {
            tracks.len() as int
        }
    }
}

/// The tracks once a window was seen in the fullscreen space `sid`.
pub open spec fn recorded(
    tracks: Seq<FullscreenWindowTrack>,
    sid: SpaceId,
    pid: Pid,
    window_id: Option<WindowId>,
    window_server_id: Option<WindowServerId>,
    last_known_user_space: Option<SpaceId>,
) -> Seq<FullscreenWindowTrack> {
    let i = track_in_space(tracks, sid, window_id, window_server_id);
    if i < tracks.len() {
        tracks.update(
            i,
            tracks[i].completed(window_id, window_server_id, last_known_user_space, sid),
        )
    } else {
        tracks.push(
            FullscreenWindowTrack {
                pid,
                window_id,
                window_server_id,
                last_known_user_space,
                last_seen_fullscreen_space: sid,
            },
        )
    }
}

/// The tracks without those of one window.
pub open spec fn untracked(
    tracks: Seq<FullscreenWindowTrack>,
    window_id: Option<WindowId>,
    window_server_id: Option<WindowServerId>,
) -> Seq<FullscreenWindowTrack>
    decreases tracks.len(),
{
    if tracks.len() == 0 {
        Seq::empty()
    } else {
        let head = untracked(tracks.drop_last(), window_id, window_server_id);
        if tracks.last().is_of(window_id, window_server_id) {
            head
        } else {
            head.push(tracks.last())
        }
    }
}

proof fn lemma_track_in_space(
    tracks: Seq<FullscreenWindowTrack>,
    sid: SpaceId,
    window_id: Option<WindowId>,
    window_server_id: Option<WindowServerId>,
)
    ensures
        0 <= track_in_space(tracks, sid, window_id, window_server_id) <= tracks.len(),
        track_in_space(tracks, sid, window_id, window_server_id) < tracks.len() ==> tracks[
            track_in_space(tracks, sid, window_id, window_server_id)].last_seen_fullscreen_space
            == sid && tracks[track_in_space(tracks, sid, window_id, window_server_id)].is_of(
            window_id,
            window_server_id,
        ),
    decreases tracks.len(),
{
    if tracks.len() > 0 {
        lemma_track_in_space(tracks.drop_last(), sid, window_id, window_server_id);
    }
}

proof fn lemma_track_anywhere(
    tracks: Seq<FullscreenWindowTrack>,
    window_id: Option<WindowId>,
    window_server_id: Option<WindowServerId>,
)
    ensures
        0 <= track_anywhere(tracks, window_id, window_server_id) <= tracks.len(),
        track_anywhere(tracks, window_id, window_server_id) < tracks.len() ==> tracks[
            track_anywhere(tracks, window_id, window_server_id)].is_of(
            window_id,
            window_server_id,
        ),
    decreases tracks.len(),
{
    if tracks.len() > 0 {
        lemma_track_anywhere(tracks.drop_last(), window_id, window_server_id);
    }
}

/// Notes that a window was seen in the fullscreen space `sid`.
pub fn record_fullscreen_window(
    tracks: &mut Vec<FullscreenWindowTrack>,
    sid: SpaceId,
    pid: Pid,
    window_id: Option<WindowId>,
    window_server_id: Option<WindowServerId>,
    last_known_user_space: Option<SpaceId>,
)
    ensures
        final(tracks)@ == recorded(
            old(tracks)@,
            sid,
            pid,
            window_id,
            window_server_id,
            last_known_user_space,
        ),
{
    let ghost before = tracks@;
    let mut found: usize = tracks.len();
    let mut i: usize = 0;
    while i < tracks.len()
        invariant
            i <= tracks@.len(),
            tracks@ == before,
            found == tracks@.len() <==> track_in_space(
                before.take(i as int),
                sid,
                window_id,
                window_server_id,
            ) == i,
            found != tracks@.len() ==> found < i && track_in_space(
                before.take(i as int),
                sid,
                window_id,
                window_server_id,
            ) == found,
        decreases tracks@.len() - i,
    {
        assert(before.take(i + 1).drop_last() =~= before.take(i as int));
        let t = tracks[i];
        if found == tracks.len() && t.last_seen_fullscreen_space == sid && t.is_track_of(
            window_id,
            window_server_id,
        ) {
            found = i;
        }
        i = i + 1;
    }
    assert(before.take(i as int) =~= before);
    proof {
        lemma_track_in_space(before, sid, window_id, window_server_id);
    }
    if found < tracks.len() {
        let t = tracks[found];
        tracks.set(
            found,
            FullscreenWindowTrack {
                pid: t.pid,
                window_id: if t.window_id.is_none() {
                    window_id
                } else {
                    t.window_id
                },
                window_server_id: if t.window_server_id.is_none() {
                    window_server_id
                } else {
                    t.window_server_id
                },
                last_known_user_space: if t.last_known_user_space.is_none() {
                    last_known_user_space
                } else {
                    t.last_known_user_space
                },
                last_seen_fullscreen_space: sid,
            },
        );
    } else {
        tracks.push(
            FullscreenWindowTrack {
                pid,
                window_id,
                window_server_id,
                last_known_user_space,
                last_seen_fullscreen_space: sid,
            },
        );
    }
}

/// Takes the tracks of a window out; the result is the first one.
fn take_track(
    tracks: &mut Vec<FullscreenWindowTrack>,
    window_id: Option<WindowId>,
    window_server_id: Option<WindowServerId>,
) -> (r: Option<FullscreenWindowTrack>)
    ensures
        ({
            let i = track_anywhere(old(tracks)@, window_id, window_server_id);
            if i < old(tracks)@.len() {
                let t = old(tracks)@[i];
                r == Some(t) && final(tracks)@ == untracked(
                    old(tracks)@,
                    t.window_id,
                    t.window_server_id,
                )
            } else {
                r is None && final(tracks)@ == old(tracks)@
            }
        }),
{
    let ghost before = tracks@;
    proof {
        lemma_track_anywhere(before, window_id, window_server_id);
    }
    let mut found: Option<FullscreenWindowTrack> = None;
    let mut i: usize = 0;
    while i < tracks.len()
        invariant
            i <= tracks@.len(),
            tracks@ == before,
            ({
                let k = track_anywhere(before.take(i as int), window_id, window_server_id);
                found == (if k < i {
                    Some(before[k])
                } else {
                    None
                }) && 0 <= k <= i
            }),
        decreases tracks@.len() - i,
    {
        assert(before.take(i + 1).drop_last() =~= before.take(i as int));
        if found.is_none() && tracks[i].is_track_of(window_id, window_server_id) {
            found = Some(tracks[i]);
        }
        i = i + 1;
    }
    assert(before.take(i as int) =~= before);
    let t = match found {
        Some(t) => t,
        None => {
            return None;
        },
    };
    let mut kept: Vec<FullscreenWindowTrack> = Vec::new();
    let mut j: usize = 0;
    while j < tracks.len()
        invariant
            j <= tracks@.len(),
            tracks@ == before,
            kept@ == untracked(before.take(j as int), t.window_id, t.window_server_id),
        decreases tracks@.len() - j,
    {
        assert(before.take(j + 1).drop_last() =~= before.take(j as int));
        if !tracks[j].is_track_of(t.window_id, t.window_server_id) {
            kept.push(tracks[j]);
        }
        j = j + 1;
    }
    assert(before.take(j as int) =~= before);
    *tracks = kept;
    Some(t)
}

/// What is to be done about a window that changed its space.
#[derive(Clone, Copy, Debug, PartialEq, Eq, Structural)]
pub enum SpaceStep {
    /// The window leaves the layout, but its floating position is kept.
    RemovePreservingFloating(WindowId),
    /// The window leaves the layout.
    Remove(WindowId),
    /// The window is gone: it leaves the layout, and swap tracking starts over if so said.
    Gone { wid: WindowId, resets_swap: bool },
    UpdateLayout,
    /// Ask the application whether its window still exists.
    AskMaybeDestroyed(WindowId),
    /// Ask the application for its windows.
    AskVisibleWindows(Pid),
    /// A pending target frame of the window is reached if it was asked for in this space.
    ClearConfirmedTarget(WindowServerId, SpaceId),
    /// Assign the window to the space; if that changes the layout, update it if so said.
    Reassign { wid: WindowId, space: SpaceId, update_layout: bool },
    /// Put the window back into the layout if it shows; if that changes it, update it if so said.
    RestoreToLayout { wid: WindowId, space: SpaceId, update_layout: bool },
    /// Tell the window manager that an application was launched.
    LaunchApp(Pid),
}

/// What is known of a window that changed its space, and of the screens.
pub struct SpaceFacts {
    /// Where the window server puts the window.
    pub current_space: Option<SpaceId>,
    /// Whether two spaces are active.
    pub several_active: bool,
    /// Whether the window is assigned to a space that is hidden.
    pub hidden_assigned: bool,
    /// The space that each window is assigned to.
    pub assigned: VecMap<WindowId, SpaceId>,
    /// Whether the event contradicts a move of the window.
    pub conflicting: bool,
    /// Whether the window server shows the window.
    pub ordered_in: bool,
    /// The space that the window seems to be in.
    pub best_space: Option<SpaceId>,
    pub first_known_space: Option<SpaceId>,
    pub active: VecSet<SpaceId>,
    /// What the window server says of the window.
    pub server_window: Option<WindowServerInfo>,
    /// Whether that window is too small to be managed.
    pub tiny: bool,
    /// Whether the owner of that window runs, and the window manager can be told.
    pub can_launch: bool,
    /// What the window server says of the levels of windows.
    pub levels: VecMap<WindowServerId, LevelReading>,
    /// What is known where the window is gone.
    pub destroyed: DestroyFacts,
}

impl SpaceFacts {
    pub open spec fn assigned_to(self, wid: WindowId) -> Option<SpaceId> {
        if self.assigned@.dom().contains(wid) {
            Some(self.assigned@[wid])
        } else {
            None
        }
    }

    /// Where a window was before it went fullscreen.
    pub open spec fn last_user_space(self, window_id: Option<WindowId>) -> Option<SpaceId> {
        if window_id is Some && self.best_space is Some {
            self.best_space
        } else {
            self.first_known_space
        }
    }

    fn assigned_space_for_window_id(&self, wid: WindowId) -> (r: Option<SpaceId>)
        ensures
            r == self.assigned_to(wid),
    {
        match self.assigned.get(&wid) {
            Some(space) => Some(*space),
            None => None,
        }
    }

    pub fn resolve_last_known_user_space(&self, window_id: Option<WindowId>) -> (r: Option<SpaceId>)
        ensures
            r == self.last_user_space(window_id),
    {
        if window_id.is_some() && self.best_space.is_some() {
            self.best_space
        } else {
            self.first_known_space
        }
    }
}

/// The windows, the tracks and what is to be done.
#[verifier::ext_equal]
pub struct SpaceRun {
    pub windows: Windows,
    pub tracks: Seq<FullscreenWindowTrack>,
    pub steps: Seq<SpaceStep>,
}

pub open spec fn tracked_id(windows: Windows, wsid: WindowServerId) -> Option<WindowId> {
    if windows.window_ids.dom().contains(wsid) {
        Some(windows.window_ids[wsid])
    } else {
        None
    }
}

/// The window that a track belongs to now.
pub open spec fn owner_window(
    windows: Windows,
    track: FullscreenWindowTrack,
    wsid: WindowServerId,
    wid: WindowId,
) -> Option<WindowId> {
    if track.window_id is Some && windows.windows.dom().contains(track.window_id->0) {
        track.window_id
    } else if track.window_server_id is Some && tracked_id(windows, track.window_server_id->0)
        is Some {
        tracked_id(windows, track.window_server_id->0)
    } else if tracked_id(windows, wsid) is Some {
        tracked_id(windows, wsid)
    } else if windows.windows.dom().contains(wid) {
        Some(wid)
    } else {
        None
    }
}

impl SpaceRun {
    pub open spec fn then_do(self, step: SpaceStep) -> SpaceRun {
        SpaceRun { steps: self.steps.push(step), ..self }
    }

    pub open spec fn if_do(self, condition: bool, step: SpaceStep) -> SpaceRun {
        if condition {
            self.then_do(step)
        } else {
            self
        }
    }

    /// A window is in `space`, and shows or does not.
    pub open spec fn placed(self, wsid: WindowServerId, space: SpaceId, shows: bool) -> SpaceRun {
        SpaceRun {
            windows: Windows {
                server_space: self.windows.server_space.insert(wsid, space),
                visible: if shows {
                    self.windows.visible.insert(wsid)
                } else {
                    self.windows.visible.remove(wsid)
                },
                ..self.windows
            },
            ..self
        }
    }

    pub open spec fn record(
        self,
        sid: SpaceId,
        pid: Pid,
        window_id: Option<WindowId>,
        wsid: WindowServerId,
        facts: SpaceFacts,
    ) -> SpaceRun {
        SpaceRun {
            tracks: recorded(
                self.tracks,
                sid,
                pid,
                window_id,
                Some(wsid),
                facts.last_user_space(window_id),
            ),
            ..self
        }
    }

    /// A window went fullscreen: it leaves the layout of the space that it was in.
    pub open spec fn left_for_fullscreen(
        self,
        wid: WindowId,
        facts: SpaceFacts,
        update: bool,
    ) -> SpaceRun {
        let space = facts.last_user_space(Some(wid));
        if space is Some && facts.assigned_to(wid) == space {
            self.then_do(SpaceStep::RemovePreservingFloating(wid)).if_do(
                facts.active@.contains(space->0) && update,
                SpaceStep::UpdateLayout,
            )
        } else {
            self
        }
    }

    /// A window is in the user space `sid`: if it was fullscreen it is put back where it was,
    /// else it is assigned to that space.
    pub open spec fn brought_back(
        self,
        wsid: WindowServerId,
        sid: SpaceId,
        wid: WindowId,
        facts: SpaceFacts,
        apps: Set<Pid>,
        update_layout: bool,
    ) -> SpaceRun {
        let reassign = SpaceStep::Reassign { wid, space: sid, update_layout };
        let i = track_anywhere(self.tracks, Some(wid), Some(wsid));
        if i >= self.tracks.len() {
            self.then_do(reassign)
        } else {
            let track = self.tracks[i];
            let next = SpaceRun {
                tracks: untracked(self.tracks, track.window_id, track.window_server_id),
                ..self
            };
            match owner_window(self.windows, track, wsid, wid) {
                None => next.then_do(reassign),
                Some(owner) => {
                    let asked = next.if_do(
                        owner != wid && facts.assigned_to(wid) is Some,
                        SpaceStep::Remove(wid),
                    ).if_do(
                        apps.contains(track.pid),
                        SpaceStep::AskVisibleWindows(track.pid),
                    );
                    if facts.assigned_to(owner) == Some(sid) {
                        asked.if_do(
                            facts.active@.contains(sid),
                            SpaceStep::RestoreToLayout { wid: owner, space: sid, update_layout },
                        )
                    } else {
                        asked.then_do(
                            SpaceStep::Reassign { wid: owner, space: sid, update_layout },
                        )
                    }
                },
            }
        }
    }

    /// Whether an event about a user space is out of date.
    pub open spec fn is_stale(
        self,
        wsid: WindowServerId,
        sid: SpaceId,
        facts: SpaceFacts,
    ) -> bool {
        let wid = tracked_id(self.windows, wsid);
        ||| facts.current_space is Some && facts.current_space != Some(sid)
        ||| facts.several_active && self.windows.visible.contains(wsid) && wid is Some
            && !facts.hidden_assigned && facts.assigned_to(wid->0) is Some && facts.assigned_to(
            wid->0,
        ) != Some(sid)
        ||| wid is Some && facts.conflicting
    }

    /// The window that is gone rather than in another space: one that left a user space and is no
    /// longer shown by the window server.
    pub open spec fn gone(
        self,
        wsid: WindowServerId,
        sid: SpaceId,
        kind: SpaceEventKind,
        facts: SpaceFacts,
    ) -> Option<WindowId> {
        if kind == SpaceEventKind::User && !self.is_stale(wsid, sid, facts) && !facts.ordered_in {
            tracked_id(self.windows, wsid)
        } else {
            None
        }
    }

    /// A window left the space `sid` and is not gone.
    pub open spec fn disappeared(
        self,
        wsid: WindowServerId,
        sid: SpaceId,
        kind: SpaceEventKind,
        facts: SpaceFacts,
        apps: Set<Pid>,
        mission_control: bool,
    ) -> SpaceRun {
        let wid = tracked_id(self.windows, wsid);
        match kind {
            SpaceEventKind::Fullscreen => if wid is None
                && !self.windows.server_info.dom().contains(wsid) {
                self
            } else if wid is Some {
                self.record(sid, wid->0.pid, wid, wsid, facts).left_for_fullscreen(
                    wid->0,
                    facts,
                    !mission_control,
                ).if_do(
                    apps.contains(wid->0.pid),
                    SpaceStep::AskMaybeDestroyed(wid->0),
                )
            } else {
                self.record(sid, self.windows.server_info[wsid].pid, None, wsid, facts)
            },
            SpaceEventKind::User => if self.is_stale(wsid, sid, facts) {
                self
            } else if wid is None {
                self.placed(wsid, sid, false)
            } else if !facts.ordered_in {
                self
            } else {
                let laid_out = facts.assigned_to(wid->0) == Some(sid);
                self.placed(wsid, sid, false).if_do(
                    laid_out,
                    SpaceStep::RemovePreservingFloating(wid->0),
                ).if_do(laid_out && !mission_control, SpaceStep::UpdateLayout).if_do(
                    apps.contains(wid->0.pid),
                    SpaceStep::AskMaybeDestroyed(wid->0),
                )
            },
        }
    }

    /// A window that was not known entered the space `sid`.
    pub open spec fn newly_appeared(
        self,
        wsid: WindowServerId,
        sid: SpaceId,
        kind: SpaceEventKind,
        facts: SpaceFacts,
        apps: Set<Pid>,
    ) -> SpaceRun {
        let seen = SpaceRun {
            windows: Windows { observed: self.windows.observed.insert(wsid), ..self.windows },
            ..self
        };
        match facts.server_window {
            None => seen,
            Some(info) => if info.layer != 0 || facts.tiny {
                seen
            } else if kind == SpaceEventKind::Fullscreen {
                seen.record(sid, info.pid, None, wsid, facts).if_do(
                    apps.contains(info.pid),
                    SpaceStep::AskVisibleWindows(info.pid),
                )
            } else {
                let taken = SpaceRun {
                    windows: seen.windows.after_server_info(info, facts.levels@),
                    ..seen
                };
                if apps.contains(info.pid) {
                    taken.then_do(SpaceStep::AskVisibleWindows(info.pid))
                } else {
                    taken.if_do(facts.can_launch, SpaceStep::LaunchApp(info.pid))
                }
            },
        }
    }

    /// A window entered the space `sid`.
    pub open spec fn appeared(
        self,
        wsid: WindowServerId,
        sid: SpaceId,
        kind: SpaceEventKind,
        facts: SpaceFacts,
        apps: Set<Pid>,
        mission_control: bool,
    ) -> SpaceRun {
        let wid = tracked_id(self.windows, wsid);
        if kind == SpaceEventKind::User && self.is_stale(wsid, sid, facts) {
            self
        } else {
            let there = if kind == SpaceEventKind::User {
                self.placed(wsid, sid, true).then_do(SpaceStep::ClearConfirmedTarget(wsid, sid))
            } else {
                self
            };
            if wid is None && !self.windows.observed.contains(wsid) {
                there.newly_appeared(wsid, sid, kind, facts, apps)
            } else if mission_control || wid is None {
                there
            } else if kind == SpaceEventKind::User {
                there.brought_back(wsid, sid, wid->0, facts, apps, true)
            } else {
                there.record(sid, wid->0.pid, wid, wsid, facts).left_for_fullscreen(
                    wid->0,
                    facts,
                    true,
                )
            }
        }
    }

    /// What became of a window while the displays changed.
    pub open spec fn moved_with_displays(
        self,
        wsid: WindowServerId,
        appeared: Option<SpaceId>,
        disappeared: Option<SpaceId>,
        facts: SpaceFacts,
        apps: Set<Pid>,
    ) -> SpaceRun {
        let wid = tracked_id(self.windows, wsid);
        let target = if appeared is Some {
            appeared
        } else {
            facts.current_space
        };
        if target is Some {
            let there = self.placed(wsid, target->0, facts.active@.contains(target->0));
            if wid is Some {
                there.brought_back(wsid, target->0, wid->0, facts, apps, false)
            } else {
                there
            }
        } else if disappeared is Some {
            self.placed(wsid, disappeared->0, false).if_do(
                wid is Some && facts.assigned_to(wid->0) == disappeared && facts.active@.contains(
                    disappeared->0,
                ),
                SpaceStep::RemovePreservingFloating(wid->0),
            )
        } else {
            self
        }
    }
}

/// The windows and tracks at the start of an event.
pub open spec fn space_run(windows: Windows, tracks: Seq<FullscreenWindowTrack>) -> SpaceRun {
    SpaceRun { windows, tracks, steps: Seq::empty() }
}

impl WindowManager {
    pub fn tracked_window_id(&self, wsid: WindowServerId) -> (r: Option<WindowId>)
        ensures
            r == tracked_id(self@, wsid),
    {
        match self.window_ids.get(&wsid) {
            Some(wid) => Some(*wid),
            None => None,
        }
    }

    /// A window is in `space`, and shows or does not.
    pub fn place(&mut self, wsid: WindowServerId, space: SpaceId, shows: bool)
        ensures
            final(self)@ == space_run(old(self)@, Seq::empty()).placed(wsid, space, shows).windows,
    {
        let _ = self.window_server_space.insert(wsid, space);
        if shows {
            let _ = self.visible_windows.insert(wsid);
        } else {
            let _ = self.visible_windows.remove(&wsid);
        }
    }
}

fn find_owner_window(
    windows: &WindowManager,
    track: &FullscreenWindowTrack,
    wsid: WindowServerId,
    wid: WindowId,
) -> (r: Option<WindowId>)
    ensures
        r == owner_window(windows@, *track, wsid, wid),
{
    match track.window_id {
        Some(candidate) => {
            if windows.windows.contains_key(&candidate) {
                return Some(candidate);
            }
        },
        None => {},
    }
    match track.window_server_id {
        Some(id) => {
            let owner = windows.tracked_window_id(id);
            if owner.is_some() {
                return owner;
            }
        },
        None => {},
    }
    let owner = windows.tracked_window_id(wsid);
    if owner.is_some() {
        return owner;
    }
    if windows.windows.contains_key(&wid) {
        Some(wid)
    } else {
        None
    }
}

/// A window is in the user space `sid`: if it was fullscreen it is put back where it was, else it
/// is assigned to that space.
fn restore_fullscreen_window_to_user_space(
    windows: &WindowManager,
    tracks: &mut Vec<FullscreenWindowTrack>,
    wsid: WindowServerId,
    sid: SpaceId,
    wid: WindowId,
    facts: &SpaceFacts,
    apps: &VecSet<Pid>,
    update_layout: bool,
    steps: &mut Vec<SpaceStep>,
)
    ensures
        (SpaceRun { windows: windows@, tracks: final(tracks)@, steps: final(steps)@ }) == (
        SpaceRun { windows: windows@, tracks: old(tracks)@, steps: old(steps)@ }).brought_back(
            wsid,
            sid,
            wid,
            *facts,
            apps@,
            update_layout,
        ),
{
    let track = match take_track(tracks, Some(wid), Some(wsid)) {
        Some(track) => track,
        None => {
            steps.push(SpaceStep::Reassign { wid, space: sid, update_layout });
            return;
        },
    };
    let owner = match find_owner_window(windows, &track, wsid, wid) {
        Some(owner) => owner,
        None => {
            steps.push(SpaceStep::Reassign { wid, space: sid, update_layout });
            return;
        },
    };
    if owner != wid && facts.assigned_space_for_window_id(wid).is_some() {
        steps.push(SpaceStep::Remove(wid));
    }
    if apps.contains(&track.pid) {
        steps.push(SpaceStep::AskVisibleWindows(track.pid));
    }
    if facts.assigned_space_for_window_id(owner) == Some(sid) {
        if facts.active.contains(&sid) {
            steps.push(SpaceStep::RestoreToLayout { wid: owner, space: sid, update_layout });
        }
    } else {
        steps.push(SpaceStep::Reassign { wid: owner, space: sid, update_layout });
    }
}

/// A window went fullscreen: it leaves the layout of the space that it was in.
fn leave_for_fullscreen(
    wid: WindowId,
    facts: &SpaceFacts,
    update: bool,
    steps: &mut Vec<SpaceStep>,
)
    ensures
        forall|w: Windows, t: Seq<FullscreenWindowTrack>|
            (SpaceRun { windows: w, tracks: t, steps: final(steps)@ }) == #[trigger] (SpaceRun {
                windows: w,
                tracks: t,
                steps: old(steps)@,
            }).left_for_fullscreen(wid, *facts, update),
{
    match facts.resolve_last_known_user_space(Some(wid)) {
        Some(space) => {
            if facts.assigned_space_for_window_id(wid) == Some(space) {
                steps.push(SpaceStep::RemovePreservingFloating(wid));
                if facts.active.contains(&space) && update {
                    steps.push(SpaceStep::UpdateLayout);
                }
            }
        },
        None => {},
    }
}

pub struct SpaceEventHandler;

impl SpaceEventHandler {
    /// Whether an event about a user space is out of date.
    fn is_stale_event(
        windows: &WindowManager,
        wsid: WindowServerId,
        sid: SpaceId,
        facts: &SpaceFacts,
    ) -> (r: bool)
        ensures
            forall|t: Seq<FullscreenWindowTrack>|
                r == #[trigger] space_run(windows@, t).is_stale(wsid, sid, *facts),
    {
        if facts.current_space.is_some() && facts.current_space != Some(sid) {
            return true;
        }
        match windows.tracked_window_id(wsid) {
            Some(wid) => {
                let assigned = facts.assigned_space_for_window_id(wid);
                if facts.several_active && windows.visible_windows.contains(&wsid)
                    && !facts.hidden_assigned && assigned.is_some() && assigned != Some(sid) {
                    return true;
                }
                facts.conflicting
            },
            None => false,
        }
    }

    /// A window left a space: its connection to the window server was dropped there.
    pub fn handle_window_server_destroyed(
        windows: &mut WindowManager,
        transactions: &mut TransactionManager,
        drag: &mut DragManager,
        tracks: &mut Vec<FullscreenWindowTrack>,
        wsid: WindowServerId,
        sid: SpaceId,
        kind: SpaceEventKind,
        facts: &SpaceFacts,
        apps: &VecSet<Pid>,
        mission_control: bool,
    ) -> (r: Vec<SpaceStep>)
        ensures
            ({
                let run = space_run(old(windows)@, old(tracks)@);
                let before = FrameState {
                    windows: old(windows)@,
                    transactions: old(transactions)@,
                    drag: *old(drag),
                };
                match run.gone(wsid, sid, kind, *facts) {
                    Some(wid) => {
                        &&& (FrameState {
                            windows: final(windows)@,
                            transactions: final(transactions)@,
                            drag: *final(drag),
                        }) == before.after_destruction(wid, mission_control, facts.destroyed)
                        &&& final(tracks)@ == old(tracks)@
                        &&& r@ == (if before.destroys(
                            wid,
                            mission_control,
                            facts.destroyed,
                        ) {
                            seq![
                                SpaceStep::Gone {
                                    wid,
                                    resets_swap: old(drag).spec_dragged() == Some(wid)
                                        || facts.destroyed.last_target == Some(wid),
                                },
                            ]
                        } else {
                            Seq::empty()
                        })
                    },
                    None => {
                        &&& (SpaceRun {
                            windows: final(windows)@,
                            tracks: final(tracks)@,
                            steps: r@,
                        }) == run.disappeared(wsid, sid, kind, *facts, apps@, mission_control)
                        &&& final(transactions)@ == old(transactions)@
                        &&& *final(drag) == *old(drag)
                    },
                }
            }),
    {
        let mut steps: Vec<SpaceStep> = Vec::new();
        let tracked_wid = windows.tracked_window_id(wsid);
        match kind {
            SpaceEventKind::Fullscreen => {
                match tracked_wid {
                    Some(wid) => {
                        let last = facts.resolve_last_known_user_space(Some(wid));
                        record_fullscreen_window(
                            tracks,
                            sid,
                            wid.pid,
                            Some(wid),
                            Some(wsid),
                            last,
                        );
                        let ghost before = SpaceRun {
                            windows: windows@,
                            tracks: tracks@,
                            steps: steps@,
                        };
                        leave_for_fullscreen(wid, facts, !mission_control, &mut steps);
                        assert(before.left_for_fullscreen(wid, *facts, !mission_control).steps
                            == steps@);
                        if apps.contains(&wid.pid) {
                            steps.push(SpaceStep::AskMaybeDestroyed(wid));
                        }
                    },
                    None => match windows.window_server_info.get(&wsid) {
                        Some(info) => {
                            let last = facts.resolve_last_known_user_space(None);
                            record_fullscreen_window(
                                tracks,
                                sid,
                                info.pid,
                                None,
                                Some(wsid),
                                last,
                            );
                        },
                        None => {},
                    },
                }
            },
            SpaceEventKind::User => {
                let stale = SpaceEventHandler::is_stale_event(windows, wsid, sid, facts);
                assert(stale == space_run(windows@, tracks@).is_stale(wsid, sid, *facts));
                if stale {
                    return steps;
                }
                match tracked_wid {
                    Some(wid) => {
                        if !facts.ordered_in {
                            let gone = WindowEventHandler::handle_window_destroyed(
                                windows,
                                transactions,
                                drag,
                                wid,
                                mission_control,
                                &facts.destroyed,
                            );
                            if gone.removed {
                                steps.push(
                                    SpaceStep::Gone { wid, resets_swap: gone.resets_swap },
                                );
                            }
                            assert(gone.removed ==> steps@ =~= seq![
                                SpaceStep::Gone { wid, resets_swap: gone.resets_swap },
                            ]);
                            return steps;
                        }
                        windows.place(wsid, sid, false);
                        let laid_out = facts.assigned_space_for_window_id(wid) == Some(sid);
                        if laid_out {
                            steps.push(SpaceStep::RemovePreservingFloating(wid));
                            if !mission_control {
                                steps.push(SpaceStep::UpdateLayout);
                            }
                        }
                        if apps.contains(&wid.pid) {
                            steps.push(SpaceStep::AskMaybeDestroyed(wid));
                        }
                    },
                    None => {
                        windows.place(wsid, sid, false);
                    },
                }
            },
        }
        steps
    }

    fn handle_new_window(
        windows: &mut WindowManager,
        tracks: &mut Vec<FullscreenWindowTrack>,
        wsid: WindowServerId,
        sid: SpaceId,
        kind: SpaceEventKind,
        facts: &SpaceFacts,
        apps: &VecSet<Pid>,
        steps: &mut Vec<SpaceStep>,
    )
        ensures
            (SpaceRun { windows: final(windows)@, tracks: final(tracks)@, steps: final(steps)@ })
                == (SpaceRun {
                windows: old(windows)@,
                tracks: old(tracks)@,
                steps: old(steps)@,
            }).newly_appeared(wsid, sid, kind, *facts, apps@),
    {
        let _ = windows.observed_window_server_ids.insert(wsid);
        let info = match facts.server_window {
            Some(info) => info,
            None => {
                return;
            },
        };
        if info.layer != 0 || facts.tiny {
            return;
        }
        if kind == SpaceEventKind::Fullscreen {
            let last = facts.resolve_last_known_user_space(None);
            record_fullscreen_window(tracks, sid, info.pid, None, Some(wsid), last);
            if apps.contains(&info.pid) {
                steps.push(SpaceStep::AskVisibleWindows(info.pid));
            }
            return;
        }
        windows.take_server_info(info, &facts.levels);
        if apps.contains(&info.pid) {
            steps.push(SpaceStep::AskVisibleWindows(info.pid));
        } else if facts.can_launch {
            steps.push(SpaceStep::LaunchApp(info.pid));
        }
    }

    /// A window entered a space.
    pub fn handle_window_server_appeared(
        windows: &mut WindowManager,
        tracks: &mut Vec<FullscreenWindowTrack>,
        wsid: WindowServerId,
        sid: SpaceId,
        kind: SpaceEventKind,
        facts: &SpaceFacts,
        apps: &VecSet<Pid>,
        mission_control: bool,
    ) -> (r: Vec<SpaceStep>)
        ensures
            (SpaceRun { windows: final(windows)@, tracks: final(tracks)@, steps: r@ })
                == space_run(old(windows)@, old(tracks)@).appeared(
                wsid,
                sid,
                kind,
                *facts,
                apps@,
                mission_control,
            ),
    {
        let mut steps: Vec<SpaceStep> = Vec::new();
        let stale = SpaceEventHandler::is_stale_event(windows, wsid, sid, facts);
        assert(stale == space_run(windows@, tracks@).is_stale(wsid, sid, *facts));
        if kind == SpaceEventKind::User && stale {
            return steps;
        }
        let tracked_wid = windows.tracked_window_id(wsid);
        if kind == SpaceEventKind::User {
            windows.place(wsid, sid, true);
            steps.push(SpaceStep::ClearConfirmedTarget(wsid, sid));
        }
        match tracked_wid {
            Some(wid) => {
                if mission_control {
                    return steps;
                }
                if kind == SpaceEventKind::User {
                    restore_fullscreen_window_to_user_space(
                        windows,
                        tracks,
                        wsid,
                        sid,
                        wid,
                        facts,
                        apps,
                        true,
                        &mut steps,
                    );
                } else {
                    let last = facts.resolve_last_known_user_space(Some(wid));
                    record_fullscreen_window(tracks, sid, wid.pid, Some(wid), Some(wsid), last);
                    let ghost before = SpaceRun {
                        windows: windows@,
                        tracks: tracks@,
                        steps: steps@,
                    };
                    leave_for_fullscreen(wid, facts, true, &mut steps);
                    assert(before.left_for_fullscreen(wid, *facts, true).steps == steps@);
                }
            },
            None => {
                if !windows.observed_window_server_ids.contains(&wsid) {
                    SpaceEventHandler::handle_new_window(
                        windows,
                        tracks,
                        wsid,
                        sid,
                        kind,
                        facts,
                        apps,
                        &mut steps,
                    );
                }
            },
        }
        steps
    }

    /// Mission Control is shown: a drag ends with it. The result says whether it was hidden.
    pub fn handle_mission_control_native_entered(
        drag: &mut DragManager,
        mission_control: &mut MissionControlManager,
    ) -> (r: bool)
        ensures
            final(drag).drag_state == DragState::Inactive,
            final(drag).skip_layout_for_window is None,
            final(mission_control).mission_control_state == MissionControlState::Active,
            r == !old(mission_control).active(),
            final(mission_control).pending_mission_control_refresh == old(mission_control).pending_mission_control_refresh,
    {
        drag.drag_state = DragState::Inactive;
        drag.skip_layout_for_window = None;
        mission_control.set_mission_control_active(true)
    }

    /// Mission Control is hidden; the result says whether it was shown. Spaces are repaired and
    /// windows are looked at anew either way.
    pub fn handle_mission_control_native_exited(mission_control: &mut MissionControlManager) -> (r:
        bool)
        ensures
            final(mission_control).mission_control_state == (if r {
                MissionControlState::Inactive
            } else {
                old(mission_control).mission_control_state
            }),
            r == old(mission_control).active(),
            final(mission_control).pending_mission_control_refresh == old(mission_control).pending_mission_control_refresh,
    {
        if mission_control.is_mission_control_active() {
            mission_control.set_mission_control_active(false)
        } else {
            false
        }
    }
}

/// The windows of a change of displays, each once.
pub fn delta_windows(delta: &TopologyWindowDelta) -> (r: Vec<WindowServerId>)
    ensures
        r@.no_duplicates(),
        forall|w: WindowServerId|
            r@.contains(w) <==> delta@.appeared.dom().contains(w) || delta@.disappeared.dom().contains(
                w,
            ),
{
    let mut r = delta.appeared.keys();
    let rest = delta.disappeared.keys();
    let mut i: usize = 0;
    while i < rest.len()
        invariant
            i <= rest@.len(),
            r@.no_duplicates(),
            rest@.no_duplicates(),
            forall|w: WindowServerId|
                r@.contains(w) <==> delta@.appeared.dom().contains(w) || rest@.take(
                    i as int,
                ).contains(w),
        decreases rest@.len() - i,
    {
        let w: WindowServerId = rest[i];
        proof {
            crate::collections::lemma_take_next(rest@, i as int);
        }
        if !delta.appeared.contains_key(&w) {
            proof {
                crate::collections::lemma_push_new(r@, w);
                assert forall|x: WindowServerId| r@.push(w).contains(x) == (r@.contains(x) || x
                    == w) by {
                    crate::collections::lemma_push_contains(r@, w);
                }
            }
            r.push(w);
        }
        i = i + 1;
    }
    assert(rest@.take(i as int) =~= rest@);
    r
}

/// Follows what became of one window while the displays changed.
pub fn apply_topology_window_delta(
    windows: &mut WindowManager,
    tracks: &mut Vec<FullscreenWindowTrack>,
    delta: &TopologyWindowDelta,
    wsid: WindowServerId,
    facts: &SpaceFacts,
    apps: &VecSet<Pid>,
) -> (r: Vec<SpaceStep>)
    ensures
        (SpaceRun { windows: final(windows)@, tracks: final(tracks)@, steps: r@ }) == space_run(
            old(windows)@,
            old(tracks)@,
        ).moved_with_displays(
            wsid,
            entry(delta@.appeared, wsid),
            entry(delta@.disappeared, wsid),
            *facts,
            apps@,
        ),
{
    let mut steps: Vec<SpaceStep> = Vec::new();
    let tracked_wid = windows.tracked_window_id(wsid);
    let target: Option<SpaceId> = match delta.appeared.get(&wsid) {
        Some(space) => Some(*space),
        None => facts.current_space,
    };
    match target {
        Some(space) => {
            windows.place(wsid, space, facts.active.contains(&space));
            match tracked_wid {
                Some(wid) => {
                    restore_fullscreen_window_to_user_space(
                        windows,
                        tracks,
                        wsid,
                        space,
                        wid,
                        facts,
                        apps,
                        false,
                        &mut steps,
                    );
                },
                None => {},
            }
        },
        None => match delta.disappeared.get(&wsid) {
            Some(space) => {
                windows.place(wsid, *space, false);
                match tracked_wid {
                    Some(wid) => {
                        if facts.assigned_space_for_window_id(wid) == Some(*space)
                            && facts.active.contains(space) {
                            steps.push(SpaceStep::RemovePreservingFloating(wid));
                        }
                    },
                    None => {},
                }
            },
            None => {},
        },
    }
    steps
}

pub open spec fn entry(m: Map<WindowServerId, SpaceId>, w: WindowServerId) -> Option<SpaceId> {
    if m.dom().contains(w) {
        Some(m[w])
    } else {
        None
    }
}

/// What a new state of screens and spaces leads to, in this order.
#[derive(Clone, Copy, Debug, PartialEq, Eq, Structural)]
pub enum StateStep {
    /// Forget what is kept for displays that the new screens do not have.
    PruneDisplays,
    /// Tell the layout engine of every space that shows.
    ExposeAllSpaces,
    /// Work out anew which of the spaces that show are active.
    RecomputeActive,
    /// No window shows.
    ForgetWindowServerInfo,
    /// Follow a change that had to wait.
    ApplyPending,
    /// Targets of hidden windows are void.
    ClearHiddenTargets,
    /// The change has to wait until Mission Control is hidden.
    Defer,
    /// A space took the place of another.
    Remap(SpaceRemap),
    /// A space shows on this display.
    UpdateSpaceDisplay(DisplaySpace),
    /// Tell the activation policy of the new screens.
    SpacesUpdated,
    /// Put windows back that left a fullscreen space.
    RestoreAfterFullscreen,
    /// Tell the layout engine that a space has a new size.
    Expose(ResizedSpace),
    /// Follow the windows that changed their space with the displays.
    ApplyDelta,
    /// Look at the windows of the active spaces anew.
    Finalize,
    /// Ask every application for its windows and lay them out.
    ForceRefresh,
}

/// The screens and spaces as the reactor knows them.
pub struct SpaceState {
    pub screens: Vec<ScreenInfo>,
    pub fullscreen_spaces: VecSet<SpaceId>,
    pub has_seen_display_set: bool,
    pub shown_spaces: VecSet<SpaceId>,
    pub menu_bar_space: Option<SpaceId>,
    pub command_space: Option<SpaceId>,
    pub display_space_ids: Vec<DisplaySpace>,
    pub last_user_space_by_display: VecMap<DisplayId, SpaceId>,
    /// The spaces that windows are managed in.
    pub active_spaces: VecSet<SpaceId>,
    pub pending_space_change: Option<ForwardedSpaceState>,
}

#[verifier::ext_equal]
pub struct Spaces {
    pub screens: Seq<ScreenInfo>,
    pub fullscreen: Set<SpaceId>,
    pub has_seen: bool,
    pub shown: Set<SpaceId>,
    pub menu_bar_space: Option<SpaceId>,
    pub command_space: Option<SpaceId>,
    pub display_spaces: Seq<DisplaySpace>,
    pub last_user: Map<DisplayId, SpaceId>,
    pub active: Set<SpaceId>,
    pub pending: Option<Forwarded>,
}

impl SpaceState {
    pub open spec fn view(self) -> Spaces {
        Spaces {
            screens: self.screens@,
            fullscreen: self.fullscreen_spaces@,
            has_seen: self.has_seen_display_set,
            shown: self.shown_spaces@,
            menu_bar_space: self.menu_bar_space,
            command_space: self.command_space,
            display_spaces: self.display_space_ids@,
            last_user: self.last_user_space_by_display@,
            active: self.active_spaces@,
            pending: match self.pending_space_change {
                Some(p) => Some(p@),
                None => None,
            },
        }
    }
}

/// Whether a new state changes anything that layouts depend on by itself.
pub open spec fn changes_layout(f: Forwarded) -> bool {
    f.display_set_changed || f.should_force_refresh_layout || f.space_remaps.len() != 0
        || f.resized_spaces.len() != 0 || f.topology_window_delta is Some
}

/// Which display shows which space.
pub open spec fn shown_on(screens: Seq<ScreenInfo>) -> Seq<StateStep>
    decreases screens.len(),
{
    if screens.len() == 0 {
        Seq::empty()
    } else {
        let head = shown_on(screens.drop_last());
        let s = screens.last();
        if s.space is Some && s.display_uuid != 0 {
            head.push(
                StateStep::UpdateSpaceDisplay(
                    DisplaySpace { display: s.display_uuid, space: s.space->0 },
                ),
            )
        } else {
            head
        }
    }
}

/// The active spaces that have a new size.
pub open spec fn exposed(resized: Seq<ResizedSpace>, active: Set<SpaceId>) -> Seq<StateStep>
    decreases resized.len(),
{
    if resized.len() == 0 {
        Seq::empty()
    } else {
        let head = exposed(resized.drop_last(), active);
        if active.contains(resized.last().space) {
            head.push(StateStep::Expose(resized.last()))
        } else {
            head
        }
    }
}

pub open spec fn remapped(remaps: Seq<SpaceRemap>) -> Seq<StateStep> {
    remaps.map_values(|r: SpaceRemap| StateStep::Remap(r))
}

pub open spec fn when(condition: bool, step: StateStep) -> Seq<StateStep> {
    if condition {
        seq![step]
    } else {
        Seq::empty()
    }
}

impl Spaces {
    /// Whether nothing changed but the space that commands go to.
    pub open spec fn only_command_space(self, f: Forwarded, effective: Set<SpaceId>) -> bool {
        &&& !changes_layout(f)
        &&& self.screens == f.screens
        &&& self.fullscreen == f.fullscreen_spaces
        &&& self.active == effective
        &&& self.display_spaces == f.display_space_ids
        &&& self.last_user == f.last_user_space_by_display
    }

    pub open spec fn adopted(
        self,
        f: Forwarded,
        effective: Set<SpaceId>,
        menu_bar_space: Option<SpaceId>,
    ) -> Spaces {
        let seen = Spaces {
            has_seen: f.has_seen_display_set,
            fullscreen: f.fullscreen_spaces,
            shown: f.active_spaces,
            ..self
        };
        if self.only_command_space(f, effective) {
            Spaces { menu_bar_space, command_space: f.command_space, ..seen }
        } else if f.screens.len() == 0 {
            Spaces { screens: Seq::empty(), ..seen }
        } else {
            Spaces {
                screens: f.screens,
                menu_bar_space,
                command_space: f.command_space,
                display_spaces: f.display_space_ids,
                last_user: f.last_user_space_by_display,
                ..seen
            }
        }
    }

    pub open spec fn steps(
        self,
        f: Forwarded,
        effective: Set<SpaceId>,
        active_after: Set<SpaceId>,
        mission_control: bool,
    ) -> Seq<StateStep> {
        if self.only_command_space(f, effective) {
            Seq::empty()
        } else {
            let prune = when(f.display_set_changed, StateStep::PruneDisplays);
            if f.screens.len() == 0 {
                prune + when(self.screens.len() != 0, StateStep::ExposeAllSpaces)
                    + seq![
                    StateStep::RecomputeActive,
                    StateStep::ForgetWindowServerInfo,
                    StateStep::ApplyPending,
                ]
            } else {
                let clear = when(changes_layout(f), StateStep::ClearHiddenTargets);
                if mission_control {
                    prune + clear + seq![StateStep::Defer]
                } else {
                    prune + clear + remapped(f.space_remaps) + shown_on(f.screens) + seq![
                        StateStep::SpacesUpdated,
                        StateStep::RecomputeActive,
                        StateStep::RestoreAfterFullscreen,
                    ] + exposed(f.resized_spaces, active_after) + when(
                        f.topology_window_delta is Some,
                        StateStep::ApplyDelta,
                    ) + seq![StateStep::Finalize, StateStep::ApplyPending] + when(
                        f.should_force_refresh_layout,
                        StateStep::ForceRefresh,
                    )
                }
            }
        }
    }
}

fn same_screens(a: &Vec<ScreenInfo>, b: &Vec<ScreenInfo>) -> (r: bool)
    ensures
        r == (a@ == b@),
{
    if a.len() != b.len() {
        return false;
    }
    let mut i: usize = 0;
    while i < a.len()
        invariant
            i <= a@.len(),
            a@.len() == b@.len(),
            forall|j: int| 0 <= j < i ==> a@[j] == b@[j],
        decreases a@.len() - i,
    {
        if a[i] != b[i] {
            return false;
        }
        i = i + 1;
    }
    assert(a@ =~= b@);
    true
}

fn same_display_spaces(a: &Vec<DisplaySpace>, b: &Vec<DisplaySpace>) -> (r: bool)
    ensures
        r == (a@ == b@),
{
    if a.len() != b.len() {
        return false;
    }
    let mut i: usize = 0;
    while i < a.len()
        invariant
            i <= a@.len(),
            a@.len() == b@.len(),
            forall|j: int| 0 <= j < i ==> a@[j] == b@[j],
        decreases a@.len() - i,
    {
        if a[i] != b[i] {
            return false;
        }
        i = i + 1;
    }
    assert(a@ =~= b@);
    true
}

fn subset(a: &VecSet<SpaceId>, b: &VecSet<SpaceId>) -> (r: bool)
    ensures
        r == a@.subset_of(b@),
{
    let items = a.items();
    let mut i: usize = 0;
    while i < items.len()
        invariant
            i <= items@.len(),
            forall|s: SpaceId| items@.contains(s) <==> a@.contains(s),
            forall|j: int| 0 <= j < i ==> b@.contains(#[trigger] items@[j]),
        decreases items@.len() - i,
    {
        if !b.contains(&items[i]) {
            assert(items@.contains(items@[i as int]));
            return false;
        }
        i = i + 1;
    }
    assert forall|s: SpaceId| a@.contains(s) implies b@.contains(s) by {
        assert(items@.contains(s));
        let j = items@.index_of(s);
        assert(items@[j] == s);
    }
    true
}

fn same_set(a: &VecSet<SpaceId>, b: &VecSet<SpaceId>) -> (r: bool)
    ensures
        r == (a@ == b@),
{
    let r = subset(a, b) && subset(b, a);
    proof {
        if r {
            assert(a@ =~= b@);
        }
    }
    r
}

fn submap(a: &VecMap<DisplayId, SpaceId>, b: &VecMap<DisplayId, SpaceId>) -> (r: bool)
    ensures
        r == forall|d: DisplayId| #[trigger]
            a@.dom().contains(d) ==> b@.dom().contains(d) && b@[d] == a@[d],
{
    let keys = a.keys();
    let mut i: usize = 0;
    while i < keys.len()
        invariant
            i <= keys@.len(),
            forall|d: DisplayId| keys@.contains(d) <==> a@.dom().contains(d),
            forall|j: int|
                0 <= j < i ==> b@.dom().contains(#[trigger] keys@[j]) && b@[keys@[j]]
                    == a@[keys@[j]],
        decreases keys@.len() - i,
    {
        let d: DisplayId = keys[i];
        assert(keys@.contains(keys@[i as int]));
        let same: bool = match (a.get(&d), b.get(&d)) {
            (Some(x), Some(y)) => *x == *y,
            _ => false,
        };
        if !same {
            assert(a@.dom().contains(d));
            return false;
        }
        i = i + 1;
    }
    assert forall|d: DisplayId| #[trigger] a@.dom().contains(d) implies b@.dom().contains(d)
        && b@[d] == a@[d] by {
        assert(keys@.contains(d));
        let j = keys@.index_of(d);
        assert(keys@[j] == d);
    }
    true
}

fn same_map(a: &VecMap<DisplayId, SpaceId>, b: &VecMap<DisplayId, SpaceId>) -> (r: bool)
    ensures
        r == (a@ == b@),
{
    let r = submap(a, b) && submap(b, a);
    proof {
        if r {
            assert(a@ =~= b@);
        }
    }
    r
}

fn push_when(steps: &mut Vec<StateStep>, condition: bool, step: StateStep)
    ensures
        final(steps)@ == old(steps)@ + when(condition, step),
{
    if condition {
        steps.push(step);
    }
    assert(steps@ =~= old(steps)@ + when(condition, step));
}

impl SpaceState {
    fn is_only_command_space(&self, state: &ForwardedSpaceState, effective: &VecSet<SpaceId>) -> (r:
        bool)
        ensures
            r == self@.only_command_space(state@, effective@),
    {
        !state.display_set_changed && !state.should_force_refresh_layout
            && state.space_remaps.len() == 0 && state.resized_spaces.len() == 0
            && state.topology_window_delta.is_none() && same_screens(
            &self.screens,
            &state.screens,
        ) && same_set(&self.fullscreen_spaces, &state.fullscreen_spaces) && same_set(
            &self.active_spaces,
            effective,
        ) && same_display_spaces(&self.display_space_ids, &state.display_space_ids) && same_map(
            &self.last_user_space_by_display,
            &state.last_user_space_by_display,
        )
    }

    /// A new state of screens and spaces arrived; `effective` holds the spaces that are active
    /// in it by the policy as it stands, `active_after` those once the policy knows the screens.
    pub fn handle_space_state_changed(
        &mut self,
        refocus: &mut RefocusManager,
        state: &ForwardedSpaceState,
        menu_bar_space: Option<SpaceId>,
        effective: &VecSet<SpaceId>,
        active_after: &VecSet<SpaceId>,
        mission_control: bool,
    ) -> (r: Vec<StateStep>)
        ensures
            final(self)@ == old(self)@.adopted(state@, effective@, menu_bar_space),
            r@ == old(self)@.steps(state@, effective@, active_after@, mission_control),
            *final(refocus) == (if old(self)@.only_command_space(state@, effective@) {
                *old(refocus)
            } else {
                RefocusManager {
                    stale_cleanup_state: if state@.screens.len() == 0 {
                        StaleCleanupState::Suppressed
                    } else {
                        StaleCleanupState::Enabled
                    },
                    ..*old(refocus)
                }
            }),
    {
        let mut steps: Vec<StateStep> = Vec::new();
        let ghost f = state@;
        let only_command = self.is_only_command_space(state, effective);
        self.has_seen_display_set = state.has_seen_display_set;
        self.fullscreen_spaces = state.fullscreen_spaces.duplicate();
        self.shown_spaces = state.active_spaces.duplicate();
        if only_command {
            self.menu_bar_space = menu_bar_space;
            self.command_space = state.command_space;
            return steps;
        }
        push_when(&mut steps, state.display_set_changed, StateStep::PruneDisplays);
        let ghost prune = when(f.display_set_changed, StateStep::PruneDisplays);
        assert(steps@ =~= prune);
        if state.screens.len() == 0 {
            refocus.stale_cleanup_state = StaleCleanupState::Suppressed;
            push_when(&mut steps, self.screens.len() != 0, StateStep::ExposeAllSpaces);
            self.screens = Vec::new();
            let ghost p2 = steps@;
            steps.push(StateStep::RecomputeActive);
            steps.push(StateStep::ForgetWindowServerInfo);
            steps.push(StateStep::ApplyPending);
            assert(steps@ =~= p2 + seq![
                StateStep::RecomputeActive,
                StateStep::ForgetWindowServerInfo,
                StateStep::ApplyPending,
            ]);
            return steps;
        }
        refocus.stale_cleanup_state = StaleCleanupState::Enabled;
        self.screens = copied(&state.screens);
        self.menu_bar_space = menu_bar_space;
        self.command_space = state.command_space;
        self.display_space_ids = copied(&state.display_space_ids);
        self.last_user_space_by_display = state.last_user_space_by_display.duplicate();
        let invalidates = state.display_set_changed || state.should_force_refresh_layout
            || state.space_remaps.len() != 0 || state.resized_spaces.len() != 0
            || state.topology_window_delta.is_some();
        push_when(&mut steps, invalidates, StateStep::ClearHiddenTargets);
        let ghost p1 = prune + when(changes_layout(f), StateStep::ClearHiddenTargets);
        assert(steps@ =~= p1);
        if mission_control {
            steps.push(StateStep::Defer);
            assert(steps@ =~= p1 + seq![StateStep::Defer]);
            return steps;
        }
        let mut i: usize = 0;
        while i < state.space_remaps.len()
            invariant
                i <= state.space_remaps@.len(),
                steps@ == p1 + remapped(state.space_remaps@.take(i as int)),
            decreases state.space_remaps@.len() - i,
        {
            steps.push(StateStep::Remap(state.space_remaps[i]));
            assert(remapped(state.space_remaps@.take(i + 1)) =~= remapped(
                state.space_remaps@.take(i as int),
            ).push(StateStep::Remap(state.space_remaps@[i as int])));
            assert(steps@ =~= p1 + remapped(state.space_remaps@.take(i + 1)));
            i = i + 1;
        }
        assert(state.space_remaps@.take(i as int) =~= state.space_remaps@);
        let ghost p2 = p1 + remapped(f.space_remaps);
        let mut j: usize = 0;
        assert(steps@ =~= p2 + shown_on(state.screens@.take(0)));
        while j < state.screens.len()
            invariant
                j <= state.screens@.len(),
                steps@ == p2 + shown_on(state.screens@.take(j as int)),
            decreases state.screens@.len() - j,
        {
            assert(state.screens@.take(j + 1).drop_last() =~= state.screens@.take(j as int));
            let s = state.screens[j];
            match s.space {
                Some(space) => {
                    if s.display_uuid != 0 {
                        steps.push(
                            StateStep::UpdateSpaceDisplay(
                                DisplaySpace { display: s.display_uuid, space },
                            ),
                        );
                    }
                },
                None => {},
            }
            assert(steps@ =~= p2 + shown_on(state.screens@.take(j + 1)));
            j = j + 1;
        }
        assert(state.screens@.take(j as int) =~= state.screens@);
        let ghost p3 = p2 + shown_on(f.screens);
        steps.push(StateStep::SpacesUpdated);
        steps.push(StateStep::RecomputeActive);
        steps.push(StateStep::RestoreAfterFullscreen);
        let ghost p4 = p3 + seq![
            StateStep::SpacesUpdated,
            StateStep::RecomputeActive,
            StateStep::RestoreAfterFullscreen,
        ];
        assert(steps@ =~= p4);
        let mut k: usize = 0;
        assert(steps@ =~= p4 + exposed(state.resized_spaces@.take(0), active_after@));
        while k < state.resized_spaces.len()
            invariant
                k <= state.resized_spaces@.len(),
                steps@ == p4 + exposed(state.resized_spaces@.take(k as int), active_after@),
            decreases state.resized_spaces@.len() - k,
        {
            assert(state.resized_spaces@.take(k + 1).drop_last() =~= state.resized_spaces@.take(
                k as int,
            ));
            if active_after.contains(&state.resized_spaces[k].space) {
                steps.push(StateStep::Expose(state.resized_spaces[k]));
            }
            assert(steps@ =~= p4 + exposed(state.resized_spaces@.take(k + 1), active_after@));
            k = k + 1;
        }
        assert(state.resized_spaces@.take(k as int) =~= state.resized_spaces@);
        push_when(&mut steps, state.topology_window_delta.is_some(), StateStep::ApplyDelta);
        let ghost p5 = steps@;
        steps.push(StateStep::Finalize);
        steps.push(StateStep::ApplyPending);
        assert(steps@ =~= p5 + seq![StateStep::Finalize, StateStep::ApplyPending]);
        push_when(&mut steps, state.should_force_refresh_layout, StateStep::ForceRefresh);
        steps
    }

    /// Keeps a change for later.
    pub fn defer(&mut self, state: ForwardedSpaceState)
        ensures
            final(self)@ == (Spaces { pending: Some(state@), ..old(self)@ }),
    {
        self.pending_space_change = Some(state);
    }

    /// The spaces that the policy is asked about: those that show and are certain.
    pub fn authoritative_spaces(state: &ForwardedSpaceState) -> (r: Vec<Option<SpaceId>>)
        ensures
            r@ == certain_spaces(state@),
    {
        let mut r: Vec<Option<SpaceId>> = Vec::new();
        let mut i: usize = 0;
        while i < state.screens.len()
            invariant
                i <= state.screens@.len(),
                r@.len() == i,
                forall|j: int| 0 <= j < i ==> r@[j] == certain_spaces(state@)[j],
            decreases state.screens@.len() - i,
        {
            r.push(
                match state.screens[i].space {
                    Some(space) => if state.active_spaces.contains(&space) {
                        Some(space)
                    } else {
                        None
                    },
                    None => None,
                },
            );
            i = i + 1;
        }
        assert(r@ =~= certain_spaces(state@));
        r
    }
}

pub open spec fn certain_spaces(f: Forwarded) -> Seq<Option<SpaceId>> {
    f.screens.map_values(
        |s: ScreenInfo|
            if s.space is Some && f.active_spaces.contains(s.space->0) {
                s.space
            } else {
                None
            },
    )
}

/// A space change that had to wait.
pub struct PendingSpaceChange {
    pub spaces: Vec<Option<SpaceId>>,
    pub ws_info: Vec<WindowServerInfo>,
}

/// What became of a space change that had to wait.
pub enum PendingStep {
    /// None is waiting, or it does not fit the screens.
    Nothing,
    /// A fullscreen space shows: the change is dropped.
    Dropped,
    /// The change was made; what is left is to finalize it.
    Apply(PendingSpaceChange),
}

/// Whether a fullscreen space is among `spaces`.
pub open spec fn shows_fullscreen(spaces: Seq<Option<SpaceId>>, fullscreen: Set<SpaceId>) -> bool {
    exists|i: int|
        0 <= i < spaces.len() && (#[trigger] spaces[i]) is Some && fullscreen.contains(spaces[i]->0)
}

pub open spec fn with_screen_spaces(
    screens: Seq<Screen>,
    spaces: Seq<Option<SpaceId>>,
) -> Seq<Screen> {
    Seq::new(
        screens.len(),
        |i: int|
            if i < spaces.len() {
                Screen { space: spaces[i], ..screens[i] }
            } else {
                screens[i]
            },
    )
}

/// The first space that one of `screens` shows.
pub open spec fn first_screen_space(screens: Seq<Screen>) -> Option<SpaceId>
    decreases screens.len(),
{
    if screens.len() == 0 {
        None
    } else {
        match first_screen_space(screens.drop_last()) {
            Some(space) => Some(space),
            None => screens.last().space,
        }
    }
}

pub fn first_space_on(screens: &Vec<Screen>) -> (r: Option<SpaceId>)
    ensures
        r == first_screen_space(screens@),
{
    let mut r: Option<SpaceId> = None;
    let mut i: usize = 0;
    while i < screens.len()
        invariant
            i <= screens@.len(),
            r == first_screen_space(screens@.take(i as int)),
        decreases screens@.len() - i,
    {
        assert(screens@.take(i + 1).drop_last() =~= screens@.take(i as int));
        if r.is_none() {
            r = screens[i].space;
        }
        i = i + 1;
    }
    assert(screens@.take(i as int) =~= screens@);
    r
}

/// A space that shows and the frame of its screen.
#[derive(Clone, Copy, Debug, PartialEq, Eq, Structural)]
pub struct ExposedSpace {
    pub space: SpaceId,
    pub frame: Frame,
}

pub open spec fn exposed_spaces(screens: Seq<Screen>) -> Seq<ExposedSpace>
    decreases screens.len(),
{
    if screens.len() == 0 {
        Seq::empty()
    } else {
        let head = exposed_spaces(screens.drop_last());
        match screens.last().space {
            Some(space) => head.push(ExposedSpace { space, frame: screens.last().frame }),
            None => head,
        }
    }
}

/// What ends the stay in a fullscreen space.
pub struct FullscreenExit {
    /// A fullscreen space still shows: nothing changes.
    pub still_fullscreen: bool,
    /// The spaces that were left, with the applications whose windows are to be asked for.
    pub left: Vec<FullscreenTrack>,
}

/// The spaces of `spaces` that were left, each at its first mention.
pub open spec fn left_spaces(
    tracks: Map<SpaceId, FullscreenTrack>,
    spaces: Seq<Option<SpaceId>>,
) -> Seq<FullscreenTrack>
    decreases spaces.len(),
{
    if spaces.len() == 0 {
        Seq::empty()
    } else {
        let head = left_spaces(tracks, spaces.drop_last());
        let s = spaces.last();
        if s is Some && tracks.dom().contains(s->0) && !spaces.drop_last().contains(s) {
            head.push(tracks[s->0])
        } else {
            head
        }
    }
}

impl SpaceManager {
    /// The spaces that show, with the frames of their screens.
    pub fn expose_all_spaces(&self) -> (r: Vec<ExposedSpace>)
        ensures
            r@ == exposed_spaces(self.screens@),
    {
        let mut r: Vec<ExposedSpace> = Vec::new();
        let mut i: usize = 0;
        while i < self.screens.len()
            invariant
                i <= self.screens@.len(),
                r@ == exposed_spaces(self.screens@.take(i as int)),
            decreases self.screens@.len() - i,
        {
            assert(self.screens@.take(i + 1).drop_last() =~= self.screens@.take(i as int));
            match self.screens[i].space {
                Some(space) => {
                    r.push(ExposedSpace { space, frame: self.screens[i].frame });
                },
                None => {},
            }
            i = i + 1;
        }
        assert(self.screens@.take(i as int) =~= self.screens@);
        r
    }

    /// Notes which spaces the screens show.
    pub fn set_screen_spaces(&mut self, spaces: &Vec<Option<SpaceId>>)
        ensures
            final(self).screens@ == with_screen_spaces(old(self).screens@, spaces@),
            final(self).fullscreen_by_space == old(self).fullscreen_by_space,
            final(self).changing_screens == old(self).changing_screens,
    {
        let ghost before = self.screens@;
        let mut i: usize = 0;
        while i < spaces.len() && i < self.screens.len()
            invariant
                i <= spaces@.len(),
                i <= before.len(),
                self.screens@.len() == before.len(),
                self.fullscreen_by_space == old(self).fullscreen_by_space,
                self.changing_screens == old(self).changing_screens,
                forall|j: int|
                    0 <= j < before.len() ==> self.screens@[j] == (if j < i {
                        Screen { space: spaces@[j], ..before[j] }
                    } else {
                        before[j]
                    }),
            decreases spaces@.len() - i,
        {
            let s = self.screens[i];
            self.screens.set(i, Screen { frame: s.frame, space: spaces[i] });
            i = i + 1;
        }
        assert(self.screens@ =~= with_screen_spaces(before, spaces@));
    }

    /// Fullscreen spaces may have been left: unless one still shows, what was tracked of those
    /// that show again is handed out and forgotten.
    pub fn handle_fullscreen_space_transition(
        &mut self,
        spaces: &Vec<Option<SpaceId>>,
        fullscreen: &VecSet<SpaceId>,
    ) -> (r: FullscreenExit)
        ensures
            final(self).screens == old(self).screens,
            final(self).changing_screens == old(self).changing_screens,
            r.still_fullscreen == shows_fullscreen(spaces@, fullscreen@),
            r.still_fullscreen ==> r.left@.len() == 0 && final(self).fullscreen_by_space@ == old(self).fullscreen_by_space@,
            !r.still_fullscreen ==> r.left@ == left_spaces(old(self).fullscreen_by_space@, spaces@)
                && forall|s: SpaceId| #[trigger]
                final(self).fullscreen_by_space@.dom().contains(s) <==> old(self).fullscreen_by_space@.dom().contains(s) && !spaces@.contains(Some(s)),
            forall|s: SpaceId| #[trigger]
                final(self).fullscreen_by_space@.dom().contains(s) ==> final(self).fullscreen_by_space@[s] == old(self).fullscreen_by_space@[s],
    {
        let mut left: Vec<FullscreenTrack> = Vec::new();
        let mut i: usize = 0;
        while i < spaces.len()
            invariant
                i <= spaces@.len(),
                left@.len() == 0,
                *self == *old(self),
                forall|j: int|
                    0 <= j < i ==> !((#[trigger] spaces@[j]) is Some && fullscreen@.contains(
                        spaces@[j]->0,
                    )),
            decreases spaces@.len() - i,
        {
            match spaces[i] {
                Some(space) => {
                    if fullscreen.contains(&space) {
                        assert(spaces@[i as int] is Some);
                        return FullscreenExit { still_fullscreen: true, left };
                    }
                },
                None => {},
            }
            i = i + 1;
        }
        let ghost before = self.fullscreen_by_space@;
        let mut k: usize = 0;
        assert(left@ =~= left_spaces(before, spaces@.take(0)));
        while k < spaces.len()
            invariant
                k <= spaces@.len(),
                self.screens == old(self).screens,
                self.changing_screens == old(self).changing_screens,
                left@ == left_spaces(before, spaces@.take(k as int)),
                forall|s: SpaceId| #[trigger]
                    self.fullscreen_by_space@.dom().contains(s) <==> before.dom().contains(s)
                        && !spaces@.take(k as int).contains(Some(s)),
                forall|s: SpaceId| #[trigger]
                    self.fullscreen_by_space@.dom().contains(s) ==> self.fullscreen_by_space@[s]
                        == before[s],
            decreases spaces@.len() - k,
        {
            proof {
                assert(spaces@.take(k + 1).drop_last() =~= spaces@.take(k as int));
                assert forall|o: Option<SpaceId>|
                    spaces@.take(k + 1).contains(o) == (spaces@.take(k as int).contains(o) || o
                        == spaces@[k as int]) by {
                    assert(spaces@.take(k + 1) =~= spaces@.take(k as int).push(spaces@[k as int]));
                    crate::collections::lemma_push_contains(
                        spaces@.take(k as int),
                        spaces@[k as int],
                    );
                }
            }
            match spaces[k] {
                Some(space) => {
                    match self.fullscreen_by_space.remove(&space) {
                        Some(track) => {
                            left.push(track);
                        },
                        None => {},
                    }
                },
                None => {},
            }
            k = k + 1;
        }
        assert(spaces@.take(k as int) =~= spaces@);
        FullscreenExit { still_fullscreen: false, left }
    }

    /// The screens are managed anew: no window is on its way between them.
    pub fn finalize_space_change(
        &mut self,
        refocus: &mut RefocusManager,
        spaces: &Vec<Option<SpaceId>>,
    ) -> (r: Vec<ExposedSpace>)
        ensures
            r@ == exposed_spaces(old(self).screens@),
            final(self).screens == old(self).screens,
            final(self).fullscreen_by_space == old(self).fullscreen_by_space,
            final(self).changing_screens@ == Set::<WindowServerId>::empty(),
            *final(refocus) == (RefocusManager {
                stale_cleanup_state: if forall|i: int|
                    0 <= i < spaces@.len() ==> (#[trigger] spaces@[i]) is None {
                    StaleCleanupState::Suppressed
                } else {
                    StaleCleanupState::Enabled
                },
                ..*old(refocus)
            }),
    {
        refocus.update_stale_cleanup_state(spaces);
        self.changing_screens.clear();
        self.expose_all_spaces()
    }

    /// Makes a space change that had to wait, if it fits the screens.
    pub fn try_apply_pending_space_change(
        &mut self,
        pending: &mut Option<PendingSpaceChange>,
        fullscreen: &VecSet<SpaceId>,
    ) -> (r: (PendingStep, FullscreenExit))
        ensures
            ({
                let fits = *old(pending) is Some && old(pending)->0.spaces@.len() == old(self).screens@.len();
                if !fits {
                    r.0 is Nothing && *final(pending) == *old(pending) && *final(self) == *old(self)
                        && !r.1.still_fullscreen && r.1.left@.len() == 0
                } else {
                    let spaces = old(pending)->0.spaces@;
                    *final(pending) is None && r.1.still_fullscreen == shows_fullscreen(
                        spaces,
                        fullscreen@,
                    ) && (if r.1.still_fullscreen {
                        r.0 is Dropped && final(self).screens == old(self).screens
                            && r.1.left@.len() == 0 && final(self).fullscreen_by_space@ == old(self).fullscreen_by_space@
                    } else {
                        r.0 == PendingStep::Apply(old(pending)->0) && final(self).screens@
                            == with_screen_spaces(old(self).screens@, spaces) && r.1.left@
                            == left_spaces(old(self).fullscreen_by_space@, spaces) && forall|
                            s: SpaceId,
                        | #[trigger]
                            final(self).fullscreen_by_space@.dom().contains(s)
                                <==> old(self).fullscreen_by_space@.dom().contains(s)
                                && !spaces.contains(Some(s))
                    })
                }
            }),
            forall|s: SpaceId| #[trigger]
                final(self).fullscreen_by_space@.dom().contains(s) ==> final(self).fullscreen_by_space@[s] == old(self).fullscreen_by_space@[s],
            final(self).changing_screens == old(self).changing_screens,
    {
        match pending.take() {
            Some(change) => {
                if change.spaces.len() != self.screens.len() {
                    *pending = Some(change);
                    return (
                        PendingStep::Nothing,
                        FullscreenExit { still_fullscreen: false, left: Vec::new() },
                    );
                }
                let exit = self.handle_fullscreen_space_transition(&change.spaces, fullscreen);
                if exit.still_fullscreen {
                    return (PendingStep::Dropped, exit);
                }
                self.set_screen_spaces(&change.spaces);
                (PendingStep::Apply(change), exit)
            },
            None => (
                PendingStep::Nothing,
                FullscreenExit { still_fullscreen: false, left: Vec::new() },
            ),
        }
    }

    /// A fullscreen space was left: the focus is to be restored in the first space that shows.
    pub fn refocus_after_fullscreen(&self, refocus: &mut RefocusManager) -> (r: bool)
        ensures
            r == (first_screen_space(self.screens@) is Some),
            *final(refocus) == (match first_screen_space(self.screens@) {
                Some(space) => RefocusManager {
                    refocus_state: RefocusState::Pending(space),
                    ..*old(refocus)
                },
                None => *old(refocus),
            }),
    {
        match first_space_on(&self.screens) {
            Some(space) => {
                refocus.refocus_state = RefocusState::Pending(space);
                true
            },
            None => false,
        }
    }
}

/// Once a fullscreen window is put back where it was, no track of it is left.
pub proof fn a_restored_window_leaves_no_track(
    tracks: Seq<FullscreenWindowTrack>,
    window_id: Option<WindowId>,
    window_server_id: Option<WindowServerId>,
)
    ensures
        track_anywhere(
            untracked(tracks, window_id, window_server_id),
            window_id,
            window_server_id,
        ) == untracked(tracks, window_id, window_server_id).len(),
    decreases tracks.len(),
{
    if tracks.len() > 0 {
        a_restored_window_leaves_no_track(tracks.drop_last(), window_id, window_server_id);
        let head = untracked(tracks.drop_last(), window_id, window_server_id);
        if !tracks.last().is_of(window_id, window_server_id) {
            assert(head.push(tracks.last()).drop_last() =~= head);
        }
    }
}

/// Putting a window back forgets no other window's track.
pub proof fn other_tracks_are_kept(
    tracks: Seq<FullscreenWindowTrack>,
    window_id: Option<WindowId>,
    window_server_id: Option<WindowServerId>,
    track: FullscreenWindowTrack,
)
    requires
        tracks.contains(track),
        !track.is_of(window_id, window_server_id),
    ensures
        untracked(tracks, window_id, window_server_id).contains(track),
    decreases tracks.len(),
{
    let head = untracked(tracks.drop_last(), window_id, window_server_id);
    if tracks.last() == track {
        assert(head.push(track)[head.len() as int] == track);
    } else {
        let i = tracks.index_of(track);
        assert(tracks.drop_last()[i] == track);
        other_tracks_are_kept(tracks.drop_last(), window_id, window_server_id, track);
        let j = head.index_of(track);
        assert(head.push(tracks.last())[j] == track);
    }
}

/// A window that was recorded is found again, by the window server's number.
pub proof fn a_recorded_window_is_found(
    tracks: Seq<FullscreenWindowTrack>,
    sid: SpaceId,
    pid: Pid,
    window_id: Option<WindowId>,
    wsid: WindowServerId,
    last_known_user_space: Option<SpaceId>,
)
    requires
        track_anywhere(tracks, window_id, Some(wsid)) == tracks.len(),
    ensures
        ({
            let after = recorded(tracks, sid, pid, window_id, Some(wsid), last_known_user_space);
            let i = track_anywhere(after, window_id, Some(wsid));
            i < after.len() && after[i].last_known_user_space == last_known_user_space
                && after[i].pid == pid
        }),
{
    lemma_nowhere_is_not_in_space(tracks, sid, window_id, Some(wsid));
    let after = recorded(tracks, sid, pid, window_id, Some(wsid), last_known_user_space);
    assert(after.drop_last() =~= tracks);
}

proof fn lemma_nowhere_is_not_in_space(
    tracks: Seq<FullscreenWindowTrack>,
    sid: SpaceId,
    window_id: Option<WindowId>,
    window_server_id: Option<WindowServerId>,
)
    requires
        track_anywhere(tracks, window_id, window_server_id) == tracks.len(),
    ensures
        track_in_space(tracks, sid, window_id, window_server_id) == tracks.len(),
    decreases tracks.len(),
{
    if tracks.len() > 0 {
        lemma_track_anywhere(tracks.drop_last(), window_id, window_server_id);
        lemma_nowhere_is_not_in_space(tracks.drop_last(), sid, window_id, window_server_id);
    }
}

/// Recording a window twice in a space keeps one track of it there.
pub proof fn recording_twice_keeps_one_track(
    tracks: Seq<FullscreenWindowTrack>,
    sid: SpaceId,
    pid: Pid,
    window_id: Option<WindowId>,
    wsid: WindowServerId,
    last_known_user_space: Option<SpaceId>,
)
    requires
        track_in_space(tracks, sid, window_id, Some(wsid)) == tracks.len(),
    ensures
        ({
            let once = recorded(tracks, sid, pid, window_id, Some(wsid), last_known_user_space);
            recorded(once, sid, pid, window_id, Some(wsid), last_known_user_space) == once
        }),
{
    let once = recorded(tracks, sid, pid, window_id, Some(wsid), last_known_user_space);
    assert(once.drop_last() =~= tracks);
    assert(recorded(once, sid, pid, window_id, Some(wsid), last_known_user_space) =~= once);
}

/// An event about a user space that is out of date changes nothing and asks for nothing.
pub proof fn stale_space_events_change_nothing(
    run: SpaceRun,
    wsid: WindowServerId,
    sid: SpaceId,
    facts: SpaceFacts,
    apps: Set<Pid>,
    mission_control: bool,
)
    requires
        run.is_stale(wsid, sid, facts),
    ensures
        run.appeared(wsid, sid, SpaceEventKind::User, facts, apps, mission_control) == run,
        run.disappeared(wsid, sid, SpaceEventKind::User, facts, apps, mission_control) == run,
        run.gone(wsid, sid, SpaceEventKind::User, facts) is None,
{
}

/// While Mission Control is shown, no event about spaces updates the layout of a known window.
pub proof fn mission_control_freezes_spaces(
    run: SpaceRun,
    wsid: WindowServerId,
    sid: SpaceId,
    kind: SpaceEventKind,
    facts: SpaceFacts,
    apps: Set<Pid>,
)
    requires
        !run.steps.contains(SpaceStep::UpdateLayout),
    ensures
        !run.disappeared(wsid, sid, kind, facts, apps, true).steps.contains(
            SpaceStep::UpdateLayout,
        ),
        !run.appeared(wsid, sid, kind, facts, apps, true).steps.contains(SpaceStep::UpdateLayout),
{
    assert forall|s: Seq<SpaceStep>, x: SpaceStep|
        !s.contains(SpaceStep::UpdateLayout) && x != SpaceStep::UpdateLayout implies !(
    #[trigger] s.push(x)).contains(SpaceStep::UpdateLayout) by {
        crate::collections::lemma_push_contains(s, x);
    }
}

/// A state that only moves the space that commands go to asks for nothing.
pub proof fn moving_the_command_space_asks_for_nothing(
    spaces: Spaces,
    f: Forwarded,
    effective: Set<SpaceId>,
    active_after: Set<SpaceId>,
    mission_control: bool,
    menu_bar_space: Option<SpaceId>,
)
    requires
        spaces.only_command_space(f, effective),
    ensures
        spaces.steps(f, effective, active_after, mission_control).len() == 0,
        spaces.adopted(f, effective, menu_bar_space).screens == spaces.screens,
        spaces.adopted(f, effective, menu_bar_space).command_space == f.command_space,
{
}

/// The same state a second time, with nothing in it that changes layouts by itself, asks for
/// nothing.
pub proof fn the_same_state_again_asks_for_nothing(
    spaces: Spaces,
    f: Forwarded,
    effective: Set<SpaceId>,
    active_after: Set<SpaceId>,
    mission_control: bool,
    menu_bar_space: Option<SpaceId>,
)
    requires
        !changes_layout(f),
        f.screens.len() != 0,
        spaces.active == effective,
    ensures
        spaces.adopted(f, effective, menu_bar_space).steps(
            f,
            effective,
            active_after,
            mission_control,
        ).len() == 0,
{
}

/// The track that is found of a window is the first one that is of it, in the space that is asked
/// for; if there is none, none is found.
pub proof fn the_first_track_of_a_window_is_found(
    tracks: Seq<FullscreenWindowTrack>,
    sid: SpaceId,
    w: Option<WindowId>,
    id: Option<WindowServerId>,
)
    ensures
        ({
            let i = track_anywhere(tracks, w, id);
            &&& 0 <= i <= tracks.len()
            &&& i < tracks.len() ==> (id is Some && tracks[i].window_server_id == id) || (w is Some
                && tracks[i].window_id == w)
            &&& forall|j: int|
                0 <= j < i ==> !((id is Some && (#[trigger] tracks[j]).window_server_id == id) || (w
                    is Some && tracks[j].window_id == w))
        }),
        ({
            let i = track_in_space(tracks, sid, w, id);
            &&& 0 <= i <= tracks.len()
            &&& i < tracks.len() ==> tracks[i].last_seen_fullscreen_space == sid && ((id is Some
                && tracks[i].window_server_id == id) || (w is Some && tracks[i].window_id == w))
            &&& forall|j: int|
                0 <= j < i && (#[trigger] tracks[j]).last_seen_fullscreen_space == sid ==> !((id
                    is Some && tracks[j].window_server_id == id) || (w is Some
                    && tracks[j].window_id == w))
        }),
    decreases tracks.len(),
{
    if tracks.len() > 0 {
        let head = tracks.drop_last();
        the_first_track_of_a_window_is_found(head, sid, w, id);
        assert(forall|j: int| 0 <= j < head.len() ==> head[j] == tracks[j]);
        assert(tracks[tracks.len() - 1] == tracks.last());
        let i = track_anywhere(tracks, w, id);
        assert forall|j: int| 0 <= j < i implies !((id is Some && (
        #[trigger] tracks[j]).window_server_id == id) || (w is Some && tracks[j].window_id == w)) by {
            if j < head.len() {
                assert(head[j] == tracks[j]);
            }
        }
        let k = track_in_space(tracks, sid, w, id);
        assert forall|j: int|
            0 <= j < k && (#[trigger] tracks[j]).last_seen_fullscreen_space == sid implies !((id
            is Some && tracks[j].window_server_id == id) || (w is Some && tracks[j].window_id
            == w)) by {
            if j < head.len() {
                assert(head[j] == tracks[j]);
            }
        }
    }
}

/// A track that is completed keeps what it says and takes over only what it lacked; a window that
/// is recorded anew is recorded with what is known of it.
pub proof fn tracks_keep_what_they_say(
    tracks: Seq<FullscreenWindowTrack>,
    t: FullscreenWindowTrack,
    sid: SpaceId,
    pid: Pid,
    w: Option<WindowId>,
    id: Option<WindowServerId>,
    space: Option<SpaceId>,
)
    ensures
        ({
            let c = t.completed(w, id, space, sid);
            &&& c.pid == t.pid && c.last_seen_fullscreen_space == sid
            &&& t.window_id is Some ==> c.window_id == t.window_id
            &&& t.window_id is None ==> c.window_id == w
            &&& t.window_server_id is Some ==> c.window_server_id == t.window_server_id
            &&& t.window_server_id is None ==> c.window_server_id == id
            &&& t.last_known_user_space is Some ==> c.last_known_user_space
                == t.last_known_user_space
            &&& t.last_known_user_space is None ==> c.last_known_user_space == space
        }),
        (forall|j: int|
            0 <= j < tracks.len() && (#[trigger] tracks[j]).last_seen_fullscreen_space == sid ==> !((
            id is Some && tracks[j].window_server_id == id) || (w is Some && tracks[j].window_id
                == w))) ==> {
            let after = recorded(tracks, sid, pid, w, id, space);
            &&& after.len() == tracks.len() + 1
            &&& after.drop_last() =~= tracks
            &&& after.last().pid == pid && after.last().window_id == w
            &&& after.last().window_server_id == id && after.last().last_known_user_space == space
            &&& after.last().last_seen_fullscreen_space == sid
        },
{
    the_first_track_of_a_window_is_found(tracks, sid, w, id);
}

/// Forgetting a window's tracks leaves exactly the tracks of other windows.
pub proof fn only_a_windows_own_tracks_are_forgotten(
    tracks: Seq<FullscreenWindowTrack>,
    w: Option<WindowId>,
    id: Option<WindowServerId>,
    t: FullscreenWindowTrack,
)
    ensures
        untracked(tracks, w, id).contains(t) <==> tracks.contains(t) && !((id is Some
            && t.window_server_id == id) || (w is Some && t.window_id == w)),
    decreases tracks.len(),
{
    if tracks.len() > 0 {
        let head = tracks.drop_last();
        only_a_windows_own_tracks_are_forgotten(head, w, id, t);
        assert(tracks =~= head.push(tracks.last()));
        crate::collections::lemma_push_contains(head, tracks.last());
        crate::collections::lemma_push_contains(untracked(head, w, id), tracks.last());
    }
}

/// A known window that enters a user space is in that space and shows, and is assigned to it; if
/// it was tracked as a fullscreen window it is put back there instead, and the track is forgotten.
pub proof fn windows_enter_the_space_they_appear_in(
    windows: Windows,
    tracks: Seq<FullscreenWindowTrack>,
    wsid: WindowServerId,
    sid: SpaceId,
    wid: WindowId,
    facts: SpaceFacts,
    apps: Set<Pid>,
)
    requires
        windows.window_ids.dom().contains(wsid),
        windows.window_ids[wsid] == wid,
        !space_run(windows, tracks).is_stale(wsid, sid, facts),
    ensures
        ({
            let run = space_run(windows, tracks).appeared(
                wsid,
                sid,
                SpaceEventKind::User,
                facts,
                apps,
                false,
            );
            &&& run.windows.server_space[wsid] == sid && run.windows.visible.contains(wsid)
            &&& run.windows.windows == windows.windows
            &&& run.steps.len() > 0 && run.steps[0] == SpaceStep::ClearConfirmedTarget(wsid, sid)
            &&& (forall|j: int|
                0 <= j < tracks.len() ==> (#[trigger] tracks[j]).window_server_id != Some(wsid)
                    && tracks[j].window_id != Some(wid)) ==> run.tracks == tracks
                && run.steps.len() == 2 && run.steps[1] == (SpaceStep::Reassign {
                wid,
                space: sid,
                update_layout: true,
            })
            &&& forall|j: int|
                0 <= j < tracks.len() && ((#[trigger] tracks[j]).window_server_id == Some(wsid)
                    || tracks[j].window_id == Some(wid)) && windows.windows.dom().contains(wid)
                    && tracks[j].window_id == Some(wid) && (forall|k: int|
                    0 <= k < j ==> (#[trigger] tracks[k]).window_server_id != Some(wsid)
                        && tracks[k].window_id != Some(wid)) ==> {
                    let back = SpaceStep::RestoreToLayout {
                        wid,
                        space: sid,
                        update_layout: true,
                    };
                    let assign = SpaceStep::Reassign { wid, space: sid, update_layout: true };
                    &&& !run.tracks.contains(tracks[j])
                    &&& facts.assigned@.dom().contains(wid) && facts.assigned@[wid] == sid
                        && facts.active@.contains(sid) ==> run.steps.last() == back
                    &&& !(facts.assigned@.dom().contains(wid) && facts.assigned@[wid] == sid)
                        ==> run.steps.last() == assign
                }
        }),
{
    the_first_track_of_a_window_is_found(tracks, 0, Some(wid), Some(wsid));
    let run = space_run(windows, tracks).appeared(
        wsid,
        sid,
        SpaceEventKind::User,
        facts,
        apps,
        false,
    );
    let i = track_anywhere(tracks, Some(wid), Some(wsid));
    assert forall|j: int|
        0 <= j < tracks.len() && ((#[trigger] tracks[j]).window_server_id == Some(wsid)
            || tracks[j].window_id == Some(wid)) && windows.windows.dom().contains(wid)
            && tracks[j].window_id == Some(wid) && (forall|k: int|
            0 <= k < j ==> (#[trigger] tracks[k]).window_server_id != Some(wsid)
                && tracks[k].window_id != Some(wid)) implies {
        let back = SpaceStep::RestoreToLayout { wid, space: sid, update_layout: true };
        let assign = SpaceStep::Reassign { wid, space: sid, update_layout: true };
        &&& !run.tracks.contains(tracks[j])
        &&& facts.assigned@.dom().contains(wid) && facts.assigned@[wid] == sid
            && facts.active@.contains(sid) ==> run.steps.last() == back
        &&& !(facts.assigned@.dom().contains(wid) && facts.assigned@[wid] == sid)
            ==> run.steps.last() == assign
    } by {
        assert(i == j);
        only_a_windows_own_tracks_are_forgotten(
            tracks,
            tracks[j].window_id,
            tracks[j].window_server_id,
            tracks[j],
        );
    }
}

/// A known window that enters a fullscreen space is tracked with the user space that it was in,
/// and leaves the layout of that space, if it is assigned to it, with its floating position kept.
pub proof fn fullscreen_windows_are_tracked_and_leave_the_layout(
    windows: Windows,
    tracks: Seq<FullscreenWindowTrack>,
    wsid: WindowServerId,
    sid: SpaceId,
    wid: WindowId,
    facts: SpaceFacts,
    apps: Set<Pid>,
)
    requires
        windows.window_ids.dom().contains(wsid),
        windows.window_ids[wsid] == wid,
        forall|j: int|
            0 <= j < tracks.len() ==> (#[trigger] tracks[j]).window_server_id != Some(wsid)
                && tracks[j].window_id != Some(wid),
    ensures
        ({
            let run = space_run(windows, tracks).appeared(
                wsid,
                sid,
                SpaceEventKind::Fullscreen,
                facts,
                apps,
                false,
            );
            let from = if facts.best_space is Some {
                facts.best_space
            } else {
                facts.first_known_space
            };
            let laid_out = from is Some && facts.assigned@.dom().contains(wid)
                && facts.assigned@[wid] == from->0;
            &&& run.windows == windows
            &&& run.tracks.len() == tracks.len() + 1
            &&& run.tracks.last().window_id == Some(wid)
            &&& run.tracks.last().window_server_id == Some(wsid)
            &&& run.tracks.last().pid == wid.pid
            &&& run.tracks.last().last_known_user_space == from
            &&& run.tracks.last().last_seen_fullscreen_space == sid
            &&& !laid_out ==> run.steps.len() == 0
            &&& laid_out ==> run.steps.len() > 0 && run.steps[0]
                == SpaceStep::RemovePreservingFloating(wid)
            &&& laid_out && facts.active@.contains(from->0) ==> run.steps.len() == 2
                && run.steps[1] == SpaceStep::UpdateLayout
        }),
{
    the_first_track_of_a_window_is_found(tracks, sid, Some(wid), Some(wsid));
    let k = track_in_space(tracks, sid, Some(wid), Some(wsid));
    if k < tracks.len() {
        assert(tracks[k].window_server_id != Some(wsid));
    }
}

/// A window that leaves a user space but still exists does not show any more, is remembered in
/// that space, and leaves its layout if it is in it; its application is asked whether it exists.
pub proof fn windows_that_leave_a_space_do_not_show(
    windows: Windows,
    tracks: Seq<FullscreenWindowTrack>,
    wsid: WindowServerId,
    sid: SpaceId,
    wid: WindowId,
    facts: SpaceFacts,
    apps: Set<Pid>,
)
    requires
        windows.window_ids.dom().contains(wsid),
        windows.window_ids[wsid] == wid,
        facts.ordered_in,
        !space_run(windows, tracks).is_stale(wsid, sid, facts),
        apps.contains(wid.pid),
    ensures
        ({
            let run = space_run(windows, tracks).disappeared(
                wsid,
                sid,
                SpaceEventKind::User,
                facts,
                apps,
                false,
            );
            let laid_out = facts.assigned@.dom().contains(wid) && facts.assigned@[wid] == sid;
            &&& !run.windows.visible.contains(wsid)
            &&& run.windows.server_space[wsid] == sid
            &&& run.windows.windows == windows.windows && run.tracks == tracks
            &&& run.steps.last() == SpaceStep::AskMaybeDestroyed(wid)
            &&& laid_out ==> run.steps.len() == 3 && run.steps[0]
                == SpaceStep::RemovePreservingFloating(wid) && run.steps[1]
                == SpaceStep::UpdateLayout
            &&& !laid_out ==> run.steps.len() == 1
            &&& space_run(windows, tracks).gone(wsid, sid, SpaceEventKind::User, facts) is None
        }),
{
}

/// A window that left a user space and that the window server no longer shows is gone; one that
/// left for a fullscreen space never is.
pub proof fn windows_that_no_longer_show_are_gone(
    windows: Windows,
    tracks: Seq<FullscreenWindowTrack>,
    wsid: WindowServerId,
    sid: SpaceId,
    facts: SpaceFacts,
)
    ensures
        ({
            let run = space_run(windows, tracks);
            &&& run.gone(wsid, sid, SpaceEventKind::Fullscreen, facts) is None
            &&& facts.ordered_in ==> run.gone(wsid, sid, SpaceEventKind::User, facts) is None
            &&& windows.window_ids.dom().contains(wsid) && !facts.ordered_in && !run.is_stale(
                wsid,
                sid,
                facts,
            ) ==> run.gone(wsid, sid, SpaceEventKind::User, facts) == Some(
                windows.window_ids[wsid],
            )
            &&& !windows.window_ids.dom().contains(wsid) ==> run.gone(
                wsid,
                sid,
                SpaceEventKind::User,
                facts,
            ) is None
        }),
{
}

/// An event is out of date if the window server has the window in another space by now, if it
/// contradicts a move of a known window, or if it takes a visible window out of the space that it
/// is assigned to while several are active. Nothing else makes it so.
pub proof fn events_are_out_of_date_for_a_reason(
    windows: Windows,
    tracks: Seq<FullscreenWindowTrack>,
    wsid: WindowServerId,
    sid: SpaceId,
    facts: SpaceFacts,
    now: SpaceId,
)
    ensures
        ({
            let stale = space_run(windows, tracks).is_stale(wsid, sid, facts);
            let known = windows.window_ids.dom().contains(wsid);
            &&& facts.current_space == Some(now) && now != sid ==> stale
            &&& known && facts.conflicting ==> stale
            &&& (facts.current_space is None || facts.current_space == Some(sid)) && !known
                ==> !stale
            &&& (facts.current_space is None || facts.current_space == Some(sid))
                && !facts.conflicting && (!facts.several_active || !windows.visible.contains(wsid))
                ==> !stale
            &&& known && facts.several_active && windows.visible.contains(wsid)
                && !facts.hidden_assigned && facts.assigned@.dom().contains(
                windows.window_ids[wsid],
            ) && facts.assigned@[windows.window_ids[wsid]] != sid ==> stale
        }),
{
}

/// A window that was not known is looked at once: an ordinary one in a user space is taken over
/// and its application asked for its windows, or launched; one in another layer, or too small, is
/// only noted.
pub proof fn new_windows_are_asked_for(
    windows: Windows,
    tracks: Seq<FullscreenWindowTrack>,
    wsid: WindowServerId,
    sid: SpaceId,
    facts: SpaceFacts,
    apps: Set<Pid>,
    info: WindowServerInfo,
)
    requires
        facts.server_window == Some(info),
    ensures
        ({
            let run = space_run(windows, tracks).newly_appeared(
                wsid,
                sid,
                SpaceEventKind::User,
                facts,
                apps,
            );
            &&& info.layer != 0 || facts.tiny ==> run.steps.len() == 0
                && run.windows.observed.contains(wsid) && run.windows.server_info
                == windows.server_info
            &&& info.layer == 0 && !facts.tiny ==> {
                &&& run.windows.server_info.dom().contains(info.id)
                &&& run.windows.server_info[info.id] == info
                &&& apps.contains(info.pid) ==> run.steps
                    =~= seq![SpaceStep::AskVisibleWindows(info.pid)]
                &&& !apps.contains(info.pid) && facts.can_launch ==> run.steps
                    =~= seq![SpaceStep::LaunchApp(info.pid)]
                &&& !apps.contains(info.pid) && !facts.can_launch ==> run.steps.len() == 0
            }
        }),
        ({
            let run = space_run(windows, tracks).newly_appeared(
                wsid,
                sid,
                SpaceEventKind::Fullscreen,
                facts,
                apps,
            );
            info.layer == 0 && !facts.tiny ==> {
                &&& apps.contains(info.pid) ==> run.steps
                    =~= seq![SpaceStep::AskVisibleWindows(info.pid)]
                &&& track_in_space(run.tracks, sid, None, Some(wsid)) < run.tracks.len()
            }
        }),
{
    the_first_track_of_a_window_is_found(tracks, sid, None, Some(wsid));
    let after = recorded(
        tracks,
        sid,
        info.pid,
        None,
        Some(wsid),
        facts.last_user_space(None),
    );
    the_first_track_of_a_window_is_found(after, sid, None, Some(wsid));
    let k = track_in_space(tracks, sid, None, Some(wsid));
    if track_in_space(after, sid, None, Some(wsid)) == after.len() {
        if k < tracks.len() {
            assert(after[k].window_server_id == Some(wsid));
            assert(after[k].last_seen_fullscreen_space == sid);
        } else {
            assert(after[tracks.len() as int].window_server_id == Some(wsid));
            assert(after[tracks.len() as int].last_seen_fullscreen_space == sid);
        }
    }
}

/// A window that moved with its display is in the space it appeared in, or else in the one that
/// the window server has it in, and shows if that is active; one that only disappeared does not
/// show, and leaves the layout it was in.
pub proof fn windows_move_with_their_displays(
    windows: Windows,
    tracks: Seq<FullscreenWindowTrack>,
    wsid: WindowServerId,
    facts: SpaceFacts,
    apps: Set<Pid>,
    space: SpaceId,
    from: Option<SpaceId>,
)
    ensures
        ({
            let run = space_run(windows, tracks).moved_with_displays(
                wsid,
                Some(space),
                from,
                facts,
                apps,
            );
            &&& run.windows.server_space[wsid] == space
            &&& run.windows.visible.contains(wsid) == facts.active@.contains(space)
            &&& !windows.window_ids.dom().contains(wsid) ==> run.steps.len() == 0
        }),
        facts.current_space == Some(space) ==> {
            let run = space_run(windows, tracks).moved_with_displays(wsid, None, from, facts, apps);
            &&& run.windows.server_space[wsid] == space
            &&& run.windows.visible.contains(wsid) == facts.active@.contains(space)
        },
        facts.current_space is None ==> {
            let run = space_run(windows, tracks).moved_with_displays(
                wsid,
                None,
                Some(space),
                facts,
                apps,
            );
            let wid = windows.window_ids[wsid];
            &&& run.windows.server_space[wsid] == space && !run.windows.visible.contains(wsid)
            &&& windows.window_ids.dom().contains(wsid) && facts.assigned@.dom().contains(wid)
                && facts.assigned@[wid] == space && facts.active@.contains(space) ==> run.steps
                =~= seq![SpaceStep::RemovePreservingFloating(wid)]
            &&& !facts.active@.contains(space) ==> run.steps.len() == 0
        },
        facts.current_space is None ==> space_run(windows, tracks).moved_with_displays(
            wsid,
            None,
            None,
            facts,
            apps,
        ) == space_run(windows, tracks),
{
}

/// Each screen shows the space that is given for that screen, and keeps its frame.
pub proof fn screens_show_the_spaces_given_for_them(
    screens: Seq<Screen>,
    spaces: Seq<Option<SpaceId>>,
    i: int,
)
    requires
        0 <= i < screens.len(),
    ensures
        with_screen_spaces(screens, spaces).len() == screens.len(),
        with_screen_spaces(screens, spaces)[i].frame == screens[i].frame,
        i < spaces.len() ==> with_screen_spaces(screens, spaces)[i].space == spaces[i],
        i >= spaces.len() ==> with_screen_spaces(screens, spaces)[i].space == screens[i].space,
        i < spaces.len() && spaces[i] is Some ==> forall|f: Set<SpaceId>|
            f.contains(spaces[i]->0) ==> #[trigger] shows_fullscreen(spaces, f),
        !shows_fullscreen(spaces, Set::empty()),
{
}

/// The first space is that of the first screen that shows one, and a space is exposed with the
/// frame of a screen that shows it, once for each such screen.
pub proof fn spaces_are_exposed_with_the_frames_of_their_screens(
    screens: Seq<Screen>,
    space: SpaceId,
    frame: Frame,
)
    ensures
        exposed_spaces(screens).contains(ExposedSpace { space, frame }) <==> exists|i: int|
            0 <= i < screens.len() && (#[trigger] screens[i]).space == Some(space)
                && screens[i].frame == frame,
        forall|i: int|
            0 <= i < screens.len() && (#[trigger] screens[i]).space is Some && (forall|j: int|
                0 <= j < i ==> (#[trigger] screens[j]).space is None) ==> first_screen_space(
                screens,
            ) == screens[i].space,
        (forall|j: int| 0 <= j < screens.len() ==> (#[trigger] screens[j]).space is None)
            ==> first_screen_space(screens) is None && exposed_spaces(screens).len() == 0,
    decreases screens.len(),
{
    if screens.len() > 0 {
        let head = screens.drop_last();
        let n = screens.len() - 1;
        spaces_are_exposed_with_the_frames_of_their_screens(head, space, frame);
        assert(forall|k: int| 0 <= k < n ==> head[k] == screens[k]);
        assert(screens[n] == screens.last());
        if screens.last().space is Some {
            crate::collections::lemma_push_contains(
                exposed_spaces(head),
                ExposedSpace { space: screens.last().space->0, frame: screens.last().frame },
            );
        }
        if exists|i: int|
            0 <= i < head.len() && (#[trigger] head[i]).space == Some(space) && head[i].frame
                == frame {
            let i = choose|i: int|
                0 <= i < head.len() && (#[trigger] head[i]).space == Some(space) && head[i].frame
                    == frame;
            assert(screens[i].space == Some(space));
        }
        if exists|i: int|
            0 <= i < screens.len() && (#[trigger] screens[i]).space == Some(space)
                && screens[i].frame == frame {
            let i = choose|i: int|
                0 <= i < screens.len() && (#[trigger] screens[i]).space == Some(space)
                    && screens[i].frame == frame;
            if i < n {
                assert(head[i].space == Some(space));
            }
        }
        assert forall|i: int|
            0 <= i < screens.len() && (#[trigger] screens[i]).space is Some && (forall|j: int|
                0 <= j < i ==> (#[trigger] screens[j]).space is None) implies first_screen_space(
            screens,
        ) == screens[i].space by {
            if i < n {
                assert(head[i].space is Some);
                assert forall|j: int| 0 <= j < i implies (#[trigger] head[j]).space is None by {
                    assert(screens[j].space is None);
                }
            } else {
                assert forall|j: int| 0 <= j < head.len() implies (
                #[trigger] head[j]).space is None by {
                    assert(screens[j].space is None);
                }
            }
        }
        if forall|j: int| 0 <= j < screens.len() ==> (#[trigger] screens[j]).space is None {
            assert forall|j: int| 0 <= j < head.len() implies (#[trigger] head[j]).space is None by {
                assert(screens[j].space is None);
            }
            assert(screens[n].space is None);
        }
    }
}

/// The fullscreen spaces that were left are those that are among the spaces now, each with its own
/// applications.
pub proof fn spaces_that_were_left_are_named_with_their_applications(
    tracks: Map<SpaceId, FullscreenTrack>,
    spaces: Seq<Option<SpaceId>>,
    space: SpaceId,
)
    ensures
        spaces.contains(Some(space)) && tracks.dom().contains(space) ==> left_spaces(
            tracks,
            spaces,
        ).contains(tracks[space]),
        (forall|s: SpaceId| #[trigger] spaces.contains(Some(s)) ==> !tracks.dom().contains(s))
            ==> left_spaces(tracks, spaces).len() == 0,
        left_spaces(tracks, spaces).len() <= spaces.len(),
    decreases spaces.len(),
{
    if spaces.len() > 0 {
        let head = spaces.drop_last();
        spaces_that_were_left_are_named_with_their_applications(tracks, head, space);
        assert(spaces =~= head.push(spaces.last()));
        crate::collections::lemma_push_contains(head, spaces.last());
        if spaces.last() is Some {
            crate::collections::lemma_push_contains(
                left_spaces(tracks, head),
                tracks[spaces.last()->0],
            );
        }
        if forall|s: SpaceId| #[trigger] spaces.contains(Some(s)) ==> !tracks.dom().contains(s) {
            assert forall|s: SpaceId| #[trigger] head.contains(Some(s)) implies !tracks.dom().contains(
                s,
            ) by {
                assert(spaces.contains(Some(s)));
            }
            if spaces.last() is Some {
                assert(spaces.contains(Some(spaces.last()->0)));
            }
        }
    }
}

/// A display is told of the space that its screen shows, and an active space that has a new size
/// is exposed with it.
pub proof fn displays_and_sizes_are_told(
    screens: Seq<ScreenInfo>,
    resized: Seq<ResizedSpace>,
    remaps: Seq<SpaceRemap>,
    active: Set<SpaceId>,
    d: DisplaySpace,
    r: ResizedSpace,
)
    ensures
        shown_on(screens).contains(StateStep::UpdateSpaceDisplay(d)) <==> d.display != 0 && exists|
            i: int,
        |
            0 <= i < screens.len() && (#[trigger] screens[i]).space == Some(d.space)
                && screens[i].display_uuid == d.display,
        exposed(resized, active).contains(StateStep::Expose(r)) <==> resized.contains(r)
            && active.contains(r.space),
        remapped(remaps).len() == remaps.len(),
        forall|i: int|
            0 <= i < remaps.len() ==> #[trigger] remapped(remaps)[i] == StateStep::Remap(remaps[i]),
    decreases screens.len(), resized.len(),
{
    if screens.len() > 0 {
        let head = screens.drop_last();
        let n = screens.len() - 1;
        let s = screens.last();
        displays_and_sizes_are_told(head, resized, remaps, active, d, r);
        assert(forall|k: int| 0 <= k < n ==> head[k] == screens[k]);
        assert(screens[n] == s);
        if s.space is Some {
            crate::collections::lemma_push_contains(
                shown_on(head),
                StateStep::UpdateSpaceDisplay(
                    DisplaySpace { display: s.display_uuid, space: s.space->0 },
                ),
            );
        }
        if exists|i: int|
            0 <= i < head.len() && (#[trigger] head[i]).space == Some(d.space)
                && head[i].display_uuid == d.display {
            let i = choose|i: int|
                0 <= i < head.len() && (#[trigger] head[i]).space == Some(d.space)
                    && head[i].display_uuid == d.display;
            assert(screens[i].space == Some(d.space));
        }
        if exists|i: int|
            0 <= i < screens.len() && (#[trigger] screens[i]).space == Some(d.space)
                && screens[i].display_uuid == d.display {
            let i = choose|i: int|
                0 <= i < screens.len() && (#[trigger] screens[i]).space == Some(d.space)
                    && screens[i].display_uuid == d.display;
            if i < n {
                assert(head[i].space == Some(d.space));
            }
        }
    } else if resized.len() > 0 {
        let head = resized.drop_last();
        displays_and_sizes_are_told(screens, head, remaps, active, d, r);
        assert(resized =~= head.push(resized.last()));
        crate::collections::lemma_push_contains(head, resized.last());
        crate::collections::lemma_push_contains(
            exposed(head, active),
            StateStep::Expose(resized.last()),
        );
    }
}

/// A new state is taken over as it was forwarded, unless only the space that commands go to moved
/// or no screen is left.
pub proof fn forwarded_states_are_taken_over(
    spaces: Spaces,
    f: Forwarded,
    effective: Set<SpaceId>,
    menu_bar_space: Option<SpaceId>,
)
    ensures
        ({
            let a = spaces.adopted(f, effective, menu_bar_space);
            &&& a.has_seen == f.has_seen_display_set && a.fullscreen == f.fullscreen_spaces
            &&& a.shown == f.active_spaces && a.active == spaces.active
            &&& a.pending == spaces.pending
            &&& f.screens.len() > 0 ==> a.screens == f.screens && a.command_space
                == f.command_space && a.menu_bar_space == menu_bar_space && a.display_spaces
                == f.display_space_ids && a.last_user == f.last_user_space_by_display
            &&& f.screens.len() == 0 ==> a.screens.len() == 0
        }),
{
}

/// While Mission Control shows, a change is put off and nothing is laid out; otherwise windows
/// that moved with their displays are followed, and a refresh follows if it was asked for.
pub proof fn state_changes_wait_for_mission_control(
    spaces: Spaces,
    f: Forwarded,
    effective: Set<SpaceId>,
    active_after: Set<SpaceId>,
)
    requires
        f.screens.len() > 0,
        !spaces.only_command_space(f, effective),
    ensures
        ({
            let held = spaces.steps(f, effective, active_after, true);
            let steps = spaces.steps(f, effective, active_after, false);
            &&& held.last() == StateStep::Defer
            &&& !held.contains(StateStep::Finalize) && !held.contains(StateStep::ForceRefresh)
            &&& f.should_force_refresh_layout ==> steps.last() == StateStep::ForceRefresh
            &&& !f.should_force_refresh_layout ==> steps.last() == StateStep::ApplyPending
            &&& f.display_set_changed ==> held[0] == StateStep::PruneDisplays && steps[0]
                == StateStep::PruneDisplays
            &&& f.topology_window_delta is Some || f.resized_spaces.len() > 0
                || f.space_remaps.len() > 0 || f.display_set_changed
                || f.should_force_refresh_layout ==> held.contains(StateStep::ClearHiddenTargets)
        }),
{
    let held = spaces.steps(f, effective, active_after, true);
    let prune = when(f.display_set_changed, StateStep::PruneDisplays);
    let clear = when(changes_layout(f), StateStep::ClearHiddenTargets);
    if changes_layout(f) {
        assert(held[prune.len() as int] == StateStep::ClearHiddenTargets);
    }
}

/// A screen counts as showing a space for certain only while that space is active.
pub proof fn only_active_spaces_are_certain(f: Forwarded, i: int)
    requires
        0 <= i < f.screens.len(),
    ensures
        certain_spaces(f).len() == f.screens.len(),
        certain_spaces(f)[i] is Some ==> certain_spaces(f)[i] == f.screens[i].space,
        certain_spaces(f)[i] is Some <==> f.screens[i].space is Some && f.active_spaces.contains(
            f.screens[i].space->0,
        ),
{
}

/// A window that is known was last in its best space, if that is known; otherwise the first known
/// space counts.
pub proof fn windows_were_last_in_their_best_space(facts: SpaceFacts, wid: WindowId)
    ensures
        facts.best_space is Some ==> facts.last_user_space(Some(wid)) == facts.best_space,
        facts.best_space is None ==> facts.last_user_space(Some(wid)) == facts.first_known_space,
        facts.last_user_space(None) == facts.first_known_space,
{
}

/// The window that comes back is the one that was tracked, if it is known; else the one with the
/// tracked server id, else the one with the server id that was seen, else the one that was named.
pub proof fn the_tracked_window_comes_back_first(
    windows: Windows,
    track: FullscreenWindowTrack,
    wsid: WindowServerId,
    wid: WindowId,
)
    ensures
        ({
            let owner = owner_window(windows, track, wsid, wid);
            let by_window = track.window_id is Some && windows.windows.dom().contains(
                track.window_id->0,
            );
            let by_track = track.window_server_id is Some && windows.window_ids.dom().contains(
                track.window_server_id->0,
            );
            &&& by_window ==> owner == track.window_id
            &&& !by_window && by_track ==> owner == Some(
                windows.window_ids[track.window_server_id->0],
            )
            &&& !by_window && !by_track && windows.window_ids.dom().contains(wsid) ==> owner == Some(
                windows.window_ids[wsid],
            )
            &&& !by_window && !by_track && !windows.window_ids.dom().contains(wsid)
                && windows.windows.dom().contains(wid) ==> owner == Some(wid)
            &&& !by_window && !by_track && !windows.window_ids.dom().contains(wsid)
                && !windows.windows.dom().contains(wid) ==> owner is None
        }),
{
}

/// Without a screen the displays are pruned if their set changed, all spaces are exposed if there
/// was a screen before, and what is known of windows is forgotten before what waits is applied.
pub proof fn without_screens_windows_are_forgotten(
    spaces: Spaces,
    f: Forwarded,
    effective: Set<SpaceId>,
    active_after: Set<SpaceId>,
    mission_control: bool,
)
    requires
        f.screens.len() == 0,
        !spaces.only_command_space(f, effective),
    ensures
        ({
            let steps = spaces.steps(f, effective, active_after, mission_control);
            let last = seq![
                StateStep::RecomputeActive,
                StateStep::ForgetWindowServerInfo,
                StateStep::ApplyPending,
            ];
            &&& f.display_set_changed && spaces.screens.len() > 0 ==> steps == seq![
                StateStep::PruneDisplays,
                StateStep::ExposeAllSpaces,
            ] + last
            &&& f.display_set_changed && spaces.screens.len() == 0 ==> steps == seq![
                StateStep::PruneDisplays,
            ] + last
            &&& !f.display_set_changed && spaces.screens.len() > 0 ==> steps == seq![
                StateStep::ExposeAllSpaces,
            ] + last
            &&& !f.display_set_changed && spaces.screens.len() == 0 ==> steps == last
        }),
{
}

/// Where nothing but the space for commands changes, nothing is done.
pub proof fn the_space_for_commands_needs_no_steps(
    spaces: Spaces,
    f: Forwarded,
    effective: Set<SpaceId>,
    active_after: Set<SpaceId>,
    mission_control: bool,
)
    requires
        spaces.only_command_space(f, effective),
    ensures
        spaces.steps(f, effective, active_after, mission_control).len() == 0,
{
}

/// Where no space is remapped or resized, the spaces are shown, updated and recomputed, fullscreen
/// windows come back, windows that moved follow, and then all is made final.
pub proof fn screens_are_updated_in_order(
    spaces: Spaces,
    f: Forwarded,
    effective: Set<SpaceId>,
    active_after: Set<SpaceId>,
)
    requires
        f.screens.len() > 0,
        !spaces.only_command_space(f, effective),
        !f.display_set_changed,
        !f.should_force_refresh_layout,
        f.space_remaps.len() == 0,
        f.resized_spaces.len() == 0,
    ensures
        f.topology_window_delta is None ==> spaces.steps(f, effective, active_after, false)
            == shown_on(f.screens) + seq![
            StateStep::SpacesUpdated,
            StateStep::RecomputeActive,
            StateStep::RestoreAfterFullscreen,
            StateStep::Finalize,
            StateStep::ApplyPending,
        ],
        f.topology_window_delta is Some ==> spaces.steps(f, effective, active_after, false)
            == seq![StateStep::ClearHiddenTargets] + shown_on(f.screens) + seq![
            StateStep::SpacesUpdated,
            StateStep::RecomputeActive,
            StateStep::RestoreAfterFullscreen,
            StateStep::ApplyDelta,
            StateStep::Finalize,
            StateStep::ApplyPending,
        ],
{
}

} // verus!
