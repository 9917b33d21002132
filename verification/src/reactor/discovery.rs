//! What an application's list of windows means for the reactor.

use vstd::prelude::*;

use crate::collections::{contains, VecMap, VecSet};
use crate::model::{Pid, Screen, SpaceId, WindowInfo, WindowServerId, WindowServerInfo};
#[allow(unused_imports)]
use crate::reactor::actor::reading_of;
use crate::reactor::actor::{get_reading, LevelReading};
use crate::reactor::event::LayoutEvent;
use crate::reactor::managers::{
    DragManager, MissionControlManager, RefocusManager, SpaceManager, StaleCleanupState,
    WindowManager, WindowState, Windows,
};
use crate::text::copy_text;
use crate::window_id::WindowId;

verus! {

/// The level of ordinary windows.
pub const NORMAL_WINDOW_LEVEL: i64 = 0;

/// How long, in milliseconds, app rules count as recently applied.
pub const APP_RULES_WINDOW_MS: u64 = 1000;

/// What the window server says of a window, as far as managing it goes.
#[derive(Clone, Copy, Debug, PartialEq, Eq, Structural)]
pub struct LevelFacts {
    pub is_sticky: bool,
    pub level: Option<i64>,
}

/// Whether a window is managed: it is a standard root window that is not minimized, and as far as
/// the window server knows it lies in the normal layer and level, is not too small to be real and
/// does not stick to the screen.
pub open spec fn manageable(
    is_minimized: bool,
    is_ax_standard: bool,
    is_ax_root: bool,
    has_server_id: bool,
    layer: Option<i32>,
    is_tiny: bool,
    facts: LevelFacts,
) -> bool {
    &&& !is_minimized
    &&& is_ax_standard
    &&& is_ax_root
    &&& has_server_id ==> {
        &&& layer is Some ==> layer == Some(0i32) && !is_tiny
        &&& !facts.is_sticky
        &&& facts.level is Some ==> facts.level == Some(NORMAL_WINDOW_LEVEL)
    }
}

/// Whether a window is managed. `layer` is the layer that the window server reported, if it
/// reported the window; `is_tiny` says whether it was then too small to be real.
pub fn compute_window_manageability(
    window_server_id: Option<WindowServerId>,
    is_minimized: bool,
    is_ax_standard: bool,
    is_ax_root: bool,
    layer: Option<i32>,
    is_tiny: bool,
    facts: LevelFacts,
) -> (r: bool)
    ensures
        r == manageable(
            is_minimized,
            is_ax_standard,
            is_ax_root,
            window_server_id is Some,
            layer,
            is_tiny,
            facts,
        ),
{
    if is_minimized {
        return false;
    }
    if window_server_id.is_some() {
        match layer {
            Some(layer) => {
                if layer != 0 || is_tiny {
                    return false;
                }
            },
            None => {},
        }
        if facts.is_sticky {
            return false;
        }
        match facts.level {
            Some(level) => {
                if level != NORMAL_WINDOW_LEVEL {
                    return false;
                }
            },
            None => {},
        }
    }
    is_ax_standard && is_ax_root
}

/// What the window server says of a window that its application no longer lists.
#[derive(Clone, Copy, Debug, PartialEq, Eq, Structural)]
pub struct StaleFacts {
    pub layer: i32,
    /// The window server does not take it for an application window.
    pub unsuitable: bool,
    pub too_small: bool,
    pub ordered_in: bool,
    /// The space its frame lies in.
    pub space: Option<SpaceId>,
}

/// Whether some screen shows `space`.
pub open spec fn shows(screens: Seq<Screen>, space: SpaceId) -> bool {
    exists|i: int| 0 <= i < screens.len() && (#[trigger] screens[i]).space == Some(space)
}

/// Whether the window server, too, has given up a window: it is no application window, lies in
/// another layer or is too small, or it should show but does not.
pub open spec fn given_up(facts: StaleFacts, visible: bool, screens: Seq<Screen>) -> bool {
    ||| facts.unsuitable
    ||| facts.layer != 0
    ||| facts.too_small
    ||| facts.space is Some && shows(screens, facts.space->0) && !facts.ordered_in && !visible
}

impl Windows {
    /// The process that owns the window `wsid`, as far as it is known; `elsewhere` holds what the
    /// window server says of windows that are not.
    pub open spec fn owner(
        self,
        wsid: WindowServerId,
        elsewhere: Map<WindowServerId, Pid>,
    ) -> Option<Pid> {
        if self.window_ids.dom().contains(wsid) {
            Some(self.window_ids[wsid].pid)
        } else if self.server_info.dom().contains(wsid) {
            Some(self.server_info[wsid].pid)
        } else if elsewhere.dom().contains(wsid) {
            Some(elsewhere[wsid])
        } else {
            None
        }
    }

    /// Whether the window server shows a window of `pid`.
    pub open spec fn shows_window_of(self, pid: Pid) -> bool {
        exists|id: WindowServerId| #[trigger]
            self.visible.contains(id) && self.window_ids.dom().contains(id)
                && self.window_ids[id].pid == pid
    }

    /// Whether the window server shows a window of `pid` that is not in `listed`.
    pub open spec fn shows_unlisted(self, pid: Pid, listed: Seq<WindowId>) -> bool {
        exists|id: WindowServerId| #[trigger]
            self.visible.contains(id) && self.window_ids.dom().contains(id)
                && self.window_ids[id].pid == pid && !listed.contains(self.window_ids[id])
    }

    /// Whether `wid`, a window of `pid` that is not in `listed`, is gone.
    pub open spec fn stale(
        self,
        wid: WindowId,
        pid: Pid,
        listed: Seq<WindowId>,
        facts: Map<WindowServerId, StaleFacts>,
        screens: Seq<Screen>,
    ) -> bool {
        &&& self.windows.dom().contains(wid)
        &&& wid.pid == pid
        &&& !listed.contains(wid)
        &&& !self.windows[wid].is_minimized
        &&& self.windows[wid].window_server_id is Some
        &&& facts.dom().contains(self.windows[wid].window_server_id->0)
        &&& given_up(
            facts[self.windows[wid].window_server_id->0],
            self.visible.contains(self.windows[wid].window_server_id->0),
            screens,
        )
    }

    /// What is known after `info` was read of `wid`.
    pub open spec fn after_info(
        self,
        wid: WindowId,
        info: WindowInfo,
        frame_is_empty: bool,
        is_manageable: bool,
    ) -> Windows {
        let base = if self.windows.dom().contains(wid) {
            self.windows[wid].refreshed(info, frame_is_empty)
        } else {
            WindowState::of_info(info)
        };
        Windows {
            window_ids: match info.sys_id {
                Some(id) => self.window_ids.insert(id, wid),
                None => self.window_ids,
            },
            windows: self.windows.insert(wid, WindowState { is_manageable, ..base }),
            ..self
        }
    }

    /// Whether `wid` is known and managed.
    pub open spec fn is_standard(self, wid: WindowId) -> bool {
        self.windows.dom().contains(wid) && self.windows[wid].is_manageable
    }

    /// Whether `wid` belongs on the screen that shows `space`: a managed window of `pid` whose
    /// frame lies there, and that shows or is listed.
    pub open spec fn belongs_on(
        self,
        wid: WindowId,
        pid: Pid,
        space: SpaceId,
        listed: Seq<WindowId>,
        places: Map<WindowId, SpaceId>,
    ) -> bool {
        &&& wid.pid == pid
        &&& self.is_standard(wid)
        &&& places.dom().contains(wid) && places[wid] == space
        &&& listed.contains(wid) || exists|id: WindowServerId| #[trigger]
            self.visible.contains(id) && self.window_ids.dom().contains(id) && self.window_ids[id]
                == wid
    }
}

/// A window that was listed, with what its size says of it.
#[derive(Clone, Debug, PartialEq, Eq)]
pub struct ListedWindow {
    pub wid: WindowId,
    pub info: WindowInfo,
    pub frame_is_empty: bool,
    pub is_manageable: bool,
}

impl Windows {
    /// Whether a window that was read as `info` is managed.
    pub open spec fn manages(
        self,
        info: WindowInfo,
        levels: Map<WindowServerId, LevelReading>,
    ) -> bool {
        let reading = reading_of(levels, info.sys_id);
        manageable(
            info.is_minimized,
            info.is_standard,
            info.is_root,
            info.sys_id is Some,
            match info.sys_id {
                Some(id) if self.server_info.dom().contains(id) => Some(self.server_info[id].layer),
                _ => None,
            },
            reading.is_tiny,
            reading.facts,
        )
    }

    /// A window that was listed, with what follows from its size and from what the window server
    /// knows of it.
    pub open spec fn judged(
        self,
        listed: (WindowId, WindowInfo),
        levels: Map<WindowServerId, LevelReading>,
    ) -> ListedWindow {
        ListedWindow {
            wid: listed.0,
            info: listed.1,
            frame_is_empty: listed.1.frame.width == 0 && listed.1.frame.height == 0,
            is_manageable: self.manages(listed.1, levels),
        }
    }

    /// The same of all windows that were listed.
    pub open spec fn all_judged(
        self,
        list: Seq<(WindowId, WindowInfo)>,
        levels: Map<WindowServerId, LevelReading>,
    ) -> Seq<ListedWindow> {
        list.map_values(|l: (WindowId, WindowInfo)| self.judged(l, levels))
    }
}

/// What is known after the windows in `list` were taken over one after the other.
pub open spec fn after_list(w: Windows, list: Seq<ListedWindow>) -> Windows
    decreases list.len(),
{
    if list.len() == 0 {
        w
    } else {
        let l = list.last();
        after_list(w, list.drop_last()).after_info(
            l.wid,
            l.info,
            l.frame_is_empty,
            l.is_manageable,
        )
    }
}

/// The entries of `list` whose windows are in `states`, or those whose windows are not.
pub open spec fn entries_of(
    states: Map<WindowId, WindowState>,
    list: Seq<ListedWindow>,
    known: bool,
) -> Seq<ListedWindow>
    decreases list.len(),
{
    if list.len() == 0 {
        Seq::empty()
    } else {
        let head = entries_of(states, list.drop_last(), known);
        if states.dom().contains(list.last().wid) == known {
            head.push(list.last())
        } else {
            head
        }
    }
}

/// The windows by their window server ids, after those of `list` were entered in order.
pub open spec fn ids_entered(ids: Map<WindowServerId, WindowId>, list: Seq<ListedWindow>) -> Map<
    WindowServerId,
    WindowId,
>
    decreases list.len(),
{
    if list.len() == 0 {
        ids
    } else {
        let head = ids_entered(ids, list.drop_last());
        match list.last().info.sys_id {
            Some(id) => head.insert(id, list.last().wid),
            None => head,
        }
    }
}

/// The states of windows after those of `list` were entered as new.
pub open spec fn states_entered(
    states: Map<WindowId, WindowState>,
    list: Seq<ListedWindow>,
) -> Map<WindowId, WindowState>
    decreases list.len(),
{
    if list.len() == 0 {
        states
    } else {
        let l = list.last();
        states_entered(states, list.drop_last()).insert(
            l.wid,
            WindowState { is_manageable: l.is_manageable, ..WindowState::of_info(l.info) },
        )
    }
}

/// The states of windows after those of `list` that have one were refreshed.
pub open spec fn states_refreshed(
    states: Map<WindowId, WindowState>,
    list: Seq<ListedWindow>,
) -> Map<WindowId, WindowState>
    decreases list.len(),
{
    if list.len() == 0 {
        states
    } else {
        let l = list.last();
        let head = states_refreshed(states, list.drop_last());
        if head.dom().contains(l.wid) {
            head.insert(
                l.wid,
                WindowState {
                    is_manageable: l.is_manageable,
                    ..head[l.wid].refreshed(l.info, l.frame_is_empty)
                },
            )
        } else {
            head
        }
    }
}

impl Windows {
    /// What is known after new windows were entered and others were refreshed.
    pub open spec fn with_entries(
        self,
        new: Seq<ListedWindow>,
        updated: Seq<ListedWindow>,
    ) -> Windows {
        Windows {
            window_ids: ids_entered(ids_entered(self.window_ids, new), updated),
            windows: states_refreshed(states_entered(self.windows, new), updated),
            ..self
        }
    }

    /// What is known after a list was taken over: windows that were not known first, then the
    /// others. Where app rules were applied a moment ago, all of them are taken over in order
    /// before that.
    pub open spec fn after_discovery(self, list: Seq<ListedWindow>, again: bool) -> Windows {
        let base = if again {
            after_list(self, list)
        } else {
            self
        };
        base.with_entries(
            entries_of(base.windows, list, false),
            entries_of(base.windows, list, true),
        )
    }
}

fn copy_info(i: &WindowInfo) -> (r: WindowInfo)
    ensures
        r == *i,
{
    WindowInfo {
        is_standard: i.is_standard,
        is_root: i.is_root,
        is_minimized: i.is_minimized,
        title: i.title.clone(),
        frame: i.frame,
        sys_id: i.sys_id,
        bundle_id: copy_text(&i.bundle_id),
        path: copy_text(&i.path),
        ax_role: copy_text(&i.ax_role),
        ax_subrole: copy_text(&i.ax_subrole),
    }
}

fn copy_listed(l: &ListedWindow) -> (r: ListedWindow)
    ensures
        r == *l,
{
    ListedWindow {
        wid: l.wid,
        info: copy_info(&l.info),
        frame_is_empty: l.frame_is_empty,
        is_manageable: l.is_manageable,
    }
}

/// The windows that belong on a screen.
#[derive(Clone, Debug, PartialEq, Eq)]
pub struct ScreenUpdate {
    pub space: SpaceId,
    pub windows: Vec<WindowId>,
}

impl WindowManager {
    /// Whether a window that was reported is managed.
    pub fn compute_manageability_from_parts(
        &self,
        window_server_id: Option<WindowServerId>,
        is_minimized: bool,
        is_ax_standard: bool,
        is_ax_root: bool,
        is_tiny: bool,
        facts: LevelFacts,
    ) -> (r: bool)
        ensures
            r == manageable(
                is_minimized,
                is_ax_standard,
                is_ax_root,
                window_server_id is Some,
                match window_server_id {
                    Some(id) if self@.server_info.dom().contains(id) => Some(
                        self@.server_info[id].layer,
                    ),
                    _ => None,
                },
                is_tiny,
                facts,
            ),
    {
        let layer: Option<i32> = match window_server_id {
            Some(id) => match self.window_server_info.get(&id) {
                Some(info) => Some(info.layer),
                None => None,
            },
            None => None,
        };
        compute_window_manageability(
            window_server_id,
            is_minimized,
            is_ax_standard,
            is_ax_root,
            layer,
            is_tiny,
            facts,
        )
    }

    pub fn window_is_standard(&self, wid: WindowId) -> (r: bool)
        ensures
            r == self@.is_standard(wid),
    {
        match self.windows.get(&wid) {
            Some(window) => window.is_manageable,
            None => false,
        }
    }

    /// The process that owns a window.
    pub fn owner(&self, wsid: WindowServerId, elsewhere: &VecMap<WindowServerId, Pid>) -> (r: Option<
        Pid,
    >)
        ensures
            r == self@.owner(wsid, elsewhere@),
    {
        match self.window_ids.get(&wsid) {
            Some(wid) => Some(wid.pid),
            None => match self.window_server_info.get(&wsid) {
                Some(info) => Some(info.pid),
                None => match elsewhere.get(&wsid) {
                    Some(pid) => Some(*pid),
                    None => None,
                },
            },
        }
    }

    /// Whether a window of `pid` is on its way to another screen.
    pub fn pid_has_changing_screens(
        &self,
        changing_screens: &VecSet<WindowServerId>,
        pid: Pid,
        elsewhere: &VecMap<WindowServerId, Pid>,
    ) -> (r: bool)
        ensures
            r == exists|id: WindowServerId| #[trigger]
                changing_screens@.contains(id) && self@.owner(id, elsewhere@) == Some(pid),
    {
        let ids = changing_screens.items();
        let mut i: usize = 0;
        while i < ids.len()
            invariant
                i <= ids@.len(),
                forall|k: WindowServerId| ids@.contains(k) <==> changing_screens@.contains(k),
                forall|j: int| 0 <= j < i ==> self@.owner(#[trigger] ids@[j], elsewhere@) != Some(pid),
            decreases ids@.len() - i,
        {
            let id: WindowServerId = ids[i];
            assert(ids@.contains(ids@[i as int]));
            if self.owner(id, elsewhere) == Some(pid) {
                return true;
            }
            i = i + 1;
        }
        proof {
            assert forall|id: WindowServerId| #[trigger]
                changing_screens@.contains(id) implies self@.owner(id, elsewhere@) != Some(pid) by {
                assert(ids@.contains(id));
                let j = ids@.index_of(id);
                assert(ids@[j] == id);
            }
        }
        false
    }

    /// Whether the window server shows a window of `pid`.
    pub fn has_visible_window_server_ids_for_pid(&self, pid: Pid) -> (r: bool)
        ensures
            r == self@.shows_window_of(pid),
    {
        let ids = self.visible_windows.items();
        let mut i: usize = 0;
        while i < ids.len()
            invariant
                i <= ids@.len(),
                forall|k: WindowServerId| ids@.contains(k) <==> self@.visible.contains(k),
                forall|j: int|
                    0 <= j < i ==> !(self@.window_ids.dom().contains(#[trigger] ids@[j])
                        && self@.window_ids[ids@[j]].pid == pid),
            decreases ids@.len() - i,
        {
            let id: WindowServerId = ids[i];
            assert(ids@.contains(ids@[i as int]));
            match self.window_ids.get(&id) {
                Some(wid) => {
                    if wid.pid == pid {
                        assert(self@.visible.contains(id));
                        return true;
                    }
                },
                None => {},
            }
            i = i + 1;
        }
        proof {
            assert forall|id: WindowServerId| #[trigger] self@.visible.contains(id) implies !(
            self@.window_ids.dom().contains(id) && self@.window_ids[id].pid == pid) by {
                assert(ids@.contains(id));
                let j = ids@.index_of(id);
                assert(ids@[j] == id);
            }
        }
        false
    }

    /// Whether the window server shows a window of `pid` that its application does not list.
    pub fn has_unlisted_visible(&self, pid: Pid, listed: &Vec<WindowId>) -> (r: bool)
        ensures
            r == self@.shows_unlisted(pid, listed@),
    {
        let ids = self.visible_windows.items();
        let mut i: usize = 0;
        while i < ids.len()
            invariant
                i <= ids@.len(),
                forall|k: WindowServerId| ids@.contains(k) <==> self@.visible.contains(k),
                forall|j: int|
                    0 <= j < i ==> !(self@.window_ids.dom().contains(#[trigger] ids@[j])
                        && self@.window_ids[ids@[j]].pid == pid && !listed@.contains(
                        self@.window_ids[ids@[j]],
                    )),
            decreases ids@.len() - i,
        {
            let id: WindowServerId = ids[i];
            assert(ids@.contains(ids@[i as int]));
            match self.window_ids.get(&id) {
                Some(wid) => {
                    if wid.pid == pid && !contains(listed, wid) {
                        assert(self@.visible.contains(id));
                        return true;
                    }
                },
                None => {},
            }
            i = i + 1;
        }
        proof {
            assert forall|id: WindowServerId| #[trigger] self@.visible.contains(id) implies !(
            self@.window_ids.dom().contains(id) && self@.window_ids[id].pid == pid
                && !listed@.contains(self@.window_ids[id])) by {
                assert(ids@.contains(id));
                let j = ids@.index_of(id);
                assert(ids@[j] == id);
            }
        }
        false
    }

    /// Takes over what was read of the listed windows, in order.
    pub fn update_window_states(&mut self, list: Vec<ListedWindow>)
        ensures
            final(self)@ == after_list(old(self)@, list@),
    {
        let ghost before = self@;
        let ghost all = list@;
        let mut rest = list;
        let mut ordered: Vec<ListedWindow> = Vec::new();
        // Taking the windows from the end twice restores their order.
        while rest.len() > 0
            invariant
                rest@ + ordered@.reverse() == all,
                self@ == before,
            decreases rest@.len(),
        {
            let ghost rest0 = rest@;
            let ghost ordered0 = ordered@;
            match rest.pop() {
                Some(l) => {
                    ordered.push(l);
                    proof {
                        assert(ordered@.reverse() =~= seq![l] + ordered0.reverse());
                        assert(rest0 =~= rest@ + seq![l]);
                        assert(rest@ + ordered@.reverse() =~= rest0 + ordered0.reverse());
                    }
                },
                None => {},
            }
        }
        assert(ordered@.reverse() =~= all);
        let ghost mut done: int = 0;
        assert(all.take(0) =~= Seq::<ListedWindow>::empty());
        while ordered.len() > 0
            invariant
                0 <= done <= all.len(),
                ordered@.len() == all.len() - done,
                ordered@.reverse() == all.skip(done),
                self@ == after_list(before, all.take(done)),
            decreases ordered@.len(),
        {
            let ghost ordered0 = ordered@;
            match ordered.pop() {
                Some(l) => {
                    proof {
                        assert(ordered0.reverse()[0] == l);
                        assert(all.skip(done)[0] == all[done]);
                        assert(ordered@.reverse() =~= all.skip(done + 1)) by {
                            assert forall|j: int| 0 <= j < ordered@.len() implies
                                ordered@.reverse()[j] == all.skip(done + 1)[j] by {
                                assert(ordered@.reverse()[j] == ordered0.reverse()[j + 1]);
                                assert(all.skip(done)[j + 1] == all.skip(done + 1)[j]);
                            }
                        }
                        assert(all.take(done + 1).drop_last() =~= all.take(done));
                        assert(all.take(done + 1).last() == l);
                    }
                    self.take_over(l.wid, l.info, l.frame_is_empty, l.is_manageable);
                    proof {
                        done = done + 1;
                    }
                },
                None => {},
            }
        }
        assert(all.take(done) =~= all);
    }

    /// Takes over what was read of a window.
    pub fn take_over(
        &mut self,
        wid: WindowId,
        info: WindowInfo,
        frame_is_empty: bool,
        is_manageable: bool,
    )
        ensures
            final(self)@ == old(self)@.after_info(wid, info, frame_is_empty, is_manageable),
    {
        match info.sys_id {
            Some(id) => {
                let _ = self.window_ids.insert(id, wid);
            },
            None => {},
        }
        let ghost before = self@;
        let mut state = match self.windows.remove(&wid) {
            Some(existing) => {
                let mut state = existing;
                state.refresh(info, frame_is_empty);
                state
            },
            None => WindowState::from_info(info),
        };
        state.is_manageable = is_manageable;
        let _ = self.windows.insert(wid, state);
        assert(self@.windows =~= before.windows.insert(wid, state));
    }

    /// The windows that belong on the screen that shows `space`: those that show, then those that
    /// are only listed. `places` holds the space of each window's frame, where it has one.
    pub fn windows_on(
        &self,
        pid: Pid,
        space: SpaceId,
        listed: &Vec<WindowId>,
        places: &VecMap<WindowId, SpaceId>,
    ) -> (r: Vec<WindowId>)
        ensures
            self@.is_listing(r@, pid, space, listed@, places@),
    {
        let mut r: Vec<WindowId> = Vec::new();
        let ids = self.visible_windows.items();
        let mut i: usize = 0;
        while i < ids.len()
            invariant
                i <= ids@.len(),
                r@ == self@.shown(ids@.take(i as int), pid, space, places@),
            decreases ids@.len() - i,
        {
            let id: WindowServerId = ids[i];
            proof {
                assert(ids@.take(i + 1).drop_last() =~= ids@.take(i as int));
                assert(ids@.take(i + 1).last() == id);
            }
            match self.window_ids.get(&id) {
                Some(wid) => {
                    if self.window_fits(*wid, pid, space, places) {
                        r.push(*wid);
                    }
                },
                None => {},
            }
            i = i + 1;
        }
        assert(ids@.take(i as int) =~= ids@);
        let ghost base = r@;
        let mut k: usize = 0;
        while k < listed.len()
            invariant
                k <= listed@.len(),
                r@ == self@.with_listed(base, listed@.take(k as int), pid, space, places@),
            decreases listed@.len() - k,
        {
            let wid = listed[k];
            proof {
                assert(listed@.take(k + 1).drop_last() =~= listed@.take(k as int));
                assert(listed@.take(k + 1).last() == wid);
            }
            if self.window_fits(wid, pid, space, places) && !contains(&r, &wid) {
                r.push(wid);
            }
            k = k + 1;
        }
        assert(listed@.take(k as int) =~= listed@);
        r
    }

    fn window_fits(
        &self,
        wid: WindowId,
        pid: Pid,
        space: SpaceId,
        places: &VecMap<WindowId, SpaceId>,
    ) -> (r: bool)
        ensures
            r == self@.fits(wid, pid, space, places@),
    {
        if wid.pid != pid || !self.window_is_standard(wid) {
            return false;
        }
        match places.get(&wid) {
            Some(place) => *place == space,
            None => false,
        }
    }

    /// Whether any window of `pid` is known.
    pub fn knows_windows_of(&self, pid: Pid) -> (r: bool)
        ensures
            r == exists|w: WindowId| #[trigger] self@.windows.dom().contains(w) && w.pid == pid,
    {
        let keys = self.windows.keys();
        let mut i: usize = 0;
        while i < keys.len()
            invariant
                i <= keys@.len(),
                forall|k: WindowId| keys@.contains(k) <==> self@.windows.dom().contains(k),
                forall|j: int| 0 <= j < i ==> (#[trigger] keys@[j]).pid != pid,
            decreases keys@.len() - i,
        {
            assert(keys@.contains(keys@[i as int]));
            if keys[i].pid == pid {
                return true;
            }
            i = i + 1;
        }
        proof {
            assert forall|w: WindowId| #[trigger] self@.windows.dom().contains(w) implies w.pid
                != pid by {
                assert(keys@.contains(w));
                let j = keys@.index_of(w);
                assert(keys@[j] == w);
            }
        }
        false
    }
}

impl Windows {
    /// The windows that fit among those that `ids` stand for, in that order.
    pub open spec fn shown(
        self,
        ids: Seq<WindowServerId>,
        pid: Pid,
        space: SpaceId,
        places: Map<WindowId, SpaceId>,
    ) -> Seq<WindowId>
        decreases ids.len(),
    {
        if ids.len() == 0 {
            Seq::empty()
        } else {
            let head = self.shown(ids.drop_last(), pid, space, places);
            let id = ids.last();
            if self.window_ids.dom().contains(id) && self.fits(
                self.window_ids[id],
                pid,
                space,
                places,
            ) {
                head.push(self.window_ids[id])
            } else {
                head
            }
        }
    }

    /// `base` and after it the windows of `listed` that fit and are not in it yet.
    pub open spec fn with_listed(
        self,
        base: Seq<WindowId>,
        listed: Seq<WindowId>,
        pid: Pid,
        space: SpaceId,
        places: Map<WindowId, SpaceId>,
    ) -> Seq<WindowId>
        decreases listed.len(),
    {
        if listed.len() == 0 {
            base
        } else {
            let head = self.with_listed(base, listed.drop_last(), pid, space, places);
            if self.fits(listed.last(), pid, space, places) && !head.contains(listed.last()) {
                head.push(listed.last())
            } else {
                head
            }
        }
    }

    /// Whether `r` lists the windows that belong on the screen that shows `space`: those that
    /// show, whatever their order, then those that are only listed.
    pub open spec fn is_listing(
        self,
        r: Seq<WindowId>,
        pid: Pid,
        space: SpaceId,
        listed: Seq<WindowId>,
        places: Map<WindowId, SpaceId>,
    ) -> bool {
        exists|ids: Seq<WindowServerId>|
            {
                &&& ids.no_duplicates()
                &&& forall|k: WindowServerId| ids.contains(k) <==> self.visible.contains(k)
                &&& r == self.with_listed(
                    #[trigger] self.shown(ids, pid, space, places),
                    listed,
                    pid,
                    space,
                    places,
                )
            }
    }

    /// Whether `wid` is a managed window of `pid` whose frame lies in `space`.
    pub open spec fn fits(
        self,
        wid: WindowId,
        pid: Pid,
        space: SpaceId,
        places: Map<WindowId, SpaceId>,
    ) -> bool {
        wid.pid == pid && self.is_standard(wid) && places.dom().contains(wid) && places[wid]
            == space
    }
}

/// Handler for window discovery events: it decides which windows are gone, takes over what was
/// read of the others, and says which windows belong on which screen.
pub struct WindowDiscoveryHandler;

/// Whether an application's list says nothing about windows that are gone: nothing is managed, a
/// refresh or Mission Control or a drag is under way, a window of it is changing screens, the list
/// is empty and nothing shows, or something shows that is not in the list.
pub open spec fn skips_stale_cleanup(
    windows: Windows,
    cleanup: StaleCleanupState,
    pending_refresh: bool,
    mission_control: bool,
    in_drag: bool,
    changing: bool,
    pid: Pid,
    listed: Seq<WindowId>,
) -> bool {
    ||| cleanup == StaleCleanupState::Suppressed
    ||| pending_refresh
    ||| mission_control
    ||| in_drag
    ||| changing
    ||| listed.len() == 0 && !windows.shows_window_of(pid)
    ||| windows.shows_unlisted(pid, listed)
}

fn screens_show(screens: &Vec<Screen>, space: SpaceId) -> (r: bool)
    ensures
        r == shows(screens@, space),
{
    let mut i: usize = 0;
    while i < screens.len()
        invariant
            i <= screens@.len(),
            forall|j: int| 0 <= j < i ==> (#[trigger] screens@[j]).space != Some(space),
        decreases screens@.len() - i,
    {
        if screens[i].space == Some(space) {
            assert(screens@[i as int].space == Some(space));
            return true;
        }
        i = i + 1;
    }
    false
}

impl WindowManager {
    /// What follows for windows that were listed from their sizes and from what the window server
    /// knows of them.
    pub fn judge_windows(
        &self,
        list: &Vec<(WindowId, WindowInfo)>,
        levels: &VecMap<WindowServerId, LevelReading>,
    ) -> (r: Vec<ListedWindow>)
        ensures
            r@ == self@.all_judged(list@, levels@),
    {
        let mut r: Vec<ListedWindow> = Vec::new();
        let mut i: usize = 0;
        while i < list.len()
            invariant
                i <= list@.len(),
                r@.len() == i,
                forall|j: int| 0 <= j < i ==> r@[j] == self@.judged(list@[j], levels@),
            decreases list@.len() - i,
        {
            let info = copy_info(&list[i].1);
            let reading = get_reading(levels, info.sys_id);
            let is_manageable: bool = self.compute_manageability_from_parts(
                info.sys_id,
                info.is_minimized,
                info.is_standard,
                info.is_root,
                reading.is_tiny,
                reading.facts,
            );
            let frame_is_empty: bool = info.frame.width == 0 && info.frame.height == 0;
            r.push(ListedWindow { wid: list[i].0, info, frame_is_empty, is_manageable });
            i = i + 1;
        }
        assert(r@ =~= self@.all_judged(list@, levels@));
        r
    }
}

impl WindowDiscoveryHandler {
    /// The windows of `pid` that are gone, and whether a refresh that was asked for is thereby
    /// done. `facts` holds what the window server says of each window, where it says anything;
    /// `elsewhere` the owners of windows that the reactor does not know.
    pub fn identify_stale_windows(
        windows: &WindowManager,
        spaces: &SpaceManager,
        drag: &DragManager,
        mission_control: &MissionControlManager,
        refocus: &RefocusManager,
        pid: Pid,
        known_visible: &Vec<WindowId>,
        facts: &VecMap<WindowServerId, StaleFacts>,
        elsewhere: &VecMap<WindowServerId, Pid>,
    ) -> (r: (Vec<WindowId>, bool))
        ensures
            ({
                let skip = skips_stale_cleanup(
                    windows@,
                    refocus.stale_cleanup_state,
                    mission_control.pending_mission_control_refresh@.contains(pid),
                    mission_control.active(),
                    drag.in_drag(),
                    exists|id: WindowServerId| #[trigger]
                        spaces.changing_screens@.contains(id) && windows@.owner(id, elsewhere@)
                            == Some(pid),
                    pid,
                    known_visible@,
                );
                &&& r.0@.no_duplicates()
                &&& forall|w: WindowId|
                    r.0@.contains(w) <==> !skip && windows@.stale(
                        w,
                        pid,
                        known_visible@,
                        facts@,
                        spaces.screens@,
                    )
                &&& r.1 == false
            }),
    {
        let pending_refresh: bool = mission_control.pending_mission_control_refresh.contains(&pid);
        let mut r: Vec<WindowId> = Vec::new();
        let skip: bool = refocus.stale_cleanup_state == StaleCleanupState::Suppressed
            || pending_refresh || mission_control.is_mission_control_active()
            || drag.is_in_drag() || windows.pid_has_changing_screens(
            &spaces.changing_screens,
            pid,
            elsewhere,
        ) || (known_visible.len() == 0 && !windows.has_visible_window_server_ids_for_pid(pid))
            || windows.has_unlisted_visible(pid, known_visible);
        if skip {
            return (r, false);
        }
        let keys = windows.windows.keys();
        let mut i: usize = 0;
        while i < keys.len()
            invariant
                i <= keys@.len(),
                keys@.no_duplicates(),
                forall|k: WindowId| keys@.contains(k) <==> windows@.windows.dom().contains(k),
                r@.no_duplicates(),
                forall|w: WindowId| #[trigger]
                    r@.contains(w) <==> keys@.take(i as int).contains(w) && windows@.stale(
                        w,
                        pid,
                        known_visible@,
                        facts@,
                        spaces.screens@,
                    ),
            decreases keys@.len() - i,
        {
            let wid = keys[i];
            proof {
                crate::collections::lemma_take_next(keys@, i as int);
            }
            if Self::is_stale(windows, wid, pid, known_visible, facts, &spaces.screens) {
                proof {
                    crate::collections::lemma_push_new(r@, wid);
                }
                r.push(wid);
            }
            i = i + 1;
        }
        assert(keys@.take(i as int) =~= keys@);
        (r, pending_refresh)
    }

    fn is_stale(
        windows: &WindowManager,
        wid: WindowId,
        pid: Pid,
        known_visible: &Vec<WindowId>,
        facts: &VecMap<WindowServerId, StaleFacts>,
        screens: &Vec<Screen>,
    ) -> (r: bool)
        ensures
            r == windows@.stale(wid, pid, known_visible@, facts@, screens@),
    {
        if wid.pid != pid || contains(known_visible, &wid) {
            return false;
        }
        let id: WindowServerId = match windows.windows.get(&wid) {
            Some(state) => {
                if state.is_minimized {
                    return false;
                }
                match state.window_server_id {
                    Some(id) => id,
                    None => {
                        return false;
                    },
                }
            },
            None => {
                return false;
            },
        };
        let f = match facts.get(&id) {
            Some(f) => *f,
            None => {
                return false;
            },
        };
        let on_visible_space: bool = match f.space {
            Some(space) => screens_show(screens, space),
            None => false,
        };
        f.unsuitable || f.layer != 0 || f.too_small || (on_visible_space && !f.ordered_in
            && !windows.visible_windows.contains(&id))
    }

    /// For each screen that is managed, in order, the windows of `pid` that belong on it. A space
    /// that two screens show gets its windows once.
    pub fn emit_layout_events(
        windows: &WindowManager,
        screens: &Vec<Screen>,
        pid: Pid,
        known_visible: &Vec<WindowId>,
        places: &VecMap<WindowId, SpaceId>,
    ) -> (r: Vec<ScreenUpdate>)
        ensures
            (forall|w: WindowId| #[trigger] windows@.windows.dom().contains(w) ==> w.pid != pid)
                ==> r@.len() == 0,
            (exists|w: WindowId| #[trigger] windows@.windows.dom().contains(w) && w.pid == pid)
                ==> r@.len() == managed(screens@).len() && forall|i: int|
                0 <= i < r@.len() ==> {
                    &&& (#[trigger] r@[i]).space == managed(screens@)[i]
                    &&& if managed(screens@).take(i).contains(r@[i].space) {
                        r@[i].windows@.len() == 0
                    } else {
                        windows@.is_listing(
                            r@[i].windows@,
                            pid,
                            r@[i].space,
                            known_visible@,
                            places@,
                        )
                    }
                },
    {
        let mut r: Vec<ScreenUpdate> = Vec::new();
        if !windows.knows_windows_of(pid) {
            return r;
        }
        let mut done: Vec<SpaceId> = Vec::new();
        let mut i: usize = 0;
        assert(managed(screens@.take(0)) =~= Seq::<SpaceId>::empty());
        while i < screens.len()
            invariant
                i <= screens@.len(),
                done@ == managed(screens@.take(i as int)),
                r@.len() == done@.len(),
                forall|k: int|
                    0 <= k < r@.len() ==> {
                        &&& (#[trigger] r@[k]).space == done@[k]
                        &&& if done@.take(k).contains(r@[k].space) {
                            r@[k].windows@.len() == 0
                        } else {
                            windows@.is_listing(
                                r@[k].windows@,
                                pid,
                                r@[k].space,
                                known_visible@,
                                places@,
                            )
                        }
                    },
            decreases screens@.len() - i,
        {
            proof {
                assert(screens@.take(i + 1).drop_last() =~= screens@.take(i as int));
                assert(screens@.take(i + 1).last() == screens@[i as int]);
            }
            match screens[i].space {
                Some(space) => {
                    let list = if contains(&done, &space) {
                        Vec::new()
                    } else {
                        windows.windows_on(pid, space, known_visible, places)
                    };
                    let ghost done0 = done@;
                    let ghost r0 = r@;
                    done.push(space);
                    r.push(ScreenUpdate { space, windows: list });
                    proof {
                        assert(done@.take(done0.len() as int) =~= done0);
                        assert forall|k: int| 0 <= k < r@.len() implies {
                            &&& (#[trigger] r@[k]).space == done@[k]
                            &&& if done@.take(k).contains(r@[k].space) {
                                r@[k].windows@.len() == 0
                            } else {
                                windows@.is_listing(
                                    r@[k].windows@,
                                    pid,
                                    r@[k].space,
                                    known_visible@,
                                    places@,
                                )
                            }
                        } by {
                            if k < r0.len() {
                                assert(r@[k] == r0[k]);
                                assert(done@.take(k) =~= done0.take(k));
                            }
                        }
                    }
                },
                None => {},
            }
            i = i + 1;
        }
        assert(screens@.take(i as int) =~= screens@);
        r
    }

    /// Sorts a list into the windows that are new and those that are known. `again` says that app
    /// rules were applied a moment ago and nothing is known of the application: the list is then
    /// taken over first, so that all of them are known.
    pub fn process_window_list(
        windows: &mut WindowManager,
        list: &Vec<ListedWindow>,
        again: bool,
    ) -> (r: (Vec<ListedWindow>, Vec<ListedWindow>))
        ensures
            final(windows)@ == (if again {
                after_list(old(windows)@, list@)
            } else {
                old(windows)@
            }),
            r.0@ == entries_of(final(windows)@.windows, list@, false),
            r.1@ == entries_of(final(windows)@.windows, list@, true),
    {
        if again {
            let mut i: usize = 0;
            assert(list@.take(0) =~= Seq::<ListedWindow>::empty());
            while i < list.len()
                invariant
                    i <= list@.len(),
                    windows@ == after_list(old(windows)@, list@.take(i as int)),
                decreases list@.len() - i,
            {
                let l = copy_listed(&list[i]);
                proof {
                    assert(list@.take(i + 1).drop_last() =~= list@.take(i as int));
                    assert(list@.take(i + 1).last() == l);
                }
                windows.take_over(l.wid, l.info, l.frame_is_empty, l.is_manageable);
                i = i + 1;
            }
            assert(list@.take(i as int) =~= list@);
        }
        let mut new: Vec<ListedWindow> = Vec::new();
        let mut updated: Vec<ListedWindow> = Vec::new();
        let mut i: usize = 0;
        assert(list@.take(0) =~= Seq::<ListedWindow>::empty());
        while i < list.len()
            invariant
                i <= list@.len(),
                new@ == entries_of(windows@.windows, list@.take(i as int), false),
                updated@ == entries_of(windows@.windows, list@.take(i as int), true),
            decreases list@.len() - i,
        {
            let l = copy_listed(&list[i]);
            proof {
                assert(list@.take(i + 1).drop_last() =~= list@.take(i as int));
                assert(list@.take(i + 1).last() == l);
            }
            if windows.windows.contains_key(&l.wid) {
                updated.push(l);
            } else {
                new.push(l);
            }
            i = i + 1;
        }
        assert(list@.take(i as int) =~= list@);
        (new, updated)
    }

    fn enter_ids(windows: &mut WindowManager, list: &Vec<ListedWindow>)
        ensures
            final(windows)@ == (Windows {
                window_ids: ids_entered(old(windows)@.window_ids, list@),
                ..old(windows)@
            }),
    {
        let mut i: usize = 0;
        assert(list@.take(0) =~= Seq::<ListedWindow>::empty());
        while i < list.len()
            invariant
                i <= list@.len(),
                windows@ == (Windows {
                    window_ids: ids_entered(old(windows)@.window_ids, list@.take(i as int)),
                    ..old(windows)@
                }),
            decreases list@.len() - i,
        {
            proof {
                assert(list@.take(i + 1).drop_last() =~= list@.take(i as int));
            }
            match list[i].info.sys_id {
                Some(id) => {
                    let _ = windows.window_ids.insert(id, list[i].wid);
                },
                None => {},
            }
            i = i + 1;
        }
        assert(list@.take(i as int) =~= list@);
    }

    /// Enters new windows and refreshes known ones.
    pub fn update_window_states(
        windows: &mut WindowManager,
        new: &Vec<ListedWindow>,
        updated: &Vec<ListedWindow>,
    )
        ensures
            final(windows)@ == old(windows)@.with_entries(new@, updated@),
    {
        Self::enter_ids(windows, new);
        Self::enter_ids(windows, updated);
        let ghost entered = windows@;
        let mut i: usize = 0;
        assert(new@.take(0) =~= Seq::<ListedWindow>::empty());
        while i < new.len()
            invariant
                i <= new@.len(),
                windows@ == (Windows {
                    windows: states_entered(entered.windows, new@.take(i as int)),
                    ..entered
                }),
            decreases new@.len() - i,
        {
            let l = copy_listed(&new[i]);
            proof {
                assert(new@.take(i + 1).drop_last() =~= new@.take(i as int));
                assert(new@.take(i + 1).last() == l);
            }
            let mut state = WindowState::from_info(l.info);
            state.is_manageable = l.is_manageable;
            let _ = windows.windows.insert(l.wid, state);
            i = i + 1;
        }
        assert(new@.take(i as int) =~= new@);
        let ghost after_new = windows@;
        let mut k: usize = 0;
        assert(updated@.take(0) =~= Seq::<ListedWindow>::empty());
        while k < updated.len()
            invariant
                k <= updated@.len(),
                windows@ == (Windows {
                    windows: states_refreshed(after_new.windows, updated@.take(k as int)),
                    ..after_new
                }),
            decreases updated@.len() - k,
        {
            let l = copy_listed(&updated[k]);
            let ghost before = windows@;
            proof {
                assert(updated@.take(k + 1).drop_last() =~= updated@.take(k as int));
                assert(updated@.take(k + 1).last() == l);
            }
            match windows.windows.remove(&l.wid) {
                Some(existing) => {
                    let mut state = existing;
                    state.refresh(l.info, l.frame_is_empty);
                    state.is_manageable = l.is_manageable;
                    let _ = windows.windows.insert(l.wid, state);
                    assert(windows@.windows =~= before.windows.insert(l.wid, state));
                },
                None => {
                    assert(windows@.windows =~= before.windows);
                },
            }
            k = k + 1;
        }
        assert(updated@.take(k as int) =~= updated@);
    }

    /// Whether what was listed is taken over without applying app rules again: they were applied
    /// within the last second, and nothing is known of the application.
    pub fn rules_recently_applied(applied_at: u64, now: u64, knows_app: bool, lists_windows: bool)
        -> (r: bool)
        ensures
            r == (now - applied_at < APP_RULES_WINDOW_MS && !knows_app && lists_windows),
    {
        let elapsed: u64 = if now < applied_at {
            0
        } else {
            now - applied_at
        };
        elapsed < APP_RULES_WINDOW_MS && !knows_app && lists_windows
    }

    /// What to tell the layout engine last: that the main window has the focus, if it is one of
    /// `pid` and its frame lies in a space.
    pub fn refocus_main_window(
        main_window: Option<WindowId>,
        main_window_space: Option<SpaceId>,
        pid: Pid,
    ) -> (r: Option<LayoutEvent>)
        ensures
            r == (if main_window is Some && main_window->0.pid == pid && main_window_space is Some {
                Some(LayoutEvent::WindowFocused(main_window_space->0, main_window->0))
            } else {
                None
            }),
    {
        match (main_window, main_window_space) {
            (Some(wid), Some(space)) => {
                if wid.pid == pid {
                    Some(LayoutEvent::WindowFocused(space, wid))
                } else {
                    None
                }
            },
            _ => None,
        }
    }
}

/// The spaces that `screens` show, in order.
pub open spec fn managed(screens: Seq<Screen>) -> Seq<SpaceId>
    decreases screens.len(),
{
    if screens.len() == 0 {
        Seq::empty()
    } else {
        let head = managed(screens.drop_last());
        match screens.last().space {
            Some(space) => head.push(space),
            None => head,
        }
    }
}

impl MissionControlManager {
    /// Forgets that a refresh of `pid` was asked for; the result says whether it was.
    pub fn finish_refresh(&mut self, pid: Pid) -> (r: bool)
        ensures
            r == old(self).pending_mission_control_refresh@.contains(pid),
            final(self).pending_mission_control_refresh@ == old(
                self,
            ).pending_mission_control_refresh@.remove(pid),
            final(self).mission_control_state == old(self).mission_control_state,
    {
        self.pending_mission_control_refresh.remove(&pid)
    }
}

proof fn lemma_shown(
    windows: Windows,
    ids: Seq<WindowServerId>,
    pid: Pid,
    space: SpaceId,
    places: Map<WindowId, SpaceId>,
    w: WindowId,
)
    ensures
        windows.shown(ids, pid, space, places).contains(w) <==> windows.fits(w, pid, space, places)
            && exists|id: WindowServerId| #[trigger]
            ids.contains(id) && windows.window_ids.dom().contains(id) && windows.window_ids[id]
                == w,
    decreases ids.len(),
{
    if ids.len() > 0 {
        let head = ids.drop_last();
        let id = ids.last();
        lemma_shown(windows, head, pid, space, places, w);
        crate::collections::lemma_push_contains(head, id);
        assert(ids =~= head.push(id));
        crate::collections::lemma_push_contains(
            windows.shown(head, pid, space, places),
            windows.window_ids[id],
        );
        if exists|k: WindowServerId| #[trigger]
            head.contains(k) && windows.window_ids.dom().contains(k) && windows.window_ids[k]
                == w {
            let k = choose|k: WindowServerId| #[trigger]
                head.contains(k) && windows.window_ids.dom().contains(k) && windows.window_ids[k]
                    == w;
            assert(ids.contains(k));
        }
        assert(ids.contains(id));
    }
}

proof fn lemma_with_listed(
    windows: Windows,
    base: Seq<WindowId>,
    listed: Seq<WindowId>,
    pid: Pid,
    space: SpaceId,
    places: Map<WindowId, SpaceId>,
    w: WindowId,
)
    ensures
        windows.with_listed(base, listed, pid, space, places).contains(w) <==> base.contains(w)
            || (windows.fits(w, pid, space, places) && listed.contains(w)),
    decreases listed.len(),
{
    if listed.len() > 0 {
        let head = listed.drop_last();
        lemma_with_listed(windows, base, head, pid, space, places, w);
        crate::collections::lemma_push_contains(head, listed.last());
        assert(listed =~= head.push(listed.last()));
        crate::collections::lemma_push_contains(
            windows.with_listed(base, head, pid, space, places),
            listed.last(),
        );
    }
}

/// The windows listed for a screen are exactly those that belong on it.
pub proof fn a_listing_holds_what_belongs(
    windows: Windows,
    r: Seq<WindowId>,
    pid: Pid,
    space: SpaceId,
    listed: Seq<WindowId>,
    places: Map<WindowId, SpaceId>,
    w: WindowId,
)
    requires
        windows.is_listing(r, pid, space, listed, places),
    ensures
        r.contains(w) <==> windows.belongs_on(w, pid, space, listed, places),
{
    let ids = choose|ids: Seq<WindowServerId>|
        {
            &&& ids.no_duplicates()
            &&& forall|k: WindowServerId| ids.contains(k) <==> windows.visible.contains(k)
            &&& r == windows.with_listed(
                #[trigger] windows.shown(ids, pid, space, places),
                listed,
                pid,
                space,
                places,
            )
        };
    lemma_shown(windows, ids, pid, space, places, w);
    lemma_with_listed(
        windows,
        windows.shown(ids, pid, space, places),
        listed,
        pid,
        space,
        places,
        w,
    );
    if exists|id: WindowServerId| #[trigger]
        ids.contains(id) && windows.window_ids.dom().contains(id) && windows.window_ids[id] == w {
        let id = choose|id: WindowServerId| #[trigger]
            ids.contains(id) && windows.window_ids.dom().contains(id) && windows.window_ids[id]
                == w;
        assert(windows.visible.contains(id));
    }
    if exists|id: WindowServerId| #[trigger]
        windows.visible.contains(id) && windows.window_ids.dom().contains(id)
            && windows.window_ids[id] == w {
        let id = choose|id: WindowServerId| #[trigger]
            windows.visible.contains(id) && windows.window_ids.dom().contains(id)
                && windows.window_ids[id] == w;
        assert(ids.contains(id));
    }
}

/// A listed window is never taken for gone.
pub proof fn listed_windows_are_never_stale(
    windows: Windows,
    wid: WindowId,
    pid: Pid,
    listed: Seq<WindowId>,
    facts: Map<WindowServerId, StaleFacts>,
    screens: Seq<Screen>,
)
    requires
        listed.contains(wid),
    ensures
        !windows.stale(wid, pid, listed, facts, screens),
{
}

/// A window of another application, a minimized window and a window that the window server does
/// not know are never taken for gone either.
pub proof fn only_known_windows_of_the_app_go_stale(
    windows: Windows,
    wid: WindowId,
    pid: Pid,
    listed: Seq<WindowId>,
    facts: Map<WindowServerId, StaleFacts>,
    screens: Seq<Screen>,
)
    requires
        windows.stale(wid, pid, listed, facts, screens),
    ensures
        wid.pid == pid,
        windows.windows.dom().contains(wid),
        !windows.windows[wid].is_minimized,
        windows.windows[wid].window_server_id is Some,
{
}

/// Taking over the same reading of a window twice is the same as taking it over once.
pub proof fn taking_over_twice_changes_nothing(
    windows: Windows,
    wid: WindowId,
    info: WindowInfo,
    frame_is_empty: bool,
    is_manageable: bool,
)
    ensures
        windows.after_info(wid, info, frame_is_empty, is_manageable).after_info(
            wid,
            info,
            frame_is_empty,
            is_manageable,
        ) == windows.after_info(wid, info, frame_is_empty, is_manageable),
{
    let once = windows.after_info(wid, info, frame_is_empty, is_manageable);
    let twice = once.after_info(wid, info, frame_is_empty, is_manageable);
    assert(twice.windows =~= once.windows);
    assert(twice.window_ids =~= once.window_ids);
    assert(twice =~= once);
}

/// Every reading of a window keeps its last transaction.
pub proof fn readings_keep_the_transaction(
    windows: Windows,
    wid: WindowId,
    info: WindowInfo,
    frame_is_empty: bool,
    is_manageable: bool,
)
    requires
        windows.windows.dom().contains(wid),
    ensures
        windows.after_info(wid, info, frame_is_empty, is_manageable).windows[wid].last_sent_txid
            == windows.windows[wid].last_sent_txid,
{
}

proof fn lemma_listed_is_known(w: Windows, list: Seq<ListedWindow>)
    ensures
        forall|k: WindowId| #[trigger]
            w.windows.dom().contains(k) ==> after_list(w, list).windows.dom().contains(k),
        forall|i: int|
            0 <= i < list.len() ==> after_list(w, list).windows.dom().contains(
                (#[trigger] list[i]).wid,
            ),
    decreases list.len(),
{
    if list.len() > 0 {
        lemma_listed_is_known(w, list.drop_last());
        assert forall|i: int| 0 <= i < list.len() implies after_list(w, list).windows.dom().contains(
            (#[trigger] list[i]).wid,
        ) by {
            if i < list.len() - 1 {
                assert(list.drop_last()[i] == list[i]);
            }
        }
    }
}

proof fn lemma_known_entries(states: Map<WindowId, WindowState>, list: Seq<ListedWindow>)
    requires
        forall|i: int| 0 <= i < list.len() ==> states.dom().contains((#[trigger] list[i]).wid),
    ensures
        entries_of(states, list, false) == Seq::<ListedWindow>::empty(),
        entries_of(states, list, true) == list,
    decreases list.len(),
{
    if list.len() > 0 {
        assert forall|i: int| 0 <= i < list.drop_last().len() implies states.dom().contains(
            (#[trigger] list.drop_last()[i]).wid,
        ) by {
            assert(list.drop_last()[i] == list[i]);
        }
        lemma_known_entries(states, list.drop_last());
        assert(list[list.len() - 1] == list.last());
        assert(list.drop_last().push(list.last()) =~= list);
    } else {
        assert(list =~= Seq::<ListedWindow>::empty());
    }
}

/// Where app rules were applied a moment ago, no listed window counts as new.
pub proof fn nothing_is_new_after_app_rules(w: Windows, list: Seq<ListedWindow>)
    ensures
        entries_of(after_list(w, list).windows, list, false) == Seq::<ListedWindow>::empty(),
        w.after_discovery(list, true).windows == states_refreshed(
            after_list(w, list).windows,
            list,
        ),
{
    lemma_listed_is_known(w, list);
    lemma_known_entries(after_list(w, list).windows, list);
}

/// A window is managed only if it is a standard root window that is not minimized. One that the
/// window server knows must not stick to the screen, must have the normal level if it has one, and
/// once it was reported it must lie in the normal layer and be large enough.
pub proof fn only_ordinary_windows_are_managed(
    minimized: bool,
    standard: bool,
    root: bool,
    has_id: bool,
    layer: Option<i32>,
    tiny: bool,
    facts: LevelFacts,
)
    ensures
        minimized || !standard || !root ==> !manageable(
            minimized,
            standard,
            root,
            has_id,
            layer,
            tiny,
            facts,
        ),
        has_id && (facts.is_sticky || (facts.level is Some && facts.level->0 != 0) || (layer is Some
            && layer->0 != 0) || (layer is Some && tiny)) ==> !manageable(
            minimized,
            standard,
            root,
            has_id,
            layer,
            tiny,
            facts,
        ),
        !minimized && standard && root && (!has_id || (!facts.is_sticky && (facts.level is None
            || facts.level == Some(0i64)) && (layer is None || (layer == Some(0i32) && !tiny))))
            ==> manageable(minimized, standard, root, has_id, layer, tiny, facts),
{
}

/// A window that its application no longer lists is gone exactly if the window server has given it
/// up, too: it is no application window, is in another layer or too small, or it lies in a space
/// that shows and yet does not show itself.
pub proof fn windows_are_gone_if_the_server_gave_them_up(
    windows: Windows,
    wid: WindowId,
    pid: Pid,
    listed: Seq<WindowId>,
    facts: Map<WindowServerId, StaleFacts>,
    screens: Seq<Screen>,
    id: WindowServerId,
    i: int,
)
    requires
        windows.windows.dom().contains(wid),
        wid.pid == pid,
        !listed.contains(wid),
        !windows.windows[wid].is_minimized,
        windows.windows[wid].window_server_id == Some(id),
        facts.dom().contains(id),
    ensures
        facts[id].unsuitable || facts[id].layer != 0 || facts[id].too_small ==> windows.stale(
            wid,
            pid,
            listed,
            facts,
            screens,
        ),
        0 <= i < screens.len() && screens[i].space is Some && screens[i].space == facts[id].space
            && !facts[id].ordered_in && !windows.visible.contains(id) ==> windows.stale(
            wid,
            pid,
            listed,
            facts,
            screens,
        ),
        !facts[id].unsuitable && facts[id].layer == 0 && !facts[id].too_small && (
        facts[id].ordered_in || windows.visible.contains(id) || facts[id].space is None || (forall|
            k: int,
        | 0 <= k < screens.len() ==> (#[trigger] screens[k]).space != facts[id].space))
            ==> !windows.stale(wid, pid, listed, facts, screens),
{
}

/// A window that the reactor knows belongs to the application that it knows it of; failing that,
/// the last report of the window server counts, and what it says elsewhere comes last.
pub proof fn known_owners_come_first(
    windows: Windows,
    id: WindowServerId,
    elsewhere: Map<WindowServerId, Pid>,
)
    ensures
        windows.window_ids.dom().contains(id) ==> windows.owner(id, elsewhere) == Some(
            windows.window_ids[id].pid,
        ),
        !windows.window_ids.dom().contains(id) && windows.server_info.dom().contains(id)
            ==> windows.owner(id, elsewhere) == Some(windows.server_info[id].pid),
        !windows.window_ids.dom().contains(id) && !windows.server_info.dom().contains(id)
            ==> windows.owner(id, elsewhere) == (if elsewhere.dom().contains(id) {
            Some(elsewhere[id])
        } else {
            None
        }),
{
}

/// What was read of a window is what is known of it, but that an empty frame is not taken for its
/// frame; it is known under the number that was read. Other windows stay as they are.
pub proof fn readings_are_taken_over(
    windows: Windows,
    wid: WindowId,
    info: WindowInfo,
    empty: bool,
    managed: bool,
    other: WindowId,
)
    requires
        other != wid,
    ensures
        ({
            let after = windows.after_info(wid, info, empty, managed);
            let w = after.windows[wid];
            let known = windows.windows.dom().contains(wid);
            &&& after.windows.dom() =~= windows.windows.dom().insert(wid)
            &&& w.title == info.title && w.is_manageable == managed
            &&& w.is_ax_standard == info.is_standard && w.is_ax_root == info.is_root
            &&& w.is_minimized == info.is_minimized && w.window_server_id == info.sys_id
            &&& w.bundle_id == info.bundle_id && w.bundle_path == info.path
            &&& w.ax_role == info.ax_role && w.ax_subrole == info.ax_subrole
            &&& !known || !empty ==> w.frame_monotonic == info.frame
            &&& known && empty ==> w.frame_monotonic == windows.windows[wid].frame_monotonic
            &&& !known ==> w.last_sent_txid.0 == 0
            &&& after.windows[other] == windows.windows[other]
            &&& info.sys_id matches Some(id) ==> after.window_ids.dom().contains(id)
                && after.window_ids[id] == wid
            &&& info.sys_id is None ==> after.window_ids == windows.window_ids
            &&& after.visible == windows.visible && after.server_info == windows.server_info
            &&& after.observed == windows.observed && after.server_space == windows.server_space
        }),
{
}

/// A listed window is judged by its own size and by what is known of it.
pub proof fn listed_windows_are_judged_by_themselves(
    windows: Windows,
    list: Seq<(WindowId, WindowInfo)>,
    levels: Map<WindowServerId, LevelReading>,
    i: int,
)
    requires
        0 <= i < list.len(),
    ensures
        ({
            let all = windows.all_judged(list, levels);
            let info = list[i].1;
            &&& all.len() == list.len()
            &&& all[i].wid == list[i].0 && all[i].info == info
            &&& all[i].frame_is_empty <==> info.frame.width == 0 && info.frame.height == 0
            &&& info.is_minimized || !info.is_standard || !info.is_root ==> !all[i].is_manageable
            &&& info.sys_id matches Some(id) ==> (windows.server_info.dom().contains(id)
                && windows.server_info[id].layer != 0 ==> !all[i].is_manageable) && (
            levels.dom().contains(id) && levels[id].facts.is_sticky ==> !all[i].is_manageable)
            &&& info.sys_id is None && !info.is_minimized && info.is_standard && info.is_root
                ==> all[i].is_manageable
        }),
{
}

/// Whether no window is listed twice.
pub open spec fn listed_once(list: Seq<ListedWindow>) -> bool {
    forall|i: int, j: int|
        0 <= i < j < list.len() ==> (#[trigger] list[i]).wid != (#[trigger] list[j]).wid
}

proof fn lemma_listed_once(list: Seq<ListedWindow>)
    requires
        listed_once(list),
        list.len() > 0,
    ensures
        listed_once(list.drop_last()),
        forall|k: int| 0 <= k < list.len() - 1 ==> #[trigger] list[k].wid != list.last().wid,
{
    let head = list.drop_last();
    let n = list.len() - 1;
    assert forall|i: int, j: int| 0 <= i < j < head.len() implies (#[trigger] head[i]).wid != (
    #[trigger] head[j]).wid by {
        assert(list[i].wid != list[j].wid);
    }
    assert forall|k: int| 0 <= k < n implies #[trigger] list[k].wid != list.last().wid by {
        assert(list[k].wid != list[n].wid);
    }
}

/// After a list was taken over each listed window is known as it was listed, and every other
/// window is as it was.
pub proof fn listed_windows_are_known_as_listed(w: Windows, list: Seq<ListedWindow>, wid: WindowId)
    requires
        listed_once(list),
    ensures
        ({
            let after = after_list(w, list);
            &&& forall|i: int|
                0 <= i < list.len() && (#[trigger] list[i]).wid == wid ==> {
                    &&& after.windows.dom().contains(wid)
                    &&& after.windows[wid].title == list[i].info.title
                    &&& after.windows[wid].is_manageable == list[i].is_manageable
                    &&& after.windows[wid].window_server_id == list[i].info.sys_id
                    &&& after.windows[wid].is_minimized == list[i].info.is_minimized
                    &&& after.windows[wid].frame_monotonic == (if w.windows.dom().contains(wid)
                        && list[i].frame_is_empty {
                        w.windows[wid].frame_monotonic
                    } else {
                        list[i].info.frame
                    })
                }
            &&& (forall|i: int| 0 <= i < list.len() ==> (#[trigger] list[i]).wid != wid)
                ==> after.windows.dom().contains(wid) == w.windows.dom().contains(wid)
                && after.windows[wid] == w.windows[wid]
            &&& after.visible == w.visible && after.server_info == w.server_info
        }),
    decreases list.len(),
{
    if list.len() > 0 {
        let head = list.drop_last();
        let n = list.len() - 1;
        lemma_listed_once(list);
        listed_windows_are_known_as_listed(w, head, wid);
        assert(forall|k: int| 0 <= k < n ==> head[k] == list[k]);
        assert(list[n] == list.last());
        if list.last().wid == wid {
            assert forall|k: int| 0 <= k < head.len() implies (#[trigger] head[k]).wid != wid by {
                assert(list[k].wid != list.last().wid);
            }
        } else if forall|i: int| 0 <= i < list.len() ==> (#[trigger] list[i]).wid != wid {
            assert forall|k: int| 0 <= k < head.len() implies (#[trigger] head[k]).wid != wid by {
                assert(list[k].wid != wid);
            }
        }
        assert forall|i: int| 0 <= i < list.len() && (#[trigger] list[i]).wid == wid && i
            < n implies head[i].wid == wid by {}
    }
}

/// Of a list the windows that are known, or those that are not, are exactly the entries that are.
pub proof fn entries_are_parted_by_what_is_known(
    states: Map<WindowId, WindowState>,
    list: Seq<ListedWindow>,
    known: bool,
    l: ListedWindow,
)
    ensures
        entries_of(states, list, known).contains(l) <==> list.contains(l) && states.dom().contains(
            l.wid,
        ) == known,
        listed_once(list) ==> listed_once(entries_of(states, list, known)),
    decreases list.len(),
{
    if list.len() > 0 {
        let head = list.drop_last();
        let last = list.last();
        entries_are_parted_by_what_is_known(states, head, known, l);
        assert(list =~= head.push(last));
        crate::collections::lemma_push_contains(head, last);
        crate::collections::lemma_push_contains(entries_of(states, head, known), last);
        if listed_once(list) {
            lemma_listed_once(list);
            let before = entries_of(states, head, known);
            let all = entries_of(states, list, known);
            assert forall|i: int, j: int| 0 <= i < j < all.len() implies (
            #[trigger] all[i]).wid != (#[trigger] all[j]).wid by {
                assert(all[i] == before[i]);
                if j < before.len() {
                    assert(all[j] == before[j]);
                    assert(before[i].wid != before[j].wid);
                } else {
                    entries_are_parted_by_what_is_known(states, head, known, before[i]);
                    assert(before.contains(before[i]));
                    let k = head.index_of(before[i]);
                    assert(list[k].wid != list.last().wid);
                }
            }
        }
    }
}

proof fn lemma_entered(states: Map<WindowId, WindowState>, list: Seq<ListedWindow>, wid: WindowId)
    requires
        listed_once(list),
    ensures
        ({
            let after = states_entered(states, list);
            &&& forall|i: int|
                0 <= i < list.len() && (#[trigger] list[i]).wid == wid ==> after.dom().contains(wid)
                    && after[wid] == (WindowState {
                    is_manageable: list[i].is_manageable,
                    ..WindowState::of_info(list[i].info)
                })
            &&& (forall|i: int| 0 <= i < list.len() ==> (#[trigger] list[i]).wid != wid)
                ==> after.dom().contains(wid) == states.dom().contains(wid) && after[wid]
                == states[wid]
        }),
        ({
            let after = states_refreshed(states, list);
            &&& after.dom() =~= states.dom()
            &&& forall|i: int|
                0 <= i < list.len() && (#[trigger] list[i]).wid == wid && states.dom().contains(wid)
                    ==> after[wid] == (WindowState {
                    is_manageable: list[i].is_manageable,
                    ..states[wid].refreshed(list[i].info, list[i].frame_is_empty)
                })
            &&& (forall|i: int| 0 <= i < list.len() ==> (#[trigger] list[i]).wid != wid)
                ==> after[wid] == states[wid]
        }),
    decreases list.len(),
{
    if list.len() > 0 {
        let head = list.drop_last();
        let n = list.len() - 1;
        lemma_listed_once(list);
        lemma_entered(states, head, wid);
        assert(forall|k: int| 0 <= k < n ==> head[k] == list[k]);
        assert(list[n] == list.last());
        if list.last().wid == wid {
            assert forall|k: int| 0 <= k < head.len() implies (#[trigger] head[k]).wid != wid by {
                assert(list[k].wid != list.last().wid);
            }
        } else if forall|i: int| 0 <= i < list.len() ==> (#[trigger] list[i]).wid != wid {
            assert forall|k: int| 0 <= k < head.len() implies (#[trigger] head[k]).wid != wid by {
                assert(list[k].wid != wid);
            }
        }
        assert forall|i: int| 0 <= i < list.len() && (#[trigger] list[i]).wid == wid && i
            < n implies head[i].wid == wid by {}
    }
}

/// A discovery leaves each listed window known as it was listed, whether it was known before or
/// not, and every other window as it was.
pub proof fn discovered_windows_are_known_as_listed(
    w: Windows,
    list: Seq<ListedWindow>,
    wid: WindowId,
)
    requires
        listed_once(list),
    ensures
        ({
            let after = w.after_discovery(list, false);
            &&& forall|i: int|
                0 <= i < list.len() && (#[trigger] list[i]).wid == wid ==> {
                    &&& after.windows.dom().contains(wid)
                    &&& after.windows[wid].title == list[i].info.title
                    &&& after.windows[wid].is_manageable == list[i].is_manageable
                    &&& after.windows[wid].window_server_id == list[i].info.sys_id
                    &&& after.windows[wid].is_minimized == list[i].info.is_minimized
                    &&& after.windows[wid].frame_monotonic == (if w.windows.dom().contains(wid)
                        && list[i].frame_is_empty {
                        w.windows[wid].frame_monotonic
                    } else {
                        list[i].info.frame
                    })
                }
            &&& (forall|i: int| 0 <= i < list.len() ==> (#[trigger] list[i]).wid != wid)
                ==> after.windows.dom().contains(wid) == w.windows.dom().contains(wid)
                && after.windows[wid] == w.windows[wid]
            &&& after.visible == w.visible && after.server_info == w.server_info
        }),
{
    let new = entries_of(w.windows, list, false);
    let old_ones = entries_of(w.windows, list, true);
    if list.len() > 0 {
        entries_are_parted_by_what_is_known(w.windows, list, false, list[0]);
        entries_are_parted_by_what_is_known(w.windows, list, true, list[0]);
    }
    lemma_entered(w.windows, new, wid);
    lemma_entered(states_entered(w.windows, new), old_ones, wid);
    assert forall|i: int| 0 <= i < new.len() implies !w.windows.dom().contains(
        (#[trigger] new[i]).wid,
    ) && list.contains(new[i]) by {
        entries_are_parted_by_what_is_known(w.windows, list, false, new[i]);
        assert(new.contains(new[i]));
    }
    assert forall|i: int| 0 <= i < old_ones.len() implies w.windows.dom().contains(
        (#[trigger] old_ones[i]).wid,
    ) && list.contains(old_ones[i]) by {
        entries_are_parted_by_what_is_known(w.windows, list, true, old_ones[i]);
        assert(old_ones.contains(old_ones[i]));
    }
    assert forall|i: int| 0 <= i < list.len() && (#[trigger] list[i]).wid == wid implies {
        let after = w.after_discovery(list, false);
        &&& after.windows.dom().contains(wid)
        &&& after.windows[wid].title == list[i].info.title
        &&& after.windows[wid].is_manageable == list[i].is_manageable
        &&& after.windows[wid].window_server_id == list[i].info.sys_id
        &&& after.windows[wid].is_minimized == list[i].info.is_minimized
        &&& after.windows[wid].frame_monotonic == (if w.windows.dom().contains(wid)
            && list[i].frame_is_empty {
            w.windows[wid].frame_monotonic
        } else {
            list[i].info.frame
        })
    } by {
        assert(list.contains(list[i]));
        if w.windows.dom().contains(wid) {
            entries_are_parted_by_what_is_known(w.windows, list, true, list[i]);
            let k = old_ones.index_of(list[i]);
            assert(old_ones[k].wid == wid);
            assert forall|j: int| 0 <= j < new.len() implies (#[trigger] new[j]).wid != wid by {}
        } else {
            entries_are_parted_by_what_is_known(w.windows, list, false, list[i]);
            let k = new.index_of(list[i]);
            assert(new[k].wid == wid);
            assert forall|j: int| 0 <= j < old_ones.len() implies (
            #[trigger] old_ones[j]).wid != wid by {}
        }
    }
    if forall|i: int| 0 <= i < list.len() ==> (#[trigger] list[i]).wid != wid {
        assert forall|j: int| 0 <= j < new.len() implies (#[trigger] new[j]).wid != wid by {
            let k = list.index_of(new[j]);
            assert(list[k].wid != wid);
        }
        assert forall|j: int| 0 <= j < old_ones.len() implies (
        #[trigger] old_ones[j]).wid != wid by {
            let k = list.index_of(old_ones[j]);
            assert(list[k].wid != wid);
        }
    }
}

/// A number of the window server stands for the window that was entered last under it, and numbers
/// that were not entered stand for what they stood for.
pub proof fn numbers_stand_for_the_window_entered_last(
    ids: Map<WindowServerId, WindowId>,
    list: Seq<ListedWindow>,
    id: WindowServerId,
    i: int,
)
    requires
        -1 <= i < list.len(),
        i >= 0 ==> list[i].info.sys_id == Some(id),
        forall|j: int| i < j < list.len() ==> (#[trigger] list[j]).info.sys_id != Some(id),
    ensures
        i >= 0 ==> ids_entered(ids, list).dom().contains(id) && ids_entered(ids, list)[id]
            == list[i].wid,
        i < 0 ==> ids_entered(ids, list).dom().contains(id) == ids.dom().contains(id)
            && ids_entered(ids, list)[id] == ids[id],
    decreases list.len(),
{
    if list.len() > 0 {
        let head = list.drop_last();
        let n = list.len() - 1;
        assert(forall|k: int| 0 <= k < n ==> head[k] == list[k]);
        if i < n {
            assert(list[n].info.sys_id != Some(id));
            numbers_stand_for_the_window_entered_last(ids, head, id, i);
        }
    }
}

/// No time to tell which windows are gone: while cleaning up is suppressed, a refresh is under
/// way, Mission Control shows, a window is dragged or changes screens, and whenever the list
/// contradicts what the window server shows. Otherwise it can be told.
pub proof fn it_can_be_told_which_windows_are_gone(
    windows: Windows,
    cleanup: StaleCleanupState,
    refresh: bool,
    mission_control: bool,
    in_drag: bool,
    changing: bool,
    pid: Pid,
    listed: Seq<WindowId>,
    id: WindowServerId,
)
    ensures
        cleanup == StaleCleanupState::Suppressed || refresh || mission_control || in_drag
            || changing ==> skips_stale_cleanup(
            windows,
            cleanup,
            refresh,
            mission_control,
            in_drag,
            changing,
            pid,
            listed,
        ),
        windows.visible.contains(id) && windows.window_ids.dom().contains(id)
            && windows.window_ids[id].pid == pid && !listed.contains(windows.window_ids[id])
            ==> skips_stale_cleanup(
            windows,
            cleanup,
            refresh,
            mission_control,
            in_drag,
            changing,
            pid,
            listed,
        ),
        cleanup == StaleCleanupState::Enabled && !refresh && !mission_control && !in_drag
            && !changing && listed.len() > 0 && (forall|k: WindowServerId| #[trigger]
            windows.visible.contains(k) && windows.window_ids.dom().contains(k)
                && windows.window_ids[k].pid == pid ==> listed.contains(windows.window_ids[k]))
            ==> !skips_stale_cleanup(
            windows,
            cleanup,
            refresh,
            mission_control,
            in_drag,
            changing,
            pid,
            listed,
        ),
{
}

/// The managed spaces are those that screens show, in the order of the screens.
pub proof fn managed_spaces_are_those_that_show(screens: Seq<Screen>, space: SpaceId)
    ensures
        managed(screens).contains(space) <==> exists|i: int|
            0 <= i < screens.len() && (#[trigger] screens[i]).space == Some(space),
        managed(screens).len() <= screens.len(),
        (forall|i: int| 0 <= i < screens.len() ==> (#[trigger] screens[i]).space is Some)
            ==> managed(screens).len() == screens.len() && forall|i: int|
            0 <= i < screens.len() ==> Some(#[trigger] managed(screens)[i]) == screens[i].space,
    decreases screens.len(),
{
    if screens.len() > 0 {
        let head = screens.drop_last();
        let n = screens.len() - 1;
        managed_spaces_are_those_that_show(head, space);
        assert(forall|k: int| 0 <= k < n ==> head[k] == screens[k]);
        assert(screens[n] == screens.last());
        if screens.last().space is Some {
            crate::collections::lemma_push_contains(managed(head), screens.last().space->0);
        }
        if exists|i: int| 0 <= i < head.len() && (#[trigger] head[i]).space == Some(space) {
            let i = choose|i: int| 0 <= i < head.len() && (#[trigger] head[i]).space == Some(space);
            assert(screens[i].space == Some(space));
        }
        if exists|i: int| 0 <= i < screens.len() && (#[trigger] screens[i]).space == Some(space) {
            let i = choose|i: int|
                0 <= i < screens.len() && (#[trigger] screens[i]).space == Some(space);
            if i < n {
                assert(head[i].space == Some(space));
            }
        }
        if forall|i: int| 0 <= i < screens.len() ==> (#[trigger] screens[i]).space is Some {
            assert forall|i: int| 0 <= i < head.len() implies (#[trigger] head[i]).space is Some by {
                assert(screens[i].space is Some);
            }
            assert(screens[n].space is Some);
            assert forall|i: int| 0 <= i < screens.len() implies Some(#[trigger] managed(screens)[i])
                == screens[i].space by {
                if i < n {
                    assert(managed(screens)[i] == managed(head)[i]);
                    assert(Some(managed(head)[i]) == head[i].space);
                }
            }
        }
    }
}

/// What is listed for a space are the managed windows of the application whose frames lie there
/// and that show or were listed, and no others.
pub proof fn listings_hold_the_windows_of_their_space(
    windows: Windows,
    r: Seq<WindowId>,
    pid: Pid,
    space: SpaceId,
    listed: Seq<WindowId>,
    places: Map<WindowId, SpaceId>,
    w: WindowId,
    id: WindowServerId,
)
    requires
        windows.is_listing(r, pid, space, listed, places),
    ensures
        r.contains(w) ==> w.pid == pid && windows.windows.dom().contains(w)
            && windows.windows[w].is_manageable && places.dom().contains(w) && places[w] == space,
        w.pid == pid && windows.windows.dom().contains(w) && windows.windows[w].is_manageable
            && places.dom().contains(w) && places[w] == space && (listed.contains(w) || (
        windows.visible.contains(id) && windows.window_ids.dom().contains(id)
            && windows.window_ids[id] == w)) ==> r.contains(w),
{
    a_listing_holds_what_belongs(windows, r, pid, space, listed, places, w);
}

} // verus!
