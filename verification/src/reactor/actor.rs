//! The reactor itself: it takes events from the rest of the system, keeps its picture of windows,
//! applications and screens coherent, and says what has to follow.

use vstd::prelude::*;

use crate::collections::{VecMap, VecSet};
use crate::model::{
    AppInfo, Pid, Quiet, SpaceId, WindowInfo, WindowServerId, WindowServerInfo,
};
#[allow(unused_imports)]
use crate::model::Screen;
use crate::protocol::queries::WindowData;
use crate::reactor::discovery::{
    LevelFacts, ScreenUpdate, StaleFacts, WindowDiscoveryHandler,
};
#[allow(unused_imports)]
use crate::reactor::discovery::{
    after_list, managed, manageable, skips_stale_cleanup, APP_RULES_WINDOW_MS,
};
use crate::reactor::event::{Event, LaidOutWindow, LayoutEvent};
use crate::reactor::main_window::MainWindowTracker;
#[allow(unused_imports)]
use crate::reactor::main_window::Focus;
use crate::reactor::managers::{
    AppManager, DragManager, DragState, MenuManager, MenuState, MissionControlManager,
    NotificationManager, RefocusManager, SpaceManager, WindowManager,
    WorkspaceSwitchManager, WorkspaceSwitchState,
};
#[allow(unused_imports)]
use crate::reactor::managers::{ascending, MissionControlState, WindowState, Windows};
use crate::reactor::space::{FullscreenWindowTrack, PendingSpaceChange};
use crate::reactor::transaction_manager::{TransactionManager, WindowTxStore};
#[allow(unused_imports)]
use crate::reactor::transaction_manager::Transactions;
#[allow(unused_imports)]
use crate::reactor::window::FrameState;
use crate::reactor::window::{DestroyFacts, WindowEventHandler};
use crate::text::copy_text;
use crate::window_id::WindowId;

verus! {

/// What the window server says of the level of a window, and whether its frame is too small.
#[derive(Clone, Copy, Debug, PartialEq, Eq, Structural)]
pub struct LevelReading {
    pub is_tiny: bool,
    pub facts: LevelFacts,
}

pub open spec fn reading_of(
    levels: Map<WindowServerId, LevelReading>,
    id: Option<WindowServerId>,
) -> LevelReading {
    match id {
        Some(id) if levels.dom().contains(id) => levels[id],
        _ => LevelReading {
            is_tiny: false,
            facts: LevelFacts { is_sticky: false, level: None },
        },
    }
}

pub(crate) fn get_reading(
    levels: &VecMap<WindowServerId, LevelReading>,
    id: Option<WindowServerId>,
) -> (r: LevelReading)
    ensures
        r == reading_of(levels@, id),
{
    match id {
        Some(id) => match levels.get(&id) {
            Some(reading) => *reading,
            None => LevelReading {
                is_tiny: false,
                facts: LevelFacts { is_sticky: false, level: None },
            },
        },
        None => LevelReading {
            is_tiny: false,
            facts: LevelFacts { is_sticky: false, level: None },
        },
    }
}

impl Windows {
    /// Whether a window with this state is managed.
    pub open spec fn is_manageable_state(
        self,
        w: WindowState,
        levels: Map<WindowServerId, LevelReading>,
    ) -> bool {
        let reading = reading_of(levels, w.window_server_id);
        manageable(
            w.is_minimized,
            w.is_ax_standard,
            w.is_ax_root,
            w.window_server_id is Some,
            match w.window_server_id {
                Some(id) if self.server_info.dom().contains(id) => Some(self.server_info[id].layer),
                _ => None,
            },
            reading.is_tiny,
            reading.facts,
        )
    }

    /// What is known once the window server said `info` of a window.
    pub open spec fn after_server_info(
        self,
        info: WindowServerInfo,
        levels: Map<WindowServerId, LevelReading>,
    ) -> Windows {
        let seen = Windows {
            visible: self.visible.insert(info.id),
            observed: self.observed.remove(info.id),
            server_info: self.server_info.insert(info.id, info),
            ..self
        };
        if seen.window_ids.dom().contains(info.id) && seen.windows.dom().contains(
            seen.window_ids[info.id],
        ) {
            let wid = seen.window_ids[info.id];
            let w = seen.windows[wid];
            Windows {
                windows: seen.windows.insert(
                    wid,
                    WindowState {
                        frame_monotonic: if info.layer == 0 {
                            info.frame
                        } else {
                            w.frame_monotonic
                        },
                        is_manageable: seen.is_manageable_state(w, levels),
                        ..w
                    },
                ),
                ..seen
            }
        } else {
            seen
        }
    }
}

/// What is known once the window server said all of `list`.
pub open spec fn after_server_list(
    windows: Windows,
    list: Seq<WindowServerInfo>,
    levels: Map<WindowServerId, LevelReading>,
) -> Windows
    decreases list.len(),
{
    if list.len() == 0 {
        windows
    } else {
        after_server_list(windows, list.drop_last(), levels).after_server_info(
            list.last(),
            levels,
        )
    }
}

impl WindowManager {
    /// The window server said this of a window.
    pub(crate) fn take_server_info(
        &mut self,
        info: WindowServerInfo,
        levels: &VecMap<WindowServerId, LevelReading>,
    )
        ensures
            final(self)@ == old(self)@.after_server_info(info, levels@),
    {
        let _ = self.visible_windows.insert(info.id);
        let _ = self.observed_window_server_ids.remove(&info.id);
        let _ = self.window_server_info.insert(info.id, info);
        let wid = match self.window_ids.get(&info.id) {
            Some(wid) => *wid,
            None => {
                return;
            },
        };
        let ghost seen = self@;
        match self.windows.remove(&wid) {
            Some(state) => {
                let mut state = state;
                let reading = get_reading(levels, state.window_server_id);
                let is_manageable = self.compute_manageability_from_parts(
                    state.window_server_id,
                    state.is_minimized,
                    state.is_ax_standard,
                    state.is_ax_root,
                    reading.is_tiny,
                    reading.facts,
                );
                if info.layer == 0 {
                    state.frame_monotonic = info.frame;
                }
                state.is_manageable = is_manageable;
                let _ = self.windows.insert(wid, state);
                assert(self@.windows =~= old(self)@.after_server_info(info, levels@).windows);
            },
            None => {
                assert(self@.windows =~= seen.windows);
            },
        }
    }

    /// The window server said this of some windows.
    pub fn update_partial_window_server_info(
        &mut self,
        list: &Vec<WindowServerInfo>,
        levels: &VecMap<WindowServerId, LevelReading>,
    )
        ensures
            final(self)@ == after_server_list(old(self)@, list@, levels@),
    {
        let ghost before = self@;
        let mut i: usize = 0;
        while i < list.len()
            invariant
                i <= list@.len(),
                self@ == after_server_list(before, list@.take(i as int), levels@),
            decreases list@.len() - i,
        {
            assert(list@.take(i + 1).drop_last() =~= list@.take(i as int));
            self.take_server_info(list[i], levels);
            i = i + 1;
        }
        assert(list@.take(i as int) =~= list@);
    }

    /// The window server said this of all windows that show.
    pub fn update_complete_window_server_info(
        &mut self,
        list: &Vec<WindowServerInfo>,
        levels: &VecMap<WindowServerId, LevelReading>,
    )
        ensures
            final(self)@ == after_server_list(
                (Windows { visible: Set::empty(), ..old(self)@ }),
                list@,
                levels@,
            ),
    {
        self.visible_windows.clear();
        self.update_partial_window_server_info(list, levels);
    }

    /// A window as the layout engine gets to know it.
    pub open spec fn laid_out(self, wid: WindowId) -> LaidOutWindow {
        if self@.windows.dom().contains(wid) {
            let w = self@.windows[wid];
            LaidOutWindow {
                wid,
                title: Some(w.title),
                ax_role: w.ax_role,
                ax_subrole: w.ax_subrole,
            }
        } else {
            LaidOutWindow { wid, title: None, ax_role: None, ax_subrole: None }
        }
    }

    /// Windows as the layout engine gets to know them.
    pub fn lay_out(&self, wids: &Vec<WindowId>) -> (r: Vec<LaidOutWindow>)
        ensures
            r@ == wids@.map_values(|w: WindowId| self.laid_out(w)),
    {
        let mut r: Vec<LaidOutWindow> = Vec::new();
        let mut i: usize = 0;
        while i < wids.len()
            invariant
                i <= wids@.len(),
                r@.len() == i,
                forall|j: int| 0 <= j < i ==> r@[j] == self.laid_out(wids@[j]),
            decreases wids@.len() - i,
        {
            let wid = wids[i];
            let window = match self.windows.get(&wid) {
                Some(w) => LaidOutWindow {
                    wid,
                    title: Some(w.title.clone()),
                    ax_role: copy_text(&w.ax_role),
                    ax_subrole: copy_text(&w.ax_subrole),
                },
                None => LaidOutWindow { wid, title: None, ax_role: None, ax_subrole: None },
            };
            r.push(window);
            i = i + 1;
        }
        assert(r@ =~= wids@.map_values(|w: WindowId| self.laid_out(w)));
        r
    }
}

/// The members of `wids` that are known and lie in `space`.
pub open spec fn members_of(
    windows: Windows,
    wids: Seq<WindowId>,
    places: Map<WindowId, SpaceId>,
    space: SpaceId,
) -> Seq<WindowId>
    decreases wids.len(),
{
    if wids.len() == 0 {
        Seq::empty()
    } else {
        let head = members_of(windows, wids.drop_last(), places, space);
        let wid = wids.last();
        if windows.windows.dom().contains(wid) && places.dom().contains(wid) && places[wid]
            == space {
            head.push(wid)
        } else {
            head
        }
    }
}

pub open spec fn rising(spaces: Seq<SpaceId>) -> bool {
    forall|i: int, j: int| 0 <= i < j < spaces.len() ==> spaces[i] < spaces[j]
}

/// Inserts `space` into rising `spaces` unless it is there.
fn insert_rising(spaces: &mut Vec<SpaceId>, space: SpaceId)
    requires
        rising(old(spaces)@),
    ensures
        rising(final(spaces)@),
        forall|s: SpaceId|
            #[trigger] final(spaces)@.contains(s) <==> old(spaces)@.contains(s) || s == space,
{
    let ghost before = spaces@;
    let mut i: usize = 0;
    while i < spaces.len() && spaces[i] < space
        invariant
            i <= spaces@.len(),
            spaces@ == before,
            forall|j: int| 0 <= j < i ==> spaces@[j] < space,
        decreases spaces@.len() - i,
    {
        i = i + 1;
    }
    if i < spaces.len() && spaces[i] == space {
        assert(before.contains(space)) by {
            assert(before[i as int] == space);
        }
        return;
    }
    spaces.insert(i, space);
    proof {
        let after = spaces@;
        assert(after == before.insert(i as int, space));
        assert forall|a: int, b: int| 0 <= a < b < after.len() implies after[a] < after[b] by {
            let a0 = if a < i { a } else { a - 1 };
            let b0 = if b < i { b } else { b - 1 };
            if a != i {
                assert(after[a] == before[a0]);
            }
            if b != i {
                assert(after[b] == before[b0]);
            }
            if a == i {
                assert(before[i as int] > space);
                if b0 > i {
                    assert(before[i as int] < before[b0]);
                }
            }
        }
        assert forall|s: SpaceId|
            #[trigger] after.contains(s) <==> before.contains(s) || s == space by {
            if before.contains(s) {
                let j = before.index_of(s);
                if j < i {
                    assert(after[j] == s);
                } else {
                    assert(after[j + 1] == s);
                }
            }
            assert(after[i as int] == space);
            if after.contains(s) && s != space {
                let j = after.index_of(s);
                if j < i {
                    assert(before[j] == s);
                } else {
                    assert(before[j - 1] == s);
                }
            }
        }
    }
}

pub open spec fn update_spaces(updates: Seq<ScreenUpdate>) -> Seq<SpaceId> {
    updates.map_values(|u: ScreenUpdate| u.space)
}

/// Whether `updates` list `wids` by space, in rising order of the spaces.
pub open spec fn is_by_space(
    updates: Seq<ScreenUpdate>,
    windows: Windows,
    wids: Seq<WindowId>,
    places: Map<WindowId, SpaceId>,
) -> bool {
    &&& rising(update_spaces(updates))
    &&& forall|i: int|
        0 <= i < updates.len() ==> (#[trigger] updates[i]).windows@ == members_of(
            windows,
            wids,
            places,
            updates[i].space,
        )
    &&& forall|s: SpaceId|
        #[trigger] update_spaces(updates).contains(s) <==> members_of(
            windows,
            wids,
            places,
            s,
        ).len() > 0
}

/// The windows that app rules are applied to, by space.
pub fn process_windows_for_app_rules(
    windows: &WindowManager,
    wids: &Vec<WindowId>,
    places: &VecMap<WindowId, SpaceId>,
) -> (r: Vec<ScreenUpdate>)
    ensures
        is_by_space(r@, windows@, wids@, places@),
{
    let mut spaces: Vec<SpaceId> = Vec::new();
    let mut i: usize = 0;
    assert forall|s: SpaceId| #[trigger]
        spaces@.contains(s) <==> members_of(windows@, wids@.take(0), places@, s).len() > 0 by {}
    while i < wids.len()
        invariant
            i <= wids@.len(),
            rising(spaces@),
            forall|s: SpaceId| #[trigger]
                spaces@.contains(s) <==> members_of(
                    windows@,
                    wids@.take(i as int),
                    places@,
                    s,
                ).len() > 0,
        decreases wids@.len() - i,
    {
        assert(wids@.take(i + 1).drop_last() =~= wids@.take(i as int));
        let wid = wids[i];
        if windows.windows.contains_key(&wid) {
            match places.get(&wid) {
                Some(space) => {
                    insert_rising(&mut spaces, *space);
                },
                None => {},
            }
        }
        i = i + 1;
    }
    assert(wids@.take(i as int) =~= wids@);
    let mut r: Vec<ScreenUpdate> = Vec::new();
    let mut k: usize = 0;
    while k < spaces.len()
        invariant
            k <= spaces@.len(),
            r@.len() == k,
            forall|j: int|
                0 <= j < k ==> (#[trigger] r@[j]).space == spaces@[j] && r@[j].windows@
                    == members_of(windows@, wids@, places@, spaces@[j]),
        decreases spaces@.len() - k,
    {
        let space: SpaceId = spaces[k];
        let mut members: Vec<WindowId> = Vec::new();
        let mut m: usize = 0;
        while m < wids.len()
            invariant
                m <= wids@.len(),
                members@ == members_of(windows@, wids@.take(m as int), places@, space),
            decreases wids@.len() - m,
        {
            assert(wids@.take(m + 1).drop_last() =~= wids@.take(m as int));
            let wid = wids[m];
            if windows.windows.contains_key(&wid) {
                match places.get(&wid) {
                    Some(place) => {
                        if *place == space {
                            members.push(wid);
                        }
                    },
                    None => {},
                }
            }
            m = m + 1;
        }
        assert(wids@.take(m as int) =~= wids@);
        r.push(ScreenUpdate { space, windows: members });
        k = k + 1;
    }
    assert(update_spaces(r@) =~= spaces@);
    r
}

/// Whether this is what the layout engine is told after an application listed its windows: for
/// each managed screen the windows that belong on it, and the main window if it is one of them.
pub open spec fn is_discovery_report(
    windows: Windows,
    screens: Seq<Screen>,
    pid: Pid,
    known_visible: Seq<WindowId>,
    places: Map<WindowId, SpaceId>,
    main: Option<WindowId>,
    main_window_space: Option<SpaceId>,
    updates: Seq<ScreenUpdate>,
    focus: Option<LayoutEvent>,
) -> bool {
    let spaces = managed(screens);
    let knows = exists|w: WindowId| #[trigger]
        windows.windows.dom().contains(w) && w.pid == pid;
    if !knows {
        updates.len() == 0 && focus is None
    } else {
        &&& updates.len() == spaces.len()
        &&& forall|i: int|
            0 <= i < updates.len() ==> {
                &&& (#[trigger] updates[i]).space == spaces[i]
                &&& if spaces.take(i).contains(updates[i].space) {
                    updates[i].windows@.len() == 0
                } else {
                    windows.is_listing(updates[i].windows@, pid, updates[i].space, known_visible, places)
                }
            }
        &&& focus == (if main is Some && main->0.pid == pid && main_window_space is Some {
            Some(LayoutEvent::WindowFocused(main_window_space->0, main->0))
        } else {
            None
        })
    }
}

/// What the reactor knows.
pub struct Reactor {
    pub window_manager: WindowManager,
    pub app_manager: AppManager,
    pub space_manager: SpaceManager,
    pub drag_manager: DragManager,
    pub notification_manager: NotificationManager,
    pub menu_manager: MenuManager,
    pub mission_control_manager: MissionControlManager,
    pub workspace_switch_manager: WorkspaceSwitchManager,
    pub refocus_manager: RefocusManager,
    pub main_window_tracker: MainWindowTracker,
    pub transaction_manager: TransactionManager,
    /// The windows that went fullscreen.
    pub fullscreen_tracks: Vec<FullscreenWindowTrack>,
    /// A space change that has to wait.
    pub pending_space_change: Option<PendingSpaceChange>,
}

/// The parts of the reactor that something may change.
pub ghost struct Parts {
    pub windows: bool,
    pub apps: bool,
    pub spaces: bool,
    pub drag: bool,
    pub notifications: bool,
    pub menus: bool,
    pub mission_control: bool,
    pub workspace_switch: bool,
    pub refocus: bool,
    pub focus: bool,
    pub transactions: bool,
    pub tracks: bool,
    pub pending: bool,
}

impl Parts {
    pub open spec fn nothing() -> Parts {
        Parts {
            windows: false,
            apps: false,
            spaces: false,
            drag: false,
            notifications: false,
            menus: false,
            mission_control: false,
            workspace_switch: false,
            refocus: false,
            focus: false,
            transactions: false,
            tracks: false,
            pending: false,
        }
    }

    /// What a list of windows may change.
    pub open spec fn of_discovery() -> Parts {
        Parts {
            windows: true,
            transactions: true,
            drag: true,
            focus: true,
            mission_control: true,
            ..Parts::nothing()
        }
    }
}

impl Reactor {
    /// The part that reports about one window change.
    pub open spec fn frame_state(self) -> FrameState {
        FrameState {
            windows: self.window_manager@,
            transactions: self.transaction_manager@,
            drag: self.drag_manager,
        }
    }

    /// Whether `after` is as this in all but `parts`.
    pub open spec fn same_but(self, after: Reactor, parts: Parts) -> bool {
        &&& parts.windows || after.window_manager == self.window_manager
        &&& parts.apps || after.app_manager == self.app_manager
        &&& parts.spaces || after.space_manager == self.space_manager
        &&& parts.drag || after.drag_manager == self.drag_manager
        &&& parts.notifications || after.notification_manager == self.notification_manager
        &&& parts.menus || after.menu_manager == self.menu_manager
        &&& parts.mission_control || after.mission_control_manager == self.mission_control_manager
        &&& parts.workspace_switch || after.workspace_switch_manager
            == self.workspace_switch_manager
        &&& parts.refocus || after.refocus_manager == self.refocus_manager
        &&& parts.focus || after.main_window_tracker == self.main_window_tracker
        &&& parts.transactions || after.transaction_manager == self.transaction_manager
        &&& parts.tracks || after.fullscreen_tracks == self.fullscreen_tracks
        &&& parts.pending || after.pending_space_change == self.pending_space_change
    }
}

/// A window that was dropped because it is gone: it leaves the layout, and swap tracking starts
/// over if so said.
#[derive(Clone, Copy, Debug, PartialEq, Eq, Structural)]
pub struct GoneWindow {
    pub wid: WindowId,
    pub resets_swap: bool,
}

/// The state after reports that each of `wids` was destroyed, and the windows that were dropped.
pub open spec fn all_destroyed(
    before: FrameState,
    wids: Seq<WindowId>,
    mission_control: bool,
    facts: DestroyFacts,
) -> (FrameState, Seq<GoneWindow>)
    decreases wids.len(),
{
    if wids.len() == 0 {
        (before, Seq::empty())
    } else {
        let (state, gone) = all_destroyed(before, wids.drop_last(), mission_control, facts);
        let wid = wids.last();
        (
            state.after_destruction(wid, mission_control, facts),
            if state.destroys(wid, mission_control, facts) {
                gone.push(
                    GoneWindow {
                        wid,
                        resets_swap: state.drag.spec_dragged() == Some(wid) || facts.last_target
                            == Some(wid),
                    },
                )
            } else {
                gone
            },
        )
    }
}

/// The focus after reports that each of `wids` was destroyed.
pub open spec fn focus_without(focus: Focus, wids: Seq<WindowId>) -> Focus
    decreases wids.len(),
{
    if wids.len() == 0 {
        focus
    } else {
        focus_without(focus, wids.drop_last()).after(Event::WindowDestroyed(wids.last()))
    }
}

/// What is known when an application lists its windows.
pub struct DiscoveryFacts {
    /// What the window server says of windows that are not listed.
    pub stale: VecMap<WindowServerId, StaleFacts>,
    /// The owners of windows that the reactor does not know.
    pub elsewhere: VecMap<WindowServerId, Pid>,
    pub destroyed: DestroyFacts,
    pub levels: VecMap<WindowServerId, LevelReading>,
    /// The space of each window's frame.
    pub places: VecMap<WindowId, SpaceId>,
    /// The space of the main window's frame, on the screens as they are then.
    pub main_window_space: Option<SpaceId>,
    /// In milliseconds.
    pub now: u64,
}

/// What an application's list of windows leads to.
pub struct Discovery {
    /// The windows that the list shows to be gone.
    pub stale: Vec<WindowId>,
    /// Those of them that were dropped.
    pub gone: Vec<GoneWindow>,
    /// The windows that belong on each screen.
    pub updates: Vec<ScreenUpdate>,
    /// What the layout engine is told of the focus.
    pub focus: Option<LayoutEvent>,
}

impl Reactor {
    /// What is managed, at the start: nothing.
    pub fn new(now: u64) -> (r: Reactor)
        ensures
            r.window_manager@ == (Windows {
                windows: Map::empty(),
                window_ids: Map::empty(),
                visible: Set::empty(),
                observed: Set::empty(),
                server_info: Map::empty(),
                server_space: Map::empty(),
            }),
            r.app_manager.apps@ == Map::<Pid, AppInfo>::empty(),
            r.app_manager.app_rules_recently_applied == now,
            r.space_manager.screens@.len() == 0,
            r.space_manager.fullscreen_by_space@ == Map::<
                SpaceId,
                crate::reactor::managers::FullscreenTrack,
            >::empty(),
            r.space_manager.changing_screens@ == Set::<WindowServerId>::empty(),
            r.drag_manager == (DragManager {
                drag_state: DragState::Inactive,
                skip_layout_for_window: None,
            }),
            r.notification_manager.last_sls_notification_ids@.len() == 0,
            r.notification_manager.window_tx_store is None,
            r.menu_manager.menu_state == MenuState::Closed,
            r.mission_control_manager.mission_control_state == MissionControlState::Inactive,
            r.mission_control_manager.pending_mission_control_refresh@ == Set::<Pid>::empty(),
            r.workspace_switch_manager == (WorkspaceSwitchManager {
                workspace_switch_state: WorkspaceSwitchState::Inactive,
                workspace_switch_generation: 0,
                active_workspace_switch: None,
                last_auto_workspace_switch: None,
            }),
            r.refocus_manager == (RefocusManager {
                stale_cleanup_state: crate::reactor::managers::StaleCleanupState::Enabled,
                refocus_state: crate::reactor::managers::RefocusState::Idle,
            }),
            r.main_window_tracker@ == (Focus {
                apps: Map::empty(),
                global_frontmost: None,
                window_server_focus: None,
                authoritative: false,
                key_focus_hold: None,
            }),
            r.transaction_manager@ == (Transactions {
                records: Map::empty(),
                cleared_at: Map::empty(),
            }),
            r.fullscreen_tracks@.len() == 0,
            r.pending_space_change is None,
    {
        Reactor {
            window_manager: WindowManager::new(),
            app_manager: AppManager { apps: VecMap::new(), app_rules_recently_applied: now },
            space_manager: SpaceManager {
                screens: Vec::new(),
                fullscreen_by_space: VecMap::new(),
                changing_screens: VecSet::new(),
            },
            drag_manager: DragManager::new(),
            notification_manager: NotificationManager {
                last_sls_notification_ids: Vec::new(),
                window_tx_store: None,
            },
            menu_manager: MenuManager { menu_state: MenuState::Closed },
            mission_control_manager: MissionControlManager {
                mission_control_state: crate::reactor::managers::MissionControlState::Inactive,
                pending_mission_control_refresh: VecSet::new(),
            },
            workspace_switch_manager: WorkspaceSwitchManager {
                workspace_switch_state: WorkspaceSwitchState::Inactive,
                workspace_switch_generation: 0,
                active_workspace_switch: None,
                last_auto_workspace_switch: None,
            },
            refocus_manager: RefocusManager {
                stale_cleanup_state: crate::reactor::managers::StaleCleanupState::Enabled,
                refocus_state: crate::reactor::managers::RefocusState::Idle,
            },
            main_window_tracker: MainWindowTracker::default(),
            transaction_manager: TransactionManager::new(WindowTxStore::new()),
            fullscreen_tracks: Vec::new(),
            pending_space_change: None,
        }
    }

    /// What the layout engine is told of the window that an event raised; `space` is the one that
    /// it lies in.
    pub fn focus_event(&self, raised: Option<WindowId>, space: Option<SpaceId>) -> (r: Option<
        LayoutEvent,
    >)
        ensures
            r == (if raised is Some && self.window_manager@.windows.dom().contains(raised->0)
                && space is Some {
                Some(LayoutEvent::WindowFocused(space->0, raised->0))
            } else {
                None
            }),
    {
        match (raised, space) {
            (Some(wid), Some(space)) => {
                if self.window_manager.windows.contains_key(&wid) {
                    Some(LayoutEvent::WindowFocused(space, wid))
                } else {
                    None
                }
            },
            _ => None,
        }
    }

    /// Whether windows are laid out after an event: not while one is dragged, unless one is gone.
    pub fn lays_out(&self, window_was_destroyed: bool) -> (r: bool)
        ensures
            r == (!self.drag_manager.in_drag() || window_was_destroyed),
    {
        !self.drag_manager.is_in_drag() || window_was_destroyed
    }

    /// Ends the handling of an event. The result says whether the watched windows changed.
    pub fn finish_event(&mut self, layout_changed: bool, update_notifications: bool) -> (r: bool)
        ensures
            final(self).workspace_switch_manager == (WorkspaceSwitchManager {
                workspace_switch_state: WorkspaceSwitchState::Inactive,
                active_workspace_switch: if layout_changed {
                    old(self).workspace_switch_manager.active_workspace_switch
                } else {
                    None
                },
                ..old(self).workspace_switch_manager
            }),
            old(self).same_but(
                *final(self),
                (Parts { workspace_switch: true, notifications: true, ..Parts::nothing() }),
            ),
            final(self).notification_manager.window_tx_store == old(self).notification_manager.window_tx_store,
            !update_notifications ==> !r && final(self).notification_manager == old(self).notification_manager,
            update_notifications ==> {
                let ids = final(self).notification_manager.last_sls_notification_ids@;
                &&& ascending(ids)
                &&& ids.to_multiset() == old(self).window_manager.window_ids.order().to_multiset()
                &&& r == (ids != old(self).notification_manager.last_sls_notification_ids@)
            },
    {
        self.workspace_switch_manager.finish_event(layout_changed);
        if update_notifications {
            let keys = self.window_manager.window_ids.keys();
            self.notification_manager.update_watched(&keys)
        } else {
            false
        }
    }

    /// The application's info, as given or as it is known.
    pub fn known_app_info(&self, pid: Pid, info: Option<AppInfo>) -> (r: Option<AppInfo>)
        ensures
            match info {
                Some(i) => r == Some(i),
                None => if self.app_manager.apps@.dom().contains(pid) {
                    r is Some && same_app(r->0, self.app_manager.apps@[pid])
                } else {
                    r is None
                },
            },
    {
        match info {
            Some(i) => Some(i),
            None => match self.app_manager.apps.get(&pid) {
                Some(known) => Some(
                    AppInfo {
                        bundle_id: copy_text(&known.bundle_id),
                        localized_name: copy_text(&known.localized_name),
                    },
                ),
                None => None,
            },
        }
    }

    /// The windows that the application no longer lists and that are gone, unless this is no
    /// time to tell.
    pub fn stale_windows(
        &self,
        pid: Pid,
        known_visible: &Vec<WindowId>,
        facts: &VecMap<WindowServerId, StaleFacts>,
        elsewhere: &VecMap<WindowServerId, Pid>,
    ) -> (r: Vec<WindowId>)
        ensures
            ({
                let windows = self.window_manager@;
                let skip = skips_stale_cleanup(
                    windows,
                    self.refocus_manager.stale_cleanup_state,
                    self.mission_control_manager.pending_mission_control_refresh@.contains(pid),
                    self.mission_control_manager.active(),
                    self.drag_manager.in_drag(),
                    exists|id: WindowServerId| #[trigger]
                        self.space_manager.changing_screens@.contains(id) && windows.owner(
                            id,
                            elsewhere@,
                        ) == Some(pid),
                    pid,
                    known_visible@,
                );
                &&& r@.no_duplicates()
                &&& forall|w: WindowId|
                    r@.contains(w) <==> !skip && windows.stale(
                        w,
                        pid,
                        known_visible@,
                        facts@,
                        self.space_manager.screens@,
                    )
            }),
    {
        let (stale, _) = WindowDiscoveryHandler::identify_stale_windows(
            &self.window_manager,
            &self.space_manager,
            &self.drag_manager,
            &self.mission_control_manager,
            &self.refocus_manager,
            pid,
            known_visible,
            facts,
            elsewhere,
        );
        stale
    }

    /// Whether `stale` are those of `windows` that an application's list shows to be gone, unless
    /// this is no time to tell.
    pub open spec fn is_stale_list(
        self,
        windows: Windows,
        stale: Seq<WindowId>,
        pid: Pid,
        known_visible: Seq<WindowId>,
        facts: DiscoveryFacts,
    ) -> bool {
        let skip = skips_stale_cleanup(
            windows,
            self.refocus_manager.stale_cleanup_state,
            self.mission_control_manager.pending_mission_control_refresh@.contains(pid),
            self.mission_control_manager.active(),
            self.drag_manager.in_drag(),
            exists|id: WindowServerId| #[trigger]
                self.space_manager.changing_screens@.contains(id) && windows.owner(
                    id,
                    facts.elsewhere@,
                ) == Some(pid),
            pid,
            known_visible,
        );
        &&& stale.no_duplicates()
        &&& forall|w: WindowId|
            stale.contains(w) <==> !skip && windows.stale(
                w,
                pid,
                known_visible,
                facts.stale@,
                self.space_manager.screens@,
            )
    }

    /// Drops each of `stale` that was rightly reported destroyed.
    fn drop_stale(&mut self, stale: &Vec<WindowId>, facts: &DestroyFacts) -> (r: Vec<GoneWindow>)
        ensures
            (final(self).frame_state(), r@) == all_destroyed(
                old(self).frame_state(),
                stale@,
                old(self).mission_control_manager.active(),
                *facts,
            ),
            final(self).main_window_tracker@ == focus_without(
                old(self).main_window_tracker@,
                stale@,
            ),
            old(self).same_but(
                *final(self),
                (Parts {
                    windows: true,
                    transactions: true,
                    drag: true,
                    focus: true,
                    ..Parts::nothing()
                }),
            ),
    {
        let ghost before = *self;
        let mission_control: bool = self.mission_control_manager.is_mission_control_active();
        let mut r: Vec<GoneWindow> = Vec::new();
        let mut i: usize = 0;
        while i < stale.len()
            invariant
                i <= stale@.len(),
                mission_control == before.mission_control_manager.active(),
                (self.frame_state(), r@) == all_destroyed(
                    before.frame_state(),
                    stale@.take(i as int),
                    mission_control,
                    *facts,
                ),
                self.main_window_tracker@ == focus_without(
                    before.main_window_tracker@,
                    stale@.take(i as int),
                ),
                before.same_but(
                    *self,
                    (Parts {
                        windows: true,
                        transactions: true,
                        drag: true,
                        focus: true,
                        ..Parts::nothing()
                    }),
                ),
            decreases stale@.len() - i,
        {
            assert(stale@.take(i + 1).drop_last() =~= stale@.take(i as int));
            let wid = stale[i];
            let event = Event::WindowDestroyed(wid);
            let _ = self.main_window_tracker.handle_event(&event);
            let step = WindowEventHandler::handle_window_destroyed(
                &mut self.window_manager,
                &mut self.transaction_manager,
                &mut self.drag_manager,
                wid,
                mission_control,
                facts,
            );
            if step.removed {
                r.push(GoneWindow { wid, resets_swap: step.resets_swap });
            }
            i = i + 1;
        }
        assert(stale@.take(i as int) =~= stale@);
        r
    }

    /// What the layout engine is told once an application's list was taken over.
    fn report_windows(&self, pid: Pid, known_visible: &Vec<WindowId>, facts: &DiscoveryFacts) -> (r:
        (Vec<ScreenUpdate>, Option<LayoutEvent>))
        ensures
            is_discovery_report(
                self.window_manager@,
                self.space_manager.screens@,
                pid,
                known_visible@,
                facts.places@,
                self.main_window_tracker@.main_window(),
                facts.main_window_space,
                r.0@,
                r.1,
            ),
    {
        if !self.window_manager.knows_windows_of(pid) {
            return (Vec::new(), None);
        }
        let updates = WindowDiscoveryHandler::emit_layout_events(
            &self.window_manager,
            &self.space_manager.screens,
            pid,
            known_visible,
            &facts.places,
        );
        let focus = WindowDiscoveryHandler::refocus_main_window(
            self.main_window_tracker.main_window(),
            facts.main_window_space,
            pid,
        );
        (updates, focus)
    }

    /// Whether `after` and `r` are what comes of a list of windows, where `windows` are known and
    /// `focus` is: those that are gone are dropped, then what is listed is taken over.
    pub open spec fn is_after_list(
        self,
        windows: Windows,
        focus: Focus,
        pid: Pid,
        new: Seq<(WindowId, WindowInfo)>,
        known_visible: Seq<WindowId>,
        facts: DiscoveryFacts,
        after: Reactor,
        r: Discovery,
    ) -> bool {
        let (mid, gone) = all_destroyed(
            FrameState { windows, ..self.frame_state() },
            r.stale@,
            self.mission_control_manager.active(),
            facts.destroyed,
        );
        &&& self.is_stale_list(windows, r.stale@, pid, known_visible, facts)
        &&& r.gone@ == gone
        &&& after.window_manager@ == after_list(
            mid.windows,
            mid.windows.all_judged(new, facts.levels@),
        )
        &&& after.transaction_manager@ == mid.transactions
        &&& after.drag_manager == mid.drag
        &&& after.main_window_tracker@ == focus_without(focus, r.stale@)
        &&& after.mission_control_manager.pending_mission_control_refresh@
            == self.mission_control_manager.pending_mission_control_refresh@.remove(pid)
        &&& after.mission_control_manager.mission_control_state
            == self.mission_control_manager.mission_control_state
        &&& is_discovery_report(
            after.window_manager@,
            self.space_manager.screens@,
            pid,
            known_visible,
            facts.places@,
            after.main_window_tracker@.main_window(),
            facts.main_window_space,
            r.updates@,
            r.focus,
        )
    }

    /// An application listed its windows. Those that the list shows to be gone are dropped; what it
    /// says of `new` is taken over. The result is what the layout engine is told.
    pub fn on_windows_discovered_with_app_info(
        &mut self,
        pid: Pid,
        new: &Vec<(WindowId, WindowInfo)>,
        known_visible: &Vec<WindowId>,
        facts: &DiscoveryFacts,
    ) -> (r: Discovery)
        ensures
            old(self).is_after_list(
                old(self).window_manager@,
                old(self).main_window_tracker@,
                pid,
                new@,
                known_visible@,
                *facts,
                *final(self),
                r,
            ),
            old(self).same_but(*final(self), Parts::of_discovery()),
    {
        let stale = self.stale_windows(pid, known_visible, &facts.stale, &facts.elsewhere);
        let gone = self.drop_stale(&stale, &facts.destroyed);
        let _ = self.mission_control_manager.finish_refresh(pid);
        let listed = self.window_manager.judge_windows(new, &facts.levels);
        self.window_manager.update_window_states(listed);
        let (updates, focus) = self.report_windows(pid, known_visible, facts);
        Discovery { stale, gone, updates, focus }
    }

    /// A window, as clients get to know it; one that is minimized is not shown to them.
    pub fn create_window_data(&self, wid: WindowId, is_floating: bool) -> (r: Option<WindowData>)
        ensures
            ({
                let windows = self.window_manager@.windows;
                let apps = self.app_manager.apps@;
                if !windows.dom().contains(wid) || windows[wid].is_minimized
                    || !apps.dom().contains(wid.pid) {
                    r is None
                } else {
                    let w = windows[wid];
                    let app = apps[wid.pid];
                    &&& r is Some
                    &&& r->0.id.pid == wid.pid && r->0.id.idx == wid.idx
                    &&& r->0.title == w.title
                    &&& r->0.frame == w.frame_monotonic
                    &&& r->0.is_floating == is_floating
                    &&& r->0.is_focused == (self.main_window_tracker@.main_window() == Some(wid))
                    &&& r->0.bundle_id == (if app.localized_name is Some {
                        app.localized_name
                    } else {
                        app.bundle_id
                    })
                    &&& r->0.app_name == app.localized_name
                    &&& r->0.window_server_id == w.window_server_id
                }
            }),
    {
        let w = match self.window_manager.windows.get(&wid) {
            Some(w) => w,
            None => {
                return None;
            },
        };
        if w.is_minimized {
            return None;
        }
        let app = match self.app_manager.apps.get(&wid.pid) {
            Some(app) => app,
            None => {
                return None;
            },
        };
        let name = if app.localized_name.is_some() {
            copy_text(&app.localized_name)
        } else {
            copy_text(&app.bundle_id)
        };
        let is_focused: bool = match self.main_window_tracker.main_window() {
            Some(main) => main == wid,
            None => false,
        };
        Some(
            WindowData {
                id: crate::protocol::queries::WindowId { pid: wid.pid, idx: wid.idx },
                title: w.title.clone(),
                frame: w.frame_monotonic,
                is_floating,
                is_focused,
                bundle_id: name,
                app_name: copy_text(&app.localized_name),
                window_server_id: w.window_server_id,
            },
        )
    }
}

pub open spec fn same_app(a: AppInfo, b: AppInfo) -> bool {
    a.bundle_id == b.bundle_id && a.localized_name == b.localized_name
}

impl WindowDiscoveryHandler {
    /// The windows of `pid` were listed: those that are gone are dropped, then what is listed is
    /// taken over. `has_info` says whether the list came with what is known of the application.
    pub fn handle_discovery(
        reactor: &mut Reactor,
        pid: Pid,
        new: &Vec<(WindowId, WindowInfo)>,
        known_visible: &Vec<WindowId>,
        has_info: bool,
        facts: &DiscoveryFacts,
    ) -> (r: Discovery)
        ensures
            ({
                let (mid, gone) = all_destroyed(
                    old(reactor).frame_state(),
                    r.stale@,
                    old(reactor).mission_control_manager.active(),
                    facts.destroyed,
                );
                &&& old(reactor).is_stale_list(
                    old(reactor).window_manager@,
                    r.stale@,
                    pid,
                    known_visible@,
                    *facts,
                )
                &&& r.gone@ == gone
                &&& final(reactor).window_manager@ == mid.windows.after_discovery(
                    mid.windows.all_judged(new@, facts.levels@),
                    facts.now - old(reactor).app_manager.app_rules_recently_applied
                        < APP_RULES_WINDOW_MS && !has_info && !old(
                        reactor,
                    ).app_manager.apps@.dom().contains(pid) && new@.len() != 0,
                )
                &&& final(reactor).transaction_manager@ == mid.transactions
                &&& final(reactor).drag_manager == mid.drag
                &&& final(reactor).main_window_tracker@ == focus_without(
                    old(reactor).main_window_tracker@,
                    r.stale@,
                )
            }),
            is_discovery_report(
                final(reactor).window_manager@,
                old(reactor).space_manager.screens@,
                pid,
                known_visible@,
                facts.places@,
                final(reactor).main_window_tracker@.main_window(),
                facts.main_window_space,
                r.updates@,
                r.focus,
            ),
            old(reactor).same_but(
                *final(reactor),
                (Parts {
                    windows: true,
                    transactions: true,
                    drag: true,
                    focus: true,
                    ..Parts::nothing()
                }),
            ),
    {
        let stale = reactor.stale_windows(pid, known_visible, &facts.stale, &facts.elsewhere);
        let gone = reactor.drop_stale(&stale, &facts.destroyed);
        let again: bool = Self::rules_recently_applied(
            reactor.app_manager.app_rules_recently_applied,
            facts.now,
            has_info || reactor.app_manager.apps.contains_key(&pid),
            new.len() != 0,
        );
        let listed = reactor.window_manager.judge_windows(new, &facts.levels);
        let (fresh, updated) = Self::process_window_list(
            &mut reactor.window_manager,
            &listed,
            again,
        );
        Self::update_window_states(&mut reactor.window_manager, &fresh, &updated);
        let (updates, focus) = reactor.report_windows(pid, known_visible, facts);
        Discovery { stale, gone, updates, focus }
    }
}

/// What an activated application leads to.
#[derive(Clone, Copy, Debug, PartialEq, Eq, Structural)]
pub enum ActivationStep {
    /// This program activated it: nothing follows.
    Ignore,
    /// See whether the workspace is to be switched.
    ConsiderSwitch,
}

pub struct AppEventHandler;

impl AppEventHandler {
    /// An application was launched: it is known, and so is what the window server says of its
    /// windows. What it lists itself is then taken over.
    pub fn handle_application_launched(
        reactor: &mut Reactor,
        pid: Pid,
        info: AppInfo,
        visible_windows: &Vec<(WindowId, WindowInfo)>,
        window_server_info: &Vec<WindowServerInfo>,
        facts: &DiscoveryFacts,
    ) -> (r: Discovery)
        ensures
            old(reactor).is_after_list(
                after_server_list(
                    old(reactor).window_manager@,
                    window_server_info@,
                    facts.levels@,
                ),
                old(reactor).main_window_tracker@,
                pid,
                visible_windows@,
                Seq::empty(),
                *facts,
                *final(reactor),
                r,
            ),
            final(reactor).app_manager.apps@ == old(reactor).app_manager.apps@.insert(pid, info),
            final(reactor).app_manager.app_rules_recently_applied == old(reactor).app_manager.app_rules_recently_applied,
            old(reactor).same_but(
                *final(reactor),
                (Parts { apps: true, ..Parts::of_discovery() }),
            ),
    {
        let _ = reactor.app_manager.apps.insert(pid, info);
        reactor.window_manager.update_partial_window_server_info(window_server_info, &facts.levels);
        let nothing: Vec<WindowId> = Vec::new();
        assert(nothing@ =~= Seq::empty());
        reactor.on_windows_discovered_with_app_info(pid, visible_windows, &nothing, facts)
    }

    /// An application is to be terminated; the result says whether it can be told.
    pub fn handle_application_terminated(reactor: &Reactor, pid: Pid) -> (r: bool)
        ensures
            r == reactor.app_manager.apps@.dom().contains(pid),
    {
        reactor.app_manager.apps.contains_key(&pid)
    }

    /// The thread of an application ended: it is no longer known, and its windows leave the
    /// layout.
    pub fn handle_application_thread_terminated(reactor: &mut Reactor, pid: Pid) -> (r: LayoutEvent)
        ensures
            r == LayoutEvent::AppClosed(pid),
            final(reactor).app_manager.apps@ == old(reactor).app_manager.apps@.remove(pid),
            final(reactor).app_manager.app_rules_recently_applied == old(reactor).app_manager.app_rules_recently_applied,
            old(reactor).same_but(*final(reactor), (Parts { apps: true, ..Parts::nothing() })),
    {
        let _ = reactor.app_manager.apps.remove(&pid);
        LayoutEvent::AppClosed(pid)
    }

    /// An application was activated.
    pub fn handle_application_activated(quiet: Quiet) -> (r: ActivationStep)
        ensures
            r == (if quiet == Quiet::Yes {
                ActivationStep::Ignore
            } else {
                ActivationStep::ConsiderSwitch
            }),
    {
        if quiet == Quiet::Yes {
            ActivationStep::Ignore
        } else {
            ActivationStep::ConsiderSwitch
        }
    }

    /// An application listed its windows.
    pub fn handle_windows_discovered(
        reactor: &mut Reactor,
        pid: Pid,
        new: &Vec<(WindowId, WindowInfo)>,
        known_visible: &Vec<WindowId>,
        facts: &DiscoveryFacts,
    ) -> (r: Discovery)
        ensures
            old(reactor).is_after_list(
                old(reactor).window_manager@,
                old(reactor).main_window_tracker@,
                pid,
                new@,
                known_visible@,
                *facts,
                *final(reactor),
                r,
            ),
            old(reactor).same_but(*final(reactor), Parts::of_discovery()),
    {
        reactor.on_windows_discovered_with_app_info(pid, new, known_visible, facts)
    }
}

/// What is told to everyone who listens.
#[derive(Clone, Debug, PartialEq, Eq)]
pub enum BroadcastEvent {
    WorkspaceChanged { space_id: SpaceId, workspace_id: u64, workspace_name: String },
    WindowsChanged { workspace_id: u64, workspace_name: String, windows: Vec<String> },
}

/// A window, as the window server showed it.
#[derive(Clone, Copy, Debug, PartialEq, Eq, Structural)]
pub struct WindowSnapshot {
    pub info: WindowServerInfo,
}

/// The displays at one moment.
pub struct DisplaySnapshot {
    pub ordered_screens: Vec<crate::spaces::topology::ScreenInfo>,
    pub active_spaces: VecSet<SpaceId>,
    pub inactive_spaces: VecSet<SpaceId>,
    pub windows: VecMap<WindowServerId, WindowSnapshot>,
}

/// What the window server says of a window is remembered, and the window shows.
pub proof fn reported_windows_show(
    windows: Windows,
    info: WindowServerInfo,
    levels: Map<WindowServerId, LevelReading>,
)
    ensures
        windows.after_server_info(info, levels).visible.contains(info.id),
        !windows.after_server_info(info, levels).observed.contains(info.id),
        windows.after_server_info(info, levels).server_info[info.id] == info,
{
}

/// Reports of the window server neither create nor drop windows.
pub proof fn reports_keep_the_windows(
    windows: Windows,
    list: Seq<WindowServerInfo>,
    levels: Map<WindowServerId, LevelReading>,
)
    ensures
        after_server_list(windows, list, levels).windows.dom() == windows.windows.dom(),
        after_server_list(windows, list, levels).window_ids == windows.window_ids,
    decreases list.len(),
{
    if list.len() > 0 {
        reports_keep_the_windows(windows, list.drop_last(), levels);
        let head = after_server_list(windows, list.drop_last(), levels);
        assert(head.after_server_info(list.last(), levels).windows.dom() =~= head.windows.dom());
    }
}

/// After a complete report exactly the windows in it show.
pub proof fn complete_reports_decide_what_shows(
    windows: Windows,
    list: Seq<WindowServerInfo>,
    levels: Map<WindowServerId, LevelReading>,
    id: WindowServerId,
)
    requires
        windows.visible == Set::<WindowServerId>::empty(),
    ensures
        after_server_list(windows, list, levels).visible.contains(id) <==> exists|i: int|
            0 <= i < list.len() && (#[trigger] list[i]).id == id,
    decreases list.len(),
{
    if list.len() > 0 {
        let head = list.drop_last();
        complete_reports_decide_what_shows(windows, head, levels, id);
        if exists|i: int| 0 <= i < head.len() && (#[trigger] head[i]).id == id {
            let i = choose|i: int| 0 <= i < head.len() && (#[trigger] head[i]).id == id;
            assert(list[i].id == id);
        }
        if exists|i: int| 0 <= i < list.len() && (#[trigger] list[i]).id == id {
            let i = choose|i: int| 0 <= i < list.len() && (#[trigger] list[i]).id == id;
            if i < head.len() {
                assert(head[i].id == id);
            }
        }
        assert(list[list.len() - 1] == list.last());
    }
}

/// What the window server says of the level of a window is read for that window; of others nothing
/// is known.
pub proof fn levels_are_read_for_their_own_window(
    levels: Map<WindowServerId, LevelReading>,
    id: WindowServerId,
)
    ensures
        levels.dom().contains(id) ==> reading_of(levels, Some(id)) == levels[id],
        !levels.dom().contains(id) ==> !reading_of(levels, Some(id)).is_tiny && !reading_of(
            levels,
            Some(id),
        ).facts.is_sticky && reading_of(levels, Some(id)).facts.level is None,
        !reading_of(levels, None).is_tiny && reading_of(levels, None).facts.level is None,
{
}

/// A report of the window server gives the known window that it is about the frame that it
/// reports, if the window is in the normal layer, and says anew whether it is managed. Nothing else
/// about it changes, and nothing about other windows.
pub proof fn reports_move_the_window_they_are_about(
    windows: Windows,
    info: WindowServerInfo,
    levels: Map<WindowServerId, LevelReading>,
    wid: WindowId,
    other: WindowId,
)
    requires
        windows.window_ids.dom().contains(info.id),
        windows.window_ids[info.id] == wid,
        windows.windows.dom().contains(wid),
        other != wid,
    ensures
        ({
            let after = windows.after_server_info(info, levels);
            let w = after.windows[wid];
            let before = windows.windows[wid];
            &&& info.layer == 0 ==> w.frame_monotonic == info.frame
            &&& info.layer != 0 ==> w.frame_monotonic == before.frame_monotonic
            &&& w.title == before.title && w.is_minimized == before.is_minimized
            &&& w.window_server_id == before.window_server_id
            &&& w.last_sent_txid == before.last_sent_txid
            &&& before.is_minimized || !before.is_ax_standard || !before.is_ax_root
                ==> !w.is_manageable
            &&& before.window_server_id == Some(info.id) && info.layer != 0 ==> !w.is_manageable
            &&& after.windows[other] == windows.windows[other]
            &&& after.window_ids == windows.window_ids
            &&& after.server_space == windows.server_space
        }),
{
}

/// After a list of reports the last report of each window is remembered.
pub proof fn the_last_report_counts(
    windows: Windows,
    list: Seq<WindowServerInfo>,
    levels: Map<WindowServerId, LevelReading>,
    i: int,
)
    requires
        0 <= i < list.len(),
        forall|j: int| i < j < list.len() ==> (#[trigger] list[j]).id != list[i].id,
    ensures
        ({
            let after = after_server_list(windows, list, levels);
            &&& after.server_info.dom().contains(list[i].id)
            &&& after.server_info[list[i].id] == list[i]
            &&& after.visible.contains(list[i].id) && !after.observed.contains(list[i].id)
        }),
    decreases list.len(),
{
    let head = list.drop_last();
    let n = list.len() - 1;
    if i < n {
        assert(forall|j: int| 0 <= j < n ==> head[j] == list[j]);
        assert(list[n].id != list[i].id);
        the_last_report_counts(windows, head, levels, i);
    }
}

/// The layout engine gets to know a known window by its own title and roles, and another by
/// nothing.
pub proof fn the_layout_engine_knows_windows_by_their_own_names(m: WindowManager, wid: WindowId)
    ensures
        m.laid_out(wid).wid == wid,
        m@.windows.dom().contains(wid) ==> m.laid_out(wid).title == Some(m@.windows[wid].title)
            && m.laid_out(wid).ax_role == m@.windows[wid].ax_role && m.laid_out(wid).ax_subrole
            == m@.windows[wid].ax_subrole,
        !m@.windows.dom().contains(wid) ==> m.laid_out(wid).title is None,
{
}

/// Windows that app rules are applied to are named with the space that they lie in: each known one
/// with its own, and no space is named twice.
pub proof fn app_rules_go_to_the_space_of_each_window(
    updates: Seq<ScreenUpdate>,
    windows: Windows,
    wids: Seq<WindowId>,
    places: Map<WindowId, SpaceId>,
    i: int,
    wid: WindowId,
)
    requires
        is_by_space(updates, windows, wids, places),
        0 <= i < updates.len(),
    ensures
        updates[i].windows@.contains(wid) <==> wids.contains(wid) && windows.windows.dom().contains(
            wid,
        ) && places.dom().contains(wid) && places[wid] == updates[i].space,
        forall|j: int| i < j < updates.len() ==> updates[i].space < (#[trigger] updates[j]).space,
        updates[i].windows@.len() > 0,
{
    lemma_members_of(windows, wids, places, updates[i].space, wid);
    assert(update_spaces(updates)[i] == updates[i].space);
    assert(update_spaces(updates).contains(updates[i].space));
    assert forall|j: int| i < j < updates.len() implies updates[i].space < (
    #[trigger] updates[j]).space by {
        assert(update_spaces(updates)[j] == updates[j].space);
    }
}

proof fn lemma_members_of(
    windows: Windows,
    wids: Seq<WindowId>,
    places: Map<WindowId, SpaceId>,
    space: SpaceId,
    wid: WindowId,
)
    ensures
        members_of(windows, wids, places, space).contains(wid) <==> wids.contains(wid)
            && windows.windows.dom().contains(wid) && places.dom().contains(wid) && places[wid]
            == space,
    decreases wids.len(),
{
    if wids.len() > 0 {
        let head = wids.drop_last();
        lemma_members_of(windows, head, places, space, wid);
        assert(wids =~= head.push(wids.last()));
        crate::collections::lemma_push_contains(head, wids.last());
        crate::collections::lemma_push_contains(
            members_of(windows, head, places, space),
            wids.last(),
        );
    }
}

/// Of windows that are reported destroyed outside of Mission Control, with a user space showing,
/// every one is dropped and named; windows that are not reported stay.
pub proof fn destroyed_windows_are_dropped(
    before: FrameState,
    wids: Seq<WindowId>,
    facts: DestroyFacts,
    wid: WindowId,
)
    requires
        !facts.no_user_space,
    ensures
        ({
            let (after, gone) = all_destroyed(before, wids, false, facts);
            &&& wids.contains(wid) ==> !after.windows.windows.dom().contains(wid)
            &&& !wids.contains(wid) ==> after.windows.windows.dom().contains(wid)
                == before.windows.windows.dom().contains(wid) && after.windows.windows[wid]
                == before.windows.windows[wid]
            &&& gone.len() <= wids.len()
            &&& (exists|i: int| 0 <= i < gone.len() && (#[trigger] gone[i]).wid == wid)
                <==> wids.contains(wid) && before.windows.windows.dom().contains(wid)
        }),
    decreases wids.len(),
{
    if wids.len() > 0 {
        let head = wids.drop_last();
        let last = wids.last();
        destroyed_windows_are_dropped(before, head, facts, wid);
        destroyed_windows_are_dropped(before, head, facts, last);
        assert(wids =~= head.push(last));
        crate::collections::lemma_push_contains(head, last);
        let (mid, first) = all_destroyed(before, head, false, facts);
        let (after, gone) = all_destroyed(before, wids, false, facts);
        if exists|i: int| 0 <= i < first.len() && (#[trigger] first[i]).wid == wid {
            let i = choose|i: int| 0 <= i < first.len() && (#[trigger] first[i]).wid == wid;
            assert(gone[i].wid == wid);
        }
        if exists|i: int| 0 <= i < gone.len() && (#[trigger] gone[i]).wid == wid {
            let i = choose|i: int| 0 <= i < gone.len() && (#[trigger] gone[i]).wid == wid;
            if i < first.len() {
                assert(first[i].wid == wid);
            }
        }
        if mid.destroys(last, false, facts) {
            assert(gone[first.len() as int].wid == last);
        }
    }
}

/// A window that is reported destroyed has the focus no longer, and nothing else about the focus
/// changes but which process holds it.
pub proof fn destroyed_windows_lose_the_focus(focus: Focus, wids: Seq<WindowId>)
    ensures
        ({
            let after = focus_without(focus, wids);
            &&& after.window_server_focus matches Some(w) ==> !wids.contains(w)
            &&& focus.window_server_focus is Some && !wids.contains(focus.window_server_focus->0)
                ==> after == focus
            &&& after.apps == focus.apps && after.global_frontmost == focus.global_frontmost
        }),
    decreases wids.len(),
{
    if wids.len() > 0 {
        let head = wids.drop_last();
        destroyed_windows_lose_the_focus(focus, head);
        assert(wids =~= head.push(wids.last()));
        crate::collections::lemma_push_contains(head, wids.last());
    }
}

/// A reactor that is the same in all parts is the same, and a list of windows touches neither the
/// screens nor the menus nor a switch of workspaces.
pub proof fn parts_make_up_the_reactor(before: Reactor, after: Reactor)
    ensures
        before.same_but(after, Parts::nothing()) ==> after == before,
        before.same_but(after, Parts::of_discovery()) ==> after.space_manager
            == before.space_manager && after.app_manager == before.app_manager
            && after.menu_manager == before.menu_manager && after.workspace_switch_manager
            == before.workspace_switch_manager && after.refocus_manager == before.refocus_manager
            && after.notification_manager == before.notification_manager
            && after.fullscreen_tracks == before.fullscreen_tracks && after.pending_space_change
            == before.pending_space_change,
        before.frame_state().windows == before.window_manager@,
        before.frame_state().transactions == before.transaction_manager@,
        before.frame_state().drag == before.drag_manager,
{
}

/// What the layout engine is told of an application's windows names each managed screen's space in
/// order, with the windows of that application that lie there; the main window has the focus told
/// only if it is one of the application.
pub proof fn reports_name_each_space_with_its_windows(
    windows: Windows,
    screens: Seq<Screen>,
    pid: Pid,
    known_visible: Seq<WindowId>,
    places: Map<WindowId, SpaceId>,
    main: Option<WindowId>,
    main_space: Option<SpaceId>,
    updates: Seq<ScreenUpdate>,
    focus: Option<LayoutEvent>,
    i: int,
    w: WindowId,
)
    requires
        is_discovery_report(
            windows,
            screens,
            pid,
            known_visible,
            places,
            main,
            main_space,
            updates,
            focus,
        ),
    ensures
        0 <= i < updates.len() && updates[i].windows@.contains(w) ==> w.pid == pid
            && windows.windows.dom().contains(w) && windows.windows[w].is_manageable
            && places.dom().contains(w) && places[w] == updates[i].space,
        0 <= i < updates.len() ==> exists|k: int|
            0 <= k < screens.len() && (#[trigger] screens[k]).space == Some(updates[i].space),
        focus is Some ==> main is Some && main->0.pid == pid && main_space is Some && focus == Some(
            LayoutEvent::WindowFocused(main_space->0, main->0),
        ),
        (exists|v: WindowId| #[trigger] windows.windows.dom().contains(v) && v.pid == pid) && main
            is Some && main->0.pid == pid && main_space is Some ==> focus is Some,
{
    if 0 <= i < updates.len() {
        crate::reactor::discovery::managed_spaces_are_those_that_show(screens, updates[i].space);
        assert(managed(screens)[i] == updates[i].space);
        assert(managed(screens).contains(updates[i].space));
        if !managed(screens).take(i).contains(updates[i].space) {
            crate::reactor::discovery::listings_hold_the_windows_of_their_space(
                windows,
                updates[i].windows@,
                pid,
                updates[i].space,
                known_visible,
                places,
                w,
                0,
            );
        }
    }
}

/// A window is managed as it stands: it is standard, a root and not minimized, and, where the
/// window server knows it, on the normal layer and level, not tiny and not sticky.
pub proof fn windows_are_managed_as_they_stand(
    windows: Windows,
    w: WindowState,
    levels: Map<WindowServerId, LevelReading>,
)
    ensures
        windows.is_manageable_state(w, levels) ==> !w.is_minimized && w.is_ax_standard
            && w.is_ax_root,
        w.window_server_id is None ==> (windows.is_manageable_state(w, levels) <==> !w.is_minimized
            && w.is_ax_standard && w.is_ax_root),
        w.window_server_id matches Some(id) ==> (windows.is_manageable_state(w, levels)
            <==> !w.is_minimized && w.is_ax_standard && w.is_ax_root && (
        windows.server_info.dom().contains(id) ==> windows.server_info[id].layer == 0 && !(
        levels.dom().contains(id) && levels[id].is_tiny)) && (levels.dom().contains(id)
            ==> !levels[id].facts.is_sticky && (levels[id].facts.level is None
            || levels[id].facts.level == Some(0i64)))),
{
}

/// The windows of a space are those that are known and lie there, in the order of the list.
pub proof fn members_are_those_that_lie_there(
    windows: Windows,
    wids: Seq<WindowId>,
    places: Map<WindowId, SpaceId>,
    space: SpaceId,
    wid: WindowId,
)
    ensures
        members_of(windows, Seq::empty(), places, space).len() == 0,
        windows.windows.dom().contains(wid) && places.dom().contains(wid) && places[wid] == space
            ==> members_of(windows, wids.push(wid), places, space) == members_of(
            windows,
            wids,
            places,
            space,
        ).push(wid),
        !windows.windows.dom().contains(wid) || !places.dom().contains(wid) || places[wid] != space
            ==> members_of(windows, wids.push(wid), places, space) == members_of(
            windows,
            wids,
            places,
            space,
        ),
{
    assert(wids.push(wid).drop_last() =~= wids);
}

/// A list of windows may change the windows, their transactions, a drag, the focus and what waits
/// for Mission Control; it changes nothing if nothing may change.
pub proof fn lists_may_change_what_they_are_about(a: AppInfo, b: AppInfo)
    ensures
        Parts::of_discovery().windows,
        Parts::of_discovery().transactions,
        Parts::of_discovery().drag,
        Parts::of_discovery().focus,
        Parts::of_discovery().mission_control,
        same_app(a, b) <==> a.bundle_id == b.bundle_id && a.localized_name == b.localized_name,
{
}

/// What a list of windows leads to: the windows that are gone are dropped and lose the focus, those
/// that are listed are entered, and the application is not waited for any more.
pub proof fn lists_drop_enter_and_settle(
    before: Reactor,
    windows: Windows,
    focus: Focus,
    pid: Pid,
    new: Seq<(WindowId, WindowInfo)>,
    known_visible: Seq<WindowId>,
    facts: DiscoveryFacts,
    after: Reactor,
    r: Discovery,
)
    requires
        before.is_after_list(windows, focus, pid, new, known_visible, facts, after, r),
    ensures
        ({
            let (mid, gone) = all_destroyed(
                FrameState { windows, ..before.frame_state() },
                r.stale@,
                before.mission_control_manager.active(),
                facts.destroyed,
            );
            &&& r.gone@ == gone
            &&& after.window_manager@ == after_list(
                mid.windows,
                mid.windows.all_judged(new, facts.levels@),
            )
            &&& after.transaction_manager@ == mid.transactions
            &&& after.drag_manager == mid.drag
        }),
        after.main_window_tracker@ == focus_without(focus, r.stale@),
        r.stale@.no_duplicates(),
        forall|p: Pid| #[trigger]
            after.mission_control_manager.pending_mission_control_refresh@.contains(p) <==> p != pid
                && before.mission_control_manager.pending_mission_control_refresh@.contains(p),
        after.mission_control_manager.active() == before.mission_control_manager.active(),
{
}

} // verus!
