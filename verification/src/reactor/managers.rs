//! The reactor's own state, by concern.

use vstd::prelude::*;

use crate::collections::{VecMap, VecSet};
use crate::model::{AppInfo, Frame, Pid, Screen, SpaceId, WindowInfo, WindowServerId, WindowServerInfo};
use crate::reactor::transaction_manager::{TransactionId, WindowTxStore};
use crate::window_id::WindowId;

verus! {

/// A window that is being dragged.
#[derive(Clone, Copy, Debug, PartialEq, Eq, Structural)]
pub struct DragSession {
    pub window: WindowId,
    pub last_frame: Frame,
    pub origin_space: Option<SpaceId>,
    pub settled_space: Option<SpaceId>,
    pub layout_dirty: bool,
}

#[derive(Clone, Copy, Debug, PartialEq, Eq, Structural)]
pub enum DragState {
    Inactive,
    Active { session: DragSession },
    PendingSwap { dragged: WindowId, target: WindowId },
}

#[derive(Clone, Copy, Debug, PartialEq, Eq, Structural)]
pub enum MissionControlState {
    Inactive,
    Active,
    Transitioning,
}

#[derive(Clone, Copy, Debug, PartialEq, Eq, Structural)]
pub enum MenuState {
    Closed,
    /// So many menus are open, one inside the other.
    Open(usize),
}

#[derive(Clone, Copy, Debug, PartialEq, Eq, Structural)]
pub enum WorkspaceSwitchState {
    Inactive,
    Active,
}

#[derive(Clone, Copy, Debug, PartialEq, Eq, Structural)]
pub enum StaleCleanupState {
    Enabled,
    Suppressed,
}

#[derive(Clone, Copy, Debug, PartialEq, Eq, Structural)]
pub enum RefocusState {
    Idle,
    Pending(SpaceId),
}

/// What is known of a window.
#[derive(Clone, Debug, PartialEq, Eq)]
pub struct WindowState {
    pub title: String,
    /// The last known frame of the window. Always includes the last write.
    ///
    /// This value only updates monotonically with respect to writes; in other words, reads are
    /// only accepted when they are known to come after the last write.
    pub frame_monotonic: Frame,
    pub is_ax_standard: bool,
    pub is_ax_root: bool,
    pub is_minimized: bool,
    pub is_manageable: bool,
    pub last_sent_txid: TransactionId,
    pub window_server_id: Option<WindowServerId>,
    pub bundle_id: Option<String>,
    pub bundle_path: Option<String>,
    pub ax_role: Option<String>,
    pub ax_subrole: Option<String>,
}

impl WindowState {
    /// The state of a window of which `info` is all that is known.
    pub open spec fn of_info(info: WindowInfo) -> WindowState {
        WindowState {
            title: info.title,
            frame_monotonic: info.frame,
            is_ax_standard: info.is_standard,
            is_ax_root: info.is_root,
            is_minimized: info.is_minimized,
            is_manageable: false,
            last_sent_txid: TransactionId(0),
            window_server_id: info.sys_id,
            bundle_id: info.bundle_id,
            bundle_path: info.path,
            ax_role: info.ax_role,
            ax_subrole: info.ax_subrole,
        }
    }

    /// The state of a known window after `info` was read of it: everything is taken over but the
    /// transaction, and the frame unless it is empty.
    pub open spec fn refreshed(self, info: WindowInfo, frame_is_empty: bool) -> WindowState {
        WindowState {
            frame_monotonic: if frame_is_empty {
                self.frame_monotonic
            } else {
                info.frame
            },
            is_manageable: self.is_manageable,
            last_sent_txid: self.last_sent_txid,
            ..WindowState::of_info(info)
        }
    }

    pub fn from_info(info: WindowInfo) -> (r: WindowState)
        ensures
            r == WindowState::of_info(info),
    {
        WindowState {
            title: info.title,
            frame_monotonic: info.frame,
            is_ax_standard: info.is_standard,
            is_ax_root: info.is_root,
            is_minimized: info.is_minimized,
            is_manageable: false,
            last_sent_txid: TransactionId(0),
            window_server_id: info.sys_id,
            bundle_id: info.bundle_id,
            bundle_path: info.path,
            ax_role: info.ax_role,
            ax_subrole: info.ax_subrole,
        }
    }

    /// Takes over what was read of a known window.
    pub fn refresh(&mut self, info: WindowInfo, frame_is_empty: bool)
        ensures
            *final(self) == old(self).refreshed(info, frame_is_empty),
    {
        self.title = info.title;
        if !frame_is_empty {
            self.frame_monotonic = info.frame;
        }
        self.is_ax_standard = info.is_standard;
        self.is_ax_root = info.is_root;
        self.is_minimized = info.is_minimized;
        self.window_server_id = info.sys_id;
        self.bundle_id = info.bundle_id;
        self.bundle_path = info.path;
        self.ax_role = info.ax_role;
        self.ax_subrole = info.ax_subrole;
    }

    /// Starts the next transaction; the counter wraps around.
    #[must_use]
    pub fn next_txid(&mut self) -> (r: TransactionId)
        ensures
            r == old(self).last_sent_txid.spec_next(),
            *final(self) == (WindowState { last_sent_txid: r, ..*old(self) }),
    {
        self.last_sent_txid = self.last_sent_txid.next();
        self.last_sent_txid
    }
}

/// Manages window state and lifecycle.
pub struct WindowManager {
    pub windows: VecMap<WindowId, WindowState>,
    pub window_ids: VecMap<WindowServerId, WindowId>,
    pub visible_windows: VecSet<WindowServerId>,
    pub observed_window_server_ids: VecSet<WindowServerId>,
    pub window_server_info: VecMap<WindowServerId, WindowServerInfo>,
    /// The space that each window was last seen in.
    pub window_server_space: VecMap<WindowServerId, SpaceId>,
}

/// What the window manager knows.
#[verifier::ext_equal]
pub struct Windows {
    pub windows: Map<WindowId, WindowState>,
    pub window_ids: Map<WindowServerId, WindowId>,
    pub visible: Set<WindowServerId>,
    pub observed: Set<WindowServerId>,
    pub server_info: Map<WindowServerId, WindowServerInfo>,
    pub server_space: Map<WindowServerId, SpaceId>,
}

impl WindowManager {
    pub open spec fn view(self) -> Windows {
        Windows {
            windows: self.windows@,
            window_ids: self.window_ids@,
            visible: self.visible_windows@,
            observed: self.observed_window_server_ids@,
            server_info: self.window_server_info@,
            server_space: self.window_server_space@,
        }
    }

    pub fn new() -> (r: WindowManager)
        ensures
            r@ == (Windows {
                windows: Map::empty(),
                window_ids: Map::empty(),
                visible: Set::empty(),
                observed: Set::empty(),
                server_info: Map::empty(),
                server_space: Map::empty(),
            }),
    {
        WindowManager {
            windows: VecMap::new(),
            window_ids: VecMap::new(),
            visible_windows: VecSet::new(),
            observed_window_server_ids: VecSet::new(),
            window_server_info: VecMap::new(),
            window_server_space: VecMap::new(),
        }
    }
}

/// Manages application state and rules.
pub struct AppManager {
    pub apps: VecMap<Pid, AppInfo>,
    /// When app rules were last applied, in milliseconds.
    pub app_rules_recently_applied: u64,
}

/// The applications that went fullscreen on a space, and the windows that left it last.
pub struct FullscreenTrack {
    pub pids: VecSet<Pid>,
    pub last_removed: Vec<WindowServerId>,
}

/// Manages space and screen state.
pub struct SpaceManager {
    pub screens: Vec<Screen>,
    pub fullscreen_by_space: VecMap<SpaceId, FullscreenTrack>,
    pub changing_screens: VecSet<WindowServerId>,
}

/// Manages drag operations and window swapping.
pub struct DragManager {
    pub drag_state: DragState,
    pub skip_layout_for_window: Option<WindowId>,
}

/// Manages window notifications and the transaction store.
pub struct NotificationManager {
    pub last_sls_notification_ids: Vec<u32>,
    pub window_tx_store: Option<WindowTxStore>,
}

/// The file that events are recorded to, if they are.
#[derive(Clone, Debug, PartialEq, Eq)]
pub struct RecordingManager {
    pub record: Option<String>,
}

/// Manages menu state and interactions.
#[derive(Clone, Copy, Debug, PartialEq, Eq, Structural)]
pub struct MenuManager {
    pub menu_state: MenuState,
}

/// Manages Mission Control state.
pub struct MissionControlManager {
    pub mission_control_state: MissionControlState,
    pub pending_mission_control_refresh: VecSet<Pid>,
}

/// An automatic workspace switch that followed an activated application.
#[derive(Clone, Copy, Debug, PartialEq, Eq, Structural)]
pub struct AutoWorkspaceSwitch {
    /// In milliseconds.
    pub occurred_at: u64,
    pub space: SpaceId,
    pub from_workspace: Option<u64>,
    pub to_workspace: u64,
}

/// Manages workspace switching state.
#[derive(Clone, Copy, Debug, PartialEq, Eq, Structural)]
pub struct WorkspaceSwitchManager {
    pub workspace_switch_state: WorkspaceSwitchState,
    pub workspace_switch_generation: u64,
    pub active_workspace_switch: Option<u64>,
    pub last_auto_workspace_switch: Option<AutoWorkspaceSwitch>,
}

/// Manages refocus and cleanup state.
#[derive(Clone, Copy, Debug, PartialEq, Eq, Structural)]
pub struct RefocusManager {
    pub stale_cleanup_state: StaleCleanupState,
    pub refocus_state: RefocusState,
}

impl MenuState {
    /// How many menus are open.
    pub open spec fn depth(self) -> int {
        match self {
            MenuState::Closed => 0,
            MenuState::Open(depth) => depth as int,
        }
    }

    /// The menus after one more opened.
    pub open spec fn opened(self) -> MenuState {
        if self.depth() < usize::MAX {
            MenuState::Open((self.depth() + 1) as usize)
        } else {
            self
        }
    }

    /// The menus after one closed.
    pub open spec fn closed(self) -> MenuState {
        if self.depth() <= 1 {
            MenuState::Closed
        } else {
            MenuState::Open((self.depth() - 1) as usize)
        }
    }

    /// A menu that is open has a depth.
    pub open spec fn wf(self) -> bool {
        self matches MenuState::Open(depth) ==> depth > 0
    }
}

impl MenuManager {
    /// A menu opened.
    pub fn menu_opened(&mut self)
        requires
            old(self).menu_state.wf(),
        ensures
            final(self).menu_state.wf(),
            final(self).menu_state == old(self).menu_state.opened(),
    {
        self.menu_state = match self.menu_state {
            MenuState::Closed => MenuState::Open(1),
            MenuState::Open(depth) => MenuState::Open(depth.saturating_add(1)),
        };
    }

    /// A menu closed; the result says whether one was open.
    pub fn menu_closed(&mut self) -> (r: bool)
        requires
            old(self).menu_state.wf(),
        ensures
            final(self).menu_state.wf(),
            r == (old(self).menu_state.depth() > 0),
            final(self).menu_state == old(self).menu_state.closed(),
    {
        match self.menu_state {
            MenuState::Closed => false,
            MenuState::Open(depth) => {
                let new_depth: usize = depth.saturating_sub(1);
                self.menu_state = if new_depth == 0 {
                    MenuState::Closed
                } else {
                    MenuState::Open(new_depth)
                };
                true
            },
        }
    }
}

impl MissionControlManager {
    pub open spec fn active(self) -> bool {
        self.mission_control_state == MissionControlState::Active
    }

    pub fn is_mission_control_active(&self) -> (r: bool)
        ensures
            r == self.active(),
    {
        self.mission_control_state == MissionControlState::Active
    }

    /// Records whether Mission Control is shown; the result says whether that changed.
    pub fn set_mission_control_active(&mut self, active: bool) -> (r: bool)
        ensures
            r == (old(self).active() != active),
            final(self).active() == active,
            final(self).pending_mission_control_refresh == old(
                self,
            ).pending_mission_control_refresh,
            final(self).mission_control_state == (if !r {
                old(self).mission_control_state
            } else if active {
                MissionControlState::Active
            } else {
                MissionControlState::Inactive
            }),
    {
        if self.is_mission_control_active() == active {
            return false;
        }
        self.mission_control_state = if active {
            MissionControlState::Active
        } else {
            MissionControlState::Inactive
        };
        true
    }

    /// Notes that every one of `pids` was asked for its windows anew; a previous round is void.
    pub fn begin_refresh(&mut self, pids: &Vec<Pid>)
        ensures
            final(self).mission_control_state == old(self).mission_control_state,
            forall|p: Pid|
                final(self).pending_mission_control_refresh@.contains(p) <==> pids@.contains(p),
    {
        self.pending_mission_control_refresh.clear();
        let ghost state = self.mission_control_state;
        let mut i: usize = 0;
        while i < pids.len()
            invariant
                i <= pids@.len(),
                self.mission_control_state == state,
                forall|p: Pid|
                    self.pending_mission_control_refresh@.contains(p) <==> pids@.take(
                        i as int,
                    ).contains(p),
            decreases pids@.len() - i,
        {
            let pid: Pid = pids[i];
            let _ = self.pending_mission_control_refresh.insert(pid);
            proof {
                assert(pids@.take(i + 1) =~= pids@.take(i as int).push(pid));
                assert forall|p: Pid|
                    self.pending_mission_control_refresh@.contains(p) <==> pids@.take(
                        i + 1,
                    ).contains(p) by {
                    if pids@.take(i as int).contains(p) {
                        let j = pids@.take(i as int).index_of(p);
                        assert(pids@.take(i + 1)[j] == p);
                    }
                    assert(pids@.take(i + 1)[i as int] == pid);
                    if pids@.take(i + 1).contains(p) && p != pid {
                        let j = pids@.take(i + 1).index_of(p);
                        assert(pids@.take(i as int)[j] == p);
                    }
                }
            }
            i = i + 1;
        }
        assert(pids@.take(i as int) =~= pids@);
    }
}

/// Whether the focus may follow the mouse: no menu is open and Mission Control is not shown.
pub fn focus_follows_mouse_allowed(menu: &MenuManager, mission_control: &MissionControlManager)
    -> (r: bool)
    ensures
        r == (menu.menu_state == MenuState::Closed && !mission_control.active()),
{
    menu.menu_state == MenuState::Closed && !mission_control.is_mission_control_active()
}

impl WorkspaceSwitchManager {
    /// The next generation; the counter wraps around.
    pub open spec fn next_generation(self) -> u64 {
        if self.workspace_switch_generation == u64::MAX {
            0
        } else {
            (self.workspace_switch_generation + 1) as u64
        }
    }

    /// A workspace switch begins.
    pub fn begin_switch(&mut self)
        ensures
            *final(self) == (WorkspaceSwitchManager {
                workspace_switch_generation: old(self).next_generation(),
                active_workspace_switch: Some(old(self).next_generation()),
                ..*old(self)
            }),
    {
        self.workspace_switch_generation = self.workspace_switch_generation.wrapping_add(1);
        self.active_workspace_switch = Some(self.workspace_switch_generation);
    }

    /// The handling of an event ended; a switch in progress ends with it unless the layout still
    /// moved windows.
    pub fn finish_event(&mut self, layout_changed: bool)
        ensures
            *final(self) == (WorkspaceSwitchManager {
                workspace_switch_state: WorkspaceSwitchState::Inactive,
                active_workspace_switch: if layout_changed {
                    old(self).active_workspace_switch
                } else {
                    None
                },
                ..*old(self)
            }),
    {
        self.workspace_switch_state = WorkspaceSwitchState::Inactive;
        if self.active_workspace_switch.is_some() && !layout_changed {
            self.active_workspace_switch = None;
        }
    }

    /// Whether windows are placed without animation.
    pub fn suppresses_animation(&self, is_workspace_switch: bool) -> (r: bool)
        ensures
            r == (is_workspace_switch || self.active_workspace_switch is Some),
    {
        is_workspace_switch || self.active_workspace_switch.is_some()
    }
}

impl RefocusManager {
    /// Stale windows are kept while no screen is managed.
    pub fn update_stale_cleanup_state(&mut self, spaces: &Vec<Option<SpaceId>>)
        ensures
            *final(self) == (RefocusManager {
                stale_cleanup_state: if forall|i: int|
                    0 <= i < spaces@.len() ==> (#[trigger] spaces@[i]) is None {
                    StaleCleanupState::Suppressed
                } else {
                    StaleCleanupState::Enabled
                },
                ..*old(self)
            }),
    {
        let mut i: usize = 0;
        while i < spaces.len()
            invariant
                i <= spaces@.len(),
                forall|j: int| 0 <= j < i ==> (#[trigger] spaces@[j]) is None,
                *self == *old(self),
            decreases spaces@.len() - i,
        {
            if spaces[i].is_some() {
                assert(spaces@[i as int] is Some);
                self.stale_cleanup_state = StaleCleanupState::Enabled;
                return;
            }
            i = i + 1;
        }
        self.stale_cleanup_state = StaleCleanupState::Suppressed;
    }

    /// Takes the space in which the focus is to be restored.
    pub fn take_pending(&mut self) -> (r: Option<SpaceId>)
        ensures
            r == (match old(self).refocus_state {
                RefocusState::Pending(space) => Some(space),
                RefocusState::Idle => None,
            }),
            *final(self) == (RefocusManager { refocus_state: RefocusState::Idle, ..*old(self) }),
    {
        let r = match self.refocus_state {
            RefocusState::Pending(space) => Some(space),
            RefocusState::Idle => None,
        };
        self.refocus_state = RefocusState::Idle;
        r
    }

    /// A window was added to `space`: if it went to a workspace that is not shown, the focus is
    /// to be restored there.
    pub fn request_refocus_if_hidden(
        &mut self,
        space: SpaceId,
        active_workspace: Option<u64>,
        window_workspace: Option<u64>,
    )
        ensures
            *final(self) == (if active_workspace is Some && window_workspace is Some
                && active_workspace != window_workspace {
                RefocusManager { refocus_state: RefocusState::Pending(space), ..*old(self) }
            } else {
                *old(self)
            }),
    {
        match (active_workspace, window_workspace) {
            (Some(active), Some(window)) => {
                if active != window {
                    self.refocus_state = RefocusState::Pending(space);
                }
            },
            _ => {},
        }
    }

    /// The windows on the screen that shows `space` were listed; `workspaces` holds the workspace
    /// of each, where it has one.
    pub fn request_refocus_if_any_hidden(
        &mut self,
        space: SpaceId,
        active_workspace: Option<u64>,
        workspaces: &Vec<Option<u64>>,
    )
        ensures
            *final(self) == (if active_workspace is Some && (exists|i: int|
                0 <= i < workspaces@.len() && (#[trigger] workspaces@[i]) is Some
                    && workspaces@[i] != active_workspace) {
                RefocusManager { refocus_state: RefocusState::Pending(space), ..*old(self) }
            } else {
                *old(self)
            }),
    {
        let active: u64 = match active_workspace {
            Some(active) => active,
            None => {
                return;
            },
        };
        let mut i: usize = 0;
        while i < workspaces.len()
            invariant
                i <= workspaces@.len(),
                active_workspace == Some(active),
                *self == *old(self),
                forall|j: int|
                    0 <= j < i ==> (#[trigger] workspaces@[j]) is None || workspaces@[j]
                        == active_workspace,
            decreases workspaces@.len() - i,
        {
            match workspaces[i] {
                Some(workspace) => {
                    if workspace != active {
                        assert(workspaces@[i as int] is Some);
                        self.refocus_state = RefocusState::Pending(space);
                        return;
                    }
                },
                None => {},
            }
            i = i + 1;
        }
    }
}

/// `ids` in ascending order.
pub open spec fn ascending(ids: Seq<u32>) -> bool {
    forall|i: int, j: int| 0 <= i < j < ids.len() ==> ids[i] <= ids[j]
}

/// Inserts `id` into ascending `ids`.
fn insert_ascending(ids: &mut Vec<u32>, id: u32)
    requires
        ascending(old(ids)@),
    ensures
        ascending(final(ids)@),
        final(ids)@.to_multiset() == old(ids)@.to_multiset().insert(id),
{
    let mut i: usize = 0;
    while i < ids.len() && ids[i] <= id
        invariant
            i <= ids@.len(),
            ids@ == old(ids)@,
            forall|j: int| 0 <= j < i ==> ids@[j] <= id,
        decreases ids@.len() - i,
    {
        i = i + 1;
    }
    let ghost before = ids@;
    ids.insert(i, id);
    proof {
        before.insert_ensures(i as int, id);
        vstd::seq_lib::to_multiset_insert(before, i as int, id);
        let after = ids@;
        assert forall|a: int, b: int| 0 <= a < b < after.len() implies after[a] <= after[b] by {
            let a0 = if a < i { a } else { a - 1 };
            let b0 = if b < i { b } else { b - 1 };
            if a != i {
                assert(after[a] == before[a0]);
            }
            if b != i {
                assert(after[b] == before[b0]);
            }
            if a == i {
                assert(before[i as int] > id);
                assert(before[i as int] <= before[b0]);
            }
        }
    }
}

impl NotificationManager {
    /// Brings the list of watched windows up to date with `keys`; the list is kept
    /// in ascending order, and the result says whether it changed.
    pub fn update_watched(&mut self, keys: &Vec<WindowServerId>) -> (r: bool)
        ensures
            final(self).window_tx_store == old(self).window_tx_store,
            ascending(final(self).last_sls_notification_ids@),
            final(self).last_sls_notification_ids@.to_multiset() == keys@.to_multiset(),
            r == (final(self).last_sls_notification_ids@ != old(self).last_sls_notification_ids@),
    {
        let mut ids: Vec<u32> = Vec::new();
        let mut i: usize = 0;
        assert(keys@.take(0).to_multiset() =~= Seq::<u32>::empty().to_multiset()) by {
            assert(keys@.take(0) =~= Seq::<u32>::empty());
        }
        while i < keys.len()
            invariant
                i <= keys@.len(),
                ascending(ids@),
                ids@.to_multiset() == keys@.take(i as int).to_multiset(),
            decreases keys@.len() - i,
        {
            insert_ascending(&mut ids, keys[i]);
            proof {
                assert(keys@.take(i + 1) =~= keys@.take(i as int).push(keys@[i as int]));
                keys@.take(i as int).to_multiset_ensures();
            }
            i = i + 1;
        }
        assert(keys@.take(i as int) =~= keys@);
        if same_ids(&ids, &self.last_sls_notification_ids) {
            return false;
        }
        self.last_sls_notification_ids = ids;
        true
    }
}

fn same_ids(a: &Vec<u32>, b: &Vec<u32>) -> (r: bool)
    ensures
        r == (a@ == b@),
{
    if a.len() != b.len() {
        return false;
    }
    let mut i: usize = 0;
    while i < a.len()
        invariant
            i <= a@.len(),
            a@.len() == b@.len(),
            forall|j: int| 0 <= j < i ==> a@[j] == b@[j],
        decreases a@.len() - i,
    {
        if a[i] != b[i] {
            return false;
        }
        i = i + 1;
    }
    assert(a@ =~= b@);
    true
}

/// Opening a menu and closing it again leaves the menus as they were, short of the counter's end.
pub proof fn menus_open_and_close_in_balance(menus: MenuState)
    requires
        menus.wf(),
        menus.depth() < usize::MAX,
    ensures
        menus.opened().closed() == menus,
        menus.opened().depth() == menus.depth() + 1,
        menus.opened().wf() && menus.closed().wf(),
{
}

/// Two ascending rows with the same members are the same row, so the list of watched windows is
/// only renewed when its members changed.
pub proof fn ascending_rows_are_determined_by_their_members(a: Seq<u32>, b: Seq<u32>)
    requires
        ascending(a),
        ascending(b),
        a.to_multiset() == b.to_multiset(),
    ensures
        a == b,
{
    let le = |x: u32, y: u32| x <= y;
    assert(vstd::relations::sorted_by(a, le));
    assert(vstd::relations::sorted_by(b, le));
    vstd::seq_lib::lemma_sorted_unique(a, b, le);
}

/// A window of which all is new is known as it was read, and has had no transaction; one that is
/// read again keeps its transaction, and its frame if the one that was read is empty.
pub proof fn windows_are_known_as_they_were_read(info: WindowInfo, before: WindowState, empty: bool)
    ensures
        ({
            let w = WindowState::of_info(info);
            &&& w.title == info.title && w.frame_monotonic == info.frame
            &&& w.is_ax_standard == info.is_standard && w.is_ax_root == info.is_root
            &&& w.is_minimized == info.is_minimized && !w.is_manageable
            &&& w.window_server_id == info.sys_id && w.last_sent_txid.0 == 0
            &&& w.bundle_id == info.bundle_id && w.bundle_path == info.path
            &&& w.ax_role == info.ax_role && w.ax_subrole == info.ax_subrole
        }),
        ({
            let w = before.refreshed(info, empty);
            &&& w.title == info.title && w.is_minimized == info.is_minimized
            &&& w.is_ax_standard == info.is_standard && w.is_ax_root == info.is_root
            &&& w.window_server_id == info.sys_id && w.last_sent_txid == before.last_sent_txid
            &&& w.is_manageable == before.is_manageable
            &&& w.bundle_id == info.bundle_id && w.bundle_path == info.path
            &&& w.ax_role == info.ax_role && w.ax_subrole == info.ax_subrole
            &&& empty ==> w.frame_monotonic == before.frame_monotonic
            &&& !empty ==> w.frame_monotonic == info.frame
        }),
{
}

/// Menus are counted: each that opens adds one, each that closes takes one away, and they are
/// closed exactly when none is open. Each switch has a generation after the one before.
pub proof fn menus_and_switches_are_counted(menus: MenuState, switch: WorkspaceSwitchManager)
    requires
        menus.wf(),
    ensures
        menus.depth() == 0 <==> menus is Closed,
        menus.depth() < usize::MAX ==> menus.opened().depth() == menus.depth() + 1,
        menus.depth() > 0 ==> menus.closed().depth() == menus.depth() - 1,
        menus.depth() == 0 ==> menus.closed() == menus,
        menus.opened().wf() && menus.closed().wf(),
        menus.opened() is Open,
        switch.workspace_switch_generation < u64::MAX ==> switch.next_generation()
            == switch.workspace_switch_generation + 1,
        switch.next_generation() != switch.workspace_switch_generation,
{
}

/// Mission Control is active exactly while it shows, and not while it comes or goes.
pub proof fn mission_control_is_active_while_it_shows(m: MissionControlManager)
    ensures
        m.active() <==> m.mission_control_state is Active,
{
}

} // verus!
