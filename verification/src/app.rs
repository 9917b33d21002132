//! The record that an application's thread keeps of its windows.
//!
//! The thread talks to the application through the accessibility interface. What that interface
//! answers arrives here as plain values: an [`Element`] names an accessibility object by a handle,
//! together with its window server id and the tab group it belongs to, as far as they could be
//! read. The functions decide what to record, what to tell the reactor and what to do next.

use vstd::prelude::*;

use crate::collections::{VecMap, VecSet};
use crate::model::{Frame, MouseState, Pid, Point, Quiet, WindowInfo, WindowServerId};
use crate::reactor::event::{Event, Requested};
use crate::reactor::transaction_manager::{TransactionId, TxRecord, WindowTxStore};
use crate::text::{
    chars_of, ends_with, has_match, is_text, lowercase, same_text, text_contains, text_ends_with,
    to_lowercase,
};

pub use crate::window_id::WindowId;

verus! {

/// How long, in milliseconds, an activation counts as caused by this program.
pub const ACTIVATION_WINDOW_MS: u64 = 1000;

/// An accessibility object.
#[derive(Clone, Copy, Debug, PartialEq, Eq, Structural)]
pub struct Element {
    /// Two objects are the same if and only if their handles are.
    pub handle: u64,
    pub wsid: Option<WindowServerId>,
    pub tab_group: Option<u64>,
}

impl Element {
    /// The window server numbers windows from one.
    pub open spec fn wf(self) -> bool {
        self.wsid != Some(0u32)
    }
}

/// Why the accessibility interface did not answer.
#[derive(Clone, Copy, Debug, PartialEq, Eq, Structural)]
pub enum AxError {
    /// The object is gone.
    InvalidUIElement,
    /// The application does not respond.
    CannotComplete,
    /// Any other code.
    Other(i32),
    /// The window is not in the record.
    NotFound,
}

#[derive(Clone, Copy, Debug, PartialEq, Eq, Structural)]
pub struct AppWindowState {
    pub elem: u64,
    pub last_seen_txid: TransactionId,
    pub hidden_by_app: bool,
    pub window_server_id: Option<WindowServerId>,
    pub is_animating: bool,
}

/// An activation that this program asked for and has not seen yet.
#[derive(Clone, Copy, Debug, PartialEq, Eq, Structural)]
pub struct PendingActivation {
    pub at_ms: u64,
    pub quiet_activation: Quiet,
    pub quiet_window_change: Option<WindowId>,
}

pub struct State {
    pub pid: Pid,
    pub windows: VecMap<WindowId, AppWindowState>,
    pub tab_groups: VecMap<u64, WindowId>,
    pub tab_group_by_wid: VecMap<WindowId, u64>,
    pub tab_group_by_wsid: VecMap<WindowServerId, u64>,
    pub last_window_idx: u32,
    pub main_window: Option<WindowId>,
    pub last_activated: Option<PendingActivation>,
    pub is_hidden: bool,
    pub is_frontmost: bool,
}

/// What the record says.
#[verifier::ext_equal]
pub struct Registry {
    pub pid: Pid,
    pub windows: Map<WindowId, AppWindowState>,
    pub tab_groups: Map<u64, WindowId>,
    pub tab_group_by_wid: Map<WindowId, u64>,
    pub tab_group_by_wsid: Map<WindowServerId, u64>,
    pub last_window_idx: u32,
    pub main_window: Option<WindowId>,
    pub last_activated: Option<PendingActivation>,
    pub is_hidden: bool,
    pub is_frontmost: bool,
}

impl Registry {
    /// The tab group of which `wsid` is the window that shows.
    pub open spec fn active_tab_group(self, wsid: WindowServerId) -> Option<u64> {
        if self.tab_group_by_wsid.dom().contains(wsid) {
            let key = self.tab_group_by_wsid[wsid];
            if self.tab_groups.dom().contains(key) && self.windows.dom().contains(
                self.tab_groups[key],
            ) && self.windows[self.tab_groups[key]].window_server_id == Some(wsid) {
                Some(key)
            } else {
                None
            }
        } else {
            None
        }
    }

    /// The window of the tab group that `elem` says it belongs to, or that its window server id
    /// shows.
    pub open spec fn tabbed(self, elem: Element) -> Option<WindowId> {
        if elem.tab_group is Some && self.tab_groups.dom().contains(elem.tab_group->0) {
            Some(self.tab_groups[elem.tab_group->0])
        } else if elem.wsid is Some && self.active_tab_group(elem.wsid->0) is Some {
            Some(self.tab_groups[self.active_tab_group(elem.wsid->0)->0])
        } else {
            None
        }
    }

    /// Whether `wid` is recorded under the window server id `wsid`.
    pub open spec fn holds_server_id(self, wid: WindowId, wsid: WindowServerId) -> bool {
        self.windows.dom().contains(wid) && self.windows[wid].window_server_id == Some(wsid)
    }

    /// Whether `wid` is recorded under the accessibility object `handle`.
    pub open spec fn holds_elem(self, wid: WindowId, handle: u64) -> bool {
        self.windows.dom().contains(wid) && self.windows[wid].elem == handle
    }

    /// Whether `r` is the window that `elem` belongs to: that of its tab group, else one recorded
    /// under its window server id (preferably the one named after it), else one recorded under
    /// the object itself.
    pub open spec fn identifies(self, elem: Element, r: Option<WindowId>) -> bool {
        if self.tabbed(elem) is Some {
            r == self.tabbed(elem)
        } else {
            let by_wsid = elem.wsid is Some && exists|w: WindowId|
                self.holds_server_id(w, elem.wsid->0);
            if by_wsid {
                let named = WindowId { pid: self.pid, idx: elem.wsid->0 };
                &&& r is Some
                &&& self.holds_server_id(r->0, elem.wsid->0)
                &&& self.holds_server_id(named, elem.wsid->0) ==> r->0 == named
            } else {
                match r {
                    Some(w) => self.holds_elem(w, elem.handle),
                    None => forall|w: WindowId| !self.holds_elem(w, elem.handle),
                }
            }
        }
    }

    /// Whether `elem` is the object that is gone, or may belong to another window than `wid`.
    pub open spec fn is_no_replacement(self, elem: Element, wid: WindowId, dead: u64) -> bool {
        elem.handle == dead || exists|r: Option<WindowId>|
            r != Some(wid) && #[trigger] self.identifies(elem, r)
    }

    pub open spec fn recovery(
        self,
        wid: WindowId,
        replacement: Option<usize>,
        main: Option<MainElement>,
    ) -> Recovery {
        if !self.windows.dom().contains(wid) {
            Recovery::Lost
        } else if self.tab_group_by_wid.dom().contains(wid) && replacement is Some {
            Recovery::Replace(replacement->0)
        } else if self.main_window != Some(wid) || main is None {
            Recovery::Lost
        } else if main->0.named == Some(wid) {
            Recovery::KeepMain
        } else if main->0.rebind == Rebind::Same(wid) || main->0.rebind == Rebind::Activate(wid) {
            Recovery::RebindMain
        } else {
            Recovery::Lost
        }
    }

    /// Whether one of `windows` is the window that `elem` belongs to.
    pub open spec fn covered(self, elem: Element, windows: Seq<WindowId>) -> bool {
        exists|w: WindowId| #[trigger] windows.contains(w) && self.identifies(elem, Some(w))
    }

    /// Whether an index above the last one is still unused.
    pub open spec fn has_free_idx(self) -> bool {
        exists|i: u32|
            self.last_window_idx < i && !self.windows.dom().contains(
                WindowId { pid: self.pid, idx: i },
            )
    }

    /// Whether `i` is the first unused index above the last one.
    pub open spec fn is_next_idx(self, i: u32) -> bool {
        &&& self.last_window_idx < i
        &&& !self.windows.dom().contains(WindowId { pid: self.pid, idx: i })
        &&& forall|j: u32|
            self.last_window_idx < j < i ==> self.windows.dom().contains(
                #[trigger] idx_window(self.pid, j),
            )
    }

    /// The tab group that a window that was just found belongs to.
    pub open spec fn tab_group_key(
        self,
        elem: Element,
        is_standard: bool,
        is_root: bool,
        wsid: Option<WindowServerId>,
    ) -> Option<u64> {
        if !is_standard || !is_root {
            None
        } else if elem.tab_group is Some {
            elem.tab_group
        } else if wsid is Some {
            self.active_tab_group(wsid->0)
        } else {
            None
        }
    }

    /// The record without the tab group of `wid`.
    pub open spec fn without_tab_group(self, wid: WindowId) -> Registry {
        if self.tab_group_by_wid.dom().contains(wid) {
            let key = self.tab_group_by_wid[wid];
            Registry {
                tab_group_by_wid: self.tab_group_by_wid.remove(wid),
                tab_groups: self.tab_groups.remove(key),
                tab_group_by_wsid: without_value(self.tab_group_by_wsid, key),
                ..self
            }
        } else {
            self
        }
    }

    /// The record with `key` standing for `wid`.
    pub open spec fn with_tab_group(
        self,
        key: u64,
        wid: WindowId,
        wsid: Option<WindowServerId>,
    ) -> Registry {
        Registry {
            tab_groups: self.tab_groups.insert(key, wid),
            tab_group_by_wid: self.tab_group_by_wid.insert(wid, key),
            tab_group_by_wsid: match wsid {
                Some(id) => self.tab_group_by_wsid.insert(id, key),
                None => self.tab_group_by_wsid,
            },
            ..self
        }
    }

    /// The record without `wid`.
    pub open spec fn without_window(self, wid: WindowId) -> Registry {
        Registry { windows: self.windows.remove(wid), ..self }.without_tab_group(wid)
    }

    /// The record with the state of `wid` replaced.
    pub open spec fn with_window(self, wid: WindowId, state: AppWindowState) -> Registry {
        Registry { windows: self.windows.insert(wid, state), ..self }
    }

    /// Each tab group stands for exactly one recorded window, and every window server id that was
    /// seen in a tab group leads to one that exists.
    pub open spec fn consistent(self) -> bool {
        &&& forall|k: u64| #[trigger]
            self.tab_groups.dom().contains(k) ==> {
                let w = self.tab_groups[k];
                self.tab_group_by_wid.dom().contains(w) && self.tab_group_by_wid[w] == k
            }
        &&& forall|w: WindowId| #[trigger]
            self.tab_group_by_wid.dom().contains(w) ==> {
                let k = self.tab_group_by_wid[w];
                &&& self.tab_groups.dom().contains(k)
                &&& self.tab_groups[k] == w
                &&& self.windows.dom().contains(w)
            }
        &&& forall|id: WindowServerId| #[trigger]
            self.tab_group_by_wsid.dom().contains(id) ==> self.tab_groups.dom().contains(
                self.tab_group_by_wsid[id],
            )
    }

    /// The record with `wid` no longer hidden with its application.
    pub open spec fn unhidden(self, wid: WindowId) -> Registry {
        if self.windows.dom().contains(wid) {
            self.with_window(
                wid,
                AppWindowState { hidden_by_app: false, ..self.windows[wid] },
            )
        } else {
            self
        }
    }

    /// Every recorded window belongs to this process and has an index.
    pub open spec fn wf(self) -> bool {
        forall|w: WindowId| #[trigger]
            self.windows.dom().contains(w) ==> w.pid == self.pid && w.wf()
    }
}

/// The window of `pid` with index `i`.
pub open spec fn idx_window(pid: Pid, i: u32) -> WindowId {
    WindowId { pid, idx: i }
}

/// `m` without the keys that lead to `value`.
pub open spec fn without_value<K>(m: Map<K, u64>, value: u64) -> Map<K, u64> {
    Map::new(|k: K| m.dom().contains(k) && m[k] != value, |k: K| m[k])
}

/// The transaction that `store` holds for `wsid`.
pub open spec fn stored_txid(
    store: Map<WindowServerId, TxRecord>,
    wsid: Option<WindowServerId>,
) -> Option<TransactionId> {
    match wsid {
        Some(id) if store.dom().contains(id) => Some(store[id].txid),
        _ => None,
    }
}

/// The transaction of a window: what the store holds, else the last one seen unless that is the
/// initial one.
pub open spec fn txid_of(
    store: Map<WindowServerId, TxRecord>,
    window: AppWindowState,
) -> Option<TransactionId> {
    match stored_txid(store, window.window_server_id) {
        Some(txid) => Some(txid),
        None => if window.last_seen_txid == TransactionId(0) {
            None
        } else {
            Some(window.last_seen_txid)
        },
    }
}

/// What to do with a window that was just found.
#[derive(Clone, Copy, Debug, PartialEq, Eq, Structural)]
pub enum RegisterPlan {
    /// It is already recorded under its own window server id.
    Duplicate,
    /// It is a tab of this window, which now shows it.
    ExistingTabGroup(WindowId),
    /// It is new; watch it and record it under this id.
    Track { wid: WindowId, key: Option<u64> },
}

/// How the window of a tab group takes over another accessibility object.
#[derive(Clone, Copy, Debug, PartialEq, Eq, Structural)]
pub enum TabActivation {
    /// The window is not recorded.
    Unknown,
    /// It already shows that window server id.
    Unchanged,
    /// The same object got another window server id; that was recorded and is to be reported.
    Renumbered,
    /// Another object; it has to be watched first, and the old one no longer.
    Swap { old_elem: u64 },
}

/// Whether the main window may take over an object that nothing is known of.
#[derive(Clone, Copy, Debug, PartialEq, Eq, Structural)]
pub enum Rebind {
    /// It is the same window.
    Same(WindowId),
    /// It is a tab of that window, which takes it over.
    Activate(WindowId),
    /// It is another window.
    Refuse,
}

/// The object that the application says its main window is.
#[derive(Clone, Copy, Debug, PartialEq, Eq, Structural)]
pub struct MainElement {
    /// The window that it belongs to, as far as is known.
    pub named: Option<WindowId>,
    /// Whether the recorded main window may take it over.
    pub rebind: Rebind,
}

/// How a window whose object is gone is found again.
#[derive(Clone, Copy, Debug, PartialEq, Eq, Structural)]
pub enum Recovery {
    /// This object of the tab group takes its place.
    Replace(usize),
    /// It is the main window, which shows this object now.
    KeepMain,
    /// It is the main window, which takes the object over.
    RebindMain,
    /// It is not found.
    Lost,
}

/// What an application change amounts to.
#[derive(Clone, Copy, Debug, PartialEq, Eq, Structural)]
pub struct ActivationChange {
    /// Somebody waited for this activation and can go on.
    pub wakes_waiter: bool,
    /// Set when the application came to the front; the main window is then read, and a change to
    /// this window is quiet.
    pub main_window_check: Option<Option<WindowId>>,
    /// What to report, if the application moved to or from the front.
    pub report: Option<ActivationReport>,
}

#[derive(Clone, Copy, Debug, PartialEq, Eq, Structural)]
pub enum ActivationReport {
    Activated(Quiet),
    Deactivated,
}

/// A request to this application's thread.
#[derive(Clone, Debug, PartialEq, Eq)]
pub enum Request {
    Terminate,
    GetVisibleWindows,
    WindowMaybeDestroyed(WindowId),
    CloseWindow(WindowId),
    SetWindowFrame(WindowId, Frame, TransactionId, bool),
    SetBatchWindowFrame(Vec<(WindowId, Frame)>, TransactionId),
    SetWindowPos(WindowId, Point, TransactionId, bool),
    BeginWindowAnimation(WindowId),
    EndWindowAnimation(WindowId),
    /// Raise the windows within a single space, in the given order. The [`Quiet`] applies to the
    /// last window only; the others are always quiet.
    Raise(Vec<WindowId>, u64, Quiet),
}

/// What a request asks of the accessibility interface.
#[allow(inconsistent_fields)]
#[derive(Clone, Debug, PartialEq, Eq)]
pub enum RequestStep {
    /// Nothing is left to do.
    Done,
    /// Stop the thread and report that it ended.
    Stop,
    /// The window was dropped: report it destroyed, and read the main window again if it was it.
    Forget { wid: WindowId, was_main: bool },
    /// Read the list of windows.
    ListWindows,
    /// Close the window behind this object.
    Close(u64),
    /// Move the object, then read its frame.
    Move { wid: WindowId, elem: u64, pos: Point, txid: TransactionId, eui: bool },
    /// Resize, move and resize the object, then read its frame.
    Place { wid: WindowId, elem: u64, frame: Frame, txid: TransactionId, eui: bool },
    /// Place these windows one after the other.
    PlaceAll(Vec<(WindowId, Frame)>, TransactionId),
    /// Ignore the moves and resizes of this object.
    Quiesce(u64),
    /// Listen to the moves and resizes of this object again, then read its frame.
    Resume { wid: WindowId, elem: u64, txid: Option<TransactionId> },
    /// Queue a raise.
    Raise(Vec<WindowId>, u64, Quiet),
    /// The window is not recorded.
    NotFound,
}

/// What to do about an accessibility answer for a window.
#[derive(Clone, Copy, Debug, PartialEq, Eq, Structural)]
pub enum AnswerStep {
    /// Use the value.
    Value,
    /// Leave the window as it is.
    Skip,
    /// The object is gone: try to find the window again, else drop it.
    Recover,
    /// Hand the error on.
    Fail,
}

/// A notification of the accessibility interface.
#[derive(Clone, Copy, Debug, PartialEq, Eq, Structural)]
pub enum Notification {
    ApplicationActivated,
    ApplicationDeactivated,
    ApplicationHidden,
    ApplicationShown,
    MainWindowChanged,
    WindowCreated,
    MenuOpened,
    MenuClosed,
    UIElementDestroyed,
    WindowMoved,
    WindowResized,
    WindowMiniaturized,
    WindowDeminiaturized,
    TitleChanged,
}

impl Notification {
    /// The name under which the notification arrives.
    pub open spec fn name(self) -> Seq<char> {
        match self {
            Notification::ApplicationActivated => "AXApplicationActivated"@,
            Notification::ApplicationDeactivated => "AXApplicationDeactivated"@,
            Notification::ApplicationHidden => "AXApplicationHidden"@,
            Notification::ApplicationShown => "AXApplicationShown"@,
            Notification::MainWindowChanged => "AXMainWindowChanged"@,
            Notification::WindowCreated => "AXWindowCreated"@,
            Notification::MenuOpened => "AXMenuOpened"@,
            Notification::MenuClosed => "AXMenuClosed"@,
            Notification::UIElementDestroyed => "AXUIElementDestroyed"@,
            Notification::WindowMoved => "AXWindowMoved"@,
            Notification::WindowResized => "AXWindowResized"@,
            Notification::WindowMiniaturized => "AXWindowMiniaturized"@,
            Notification::WindowDeminiaturized => "AXWindowDeminiaturized"@,
            Notification::TitleChanged => "AXTitleChanged"@,
        }
    }

    pub fn as_str(self) -> (r: &'static str)
        ensures
            r@ == self.name(),
    {
        match self {
            Notification::ApplicationActivated => "AXApplicationActivated",
            Notification::ApplicationDeactivated => "AXApplicationDeactivated",
            Notification::ApplicationHidden => "AXApplicationHidden",
            Notification::ApplicationShown => "AXApplicationShown",
            Notification::MainWindowChanged => "AXMainWindowChanged",
            Notification::WindowCreated => "AXWindowCreated",
            Notification::MenuOpened => "AXMenuOpened",
            Notification::MenuClosed => "AXMenuClosed",
            Notification::UIElementDestroyed => "AXUIElementDestroyed",
            Notification::WindowMoved => "AXWindowMoved",
            Notification::WindowResized => "AXWindowResized",
            Notification::WindowMiniaturized => "AXWindowMiniaturized",
            Notification::WindowDeminiaturized => "AXWindowDeminiaturized",
            Notification::TitleChanged => "AXTitleChanged",
        }
    }
}

/// What the destruction of an accessibility object amounts to.
#[derive(Clone, Copy, Debug, PartialEq, Eq, Structural)]
pub enum DestroyStep {
    /// Nothing that shows was destroyed.
    Ignore,
    /// A tab was closed; the window goes on with another object of its group.
    Replace(WindowId),
    /// The window is gone; it was dropped and is to be reported.
    Gone(WindowId),
}

/// What follows once an object was found and looked up in the record.
#[derive(Clone, Copy, Debug, PartialEq, Eq, Structural)]
pub struct Registered {
    /// The window that it belongs to.
    pub window: Option<WindowId>,
    /// Whether that window is reported as created.
    pub reports: bool,
    /// Whether the tab group of that window follows the object.
    pub follows: bool,
}

/// What a moved or resized object amounts to.
#[derive(Clone, Copy, Debug, PartialEq, Eq, Structural)]
pub enum MoveStep {
    Ignore,
    /// Read the frame and report it under this transaction.
    Read(Option<TransactionId>),
}

/// What the list of windows says about the recorded ones.
pub struct Survey {
    pub wsids: Vec<WindowServerId>,
    pub windows: Vec<WindowId>,
    pub had_unmapped: bool,
}

impl Registry {
    /// Whether a list of windows misses `wid`: it is not in it, and no window of the list shows
    /// its tab group.
    pub open spec fn misses(self, wid: WindowId, survey: Survey) -> bool {
        !survey.windows@.contains(wid) && !(self.tab_group_by_wid.dom().contains(wid) && exists|
            i: int,
        |
            0 <= i < survey.wsids@.len() && self.active_tab_group(#[trigger] survey.wsids@[i])
                == Some(self.tab_group_by_wid[wid]))
    }
}

/// A window that was dropped because it is gone.
#[derive(Clone, Copy, Debug, PartialEq, Eq, Structural)]
pub struct StaleWindow {
    pub wid: WindowId,
    /// Whether it was the main window, which is then to be read again.
    pub was_main: bool,
}

/// The record once each of `wids` that is gone by then was dropped, and what was dropped.
pub open spec fn cleaned(
    before: Registry,
    wids: Seq<WindowId>,
    is_gone: spec_fn(Registry, WindowId) -> bool,
) -> (Registry, Seq<StaleWindow>)
    decreases wids.len(),
{
    if wids.len() == 0 {
        (before, Seq::empty())
    } else {
        let (reg, dropped) = cleaned(before, wids.drop_last(), is_gone);
        let wid = wids.last();
        if reg.windows.dom().contains(wid) && is_gone(reg, wid) {
            (
                reg.without_window(wid),
                dropped.push(StaleWindow { wid, was_main: reg.main_window == Some(wid) }),
            )
        } else {
            (reg, dropped)
        }
    }
}

/// How a raise waits for its application.
#[derive(Clone, Copy, Debug, PartialEq, Eq, Structural)]
pub struct RaiseWait {
    pub quiet_activation: Quiet,
    pub quiet_window_change: Option<WindowId>,
}

impl State {
    pub open spec fn view(self) -> Registry {
        Registry {
            pid: self.pid,
            windows: self.windows@,
            tab_groups: self.tab_groups@,
            tab_group_by_wid: self.tab_group_by_wid@,
            tab_group_by_wsid: self.tab_group_by_wsid@,
            last_window_idx: self.last_window_idx,
            main_window: self.main_window,
            last_activated: self.last_activated,
            is_hidden: self.is_hidden,
            is_frontmost: self.is_frontmost,
        }
    }

    pub fn new(pid: Pid) -> (r: State)
        ensures
            r@ == (Registry {
                pid,
                windows: Map::empty(),
                tab_groups: Map::empty(),
                tab_group_by_wid: Map::empty(),
                tab_group_by_wsid: Map::empty(),
                last_window_idx: 0,
                main_window: None,
                last_activated: None,
                is_hidden: false,
                is_frontmost: false,
            }),
            r@.wf(),
    {
        State {
            pid,
            windows: VecMap::new(),
            tab_groups: VecMap::new(),
            tab_group_by_wid: VecMap::new(),
            tab_group_by_wsid: VecMap::new(),
            last_window_idx: 0,
            main_window: None,
            last_activated: None,
            is_hidden: false,
            is_frontmost: false,
        }
    }

    /// `txid`, unless it is the initial one.
    pub fn some_txid(txid: TransactionId) -> (r: Option<TransactionId>)
        ensures
            r == (if txid == TransactionId(0) {
                None
            } else {
                Some(txid)
            }),
    {
        if txid.0 == 0 {
            None
        } else {
            Some(txid)
        }
    }

    pub fn txid_from_store(store: &WindowTxStore, wsid: Option<WindowServerId>) -> (r: Option<
        TransactionId,
    >)
        ensures
            r == stored_txid(store@, wsid),
    {
        match wsid {
            Some(id) => match store.get(id) {
                Some(record) => Some(record.txid),
                None => None,
            },
            None => None,
        }
    }

    pub fn txid_for_window_state(store: &WindowTxStore, window: &AppWindowState) -> (r: Option<
        TransactionId,
    >)
        ensures
            r == txid_of(store@, *window),
    {
        match Self::txid_from_store(store, window.window_server_id) {
            Some(txid) => Some(txid),
            None => Self::some_txid(window.last_seen_txid),
        }
    }

    /// The recorded state of `wid`.
    pub fn window(&self, wid: WindowId) -> (r: Option<AppWindowState>)
        ensures
            match r {
                Some(state) => self@.windows.dom().contains(wid) && state == self@.windows[wid],
                None => !self@.windows.dom().contains(wid),
            },
    {
        match self.windows.get(&wid) {
            Some(state) => Some(*state),
            None => None,
        }
    }

    pub fn active_tab_group_key_for_wsid(&self, wsid: WindowServerId) -> (r: Option<u64>)
        ensures
            r == self@.active_tab_group(wsid),
    {
        let key: u64 = match self.tab_group_by_wsid.get(&wsid) {
            Some(key) => *key,
            None => {
                return None;
            },
        };
        let wid = match self.tab_groups.get(&key) {
            Some(wid) => *wid,
            None => {
                return None;
            },
        };
        match self.window(wid) {
            Some(window) => {
                if window.window_server_id == Some(wsid) {
                    Some(key)
                } else {
                    None
                }
            },
            None => None,
        }
    }

    /// A recorded window with the window server id `wsid`.
    fn find_by_server_id(&self, wsid: WindowServerId) -> (r: Option<WindowId>)
        ensures
            match r {
                Some(w) => self@.holds_server_id(w, wsid),
                None => forall|w: WindowId| !self@.holds_server_id(w, wsid),
            },
    {
        let keys = self.windows.keys();
        let mut i: usize = 0;
        while i < keys.len()
            invariant
                i <= keys@.len(),
                forall|k: WindowId| keys@.contains(k) <==> self.windows@.dom().contains(k),
                forall|j: int| 0 <= j < i ==> !self@.holds_server_id(#[trigger] keys@[j], wsid),
            decreases keys@.len() - i,
        {
            let wid = keys[i];
            match self.window(wid) {
                Some(state) => {
                    if state.window_server_id == Some(wsid) {
                        return Some(wid);
                    }
                },
                None => {},
            }
            i = i + 1;
        }
        proof {
            assert forall|w: WindowId| !self@.holds_server_id(w, wsid) by {
                if self.windows@.dom().contains(w) {
                    assert(keys@.contains(w));
                    let j = keys@.index_of(w);
                    assert(keys@[j] == w);
                }
            }
        }
        None
    }

    /// A recorded window with the accessibility object `handle`.
    fn find_by_elem(&self, handle: u64) -> (r: Option<WindowId>)
        ensures
            match r {
                Some(w) => self@.holds_elem(w, handle),
                None => forall|w: WindowId| !self@.holds_elem(w, handle),
            },
    {
        let keys = self.windows.keys();
        let mut i: usize = 0;
        while i < keys.len()
            invariant
                i <= keys@.len(),
                forall|k: WindowId| keys@.contains(k) <==> self.windows@.dom().contains(k),
                forall|j: int| 0 <= j < i ==> !self@.holds_elem(#[trigger] keys@[j], handle),
            decreases keys@.len() - i,
        {
            let wid = keys[i];
            match self.window(wid) {
                Some(state) => {
                    if state.elem == handle {
                        return Some(wid);
                    }
                },
                None => {},
            }
            i = i + 1;
        }
        proof {
            assert forall|w: WindowId| !self@.holds_elem(w, handle) by {
                if self.windows@.dom().contains(w) {
                    assert(keys@.contains(w));
                    let j = keys@.index_of(w);
                    assert(keys@[j] == w);
                }
            }
        }
        None
    }

    /// The window that `elem` belongs to.
    pub fn id(&self, elem: &Element) -> (r: Option<WindowId>)
        requires
            elem.wf(),
        ensures
            self@.identifies(*elem, r),
    {
        match elem.tab_group {
            Some(key) => match self.tab_groups.get(&key) {
                Some(wid) => {
                    return Some(*wid);
                },
                None => {},
            },
            None => {},
        }
        match elem.wsid {
            Some(wsid) => {
                match self.active_tab_group_key_for_wsid(wsid) {
                    Some(key) => match self.tab_groups.get(&key) {
                        Some(wid) => {
                            return Some(*wid);
                        },
                        None => {},
                    },
                    None => {},
                }
                let named = WindowId { pid: self.pid, idx: wsid };
                match self.window(named) {
                    Some(state) => {
                        if state.window_server_id == Some(wsid) {
                            assert(self@.holds_server_id(named, wsid));
                            return Some(named);
                        }
                    },
                    None => {},
                }
                match self.find_by_server_id(wsid) {
                    Some(wid) => {
                        return Some(wid);
                    },
                    None => {},
                }
            },
            None => {},
        }
        self.find_by_elem(elem.handle)
    }

    /// Takes the next unused index.
    pub fn allocate_window_idx(&mut self) -> (r: u32)
        requires
            old(self)@.has_free_idx(),
        ensures
            old(self)@.is_next_idx(r),
            final(self)@ == (Registry { last_window_idx: r, ..old(self)@ }),
    {
        let ghost before = self@;
        let ghost free = choose|i: u32|
            before.last_window_idx < i && !before.windows.dom().contains(
                WindowId { pid: before.pid, idx: i },
            );
        loop
            invariant
                before == old(self)@,
                self@ == (Registry { last_window_idx: self.last_window_idx, ..before }),
                before.last_window_idx <= self.last_window_idx,
                self.last_window_idx < free,
                !before.windows.dom().contains(WindowId { pid: before.pid, idx: free }),
                forall|j: u32|
                    before.last_window_idx < j <= self.last_window_idx
                        ==> before.windows.dom().contains(#[trigger] idx_window(before.pid, j)),
            decreases free - self.last_window_idx,
        {
            self.last_window_idx = self.last_window_idx + 1;
            let idx: u32 = self.last_window_idx;
            let wid = WindowId { pid: self.pid, idx };
            if !self.windows.contains_key(&wid) {
                return idx;
            }
            assert(idx_window(before.pid, idx) == wid);
        }
    }

    /// The tab group of a window that was just found.
    pub fn tab_group_key(
        &self,
        elem: &Element,
        is_standard: bool,
        is_root: bool,
        wsid: Option<WindowServerId>,
    ) -> (r: Option<u64>)
        ensures
            r == self@.tab_group_key(*elem, is_standard, is_root, wsid),
    {
        if !is_standard || !is_root {
            return None;
        }
        match elem.tab_group {
            Some(key) => {
                return Some(key);
            },
            None => {},
        }
        match wsid {
            Some(id) => self.active_tab_group_key_for_wsid(id),
            None => None,
        }
    }

    pub fn register_tab_group(&mut self, key: u64, wid: WindowId, wsid: Option<WindowServerId>)
        ensures
            final(self)@ == old(self)@.with_tab_group(key, wid, wsid),
    {
        let _ = self.tab_groups.insert(key, wid);
        let _ = self.tab_group_by_wid.insert(wid, key);
        match wsid {
            Some(id) => {
                let _ = self.tab_group_by_wsid.insert(id, key);
            },
            None => {},
        }
    }

    pub fn remove_tab_group_for_window(&mut self, wid: WindowId)
        ensures
            final(self)@ == old(self)@.without_tab_group(wid),
    {
        let ghost before = self@;
        let key: u64 = match self.tab_group_by_wid.remove(&wid) {
            Some(key) => key,
            None => {
                assert(self@ =~= before);
                return;
            },
        };
        let _ = self.tab_groups.remove(&key);
        let ghost mid = self@;
        let ids = self.tab_group_by_wsid.keys();
        let mut i: usize = 0;
        while i < ids.len()
            invariant
                i <= ids@.len(),
                ids@.no_duplicates(),
                forall|k: WindowServerId|
                    ids@.contains(k) <==> before.tab_group_by_wsid.dom().contains(k),
                self@ == (Registry { tab_group_by_wsid: self.tab_group_by_wsid@, ..mid }),
                self.tab_group_by_wsid@ =~= Map::new(
                    |k: WindowServerId|
                        before.tab_group_by_wsid.dom().contains(k) && !(
                        before.tab_group_by_wsid[k] == key && ids@.take(i as int).contains(k)),
                    |k: WindowServerId| before.tab_group_by_wsid[k],
                ),
            decreases ids@.len() - i,
        {
            let id: WindowServerId = ids[i];
            proof {
                assert(ids@.contains(ids@[i as int]));
                assert(!ids@.take(i as int).contains(id)) by {
                    if ids@.take(i as int).contains(id) {
                        let j = ids@.take(i as int).index_of(id);
                        assert(ids@[j] == ids@[i as int]);
                    }
                }
                assert(ids@.take(i + 1) =~= ids@.take(i as int).push(id));
                assert forall|k: WindowServerId|
                    ids@.take(i + 1).contains(k) <==> (ids@.take(i as int).contains(k) || k
                        == id) by {
                    if ids@.take(i as int).contains(k) {
                        let j = ids@.take(i as int).index_of(k);
                        assert(ids@.take(i + 1)[j] == k);
                    }
                    assert(ids@.take(i + 1)[i as int] == id);
                    if ids@.take(i + 1).contains(k) && k != id {
                        let j = ids@.take(i + 1).index_of(k);
                        assert(ids@.take(i as int)[j] == k);
                    }
                }
            }
            let matches: bool = match self.tab_group_by_wsid.get(&id) {
                Some(k) => *k == key,
                None => false,
            };
            if matches {
                let _ = self.tab_group_by_wsid.remove(&id);
            }
            i = i + 1;
        }
        proof {
            assert(ids@.take(i as int) =~= ids@);
            assert(self.tab_group_by_wsid@ =~= without_value(before.tab_group_by_wsid, key));
        }
    }

    /// Chooses the identity of a window that was just found: `wsid` is its window server id and
    /// the flags say whether it is a standard root window.
    pub fn plan_registration(
        &mut self,
        elem: &Element,
        is_standard: bool,
        is_root: bool,
        wsid: Option<WindowServerId>,
    ) -> (r: RegisterPlan)
        requires
            wsid != Some(0u32),
            (Registry {
                last_window_idx: max_idx(old(self)@.last_window_idx, wsid),
                ..old(self)@
            }).has_free_idx(),
        ensures
            ({
                let before = old(self)@;
                let key = before.tab_group_key(*elem, is_standard, is_root, wsid);
                let raised = Registry {
                    last_window_idx: max_idx(before.last_window_idx, wsid),
                    ..before
                };
                let named = WindowId { pid: before.pid, idx: wsid->0 };
                if key is Some && before.tab_groups.dom().contains(key->0) {
                    r == RegisterPlan::ExistingTabGroup(before.tab_groups[key->0]) && final(self)@
                        == before
                } else if wsid is Some && before.holds_server_id(named, wsid->0) {
                    r == RegisterPlan::Duplicate && final(self)@ == raised
                } else if wsid is Some && !before.windows.dom().contains(named) {
                    r == (RegisterPlan::Track { wid: named, key }) && final(self)@ == raised
                } else {
                    &&& r is Track
                    &&& r->key == key
                    &&& r->wid.pid == before.pid
                    &&& raised.is_next_idx(r->wid.idx)
                    &&& final(self)@ == (Registry { last_window_idx: r->wid.idx, ..before })
                }
            }),
            r is Track ==> !old(self)@.windows.dom().contains(r->wid) && r->wid.wf() && r->wid.pid
                == old(self)@.pid,
    {
        let key = self.tab_group_key(elem, is_standard, is_root, wsid);
        match key {
            Some(k) => match self.tab_groups.get(&k) {
                Some(wid) => {
                    return RegisterPlan::ExistingTabGroup(*wid);
                },
                None => {},
            },
            None => {},
        }
        match wsid {
            Some(sid) => {
                if self.last_window_idx < sid {
                    self.last_window_idx = sid;
                }
                let named = WindowId { pid: self.pid, idx: sid };
                match self.window(named) {
                    Some(existing) => {
                        if existing.window_server_id == Some(sid) {
                            return RegisterPlan::Duplicate;
                        }
                    },
                    None => {
                        return RegisterPlan::Track { wid: named, key };
                    },
                }
            },
            None => {},
        }
        let idx: u32 = self.allocate_window_idx();
        RegisterPlan::Track { wid: WindowId { pid: self.pid, idx }, key }
    }

    /// Records a window that is now being watched. The result says whether it is to be reported
    /// minimized, because its application is hidden.
    pub fn track_window(
        &mut self,
        elem: &Element,
        wid: WindowId,
        key: Option<u64>,
        wsid: Option<WindowServerId>,
        store: &WindowTxStore,
    ) -> (reports_minimized: bool)
        requires
            !old(self)@.windows.dom().contains(wid),
        ensures
            reports_minimized == old(self)@.is_hidden,
            ({
                let before = old(self)@;
                let recorded = before.with_window(
                    wid,
                    AppWindowState {
                        elem: elem.handle,
                        last_seen_txid: match stored_txid(store@, wsid) {
                            Some(txid) => txid,
                            None => TransactionId(0),
                        },
                        hidden_by_app: before.is_hidden,
                        window_server_id: wsid,
                        is_animating: false,
                    },
                );
                final(self)@ == (match key {
                    Some(k) => recorded.with_tab_group(k, wid, wsid),
                    None => recorded,
                })
            }),
    {
        let last_seen_txid = match Self::txid_from_store(store, wsid) {
            Some(txid) => txid,
            None => TransactionId(0),
        };
        let hidden_by_app: bool = self.is_hidden;
        let state = AppWindowState {
            elem: elem.handle,
            last_seen_txid,
            hidden_by_app,
            window_server_id: wsid,
            is_animating: false,
        };
        let _ = self.windows.insert(wid, state);
        match key {
            Some(k) => {
                self.register_tab_group(k, wid, wsid);
            },
            None => {},
        }
        hidden_by_app
    }

    /// Lets the window `wid` of a tab group show `elem`.
    pub fn begin_tab_activation(&mut self, wid: WindowId, elem: &Element, store: &WindowTxStore)
        -> (r: TabActivation)
        ensures
            ({
                let before = old(self)@;
                let linked = if before.tab_group_by_wid.dom().contains(wid) && elem.wsid is Some {
                    Registry {
                        tab_group_by_wsid: before.tab_group_by_wsid.insert(
                            elem.wsid->0,
                            before.tab_group_by_wid[wid],
                        ),
                        ..before
                    }
                } else {
                    before
                };
                if !before.windows.dom().contains(wid) {
                    r == TabActivation::Unknown && final(self)@ == before
                } else if before.windows[wid].window_server_id == elem.wsid {
                    r == TabActivation::Unchanged && final(self)@ == linked
                } else if before.windows[wid].elem == elem.handle {
                    r == TabActivation::Renumbered && final(self)@ == linked.with_window(
                        wid,
                        rebound(before.windows[wid], *elem, store@),
                    )
                } else {
                    r == (TabActivation::Swap { old_elem: before.windows[wid].elem })
                        && final(self)@ == linked
                }
            }),
    {
        let window = match self.window(wid) {
            Some(window) => window,
            None => {
                return TabActivation::Unknown;
            },
        };
        match (self.tab_group_by_wid.get(&wid), elem.wsid) {
            (Some(key), Some(wsid)) => {
                let key: u64 = *key;
                let _ = self.tab_group_by_wsid.insert(wsid, key);
            },
            _ => {},
        }
        if window.window_server_id == elem.wsid {
            return TabActivation::Unchanged;
        }
        if window.elem == elem.handle {
            self.finish_tab_activation(wid, elem, store);
            return TabActivation::Renumbered;
        }
        TabActivation::Swap { old_elem: window.elem }
    }

    /// Records that `wid` shows `elem`, which is being watched.
    pub fn finish_tab_activation(&mut self, wid: WindowId, elem: &Element, store: &WindowTxStore)
        ensures
            final(self)@ == (if old(self)@.windows.dom().contains(wid) {
                old(self)@.with_window(wid, rebound(old(self)@.windows[wid], *elem, store@))
            } else {
                old(self)@
            }),
    {
        match self.window(wid) {
            Some(window) => {
                let txid = match Self::txid_from_store(store, elem.wsid) {
                    Some(txid) => txid,
                    None => TransactionId(0),
                };
                let next = AppWindowState {
                    elem: elem.handle,
                    window_server_id: elem.wsid,
                    last_seen_txid: txid,
                    hidden_by_app: window.hidden_by_app,
                    is_animating: window.is_animating,
                };
                let _ = self.windows.insert(wid, next);
            },
            None => {},
        }
    }

    /// Whether the window is one of a tab group, and so follows its tabs.
    pub fn follows_tabs(&self, wid: WindowId) -> (r: bool)
        ensures
            r == self@.tab_group_by_wid.dom().contains(wid),
    {
        self.tab_group_by_wid.contains_key(&wid)
    }

    /// Whether the main window may take over an object of which nothing is known, and which has
    /// the window server id `new_wsid`. Taking over unrelated windows would make them jump
    /// between displays, so this is only for objects with tabs, and for known tab groups whose
    /// frame agrees.
    pub fn maybe_rebind_unknown_main_window(
        &self,
        new_wsid: Option<WindowServerId>,
        has_tabs: bool,
        frame_matches: bool,
    ) -> (r: Rebind)
        ensures
            r == (match (self@.main_window, new_wsid) {
                (Some(wid), Some(new_wsid)) => if !self@.windows.dom().contains(wid) {
                    Rebind::Refuse
                } else if self@.windows[wid].window_server_id == Some(new_wsid) {
                    Rebind::Same(wid)
                } else if has_tabs || (self@.tab_group_by_wid.dom().contains(wid)
                    && frame_matches) {
                    Rebind::Activate(wid)
                } else {
                    Rebind::Refuse
                },
                _ => Rebind::Refuse,
            }),
    {
        let wid = match self.main_window {
            Some(wid) => wid,
            None => {
                return Rebind::Refuse;
            },
        };
        let window = match self.window(wid) {
            Some(window) => window,
            None => {
                return Rebind::Refuse;
            },
        };
        if new_wsid.is_none() {
            return Rebind::Refuse;
        }
        if window.window_server_id == new_wsid {
            return Rebind::Same(wid);
        }
        if !has_tabs && !(self.tab_group_by_wid.contains_key(&wid) && frame_matches) {
            return Rebind::Refuse;
        }
        Rebind::Activate(wid)
    }

    /// Records the main window; the result is what to report, if it changed. The change is quiet
    /// when it is to `quiet_if`.
    pub fn on_main_window_changed(&mut self, wid: WindowId, quiet_if: Option<WindowId>) -> (r:
        Option<Event>)
        ensures
            final(self)@ == (Registry { main_window: Some(wid), ..old(self)@ }),
            r == (if old(self)@.main_window == Some(wid) {
                None
            } else {
                Some(
                    Event::ApplicationMainWindowChanged(
                        old(self)@.pid,
                        Some(wid),
                        if quiet_if == Some(wid) {
                            Quiet::Yes
                        } else {
                            Quiet::No
                        },
                    ),
                )
            }),
    {
        if self.main_window == Some(wid) {
            return None;
        }
        self.main_window = Some(wid);
        let quiet = if quiet_if == Some(wid) {
            Quiet::Yes
        } else {
            Quiet::No
        };
        Some(Event::ApplicationMainWindowChanged(self.pid, Some(wid), quiet))
    }

    /// Records that the main window is one that is not known and may not be recorded; the result
    /// is what to report.
    pub fn on_main_window_lost(&mut self) -> (r: Option<Event>)
        ensures
            final(self)@ == (Registry { main_window: None, ..old(self)@ }),
            r == (if old(self)@.main_window is Some {
                Some(Event::ApplicationMainWindowChanged(old(self)@.pid, None, Quiet::No))
            } else {
                None
            }),
    {
        if self.main_window.is_some() {
            self.main_window = None;
            Some(Event::ApplicationMainWindowChanged(self.pid, None, Quiet::No))
        } else {
            None
        }
    }

    /// The application came to the front, or left it, at `now`.
    pub fn on_activation_changed(&mut self, is_frontmost: bool, now: u64) -> (r: ActivationChange)
        ensures
            ({
                let before = old(self)@;
                let ours = match before.last_activated {
                    Some(pending) => now - pending.at_ms < ACTIVATION_WINDOW_MS,
                    None => false,
                };
                &&& final(self)@ == (Registry {
                    is_frontmost,
                    last_activated: if is_frontmost {
                        None
                    } else {
                        before.last_activated
                    },
                    ..before
                })
                &&& r.wakes_waiter == (is_frontmost && before.last_activated is Some)
                &&& r.main_window_check == (if is_frontmost {
                    Some(
                        if ours {
                            before.last_activated->0.quiet_window_change
                        } else {
                            None
                        },
                    )
                } else {
                    None
                })
                &&& r.report == (if before.is_frontmost == is_frontmost {
                    None
                } else if is_frontmost {
                    Some(
                        ActivationReport::Activated(
                            if ours {
                                before.last_activated->0.quiet_activation
                            } else {
                                Quiet::No
                            },
                        ),
                    )
                } else {
                    Some(ActivationReport::Deactivated)
                })
            }),
    {
        let old_frontmost: bool = self.is_frontmost;
        self.is_frontmost = is_frontmost;
        if !is_frontmost {
            return ActivationChange {
                wakes_waiter: false,
                main_window_check: None,
                report: if old_frontmost {
                    Some(ActivationReport::Deactivated)
                } else {
                    None
                },
            };
        }
        let (wakes_waiter, quiet_activation, quiet_window_change): (bool, Quiet, Option<WindowId>) =
            match self.last_activated {
            Some(pending) => {
                self.last_activated = None;
                let elapsed: u64 = if now < pending.at_ms {
                    0
                } else {
                    now - pending.at_ms
                };
                if elapsed < ACTIVATION_WINDOW_MS {
                    (true, pending.quiet_activation, pending.quiet_window_change)
                } else {
                    (true, Quiet::No, None)
                }
            },
            None => (false, Quiet::No, None),
        };
        ActivationChange {
            wakes_waiter,
            main_window_check: Some(quiet_window_change),
            report: if old_frontmost {
                None
            } else {
                Some(ActivationReport::Activated(quiet_activation))
            },
        }
    }

    /// The application was hidden; the result lists the windows to report minimized.
    pub fn on_application_hidden(&mut self) -> (r: Vec<WindowId>)
        ensures
            ({
                let before = old(self)@;
                &&& r@.no_duplicates()
                &&& forall|w: WindowId|
                    r@.contains(w) <==> !before.is_hidden && before.windows.dom().contains(w)
                        && !before.windows[w].hidden_by_app
                &&& final(self)@ == (if before.is_hidden {
                    before
                } else {
                    Registry {
                        is_hidden: true,
                        windows: before.windows.map_values(
                            |s: AppWindowState| AppWindowState { hidden_by_app: true, ..s },
                        ),
                        ..before
                    }
                })
            }),
    {
        let mut r: Vec<WindowId> = Vec::new();
        if self.is_hidden {
            return r;
        }
        let ghost before = self@;
        self.is_hidden = true;
        let keys = self.windows.keys();
        let mut i: usize = 0;
        while i < keys.len()
            invariant
                i <= keys@.len(),
                keys@.no_duplicates(),
                forall|k: WindowId| keys@.contains(k) <==> before.windows.dom().contains(k),
                self@ == (Registry { is_hidden: true, windows: self.windows@, ..before }),
                self.windows@.dom() =~= before.windows.dom(),
                forall|k: WindowId| #[trigger]
                    before.windows.dom().contains(k) ==> self.windows@[k] == (if keys@.take(
                        i as int,
                    ).contains(k) {
                        AppWindowState { hidden_by_app: true, ..before.windows[k] }
                    } else {
                        before.windows[k]
                    }),
                r@.no_duplicates(),
                forall|w: WindowId| #[trigger]
                    r@.contains(w) <==> keys@.take(i as int).contains(w)
                        && !before.windows[w].hidden_by_app,
            decreases keys@.len() - i,
        {
            let wid = keys[i];
            proof {
                crate::collections::lemma_take_next(keys@, i as int);
                assert(keys@.contains(wid));
            }
            match self.window(wid) {
                Some(state) => {
                    if !state.hidden_by_app {
                        let next = AppWindowState {
                            hidden_by_app: true,
                            elem: state.elem,
                            last_seen_txid: state.last_seen_txid,
                            window_server_id: state.window_server_id,
                            is_animating: state.is_animating,
                        };
                        let _ = self.windows.insert(wid, next);
                        proof {
                            crate::collections::lemma_push_new(r@, wid);
                        }
                        r.push(wid);
                    }
                },
                None => {},
            }
            i = i + 1;
        }
        proof {
            assert(keys@.take(i as int) =~= keys@);
            assert(self.windows@ =~= before.windows.map_values(
                |s: AppWindowState| AppWindowState { hidden_by_app: true, ..s },
            ));
        }
        r
    }

    /// The application was shown again; `minimized` holds the windows that are minimized on their
    /// own account. The result lists the windows to report restored.
    pub fn on_application_shown(&mut self, minimized: &VecSet<WindowId>) -> (r: Vec<WindowId>)
        ensures
            ({
                let before = old(self)@;
                &&& r@.no_duplicates()
                &&& forall|w: WindowId|
                    r@.contains(w) <==> before.is_hidden && before.windows.dom().contains(w)
                        && before.windows[w].hidden_by_app && !minimized@.contains(w)
                &&& final(self)@ == (if !before.is_hidden {
                    before
                } else {
                    Registry {
                        is_hidden: false,
                        windows: before.windows.map_values(
                            |s: AppWindowState| AppWindowState { hidden_by_app: false, ..s },
                        ),
                        ..before
                    }
                })
            }),
    {
        let mut r: Vec<WindowId> = Vec::new();
        if !self.is_hidden {
            return r;
        }
        let ghost before = self@;
        self.is_hidden = false;
        let keys = self.windows.keys();
        let mut i: usize = 0;
        while i < keys.len()
            invariant
                i <= keys@.len(),
                keys@.no_duplicates(),
                forall|k: WindowId| keys@.contains(k) <==> before.windows.dom().contains(k),
                self@ == (Registry { is_hidden: false, windows: self.windows@, ..before }),
                self.windows@.dom() =~= before.windows.dom(),
                forall|k: WindowId| #[trigger]
                    before.windows.dom().contains(k) ==> self.windows@[k] == (if keys@.take(
                        i as int,
                    ).contains(k) {
                        AppWindowState { hidden_by_app: false, ..before.windows[k] }
                    } else {
                        before.windows[k]
                    }),
                r@.no_duplicates(),
                forall|w: WindowId| #[trigger]
                    r@.contains(w) <==> keys@.take(i as int).contains(w)
                        && before.windows[w].hidden_by_app && !minimized@.contains(w),
            decreases keys@.len() - i,
        {
            let wid = keys[i];
            proof {
                crate::collections::lemma_take_next(keys@, i as int);
                assert(keys@.contains(wid));
            }
            match self.window(wid) {
                Some(state) => {
                    if state.hidden_by_app {
                        let next = AppWindowState {
                            hidden_by_app: false,
                            elem: state.elem,
                            last_seen_txid: state.last_seen_txid,
                            window_server_id: state.window_server_id,
                            is_animating: state.is_animating,
                        };
                        let _ = self.windows.insert(wid, next);
                        if !minimized.contains(&wid) {
                            proof {
                                crate::collections::lemma_push_new(r@, wid);
                            }
                            r.push(wid);
                        }
                    }
                },
                None => {},
            }
            i = i + 1;
        }
        proof {
            assert(keys@.take(i as int) =~= keys@);
            assert(self.windows@ =~= before.windows.map_values(
                |s: AppWindowState| AppWindowState { hidden_by_app: false, ..s },
            ));
        }
        r
    }

    /// Drops `wid`. The result says whether it was recorded, in which case it is to be reported
    /// destroyed, and whether it was the main window, in which case that is to be read again.
    pub fn remove_tracked_window(&mut self, wid: WindowId) -> (r: (bool, bool))
        ensures
            r.0 == old(self)@.windows.dom().contains(wid),
            r.1 == (r.0 && old(self)@.main_window == Some(wid)),
            final(self)@ == (if r.0 {
                old(self)@.without_window(wid)
            } else {
                old(self)@
            }),
    {
        let was_main: bool = self.main_window == Some(wid);
        let ghost before = self@;
        if self.windows.remove(&wid).is_some() {
            self.remove_tab_group_for_window(wid);
            (true, was_main)
        } else {
            assert(self@ =~= before);
            (false, false)
        }
    }

    /// Holds the list of windows against the record.
    pub fn survey(&self, elems: &Vec<Element>) -> (r: Survey)
        requires
            forall|i: int| 0 <= i < elems@.len() ==> (#[trigger] elems@[i]).wf(),
        ensures
            forall|id: WindowServerId|
                r.wsids@.contains(id) <==> exists|i: int|
                    0 <= i < elems@.len() && (#[trigger] elems@[i]).wsid == Some(id),
            r.had_unmapped <==> exists|i: int|
                0 <= i < elems@.len() && self@.identifies(#[trigger] elems@[i], None),
            forall|w: WindowId|
                r.windows@.contains(w) ==> exists|i: int|
                    0 <= i < elems@.len() && self@.identifies(#[trigger] elems@[i], Some(w)),
            forall|i: int|
                0 <= i < elems@.len() ==> self@.identifies(#[trigger] elems@[i], None)
                    || self@.covered(elems@[i], r.windows@),
    {
        let mut wsids: Vec<WindowServerId> = Vec::new();
        let mut windows: Vec<WindowId> = Vec::new();
        let mut had_unmapped: bool = false;
        let mut i: usize = 0;
        while i < elems.len()
            invariant
                i <= elems@.len(),
                forall|j: int| 0 <= j < elems@.len() ==> (#[trigger] elems@[j]).wf(),
                forall|id: WindowServerId|
                    wsids@.contains(id) <==> exists|j: int|
                        0 <= j < i && (#[trigger] elems@[j]).wsid == Some(id),
                had_unmapped <==> exists|j: int|
                    0 <= j < i && self@.identifies(#[trigger] elems@[j], None),
                forall|w: WindowId|
                    windows@.contains(w) ==> exists|j: int|
                        0 <= j < i && self@.identifies(#[trigger] elems@[j], Some(w)),
                forall|j: int|
                    0 <= j < i ==> self@.identifies(#[trigger] elems@[j], None) || self@.covered(
                        elems@[j],
                        windows@,
                    ),
            decreases elems@.len() - i,
        {
            let elem = elems[i];
            let ghost old_wsids = wsids@;
            let ghost old_windows = windows@;
            match elem.wsid {
                Some(id) => {
                    wsids.push(id);
                    proof {
                        crate::collections::lemma_push_contains(old_wsids, id);
                    }
                },
                None => {},
            }
            let found = self.id(&elem);
            match found {
                Some(wid) => {
                    windows.push(wid);
                    proof {
                        crate::collections::lemma_push_contains(old_windows, wid);
                    }
                },
                None => {
                    had_unmapped = true;
                },
            }
            proof {
                assert(self@.identifies(elems@[i as int], found));
                lemma_identifies_or_not(self@, elems@[i as int]);
                assert forall|id: WindowServerId|
                    wsids@.contains(id) <==> exists|j: int|
                        0 <= j < i + 1 && (#[trigger] elems@[j]).wsid == Some(id) by {
                    if wsids@.contains(id) {
                        if old_wsids.contains(id) {
                            let j = choose|j: int|
                                0 <= j < i && (#[trigger] elems@[j]).wsid == Some(id);
                            assert(0 <= j < i + 1 && elems@[j].wsid == Some(id));
                        } else {
                            assert(elems@[i as int].wsid == Some(id));
                        }
                    }
                }
                assert forall|w: WindowId| windows@.contains(w) implies exists|j: int|
                    0 <= j < i + 1 && self@.identifies(#[trigger] elems@[j], Some(w)) by {
                    if old_windows.contains(w) {
                        let j = choose|j: int|
                            0 <= j < i && self@.identifies(#[trigger] elems@[j], Some(w));
                        assert(0 <= j < i + 1 && self@.identifies(elems@[j], Some(w)));
                    } else {
                        assert(self@.identifies(elems@[i as int], Some(w)));
                    }
                }
                assert forall|j: int| 0 <= j < i + 1 implies self@.identifies(
                    #[trigger] elems@[j],
                    None,
                ) || self@.covered(elems@[j], windows@) by {
                    if j < i {
                        if !self@.identifies(elems@[j], None) {
                            let w = choose|w: WindowId| #[trigger]
                                old_windows.contains(w) && self@.identifies(elems@[j], Some(w));
                            assert(windows@.contains(w));
                        }
                    } else if found is Some {
                        assert(windows@.contains(found->0));
                    }
                }
            }
            i = i + 1;
        }
        Survey { wsids, windows, had_unmapped }
    }

    /// Whether a recorded window is missing from a list of windows: it is not in it, and no
    /// window of the list shows its tab group.
    pub fn is_stale(&self, wid: WindowId, survey: &Survey) -> (r: bool)
        ensures
            r == self@.misses(wid, *survey),
    {
        if crate::collections::contains(&survey.windows, &wid) {
            return false;
        }
        let key: u64 = match self.tab_group_by_wid.get(&wid) {
            Some(key) => *key,
            None => {
                return true;
            },
        };
        let mut i: usize = 0;
        while i < survey.wsids.len()
            invariant
                i <= survey.wsids@.len(),
                self@.tab_group_by_wid.dom().contains(wid),
                key == self@.tab_group_by_wid[wid],
                forall|j: int|
                    0 <= j < i ==> self@.active_tab_group(#[trigger] survey.wsids@[j]) != Some(key),
            decreases survey.wsids@.len() - i,
        {
            if self.active_tab_group_key_for_wsid(survey.wsids[i]) == Some(key) {
                assert(self@.active_tab_group(survey.wsids@[i as int]) == Some(key));
                return false;
            }
            i = i + 1;
        }
        true
    }

    /// Drops the windows that are gone: those that the list of windows misses, or, where there is
    /// none or it holds objects that stand for no window, those of `invalid`, whose objects are no
    /// longer valid. The result lists them, to be reported destroyed.
    pub fn remove_stale_windows(
        &mut self,
        survey: Option<&Survey>,
        invalid: &VecSet<WindowId>,
    ) -> (r: Vec<StaleWindow>)
        ensures
            (final(self)@, r@) == cleaned(
                old(self)@,
                old(self).windows.order(),
                match survey {
                    Some(survey) if !survey.had_unmapped => |reg: Registry, w: WindowId|
                        reg.misses(w, *survey),
                    _ => |reg: Registry, w: WindowId| invalid@.contains(w),
                },
            ),
    {
        let ghost is_gone = match survey {
            Some(survey) if !survey.had_unmapped => |reg: Registry, w: WindowId|
                reg.misses(w, *survey),
            _ => |reg: Registry, w: WindowId| invalid@.contains(w),
        };
        let ghost before = self@;
        let keys = self.windows.keys();
        let mut r: Vec<StaleWindow> = Vec::new();
        let mut i: usize = 0;
        while i < keys.len()
            invariant
                i <= keys@.len(),
                is_gone == (match survey {
                    Some(survey) if !survey.had_unmapped => |reg: Registry, w: WindowId|
                        reg.misses(w, *survey),
                    _ => |reg: Registry, w: WindowId| invalid@.contains(w),
                }),
                (self@, r@) == cleaned(before, keys@.take(i as int), is_gone),
            decreases keys@.len() - i,
        {
            assert(keys@.take(i + 1).drop_last() =~= keys@.take(i as int));
            let wid = keys[i];
            let gone: bool = match survey {
                Some(survey) => if survey.had_unmapped {
                    invalid.contains(&wid)
                } else {
                    self.is_stale(wid, survey)
                },
                None => invalid.contains(&wid),
            };
            if gone {
                let (known, was_main) = self.remove_tracked_window(wid);
                if known {
                    r.push(StaleWindow { wid, was_main });
                }
            }
            i = i + 1;
        }
        assert(keys@.take(i as int) =~= keys@);
        r
    }

    /// Takes up a request. `server_window_missing` says that the window server no longer knows
    /// the window that the request speaks of.
    pub fn handle_request(
        &mut self,
        request: Request,
        server_window_missing: bool,
        store: &WindowTxStore,
    ) -> (r: RequestStep)
        ensures
            ({
                let before = old(self)@;
                match request {
                    Request::Terminate => r == RequestStep::Stop && final(self)@ == before,
                    Request::GetVisibleWindows => r == RequestStep::ListWindows && final(self)@
                        == before,
                    Request::WindowMaybeDestroyed(wid) => if wid.pid != before.pid
                        || !before.windows.dom().contains(wid) {
                        r == RequestStep::Done && final(self)@ == before
                    } else if server_window_missing && before.windows[wid].window_server_id is Some
                        && !before.tab_group_by_wid.dom().contains(wid) {
                        &&& final(self)@ == before.without_window(wid)
                        &&& r == (RequestStep::Forget {
                            wid,
                            was_main: before.main_window == Some(wid),
                        })
                    } else {
                        r == RequestStep::ListWindows && final(self)@ == before
                    },
                    Request::CloseWindow(wid) => final(self)@ == before && r == (
                    if before.windows.dom().contains(wid) {
                        RequestStep::Close(before.windows[wid].elem)
                    } else {
                        RequestStep::Done
                    }),
                    Request::SetWindowPos(wid, pos, txid, eui) => if before.windows.dom().contains(
                        wid,
                    ) {
                        &&& final(self)@ == before.with_window(
                            wid,
                            AppWindowState { last_seen_txid: txid, ..before.windows[wid] },
                        )
                        &&& r == (RequestStep::Move {
                            wid,
                            elem: before.windows[wid].elem,
                            pos,
                            txid,
                            eui,
                        })
                    } else {
                        r == RequestStep::Done && final(self)@ == before
                    },
                    Request::SetWindowFrame(wid, frame, txid, eui) => if before.windows.dom().contains(
                        wid,
                    ) {
                        &&& final(self)@ == before.with_window(
                            wid,
                            AppWindowState { last_seen_txid: txid, ..before.windows[wid] },
                        )
                        &&& r == (RequestStep::Place {
                            wid,
                            elem: before.windows[wid].elem,
                            frame,
                            txid,
                            eui,
                        })
                    } else {
                        r == RequestStep::Done && final(self)@ == before
                    },
                    Request::SetBatchWindowFrame(frames, txid) => r == RequestStep::PlaceAll(
                        frames,
                        txid,
                    ) && final(self)@ == before,
                    Request::BeginWindowAnimation(wid) => if before.windows.dom().contains(wid) {
                        &&& final(self)@ == before.with_window(
                            wid,
                            AppWindowState { is_animating: true, ..before.windows[wid] },
                        )
                        &&& r == RequestStep::Quiesce(before.windows[wid].elem)
                    } else {
                        r == RequestStep::NotFound && final(self)@ == before
                    },
                    Request::EndWindowAnimation(wid) => if before.windows.dom().contains(wid) {
                        &&& final(self)@ == before.with_window(
                            wid,
                            AppWindowState { is_animating: false, ..before.windows[wid] },
                        )
                        &&& r == (RequestStep::Resume {
                            wid,
                            elem: before.windows[wid].elem,
                            txid: txid_of(store@, before.windows[wid]),
                        })
                    } else {
                        r == RequestStep::Done && final(self)@ == before
                    },
                    Request::Raise(wids, sequence_id, quiet) => r == RequestStep::Raise(
                        wids,
                        sequence_id,
                        quiet,
                    ) && final(self)@ == before,
                }
            }),
    {
        match request {
            Request::Terminate => RequestStep::Stop,
            Request::GetVisibleWindows => RequestStep::ListWindows,
            Request::WindowMaybeDestroyed(wid) => {
                if wid.pid != self.pid {
                    return RequestStep::Done;
                }
                let window = match self.window(wid) {
                    Some(window) => window,
                    None => {
                        return RequestStep::Done;
                    },
                };
                // Windows of native tab groups are not dropped eagerly: a tab switch can
                // transiently replace window server ids.
                if server_window_missing && window.window_server_id.is_some()
                    && !self.tab_group_by_wid.contains_key(&wid) {
                    let (_, was_main) = self.remove_tracked_window(wid);
                    RequestStep::Forget { wid, was_main }
                } else {
                    RequestStep::ListWindows
                }
            },
            Request::CloseWindow(wid) => match self.window(wid) {
                Some(window) => RequestStep::Close(window.elem),
                None => RequestStep::Done,
            },
            Request::SetWindowPos(wid, pos, txid, eui) => match self.note_txid(wid, txid) {
                Some(elem) => RequestStep::Move { wid, elem, pos, txid, eui },
                None => RequestStep::Done,
            },
            Request::SetWindowFrame(wid, frame, txid, eui) => match self.note_txid(wid, txid) {
                Some(elem) => RequestStep::Place { wid, elem, frame, txid, eui },
                None => RequestStep::Done,
            },
            Request::SetBatchWindowFrame(frames, txid) => RequestStep::PlaceAll(frames, txid),
            Request::BeginWindowAnimation(wid) => match self.set_animating(wid, true) {
                Some(window) => RequestStep::Quiesce(window.elem),
                None => RequestStep::NotFound,
            },
            Request::EndWindowAnimation(wid) => match self.set_animating(wid, false) {
                Some(window) => RequestStep::Resume {
                    wid,
                    elem: window.elem,
                    txid: Self::txid_for_window_state(store, &window),
                },
                None => RequestStep::Done,
            },
            Request::Raise(wids, sequence_id, quiet) => RequestStep::Raise(
                wids,
                sequence_id,
                quiet,
            ),
        }
    }

    /// Records that `txid` moved `wid`; the result is its accessibility object.
    pub fn note_txid(&mut self, wid: WindowId, txid: TransactionId) -> (r: Option<u64>)
        ensures
            match r {
                Some(elem) => old(self)@.windows.dom().contains(wid) && elem
                    == old(self)@.windows[wid].elem && final(self)@ == old(self)@.with_window(
                    wid,
                    AppWindowState { last_seen_txid: txid, ..old(self)@.windows[wid] },
                ),
                None => !old(self)@.windows.dom().contains(wid) && final(self)@ == old(self)@,
            },
    {
        match self.window(wid) {
            Some(window) => {
                let next = AppWindowState {
                    last_seen_txid: txid,
                    elem: window.elem,
                    hidden_by_app: window.hidden_by_app,
                    window_server_id: window.window_server_id,
                    is_animating: window.is_animating,
                };
                let _ = self.windows.insert(wid, next);
                Some(window.elem)
            },
            None => None,
        }
    }

    fn set_animating(&mut self, wid: WindowId, is_animating: bool) -> (r: Option<AppWindowState>)
        ensures
            match r {
                Some(window) => old(self)@.windows.dom().contains(wid) && window
                    == old(self)@.windows[wid] && final(self)@ == old(self)@.with_window(
                    wid,
                    AppWindowState { is_animating, ..old(self)@.windows[wid] },
                ),
                None => !old(self)@.windows.dom().contains(wid) && final(self)@ == old(self)@,
            },
    {
        match self.window(wid) {
            Some(window) => {
                let next = AppWindowState {
                    is_animating,
                    elem: window.elem,
                    last_seen_txid: window.last_seen_txid,
                    hidden_by_app: window.hidden_by_app,
                    window_server_id: window.window_server_id,
                };
                let _ = self.windows.insert(wid, next);
                Some(window)
            },
            None => None,
        }
    }

    /// An accessibility object was destroyed. `wid` is the window it belonged to, and
    /// `has_replacement` says that the window's tab group still has another object.
    pub fn on_element_destroyed(&mut self, wid: WindowId, elem: &Element, has_replacement: bool)
        -> (r: DestroyStep)
        ensures
            ({
                let before = old(self)@;
                let tabbed = before.tab_group_by_wid.dom().contains(wid);
                let unlinked = if tabbed && elem.wsid is Some
                    && before.tab_group_by_wsid.dom().contains(elem.wsid->0)
                    && before.tab_group_by_wsid[elem.wsid->0] == before.tab_group_by_wid[wid] {
                    Registry {
                        tab_group_by_wsid: before.tab_group_by_wsid.remove(elem.wsid->0),
                        ..before
                    }
                } else {
                    before
                };
                if !before.holds_elem(wid, elem.handle) {
                    r == DestroyStep::Ignore && final(self)@ == unlinked
                } else if tabbed && has_replacement {
                    r == DestroyStep::Replace(wid) && final(self)@ == unlinked
                } else {
                    r == DestroyStep::Gone(wid) && final(self)@ == unlinked.without_window(wid)
                }
            }),
    {
        let is_active_elem: bool = match self.window(wid) {
            Some(window) => window.elem == elem.handle,
            None => false,
        };
        let key: Option<u64> = match self.tab_group_by_wid.get(&wid) {
            Some(key) => Some(*key),
            None => None,
        };
        match (key, elem.wsid) {
            (Some(k), Some(wsid)) => {
                let linked: bool = match self.tab_group_by_wsid.get(&wsid) {
                    Some(other) => *other == k,
                    None => false,
                };
                if linked {
                    let _ = self.tab_group_by_wsid.remove(&wsid);
                }
            },
            _ => {},
        }
        if !is_active_elem {
            return DestroyStep::Ignore;
        }
        if key.is_some() && has_replacement {
            return DestroyStep::Replace(wid);
        }
        let _ = self.windows.remove(&wid);
        self.remove_tab_group_for_window(wid);
        DestroyStep::Gone(wid)
    }

    /// A recorded window was moved or resized by someone.
    pub fn on_element_moved(&self, wid: WindowId, store: &WindowTxStore) -> (r: MoveStep)
        ensures
            r == (if self@.windows.dom().contains(wid) && !self@.windows[wid].is_animating {
                MoveStep::Read(txid_of(store@, self@.windows[wid]))
            } else {
                MoveStep::Ignore
            }),
    {
        match self.window(wid) {
            Some(window) => {
                if window.is_animating {
                    MoveStep::Ignore
                } else {
                    MoveStep::Read(Self::txid_for_window_state(store, &window))
                }
            },
            None => MoveStep::Ignore,
        }
    }

    /// A window was minimized or restored by its user, not by hiding its application.
    pub fn on_minimized_changed(&mut self, wid: WindowId)
        ensures
            final(self)@ == old(self)@.unhidden(wid),
    {
        match self.window(wid) {
            Some(window) => {
                let next = AppWindowState {
                    hidden_by_app: false,
                    elem: window.elem,
                    last_seen_txid: window.last_seen_txid,
                    window_server_id: window.window_server_id,
                    is_animating: window.is_animating,
                };
                let _ = self.windows.insert(wid, next);
            },
            None => {},
        }
    }

    /// What to do about an accessibility answer for a recorded window.
    pub fn handle_ax_result(error: Option<AxError>) -> (r: AnswerStep)
        ensures
            r == (match error {
                None => AnswerStep::Value,
                Some(AxError::CannotComplete) => AnswerStep::Skip,
                Some(AxError::InvalidUIElement) => AnswerStep::Recover,
                Some(AxError::Other(_)) => AnswerStep::Fail,
                Some(AxError::NotFound) => AnswerStep::Skip,
            }),
    {
        match error {
            None => AnswerStep::Value,
            Some(AxError::CannotComplete) => AnswerStep::Skip,
            Some(AxError::InvalidUIElement) => AnswerStep::Recover,
            Some(AxError::Other(_)) => AnswerStep::Fail,
            Some(AxError::NotFound) => AnswerStep::Skip,
        }
    }

    /// The first of the application's objects that is not `dead` and belongs to the window.
    pub fn find_tab_group_replacement(
        &self,
        wid: WindowId,
        dead: u64,
        candidates: &Vec<Element>,
    ) -> (r: Option<usize>)
        requires
            forall|i: int| 0 <= i < candidates@.len() ==> (#[trigger] candidates@[i]).wf(),
        ensures
            match r {
                Some(k) => k < candidates@.len() && candidates@[k as int].handle != dead
                    && self@.identifies(candidates@[k as int], Some(wid)) && forall|i: int|
                    0 <= i < k ==> self@.is_no_replacement(#[trigger] candidates@[i], wid, dead),
                None => forall|i: int|
                    0 <= i < candidates@.len() ==> self@.is_no_replacement(
                        #[trigger] candidates@[i],
                        wid,
                        dead,
                    ),
            },
    {
        let mut i: usize = 0;
        while i < candidates.len()
            invariant
                i <= candidates@.len(),
                forall|j: int| 0 <= j < candidates@.len() ==> (#[trigger] candidates@[j]).wf(),
                forall|j: int|
                    0 <= j < i ==> self@.is_no_replacement(#[trigger] candidates@[j], wid, dead),
            decreases candidates@.len() - i,
        {
            let candidate: Element = candidates[i];
            if candidate.handle != dead {
                let named = self.id(&candidate);
                if named == Some(wid) {
                    return Some(i);
                }
                assert(self@.identifies(candidate, named));
            }
            i = i + 1;
        }
        None
    }

    /// Whether an object of which nothing is known, and that was just created or became the main
    /// window, is recorded: it is, unless it is the main window's and that takes it over.
    pub fn records_unknown(is_main: bool, rebind: Rebind) -> (r: bool)
        ensures
            r == (!is_main || rebind == Rebind::Refuse),
    {
        !is_main || rebind == Rebind::Refuse
    }

    /// What follows from looking an object up in the record. `is_main` says whether it is the main
    /// window's.
    pub fn registered(plan: RegisterPlan, is_main: bool) -> (r: Registered)
        ensures
            r == (match plan {
                RegisterPlan::Duplicate => Registered {
                    window: None,
                    reports: false,
                    follows: false,
                },
                RegisterPlan::ExistingTabGroup(wid) => Registered {
                    window: Some(wid),
                    reports: false,
                    follows: is_main,
                },
                RegisterPlan::Track { wid, .. } => Registered {
                    window: Some(wid),
                    reports: true,
                    follows: false,
                },
            }),
    {
        match plan {
            RegisterPlan::Duplicate => Registered { window: None, reports: false, follows: false },
            RegisterPlan::ExistingTabGroup(wid) => Registered {
                window: Some(wid),
                reports: false,
                follows: is_main,
            },
            RegisterPlan::Track { wid, .. } => Registered {
                window: Some(wid),
                reports: true,
                follows: false,
            },
        }
    }

    /// How a recorded window whose object is gone is found again. `replacement` is the object of
    /// its tab group that takes its place, `main` what the application says of its main window.
    pub fn try_recover_invalid_window(
        &self,
        wid: WindowId,
        replacement: Option<usize>,
        main: Option<MainElement>,
    ) -> (r: Recovery)
        ensures
            r == self@.recovery(wid, replacement, main),
    {
        if self.window(wid).is_none() {
            return Recovery::Lost;
        }
        if self.follows_tabs(wid) {
            match replacement {
                Some(i) => {
                    return Recovery::Replace(i);
                },
                None => {},
            }
        }
        if self.main_window == Some(wid) {
            match main {
                Some(main) => {
                    if main.named == Some(wid) {
                        return Recovery::KeepMain;
                    }
                    match main.rebind {
                        Rebind::Same(w) => {
                            if w == wid {
                                return Recovery::RebindMain;
                            }
                        },
                        Rebind::Activate(w) => {
                            if w == wid {
                                return Recovery::RebindMain;
                            }
                        },
                        Rebind::Refuse => {},
                    }
                },
                None => {},
            }
        }
        Recovery::Lost
    }

    /// The report of a frame that was read after this program set it.
    pub fn requested_frame(wid: WindowId, frame: Frame, txid: Option<TransactionId>) -> (r: Event)
        ensures
            r == Event::WindowFrameChanged(wid, frame, txid, Requested(true), None),
    {
        Event::WindowFrameChanged(wid, frame, txid, Requested(true), None)
    }

    /// The report of a frame that changed on its own.
    pub fn observed_frame(
        wid: WindowId,
        frame: Frame,
        txid: Option<TransactionId>,
        mouse: Option<MouseState>,
    ) -> (r: Event)
        ensures
            r == Event::WindowFrameChanged(wid, frame, txid, Requested(false), mouse),
    {
        Event::WindowFrameChanged(wid, frame, txid, Requested(false), mouse)
    }

    /// How a raise of `wids` waits for the application to come to the front; `None` when it need
    /// not wait. `quiet` only applies if the first window is also the last.
    pub fn raise_wait(
        wids: &Vec<WindowId>,
        quiet: Quiet,
        is_frontmost: bool,
        made_key: bool,
        is_standard: bool,
    ) -> (r: Option<RaiseWait>)
        requires
            wids@.len() > 0,
        ensures
            r == (if is_frontmost || !made_key || !is_standard {
                None
            } else if wids@.len() == 1 {
                Some(
                    RaiseWait {
                        quiet_activation: quiet,
                        quiet_window_change: if quiet == Quiet::Yes {
                            Some(wids@[0])
                        } else {
                            None
                        },
                    },
                )
            } else {
                Some(
                    RaiseWait {
                        quiet_activation: Quiet::Yes,
                        quiet_window_change: Some(wids@[0]),
                    },
                )
            }),
    {
        if is_frontmost || !made_key || !is_standard {
            return None;
        }
        let first = wids[0];
        if wids.len() == 1 {
            let quiet_window_change = if quiet == Quiet::Yes {
                Some(first)
            } else {
                None
            };
            Some(RaiseWait { quiet_activation: quiet, quiet_window_change })
        } else {
            Some(RaiseWait { quiet_activation: Quiet::Yes, quiet_window_change: Some(first) })
        }
    }

    /// Starts to wait for an activation at `now`; the result says whether someone waited before
    /// and is to be woken.
    pub fn await_activation(&mut self, wait: RaiseWait, now: u64) -> (r: bool)
        ensures
            r == (old(self)@.last_activated is Some),
            final(self)@ == (Registry {
                last_activated: Some(
                    PendingActivation {
                        at_ms: now,
                        quiet_activation: wait.quiet_activation,
                        quiet_window_change: wait.quiet_window_change,
                    },
                ),
                ..old(self)@
            }),
    {
        let waited: bool = self.last_activated.is_some();
        self.last_activated = Some(
            PendingActivation {
                at_ms: now,
                quiet_activation: wait.quiet_activation,
                quiet_window_change: wait.quiet_window_change,
            },
        );
        waited
    }

    /// For the raised window number `i` of `count`: the window whose main-window change is quiet.
    /// Only the last window changes it.
    pub fn raise_quiet_if(wid: WindowId, i: usize, count: usize, quiet: Quiet) -> (r: Option<
        WindowId,
    >)
        ensures
            r == (if i + 1 == count && quiet == Quiet::Yes {
                Some(wid)
            } else {
                None
            }),
    {
        if i < count && count - i == 1 && quiet == Quiet::Yes {
            Some(wid)
        } else {
            None
        }
    }
}

/// The last index after a window with the window server id `wsid` was found.
pub open spec fn max_idx(last: u32, wsid: Option<WindowServerId>) -> u32 {
    match wsid {
        Some(id) if last < id => id,
        _ => last,
    }
}

/// `window` after it took over `elem`.
pub open spec fn rebound(
    window: AppWindowState,
    elem: Element,
    store: Map<WindowServerId, TxRecord>,
) -> AppWindowState {
    AppWindowState {
        elem: elem.handle,
        window_server_id: elem.wsid,
        last_seen_txid: match stored_txid(store, elem.wsid) {
            Some(txid) => txid,
            None => TransactionId(0),
        },
        ..window
    }
}

/// An object either belongs to a recorded window or to none.
proof fn lemma_identifies_or_not(reg: Registry, elem: Element)
    ensures
        forall|w: WindowId| reg.identifies(elem, Some(w)) ==> !reg.identifies(elem, None),
{
}

/// Whether a bundle identifier is that of a widget.
pub open spec fn is_widget_bundle(id: Seq<char>) -> bool {
    ends_with(lowercase(id), ".widget"@) || has_match(lowercase(id), ".widget."@)
}

/// Whether a path leads into an app extension.
pub open spec fn is_extension_path(path: Seq<char>) -> bool {
    has_match(lowercase(path), ".appex/"@) || ends_with(lowercase(path), ".appex"@)
}

/// Whether a window is never recorded: widgets, app extensions, popovers and menus.
pub open spec fn is_ignored(info: WindowInfo) -> bool {
    ||| info.bundle_id is Some && is_widget_bundle(info.bundle_id->0@)
    ||| info.path is Some && is_extension_path(info.path->0@)
    ||| info.ax_role is Some && info.ax_role->0@ == "AXPopover"@
    ||| info.ax_role is Some && info.ax_role->0@ == "AXMenu"@
}

fn widget_bundle(id: &str) -> (r: bool)
    ensures
        r == is_widget_bundle(id@),
{
    let lower = to_lowercase(&chars_of(id));
    text_ends_with(&lower, &chars_of(".widget")) || text_contains(&lower, &chars_of(".widget."))
}

fn extension_path(path: &str) -> (r: bool)
    ensures
        r == is_extension_path(path@),
{
    let lower = to_lowercase(&chars_of(path));
    text_contains(&lower, &chars_of(".appex/")) || text_ends_with(&lower, &chars_of(".appex"))
}

/// Whether a window is never recorded.
pub fn is_ignored_window(info: &WindowInfo) -> (r: bool)
    ensures
        r == is_ignored(*info),
{
    let widget: bool = match &info.bundle_id {
        Some(id) => widget_bundle(id.as_str()),
        None => false,
    };
    let extension: bool = match &info.path {
        Some(path) => extension_path(path.as_str()),
        None => false,
    };
    widget || extension || is_text(&info.ax_role, "AXPopover") || is_text(&info.ax_role, "AXMenu")
}

/// Whether windows of this application only count as standard when they have a title element.
pub fn needs_title_element(bundle_id: &Option<String>) -> (r: bool)
    ensures
        r == (bundle_id is Some && (bundle_id->0@ == "com.googlecode.iterm2"@ || bundle_id->0@
            == "com.apple.TextInputUI.xpc.CursorUIViewService"@)),
{
    is_text(bundle_id, "com.googlecode.iterm2") || is_text(
        bundle_id,
        "com.apple.TextInputUI.xpc.CursorUIViewService",
    )
}

/// The notification that arrives under `name`.
pub fn notification_named(name: &str) -> (r: Option<Notification>)
    ensures
        match r {
            Some(n) => n.name() == name@,
            None => forall|n: Notification| #[trigger] n.name() != name@,
        },
{
    if same_text(name, "AXApplicationActivated") {
        Some(Notification::ApplicationActivated)
    } else if same_text(name, "AXApplicationDeactivated") {
        Some(Notification::ApplicationDeactivated)
    } else if same_text(name, "AXApplicationHidden") {
        Some(Notification::ApplicationHidden)
    } else if same_text(name, "AXApplicationShown") {
        Some(Notification::ApplicationShown)
    } else if same_text(name, "AXMainWindowChanged") {
        Some(Notification::MainWindowChanged)
    } else if same_text(name, "AXWindowCreated") {
        Some(Notification::WindowCreated)
    } else if same_text(name, "AXMenuOpened") {
        Some(Notification::MenuOpened)
    } else if same_text(name, "AXMenuClosed") {
        Some(Notification::MenuClosed)
    } else if same_text(name, "AXUIElementDestroyed") {
        Some(Notification::UIElementDestroyed)
    } else if same_text(name, "AXWindowMoved") {
        Some(Notification::WindowMoved)
    } else if same_text(name, "AXWindowResized") {
        Some(Notification::WindowResized)
    } else if same_text(name, "AXWindowMiniaturized") {
        Some(Notification::WindowMiniaturized)
    } else if same_text(name, "AXWindowDeminiaturized") {
        Some(Notification::WindowDeminiaturized)
    } else if same_text(name, "AXTitleChanged") {
        Some(Notification::TitleChanged)
    } else {
        None
    }
}

/// What a notification asks for.
#[derive(Clone, Debug, PartialEq, Eq)]
pub enum NotificationStep {
    /// Nothing is left to do.
    Done,
    /// Report these windows minimized.
    ReportMinimized(Vec<WindowId>),
    /// Read which windows are minimized on their own account, then record that the application
    /// is shown.
    ReadMinimized,
    /// Read whether the application is frontmost.
    ReadFrontmost,
    /// Read the main window, then drop the windows that are gone.
    ReadMainWindow,
    /// The object of this recorded window was created again: if it is the main window's, its tab
    /// group follows it.
    FollowIfMain(WindowId),
    /// An object of which nothing is known was created: record it if [`State::records_unknown`]
    /// says so, and go on with [`State::registered`].
    Register,
    /// Report this event.
    Report(Event),
    /// The object of this window was destroyed.
    Destroyed(WindowId),
    /// The tab group of this window follows the object if it has one, and its frame may have
    /// changed.
    Moved(WindowId),
    /// The tab group of this window follows the object if it has one, and its title is read.
    ReadTitle(WindowId),
}

impl State {
    /// Takes up a notification about `elem`.
    pub fn handle_notification(&mut self, elem: &Element, notif: Notification) -> (r:
        NotificationStep)
        requires
            elem.wf(),
        ensures
            ({
                let before = old(self)@;
                match notif {
                    Notification::ApplicationHidden => r is ReportMinimized
                        && r->ReportMinimized_0@.no_duplicates() && (forall|w: WindowId|
                        r->ReportMinimized_0@.contains(w) <==> !before.is_hidden
                            && before.windows.dom().contains(w)
                            && !before.windows[w].hidden_by_app) && final(self)@ == (
                    if before.is_hidden {
                        before
                    } else {
                        Registry {
                            is_hidden: true,
                            windows: before.windows.map_values(
                                |s: AppWindowState| AppWindowState { hidden_by_app: true, ..s },
                            ),
                            ..before
                        }
                    }),
                    Notification::ApplicationShown => final(self)@ == before && r == (
                    if before.is_hidden {
                        NotificationStep::ReadMinimized
                    } else {
                        NotificationStep::Done
                    }),
                    Notification::ApplicationActivated | Notification::ApplicationDeactivated =>
                        final(self)@ == before && r == NotificationStep::ReadFrontmost,
                    Notification::MainWindowChanged => final(self)@ == before && r
                        == NotificationStep::ReadMainWindow,
                    Notification::WindowCreated => final(self)@ == before && match r {
                        NotificationStep::FollowIfMain(w) => before.identifies(*elem, Some(w)),
                        NotificationStep::Register => before.identifies(*elem, None),
                        _ => false,
                    },
                    Notification::MenuOpened => final(self)@ == before && r
                        == NotificationStep::Report(Event::MenuOpened),
                    Notification::MenuClosed => final(self)@ == before && r
                        == NotificationStep::Report(Event::MenuClosed),
                    Notification::UIElementDestroyed => final(self)@ == before && match r {
                        NotificationStep::Destroyed(w) => before.identifies(*elem, Some(w)),
                        NotificationStep::Done => before.identifies(*elem, None),
                        _ => false,
                    },
                    Notification::WindowMoved | Notification::WindowResized => final(self)@
                        == before && match r {
                        NotificationStep::Moved(w) => before.identifies(*elem, Some(w)),
                        NotificationStep::Done => before.identifies(*elem, None),
                        _ => false,
                    },
                    Notification::WindowMiniaturized => match r {
                        NotificationStep::Report(Event::WindowMinimized(w)) => before.identifies(
                            *elem,
                            Some(w),
                        ) && final(self)@ == before.unhidden(w),
                        NotificationStep::Done => before.identifies(*elem, None) && final(self)@
                            == before,
                        _ => false,
                    },
                    Notification::WindowDeminiaturized => match r {
                        NotificationStep::Report(Event::WindowDeminiaturized(w)) =>
                            before.identifies(*elem, Some(w)) && final(self)@ == before.unhidden(w),
                        NotificationStep::Done => before.identifies(*elem, None) && final(self)@
                            == before,
                        _ => false,
                    },
                    Notification::TitleChanged => final(self)@ == before && match r {
                        NotificationStep::ReadTitle(w) => before.identifies(*elem, Some(w)),
                        NotificationStep::Done => before.identifies(*elem, None),
                        _ => false,
                    },
                }
            }),
    {
        match notif {
            Notification::ApplicationHidden => NotificationStep::ReportMinimized(
                self.on_application_hidden(),
            ),
            Notification::ApplicationShown => {
                if self.is_hidden {
                    NotificationStep::ReadMinimized
                } else {
                    NotificationStep::Done
                }
            },
            Notification::ApplicationActivated | Notification::ApplicationDeactivated =>
                NotificationStep::ReadFrontmost,
            Notification::MainWindowChanged => NotificationStep::ReadMainWindow,
            Notification::WindowCreated => match self.id(elem) {
                Some(wid) => NotificationStep::FollowIfMain(wid),
                None => NotificationStep::Register,
            },
            Notification::MenuOpened => NotificationStep::Report(Event::MenuOpened),
            Notification::MenuClosed => NotificationStep::Report(Event::MenuClosed),
            Notification::UIElementDestroyed => match self.id(elem) {
                Some(wid) => NotificationStep::Destroyed(wid),
                None => NotificationStep::Done,
            },
            Notification::WindowMoved | Notification::WindowResized => match self.id(elem) {
                Some(wid) => NotificationStep::Moved(wid),
                None => NotificationStep::Done,
            },
            Notification::WindowMiniaturized => match self.id(elem) {
                Some(wid) => {
                    self.on_minimized_changed(wid);
                    NotificationStep::Report(Event::WindowMinimized(wid))
                },
                None => NotificationStep::Done,
            },
            Notification::WindowDeminiaturized => match self.id(elem) {
                Some(wid) => {
                    self.on_minimized_changed(wid);
                    NotificationStep::Report(Event::WindowDeminiaturized(wid))
                },
                None => NotificationStep::Done,
            },
            Notification::TitleChanged => match self.id(elem) {
                Some(wid) => NotificationStep::ReadTitle(wid),
                None => NotificationStep::Done,
            },
        }
    }
}

/// The windows of an application as they are listed: each window once, with what is known of it.
pub struct VisibleWindows {
    pub new: Vec<(WindowId, WindowInfo)>,
    pub known_visible: Vec<WindowId>,
}

/// Whether `s` has an entry for `wid`.
pub open spec fn has_entry(s: Seq<(WindowId, WindowInfo)>, wid: WindowId) -> bool {
    exists|i: int| 0 <= i < s.len() && (#[trigger] s[i]).0 == wid
}

/// Whether no window has two entries in `s`.
pub open spec fn distinct_entries(s: Seq<(WindowId, WindowInfo)>) -> bool {
    forall|i: int, j: int|
        0 <= i < j < s.len() ==> (#[trigger] s[i]).0 != (#[trigger] s[j]).0
}

/// Whether `info` is a better description of a window than `existing`: the window shows
/// `preferred`, which `info` speaks of and `existing` does not.
pub open spec fn describes_better(
    preferred: Option<WindowServerId>,
    existing: WindowInfo,
    info: WindowInfo,
) -> bool {
    preferred is Some && existing.sys_id != preferred && info.sys_id == preferred
}

impl VisibleWindows {
    /// Nothing is listed twice.
    pub open spec fn wf(self) -> bool {
        distinct_entries(self.new@) && self.known_visible@.no_duplicates()
    }

    pub fn new() -> (r: VisibleWindows)
        ensures
            r.wf(),
            r.new@.len() == 0,
            r.known_visible@.len() == 0,
    {
        VisibleWindows { new: Vec::new(), known_visible: Vec::new() }
    }

    fn entry(&self, wid: WindowId) -> (r: Option<usize>)
        ensures
            match r {
                Some(i) => i < self.new@.len() && self.new@[i as int].0 == wid,
                None => !has_entry(self.new@, wid),
            },
    {
        let mut i: usize = 0;
        while i < self.new.len()
            invariant
                i <= self.new@.len(),
                forall|j: int| 0 <= j < i ==> (#[trigger] self.new@[j]).0 != wid,
            decreases self.new@.len() - i,
        {
            if self.new[i].0 == wid {
                return Some(i);
            }
            i = i + 1;
        }
        None
    }

    /// Lists a window that was just recorded.
    pub fn add_registered(&mut self, wid: WindowId, info: WindowInfo)
        requires
            old(self).wf(),
        ensures
            final(self).wf(),
            final(self).known_visible@ == old(self).known_visible@,
            final(self).new@ == (if has_entry(old(self).new@, wid) {
                old(self).new@
            } else {
                old(self).new@.push((wid, info))
            }),
    {
        match self.entry(wid) {
            Some(i) => {
                assert(has_entry(self.new@, wid)) by {
                    assert(self.new@[i as int].0 == wid);
                }
            },
            None => {
                self.new.push((wid, info));
            },
        }
    }

    /// Notes that a window is visible.
    pub fn note_visible(&mut self, wid: WindowId)
        requires
            old(self).wf(),
        ensures
            final(self).wf(),
            final(self).new@ == old(self).new@,
            final(self).known_visible@ == (if old(self).known_visible@.contains(wid) {
                old(self).known_visible@
            } else {
                old(self).known_visible@.push(wid)
            }),
    {
        if !crate::collections::contains(&self.known_visible, &wid) {
            proof {
                crate::collections::lemma_push_new(self.known_visible@, wid);
            }
            self.known_visible.push(wid);
        }
    }

    /// Lists what was read of a window that shows `preferred`: the first description stands
    /// unless a later one is better.
    pub fn describe(
        &mut self,
        wid: WindowId,
        info: WindowInfo,
        preferred: Option<WindowServerId>,
    )
        requires
            old(self).wf(),
        ensures
            final(self).wf(),
            final(self).known_visible@ == old(self).known_visible@,
            !has_entry(old(self).new@, wid) ==> final(self).new@ == old(self).new@.push(
                (wid, info),
            ),
            forall|i: int|
                0 <= i < old(self).new@.len() && (#[trigger] old(self).new@[i]).0 == wid
                    ==> final(self).new@ == (if describes_better(
                    preferred,
                    old(self).new@[i].1,
                    info,
                ) {
                    old(self).new@.update(i, (wid, info))
                } else {
                    old(self).new@
                }),
    {
        match self.entry(wid) {
            Some(i) => {
                proof {
                    assert forall|j: int|
                        0 <= j < self.new@.len() && (#[trigger] self.new@[j]).0 == wid implies j
                        == i by {
                        if j < i {
                            assert(self.new@[j].0 != self.new@[i as int].0);
                        } else if i < j {
                            assert(self.new@[i as int].0 != self.new@[j].0);
                        }
                    }
                }
                if preferred.is_some() && self.new[i].1.sys_id != preferred && info.sys_id
                    == preferred {
                    self.new.set(i, (wid, info));
                }
            },
            None => {
                proof {
                    assert forall|j: int| 0 <= j < self.new@.len() implies (
                    #[trigger] self.new@[j]).0 != wid by {}
                }
                self.new.push((wid, info));
            },
        }
    }
}

/// What is reported once the windows of an application were listed, and whether the request
/// succeeded.
#[derive(Debug, PartialEq, Eq)]
pub struct ListedReport {
    pub event: Event,
    pub result: Result<(), AxError>,
}

/// The windows of the application `pid` were listed, or could not be. Where they could not, none
/// is reported as visible, and the request fails.
pub fn windows_listed(pid: Pid, listed: Result<VisibleWindows, AxError>) -> (r: ListedReport)
    ensures
        match listed {
            Ok(windows) => {
                &&& r.event == (Event::WindowsDiscovered {
                    pid,
                    new: windows.new,
                    known_visible: windows.known_visible,
                })
                &&& r.result is Ok
            },
            Err(error) => {
                &&& r.event matches Event::WindowsDiscovered { pid: p, new, known_visible }
                &&& p == pid
                &&& new@.len() == 0
                &&& known_visible@.len() == 0
                &&& r.result == Err::<(), AxError>(error)
            },
        },
{
    match listed {
        Ok(windows) => ListedReport {
            event: Event::WindowsDiscovered {
                pid,
                new: windows.new,
                known_visible: windows.known_visible,
            },
            result: Ok(()),
        },
        Err(error) => ListedReport {
            event: Event::WindowsDiscovered {
                pid,
                new: Vec::new(),
                known_visible: Vec::new(),
            },
            result: Err(error),
        },
    }
}

/// Removing a window, with the tab group it stands for, leaves no trace of it.
pub proof fn a_removed_window_leaves_no_trace(reg: Registry, wid: WindowId)
    requires
        reg.consistent(),
    ensures
        reg.without_window(wid).consistent(),
        !reg.without_window(wid).windows.dom().contains(wid),
        !reg.without_window(wid).tab_group_by_wid.dom().contains(wid),
        forall|key: u64|
            reg.without_window(wid).tab_groups.dom().contains(key)
                ==> reg.without_window(wid).tab_groups[key] != wid,
        forall|w: WindowId|
            w != wid && reg.windows.dom().contains(w) ==> reg.without_window(wid).windows[w]
                == reg.windows[w],
{
    let after = reg.without_window(wid);
    if reg.tab_group_by_wid.dom().contains(wid) {
        let key = reg.tab_group_by_wid[wid];
        assert(reg.tab_groups[key] == wid);
        assert forall|k: u64| #[trigger] after.tab_groups.dom().contains(k) implies {
            let w = after.tab_groups[k];
            after.tab_group_by_wid.dom().contains(w) && after.tab_group_by_wid[w] == k
        } by {
            assert(reg.tab_groups.dom().contains(k));
        }
        assert forall|w: WindowId| #[trigger] after.tab_group_by_wid.dom().contains(w) implies {
            let k = after.tab_group_by_wid[w];
            &&& after.tab_groups.dom().contains(k)
            &&& after.tab_groups[k] == w
            &&& after.windows.dom().contains(w)
        } by {
            assert(reg.tab_group_by_wid.dom().contains(w));
        }
        assert forall|id: WindowServerId| #[trigger]
            after.tab_group_by_wsid.dom().contains(id) implies after.tab_groups.dom().contains(
            after.tab_group_by_wsid[id],
        ) by {
            assert(reg.tab_group_by_wsid.dom().contains(id));
        }
    } else {
        assert forall|k: u64| reg.tab_groups.dom().contains(k) implies reg.tab_groups[k] != wid by {
            assert(reg.tab_group_by_wid.dom().contains(reg.tab_groups[k]));
        }
        assert forall|w: WindowId| #[trigger] after.tab_group_by_wid.dom().contains(w) implies {
            let k = after.tab_group_by_wid[w];
            &&& after.tab_groups.dom().contains(k)
            &&& after.tab_groups[k] == w
            &&& after.windows.dom().contains(w)
        } by {
            assert(reg.tab_group_by_wid.dom().contains(w));
        }
    }
}

/// Recording a window under a new id, with a tab group that has no window yet, keeps the record
/// consistent.
pub proof fn a_new_window_keeps_the_record_consistent(
    reg: Registry,
    wid: WindowId,
    state: AppWindowState,
    key: Option<u64>,
    wsid: Option<WindowServerId>,
)
    requires
        reg.consistent(),
        !reg.windows.dom().contains(wid),
        key is Some ==> !reg.tab_groups.dom().contains(key->0),
    ensures
        reg.with_window(wid, state).consistent(),
        key is Some ==> reg.with_window(wid, state).with_tab_group(
            key->0,
            wid,
            wsid,
        ).consistent(),
{
    let mid = reg.with_window(wid, state);
    assert(!reg.tab_group_by_wid.dom().contains(wid));
    assert forall|w: WindowId| #[trigger] mid.tab_group_by_wid.dom().contains(w) implies {
        let k = mid.tab_group_by_wid[w];
        &&& mid.tab_groups.dom().contains(k)
        &&& mid.tab_groups[k] == w
        &&& mid.windows.dom().contains(w)
    } by {
        assert(reg.tab_group_by_wid.dom().contains(w));
    }
    if key is Some {
        let after = mid.with_tab_group(key->0, wid, wsid);
        assert forall|k: u64| #[trigger] after.tab_groups.dom().contains(k) implies {
            let w = after.tab_groups[k];
            after.tab_group_by_wid.dom().contains(w) && after.tab_group_by_wid[w] == k
        } by {
            if k != key->0 {
                assert(reg.tab_groups.dom().contains(k));
            }
        }
        assert forall|w: WindowId| #[trigger] after.tab_group_by_wid.dom().contains(w) implies {
            let k = after.tab_group_by_wid[w];
            &&& after.tab_groups.dom().contains(k)
            &&& after.tab_groups[k] == w
            &&& after.windows.dom().contains(w)
        } by {
            if w != wid {
                assert(reg.tab_group_by_wid.dom().contains(w));
            }
        }
        assert forall|id: WindowServerId| #[trigger]
            after.tab_group_by_wsid.dom().contains(id) implies after.tab_groups.dom().contains(
            after.tab_group_by_wsid[id],
        ) by {
            if wsid != Some(id) {
                assert(reg.tab_group_by_wsid.dom().contains(id));
            }
        }
    }
}

/// In a consistent record, an object of a tab group leads to a recorded window.
pub proof fn an_identified_window_is_recorded(reg: Registry, elem: Element, wid: WindowId)
    requires
        reg.consistent(),
        reg.identifies(elem, Some(wid)),
    ensures
        reg.windows.dom().contains(wid),
{
    if reg.tabbed(elem) is Some {
        if elem.tab_group is Some && reg.tab_groups.dom().contains(elem.tab_group->0) {
            let key = elem.tab_group->0;
            assert(reg.tab_group_by_wid.dom().contains(reg.tab_groups[key]));
        }
    }
}

/// A window that was just recorded is found again by its object, unless the object already led
/// to another window.
pub proof fn a_recorded_window_is_found_by_its_object(
    reg: Registry,
    elem: Element,
    wid: WindowId,
    state: AppWindowState,
    r: Option<WindowId>,
)
    requires
        reg.identifies(elem, None),
        !reg.windows.dom().contains(wid),
        state.elem == elem.handle,
        state.window_server_id == elem.wsid,
        reg.with_window(wid, state).tabbed(elem) is None,
        reg.with_window(wid, state).identifies(elem, r),
    ensures
        r == Some(wid),
{
    let after = reg.with_window(wid, state);
    if elem.wsid is Some {
        let id = elem.wsid->0;
        assert(after.holds_server_id(wid, id));
        assert forall|w: WindowId| #[trigger] after.holds_server_id(w, id) implies w == wid by {
            if w != wid {
                assert(reg.holds_server_id(w, id));
            }
        }
    } else {
        assert(after.holds_elem(wid, elem.handle));
        assert forall|w: WindowId| #[trigger] after.holds_elem(w, elem.handle) implies w == wid by {
            if w != wid {
                assert(reg.holds_elem(w, elem.handle));
            }
        }
    }
}

/// Hiding an application and showing it again restores the record, if no window was hidden with
/// it before.
pub proof fn hiding_and_showing_restores_the_record(reg: Registry)
    requires
        !reg.is_hidden,
        forall|w: WindowId| reg.windows.dom().contains(w) ==> !(
        #[trigger] reg.windows[w]).hidden_by_app,
    ensures
        reg.windows.map_values(
            |s: AppWindowState| AppWindowState { hidden_by_app: true, ..s },
        ).map_values(|s: AppWindowState| AppWindowState { hidden_by_app: false, ..s })
            == reg.windows,
{
    assert(reg.windows.map_values(
        |s: AppWindowState| AppWindowState { hidden_by_app: true, ..s },
    ).map_values(|s: AppWindowState| AppWindowState { hidden_by_app: false, ..s })
        =~= reg.windows);
}

/// A window whose object is still valid is never dropped for want of a complete list.
pub proof fn valid_windows_outlive_incomplete_lists(
    before: Registry,
    wids: Seq<WindowId>,
    invalid: Set<WindowId>,
    wid: WindowId,
)
    requires
        before.windows.dom().contains(wid),
        !invalid.contains(wid),
    ensures
        cleaned(
            before,
            wids,
            |reg: Registry, w: WindowId| invalid.contains(w),
        ).0.windows.dom().contains(wid),
    decreases wids.len(),
{
    if wids.len() > 0 {
        valid_windows_outlive_incomplete_lists(before, wids.drop_last(), invalid, wid);
    }
}

/// A window server id stands for the tab group that it was seen in exactly while the window of that
/// group shows that very id.
pub proof fn tab_groups_show_one_window(reg: Registry, id: WindowServerId, key: u64)
    ensures
        reg.active_tab_group(id) == Some(key) <==> reg.tab_group_by_wsid.dom().contains(id)
            && reg.tab_group_by_wsid[id] == key && reg.tab_groups.dom().contains(key)
            && reg.windows.dom().contains(reg.tab_groups[key])
            && reg.windows[reg.tab_groups[key]].window_server_id == Some(id),
{
}

/// An object belongs to the window of its tab group, whatever its number; without one, to the
/// window that is recorded under its number, and only then to the one that is recorded with the
/// object itself.
pub proof fn objects_belong_to_the_window_that_shows_them(
    reg: Registry,
    elem: Element,
    r: Option<WindowId>,
    key: u64,
    id: WindowServerId,
    w: WindowId,
)
    requires
        reg.identifies(elem, r),
    ensures
        elem.tab_group == Some(key) && reg.tab_groups.dom().contains(key) ==> r == Some(
            reg.tab_groups[key],
        ),
        elem.tab_group is None && elem.wsid == Some(id) && !reg.tab_group_by_wsid.dom().contains(id)
            && reg.windows.dom().contains(w) && reg.windows[w].window_server_id == Some(id)
            ==> r is Some && reg.windows.dom().contains(r->0) && reg.windows[r->0].window_server_id
            == Some(id),
        elem.tab_group is None && elem.wsid == Some(id) && !reg.tab_group_by_wsid.dom().contains(id)
            && w.pid == reg.pid && w.idx == id && reg.windows.dom().contains(w)
            && reg.windows[w].window_server_id == Some(id) ==> r == Some(w),
        elem.tab_group is None && elem.wsid is None && reg.windows.dom().contains(w)
            && reg.windows[w].elem == elem.handle ==> r is Some && reg.windows.dom().contains(r->0)
            && reg.windows[r->0].elem == elem.handle,
        elem.tab_group is None && elem.wsid is None && (forall|v: WindowId| #[trigger]
            reg.windows.dom().contains(v) ==> reg.windows[v].elem != elem.handle) ==> r is None,
{
    if elem.tab_group is None && elem.wsid == Some(id) && reg.windows.dom().contains(w)
        && reg.windows[w].window_server_id == Some(id) {
        assert(reg.holds_server_id(w, id));
    }
    if elem.tab_group is None && elem.wsid is None {
        if reg.windows.dom().contains(w) && reg.windows[w].elem == elem.handle {
            assert(reg.holds_elem(w, elem.handle));
        }
        if r is Some {
            assert(reg.holds_elem(r->0, elem.handle));
        }
    }
}

/// A window whose object is gone goes on with another object of its tab group, if there is one. The
/// main window goes on with the object that the application names for it; any other is lost.
pub proof fn windows_are_found_again_by_their_group(
    reg: Registry,
    wid: WindowId,
    replacement: Option<usize>,
    main: Option<MainElement>,
)
    ensures
        ({
            let r = reg.recovery(wid, replacement, main);
            let known = reg.windows.dom().contains(wid);
            let grouped = reg.tab_group_by_wid.dom().contains(wid) && replacement is Some;
            &&& !known ==> r == Recovery::Lost
            &&& known && grouped ==> r == Recovery::Replace(replacement->0)
            &&& known && !grouped && (reg.main_window != Some(wid) || main is None) ==> r
                == Recovery::Lost
            &&& known && !grouped && reg.main_window == Some(wid) && main is Some
                && main->0.named == Some(wid) ==> r == Recovery::KeepMain
            &&& r == Recovery::RebindMain ==> reg.main_window == Some(wid) && main is Some && (
            main->0.rebind == Rebind::Same(wid) || main->0.rebind == Rebind::Activate(wid))
        }),
{
}

/// Only standard root windows have a tab group: the one they say, else the one that their number
/// shows.
pub proof fn only_standard_windows_have_tab_groups(
    reg: Registry,
    elem: Element,
    standard: bool,
    root: bool,
    wsid: Option<WindowServerId>,
)
    ensures
        !standard || !root ==> reg.tab_group_key(elem, standard, root, wsid) is None,
        standard && root && elem.tab_group is Some ==> reg.tab_group_key(
            elem,
            standard,
            root,
            wsid,
        ) == elem.tab_group,
        standard && root && elem.tab_group is None && wsid is Some ==> reg.tab_group_key(
            elem,
            standard,
            root,
            wsid,
        ) == reg.active_tab_group(wsid->0),
        standard && root && elem.tab_group is None && wsid is None ==> reg.tab_group_key(
            elem,
            standard,
            root,
            wsid,
        ) is None,
{
}

/// A tab group stands for the window that it was registered for, under the number that it shows;
/// when the window is dropped, the group and all its numbers are forgotten, and no others.
pub proof fn tab_groups_come_and_go_with_their_window(
    reg: Registry,
    key: u64,
    wid: WindowId,
    id: WindowServerId,
    other: WindowId,
    other_id: WindowServerId,
)
    requires
        other != wid,
    ensures
        ({
            let a = reg.with_tab_group(key, wid, Some(id));
            &&& a.tab_groups.dom().contains(key) && a.tab_groups[key] == wid
            &&& a.tab_group_by_wid.dom().contains(wid) && a.tab_group_by_wid[wid] == key
            &&& a.tab_group_by_wsid.dom().contains(id) && a.tab_group_by_wsid[id] == key
            &&& a.windows == reg.windows && a.tab_group_by_wid[other]
                == reg.tab_group_by_wid[other]
        }),
        reg.with_tab_group(key, wid, None).tab_group_by_wsid == reg.tab_group_by_wsid,
        ({
            let a = reg.without_window(wid);
            &&& !a.windows.dom().contains(wid) && !a.tab_group_by_wid.dom().contains(wid)
            &&& a.windows.dom().contains(other) == reg.windows.dom().contains(other)
            &&& a.windows[other] == reg.windows[other]
            &&& a.tab_group_by_wid.dom().contains(other) == reg.tab_group_by_wid.dom().contains(
                other,
            )
            &&& a.main_window == reg.main_window && a.is_hidden == reg.is_hidden && a.pid
                == reg.pid
            &&& reg.tab_group_by_wid.dom().contains(wid) && reg.tab_group_by_wid[wid] == key ==> {
                &&& !a.tab_groups.dom().contains(key)
                &&& a.tab_group_by_wsid.dom().contains(other_id) <==> (
                reg.tab_group_by_wsid.dom().contains(other_id)
                    && reg.tab_group_by_wsid[other_id] != key)
                &&& a.tab_group_by_wsid.dom().contains(other_id) ==> a.tab_group_by_wsid[other_id]
                    == reg.tab_group_by_wsid[other_id]
            }
            &&& !reg.tab_group_by_wid.dom().contains(wid) ==> a.tab_groups == reg.tab_groups
                && a.tab_group_by_wsid == reg.tab_group_by_wsid
        }),
{
}

/// The transaction of a window is the one in the store for its number; failing that, the last one
/// seen, unless none was.
pub proof fn the_store_knows_the_transaction(
    store: Map<WindowServerId, TxRecord>,
    window: AppWindowState,
    id: WindowServerId,
)
    ensures
        window.window_server_id == Some(id) && store.dom().contains(id) ==> txid_of(store, window)
            == Some(store[id].txid),
        window.window_server_id is None || !store.dom().contains(window.window_server_id->0)
            ==> txid_of(store, window) == (if window.last_seen_txid.0 == 0 {
            None
        } else {
            Some(window.last_seen_txid)
        }),
{
}

/// A window that takes over another object shows that object under its number, with the
/// transaction that is stored for the number; it stays hidden or animated as it was.
pub proof fn windows_take_over_objects(
    window: AppWindowState,
    elem: Element,
    store: Map<WindowServerId, TxRecord>,
    id: WindowServerId,
    last: u32,
)
    ensures
        ({
            let w = rebound(window, elem, store);
            &&& w.elem == elem.handle && w.window_server_id == elem.wsid
            &&& w.hidden_by_app == window.hidden_by_app && w.is_animating == window.is_animating
            &&& elem.wsid == Some(id) && store.dom().contains(id) ==> w.last_seen_txid
                == store[id].txid
            &&& elem.wsid is None || !store.dom().contains(elem.wsid->0) ==> w.last_seen_txid.0
                == 0
        }),
        max_idx(last, None) == last,
        max_idx(last, Some(id)) >= last && max_idx(last, Some(id)) >= id,
        max_idx(last, Some(id)) == last || max_idx(last, Some(id)) == id,
{
}

/// A window that shows again is not hidden with its application, and is otherwise as it was.
pub proof fn shown_windows_are_not_hidden(reg: Registry, wid: WindowId, other: WindowId)
    requires
        other != wid,
    ensures
        reg.windows.dom().contains(wid) ==> !reg.unhidden(wid).windows[wid].hidden_by_app
            && reg.unhidden(wid).windows[wid].elem == reg.windows[wid].elem && reg.unhidden(
            wid,
        ).windows[wid].window_server_id == reg.windows[wid].window_server_id,
        reg.unhidden(wid).windows[other] == reg.windows[other],
        reg.unhidden(wid).windows.dom() =~= reg.windows.dom(),
        reg.unhidden(wid).tab_groups == reg.tab_groups,
{
}

/// Every notification arrives under a name of its own.
pub proof fn notifications_arrive_under_their_names()
    ensures
        Notification::ApplicationActivated.name() == "AXApplicationActivated"@,
        Notification::ApplicationDeactivated.name() == "AXApplicationDeactivated"@,
        Notification::ApplicationHidden.name() == "AXApplicationHidden"@,
        Notification::ApplicationShown.name() == "AXApplicationShown"@,
        Notification::MainWindowChanged.name() == "AXMainWindowChanged"@,
        Notification::WindowCreated.name() == "AXWindowCreated"@,
        Notification::MenuOpened.name() == "AXMenuOpened"@,
        Notification::MenuClosed.name() == "AXMenuClosed"@,
        Notification::UIElementDestroyed.name() == "AXUIElementDestroyed"@,
        Notification::WindowMoved.name() == "AXWindowMoved"@,
        Notification::WindowResized.name() == "AXWindowResized"@,
        Notification::WindowMiniaturized.name() == "AXWindowMiniaturized"@,
        Notification::WindowDeminiaturized.name() == "AXWindowDeminiaturized"@,
        Notification::TitleChanged.name() == "AXTitleChanged"@,
{
}

/// A list of windows misses a recorded one exactly if it neither names it nor shows a window of its
/// tab group.
pub proof fn missing_windows_are_not_listed(reg: Registry, wid: WindowId, survey: Survey, i: int)
    ensures
        survey.windows@.contains(wid) ==> !reg.misses(wid, survey),
        !survey.windows@.contains(wid) && !reg.tab_group_by_wid.dom().contains(wid) ==> reg.misses(
            wid,
            survey,
        ),
        reg.tab_group_by_wid.dom().contains(wid) && 0 <= i < survey.wsids@.len()
            && reg.active_tab_group(survey.wsids@[i]) == Some(reg.tab_group_by_wid[wid])
            ==> !reg.misses(wid, survey),
{
}

/// Dropping what is gone drops nothing that is not, and names what it dropped.
pub proof fn only_windows_that_are_gone_are_dropped(
    before: Registry,
    wids: Seq<WindowId>,
    invalid: Set<WindowId>,
    wid: WindowId,
)
    requires
        wids.no_duplicates(),
    ensures
        ({
            let (after, dropped) = cleaned(
                before,
                wids,
                |reg: Registry, w: WindowId| invalid.contains(w),
            );
            &&& after.windows.dom().contains(wid) <==> before.windows.dom().contains(wid) && !(
            wids.contains(wid) && invalid.contains(wid))
            &&& after.windows.dom().contains(wid) ==> after.windows[wid] == before.windows[wid]
            &&& after.main_window == before.main_window
            &&& dropped.contains(
                StaleWindow { wid, was_main: before.main_window == Some(wid) },
            ) <==> before.windows.dom().contains(wid) && wids.contains(wid) && invalid.contains(wid)
        }),
    decreases wids.len(),
{
    if wids.len() > 0 {
        let head = wids.drop_last();
        let last = wids.last();
        let n = wids.len() - 1;
        assert(head.no_duplicates()) by {
            assert forall|i: int, j: int|
                0 <= i < head.len() && 0 <= j < head.len() && i != j implies head[i] != head[j] by {
                assert(wids[i] != wids[j]);
            }
        }
        let gone = |reg: Registry, w: WindowId| invalid.contains(w);
        only_windows_that_are_gone_are_dropped(before, head, invalid, wid);
        only_windows_that_are_gone_are_dropped(before, head, invalid, last);
        assert(wids =~= head.push(last));
        crate::collections::lemma_push_contains(head, last);
        assert(!head.contains(last)) by {
            if head.contains(last) {
                let i = head.index_of(last);
                assert(wids[i] != wids[n]);
            }
        }
        let (reg, dropped) = cleaned(before, head, gone);
        crate::collections::lemma_push_contains(
            dropped,
            StaleWindow { wid: last, was_main: reg.main_window == Some(last) },
        );
    }
}

/// Popovers and menus are never recorded, nor are the windows of widgets and of app extensions; any
/// other window is.
pub proof fn only_ordinary_windows_are_recorded(info: WindowInfo)
    ensures
        info.ax_role is Some && (info.ax_role->0@ == "AXPopover"@ || info.ax_role->0@
            == "AXMenu"@) ==> is_ignored(info),
        info.bundle_id is Some && ends_with(lowercase(info.bundle_id->0@), ".widget"@)
            ==> is_ignored(info),
        info.bundle_id is Some && has_match(lowercase(info.bundle_id->0@), ".widget."@)
            ==> is_ignored(info),
        info.path is Some && ends_with(lowercase(info.path->0@), ".appex"@) ==> is_ignored(info),
        info.path is Some && has_match(lowercase(info.path->0@), ".appex/"@) ==> is_ignored(info),
        info.ax_role is None && info.bundle_id is None && info.path is None ==> !is_ignored(info),
{
}

/// A description replaces another only if it speaks of the number that the window shows and the
/// other does not.
pub proof fn better_descriptions_speak_of_what_shows(
    id: WindowServerId,
    existing: WindowInfo,
    info: WindowInfo,
)
    ensures
        describes_better(Some(id), existing, info) <==> info.sys_id == Some(id) && existing.sys_id
            != Some(id),
        !describes_better(None, existing, info),
{
}

} // verus!
