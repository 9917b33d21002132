//! What the reactor is told, and the commands it takes.

use vstd::prelude::*;

use crate::model::{
    AppInfo, Frame, MouseState, Pid, Quiet, SpaceId, WindowInfo, WindowServerId, WindowServerInfo,
};
use crate::reactor::transaction_manager::TransactionId;
use crate::window_id::WindowId;

verus! {

/// Whether a frame change was asked for by this program.
#[derive(Clone, Copy, Debug, PartialEq, Eq, Structural)]
pub struct Requested(pub bool);

/// How windows are arranged in a workspace.
#[derive(Clone, Copy, Debug, PartialEq, Eq, Structural)]
pub enum LayoutMode {
    Traditional,
    Bsp,
    Stack,
    Scrolling,
}

/// A direction on the screen.
#[derive(Clone, Copy, Debug, PartialEq, Eq, Structural)]
pub enum Direction {
    Left,
    Right,
    Up,
    Down,
}

/// What the layout engine can be told to do.
#[derive(Clone, Debug, PartialEq, Eq)]
pub enum LayoutCommand {
    NextWorkspace(Option<bool>),
    PrevWorkspace(Option<bool>),
    SwitchToWorkspace(usize),
    MoveWindowToWorkspace(usize),
    CreateWorkspace,
    SwitchToLastWorkspace,
    SetWorkspaceLayout { workspace: Option<usize>, mode: LayoutMode },
    /// Scrolls by a signed distance, as the bits of a floating-point number.
    ScrollStrip { delta: u64 },
    /// Any other command, by its wire name.
    Other(String),
}

/// What can be asked of the metrics.
#[derive(Clone, Copy, Debug, PartialEq, Eq, Structural)]
pub enum MetricsCommand {
    ShowTiming,
}

#[derive(Clone, Copy, Debug, PartialEq, Eq, Structural)]
pub enum ReactorCommand {
    Debug,
    Serialize,
    SaveAndExit,
    SwitchSpace(Direction),
    FocusWindow { window_id: WindowId, window_server_id: Option<WindowServerId> },
    SetMissionControlActive(bool),
}

#[derive(Clone, Debug, PartialEq, Eq)]
pub enum Command {
    Layout(LayoutCommand),
    Metrics(MetricsCommand),
    Reactor(ReactorCommand),
}

/// A window as the layout engine gets to know it: title, role and subrole.
#[derive(Clone, Debug, PartialEq, Eq)]
pub struct LaidOutWindow {
    pub wid: WindowId,
    pub title: Option<String>,
    pub ax_role: Option<String>,
    pub ax_subrole: Option<String>,
}

/// What the layout engine is told.
#[derive(Clone, Debug, PartialEq, Eq)]
pub enum LayoutEvent {
    WindowAdded(SpaceId, WindowId),
    WindowRemoved(WindowId),
    /// The window leaves the layout, but its floating position is kept.
    WindowRemovedPreserveFloating(WindowId),
    WindowFocused(SpaceId, WindowId),
    WindowResized { wid: WindowId, old_frame: Frame, new_frame: Frame },
    WindowsOnScreenUpdated(SpaceId, Pid, Vec<LaidOutWindow>, Option<AppInfo>),
    SpaceExposed(SpaceId, Frame),
    AppClosed(Pid),
}

#[allow(inconsistent_fields)]
/// An event that the reactor handles. Reply channels and thread handles stay with the caller.
#[derive(Clone, Debug, PartialEq, Eq)]
pub enum Event {
    /// The screen layout, including resolution, changed. This is always the first event sent on
    /// startup. The first vector is the frame for each screen; the main screen is always first.
    ScreenParametersChanged(Vec<Frame>, Vec<Option<SpaceId>>, Vec<WindowServerInfo>),
    /// The current space changed. There is one space per screen; `None` disables managing windows
    /// on that screen until the next space change.
    SpaceChanged(Vec<Option<SpaceId>>, Vec<WindowServerInfo>),
    /// An application was launched. Also sent for every running application on startup.
    ApplicationLaunched {
        pid: Pid,
        info: AppInfo,
        is_frontmost: bool,
        main_window: Option<WindowId>,
        visible_windows: Vec<(WindowId, WindowInfo)>,
        window_server_info: Vec<WindowServerInfo>,
    },
    ApplicationTerminated(Pid),
    ApplicationThreadTerminated(Pid),
    ApplicationActivated(Pid, Quiet),
    ApplicationDeactivated(Pid),
    ApplicationGloballyActivated(Pid),
    ApplicationGloballyDeactivated(Pid),
    ApplicationMainWindowChanged(Pid, Option<WindowId>, Quiet),
    WindowsDiscovered {
        pid: Pid,
        new: Vec<(WindowId, WindowInfo)>,
        known_visible: Vec<WindowId>,
    },
    WindowCreated(WindowId, WindowInfo, Option<WindowServerInfo>, Option<MouseState>),
    WindowDestroyed(WindowId),
    WindowServerDestroyed(WindowServerId, SpaceId),
    WindowServerAppeared(WindowServerId, SpaceId),
    WindowServerFocusChanged(WindowId, SpaceId),
    WindowServerIdChanged(WindowId, Option<WindowServerId>, Option<WindowServerInfo>),
    WindowMinimized(WindowId),
    WindowDeminiaturized(WindowId),
    WindowFrameChanged(WindowId, Frame, Option<TransactionId>, Requested, Option<MouseState>),
    WindowTitleChanged(WindowId, String),
    ResyncAppForWindow(WindowServerId),
    WindowIsChangingScreens(WindowServerId),
    MenuOpened,
    MenuClosed,
    /// The left mouse button was released. Layout changes are suppressed while it is down.
    MouseUp,
    /// The mouse cursor moved over a new window.
    MouseMovedOverWindow(WindowServerId),
    SystemWoke,
    MissionControlNativeEntered,
    MissionControlNativeExited,
    RaiseCompleted { window_id: WindowId, sequence_id: u64 },
    RaiseTimeout { sequence_id: u64 },
    Command(Command),
    RegisterWmSender,
    QueryWorkspaces,
    QueryWindows { space_id: Option<SpaceId> },
    QueryWindowInfo { window_id: WindowId },
    QueryApplications,
    QueryLayoutState { space_id: SpaceId },
    QueryMetrics,
    ConfigUpdated,
    /// Apply app rules to existing windows when a space is activated.
    ApplyAppRulesToExistingWindows { pid: Pid, app_info: AppInfo, windows: Vec<WindowServerInfo> },
}

} // verus!
