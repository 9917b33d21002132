//! The controller of the window manager: it decides in which spaces windows are managed, which
//! applications get a thread of their own, and when hotkeys are registered.

use vstd::prelude::*;
use vstd::string::*;

use crate::collections::{contains, copied, VecMap, VecSet};
use crate::model::{AppInfo, Pid, SpaceId, WindowServerId, WindowServerInfo};
use crate::reactor::event::Command;
#[allow(unused_imports)]
use crate::text::{split, text_view, views};
use crate::text::{is_text, same_text, split_text};

verus! {

/// A screen, as the system numbers it.
pub type ScreenId = u32;

/// The bundle of the login window. While it is active no space is managed.
pub open spec fn login_bundle() -> Seq<char> {
    "com.apple.loginwindow"@
}

/// A workspace, by its position or by its name.
#[derive(Clone, Debug, PartialEq, Eq)]
pub enum WorkspaceSelector {
    Index(usize),
    Name(String),
}

/// A command line, as one text or as its words.
#[derive(Clone, Debug, PartialEq, Eq)]
pub enum ExecCmd {
    String(String),
    Array(Vec<String>),
}

#[derive(Clone, Debug, PartialEq, Eq)]
pub enum WmCmd {
    ToggleSpaceActivated,
    Exec(ExecCmd),
    NextWorkspace,
    PrevWorkspace,
    SwitchToWorkspace(WorkspaceSelector),
    MoveWindowToWorkspace(WorkspaceSelector),
    CreateWorkspace,
    SwitchToLastWorkspace,
    ShowMissionControlAll,
    ShowMissionControlCurrent,
}

#[derive(Clone, Debug, PartialEq, Eq)]
pub enum WmCommand {
    Wm(WmCmd),
    ReactorCommand(Command),
}

/// The settings that the controller depends on. The hotkeys are given as texts that are equal
/// exactly if the bindings are, if they can be told.
pub struct Settings {
    pub default_disable: bool,
    pub workspace_names: Vec<String>,
    pub keys: Option<String>,
}

pub struct Config {
    /// Whether only the space that the window manager was started in is managed.
    pub one_space: bool,
    pub restore_file: String,
    pub settings: Settings,
}

pub enum WmEvent {
    DiscoverRunningApps,
    AppEventsRegistered,
    AppLaunch(Pid, AppInfo),
    AppThreadTerminated(Pid),
    AppGloballyActivated(Pid),
    AppGloballyDeactivated(Pid),
    AppTerminated(Pid),
    SpaceChanged(Vec<Option<SpaceId>>),
    ScreenParametersChanged(Vec<ScreenId>, Vec<Option<SpaceId>>),
    SystemWoke,
    PowerStateChanged(bool),
    ConfigUpdated(Settings),
    Command(WmCommand),
}

/// What the reactor is told to do with workspaces.
#[derive(Clone, Copy, Debug, PartialEq, Eq, Structural)]
pub enum WorkspaceOrder {
    Next,
    Previous,
    SwitchTo(usize),
    MoveWindowTo(usize),
    Create,
    SwitchToLast,
}

/// What is to be done, in this order.
#[derive(Clone, Copy, Debug, PartialEq, Eq, Structural)]
pub enum WmStep {
    /// Tell the reactor that the system woke.
    TellWoke,
    /// Let mouse events through or not.
    SetEventProcessing(bool),
    /// Look for running applications after so many milliseconds.
    DiscoverAfter(u64),
    /// Let mouse events through so many milliseconds after that.
    EnableEventsAfter(u64),
    /// Take every running application for launched.
    LaunchRunningApps,
    /// Start a thread for an application.
    SpawnApp(Pid),
    /// Keep the cursor hidden if it is.
    EnforceHidden,
    /// Tell the reactor of the spaces that are managed now.
    TellSpaces,
    /// Tell the reactor of the screens and of the spaces that are managed now.
    TellScreens,
    /// Tell the mouse of the screens.
    TellMouse,
    /// Tell the stack lines of the screens.
    TellStackLine,
    TellActivated(Pid),
    TellDeactivated(Pid),
    TellTerminated(Pid),
    TellThreadTerminated(Pid),
    RegisterHotkeys,
    UnregisterHotkeys,
    /// Apply app rules to the windows that show.
    ApplyAppRules,
    DismissMissionControl,
    Workspace(WorkspaceOrder),
    ShowMissionControlAll,
    ShowMissionControlCurrent,
    /// Execute the command line.
    Execute,
    /// Hand the command to the reactor.
    Forward,
}

pub struct WmController {
    pub config: Config,
    pub starting_space: Option<SpaceId>,
    pub cur_space: Vec<Option<SpaceId>>,
    pub cur_screen_id: Vec<ScreenId>,
    pub disabled_spaces: VecSet<SpaceId>,
    pub enabled_spaces: VecSet<SpaceId>,
    pub last_known_space_by_screen: VecMap<ScreenId, SpaceId>,
    pub login_window_pid: Option<Pid>,
    pub login_window_active: bool,
    pub known_apps: VecSet<Pid>,
    pub hotkeys_registered: bool,
    pub screen_params_received: bool,
}

#[verifier::ext_equal]
pub struct Wm {
    pub one_space: bool,
    pub restore_file: Seq<char>,
    pub default_disable: bool,
    pub names: Seq<Seq<char>>,
    pub keys: Option<Seq<char>>,
    pub starting: Option<SpaceId>,
    pub spaces: Seq<Option<SpaceId>>,
    pub screens: Seq<ScreenId>,
    pub disabled: Set<SpaceId>,
    pub enabled: Set<SpaceId>,
    pub last_known: Map<ScreenId, SpaceId>,
    pub login_pid: Option<Pid>,
    pub login_active: bool,
    pub known: Set<Pid>,
    pub hotkeys: bool,
    pub screens_received: bool,
}

impl WmController {
    pub open spec fn view(self) -> Wm {
        Wm {
            one_space: self.config.one_space,
            restore_file: self.config.restore_file@,
            default_disable: self.config.settings.default_disable,
            names: views(self.config.settings.workspace_names@),
            keys: text_view(self.config.settings.keys),
            starting: self.starting_space,
            spaces: self.cur_space@,
            screens: self.cur_screen_id@,
            disabled: self.disabled_spaces@,
            enabled: self.enabled_spaces@,
            last_known: self.last_known_space_by_screen@,
            login_pid: self.login_window_pid,
            login_active: self.login_window_active,
            known: self.known_apps@,
            hotkeys: self.hotkeys_registered,
            screens_received: self.screen_params_received,
        }
    }
}

/// The position of the first of `names` that is `name`, or their number.
pub open spec fn name_index(names: Seq<Seq<char>>, name: Seq<char>) -> int
    decreases names.len(),
{
    if names.len() == 0 {
        0
    } else {
        let i = name_index(names.drop_last(), name);
        if i < names.len() - 1 {
            i
        } else if names.last() == name {
            names.len() - 1
        } else {
            names.len() as int
        }
    }
}

/// The workspace that a selector names.
pub open spec fn selected(names: Seq<Seq<char>>, sel: WorkspaceSelector) -> Option<usize> {
    match sel {
        WorkspaceSelector::Index(i) => Some(i),
        WorkspaceSelector::Name(name) => if name_index(names, name@) < names.len() {
            Some(name_index(names, name@) as usize)
        } else {
            None
        },
    }
}

impl Wm {
    /// Whether windows in a space are managed.
    pub open spec fn manages(self, space: SpaceId) -> bool {
        &&& !self.login_active
        &&& self.one_space ==> self.starting == Some(space)
        &&& !self.disabled.contains(space)
        &&& self.enabled.contains(space) || !self.default_disable
    }

    /// The spaces that show, without those that are not managed.
    pub open spec fn active(self) -> Seq<Option<SpaceId>> {
        self.spaces.map_values(
            |s: Option<SpaceId>|
                if s is Some && self.manages(s->0) {
                    s
                } else {
                    None
                },
        )
    }

    /// What was decided for one space holds for another that took its place.
    pub open spec fn transferred(self, from: SpaceId, to: SpaceId) -> Wm {
        Wm {
            enabled: if self.default_disable && self.enabled.contains(from) {
                self.enabled.remove(from).insert(to)
            } else {
                self.enabled
            },
            disabled: if !self.default_disable && self.disabled.contains(from) {
                self.disabled.remove(from).insert(to)
            } else {
                self.disabled
            },
            starting: if self.starting == Some(from) {
                Some(to)
            } else {
                self.starting
            },
            ..self
        }
    }

    /// A screen shows a space.
    pub open spec fn shown(self, screen: ScreenId, space: Option<SpaceId>) -> Wm {
        match space {
            None => self,
            Some(s) => {
                let moved = if self.last_known.dom().contains(screen) && self.last_known[screen]
                    != s {
                    self.transferred(self.last_known[screen], s)
                } else {
                    self
                };
                Wm { last_known: moved.last_known.insert(screen, s), ..moved }
            },
        }
    }

    /// The first `n` screens show these spaces.
    pub open spec fn all_shown(
        self,
        screens: Seq<ScreenId>,
        spaces: Seq<Option<SpaceId>>,
        n: nat,
    ) -> Wm
        decreases n,
    {
        if n == 0 {
            self
        } else {
            self.all_shown(screens, spaces, (n - 1) as nat).shown(screens[n - 1], spaces[n - 1])
        }
    }

    /// The screens show other spaces; hotkeys follow where only one space is managed.
    pub open spec fn spaces_changed(self, spaces: Seq<Option<SpaceId>>) -> (Wm, Seq<WmStep>) {
        let n = if self.screens.len() < spaces.len() {
            self.screens.len()
        } else {
            spaces.len()
        };
        let next = Wm { spaces, ..self }.all_shown(self.screens, spaces, n);
        if spaces.len() == 0 || spaces[0] is None {
            (next, Seq::empty())
        } else if next.starting is None {
            (
                Wm { starting: spaces[0], hotkeys: true, ..next },
                seq![WmStep::RegisterHotkeys],
            )
        } else if next.one_space {
            if spaces[0] == next.starting {
                (Wm { hotkeys: true, ..next }, seq![WmStep::RegisterHotkeys])
            } else {
                (Wm { hotkeys: false, ..next }, seq![WmStep::UnregisterHotkeys])
            }
        } else {
            (next, Seq::empty())
        }
    }

    /// An application was launched: it gets a thread unless it has one.
    pub open spec fn launched(self, pid: Pid, info: AppInfo) -> (Wm, Seq<WmStep>) {
        let next = Wm {
            login_pid: if info.bundle_id is Some && info.bundle_id->0@ == login_bundle() {
                Some(pid)
            } else {
                self.login_pid
            },
            ..self
        };
        if self.known.contains(pid) {
            (next, Seq::empty())
        } else {
            (Wm { known: self.known.insert(pid), ..next }, seq![WmStep::SpawnApp(pid)])
        }
    }

    /// Whether the focused space is managed as far as the user decided.
    pub open spec fn is_enabled(self, space: SpaceId) -> bool {
        if self.default_disable {
            self.enabled.contains(space)
        } else {
            !self.disabled.contains(space)
        }
    }

    /// The space that the screen `main` shows.
    pub open spec fn focused(self, main: Option<ScreenId>) -> Option<SpaceId> {
        match main {
            None => None,
            Some(id) => space_on(self.screens, self.spaces, id),
        }
    }

    /// The focused space is managed from now on.
    pub open spec fn toggled(self, main: Option<ScreenId>) -> (Wm, Seq<WmStep>) {
        match self.focused(main) {
            None => (self, Seq::empty()),
            Some(space) => if self.is_enabled(space) {
                (self, seq![WmStep::ApplyAppRules])
            } else {
                (
                    Wm {
                        enabled: if self.default_disable {
                            self.enabled.insert(space)
                        } else {
                            self.enabled
                        },
                        disabled: if self.default_disable {
                            self.disabled
                        } else {
                            self.disabled.remove(space)
                        },
                        ..self
                    },
                    seq![WmStep::TellSpaces, WmStep::ApplyAppRules],
                )
            },
        }
    }

    pub open spec fn command_steps(self, cmd: WmCmd) -> Seq<WmStep> {
        match cmd {
            WmCmd::NextWorkspace => seq![
                WmStep::DismissMissionControl,
                WmStep::Workspace(WorkspaceOrder::Next),
            ],
            WmCmd::PrevWorkspace => seq![
                WmStep::DismissMissionControl,
                WmStep::Workspace(WorkspaceOrder::Previous),
            ],
            WmCmd::SwitchToWorkspace(sel) => match selected(self.names, sel) {
                Some(i) => seq![
                    WmStep::DismissMissionControl,
                    WmStep::Workspace(WorkspaceOrder::SwitchTo(i)),
                ],
                None => Seq::empty(),
            },
            WmCmd::MoveWindowToWorkspace(sel) => match selected(self.names, sel) {
                Some(i) => seq![WmStep::Workspace(WorkspaceOrder::MoveWindowTo(i))],
                None => Seq::empty(),
            },
            WmCmd::CreateWorkspace => seq![WmStep::Workspace(WorkspaceOrder::Create)],
            WmCmd::SwitchToLastWorkspace => seq![
                WmStep::DismissMissionControl,
                WmStep::Workspace(WorkspaceOrder::SwitchToLast),
            ],
            WmCmd::ShowMissionControlAll => seq![WmStep::ShowMissionControlAll],
            WmCmd::ShowMissionControlCurrent => seq![WmStep::ShowMissionControlCurrent],
            WmCmd::Exec(_) => seq![WmStep::Execute],
            WmCmd::ToggleSpaceActivated => Seq::empty(),
        }
    }

    /// What an event leads to; `main` is the screen that has the focus.
    pub open spec fn after(self, event: WmEvent, main: Option<ScreenId>) -> (Wm, Seq<WmStep>) {
        match event {
            WmEvent::SystemWoke => (self, seq![WmStep::TellWoke]),
            WmEvent::AppEventsRegistered => (
                self,
                seq![
                    WmStep::SetEventProcessing(false),
                    WmStep::DiscoverAfter(250),
                    WmStep::EnableEventsAfter(350),
                ],
            ),
            WmEvent::DiscoverRunningApps => if self.screens_received {
                (self, seq![WmStep::LaunchRunningApps])
            } else {
                (self, seq![WmStep::DiscoverAfter(200)])
            },
            WmEvent::AppLaunch(pid, info) => self.launched(pid, info),
            WmEvent::AppGloballyActivated(pid) => if self.login_pid == Some(pid) {
                (
                    Wm { login_active: true, ..self },
                    seq![WmStep::EnforceHidden, WmStep::TellSpaces, WmStep::TellActivated(pid)],
                )
            } else {
                (self, seq![WmStep::EnforceHidden, WmStep::TellActivated(pid)])
            },
            WmEvent::AppGloballyDeactivated(pid) => if self.login_pid == Some(pid) {
                (
                    Wm { login_active: false, ..self },
                    seq![WmStep::TellSpaces, WmStep::TellDeactivated(pid)],
                )
            } else {
                (self, seq![WmStep::TellDeactivated(pid)])
            },
            WmEvent::AppTerminated(pid) => (
                Wm { known: self.known.remove(pid), ..self },
                seq![WmStep::TellTerminated(pid)],
            ),
            WmEvent::AppThreadTerminated(pid) => (
                Wm { known: self.known.remove(pid), ..self },
                seq![WmStep::TellThreadTerminated(pid)],
            ),
            WmEvent::ConfigUpdated(settings) => {
                let next = Wm {
                    default_disable: settings.default_disable,
                    names: views(settings.workspace_names@),
                    keys: text_view(settings.keys),
                    ..self
                };
                if self.keys is Some && text_view(settings.keys) == self.keys {
                    (next, Seq::empty())
                } else {
                    (
                        Wm { hotkeys: true, ..next },
                        seq![WmStep::UnregisterHotkeys, WmStep::RegisterHotkeys],
                    )
                }
            },
            WmEvent::ScreenParametersChanged(ids, spaces) => {
                let r = Wm { screens_received: true, screens: ids@, ..self }.spaces_changed(
                    spaces@,
                );
                (
                    r.0,
                    r.1 + seq![WmStep::TellScreens, WmStep::TellMouse, WmStep::TellStackLine],
                )
            },
            WmEvent::SpaceChanged(spaces) => {
                let r = self.spaces_changed(spaces@);
                (r.0, r.1 + seq![WmStep::TellSpaces])
            },
            WmEvent::PowerStateChanged(_) => (self, Seq::empty()),
            WmEvent::Command(WmCommand::Wm(cmd)) => if cmd is ToggleSpaceActivated {
                self.toggled(main)
            } else {
                (self, self.command_steps(cmd))
            },
            WmEvent::Command(WmCommand::ReactorCommand(_)) => (self, seq![WmStep::Forward]),
        }
    }
}

/// The space that the first screen numbered `id` shows.
pub open spec fn space_on(
    screens: Seq<ScreenId>,
    spaces: Seq<Option<SpaceId>>,
    id: ScreenId,
) -> Option<SpaceId>
    decreases screens.len(),
{
    if screens.len() == 0 || spaces.len() == 0 {
        None
    } else if screens[0] == id {
        spaces[0]
    } else {
        space_on(screens.drop_first(), spaces.drop_first(), id)
    }
}

fn find_name(names: &Vec<String>, name: &str) -> (r: Option<usize>)
    ensures
        r == (if name_index(views(names@), name@) < names@.len() {
            Some(name_index(views(names@), name@) as usize)
        } else {
            None
        }),
{
    let mut r: Option<usize> = None;
    let mut i: usize = 0;
    while i < names.len()
        invariant
            i <= names@.len(),
            match r {
                Some(k) => k < i && name_index(views(names@).take(i as int), name@) == k,
                None => name_index(views(names@).take(i as int), name@) == i,
            },
        decreases names@.len() - i,
    {
        assert(views(names@).take(i + 1).drop_last() =~= views(names@).take(i as int));
        assert(views(names@).take(i + 1).last() == names@[i as int]@);
        if r.is_none() && same_text(names[i].as_str(), name) {
            r = Some(i);
        }
        i = i + 1;
    }
    assert(views(names@).take(i as int) =~= views(names@));
    r
}

impl WmController {
    pub fn new(config: Config) -> (r: WmController)
        ensures
            r@ == (Wm {
                one_space: config.one_space,
                restore_file: config.restore_file@,
                default_disable: config.settings.default_disable,
                names: views(config.settings.workspace_names@),
                keys: text_view(config.settings.keys),
                starting: None,
                spaces: Seq::empty(),
                screens: Seq::empty(),
                disabled: Set::empty(),
                enabled: Set::empty(),
                last_known: Map::empty(),
                login_pid: None,
                login_active: false,
                known: Set::empty(),
                hotkeys: false,
                screens_received: false,
            }),
    {
        WmController {
            config,
            starting_space: None,
            cur_space: Vec::new(),
            cur_screen_id: Vec::new(),
            disabled_spaces: VecSet::new(),
            enabled_spaces: VecSet::new(),
            last_known_space_by_screen: VecMap::new(),
            login_window_pid: None,
            login_window_active: false,
            known_apps: VecSet::new(),
            hotkeys_registered: false,
            screen_params_received: false,
        }
    }

    fn transfer_space_activation(&mut self, from: SpaceId, to: SpaceId)
        ensures
            final(self)@ == old(self)@.transferred(from, to),
    {
        if self.config.settings.default_disable {
            if self.enabled_spaces.remove(&from) {
                let _ = self.enabled_spaces.insert(to);
            } else {
                assert(self@.enabled =~= old(self)@.enabled);
            }
        } else if self.disabled_spaces.remove(&from) {
            let _ = self.disabled_spaces.insert(to);
        } else {
            assert(self@.disabled =~= old(self)@.disabled);
        }
        if self.starting_space == Some(from) {
            self.starting_space = Some(to);
        }
    }

    /// The screens show other spaces.
    pub fn handle_space_changed(&mut self, spaces: Vec<Option<SpaceId>>) -> (r: Vec<WmStep>)
        ensures
            (final(self)@, r@) == old(self)@.spaces_changed(spaces@),
    {
        let mut steps: Vec<WmStep> = Vec::new();
        let ghost before = Wm { spaces: spaces@, ..self@ };
        let mut i: usize = 0;
        let screens = copied(&self.cur_screen_id);
        self.cur_space = copied(&spaces);
        assert(self@ == before);
        while i < screens.len() && i < spaces.len()
            invariant
                i <= screens@.len(),
                i <= spaces@.len(),
                self@ == before.all_shown(screens@, spaces@, i as nat),
            decreases screens@.len() - i,
        {
            let screen: ScreenId = screens[i];
            match spaces[i] {
                Some(space) => {
                    match self.last_known_space_by_screen.get(&screen) {
                        Some(previous) => {
                            let previous: SpaceId = *previous;
                            if previous != space {
                                self.transfer_space_activation(previous, space);
                            }
                        },
                        None => {},
                    }
                    let _ = self.last_known_space_by_screen.insert(screen, space);
                },
                None => {},
            }
            i = i + 1;
        }
        if spaces.len() == 0 {
            return steps;
        }
        match spaces[0] {
            Some(space) => {
                if self.starting_space.is_none() {
                    self.starting_space = Some(space);
                    self.hotkeys_registered = true;
                    steps.push(WmStep::RegisterHotkeys);
                    assert(steps@ =~= seq![WmStep::RegisterHotkeys]);
                } else if self.config.one_space {
                    if self.starting_space == Some(space) {
                        self.hotkeys_registered = true;
                        steps.push(WmStep::RegisterHotkeys);
                        assert(steps@ =~= seq![WmStep::RegisterHotkeys]);
                    } else {
                        self.hotkeys_registered = false;
                        steps.push(WmStep::UnregisterHotkeys);
                        assert(steps@ =~= seq![WmStep::UnregisterHotkeys]);
                    }
                }
            },
            None => {},
        }
        steps
    }

    fn is_managed(&self, space: SpaceId) -> (r: bool)
        ensures
            r == self@.manages(space),
    {
        if self.login_window_active {
            false
        } else if self.config.one_space && self.starting_space != Some(space) {
            false
        } else if self.disabled_spaces.contains(&space) {
            false
        } else {
            self.enabled_spaces.contains(&space) || !self.config.settings.default_disable
        }
    }

    /// The spaces that show, without those that are not managed.
    pub fn active_spaces(&self) -> (r: Vec<Option<SpaceId>>)
        ensures
            r@ == self@.active(),
    {
        let mut r: Vec<Option<SpaceId>> = Vec::new();
        let mut i: usize = 0;
        while i < self.cur_space.len()
            invariant
                i <= self.cur_space@.len(),
                r@.len() == i,
                forall|j: int| 0 <= j < i ==> r@[j] == self@.active()[j],
            decreases self.cur_space@.len() - i,
        {
            r.push(
                match self.cur_space[i] {
                    Some(space) => if self.is_managed(space) {
                        Some(space)
                    } else {
                        None
                    },
                    None => None,
                },
            );
            i = i + 1;
        }
        assert(r@ =~= self@.active());
        r
    }

    /// An application was launched: it gets a thread unless it has one.
    pub fn new_app(&mut self, pid: Pid, info: &AppInfo) -> (r: Vec<WmStep>)
        ensures
            (final(self)@, r@) == old(self)@.launched(pid, *info),
    {
        let mut steps: Vec<WmStep> = Vec::new();
        if is_text(&info.bundle_id, "com.apple.loginwindow") {
            self.login_window_pid = Some(pid);
        }
        if self.known_apps.contains(&pid) {
            return steps;
        }
        let _ = self.known_apps.insert(pid);
        steps.push(WmStep::SpawnApp(pid));
        assert(steps@ =~= seq![WmStep::SpawnApp(pid)]);
        steps
    }

    /// The space that the screen `main` shows.
    pub fn get_focused_space(&self, main: Option<ScreenId>) -> (r: Option<SpaceId>)
        ensures
            r == self@.focused(main),
    {
        let id: ScreenId = match main {
            Some(id) => id,
            None => {
                return None;
            },
        };
        let mut i: usize = 0;
        assert(self.cur_screen_id@.skip(0) =~= self.cur_screen_id@);
        assert(self.cur_space@.skip(0) =~= self.cur_space@);
        while i < self.cur_screen_id.len() && i < self.cur_space.len()
            invariant
                main == Some(id),
                i <= self.cur_screen_id@.len(),
                i <= self.cur_space@.len(),
                space_on(self.cur_screen_id@, self.cur_space@, id) == space_on(
                    self.cur_screen_id@.skip(i as int),
                    self.cur_space@.skip(i as int),
                    id,
                ),
            decreases self.cur_screen_id@.len() - i,
        {
            if self.cur_screen_id[i] == id {
                return self.cur_space[i];
            }
            assert(self.cur_screen_id@.skip(i as int).drop_first() =~= self.cur_screen_id@.skip(
                i + 1,
            ));
            assert(self.cur_space@.skip(i as int).drop_first() =~= self.cur_space@.skip(i + 1));
            i = i + 1;
        }
        None
    }

    fn toggle_space(&mut self, main: Option<ScreenId>) -> (r: Vec<WmStep>)
        ensures
            (final(self)@, r@) == old(self)@.toggled(main),
    {
        let mut steps: Vec<WmStep> = Vec::new();
        let space: SpaceId = match self.get_focused_space(main) {
            Some(space) => space,
            None => {
                return steps;
            },
        };
        let default_disable = self.config.settings.default_disable;
        let enabled: bool = if default_disable {
            self.enabled_spaces.contains(&space)
        } else {
            !self.disabled_spaces.contains(&space)
        };
        if !enabled {
            if default_disable {
                let _ = self.enabled_spaces.insert(space);
            } else {
                let _ = self.disabled_spaces.remove(&space);
            }
            steps.push(WmStep::TellSpaces);
        }
        steps.push(WmStep::ApplyAppRules);
        assert(steps@ =~= old(self)@.toggled(main).1);
        steps
    }

    fn select_workspace(&self, sel: &WorkspaceSelector) -> (r: Option<usize>)
        ensures
            r == selected(self@.names, *sel),
    {
        match sel {
            WorkspaceSelector::Index(i) => Some(*i),
            WorkspaceSelector::Name(name) => find_name(
                &self.config.settings.workspace_names,
                name.as_str(),
            ),
        }
    }

    fn run_command(&self, cmd: &WmCmd) -> (r: Vec<WmStep>)
        ensures
            r@ == self@.command_steps(*cmd),
    {
        let mut steps: Vec<WmStep> = Vec::new();
        match cmd {
            WmCmd::NextWorkspace => {
                steps.push(WmStep::DismissMissionControl);
                steps.push(WmStep::Workspace(WorkspaceOrder::Next));
            },
            WmCmd::PrevWorkspace => {
                steps.push(WmStep::DismissMissionControl);
                steps.push(WmStep::Workspace(WorkspaceOrder::Previous));
            },
            WmCmd::SwitchToWorkspace(sel) => {
                match self.select_workspace(sel) {
                    Some(i) => {
                        steps.push(WmStep::DismissMissionControl);
                        steps.push(WmStep::Workspace(WorkspaceOrder::SwitchTo(i)));
                    },
                    None => {},
                }
            },
            WmCmd::MoveWindowToWorkspace(sel) => {
                match self.select_workspace(sel) {
                    Some(i) => {
                        steps.push(WmStep::Workspace(WorkspaceOrder::MoveWindowTo(i)));
                    },
                    None => {},
                }
            },
            WmCmd::CreateWorkspace => {
                steps.push(WmStep::Workspace(WorkspaceOrder::Create));
            },
            WmCmd::SwitchToLastWorkspace => {
                steps.push(WmStep::DismissMissionControl);
                steps.push(WmStep::Workspace(WorkspaceOrder::SwitchToLast));
            },
            WmCmd::ShowMissionControlAll => {
                steps.push(WmStep::ShowMissionControlAll);
            },
            WmCmd::ShowMissionControlCurrent => {
                steps.push(WmStep::ShowMissionControlCurrent);
            },
            WmCmd::Exec(_) => {
                steps.push(WmStep::Execute);
            },
            WmCmd::ToggleSpaceActivated => {},
        }
        assert(steps@ =~= self@.command_steps(*cmd));
        steps
    }

    fn update_config(&mut self, settings: Settings) -> (r: Vec<WmStep>)
        ensures
            (final(self)@, r@) == old(self)@.after(WmEvent::ConfigUpdated(settings), None),
    {
        let mut steps: Vec<WmStep> = Vec::new();
        let unchanged: bool = match (&self.config.settings.keys, &settings.keys) {
            (Some(a), Some(b)) => same_text(a.as_str(), b.as_str()),
            _ => false,
        };
        self.config.settings = settings;
        if !unchanged {
            steps.push(WmStep::UnregisterHotkeys);
            steps.push(WmStep::RegisterHotkeys);
            self.hotkeys_registered = true;
        }
        assert(steps@ =~= old(self)@.after(WmEvent::ConfigUpdated(settings), None).1);
        steps
    }

    /// Handles an event; `main` is the screen that has the focus. The result is what is to be
    /// done, in this order.
    pub fn handle_event(&mut self, event: WmEvent, main: Option<ScreenId>) -> (r: Vec<WmStep>)
        ensures
            (final(self)@, r@) == old(self)@.after(event, main),
    {
        let mut steps: Vec<WmStep> = Vec::new();
        match event {
            WmEvent::SystemWoke => {
                steps.push(WmStep::TellWoke);
            },
            WmEvent::AppEventsRegistered => {
                steps.push(WmStep::SetEventProcessing(false));
                steps.push(WmStep::DiscoverAfter(250));
                steps.push(WmStep::EnableEventsAfter(350));
            },
            WmEvent::DiscoverRunningApps => {
                if self.screen_params_received {
                    steps.push(WmStep::LaunchRunningApps);
                } else {
                    steps.push(WmStep::DiscoverAfter(200));
                }
            },
            WmEvent::AppLaunch(pid, info) => {
                return self.new_app(pid, &info);
            },
            WmEvent::AppGloballyActivated(pid) => {
                steps.push(WmStep::EnforceHidden);
                if self.login_window_pid == Some(pid) {
                    self.login_window_active = true;
                    steps.push(WmStep::TellSpaces);
                }
                steps.push(WmStep::TellActivated(pid));
            },
            WmEvent::AppGloballyDeactivated(pid) => {
                if self.login_window_pid == Some(pid) {
                    self.login_window_active = false;
                    steps.push(WmStep::TellSpaces);
                }
                steps.push(WmStep::TellDeactivated(pid));
            },
            WmEvent::AppTerminated(pid) => {
                let _ = self.known_apps.remove(&pid);
                steps.push(WmStep::TellTerminated(pid));
            },
            WmEvent::AppThreadTerminated(pid) => {
                let _ = self.known_apps.remove(&pid);
                steps.push(WmStep::TellThreadTerminated(pid));
            },
            WmEvent::ConfigUpdated(settings) => {
                return self.update_config(settings);
            },
            WmEvent::ScreenParametersChanged(ids, spaces) => {
                self.screen_params_received = true;
                self.cur_screen_id = ids;
                steps = self.handle_space_changed(spaces);
                steps.push(WmStep::TellScreens);
                steps.push(WmStep::TellMouse);
                steps.push(WmStep::TellStackLine);
            },
            WmEvent::SpaceChanged(spaces) => {
                steps = self.handle_space_changed(spaces);
                steps.push(WmStep::TellSpaces);
            },
            WmEvent::PowerStateChanged(_) => {},
            WmEvent::Command(command) => {
                match command {
                    WmCommand::Wm(cmd) => {
                        match cmd {
                            WmCmd::ToggleSpaceActivated => {
                                return self.toggle_space(main);
                            },
                            _ => {
                                return self.run_command(&cmd);
                            },
                        }
                    },
                    WmCommand::ReactorCommand(_) => {
                        steps.push(WmStep::Forward);
                    },
                }
            },
        }
        assert(steps@ =~= old(self)@.after(event, main).1);
        steps
    }
}

impl ExecCmd {
    /// The words of the command line.
    pub open spec fn words(self) -> Seq<Seq<char>> {
        match self {
            ExecCmd::Array(v) => views(v@),
            ExecCmd::String(s) => split(s@, ' '),
        }
    }

    pub fn as_array(&self) -> (r: Vec<String>)
        ensures
            views(r@) == self.words(),
    {
        match self {
            ExecCmd::Array(v) => {
                let mut r: Vec<String> = Vec::new();
                let mut i: usize = 0;
                while i < v.len()
                    invariant
                        i <= v@.len(),
                        r@.len() == i,
                        forall|j: int| 0 <= j < i ==> (#[trigger] r@[j])@ == v@[j]@,
                    decreases v@.len() - i,
                {
                    r.push(v[i].clone());
                    i = i + 1;
                }
                assert(views(r@) =~= views(v@));
                r
            },
            ExecCmd::String(s) => split_text(s.as_str(), ' '),
        }
    }
}

/// The windows among `all` that are in `allowed`.
pub open spec fn allowed_windows(all: Seq<WindowServerInfo>, allowed: Set<WindowServerId>) -> Seq<
    WindowServerInfo,
>
    decreases all.len(),
{
    if all.len() == 0 {
        Seq::empty()
    } else {
        let head = allowed_windows(all.drop_last(), allowed);
        if allowed.contains(all.last().id) {
            head.push(all.last())
        } else {
            head
        }
    }
}

/// The windows that show in the spaces that are managed. Where no space is managed, or the window
/// server names no window for them, all windows count: it can do so for a moment while displays
/// are rearranged.
pub fn get_windows(
    all: &Vec<WindowServerInfo>,
    active: &Vec<Option<SpaceId>>,
    allowed: &VecSet<WindowServerId>,
) -> (r: Vec<WindowServerInfo>)
    ensures
        r@ == (if (forall|i: int| 0 <= i < active@.len() ==> (#[trigger] active@[i]) is None)
            || allowed@ == Set::<WindowServerId>::empty() {
            all@
        } else {
            allowed_windows(all@, allowed@)
        }),
{
    let mut any: bool = false;
    let mut i: usize = 0;
    while i < active.len()
        invariant
            i <= active@.len(),
            !any ==> forall|j: int| 0 <= j < i ==> (#[trigger] active@[j]) is None,
            any ==> exists|j: int| 0 <= j < i && (#[trigger] active@[j]) is Some,
        decreases active@.len() - i,
    {
        if active[i].is_some() {
            any = true;
            assert(active@[i as int] is Some);
        }
        i = i + 1;
    }
    if !any || allowed.is_empty() {
        return copied(all);
    }
    let mut r: Vec<WindowServerInfo> = Vec::new();
    let mut k: usize = 0;
    while k < all.len()
        invariant
            k <= all@.len(),
            r@ == allowed_windows(all@.take(k as int), allowed@),
        decreases all@.len() - k,
    {
        assert(all@.take(k + 1).drop_last() =~= all@.take(k as int));
        if allowed.contains(&all[k].id) {
            r.push(all[k]);
        }
        k = k + 1;
    }
    assert(all@.take(k as int) =~= all@);
    r
}

/// The windows of one application, to which app rules are applied.
#[derive(Clone, Debug, PartialEq, Eq)]
pub struct AppRuleBatch {
    pub pid: Pid,
    pub windows: Vec<WindowServerInfo>,
}

/// The owners of `windows` of which something is known, each once.
pub open spec fn known_owners(windows: Seq<WindowServerInfo>, known: Set<Pid>) -> Seq<Pid>
    decreases windows.len(),
{
    if windows.len() == 0 {
        Seq::empty()
    } else {
        let head = known_owners(windows.drop_last(), known);
        let pid = windows.last().pid;
        if known.contains(pid) && !head.contains(pid) {
            head.push(pid)
        } else {
            head
        }
    }
}

/// The windows that `pid` owns, in order.
pub open spec fn owned_by(windows: Seq<WindowServerInfo>, pid: Pid) -> Seq<WindowServerInfo>
    decreases windows.len(),
{
    if windows.len() == 0 {
        Seq::empty()
    } else {
        let head = owned_by(windows.drop_last(), pid);
        if windows.last().pid == pid {
            head.push(windows.last())
        } else {
            head
        }
    }
}

fn collect_owned(windows: &Vec<WindowServerInfo>, pid: Pid) -> (r: Vec<WindowServerInfo>)
    ensures
        r@ == owned_by(windows@, pid),
{
    let mut r: Vec<WindowServerInfo> = Vec::new();
    let mut i: usize = 0;
    assert(windows@.take(0) =~= Seq::<WindowServerInfo>::empty());
    while i < windows.len()
        invariant
            i <= windows@.len(),
            r@ == owned_by(windows@.take(i as int), pid),
        decreases windows@.len() - i,
    {
        proof {
            assert(windows@.take(i + 1).drop_last() =~= windows@.take(i as int));
        }
        if windows[i].pid == pid {
            r.push(windows[i]);
        }
        i = i + 1;
    }
    assert(windows@.take(i as int) =~= windows@);
    r
}

/// The windows that show, by application; those of applications of which nothing is known are
/// left out.
pub fn apply_app_rules_to_existing_windows(
    windows: &Vec<WindowServerInfo>,
    known: &VecSet<Pid>,
) -> (r: Vec<AppRuleBatch>)
    ensures
        r@.len() == known_owners(windows@, known@).len(),
        forall|i: int|
            0 <= i < r@.len() ==> (#[trigger] r@[i]).pid == known_owners(windows@, known@)[i]
                && r@[i].windows@ == owned_by(windows@, r@[i].pid),
{
    let mut pids: Vec<Pid> = Vec::new();
    let mut i: usize = 0;
    assert(windows@.take(0) =~= Seq::<WindowServerInfo>::empty());
    while i < windows.len()
        invariant
            i <= windows@.len(),
            pids@ == known_owners(windows@.take(i as int), known@),
        decreases windows@.len() - i,
    {
        proof {
            assert(windows@.take(i + 1).drop_last() =~= windows@.take(i as int));
        }
        let pid: Pid = windows[i].pid;
        if known.contains(&pid) && !contains(&pids, &pid) {
            pids.push(pid);
        }
        i = i + 1;
    }
    assert(windows@.take(i as int) =~= windows@);
    let mut r: Vec<AppRuleBatch> = Vec::new();
    let mut k: usize = 0;
    while k < pids.len()
        invariant
            k <= pids@.len(),
            r@.len() == k,
            forall|j: int|
                0 <= j < k ==> (#[trigger] r@[j]).pid == pids@[j] && r@[j].windows@ == owned_by(
                    windows@,
                    r@[j].pid,
                ),
        decreases pids@.len() - k,
    {
        r.push(AppRuleBatch { pid: pids[k], windows: collect_owned(windows, pids[k]) });
        k = k + 1;
    }
    r
}

/// While the login window is active no space is managed.
pub proof fn the_login_window_disables_all_spaces(wm: Wm, i: int)
    requires
        wm.login_active,
        0 <= i < wm.spaces.len(),
    ensures
        wm.active()[i] is None,
{
}

/// An application that has a thread gets no second one, and gets a new one once the first ended.
pub proof fn applications_get_one_thread(wm: Wm, pid: Pid, info: AppInfo, main: Option<ScreenId>)
    ensures
        wm.launched(pid, info).0.launched(pid, info).1.len() == 0,
        wm.after(WmEvent::AppThreadTerminated(pid), main).0.launched(pid, info).1 == seq![
            WmStep::SpawnApp(pid),
        ],
{
}

/// When the system numbers the space of a screen anew, what was decided for it is kept.
pub proof fn activation_moves_with_the_space(wm: Wm, from: SpaceId, to: SpaceId)
    requires
        from != to,
        !wm.enabled.contains(to),
        !wm.disabled.contains(to),
    ensures
        wm.transferred(from, to).is_enabled(to) == wm.is_enabled(from),
        wm.starting == Some(from) ==> wm.transferred(from, to).starting == Some(to),
{
}

/// After the focused space was toggled it is managed, unless the login window is active, only
/// another space is managed, or both sets disagree about it.
pub proof fn a_toggled_space_is_managed(wm: Wm, main: Option<ScreenId>)
    requires
        wm.focused(main) is Some,
        !wm.login_active,
        wm.one_space ==> wm.starting == wm.focused(main),
        wm.default_disable ==> !wm.disabled.contains(wm.focused(main)->0),
    ensures
        wm.toggled(main).0.manages(wm.focused(main)->0),
        wm.toggled(main).1.last() == WmStep::ApplyAppRules,
{
}

/// Words that were given one by one are used as they are.
pub proof fn words_are_kept(words: Vec<String>)
    ensures
        ExecCmd::Array(words).words() == views(words@),
{
}

/// A text never has fewer than one word.
pub proof fn a_command_line_has_a_word(text: String)
    ensures
        ExecCmd::String(text).words().len() >= 1,
{
    crate::text::split_is_never_empty(text@, ' ');
}

proof fn lemma_known_owners(windows: Seq<WindowServerInfo>, known: Set<Pid>)
    ensures
        known_owners(windows, known).no_duplicates(),
        forall|p: Pid| #[trigger]
            known_owners(windows, known).contains(p) <==> known.contains(p) && exists|i: int|
                0 <= i < windows.len() && (#[trigger] windows[i]).pid == p,
    decreases windows.len(),
{
    if windows.len() > 0 {
        let rest = windows.drop_last();
        let head = known_owners(rest, known);
        let pid = windows.last().pid;
        lemma_known_owners(rest, known);
        crate::collections::lemma_push_contains(head, pid);
        if known.contains(pid) && !head.contains(pid) {
            crate::collections::lemma_push_new(head, pid);
        }
        assert forall|p: Pid| #[trigger]
            known_owners(windows, known).contains(p) <==> known.contains(p) && exists|i: int|
                0 <= i < windows.len() && (#[trigger] windows[i]).pid == p by {
            if head.contains(p) {
                let i = choose|i: int| 0 <= i < rest.len() && (#[trigger] rest[i]).pid == p;
                assert(windows[i].pid == p);
            }
            if p == pid {
                assert(windows[windows.len() - 1].pid == p);
            }
            if known.contains(p) && (exists|i: int|
                0 <= i < windows.len() && (#[trigger] windows[i]).pid == p) {
                let i = choose|i: int| 0 <= i < windows.len() && (#[trigger] windows[i]).pid == p;
                if i < rest.len() {
                    assert(rest[i].pid == p);
                }
            }
        }
    }
}

/// App rules are applied to each known application that has a window, and to it once.
pub proof fn rules_are_applied_once(windows: Seq<WindowServerInfo>, known: Set<Pid>)
    ensures
        known_owners(windows, known).no_duplicates(),
        forall|i: int|
            0 <= i < windows.len() ==> (known.contains((#[trigger] windows[i]).pid)
                <==> known_owners(windows, known).contains(windows[i].pid)),
{
    lemma_known_owners(windows, known);
}

/// A workspace is chosen by its place, or by the first place at which its name stands; a name that
/// no workspace has chooses none.
pub proof fn workspaces_are_chosen_by_place_or_name(
    names: Seq<Seq<char>>,
    name: String,
    i: int,
    place: usize,
)
    requires
        names.len() <= usize::MAX,
    ensures
        selected(names, WorkspaceSelector::Index(place)) == Some(place),
        0 <= i < names.len() && names[i] == name@ && (forall|j: int|
            0 <= j < i ==> #[trigger] names[j] != name@) ==> selected(
            names,
            WorkspaceSelector::Name(name),
        ) == Some(i as usize),
        !names.contains(name@) ==> selected(names, WorkspaceSelector::Name(name)) is None,
{
    lemma_name_index(names, name@);
    if 0 <= i < names.len() && names[i] == name@ && (forall|j: int|
        0 <= j < i ==> #[trigger] names[j] != name@) {
        let k = name_index(names, name@);
        if k < i {
            assert(names[k] != name@);
        }
    }
    if !names.contains(name@) && name_index(names, name@) < names.len() {
        assert(names[name_index(names, name@)] == name@);
    }
}

proof fn lemma_name_index(names: Seq<Seq<char>>, name: Seq<char>)
    ensures
        0 <= name_index(names, name) <= names.len(),
        name_index(names, name) < names.len() ==> names[name_index(names, name)] == name,
        forall|j: int| 0 <= j < name_index(names, name) ==> #[trigger] names[j] != name,
    decreases names.len(),
{
    if names.len() > 0 {
        let head = names.drop_last();
        lemma_name_index(head, name);
        assert(forall|j: int| 0 <= j < head.len() ==> head[j] == names[j]);
        assert(names[names.len() - 1] == names.last());
        let k = name_index(names, name);
        assert forall|j: int| 0 <= j < k implies #[trigger] names[j] != name by {
            if j < head.len() {
                assert(head[j] != name);
            }
        }
    }
}

/// A space is managed unless the login window shows, it is not the one space that is managed, it
/// was disabled, or spaces are disabled by default and it was not enabled. Screens show exactly the
/// spaces that are managed.
pub proof fn spaces_are_managed_unless_switched_off(wm: Wm, space: SpaceId, i: int)
    ensures
        wm.login_active || wm.disabled.contains(space) ==> !wm.manages(space),
        wm.one_space && wm.starting != Some(space) ==> !wm.manages(space),
        wm.default_disable && !wm.enabled.contains(space) ==> !wm.manages(space),
        !wm.login_active && !wm.disabled.contains(space) && (!wm.one_space || wm.starting == Some(
            space,
        )) && (!wm.default_disable || wm.enabled.contains(space)) ==> wm.manages(space),
        wm.active().len() == wm.spaces.len(),
        0 <= i < wm.spaces.len() ==> wm.active()[i] == (if wm.spaces[i] is Some && wm.manages(
            wm.spaces[i]->0,
        ) {
            wm.spaces[i]
        } else {
            None
        }),
        wm.is_enabled(space) == (if wm.default_disable {
            wm.enabled.contains(space)
        } else {
            !wm.disabled.contains(space)
        }),
{
}

/// Whether a space is on is handed over to the one that takes its place, and to no other.
pub proof fn activation_is_handed_over(wm: Wm, from: SpaceId, to: SpaceId, other: SpaceId)
    requires
        from != to,
        other != from,
        other != to,
    ensures
        ({
            let n = wm.transferred(from, to);
            &&& n.enabled.contains(other) == wm.enabled.contains(other)
            &&& n.disabled.contains(other) == wm.disabled.contains(other)
            &&& wm.default_disable && wm.enabled.contains(from) ==> n.enabled.contains(to)
                && !n.enabled.contains(from)
            &&& !wm.default_disable && wm.disabled.contains(from) ==> n.disabled.contains(to)
                && !n.disabled.contains(from)
            &&& wm.starting != Some(from) ==> n.starting == wm.starting
            &&& n.spaces == wm.spaces && n.known == wm.known
        }),
{
}

/// Each screen is remembered by the space that it shows last; a screen that shows none keeps its.
pub proof fn screens_are_remembered_by_their_space(wm: Wm, screen: ScreenId, space: SpaceId)
    ensures
        wm.shown(screen, Some(space)).last_known.dom().contains(screen),
        wm.shown(screen, Some(space)).last_known[screen] == space,
        wm.shown(screen, None) == wm,
        !wm.last_known.dom().contains(screen) || wm.last_known[screen] == space ==> wm.shown(
            screen,
            Some(space),
        ).enabled == wm.enabled && wm.shown(screen, Some(space)).disabled == wm.disabled,
        wm.last_known.dom().contains(screen) && wm.last_known[screen] != space ==> wm.shown(
            screen,
            Some(space),
        ).enabled == wm.transferred(wm.last_known[screen], space).enabled,
{
}

/// The first space that shows is the one that the program starts in, and registers the hotkeys;
/// where only that space is managed, they are registered exactly while it shows.
pub proof fn hotkeys_follow_the_starting_space(wm: Wm, spaces: Seq<Option<SpaceId>>)
    ensures
        ({
            let (n, steps) = wm.spaces_changed(spaces);
            let none = spaces.len() == 0 || spaces[0] is None;
            &&& n.spaces == spaces
            &&& none ==> steps.len() == 0
            &&& steps.len() <= 1
            &&& steps.len() == 1 ==> (n.hotkeys <==> steps[0] == WmStep::RegisterHotkeys) && (
            !n.hotkeys <==> steps[0] == WmStep::UnregisterHotkeys)
            &&& !none ==> n.starting is Some
            &&& !none && n.one_space ==> (steps =~= seq![WmStep::RegisterHotkeys]) == (n.starting
                == spaces[0])
            &&& !none && n.one_space && n.starting != spaces[0] ==> steps =~= seq![
                WmStep::UnregisterHotkeys,
            ]
        }),
{
    let n = if wm.screens.len() < spaces.len() {
        wm.screens.len()
    } else {
        spaces.len()
    };
    lemma_all_shown_keeps(Wm { spaces, ..wm }, wm.screens, spaces, n);
    let (_, steps) = wm.spaces_changed(spaces);
    if steps.len() == 1 && steps =~= seq![WmStep::RegisterHotkeys] {
        assert(steps[0] == WmStep::RegisterHotkeys);
    }
}

proof fn lemma_all_shown_keeps(
    wm: Wm,
    screens: Seq<ScreenId>,
    spaces: Seq<Option<SpaceId>>,
    n: nat,
)
    ensures
        wm.all_shown(screens, spaces, n).spaces == wm.spaces,
        wm.all_shown(screens, spaces, n).one_space == wm.one_space,
        wm.all_shown(screens, spaces, n).screens == wm.screens,
    decreases n,
{
    if n > 0 {
        lemma_all_shown_keeps(wm, screens, spaces, (n - 1) as nat);
    }
}

/// An application that is not known gets a thread, and the login window is told by its bundle.
pub proof fn launched_applications_are_remembered(wm: Wm, pid: Pid, info: AppInfo, other: Pid)
    ensures
        ({
            let (n, steps) = wm.launched(pid, info);
            &&& n.known.contains(pid)
            &&& other != pid ==> n.known.contains(other) == wm.known.contains(other)
            &&& !wm.known.contains(pid) ==> steps =~= seq![WmStep::SpawnApp(pid)]
            &&& wm.known.contains(pid) ==> steps.len() == 0
            &&& info.bundle_id is Some && info.bundle_id->0@ == "com.apple.loginwindow"@
                ==> n.login_pid == Some(pid)
            &&& info.bundle_id is None || info.bundle_id->0@ != "com.apple.loginwindow"@
                ==> n.login_pid == wm.login_pid
        }),
{
}

/// The space of a screen is the one that stands at the place of that screen.
pub proof fn the_space_of_a_screen_stands_at_its_place(
    screens: Seq<ScreenId>,
    spaces: Seq<Option<SpaceId>>,
    id: ScreenId,
    i: int,
)
    requires
        0 <= i < screens.len(),
        i < spaces.len(),
        screens[i] == id,
        forall|j: int| 0 <= j < i ==> #[trigger] screens[j] != id,
    ensures
        space_on(screens, spaces, id) == spaces[i],
    decreases i,
{
    if i > 0 {
        let rest = screens.drop_first();
        let others = spaces.drop_first();
        assert(screens[0] != id);
        assert forall|j: int| 0 <= j < i - 1 implies #[trigger] rest[j] != id by {
            assert(screens[j + 1] != id);
        }
        the_space_of_a_screen_stands_at_its_place(rest, others, id, i - 1);
    }
}

/// A space that is off is switched on where the focus is, and told; one that is on only has its app
/// rules applied.
pub proof fn toggling_switches_the_focused_space_on(wm: Wm, id: ScreenId, space: SpaceId)
    requires
        space_on(wm.screens, wm.spaces, id) == Some(space),
    ensures
        ({
            let (n, steps) = wm.toggled(Some(id));
            &&& n.is_enabled(space)
            &&& wm.is_enabled(space) ==> n == wm && steps =~= seq![WmStep::ApplyAppRules]
            &&& !wm.is_enabled(space) ==> steps =~= seq![
                WmStep::TellSpaces,
                WmStep::ApplyAppRules,
            ]
            &&& n.default_disable == wm.default_disable && n.spaces == wm.spaces
        }),
        wm.toggled(None) == (wm, Seq::<WmStep>::empty()),
        wm.focused(Some(id)) == Some(space),
{
}

/// Each command does what its name says; showing another workspace hides Mission Control first.
pub proof fn commands_do_what_they_say(wm: Wm, place: usize, exec: ExecCmd)
    ensures
        wm.command_steps(WmCmd::NextWorkspace) =~= seq![
            WmStep::DismissMissionControl,
            WmStep::Workspace(WorkspaceOrder::Next),
        ],
        wm.command_steps(WmCmd::PrevWorkspace) =~= seq![
            WmStep::DismissMissionControl,
            WmStep::Workspace(WorkspaceOrder::Previous),
        ],
        wm.command_steps(WmCmd::SwitchToLastWorkspace) =~= seq![
            WmStep::DismissMissionControl,
            WmStep::Workspace(WorkspaceOrder::SwitchToLast),
        ],
        wm.command_steps(WmCmd::SwitchToWorkspace(WorkspaceSelector::Index(place))) =~= seq![
            WmStep::DismissMissionControl,
            WmStep::Workspace(WorkspaceOrder::SwitchTo(place)),
        ],
        wm.command_steps(WmCmd::MoveWindowToWorkspace(WorkspaceSelector::Index(place))) =~= seq![
            WmStep::Workspace(WorkspaceOrder::MoveWindowTo(place)),
        ],
        wm.command_steps(WmCmd::CreateWorkspace) =~= seq![
            WmStep::Workspace(WorkspaceOrder::Create),
        ],
        wm.command_steps(WmCmd::ShowMissionControlAll) =~= seq![WmStep::ShowMissionControlAll],
        wm.command_steps(WmCmd::ShowMissionControlCurrent) =~= seq![
            WmStep::ShowMissionControlCurrent,
        ],
        wm.command_steps(WmCmd::Exec(exec)) =~= seq![WmStep::Execute],
{
}

/// Events about applications are told as they are; the login window in front takes all spaces away,
/// and gives them back when it leaves.
pub proof fn events_about_applications_are_told(
    wm: Wm,
    pid: Pid,
    main: Option<ScreenId>,
    other: Pid,
)
    ensures
        ({
            let (n, steps) = wm.after(WmEvent::AppGloballyActivated(pid), main);
            &&& steps[0] == WmStep::EnforceHidden && steps.last() == WmStep::TellActivated(pid)
            &&& wm.login_pid == Some(pid) ==> n.login_active && steps.contains(WmStep::TellSpaces)
            &&& wm.login_pid != Some(pid) ==> n == wm
        }),
        ({
            let (n, steps) = wm.after(WmEvent::AppGloballyDeactivated(pid), main);
            &&& steps.last() == WmStep::TellDeactivated(pid)
            &&& wm.login_pid == Some(pid) ==> !n.login_active && steps[0] == WmStep::TellSpaces
            &&& wm.login_pid != Some(pid) ==> n == wm
        }),
        ({
            let (n, steps) = wm.after(WmEvent::AppTerminated(pid), main);
            &&& steps =~= seq![WmStep::TellTerminated(pid)] && !n.known.contains(pid)
            &&& other != pid ==> n.known.contains(other) == wm.known.contains(other)
        }),
        ({
            let (n, steps) = wm.after(WmEvent::AppThreadTerminated(pid), main);
            &&& steps =~= seq![WmStep::TellThreadTerminated(pid)] && !n.known.contains(pid)
        }),
        wm.after(WmEvent::SystemWoke, main) == (wm, seq![WmStep::TellWoke]),
{
    let (_, steps) = wm.after(WmEvent::AppGloballyActivated(pid), main);
    if wm.login_pid == Some(pid) {
        assert(steps[1] == WmStep::TellSpaces);
    }
}

/// Screens are known and told to everyone; running applications are looked for a quarter of a
/// second after events are registered, and not before the screens are known.
pub proof fn screens_are_told_to_everyone(
    wm: Wm,
    ids: Vec<ScreenId>,
    spaces: Vec<Option<SpaceId>>,
    main: Option<ScreenId>,
)
    ensures
        ({
            let (n, steps) = wm.after(WmEvent::ScreenParametersChanged(ids, spaces), main);
            let k = steps.len() as int;
            &&& n.screens_received && n.screens == ids@ && n.spaces == spaces@
            &&& k >= 3 && steps[k - 3] == WmStep::TellScreens && steps[k - 2] == WmStep::TellMouse
                && steps[k - 1] == WmStep::TellStackLine
        }),
        ({
            let (n, steps) = wm.after(WmEvent::SpaceChanged(spaces), main);
            &&& n.spaces == spaces@ && steps.last() == WmStep::TellSpaces
            &&& n.screens == wm.screens
        }),
        wm.screens_received ==> wm.after(WmEvent::DiscoverRunningApps, main).1 =~= seq![
            WmStep::LaunchRunningApps,
        ],
        !wm.screens_received ==> wm.after(WmEvent::DiscoverRunningApps, main).1 =~= seq![
            WmStep::DiscoverAfter(200),
        ],
        wm.after(WmEvent::AppEventsRegistered, main).1 =~= seq![
            WmStep::SetEventProcessing(false),
            WmStep::DiscoverAfter(250),
            WmStep::EnableEventsAfter(350),
        ],
{
    let next = Wm { screens_received: true, screens: ids@, ..wm };
    let n = if next.screens.len() < spaces@.len() {
        next.screens.len()
    } else {
        spaces@.len()
    };
    lemma_all_shown_keeps(Wm { spaces: spaces@, ..next }, next.screens, spaces@, n);
    lemma_all_shown_received(Wm { spaces: spaces@, ..next }, next.screens, spaces@, n);
    let m = if wm.screens.len() < spaces@.len() {
        wm.screens.len()
    } else {
        spaces@.len()
    };
    lemma_all_shown_keeps(Wm { spaces: spaces@, ..wm }, wm.screens, spaces@, m);
}

proof fn lemma_all_shown_received(
    wm: Wm,
    screens: Seq<ScreenId>,
    spaces: Seq<Option<SpaceId>>,
    n: nat,
)
    ensures
        wm.all_shown(screens, spaces, n).screens_received == wm.screens_received,
    decreases n,
{
    if n > 0 {
        lemma_all_shown_received(wm, screens, spaces, (n - 1) as nat);
    }
}

/// New settings are taken over, and hotkeys are registered anew if they changed.
pub proof fn settings_are_taken_over(wm: Wm, settings: Settings, main: Option<ScreenId>)
    ensures
        ({
            let (n, steps) = wm.after(WmEvent::ConfigUpdated(settings), main);
            &&& n.default_disable == settings.default_disable
            &&& n.names == views(settings.workspace_names@)
            &&& n.keys == text_view(settings.keys)
            &&& wm.keys is Some && n.keys == wm.keys ==> steps.len() == 0 && n.hotkeys
                == wm.hotkeys
            &&& wm.keys is None || n.keys != wm.keys ==> n.hotkeys && steps =~= seq![
                WmStep::UnregisterHotkeys,
                WmStep::RegisterHotkeys,
            ]
            &&& n.spaces == wm.spaces && n.starting == wm.starting
        }),
{
}

/// Of all windows exactly those that are allowed are kept, and an application's windows are exactly
/// its own.
pub proof fn windows_are_kept_by_number_and_owner(
    all: Seq<WindowServerInfo>,
    allowed: Set<WindowServerId>,
    pid: Pid,
    w: WindowServerInfo,
)
    ensures
        allowed_windows(all, allowed).contains(w) <==> all.contains(w) && allowed.contains(w.id),
        owned_by(all, pid).contains(w) <==> all.contains(w) && w.pid == pid,
    decreases all.len(),
{
    if all.len() > 0 {
        let head = all.drop_last();
        windows_are_kept_by_number_and_owner(head, allowed, pid, w);
        assert(all =~= head.push(all.last()));
        crate::collections::lemma_push_contains(head, all.last());
        crate::collections::lemma_push_contains(allowed_windows(head, allowed), all.last());
        crate::collections::lemma_push_contains(owned_by(head, pid), all.last());
    }
}

/// A screen is remembered with the space that it was last said to show.
pub proof fn screens_are_remembered_with_the_space_they_show(
    wm: Wm,
    screens: Seq<ScreenId>,
    spaces: Seq<Option<SpaceId>>,
    n: nat,
    i: int,
)
    requires
        0 <= i < n,
        n <= screens.len(),
        n <= spaces.len(),
        spaces[i] is Some,
        forall|j: int|
            i < j < n ==> (#[trigger] screens[j]) != screens[i] || spaces[j] is None,
    ensures
        wm.all_shown(screens, spaces, n).last_known.dom().contains(screens[i]),
        wm.all_shown(screens, spaces, n).last_known[screens[i]] == spaces[i]->0,
    decreases n,
{
    if i < n - 1 {
        screens_are_remembered_with_the_space_they_show(wm, screens, spaces, (n - 1) as nat, i);
        assert(screens[n - 1] != screens[i] || spaces[n - 1] is None);
    }
}

/// Screens show their spaces one after the other.
pub proof fn screens_show_their_spaces_in_turn(
    wm: Wm,
    screens: Seq<ScreenId>,
    spaces: Seq<Option<SpaceId>>,
    n: nat,
)
    ensures
        wm.all_shown(screens, spaces, 0) == wm,
        wm.all_shown(screens, spaces, n + 1) == wm.all_shown(screens, spaces, n).shown(
            screens[n as int],
            spaces[n as int],
        ),
{
}

} // verus!
