//! Commands from the keyboard and from clients.

use vstd::prelude::*;

use crate::collections::VecSet;
use crate::model::{Pid, SpaceId, WindowServerId};
use crate::reactor::event::{LayoutCommand, LayoutEvent};
use crate::reactor::layout::RaiseRequest;
use crate::reactor::managers::{
    MissionControlManager, MissionControlState, WindowManager, WorkspaceSwitchManager,
    WorkspaceSwitchState,
};
#[allow(unused_imports)]
use crate::reactor::managers::Windows;
use crate::window_id::WindowId;

verus! {

/// Who executes a layout command.
#[derive(Clone, Copy, Debug, PartialEq, Eq, Structural)]
pub enum CommandRoute {
    /// The workspaces of this space.
    Workspaces(SpaceId),
    /// Nobody: there is no space that it could be about.
    Nobody,
    /// The layout engine, for this space if there is one.
    Engine(Option<SpaceId>),
}

/// How a layout command is executed.
#[derive(Clone, Copy, Debug, PartialEq, Eq, Structural)]
pub struct CommandPlan {
    /// The space whose floating windows have their positions kept first.
    pub store_floating: Option<SpaceId>,
    pub route: CommandRoute,
}

/// Whether a command shows another workspace.
pub open spec fn switches_workspace(cmd: LayoutCommand) -> bool {
    match cmd {
        LayoutCommand::NextWorkspace(_) => true,
        LayoutCommand::PrevWorkspace(_) => true,
        LayoutCommand::SwitchToWorkspace(_) => true,
        LayoutCommand::SwitchToLastWorkspace => true,
        _ => false,
    }
}

/// Whether a command is about workspaces.
pub open spec fn is_about_workspaces(cmd: LayoutCommand) -> bool {
    switches_workspace(cmd) || cmd is MoveWindowToWorkspace || cmd is CreateWorkspace
}

pub open spec fn command_plan(cmd: LayoutCommand, space: Option<SpaceId>) -> CommandPlan {
    CommandPlan {
        store_floating: if switches_workspace(cmd) {
            space
        } else {
            None
        },
        route: if is_about_workspaces(cmd) {
            match space {
                Some(s) => CommandRoute::Workspaces(s),
                None => CommandRoute::Nobody,
            }
        } else {
            CommandRoute::Engine(space)
        },
    }
}

/// What a command that focuses a window leads to.
pub enum FocusCommand {
    /// The window is known: tell the layout engine, and raise it.
    Raise(Option<LayoutEvent>, RaiseRequest),
    /// The window is not known: the window server makes it the key window.
    MakeKey(Pid, WindowServerId),
    Nothing,
}

/// One thing that a new configuration leads to.
#[derive(Clone, Copy, Debug, PartialEq, Eq, Structural)]
pub enum ConfigStep {
    /// The layout engine takes the settings for layouts.
    LayoutSettings,
    /// Drags take the settings for snapping.
    DragSettings,
    /// The stack line is told.
    StackLine,
    /// Windows are laid out anew.
    Relayout { is_resize: bool, is_workspace_switch: bool },
    /// The window manager controller is told, and registers hotkeys anew.
    Hotkeys,
}

/// What a new configuration leads to, in order. `keys_changed` says whether it has other hotkeys.
pub open spec fn config_steps(
    keys_changed: bool,
    has_stack_line: bool,
    has_controller: bool,
) -> Seq<ConfigStep> {
    let settings = seq![ConfigStep::LayoutSettings, ConfigStep::DragSettings];
    let told = if has_stack_line {
        settings.push(ConfigStep::StackLine)
    } else {
        settings
    };
    let laid_out = told.push(
        ConfigStep::Relayout { is_resize: false, is_workspace_switch: true },
    );
    if keys_changed && has_controller {
        laid_out.push(ConfigStep::Hotkeys)
    } else {
        laid_out
    }
}

/// Whether `r` is what a command to focus `window_id` leads to.
pub open spec fn is_focus_command(
    windows: Windows,
    window_id: WindowId,
    window_server_id: Option<WindowServerId>,
    space: Option<SpaceId>,
    apps: Set<Pid>,
    r: FocusCommand,
) -> bool {
    if windows.windows.dom().contains(window_id) {
        &&& r is Raise
        &&& r->Raise_0 == (match space {
            Some(s) => Some(LayoutEvent::WindowFocused(s, window_id)),
            None => None,
        })
        &&& r->Raise_1.focus_window == Some(window_id)
        &&& r->Raise_1.warp is None
        &&& r->Raise_1.raise_windows@.len() == 0
        &&& r->Raise_1.apps@ == (if apps.contains(window_id.pid) {
            seq![window_id.pid]
        } else {
            Seq::empty()
        })
    } else {
        match window_server_id {
            Some(wsid) => r == FocusCommand::MakeKey(window_id.pid, wsid),
            None => r is Nothing,
        }
    }
}

/// The switch of workspaces after a layout command.
pub open spec fn switch_after(switch: WorkspaceSwitchManager, cmd: LayoutCommand) ->
    WorkspaceSwitchManager {
    if switches_workspace(cmd) {
        WorkspaceSwitchManager {
            workspace_switch_state: WorkspaceSwitchState::Active,
            workspace_switch_generation: switch.next_generation(),
            active_workspace_switch: Some(switch.next_generation()),
            ..switch
        }
    } else {
        WorkspaceSwitchManager {
            workspace_switch_state: WorkspaceSwitchState::Inactive,
            ..switch
        }
    }
}

pub struct CommandEventHandler;

impl CommandEventHandler {
    /// A layout command; `space` is the one that commands go to.
    pub fn handle_command_layout(
        switch: &mut WorkspaceSwitchManager,
        cmd: &LayoutCommand,
        space: Option<SpaceId>,
    ) -> (r: CommandPlan)
        ensures
            r == command_plan(*cmd, space),
            *final(switch) == switch_after(*old(switch), *cmd),
    {
        let is_switch: bool = match cmd {
            LayoutCommand::NextWorkspace(_) => true,
            LayoutCommand::PrevWorkspace(_) => true,
            LayoutCommand::SwitchToWorkspace(_) => true,
            LayoutCommand::SwitchToLastWorkspace => true,
            _ => false,
        };
        let is_workspace: bool = is_switch || match cmd {
            LayoutCommand::MoveWindowToWorkspace(_) => true,
            LayoutCommand::CreateWorkspace => true,
            _ => false,
        };
        if is_switch {
            switch.begin_switch();
            switch.workspace_switch_state = WorkspaceSwitchState::Active;
        } else {
            switch.workspace_switch_state = WorkspaceSwitchState::Inactive;
        }
        let route = if is_workspace {
            match space {
                Some(s) => CommandRoute::Workspaces(s),
                None => CommandRoute::Nobody,
            }
        } else {
            CommandRoute::Engine(space)
        };
        CommandPlan {
            store_floating: if is_switch {
                space
            } else {
                None
            },
            route,
        }
    }

    /// The configuration changed.
    pub fn handle_config_updated(
        keys_changed: bool,
        has_stack_line: bool,
        has_controller: bool,
    ) -> (r: Vec<ConfigStep>)
        ensures
            r@ == config_steps(keys_changed, has_stack_line, has_controller),
    {
        let mut r: Vec<ConfigStep> = Vec::new();
        r.push(ConfigStep::LayoutSettings);
        r.push(ConfigStep::DragSettings);
        if has_stack_line {
            r.push(ConfigStep::StackLine);
        }
        r.push(ConfigStep::Relayout { is_resize: false, is_workspace_switch: true });
        if keys_changed && has_controller {
            r.push(ConfigStep::Hotkeys);
        }
        assert(r@ =~= config_steps(keys_changed, has_stack_line, has_controller));
        r
    }

    /// A window is to be focused; `space` is the one that it lies in.
    pub fn handle_command_reactor_focus_window(
        windows: &WindowManager,
        window_id: WindowId,
        window_server_id: Option<WindowServerId>,
        space: Option<SpaceId>,
        apps: &VecSet<Pid>,
    ) -> (r: FocusCommand)
        ensures
            is_focus_command(
                windows@,
                window_id,
                window_server_id,
                space,
                apps@,
                r,
            ),
    {
        if windows.windows.contains_key(&window_id) {
            let event = match space {
                Some(s) => Some(LayoutEvent::WindowFocused(s, window_id)),
                None => None,
            };
            let mut asked: Vec<Pid> = Vec::new();
            if apps.contains(&window_id.pid) {
                asked.push(window_id.pid);
            }
            assert(asked@ =~= (if apps@.contains(window_id.pid) {
                seq![window_id.pid]
            } else {
                Seq::empty()
            }));
            return FocusCommand::Raise(
                event,
                RaiseRequest {
                    raise_windows: Vec::new(),
                    focus_window: Some(window_id),
                    warp: None,
                    apps: asked,
                },
            );
        }
        match window_server_id {
            Some(wsid) => FocusCommand::MakeKey(window_id.pid, wsid),
            None => FocusCommand::Nothing,
        }
    }

    /// Mission Control is shown or hidden; the result says whether that changed.
    pub fn handle_command_reactor_set_mission_control_active(
        mission_control: &mut MissionControlManager,
        active: bool,
    ) -> (r: bool)
        ensures
            r == (old(mission_control).active() != active),
            final(mission_control).mission_control_state == (if !r {
                old(mission_control).mission_control_state
            } else if active {
                MissionControlState::Active
            } else {
                MissionControlState::Inactive
            }),
            final(mission_control).pending_mission_control_refresh == old(mission_control).pending_mission_control_refresh,
    {
        mission_control.set_mission_control_active(active)
    }
}

/// A command that shows another workspace always starts a new switch.
pub proof fn switches_have_a_generation_of_their_own(switch: WorkspaceSwitchManager)
    ensures
        switch.next_generation() != switch.workspace_switch_generation,
{
}

/// Commands about workspaces are never executed for want of a space by anything else.
pub proof fn workspace_commands_need_a_space(cmd: LayoutCommand)
    requires
        is_about_workspaces(cmd),
    ensures
        command_plan(cmd, None).route == CommandRoute::Nobody,
{
}

/// A command that shows another workspace has the floating windows of the space kept first, and
/// all commands about workspaces go to the workspaces of that space; every other command goes to
/// the layout engine.
pub proof fn commands_go_to_who_executes_them(
    cmd: LayoutCommand,
    space: SpaceId,
    back: Option<bool>,
    n: usize,
)
    ensures
        cmd == LayoutCommand::NextWorkspace(back) || cmd == LayoutCommand::PrevWorkspace(back)
            || cmd == LayoutCommand::SwitchToWorkspace(n) || cmd
            == LayoutCommand::SwitchToLastWorkspace ==> command_plan(cmd, Some(space)) == (
        CommandPlan { store_floating: Some(space), route: CommandRoute::Workspaces(space) }),
        cmd == LayoutCommand::MoveWindowToWorkspace(n) || cmd == LayoutCommand::CreateWorkspace
            ==> command_plan(cmd, Some(space)) == (CommandPlan {
            store_floating: None,
            route: CommandRoute::Workspaces(space),
        }),
        cmd is SetWorkspaceLayout || cmd is ScrollStrip || cmd is Other ==> command_plan(
            cmd,
            Some(space),
        ) == (CommandPlan { store_floating: None, route: CommandRoute::Engine(Some(space)) }),
        cmd is SetWorkspaceLayout || cmd is ScrollStrip || cmd is Other ==> command_plan(cmd, None)
            == (CommandPlan { store_floating: None, route: CommandRoute::Engine(None) }),
{
}

/// Exactly the commands that show another workspace begin a switch, with a new generation; any
/// other command leaves a switch that is under way alone, but begins none.
pub proof fn only_switching_commands_begin_a_switch(
    switch: WorkspaceSwitchManager,
    cmd: LayoutCommand,
)
    ensures
        ({
            let after = switch_after(switch, cmd);
            let switches = cmd is NextWorkspace || cmd is PrevWorkspace || cmd is SwitchToWorkspace
                || cmd is SwitchToLastWorkspace;
            &&& (after.workspace_switch_state == WorkspaceSwitchState::Active) == switches
            &&& switches ==> after.active_workspace_switch == Some(
                after.workspace_switch_generation,
            ) && after.workspace_switch_generation != switch.workspace_switch_generation
            &&& !switches ==> after.active_workspace_switch == switch.active_workspace_switch
                && after.workspace_switch_generation == switch.workspace_switch_generation
            &&& after.last_auto_workspace_switch == switch.last_auto_workspace_switch
        }),
{
}

/// A new configuration reaches the layout engine and drags first; then windows are laid out anew
/// as for a switch, and hotkeys are registered last, and only if they changed and someone can be
/// told. The stack line is told if there is one.
pub proof fn configurations_reach_everyone_in_order(keys: bool, line: bool, controller: bool)
    ensures
        ({
            let steps = config_steps(keys, line, controller);
            &&& steps[0] == ConfigStep::LayoutSettings && steps[1] == ConfigStep::DragSettings
            &&& line <==> steps.contains(ConfigStep::StackLine)
            &&& steps.contains(
                ConfigStep::Relayout { is_resize: false, is_workspace_switch: true },
            )
            &&& keys && controller <==> steps.contains(ConfigStep::Hotkeys)
            &&& keys && controller ==> steps.last() == ConfigStep::Hotkeys
            &&& !(keys && controller) ==> steps.last() == (ConfigStep::Relayout {
                is_resize: false,
                is_workspace_switch: true,
            })
        }),
{
    let steps = config_steps(keys, line, controller);
    let base = seq![ConfigStep::LayoutSettings, ConfigStep::DragSettings];
    let relayout = ConfigStep::Relayout { is_resize: false, is_workspace_switch: true };
    if line {
        assert(steps[2] == ConfigStep::StackLine);
        assert(steps[3] == relayout);
    } else {
        assert(steps[2] == relayout);
    }
    if keys && controller {
        assert(steps[steps.len() - 1] == ConfigStep::Hotkeys);
    }
}

/// A known window is raised and the layout engine told of it in its own space; an unknown one is
/// made the key window if its number is given.
pub proof fn focus_commands_focus_the_window_they_name(
    windows: Windows,
    wid: WindowId,
    wsid: WindowServerId,
    space: SpaceId,
    apps: Set<Pid>,
    r: FocusCommand,
)
    requires
        is_focus_command(windows, wid, Some(wsid), Some(space), apps, r),
    ensures
        windows.windows.dom().contains(wid) ==> r is Raise && r->Raise_0 == Some(
            LayoutEvent::WindowFocused(space, wid),
        ) && r->Raise_1.focus_window == Some(wid),
        !windows.windows.dom().contains(wid) ==> r == FocusCommand::MakeKey(wid.pid, wsid),
        is_focus_command(windows, wid, None, None, apps, FocusCommand::Nothing)
            == !windows.windows.dom().contains(wid),
{
}

} // verus!
