use rift::collections::VecSet;
use rift::model::{AppInfo, Frame, WindowServerInfo};
use rift::reactor::event::{Command, MetricsCommand};
use rift::wm_controller::{
    apply_app_rules_to_existing_windows, get_windows, Config, ExecCmd, Settings, WmCmd, WmCommand, WmController,
    WmEvent, WmStep, WorkspaceOrder, WorkspaceSelector,
};

fn settings(default_disable: bool, keys: Option<&str>) -> Settings {
    Settings {
        default_disable,
        workspace_names: vec!["main".to_string(), "web".to_string(), "web".to_string()],
        keys: keys.map(|k| k.to_string()),
    }
}

fn controller(one_space: bool, default_disable: bool) -> WmController {
    WmController::new(Config {
        one_space,
        restore_file: "layout.ron".to_string(),
        settings: settings(default_disable, Some("a")),
    })
}

fn app(bundle: &str) -> AppInfo {
    AppInfo { bundle_id: Some(bundle.to_string()), localized_name: None }
}

fn wm(cmd: WmCmd) -> WmEvent {
    WmEvent::Command(WmCommand::Wm(cmd))
}

fn on_window(id: u32, pid: i32) -> WindowServerInfo {
    WindowServerInfo { id, pid, layer: 0, frame: Frame { x: 0, y: 0, width: 0, height: 0 } }
}

#[test]
fn applications_get_one_thread_until_it_ends() {
    let mut c = controller(false, false);
    assert_eq!(
        c.handle_event(WmEvent::AppLaunch(5, app("com.example")), None),
        vec![WmStep::SpawnApp(5)]
    );
    assert_eq!(c.handle_event(WmEvent::AppLaunch(5, app("com.example")), None), vec![]);
    assert_eq!(
        c.handle_event(WmEvent::AppThreadTerminated(5), None),
        vec![WmStep::TellThreadTerminated(5)]
    );
    assert_eq!(c.new_app(5, &app("com.example")), vec![WmStep::SpawnApp(5)]);
    assert_eq!(
        c.handle_event(WmEvent::AppTerminated(5), None),
        vec![WmStep::TellTerminated(5)]
    );
}

#[test]
fn the_login_window_stops_everything() {
    let mut c = controller(false, false);
    let _ = c.handle_event(
        WmEvent::ScreenParametersChanged(vec![10], vec![Some(1)]),
        None,
    );
    let _ = c.handle_event(WmEvent::AppLaunch(9, app("com.apple.loginwindow")), None);
    assert_eq!(c.active_spaces(), vec![Some(1)]);
    assert_eq!(
        c.handle_event(WmEvent::AppGloballyActivated(9), None),
        vec![WmStep::EnforceHidden, WmStep::TellSpaces, WmStep::TellActivated(9)]
    );
    assert_eq!(c.active_spaces(), vec![None]);
    assert_eq!(
        c.handle_event(WmEvent::AppGloballyDeactivated(9), None),
        vec![WmStep::TellSpaces, WmStep::TellDeactivated(9)]
    );
    assert_eq!(c.active_spaces(), vec![Some(1)]);
    assert_eq!(
        c.handle_event(WmEvent::AppGloballyActivated(3), None),
        vec![WmStep::EnforceHidden, WmStep::TellActivated(3)]
    );
}

#[test]
fn running_applications_wait_for_the_screens() {
    let mut c = controller(false, false);
    assert_eq!(
        c.handle_event(WmEvent::AppEventsRegistered, None),
        vec![
            WmStep::SetEventProcessing(false),
            WmStep::DiscoverAfter(250),
            WmStep::EnableEventsAfter(350),
        ]
    );
    assert_eq!(
        c.handle_event(WmEvent::DiscoverRunningApps, None),
        vec![WmStep::DiscoverAfter(200)]
    );
    assert_eq!(
        c.handle_event(WmEvent::ScreenParametersChanged(vec![10], vec![Some(1)]), None),
        vec![
            WmStep::RegisterHotkeys,
            WmStep::TellScreens,
            WmStep::TellMouse,
            WmStep::TellStackLine,
        ]
    );
    assert_eq!(
        c.handle_event(WmEvent::DiscoverRunningApps, None),
        vec![WmStep::LaunchRunningApps]
    );
}

#[test]
fn activation_moves_with_a_renumbered_space() {
    let mut c = controller(false, true);
    let _ = c.handle_event(WmEvent::ScreenParametersChanged(vec![10], vec![Some(1)]), None);
    assert_eq!(c.active_spaces(), vec![None]);
    assert_eq!(
        c.handle_event(wm(WmCmd::ToggleSpaceActivated), Some(10)),
        vec![WmStep::TellSpaces, WmStep::ApplyAppRules]
    );
    assert_eq!(c.active_spaces(), vec![Some(1)]);
    assert_eq!(c.handle_space_changed(vec![Some(7)]), vec![]);
    assert_eq!(c.active_spaces(), vec![Some(7)]);
    assert!(!c.enabled_spaces.contains(&1));
    assert_eq!(c.starting_space, Some(7));
}

#[test]
fn toggling_never_disables_a_space() {
    let mut c = controller(false, false);
    let _ = c.handle_event(WmEvent::ScreenParametersChanged(vec![10], vec![Some(1)]), None);
    assert_eq!(
        c.handle_event(wm(WmCmd::ToggleSpaceActivated), Some(10)),
        vec![WmStep::ApplyAppRules]
    );
    assert_eq!(c.active_spaces(), vec![Some(1)]);
    assert_eq!(c.handle_event(wm(WmCmd::ToggleSpaceActivated), Some(99)), vec![]);
    assert_eq!(c.handle_event(wm(WmCmd::ToggleSpaceActivated), None), vec![]);
    let _ = c.disabled_spaces.insert(1);
    assert_eq!(c.active_spaces(), vec![None]);
    let _ = c.handle_event(wm(WmCmd::ToggleSpaceActivated), Some(10));
    assert_eq!(c.active_spaces(), vec![Some(1)]);
}

#[test]
fn one_space_keeps_its_hotkeys() {
    let mut c = controller(true, false);
    let _ = c.handle_event(
        WmEvent::ScreenParametersChanged(vec![10, 11], vec![Some(1), Some(2)]),
        None,
    );
    assert_eq!(c.active_spaces(), vec![Some(1), None]);
    c.last_known_space_by_screen.clear();
    assert_eq!(
        c.handle_event(WmEvent::SpaceChanged(vec![Some(3), Some(2)]), None),
        vec![WmStep::UnregisterHotkeys, WmStep::TellSpaces]
    );
    assert!(!c.hotkeys_registered);
    c.last_known_space_by_screen.clear();
    assert_eq!(
        c.handle_event(WmEvent::SpaceChanged(vec![Some(1), None]), None),
        vec![WmStep::RegisterHotkeys, WmStep::TellSpaces]
    );
    assert!(c.hotkeys_registered);
    assert_eq!(
        c.handle_event(WmEvent::SpaceChanged(vec![None]), None),
        vec![WmStep::TellSpaces]
    );
}

#[test]
fn hotkeys_are_reloaded_only_if_they_changed() {
    let mut c = controller(false, false);
    assert_eq!(
        c.handle_event(WmEvent::ConfigUpdated(settings(false, Some("a"))), None),
        vec![]
    );
    assert_eq!(
        c.handle_event(WmEvent::ConfigUpdated(settings(true, Some("b"))), None),
        vec![WmStep::UnregisterHotkeys, WmStep::RegisterHotkeys]
    );
    assert!(c.config.settings.default_disable);
    assert_eq!(
        c.handle_event(WmEvent::ConfigUpdated(settings(true, None)), None),
        vec![WmStep::UnregisterHotkeys, WmStep::RegisterHotkeys]
    );
    assert_eq!(
        c.handle_event(WmEvent::ConfigUpdated(settings(true, None)), None),
        vec![WmStep::UnregisterHotkeys, WmStep::RegisterHotkeys]
    );
}

#[test]
fn workspace_commands_dismiss_the_overlay_first() {
    let mut c = controller(false, false);
    assert_eq!(
        c.handle_event(wm(WmCmd::NextWorkspace), None),
        vec![WmStep::DismissMissionControl, WmStep::Workspace(WorkspaceOrder::Next)]
    );
    assert_eq!(
        c.handle_event(wm(WmCmd::PrevWorkspace), None),
        vec![WmStep::DismissMissionControl, WmStep::Workspace(WorkspaceOrder::Previous)]
    );
    assert_eq!(
        c.handle_event(wm(WmCmd::SwitchToLastWorkspace), None),
        vec![WmStep::DismissMissionControl, WmStep::Workspace(WorkspaceOrder::SwitchToLast)]
    );
    let web = WorkspaceSelector::Name("web".to_string());
    assert_eq!(
        c.handle_event(wm(WmCmd::SwitchToWorkspace(web.clone())), None),
        vec![WmStep::DismissMissionControl, WmStep::Workspace(WorkspaceOrder::SwitchTo(1))]
    );
    assert_eq!(
        c.handle_event(wm(WmCmd::MoveWindowToWorkspace(web)), None),
        vec![WmStep::Workspace(WorkspaceOrder::MoveWindowTo(1))]
    );
    let unknown = WorkspaceSelector::Name("mail".to_string());
    assert_eq!(c.handle_event(wm(WmCmd::SwitchToWorkspace(unknown.clone())), None), vec![]);
    assert_eq!(c.handle_event(wm(WmCmd::MoveWindowToWorkspace(unknown)), None), vec![]);
    assert_eq!(
        c.handle_event(wm(WmCmd::SwitchToWorkspace(WorkspaceSelector::Index(8))), None),
        vec![WmStep::DismissMissionControl, WmStep::Workspace(WorkspaceOrder::SwitchTo(8))]
    );
    assert_eq!(
        c.handle_event(wm(WmCmd::CreateWorkspace), None),
        vec![WmStep::Workspace(WorkspaceOrder::Create)]
    );
    assert_eq!(
        c.handle_event(wm(WmCmd::ShowMissionControlAll), None),
        vec![WmStep::ShowMissionControlAll]
    );
    assert_eq!(
        c.handle_event(wm(WmCmd::ShowMissionControlCurrent), None),
        vec![WmStep::ShowMissionControlCurrent]
    );
    assert_eq!(
        c.handle_event(wm(WmCmd::Exec(ExecCmd::String("ls".to_string()))), None),
        vec![WmStep::Execute]
    );
    assert_eq!(
        c.handle_event(
            WmEvent::Command(WmCommand::ReactorCommand(Command::Metrics(
                MetricsCommand::ShowTiming
            ))),
            None
        ),
        vec![WmStep::Forward]
    );
    assert_eq!(c.handle_event(WmEvent::SystemWoke, None), vec![WmStep::TellWoke]);
    assert_eq!(c.handle_event(WmEvent::PowerStateChanged(true), None), vec![]);
}

#[test]
fn command_lines_are_split_at_spaces() {
    assert_eq!(
        ExecCmd::String("open -a  Safari".to_string()).as_array(),
        vec!["open", "-a", "", "Safari"]
    );
    assert_eq!(ExecCmd::String(String::new()).as_array(), vec![""]);
    assert_eq!(
        ExecCmd::Array(vec!["say".to_string(), "hello world".to_string()]).as_array(),
        vec!["say", "hello world"]
    );
}

#[test]
fn windows_are_those_of_the_managed_spaces() {
    let all = vec![on_window(1, 5), on_window(2, 6), on_window(3, 5)];
    let mut allowed: VecSet<u32> = VecSet::new();
    assert_eq!(get_windows(&all, &vec![Some(1)], &allowed).len(), 3);
    let _ = allowed.insert(3);
    let _ = allowed.insert(2);
    let ids: Vec<u32> =
        get_windows(&all, &vec![None, Some(1)], &allowed).iter().map(|w| w.id).collect();
    assert_eq!(ids, vec![2, 3]);
    assert_eq!(get_windows(&all, &vec![None], &allowed).len(), 3);
}

#[test]
fn app_rules_are_applied_by_application() {
    let all = vec![on_window(1, 5), on_window(2, 6), on_window(3, 5)];
    let mut known: VecSet<i32> = VecSet::new();
    assert!(apply_app_rules_to_existing_windows(&all, &known).is_empty());
    let _ = known.insert(5);
    let some = apply_app_rules_to_existing_windows(&all, &known);
    assert_eq!(some.len(), 1);
    let _ = known.insert(6);
    let groups = apply_app_rules_to_existing_windows(&all, &known);
    assert_eq!(groups.len(), 2);
    assert_eq!(groups[0].pid, 5);
    assert_eq!(groups[0].windows, vec![on_window(1, 5), on_window(3, 5)]);
    assert_eq!(groups[1].windows[0].id, 2);
}
