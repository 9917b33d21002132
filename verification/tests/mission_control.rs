use rift::mission_control::{
    Event, MissionControlAction, MissionControlActor, OverlayStep, Shown,
};
use rift::mission_control_observer::{
    expose_notification, find_dock_pid, ExitProbe, ExitProbeAction, MissionControlNotification,
    MissionControlState, NativeMissionControl, RunningApp,
};
use rift::window_id::WindowId;

#[test]
fn enter_emits_enter_and_exit_probe_only_exits_when_overlay_disappears() {
    let mut observer = NativeMissionControl::new();

    let probe = observer.state.handle_enter_notification();
    assert_eq!(probe, Some(ExitProbe { epoch: 1, delay_ns: 100_000_000 }));
    assert!(observer.is_active());

    let epoch = observer.state.epoch;
    let action = observer.state.handle_exit_probe_result(epoch, true);
    assert!(matches!(action, ExitProbeAction::Reschedule(_)));
    assert!(observer.is_active());

    let action = observer.state.handle_exit_probe_result(epoch, false);
    assert!(matches!(action, ExitProbeAction::EmitExit));
    assert!(!observer.is_active());
}

#[test]
fn duplicate_enter_does_not_reemit_or_advance_epoch() {
    let mut observer = NativeMissionControl::new();

    assert!(observer.state.handle_enter_notification().is_some());
    let epoch = observer.state.epoch;

    assert!(observer.state.handle_enter_notification().is_none());
    assert_eq!(observer.state.epoch, epoch);
    assert!(observer.is_active());
}

#[test]
fn exit_notification_only_requests_probe() {
    let mut observer = NativeMissionControl::new();

    let _ = observer.state.handle_enter_notification();

    assert_eq!(
        observer.state.handle_exit_notification(),
        Some(ExitProbe { epoch: 1, delay_ns: 0 })
    );
    assert!(observer.is_active());
}

#[test]
fn exit_notifications_without_an_entry_are_ignored() {
    let observer = NativeMissionControl::new();
    assert_eq!(observer.state.handle_exit_notification(), None);
}

#[test]
fn probes_of_an_earlier_visit_are_ignored() {
    let mut state = MissionControlState { active: false, stopped: false, epoch: u64::MAX };
    assert_eq!(
        state.handle_enter_notification(),
        Some(ExitProbe { epoch: 0, delay_ns: 100_000_000 })
    );
    assert_eq!(state.handle_exit_probe_result(u64::MAX, false), ExitProbeAction::Ignore);
    assert_eq!(state.handle_exit_probe_result(0, false), ExitProbeAction::EmitExit);
    assert_eq!(state.handle_exit_probe_result(0, false), ExitProbeAction::Ignore);
}

#[test]
fn an_observer_that_stops_ends_its_probes() {
    let mut observer = NativeMissionControl::new();
    assert!(observer.wants_observer(88));
    assert!(!observer.wants_observer(0));
    observer.observe();
    assert!(!observer.wants_observer(88));
    let probe = observer.state.handle_enter_notification().unwrap();
    assert!(observer.unobserve());
    assert!(!observer.unobserve());
    assert!(!observer.is_active());
    assert_eq!(
        observer.state.handle_exit_probe_result(probe.epoch, false),
        ExitProbeAction::Ignore
    );
}

#[test]
fn the_dock_names_its_notifications() {
    assert_eq!(
        expose_notification("AXExposeShowAllWindows"),
        Some(MissionControlNotification::Enter)
    );
    assert_eq!(
        expose_notification("AXExposeShowFrontWindows"),
        Some(MissionControlNotification::Enter)
    );
    assert_eq!(
        expose_notification("AXExposeShowDesktop"),
        Some(MissionControlNotification::Enter)
    );
    assert_eq!(expose_notification("AXExposeExit"), Some(MissionControlNotification::Exit));
    assert_eq!(expose_notification("AXWindowMoved"), None);
}

#[test]
fn the_dock_is_found_by_its_bundle() {
    let apps = vec![
        RunningApp { bundle_id: None, pid: 3 },
        RunningApp { bundle_id: Some("com.apple.finder".to_string()), pid: 4 },
        RunningApp { bundle_id: Some("com.apple.dock".to_string()), pid: 5 },
    ];
    assert_eq!(find_dock_pid(&apps), 5);
    assert_eq!(find_dock_pid(&vec![]), 0);
}

#[test]
fn the_overlay_shows_and_goes_away_again() {
    let mut actor = MissionControlActor::new(true);
    assert_eq!(
        actor.handle_event(Event::ShowAll),
        vec![
            OverlayStep::TellActive(true),
            OverlayStep::Create,
            OverlayStep::ShowEmpty(Shown::AllWorkspaces),
            OverlayStep::Query(Shown::AllWorkspaces),
        ]
    );
    assert_eq!(
        actor.answered(Shown::AllWorkspaces),
        vec![OverlayStep::ShowAnswer(Shown::AllWorkspaces)]
    );
    assert_eq!(
        actor.handle_event(Event::ShowCurrent),
        vec![OverlayStep::Hide, OverlayStep::TellActive(false)]
    );
    assert_eq!(actor.handle_event(Event::Dismiss), vec![]);
}

#[test]
fn choices_in_the_overlay_are_handed_on() {
    let mut actor = MissionControlActor::new(true);
    let _ = actor.handle_event(Event::ShowCurrent);
    assert_eq!(
        actor.handle_overlay_action(MissionControlAction::SwitchToWorkspace(3)),
        vec![
            OverlayStep::SwitchToWorkspace(3),
            OverlayStep::Hide,
            OverlayStep::TellActive(false),
        ]
    );
    let wid = WindowId { pid: 1, idx: 2 };
    assert_eq!(
        actor.handle_overlay_action(MissionControlAction::FocusWindow {
            window_id: wid,
            window_server_id: Some(7),
        }),
        vec![OverlayStep::FocusWindow(wid, Some(7))]
    );
    assert_eq!(actor.handle_overlay_action(MissionControlAction::Dismiss), vec![]);
}
