use rift::model::Quiet;
use rift::reactor::event::Event;
use rift::reactor::main_window::{AppState, MainWindowTracker};
use rift::window_id::WindowId;

fn window(pid: i32, idx: u32) -> WindowId {
    WindowId { pid, idx }
}

fn launched(pid: i32, main_window: Option<WindowId>, is_frontmost: bool) -> Event {
    Event::ApplicationLaunched {
        pid,
        info: rift::model::AppInfo { bundle_id: None, localized_name: None },
        is_frontmost,
        main_window,
        visible_windows: vec![],
        window_server_info: vec![],
    }
}

#[test]
fn window_server_focus_supersedes_ax_focus_events() {
    let ax_window = window(7, 1);
    let server_window = window(7, 2);
    let stale_window = window(7, 3);
    let mut tracker = MainWindowTracker::default();
    tracker.global_frontmost = Some(7);
    let _ = tracker.apps.insert(
        7,
        AppState {
            is_frontmost: true,
            frontmost_is_quiet: Quiet::No,
            main_window: Some(ax_window),
        },
    );

    assert_eq!(tracker.main_window(), Some(ax_window));
    assert_eq!(tracker.handle_event(&Event::WindowServerFocusChanged(server_window, 1)), None);
    assert_eq!(tracker.main_window(), Some(server_window));

    assert_eq!(
        tracker.handle_event(&Event::ApplicationMainWindowChanged(
            7,
            Some(stale_window),
            Quiet::No
        )),
        None,
        "AX must not drive focus after native authority is initialized"
    );
    assert_eq!(tracker.main_window(), Some(server_window));

    let _ = tracker.handle_event(&Event::ApplicationMainWindowChanged(
        7,
        Some(ax_window),
        Quiet::No,
    ));

    let _ = tracker.handle_event(&Event::WindowDestroyed(server_window));
    assert_eq!(tracker.main_window(), Some(ax_window));
}

#[test]
fn it_tracks_frontmost_app_and_main_window_correctly() {
    let mut tracker = MainWindowTracker::default();
    assert_eq!(None, tracker.main_window());

    tracker.handle_event(&Event::ApplicationGloballyActivated(1));
    let raised = tracker.handle_event(&launched(1, Some(window(1, 1)), true));
    tracker.handle_event(&launched(2, None, false));
    assert_eq!(Some(window(1, 1)), tracker.main_window());
    assert_eq!(raised, Some(window(1, 1)));

    tracker.handle_event(&Event::ApplicationGloballyDeactivated(1));
    assert_eq!(None, tracker.main_window());
    tracker.handle_event(&Event::ApplicationActivated(2, Quiet::No));
    tracker.handle_event(&Event::ApplicationGloballyActivated(2));
    assert_eq!(None, tracker.main_window());
    let raised = tracker.handle_event(&Event::ApplicationMainWindowChanged(
        2,
        Some(window(2, 2)),
        Quiet::No,
    ));
    assert_eq!(Some(window(2, 2)), tracker.main_window());
    assert_eq!(raised, Some(window(2, 2)));
    tracker.handle_event(&Event::ApplicationMainWindowChanged(1, Some(window(1, 2)), Quiet::No));
    assert_eq!(Some(window(2, 2)), tracker.main_window());
    tracker.handle_event(&Event::ApplicationDeactivated(1));
    assert_eq!(Some(window(2, 2)), tracker.main_window());
    tracker.handle_event(&Event::ApplicationDeactivated(2));
    assert_eq!(None, tracker.main_window());

    tracker.handle_event(&Event::ApplicationGloballyActivated(3));
    assert_eq!(None, tracker.main_window());

    let raised = tracker.handle_event(&launched(3, Some(window(3, 1)), true));
    assert_eq!(Some(window(3, 1)), tracker.main_window());
    assert_eq!(raised, Some(window(3, 1)));
}

#[test]
fn it_does_not_update_layout_for_quiet_raises() {
    let mut tracker = MainWindowTracker::default();

    tracker.handle_event(&Event::ApplicationGloballyActivated(1));
    let raised = tracker.handle_event(&launched(1, Some(window(1, 1)), true));
    tracker.handle_event(&launched(2, None, false));
    assert_eq!(Some(window(1, 1)), tracker.main_window());
    assert_eq!(raised, Some(window(1, 1)));

    tracker.handle_event(&Event::ApplicationGloballyDeactivated(1));
    assert_eq!(None, tracker.main_window());
    assert_eq!(tracker.handle_event(&Event::ApplicationGloballyActivated(2)), None);
    assert_eq!(tracker.handle_event(&Event::ApplicationActivated(2, Quiet::Yes)), None);
    assert_eq!(None, tracker.main_window());
    let raised = tracker.handle_event(&Event::ApplicationMainWindowChanged(
        2,
        Some(window(2, 2)),
        Quiet::Yes,
    ));
    assert_eq!(Some(window(2, 2)), tracker.main_window());
    assert_eq!(raised, None);

    let raised = tracker.handle_event(&Event::ApplicationActivated(2, Quiet::No));
    assert_eq!(raised, Some(window(2, 2)));

    let raised = tracker.handle_event(&Event::ApplicationMainWindowChanged(
        2,
        Some(window(2, 1)),
        Quiet::Yes,
    ));
    assert_eq!(Some(window(2, 1)), tracker.main_window());
    assert_eq!(raised, None);

    assert_eq!(tracker.handle_event(&Event::ApplicationActivated(1, Quiet::Yes)), None);
    let raised = tracker.handle_event(&Event::ApplicationGloballyActivated(1));
    assert_eq!(Some(window(1, 1)), tracker.main_window());
    assert_eq!(raised, None);

    let raised = tracker.handle_event(&Event::ApplicationMainWindowChanged(
        1,
        Some(window(1, 2)),
        Quiet::No,
    ));
    assert_eq!(Some(window(1, 2)), tracker.main_window());
    assert_eq!(raised, Some(window(1, 2)));
}

#[test]
fn key_pid_survives_key_window_destroy_until_resolver_or_app_switch() {
    let mut tracker = MainWindowTracker::default();
    tracker.global_frontmost = Some(7);
    let w2 = window(7, 2);
    let w3 = window(7, 3);
    assert_eq!(tracker.handle_event(&Event::WindowServerFocusChanged(w2, 1)), None);
    assert_eq!(tracker.key_pid(), Some(7));
    assert_eq!(tracker.window_server_focus(), Some(w2));
    let _ = tracker.handle_event(&Event::WindowDestroyed(w2));
    assert_eq!(tracker.window_server_focus(), None);
    assert_eq!(tracker.key_pid(), Some(7), "hold should keep key_pid after destroy");
    assert_eq!(tracker.handle_event(&Event::WindowServerFocusChanged(w3, 1)), None);
    assert_eq!(tracker.window_server_focus(), Some(w3));
    assert_eq!(tracker.key_pid(), Some(7));

    let mut tracker2 = MainWindowTracker::default();
    tracker2.global_frontmost = Some(7);
    let _ = tracker2.handle_event(&Event::WindowServerFocusChanged(w2, 1));
    let _ = tracker2.handle_event(&Event::WindowDestroyed(w2));
    assert_eq!(tracker2.key_pid(), Some(7));
    let _ = tracker2.handle_event(&Event::ApplicationGloballyActivated(8));
    assert_eq!(tracker2.key_pid(), None, "switch to 8 should clear hold");
    let _ = tracker2.handle_event(&Event::ApplicationGloballyActivated(7));
    assert_eq!(tracker2.key_pid(), None);

    let mut tracker3 = MainWindowTracker::default();
    tracker3.global_frontmost = Some(7);
    let _ = tracker3.handle_event(&Event::WindowServerFocusChanged(w2, 1));
    let _ = tracker3.handle_event(&Event::WindowDestroyed(w2));
    assert_eq!(tracker3.key_pid(), Some(7));
    let _ = tracker3.handle_event(&Event::ApplicationGloballyActivated(7));
    assert_eq!(
        tracker3.key_pid(),
        Some(7),
        "duplicate activation for same pid must not clear hold"
    );

    let mut tracker4 = MainWindowTracker::default();
    tracker4.global_frontmost = Some(7);
    let _ = tracker4.handle_event(&Event::WindowServerFocusChanged(w2, 1));
    assert_eq!(tracker4.key_pid(), Some(7));
    let other = window(8, 1);
    let _ = tracker4.handle_event(&Event::WindowServerFocusChanged(other, 1));
    assert_eq!(tracker4.key_pid(), None, "claimed pid 8 != front 7 should be None");
}

#[test]
fn a_terminated_application_loses_the_focus() {
    let mut tracker = MainWindowTracker::default();
    tracker.handle_event(&Event::ApplicationGloballyActivated(1));
    tracker.handle_event(&launched(1, Some(window(1, 1)), true));
    tracker.handle_event(&Event::WindowServerFocusChanged(window(1, 2), 1));
    tracker.handle_event(&Event::ApplicationThreadTerminated(1));
    assert_eq!(tracker.main_window(), None);
    assert_eq!(tracker.window_server_focus(), None);
    assert!(tracker.is_globally_frontmost(1));
}
