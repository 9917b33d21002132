use rift::collections::{VecMap, VecSet};
use rift::model::{AppInfo, Frame, Screen, WindowInfo};
use rift::reactor::actor::{process_windows_for_app_rules, Reactor};
use rift::reactor::animation::{
    decline_counts, AnimationManager, AnimationSettings, DeclineCounters, DeclineSnapshot,
    Dispatch, LayoutTarget, Transition,
};
use rift::reactor::commands::CommandEventHandler;
use rift::reactor::discovery::{ListedWindow, StaleFacts};
use rift::reactor::event::LayoutEvent;
use rift::reactor::managers::{
    DragManager, FullscreenTrack, MenuManager, MenuState, MissionControlManager,
    MissionControlState, RefocusManager, RefocusState, SpaceManager, StaleCleanupState,
    WindowManager,
};
use rift::reactor::space::{
    delta_windows, PendingSpaceChange, PendingStep, SpaceState, StateStep,
};
use rift::reactor::transaction_manager::{TransactionManager, WindowTxStore};
use rift::reactor::window::{should_raise_on_mouse_over, WindowEventHandler};
use rift::spaces::authority::{AuthorityState, Event, ForwardedSpaceState, Snapshot, Surroundings};
use rift::spaces::topology::{ScreenInfo, TopologyWindowDelta};
use rift::window_id::WindowId;

fn frame(x: u64) -> Frame {
    Frame { x, y: 0, width: 0, height: 0 }
}

fn window(idx: u32) -> WindowId {
    WindowId { pid: 1, idx }
}

fn windows(count: u32) -> WindowManager {
    let mut w = WindowManager::new();
    let list = (1..=count)
        .map(|idx| ListedWindow {
            wid: window(idx),
            info: WindowInfo {
                is_standard: true,
                is_root: true,
                is_minimized: false,
                title: format!("window {idx}"),
                frame: frame(0),
                sys_id: Some(100 + idx),
                bundle_id: None,
                path: None,
                ax_role: None,
                ax_subrole: None,
            },
            frame_is_empty: false,
            is_manageable: true,
        })
        .collect();
    w.update_window_states(list);
    w
}

fn refocus() -> RefocusManager {
    RefocusManager {
        stale_cleanup_state: StaleCleanupState::Enabled,
        refocus_state: RefocusState::Idle,
    }
}

fn set(items: &[u64]) -> VecSet<u64> {
    let mut s = VecSet::new();
    for i in items {
        let _ = s.insert(*i);
    }
    s
}

fn screen_info(id: u32, space: Option<u64>) -> ScreenInfo {
    ScreenInfo {
        id,
        display_uuid: id as u128,
        frame: frame(id as u64),
        width: 1000,
        height: 800,
        space,
    }
}

fn surroundings(user: &[u64]) -> Surroundings {
    Surroundings {
        fullscreen: set(&[]),
        user: set(user),
        snapshot: None,
        display_spaces: vec![],
        windows: vec![],
        under_cursor: vec![],
        active_space: None,
        window_space: None,
        quiet: true,
    }
}

fn forwarded(screens: Vec<ScreenInfo>) -> ForwardedSpaceState {
    AuthorityState::default().build_forwarded_state(&screens, &surroundings(&[10, 20]))
}

fn empty_state() -> SpaceState {
    SpaceState {
        screens: vec![],
        fullscreen_spaces: VecSet::new(),
        has_seen_display_set: false,
        shown_spaces: VecSet::new(),
        menu_bar_space: None,
        command_space: None,
        display_space_ids: vec![],
        last_user_space_by_display: VecMap::new(),
        active_spaces: VecSet::new(),
        pending_space_change: None,
    }
}

#[test]
fn forwarded_states_know_their_spaces() {
    let f = forwarded(vec![screen_info(1, None), screen_info(2, Some(20)), screen_info(3, Some(10))]);
    assert_eq!(f.iter_known_spaces(), vec![20, 10]);
    assert_eq!(f.first_known_space(), Some(20));
    assert_eq!(f.screen_by_space(10).unwrap().id, 3);
    assert!(f.screen_by_space(99).is_none());
}

#[test]
fn new_screens_are_taken_over() {
    let mut state = empty_state();
    let mut rf = refocus();
    let f = forwarded(vec![screen_info(1, Some(10))]);
    let active = set(&[10]);
    let steps =
        state.handle_space_state_changed(&mut rf, &f, Some(10), &active, &active, false);
    assert_eq!(state.screens.len(), 1);
    assert_eq!(state.menu_bar_space, Some(10));
    assert!(steps.iter().any(|s| matches!(s, StateStep::SpacesUpdated)));
    assert!(steps.iter().any(|s| matches!(s, StateStep::Finalize)));
    assert!(steps
        .iter()
        .any(|s| matches!(s, StateStep::UpdateSpaceDisplay(d) if d.space == 10)));
    assert_eq!(rf.stale_cleanup_state, StaleCleanupState::Enabled);

    let none = forwarded(vec![]);
    let gone =
        state.handle_space_state_changed(&mut rf, &none, None, &set(&[]), &set(&[]), false);
    assert!(state.screens.is_empty());
    assert!(gone.iter().any(|s| matches!(s, StateStep::ForgetWindowServerInfo)));
    assert_eq!(rf.stale_cleanup_state, StaleCleanupState::Suppressed);
}

#[test]
fn spaces_wait_for_mission_control() {
    let mut state = empty_state();
    let mut rf = refocus();
    let f = forwarded(vec![screen_info(1, Some(10))]);
    let active = set(&[10]);
    let steps = state.handle_space_state_changed(&mut rf, &f, None, &active, &active, true);
    assert!(matches!(steps.last(), Some(StateStep::Defer)));
    state.defer(forwarded(vec![screen_info(1, Some(10))]));
    assert!(state.pending_space_change.is_some());
    let certain = SpaceState::authoritative_spaces(&f);
    assert_eq!(certain.len(), 1);
}

fn space_manager() -> SpaceManager {
    let mut fullscreen_by_space = VecMap::new();
    let mut pids = VecSet::new();
    let _ = pids.insert(1);
    let _ = fullscreen_by_space.insert(9, FullscreenTrack { pids, last_removed: vec![] });
    let mut changing_screens = VecSet::new();
    let _ = changing_screens.insert(101);
    SpaceManager {
        screens: vec![Screen { frame: frame(0), space: Some(9) }],
        fullscreen_by_space,
        changing_screens,
    }
}

#[test]
fn space_changes_are_finished() {
    let mut spaces = space_manager();
    let mut rf = refocus();
    let exposed = spaces.finalize_space_change(&mut rf, &vec![None]);
    assert_eq!(exposed.len(), 1);
    assert_eq!((exposed[0].space, exposed[0].frame), (9, frame(0)));
    assert!(spaces.changing_screens.is_empty());
    assert_eq!(rf.stale_cleanup_state, StaleCleanupState::Suppressed);
    assert!(spaces.refocus_after_fullscreen(&mut rf));
    assert_eq!(rf.refocus_state, RefocusState::Pending(9));
}

#[test]
fn pending_space_changes_fit_the_screens() {
    let mut spaces = space_manager();
    let mut pending = Some(PendingSpaceChange { spaces: vec![None, None], ws_info: vec![] });
    let (step, _) = spaces.try_apply_pending_space_change(&mut pending, &set(&[]));
    assert!(matches!(step, PendingStep::Nothing));
    assert!(pending.is_some());
    pending = Some(PendingSpaceChange { spaces: vec![Some(9)], ws_info: vec![] });
    let (step, _) = spaces.try_apply_pending_space_change(&mut pending, &set(&[9]));
    assert!(matches!(step, PendingStep::Dropped));
    assert!(pending.is_none());
    pending = Some(PendingSpaceChange { spaces: vec![Some(10)], ws_info: vec![] });
    let (step, exit) = spaces.try_apply_pending_space_change(&mut pending, &set(&[]));
    assert!(matches!(step, PendingStep::Apply(_)));
    assert!(!exit.still_fullscreen);
    assert_eq!(spaces.screens[0].space, Some(10));
}

#[test]
fn moved_windows_are_listed_once() {
    let mut delta = TopologyWindowDelta::default();
    let _ = delta.appeared.insert(1, 10);
    let _ = delta.disappeared.insert(1, 20);
    let _ = delta.disappeared.insert(2, 20);
    let mut ids = delta_windows(&delta);
    ids.sort();
    assert_eq!(ids, vec![1, 2]);
}

#[test]
fn snapshots_are_taken_when_they_are_used() {
    let mut state = AuthorityState::default();
    assert!(state.needs_snapshot(&Event::ActiveSpaceChanged));
    assert!(state.needs_snapshot(&Event::ProcessScreenRefresh { attempt: 0 }));
    assert!(!state.needs_snapshot(&Event::SystemWillSleep));
    let shot = Snapshot { screens: vec![], converter: 0 };
    assert!(!state.needs_snapshot(&Event::ScreenParametersChanged(shot)));
    state.display_churn_active = true;
    assert!(!state.needs_snapshot(&Event::ProcessScreenRefresh { attempt: 0 }));
}

#[test]
fn windows_are_raised_under_the_mouse() {
    let w = windows(2);
    let closed = MenuManager { menu_state: MenuState::Closed };
    let open = MenuManager { menu_state: MenuState::Open(1) };
    let order = vec![102, 101];
    let mut inside = VecMap::new();
    let _ = inside.insert(window(2), false);
    let raises = |menu: &MenuManager, wid, active, inside: &VecMap<WindowId, bool>| {
        should_raise_on_mouse_over(&w, wid, menu, Some(1), active, &order, inside)
    };
    assert!(raises(&closed, window(1), true, &inside));
    assert!(!raises(&open, window(1), true, &inside));
    assert!(!raises(&closed, window(1), false, &inside));
    assert!(!raises(&closed, window(9), true, &inside));
    let _ = inside.insert(window(2), true);
    assert!(!raises(&closed, window(1), true, &inside));
    let step = WindowEventHandler::handle_mouse_moved_over_window(true, false, false, Some(1));
    assert_eq!(step.map(|s| (s.raises, s.focuses_in)), Some((true, Some(1))));
    assert!(
        WindowEventHandler::handle_mouse_moved_over_window(true, true, true, Some(1)).is_none()
    );
    assert!(
        WindowEventHandler::handle_mouse_moved_over_window(false, false, false, Some(1)).is_none()
    );
}

#[test]
fn the_focus_is_told_to_the_layout() {
    let mut r = Reactor::new(0);
    r.window_manager = windows(1);
    assert_eq!(
        r.focus_event(Some(window(1)), Some(3)),
        Some(LayoutEvent::WindowFocused(3, window(1)))
    );
    assert_eq!(r.focus_event(Some(window(2)), Some(3)), None);
    assert_eq!(r.focus_event(Some(window(1)), None), None);
    assert!(r.lays_out(false));
    r.drag_manager.ensure_active_drag(window(1), frame(0), None);
    assert!(!r.lays_out(false));
    assert!(r.lays_out(true));
    assert_eq!(r.drag_manager.take_skipped_window(), Some(window(1)));
}

#[test]
fn windows_are_described_to_the_layout() {
    let w = windows(1);
    let out = w.lay_out(&vec![window(1), window(2)]);
    assert_eq!(out[0].title, Some("window 1".to_string()));
    assert_eq!(out[1].title, None);
    let mut places = VecMap::new();
    let _ = places.insert(window(1), 5);
    let updates = process_windows_for_app_rules(&w, &vec![window(1), window(2)], &places);
    assert_eq!(updates.len(), 1);
    assert_eq!((updates[0].space, updates[0].windows.clone()), (5, vec![window(1)]));
}

#[test]
fn applications_are_known_from_before() {
    let mut r = Reactor::new(0);
    let app = AppInfo { bundle_id: Some("a".to_string()), localized_name: None };
    assert_eq!(r.known_app_info(1, None), None);
    let _ = r.app_manager.apps.insert(1, app.clone());
    assert_eq!(r.known_app_info(1, None), Some(app));
    let given = AppInfo { bundle_id: None, localized_name: None };
    assert_eq!(r.known_app_info(1, Some(given.clone())), Some(given));
}

#[test]
fn unlisted_windows_are_given_up() {
    let mut r = Reactor::new(0);
    r.window_manager = windows(2);
    let mut facts = VecMap::new();
    let gone = StaleFacts {
        layer: 0,
        unsuitable: true,
        too_small: false,
        ordered_in: false,
        space: None,
    };
    let _ = facts.insert(101, gone);
    let _ = facts.insert(102, gone);
    assert_eq!(
        r.stale_windows(1, &vec![window(1)], &facts, &VecMap::new()),
        vec![window(2)]
    );
    r.refocus_manager.stale_cleanup_state = StaleCleanupState::Suppressed;
    assert!(r.stale_windows(1, &vec![window(1)], &facts, &VecMap::new()).is_empty());
}

#[test]
fn mission_control_is_switched_by_command() {
    let mut mc = MissionControlManager {
        mission_control_state: MissionControlState::Inactive,
        pending_mission_control_refresh: VecSet::new(),
    };
    assert!(CommandEventHandler::handle_command_reactor_set_mission_control_active(&mut mc, true));
    assert_eq!(mc.mission_control_state, MissionControlState::Active);
    assert!(!CommandEventHandler::handle_command_reactor_set_mission_control_active(&mut mc, true));
}

fn settings() -> AnimationSettings {
    AnimationSettings {
        interval_ns: 10,
        frames: 5,
        animate: true,
        layout_animate: None,
        transition: Transition::Slide,
        has_duration: true,
        low_power: false,
    }
}

#[test]
fn workspace_switches_slide_in() {
    let mut w = windows(1);
    let mut tx = TransactionManager::new(WindowTxStore::new());
    let mut counters = DeclineCounters { counts: DeclineSnapshot::default() };
    let mut apps = VecSet::new();
    let _ = apps.insert(1);
    let layout = vec![LayoutTarget {
        wid: window(1),
        frame: frame(7),
        unchanged: false,
        size_unchanged: true,
        duplicate: false,
        shown: true,
    }];
    assert!(AnimationManager::workspace_switch_wants_animation(&mut counters, &settings()));
    let instant = AnimationSettings { transition: Transition::Instant, ..settings() };
    assert!(!AnimationManager::workspace_switch_wants_animation(&mut counters, &instant));
    assert_eq!(decline_counts(&counters).transition_none, 1);
    let slid = AnimationManager::workspace_switch_animated(
        &mut w, &mut tx, &mut counters, &apps, &layout, 1000, None, &settings(),
    )
    .unwrap();
    assert_eq!(slid.dispatch, Dispatch::Replace);
    assert_eq!(slid.animation.windows[0].start, frame(1000));
    assert_eq!(slid.animation.windows[0].finish, frame(7));
    assert!(slid.changed);
    let settled = vec![LayoutTarget { unchanged: true, ..layout[0] }];
    let again = AnimationManager::workspace_switch_animated(
        &mut w, &mut tx, &mut counters, &apps, &settled, 1000, None, &settings(),
    )
    .unwrap();
    assert_eq!(again.dispatch, Dispatch::Replace);
    assert!(again.changed, "an animation was started");
    let nobody = AnimationManager::workspace_switch_animated(
        &mut w, &mut tx, &mut counters, &VecSet::new(), &layout, 1000, None, &settings(),
    )
    .unwrap();
    assert_eq!(nobody.dispatch, Dispatch::Nothing);
    assert!(!nobody.changed);
    let none = AnimationManager::workspace_switch_animated(
        &mut w, &mut tx, &mut counters, &apps, &layout, 1000, None, &instant,
    );
    assert!(none.is_none());
    assert_eq!(decline_counts(&counters).transition_none, 2);
    let mut other = windows(1);
    let placed = AnimationManager::workspace_switch_layout(
        &mut other, &mut tx, &mut counters, &apps, &layout, None,
    );
    assert!(placed.changed);
    assert_eq!(placed.batches[0].positions.len(), 1);
    assert!(placed.batches[0].frames.is_empty());
    let mut idle = DragManager::new();
    assert_eq!(idle.take_skipped_window(), None);
}
