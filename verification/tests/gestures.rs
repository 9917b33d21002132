use rift::collections::{VecMap, VecSet};
use rift::gesture_tap::{
    DockTap, GesturePhase, GestureRequest, GestureRoute, GestureSettings, GestureStep, GestureTap,
    HapticPattern, InputOrder, Motion, ScrollSettings, SwipeConfig, SwipeSettings, TouchSnapshot,
};
use rift::model::Frame;
use rift::reactor::event::LayoutMode;
use rift::spaces::authority::ForwardedSpaceState;
use rift::spaces::topology::ScreenInfo;
use rift::swipe::{Swipe, Touch};

fn swipe_settings(enabled: bool) -> SwipeSettings {
    SwipeSettings {
        enabled,
        invert_horizontal: false,
        vertical_tolerance: 0.4f64.to_bits(),
        skip_empty: true,
        fingers: 3,
        distance_pct: 0.1f64.to_bits(),
        haptics_enabled: true,
        haptic_pattern: HapticPattern::LevelChange,
        consume_dock_swipe: true,
    }
}

fn settings(swipe: bool, scroll: bool, mode: LayoutMode) -> GestureSettings {
    GestureSettings {
        swipe: swipe_settings(swipe),
        scroll: ScrollSettings {
            enabled: scroll,
            invert_horizontal: true,
            vertical_tolerance: 0.4f64.to_bits(),
            fingers: 0,
            distance_pct: 0.1f64.to_bits(),
        },
        layout_mode: mode,
    }
}

fn touch(contacts: usize, x: f64) -> TouchSnapshot {
    TouchSnapshot {
        contacts,
        centroid_x: x.to_bits(),
        centroid_y: 0.5f64.to_bits(),
        all_moved: true,
    }
}

fn still() -> Motion {
    Motion { swiped: false, leftward: false, level: false, sum: 0, far: false }
}

fn swiped(leftward: bool) -> Motion {
    Motion { swiped: true, leftward, ..still() }
}

fn tap(swipe: bool, scroll: bool, mode: LayoutMode) -> GestureTap {
    let mut tap = GestureTap::new(settings(swipe, scroll, mode));
    tap.multitouch = true;
    tap
}

#[test]
fn a_swipe_switches_the_workspace_once() {
    let mut tap = tap(true, false, LayoutMode::Bsp);
    assert_eq!(tap.on_touch_frame(touch(2, 0.5), None, swiped(true)), vec![]);
    assert_eq!(tap.on_touch_frame(touch(3, 0.5), None, still()), vec![]);
    assert_eq!(tap.route, Some(GestureRoute::Swipe));
    assert_eq!(tap.swipe.unwrap().state.phase, GesturePhase::Armed);
    assert_eq!(
        tap.on_touch_frame(touch(3, 0.3), None, swiped(true)),
        vec![
            GestureStep::Haptic(HapticPattern::LevelChange),
            GestureStep::NextWorkspace(Some(true)),
        ]
    );
    assert_eq!(tap.on_touch_frame(touch(3, 0.1), None, swiped(true)), vec![]);
    assert_eq!(tap.on_touch_frame(touch(0, 0.1), None, still()), vec![]);
    assert_eq!(tap.route, None);
}

#[test]
fn swipes_to_the_right_go_back() {
    let mut tap = tap(true, false, LayoutMode::Bsp);
    let _ = tap.on_touch_frame(touch(3, 0.5), None, still());
    assert_eq!(
        tap.on_touch_frame(touch(3, 0.7), None, swiped(false))[1],
        GestureStep::PrevWorkspace(Some(true))
    );
}

#[test]
fn strips_scroll_by_what_was_gathered() {
    let mut tap = tap(true, true, LayoutMode::Scrolling);
    assert_eq!(tap.on_touch_frame(touch(3, 0.5), None, still()), vec![]);
    assert_eq!(tap.route, None, "in a strip only the scrolling gesture counts");
    let _ = tap.on_touch_frame(touch(1, 0.5), None, still());
    assert_eq!(tap.route, Some(GestureRoute::Scroll));
    let gathered = Motion { level: true, sum: 0.05f64.to_bits(), ..still() };
    assert_eq!(tap.on_touch_frame(touch(1, 0.55), None, gathered), vec![]);
    assert_eq!(tap.scroll.unwrap().state.accum_dx, 0.05f64.to_bits());
    let far = Motion { level: true, sum: 0.125f64.to_bits(), far: true, ..still() };
    assert_eq!(
        tap.on_touch_frame(touch(1, 0.625), None, far),
        vec![GestureStep::ScrollStrip((-0.125f64).to_bits())]
    );
    assert_eq!(tap.scroll.unwrap().state.accum_dx, 0);
    let steep = Motion { level: false, sum: 9, far: true, ..still() };
    assert_eq!(tap.on_touch_frame(touch(1, 0.7), None, steep), vec![]);
    assert_eq!(tap.scroll.unwrap().state.last_x, 0.7f64.to_bits());
    let resting = TouchSnapshot { all_moved: false, ..touch(1, 0.9) };
    assert_eq!(tap.on_touch_frame(resting, None, far), vec![]);
    assert_eq!(tap.scroll.unwrap().state.last_x, 0.7f64.to_bits());
}

fn screen(space: Option<u64>) -> ScreenInfo {
    ScreenInfo {
        id: 1,
        display_uuid: 1,
        frame: Frame { x: 0, y: 0, width: 0, height: 0 },
        width: 0,
        height: 0,
        space,
    }
}

#[test]
fn the_mode_below_the_pointer_decides() {
    let mut tap = tap(true, true, LayoutMode::Bsp);
    let state = ForwardedSpaceState {
        screens: vec![screen(None), screen(Some(4))],
        fullscreen_spaces: VecSet::new(),
        has_seen_display_set: true,
        active_spaces: VecSet::new(),
        command_space: None,
        display_space_ids: vec![],
        last_user_space_by_display: VecMap::new(),
        space_remaps: vec![],
        display_set_changed: false,
        topology_changed: false,
        allow_space_remap: false,
        should_force_refresh_layout: false,
        resized_spaces: vec![],
        topology_window_delta: None,
    };
    assert_eq!(tap.on_request(GestureRequest::SpaceStateUpdated(state)), None);
    assert_eq!(tap.screen_spaces.len(), 1);
    assert_eq!(
        tap.on_request(GestureRequest::LayoutModesChanged(vec![
            (4, LayoutMode::Stack),
            (4, LayoutMode::Scrolling),
        ])),
        None
    );
    assert_eq!(tap.layout_mode_at(Some(0)), LayoutMode::Scrolling);
    assert_eq!(tap.layout_mode_at(Some(1)), LayoutMode::Bsp);
    assert_eq!(tap.layout_mode_at(None), LayoutMode::Bsp);
    let _ = tap.on_touch_frame(touch(1, 0.5), Some(0), still());
    assert_eq!(tap.route, Some(GestureRoute::Scroll));
}

#[test]
fn the_dock_tap_follows_recognition() {
    let mut tap = tap(true, false, LayoutMode::Bsp);
    let order = tap.sync_input_state();
    assert_eq!(order, InputOrder { recognition: true, dock_tap: DockTap::Create(1) });
    tap.dock_tap_created(1, false);
    assert!(!tap.dock_tap);
    tap.dock_tap_created(1, true);
    assert_eq!(tap.sync_input_state().dock_tap, DockTap::Keep);
    assert_eq!(tap.rebuild_dock_tap(7), None);
    assert_eq!(tap.rebuild_dock_tap(1), Some(2));
    assert!(!tap.dock_tap);
    let off = tap.on_request(GestureRequest::ConfigUpdated(settings(false, false, LayoutMode::Bsp)));
    assert_eq!(off, Some(InputOrder { recognition: false, dock_tap: DockTap::Remove }));
    assert!(!tap.gesture_handlers_enabled());
}

#[test]
fn configurations_are_read_with_at_least_one_finger() {
    assert!(SwipeConfig::from_config(swipe_settings(false)).is_none());
    let none = SwipeSettings { fingers: 0, skip_empty: false, ..swipe_settings(true) };
    let cfg = SwipeConfig::from_config(none).unwrap();
    assert_eq!(cfg.fingers, 1);
    assert_eq!(cfg.skip_empty_workspaces, None);
}

fn finger(stationary: bool, ended: bool) -> Touch {
    Touch { stationary, ended }
}

#[test]
fn listed_touches_make_a_swipe() {
    assert!(Swipe::new(swipe_settings(false)).is_none());
    let mut swipe = Swipe::new(swipe_settings(true)).unwrap();
    let down = vec![
        finger(true, false),
        finger(false, false),
        finger(false, false),
        finger(false, false),
    ];
    assert_eq!(swipe.handle_gesture(&down, 1, 2, still()), vec![]);
    assert_eq!(swipe.state.phase, GesturePhase::Armed);
    assert_eq!((swipe.state.start_x, swipe.state.start_y), (1, 2));
    assert_eq!(swipe.handle_gesture(&down, 3, 2, still()), vec![]);
    assert_eq!(swipe.handle_gesture(&down, 9, 2, swiped(true)).len(), 2);
    assert_eq!(swipe.handle_gesture(&down, 9, 2, swiped(true)), vec![]);
    assert_eq!(swipe.state.phase, GesturePhase::Committed);
    let lifting = vec![finger(false, true), finger(false, false), finger(false, false)];
    assert_eq!(swipe.handle_gesture(&lifting, 9, 2, still()), vec![]);
    assert_eq!(swipe.state.phase, GesturePhase::Idle);
}

#[test]
fn another_number_of_fingers_ends_a_swipe() {
    let mut swipe = Swipe::new(swipe_settings(true)).unwrap();
    let three = vec![finger(false, false), finger(false, false), finger(false, false)];
    let _ = swipe.handle_gesture(&three, 1, 2, still());
    let four = vec![finger(false, false); 4];
    assert_eq!(swipe.handle_gesture(&four, 1, 2, swiped(true)), vec![]);
    assert_eq!(swipe.state.phase, GesturePhase::Idle);
    let lifted = vec![finger(false, true); 3];
    let _ = swipe.handle_gesture(&three, 1, 2, still());
    assert_eq!(swipe.handle_gesture(&lifted, 1, 2, swiped(true)), vec![]);
    assert_eq!(swipe.state.phase, GesturePhase::Idle);
}
