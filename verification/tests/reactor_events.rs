use rift::collections::{VecMap, VecSet};
use rift::model::{AppInfo, Frame, MouseState, Quiet, Screen, WindowInfo, WindowServerInfo};
use rift::reactor::actor::{
    ActivationStep, AppEventHandler, Discovery, DiscoveryFacts, LevelReading, Reactor,
};
use rift::reactor::animation::LayoutTarget;
use rift::reactor::discovery::{LevelFacts, ListedWindow, StaleFacts, WindowDiscoveryHandler};
use rift::reactor::dispatch::{
    ConfigFacts, EventFacts, EventPlan, Outcome, OverFacts, SwapFacts,
};
use rift::reactor::drag_session::{
    best_space_for_window, drag_space_candidate, resolve_drag_space, DragEnd, SwapStep,
};
use rift::reactor::event::{
    Command, Direction, Event, LayoutCommand, LayoutEvent, LayoutMode, ReactorCommand, Requested,
};
use rift::reactor::layout::{LayoutStep, PassFacts, PassPlan, ScreenLayout};
use rift::reactor::managers::{DragState, FullscreenTrack, RefocusState, StaleCleanupState};
use rift::reactor::space::{PendingStep, SpaceFacts, SpaceStep};
use rift::reactor::window::{DestroyFacts, FrameFacts, FrameStep, MouseUpStep};
use rift::spaces::authority::SpaceEventKind;
use rift::window_id::WindowId;

fn rect(x: f64, y: f64, w: f64, h: f64) -> Frame {
    Frame { x: x.to_bits(), y: y.to_bits(), width: w.to_bits(), height: h.to_bits() }
}

fn window(idx: u32) -> WindowId {
    WindowId { pid: 1, idx }
}

fn info(idx: u32) -> WindowInfo {
    WindowInfo {
        is_standard: true,
        is_root: true,
        is_minimized: false,
        title: format!("window {idx}"),
        frame: rect(0.0, 0.0, 50.0, 50.0),
        sys_id: Some(100 + idx),
        bundle_id: None,
        path: None,
        ax_role: None,
        ax_subrole: None,
    }
}

fn server(id: u32, pid: i32) -> WindowServerInfo {
    WindowServerInfo { id, pid, layer: 0, frame: rect(0.0, 0.0, 50.0, 50.0) }
}

fn set<K: rift::collections::Key>(items: &[K]) -> VecSet<K> {
    let mut s = VecSet::new();
    for i in items {
        let _ = s.insert(*i);
    }
    s
}

fn levels() -> VecMap<u32, LevelReading> {
    let mut m = VecMap::new();
    for id in 101..110 {
        let facts = LevelFacts { is_sticky: false, level: Some(0) };
        let _ = m.insert(id, LevelReading { is_tiny: false, facts });
    }
    m
}

fn destroyed() -> DestroyFacts {
    DestroyFacts { no_user_space: false, alive: VecSet::new(), last_target: None }
}

fn discovery() -> DiscoveryFacts {
    DiscoveryFacts {
        stale: VecMap::new(),
        elsewhere: VecMap::new(),
        destroyed: destroyed(),
        levels: levels(),
        places: VecMap::new(),
        main_window_space: None,
        now: 0,
    }
}

fn places(items: &[(u32, u64)]) -> VecMap<WindowId, u64> {
    let mut m = VecMap::new();
    for (idx, space) in items {
        let _ = m.insert(window(*idx), *space);
    }
    m
}

fn still() -> FrameFacts {
    FrameFacts {
        matches_target: false,
        matches_current: false,
        same_size: true,
        old_space: None,
        new_space: None,
        old_active: true,
        new_active: true,
        drag_origin: None,
        drag_space: None,
        in_layout: true,
        sent_to: None,
        assigned_space: None,
        scrolls: false,
        now: 0,
    }
}

fn nothing_known() -> EventFacts {
    EventFacts {
        mouse: None,
        frame: still(),
        swap: SwapFacts {
            best_space: None,
            swap_origin: None,
            in_active_workspace: false,
            target: None,
        },
        final_space: None,
        best_space: None,
        best_is_active: false,
        command_space: None,
        raised_space: None,
        discovery: discovery(),
        space: SpaceFacts {
            current_space: None,
            several_active: false,
            hidden_assigned: false,
            assigned: VecMap::new(),
            conflicting: false,
            ordered_in: true,
            best_space: Some(1),
            first_known_space: Some(1),
            active: set(&[1]),
            server_window: None,
            tiny: false,
            can_launch: false,
            levels: levels(),
            destroyed: destroyed(),
        },
        space_kind: SpaceEventKind::User,
        over: OverFacts {
            in_active_workspace: true,
            order: vec![],
            inside: VecMap::new(),
            is_focused: false,
        },
        config: ConfigFacts { keys_changed: true, has_stack_line: true, has_controller: true },
        visible: vec![],
        asked: vec![],
        fullscreen: VecSet::new(),
    }
}

/// A reactor and a layout engine that only remembers which space each window is in.
struct World {
    reactor: Reactor,
    engine: Vec<(WindowId, u64)>,
    mode: LayoutMode,
}

impl World {
    fn new(screens: &[(Frame, u64)]) -> World {
        let mut w =
            World { reactor: Reactor::new(0), engine: vec![], mode: LayoutMode::Traditional };
        let frames = screens.iter().map(|s| s.0).collect();
        let spaces = screens.iter().map(|s| Some(s.1)).collect();
        w.send(Event::ScreenParametersChanged(frames, spaces, vec![]));
        w
    }

    fn two_displays() -> World {
        let left = rect(0.0, 0.0, 1000.0, 800.0);
        let right = rect(1000.0, 0.0, 1000.0, 800.0);
        let mut w = World::new(&[(left, 1), (right, 2)]);
        w.launch(1);
        w
    }

    fn launch(&mut self, count: u32) {
        self.send(Event::ApplicationLaunched {
            pid: 1,
            info: AppInfo { bundle_id: Some("a".to_string()), localized_name: None },
            is_frontmost: true,
            main_window: Some(window(1)),
            visible_windows: (1..=count).map(|i| (window(i), info(i))).collect(),
            window_server_info: (1..=count).map(|i| server(100 + i, 1)).collect(),
        });
    }

    fn spans(frame: Frame) -> [f64; 4] {
        let b = f64::from_bits;
        let (x, y) = (b(frame.x), b(frame.y));
        [x, y, x + b(frame.width), y + b(frame.height)]
    }

    fn contains(screens: &[Screen], frame: Frame) -> Vec<bool> {
        let [x0, y0, x1, y1] = World::spans(frame);
        let (x, y) = ((x0 + x1) / 2.0, (y0 + y1) / 2.0);
        let inside = |s: &Screen| {
            let [a, b, c, d] = World::spans(s.frame);
            a <= x && x < c && b <= y && y < d
        };
        screens.iter().map(inside).collect()
    }

    fn best(&self, frame: Frame) -> Option<u64> {
        World::best_on(&self.reactor.space_manager.screens, frame)
    }

    fn best_on(screens: &Vec<Screen>, frame: Frame) -> Option<u64> {
        let [x0, y0, x1, y1] = World::spans(frame);
        let overlap = |s: &Screen| {
            let [a, b, c, d] = World::spans(s.frame);
            ((x1.min(c) - x0.max(a)).max(0.0) * (y1.min(d) - y0.max(b)).max(0.0)) as i64
        };
        let areas = screens.iter().map(overlap).collect();
        best_space_for_window(screens, &World::contains(screens, frame), &areas)
    }

    fn frame(&self, wid: WindowId) -> Option<Frame> {
        self.reactor.window_manager.windows.get(&wid).map(|w| w.frame_monotonic)
    }

    fn facts(&self, event: &Event) -> EventFacts {
        let mut f = nothing_known();
        for (wid, w) in self.reactor.window_manager.windows.keys().into_iter().filter_map(|k| {
            self.reactor.window_manager.windows.get(&k).map(|w| (k, w.frame_monotonic))
        }) {
            if let Some(space) = self.best(w) {
                let _ = f.discovery.places.insert(wid, space);
            }
        }
        if let Event::ApplicationLaunched { visible_windows, .. } = event {
            for (wid, info) in visible_windows {
                let _ = f.discovery.places.insert(*wid, self.best(info.frame).unwrap_or(0));
            }
        }
        let main = self.reactor.main_window_tracker.main_window();
        let mut screens = self.reactor.space_manager.screens.clone();
        if let Event::SpaceChanged(spaces, _) = event {
            for (screen, space) in screens.iter_mut().zip(spaces) {
                screen.space = *space;
            }
        }
        f.discovery.main_window_space =
            main.and_then(|m| self.frame(m)).and_then(|frame| World::best_on(&screens, frame));
        if let Event::WindowFrameChanged(wid, frame, ..) = event {
            let known = self.frame(*wid).unwrap_or(*frame);
            let drag = &self.reactor.drag_manager;
            let settled = match drag.get_active_drag_session() {
                Some(session) => session.settled_space,
                None => self.best(known),
            };
            let screens = &self.reactor.space_manager.screens;
            f.frame = FrameFacts {
                matches_current: known == *frame,
                same_size: known.width == frame.width && known.height == frame.height,
                old_space: self.best(known),
                new_space: self.best(*frame),
                old_active: self.best(known).is_some(),
                new_active: self.best(*frame).is_some(),
                drag_origin: self.best(known),
                drag_space: resolve_drag_space(
                    settled,
                    true,
                    drag_space_candidate(screens, &World::contains(screens, *frame)),
                    self.best(*frame),
                ),
                assigned_space: self.engine.iter().find(|e| e.0 == *wid).map(|e| e.1),
                scrolls: self.mode == LayoutMode::Scrolling,
                ..still()
            };
        }
        if let Some(session) = self.reactor.drag_manager.get_active_drag_session() {
            f.final_space = self.frame(session.window).and_then(|frame| self.best(frame));
        }
        f
    }

    fn send(&mut self, event: Event) -> EventPlan {
        let facts = self.facts(&event);
        let plan = self.reactor.handle_event(event, &facts);
        for event in &plan.events {
            match event {
                LayoutEvent::WindowAdded(space, wid) => self.engine.push((*wid, *space)),
                LayoutEvent::WindowRemoved(wid)
                | LayoutEvent::WindowRemovedPreserveFloating(wid) => {
                    self.engine.retain(|e| e.0 != *wid);
                }
                LayoutEvent::WindowsOnScreenUpdated(space, _, windows, _) => {
                    for w in windows {
                        self.engine.retain(|e| e.0 != w.wid);
                        self.engine.push((w.wid, *space));
                    }
                }
                _ => {}
            }
        }
        plan
    }

    fn is_on_space(&self, space: u64, wid: WindowId) -> bool {
        self.engine.contains(&(wid, space))
    }

    fn moved(&mut self, frame: Frame, mouse: MouseState) -> EventPlan {
        self.send(Event::WindowFrameChanged(window(1), frame, None, Requested(false), Some(mouse)))
    }
}

fn step_of(plan: &EventPlan) -> FrameStep {
    match plan.outcome {
        Outcome::FrameChanged { step, .. } => step,
        _ => panic!("no frame changed"),
    }
}

#[test]
fn drag_cross_display_moves_space_via_finalize() {
    let mut w = World::two_displays();
    let wid = window(1);
    assert!(w.is_on_space(1, wid), "should start on s1");
    assert!(!w.is_on_space(2, wid));

    let right_frame = rect(1100.0, 100.0, 50.0, 50.0);
    let _ = w.moved(right_frame, MouseState::Down);
    let session =
        w.reactor.drag_manager.get_active_drag_session().expect("drag should be active");
    assert_eq!(session.settled_space, Some(2), "drag should resolve to s2");
    assert_eq!(session.origin_space, Some(1));

    let plan = w.send(Event::MouseUp);
    assert_eq!(
        plan.events,
        vec![LayoutEvent::WindowRemoved(wid), LayoutEvent::WindowAdded(2, wid)]
    );
    assert!(matches!(
        plan.outcome,
        Outcome::MouseUp(DragEnd { swap: None, assign_to: Some((2, x)), needs_layout: true })
            if x == wid
    ));
    assert!(w.is_on_space(2, wid), "after MouseUp must be on s2");
    assert!(!w.is_on_space(1, wid));
    assert!(!w.reactor.drag_manager.is_in_drag(), "drag inactive after MouseUp");
    assert!(w.send(Event::MouseUp).events.is_empty(), "the window is moved once");
}

#[test]
fn drag_within_same_display_does_not_move_space() {
    let mut w = World::two_displays();
    let _ = w.moved(rect(200.0, 200.0, 50.0, 50.0), MouseState::Down);
    let plan = w.send(Event::MouseUp);
    assert!(plan.events.is_empty());
    assert!(w.is_on_space(1, window(1)));
    assert!(!w.is_on_space(2, window(1)));
}

#[test]
fn drag_cancel_via_window_destroy_clears_drag() {
    let mut w = World::two_displays();
    let _ = w.moved(rect(1100.0, 100.0, 50.0, 50.0), MouseState::Down);
    assert!(w.reactor.drag_manager.is_in_drag());
    let plan = w.send(Event::WindowDestroyed(window(1)));
    assert!(
        !w.reactor.drag_manager.is_in_drag(),
        "destroying dragged window must clear drag"
    );
    assert_eq!(plan.events, vec![LayoutEvent::WindowRemoved(window(1))]);
    assert!(matches!(plan.outcome, Outcome::Destroyed(step) if step.removed && step.resets_swap));
}

#[test]
fn non_drag_space_change_still_works() {
    let mut w = World::two_displays();
    let plan = w.moved(rect(1100.0, 100.0, 50.0, 50.0), MouseState::Up);
    assert_eq!(
        step_of(&plan),
        FrameStep::ChangedSpace { to: Some(2), enters_layout: true }
    );
    assert!(w.is_on_space(2, window(1)), "non-drag must move s1->s2");
    assert!(!w.is_on_space(1, window(1)));
    assert_eq!(w.reactor.window_manager.window_server_space.get(&101), Some(&2));
}

#[test]
fn scrolling_tiled_window_ignores_geometry_only_space_change() {
    let mut w = World::two_displays();
    let command = LayoutCommand::SetWorkspaceLayout {
        workspace: None,
        mode: LayoutMode::Scrolling,
    };
    let plan = w.send(Event::Command(Command::Layout(command)));
    assert!(matches!(plan.outcome, Outcome::LayoutCommand(_)));
    w.mode = LayoutMode::Scrolling;
    let _ = w.moved(rect(1100.0, 100.0, 50.0, 50.0), MouseState::Up);
    assert!(w.is_on_space(1, window(1)), "scrolling tiled should NOT auto-move");
    assert!(!w.is_on_space(2, window(1)));
}

#[test]
fn a_release_that_was_missed_ends_the_drag() {
    let mut w = World::two_displays();
    let _ = w.moved(rect(1100.0, 100.0, 50.0, 50.0), MouseState::Down);
    let plan = w.moved(rect(1120.0, 100.0, 50.0, 50.0), MouseState::Up);
    assert!(matches!(
        plan.outcome,
        Outcome::FrameChanged { mouse_up: MouseUpStep::Finish, end: Some(_), .. }
    ));
    assert!(!w.reactor.drag_manager.is_in_drag());
    assert!(w.is_on_space(2, window(1)));
}

#[test]
fn a_swap_waits_for_the_release() {
    let mut w = World::new(&[(rect(0.0, 0.0, 1000.0, 800.0), 1)]);
    w.launch(2);
    let event = Event::WindowFrameChanged(
        window(1),
        rect(20.0, 0.0, 50.0, 50.0),
        None,
        Requested(false),
        Some(MouseState::Down),
    );
    let mut facts = w.facts(&event);
    facts.swap.in_active_workspace = true;
    facts.swap.target = Some(window(2));
    let plan = w.reactor.handle_event(event, &facts);
    assert!(matches!(
        plan.outcome,
        Outcome::FrameChanged { swap: SwapStep::Consider(1), step: FrameStep::DragMoved, .. }
    ));
    assert_eq!(
        w.reactor.drag_manager.drag_state,
        DragState::PendingSwap { dragged: window(1), target: window(2) }
    );
    let plan = w.send(Event::MouseUp);
    assert!(matches!(
        plan.outcome,
        Outcome::MouseUp(DragEnd { swap: Some((a, b)), needs_layout: true, .. })
            if a == window(1) && b == window(2)
    ));
    assert_eq!(w.reactor.drag_manager.drag_state, DragState::Inactive);
}

#[test]
fn resizes_are_told_to_the_layout_engine() {
    let mut w = World::two_displays();
    let wider = rect(0.0, 0.0, 80.0, 50.0);
    let plan = w.moved(wider, MouseState::Up);
    assert_eq!(step_of(&plan), FrameStep::Resized);
    assert!(plan.pass.is_resize);
    assert_eq!(
        plan.events,
        vec![LayoutEvent::WindowResized {
            wid: window(1),
            old_frame: rect(0.0, 0.0, 50.0, 50.0),
            new_frame: wider,
        }]
    );
}

#[test]
fn it_selects_main_window_when_space_is_enabled() {
    let pid = 3;
    let screen_frame = rect(0.0, 0.0, 1920.0, 1080.0);
    let mut w = World::new(&[(screen_frame, 1)]);
    let own = |idx| WindowId { pid, idx };
    w.send(Event::ApplicationLaunched {
        pid,
        info: AppInfo { bundle_id: None, localized_name: None },
        is_frontmost: false,
        main_window: Some(own(1)),
        visible_windows: vec![(own(1), info(1)), (own(2), info(2))],
        window_server_info: vec![server(101, pid), server(102, pid)],
    });
    w.send(Event::SpaceChanged(vec![None], vec![]));
    w.send(Event::ApplicationActivated(3, Quiet::No));
    w.send(Event::ApplicationGloballyActivated(3));
    w.send(Event::WindowsDiscovered {
        pid,
        new: vec![],
        known_visible: vec![own(1), own(2)],
    });
    assert_eq!(Some(own(1)), w.reactor.main_window_tracker.main_window());

    let plan = w.send(Event::SpaceChanged(vec![Some(1)], vec![]));
    assert_eq!(
        plan.events,
        vec![
            LayoutEvent::SpaceExposed(1, screen_frame),
            LayoutEvent::WindowFocused(1, own(1)),
        ]
    );
}

#[test]
fn events_are_told_apart() {
    let mut r = Reactor::new(0);
    let facts = nothing_known();
    let opened = r.handle_event(Event::MenuOpened, &facts);
    assert_eq!(opened.focus_follows_mouse, Some(false));
    let closed = r.handle_event(Event::MenuClosed, &facts);
    assert_eq!(closed.focus_follows_mouse, Some(true));
    let again = r.handle_event(Event::MenuClosed, &facts);
    assert_eq!(again.focus_follows_mouse, None);
    let entered = r.handle_event(Event::MissionControlNativeEntered, &facts);
    assert!(matches!(entered.outcome, Outcome::MissionControlEntered));
    assert_eq!(entered.focus_follows_mouse, Some(false));
    let gone = r.handle_event(Event::WindowDestroyed(window(1)), &facts);
    assert!(gone.pass.window_was_destroyed && gone.pass.update_notifications);
    assert!(gone.events.is_empty(), "an unknown window is not in the layout");
    let switched = r.handle_event(
        Event::Command(Command::Reactor(ReactorCommand::SwitchSpace(Direction::Left))),
        &facts,
    );
    assert!(matches!(switched.outcome, Outcome::SwitchSpace(Direction::Left)));
    let _ = r.handle_event(Event::WindowIsChangingScreens(44), &facts);
    assert!(r.space_manager.changing_screens.contains(&44));
    let asked = r.handle_event(Event::QueryWorkspaces, &facts);
    assert!(matches!(asked.outcome, Outcome::Query));
}

#[test]
fn events_change_what_is_known_of_a_window() {
    let mut w = World::two_displays();
    let wid = window(1);
    assert_eq!(w.send(Event::WindowMinimized(wid)).events, vec![LayoutEvent::WindowRemoved(wid)]);
    assert!(w.reactor.window_manager.windows.get(&wid).unwrap().is_minimized);
    assert!(w.send(Event::WindowMinimized(wid)).events.is_empty());
    let mut facts = nothing_known();
    facts.best_space = Some(1);
    facts.best_is_active = true;
    let plan = w.reactor.handle_event(Event::WindowDeminiaturized(wid), &facts);
    assert_eq!(plan.events, vec![LayoutEvent::WindowAdded(1, wid)]);
    let plan = w.send(Event::WindowTitleChanged(wid, "later".to_string()));
    assert!(matches!(plan.outcome, Outcome::TitleChanged(t) if t == "window 1"));
    assert_eq!(w.reactor.window_manager.windows.get(&wid).unwrap().title, "later");
    let created = Event::WindowCreated(window(2), info(2), Some(server(102, 1)), None);
    let plan = w.reactor.handle_event(created, &facts);
    assert!(matches!(
        plan.outcome,
        Outcome::Created(step) if step.added_to == Some(1) && step.applies_rules
    ));
    let over = w.reactor.handle_event(Event::MouseMovedOverWindow(102), &facts);
    assert!(matches!(over.outcome, Outcome::MouseOver(x, step) if x == window(2) && step.raises));
    assert_eq!(over.events, vec![LayoutEvent::WindowFocused(1, window(2))]);
    let woke = w.send(Event::SystemWoke);
    assert!(matches!(woke.outcome, Outcome::WatchWindows));
    assert_eq!(w.reactor.notification_manager.last_sls_notification_ids, vec![101, 102]);
    let closed = w.send(Event::ApplicationThreadTerminated(1));
    assert_eq!(closed.events, vec![LayoutEvent::AppClosed(1)]);
    assert!(!w.reactor.app_manager.apps.contains_key(&1));
}

#[test]
fn windows_gone_from_the_server_are_gone_from_the_record() {
    let mut w = World::two_displays();
    let mut facts = nothing_known();
    facts.space.ordered_in = false;
    let plan = w.reactor.handle_event(Event::WindowServerDestroyed(101, 1), &facts);
    match plan.outcome {
        Outcome::ServerDestroyed(steps) => assert!(matches!(
            steps[0],
            SpaceStep::Gone { wid, resets_swap: false } if wid == window(1)
        )),
        _ => panic!("another outcome"),
    }
    assert!(!w.reactor.window_manager.windows.contains_key(&window(1)));
    facts.space.server_window = Some(server(105, 1));
    let plan = w.reactor.handle_event(Event::WindowServerAppeared(105, 1), &facts);
    assert!(matches!(plan.outcome, Outcome::ServerAppeared(_)));
    assert!(w.reactor.window_manager.window_server_info.contains_key(&105));
}

#[test]
fn raised_windows_are_told_last() {
    let mut w = World::two_displays();
    let mut facts = nothing_known();
    facts.raised_space = Some(1);
    let _ = w.reactor.handle_event(Event::ApplicationGloballyActivated(1), &facts);
    let event = Event::ApplicationMainWindowChanged(1, None, Quiet::No);
    let _ = w.reactor.handle_event(event, &facts);
    let event = Event::ApplicationMainWindowChanged(1, Some(window(1)), Quiet::No);
    let plan = w.reactor.handle_event(event, &facts);
    assert_eq!(plan.focus, Some(LayoutEvent::WindowFocused(1, window(1))));
    assert!(plan.events.is_empty());
}

#[test]
fn space_changes_wait_for_mission_control() {
    let left = rect(0.0, 0.0, 1000.0, 800.0);
    let mut w = World::new(&[(left, 1)]);
    let track = FullscreenTrack { pids: set(&[1]), last_removed: vec![] };
    let _ = w.reactor.space_manager.fullscreen_by_space.insert(4, track);
    let mut facts = nothing_known();
    let _ = w.reactor.handle_event(Event::MissionControlNativeEntered, &facts);
    let plan = w.reactor.handle_event(Event::SpaceChanged(vec![Some(4)], vec![]), &facts);
    assert!(plan.events.is_empty());
    assert_eq!(w.reactor.space_manager.screens[0].space, Some(1));
    facts.visible = vec![server(101, 1)];
    facts.asked = vec![1];
    let plan = w.reactor.handle_event(Event::MissionControlNativeExited, &facts);
    match plan.outcome {
        Outcome::MissionControlExited(PendingStep::Apply(_), left) => assert_eq!(left.len(), 1),
        _ => panic!("the change should be made"),
    }
    assert_eq!(plan.events, vec![LayoutEvent::SpaceExposed(4, left)]);
    assert_eq!(w.reactor.space_manager.screens[0].space, Some(4));
    assert_eq!(w.reactor.refocus_manager.refocus_state, RefocusState::Pending(1));
    assert!(w.reactor.window_manager.visible_windows.contains(&101));
    assert!(w.reactor.mission_control_manager.pending_mission_control_refresh.contains(&1));
    assert!(w.reactor.pending_space_change.is_none());

    let plan = w.reactor.handle_event(Event::SpaceChanged(vec![None], vec![]), &facts);
    assert!(matches!(plan.outcome, Outcome::SpaceChanged(PendingStep::Apply(_), _)));
    assert_eq!(w.reactor.refocus_manager.stale_cleanup_state, StaleCleanupState::Suppressed);
    facts.fullscreen = set(&[9]);
    let plan = w.reactor.handle_event(Event::SpaceChanged(vec![Some(9)], vec![]), &facts);
    assert!(matches!(plan.outcome, Outcome::SpaceChanged(PendingStep::Dropped, _)));
    let plan = w.reactor.handle_event(Event::SpaceChanged(vec![], vec![]), &facts);
    assert!(matches!(plan.outcome, Outcome::SpaceChanged(PendingStep::Nothing, _)));
    assert!(w.reactor.pending_space_change.is_some());
}

fn pass_facts() -> PassFacts {
    PassFacts { animate: true, low_power: false, stack_line: false, has_reporter: true }
}

fn target(idx: u32, frame: Frame) -> LayoutTarget {
    LayoutTarget {
        wid: window(idx),
        frame,
        unchanged: frame == rect(0.0, 0.0, 50.0, 50.0),
        size_unchanged: true,
        duplicate: false,
        shown: true,
    }
}

fn screen(space: Option<u64>, layout: Vec<LayoutTarget>) -> ScreenLayout {
    ScreenLayout { space, has_workspace: true, layout }
}

#[test]
fn a_pass_uses_up_the_window_it_leaves_alone() {
    let mut w = World::two_displays();
    w.reactor.drag_manager.ensure_active_drag(window(1), rect(0.0, 0.0, 50.0, 50.0), Some(1));
    assert_eq!(w.reactor.drag_manager.skip_layout_for_window, Some(window(1)));
    let moved = rect(9.0, 0.0, 50.0, 50.0);
    let screens = vec![screen(Some(1), vec![target(1, moved)])];
    let r = w.reactor.update_layout(&screens, &set(&[1]), false, false, pass_facts());
    assert!(!r.changed);
    assert_eq!(w.reactor.drag_manager.skip_layout_for_window, None);
    assert_eq!(w.frame(window(1)), Some(rect(0.0, 0.0, 50.0, 50.0)));
    let _ = w.send(Event::MouseUp);
    let r = w.reactor.update_layout(&screens, &set(&[1]), false, true, pass_facts());
    assert!(r.changed);
    assert_eq!(r.placed[0].batches.len(), 1);
    w.reactor.window_manager.record_frames(&r.placed[0].batches[0].frames);
    assert_eq!(w.frame(window(1)), Some(moved));
}

#[test]
fn all_screens_are_laid_out_in_one_pass() {
    let mut w = World::new(&[(rect(0.0, 0.0, 1000.0, 800.0), 1)]);
    w.launch(2);
    let a = rect(9.0, 0.0, 50.0, 50.0);
    let b = rect(7.0, 0.0, 50.0, 50.0);
    let screens = vec![
        screen(Some(1), vec![target(1, a)]),
        screen(None, vec![target(2, a)]),
        screen(Some(2), vec![target(2, b)]),
    ];
    let r = w.reactor.update_layout(&screens, &set(&[1]), false, false, pass_facts());
    assert_eq!(r.placed.len(), 2);
    assert_eq!(r.steps.len(), 3);
    assert!(matches!(r.steps[0], LayoutStep::Place(1)));
    assert!(matches!(r.steps[1], LayoutStep::Place(2)));
    assert!(matches!(r.steps[2], LayoutStep::Menu));
    assert_eq!((r.notices[0].before.len(), r.notices[1].after.len()), (2, 2));
    assert_eq!((w.frame(window(1)), w.frame(window(2))), (Some(a), Some(b)));
    let txid = w.reactor.window_manager.windows.get(&window(1)).unwrap().last_sent_txid;
    assert_eq!(w.reactor.transaction_manager.get_last_sent_txid(101), txid);
}

#[test]
fn windows_are_not_laid_out_while_one_is_dragged() {
    let mut w = World::two_displays();
    let plan = w.moved(rect(200.0, 200.0, 50.0, 50.0), MouseState::Down);
    let screens = vec![screen(Some(1), vec![])];
    let apps = set(&[1]);
    let end = w.reactor.complete_event(plan.pass, &screens, &apps, pass_facts());
    assert!(end.pass.is_none() && !end.watch);
    let gone = PassPlan { window_was_destroyed: true, ..plan.pass };
    assert!(w.reactor.complete_event(gone, &screens, &apps, pass_facts()).pass.is_some());
    let plan = w.send(Event::MouseUp);
    assert!(w.reactor.complete_event(plan.pass, &screens, &apps, pass_facts()).pass.is_some());
    let command = Event::Command(Command::Layout(LayoutCommand::SwitchToWorkspace(2)));
    let plan = w.send(command);
    assert!(w.reactor.workspace_switch_manager.active_workspace_switch.is_some());
    let end = w.reactor.complete_event(plan.pass, &screens, &apps, pass_facts());
    assert!(!end.pass.unwrap().changed);
    assert_eq!(w.reactor.workspace_switch_manager.active_workspace_switch, None);
    let created = Event::WindowCreated(window(2), info(2), None, None);
    let plan = w.send(created);
    assert!(w.reactor.complete_event(plan.pass, &screens, &apps, pass_facts()).watch);
    assert_eq!(w.reactor.notification_manager.last_sls_notification_ids, vec![101, 102]);
}

#[test]
fn launched_applications_are_recorded() {
    let mut r = Reactor::new(0);
    let app = AppInfo { bundle_id: Some("a".to_string()), localized_name: None };
    let _ = AppEventHandler::handle_application_launched(
        &mut r,
        1,
        app,
        &vec![(window(7), info(7))],
        &vec![server(107, 1)],
        &discovery(),
    );
    assert!(AppEventHandler::handle_application_terminated(&r, 1));
    assert!(!AppEventHandler::handle_application_terminated(&r, 2));
    assert!(r.window_manager.visible_windows.contains(&107));
    assert!(r.window_manager.windows.get(&window(7)).unwrap().is_manageable);
    assert_eq!(
        AppEventHandler::handle_application_thread_terminated(&mut r, 1),
        LayoutEvent::AppClosed(1)
    );
    assert!(!AppEventHandler::handle_application_terminated(&r, 1));
    assert!(matches!(
        AppEventHandler::handle_application_activated(Quiet::Yes),
        ActivationStep::Ignore
    ));
    assert!(matches!(
        AppEventHandler::handle_application_activated(Quiet::No),
        ActivationStep::ConsiderSwitch
    ));
}

#[test]
fn discovered_windows_are_laid_out_by_screen() {
    let mut r = Reactor::new(0);
    r.space_manager.screens =
        vec![Screen { frame: rect(0.0, 0.0, 50.0, 50.0), space: Some(1) }];
    let _ = r.window_manager.visible_windows.insert(101);
    let facts = DiscoveryFacts { places: places(&[(1, 1)]), ..discovery() };
    let d: Discovery = AppEventHandler::handle_windows_discovered(
        &mut r,
        1,
        &vec![(window(1), info(1))],
        &vec![window(1)],
        &facts,
    );
    assert_eq!(d.updates.len(), 1);
    assert_eq!(d.updates[0].windows, vec![window(1)]);
    assert_eq!(d.focus, None);
    assert!(r.create_window_data(window(1), true).is_none());
    let app = AppInfo { bundle_id: Some("a".to_string()), localized_name: None };
    let _ = r.app_manager.apps.insert(1, app);
    let data = r.create_window_data(window(1), true).unwrap();
    assert!(data.is_floating);
    assert_eq!(data.bundle_id, Some("a".to_string()));
    assert_eq!(data.window_server_id, Some(101));
}

#[test]
fn windows_that_are_no_longer_listed_are_dropped() {
    let mut w = World::two_displays();
    w.launch(2);
    w.send(Event::ScreenParametersChanged(
        vec![rect(0.0, 0.0, 1000.0, 800.0)],
        vec![Some(1)],
        vec![],
    ));
    let mut facts = nothing_known();
    let fact = StaleFacts {
        layer: 0,
        unsuitable: false,
        too_small: false,
        ordered_in: false,
        space: Some(1),
    };
    let _ = facts.discovery.stale.insert(102, fact);
    facts.discovery.destroyed.last_target = Some(window(2));
    let event = Event::WindowsDiscovered {
        pid: 1,
        new: vec![],
        known_visible: vec![window(1)],
    };
    let plan = w.reactor.handle_event(event, &facts);
    assert_eq!(plan.events[0], LayoutEvent::WindowRemoved(window(2)));
    match plan.outcome {
        Outcome::Discovered(d) => {
            assert_eq!(d.stale, vec![window(2)]);
            assert!(d.gone[0].wid == window(2) && d.gone[0].resets_swap);
        }
        _ => panic!("another outcome"),
    }
    assert!(!w.reactor.window_manager.windows.contains_key(&window(2)));
    assert!(w.reactor.window_manager.windows.contains_key(&window(1)));
}

#[test]
fn discovered_windows_are_new_or_known() {
    let listed = |idx: u32| ListedWindow {
        wid: window(idx),
        info: info(idx),
        frame_is_empty: false,
        is_manageable: true,
    };
    let mut r = Reactor::new(0);
    r.space_manager.screens =
        vec![Screen { frame: rect(0.0, 0.0, 50.0, 50.0), space: Some(1) }];
    let list = vec![listed(1), listed(2)];
    let (first, again) =
        WindowDiscoveryHandler::process_window_list(&mut r.window_manager, &list, false);
    assert_eq!((first.len(), again.len()), (2, 0));
    WindowDiscoveryHandler::update_window_states(&mut r.window_manager, &first, &again);
    let mut later = info(2);
    later.title = "later".to_string();
    later.frame = rect(3.0, 3.0, 0.0, 0.0);
    let facts = DiscoveryFacts {
        places: places(&[(1, 1), (2, 1), (3, 1)]),
        now: 500,
        ..discovery()
    };
    let d = WindowDiscoveryHandler::handle_discovery(
        &mut r,
        1,
        &vec![(window(2), later), (window(3), info(3))],
        &vec![window(1), window(2), window(3)],
        false,
        &facts,
    );
    assert_eq!(d.focus, None);
    assert_eq!(d.updates[0].windows.len(), 3);
    let second = r.window_manager.windows.get(&window(2)).unwrap();
    assert_eq!(second.title, "later");
    assert_eq!(second.frame_monotonic, rect(0.0, 0.0, 50.0, 50.0));
    assert_eq!(r.window_manager.window_ids.get(&103), Some(&window(3)));
}
