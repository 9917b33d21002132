use rift::collections::{VecMap, VecSet};
use rift::drag::{
    DragCommit, DragKind, DragSource, DropTarget, DropZone, WindowDropAction,
};
use rift::model::{Frame, Point, Screen, WindowInfo, WindowServerInfo};
use rift::reactor::actor::LevelReading;
use rift::reactor::animation::{
    AnimationManager, AnimationSettings, DeclineCounters, DeclineSnapshot, Dispatch, LayoutTarget,
    Transition,
};
use rift::reactor::commands::{CommandEventHandler, CommandRoute, ConfigStep, FocusCommand};
use rift::reactor::discovery::{LevelFacts, ListedWindow};
use rift::reactor::drop::{
    build_drag_scene, floating_workspace, handle_mouse_up, requested_drop, DropCandidate,
    DropFacts, MouseUpPayload, WindowDropRequest,
};
use rift::reactor::event::{LayoutCommand, LayoutEvent};
use rift::reactor::layout::{
    animation_notices, any_frame_changed, begin_layout_response,
    handle_app_activation_workspace_switch, handle_layout_response, layout_steps,
    prepare_refocus_after_layout_event, raise_window, store_current_floating_positions,
    suppresses_animation, workspace_command_space, workspace_index, ActivationFacts, AnimationRun,
    AutoSwitch, EventNotice, EventResponse, LayoutPass, LayoutStep, ResponseFacts, ResponseStep,
};
use rift::reactor::managers::{
    DragManager, DragState, MissionControlManager, MissionControlState, RefocusManager,
    RefocusState, StaleCleanupState, WindowManager, WorkspaceSwitchManager,
    WorkspaceSwitchState,
};
use rift::reactor::space::{
    apply_topology_window_delta, record_fullscreen_window, SpaceEventHandler, SpaceFacts, SpaceStep,
};
use rift::reactor::window::DestroyFacts;
use rift::reactor::transaction_manager::{TransactionId, TransactionManager, WindowTxStore};
use rift::spaces::authority::SpaceEventKind;
use rift::spaces::topology::TopologyWindowDelta;
use rift::window_id::WindowId;
use rift::window_notify::CGSEventType;

fn rect(x: f64, y: f64, w: f64, h: f64) -> Frame {
    Frame { x: x.to_bits(), y: y.to_bits(), width: w.to_bits(), height: h.to_bits() }
}

fn start() -> Frame {
    rect(0.0, 0.0, 50.0, 50.0)
}

fn window(idx: u32) -> WindowId {
    WindowId { pid: 1, idx }
}

fn info(sys_id: u32) -> WindowInfo {
    WindowInfo {
        is_standard: true,
        is_root: true,
        is_minimized: false,
        title: "title".to_string(),
        frame: start(),
        sys_id: Some(sys_id),
        bundle_id: None,
        path: None,
        ax_role: None,
        ax_subrole: None,
    }
}

fn listed(idx: u32) -> ListedWindow {
    ListedWindow {
        wid: window(idx),
        info: info(100 + idx),
        frame_is_empty: false,
        is_manageable: true,
    }
}

fn windows(count: u32) -> WindowManager {
    let mut w = WindowManager::new();
    w.update_window_states((1..=count).map(listed).collect());
    for idx in 1..=count {
        let _ = w.visible_windows.insert(100 + idx);
    }
    w
}

fn apps() -> VecSet<i32> {
    let mut a = VecSet::new();
    let _ = a.insert(1);
    a
}

fn spaces(items: &[u64]) -> VecSet<u64> {
    let mut s = VecSet::new();
    for i in items {
        let _ = s.insert(*i);
    }
    s
}

fn places(items: &[(u32, u64)]) -> VecMap<WindowId, u64> {
    let mut m = VecMap::new();
    for (idx, space) in items {
        let _ = m.insert(window(*idx), *space);
    }
    m
}

fn refocus() -> RefocusManager {
    RefocusManager {
        stale_cleanup_state: StaleCleanupState::Enabled,
        refocus_state: RefocusState::Idle,
    }
}

fn switch() -> WorkspaceSwitchManager {
    WorkspaceSwitchManager {
        workspace_switch_state: WorkspaceSwitchState::Inactive,
        workspace_switch_generation: 4,
        active_workspace_switch: None,
        last_auto_workspace_switch: None,
    }
}

fn facts() -> SpaceFacts {
    SpaceFacts {
        current_space: None,
        several_active: false,
        hidden_assigned: false,
        assigned: VecMap::new(),
        conflicting: false,
        ordered_in: true,
        best_space: Some(1),
        first_known_space: Some(1),
        active: spaces(&[1]),
        server_window: None,
        tiny: false,
        can_launch: false,
        levels: VecMap::new(),
        destroyed: DestroyFacts {
            no_user_space: false,
            alive: VecSet::new(),
            last_target: None,
        },
    }
}

#[test]
fn windows_leave_and_come_back_from_fullscreen() {
    let mut w = windows(1);
    let mut tracks = vec![];
    let on_first = SpaceFacts { assigned: places(&[(1, 1)]), ..facts() };
    let left = SpaceEventHandler::handle_window_server_appeared(
        &mut w,
        &mut tracks,
        101,
        9,
        SpaceEventKind::Fullscreen,
        &on_first,
        &apps(),
        false,
    );
    assert!(matches!(left[0], SpaceStep::RemovePreservingFloating(x) if x == window(1)));
    assert!(matches!(left[1], SpaceStep::UpdateLayout));
    assert_eq!(tracks.len(), 1);
    assert_eq!(tracks[0].last_known_user_space, Some(1));
    let back = SpaceEventHandler::handle_window_server_appeared(
        &mut w,
        &mut tracks,
        101,
        1,
        SpaceEventKind::User,
        &on_first,
        &apps(),
        false,
    );
    assert!(tracks.is_empty());
    assert!(matches!(back[0], SpaceStep::ClearConfirmedTarget(101, 1)));
    assert!(matches!(back[1], SpaceStep::AskVisibleWindows(1)));
    assert!(matches!(
        back[2],
        SpaceStep::RestoreToLayout { wid, space: 1, update_layout: true } if wid == window(1)
    ));
    assert_eq!(w.window_server_space.get(&101), Some(&1));
}

#[test]
fn a_window_is_recorded_once() {
    let mut tracks = vec![];
    record_fullscreen_window(&mut tracks, 9, 1, None, Some(101), None);
    record_fullscreen_window(&mut tracks, 9, 1, Some(window(1)), Some(101), Some(3));
    assert_eq!(tracks.len(), 1);
    assert_eq!(tracks[0].window_id, Some(window(1)));
    assert_eq!(tracks[0].last_known_user_space, Some(3));
    record_fullscreen_window(&mut tracks, 9, 1, None, Some(102), None);
    assert_eq!(tracks.len(), 2);
}

#[test]
fn outdated_space_events_are_ignored() {
    let mut w = windows(1);
    let mut tracks = vec![];
    let mut tx = TransactionManager::new(WindowTxStore::new());
    let mut drag = DragManager::new();
    let elsewhere = SpaceFacts { current_space: Some(2), ..facts() };
    for kind in [SpaceEventKind::User] {
        assert!(SpaceEventHandler::handle_window_server_destroyed(
            &mut w, &mut tx, &mut drag, &mut tracks, 101, 1, kind, &elsewhere, &apps(), false
        )
        .is_empty());
        assert!(SpaceEventHandler::handle_window_server_appeared(
            &mut w, &mut tracks, 101, 1, kind, &elsewhere, &apps(), false
        )
        .is_empty());
    }
    assert!(w.visible_windows.contains(&101));
}

#[test]
fn windows_that_leave_the_server_are_destroyed() {
    let mut w = windows(1);
    let mut tracks = vec![];
    let mut tx = TransactionManager::new(WindowTxStore::new());
    let mut drag = DragManager::new();
    drag.ensure_active_drag(window(1), start(), Some(1));
    let gone = SpaceFacts { ordered_in: false, ..facts() };
    let steps = SpaceEventHandler::handle_window_server_destroyed(
        &mut w,
        &mut tx,
        &mut drag,
        &mut tracks,
        101,
        1,
        SpaceEventKind::User,
        &gone,
        &apps(),
        false,
    );
    assert_eq!(steps.len(), 1);
    assert!(matches!(
        steps[0],
        SpaceStep::Gone { wid, resets_swap: true } if wid == window(1)
    ));
    assert!(!w.windows.contains_key(&window(1)));
    assert!(!drag.is_in_drag());
}

#[test]
fn new_windows_are_asked_for() {
    let mut w = WindowManager::new();
    let mut tracks = vec![];
    let server = WindowServerInfo { id: 7, pid: 1, layer: 0, frame: start() };
    let seen = SpaceFacts { server_window: Some(server), ..facts() };
    let steps = SpaceEventHandler::handle_window_server_appeared(
        &mut w,
        &mut tracks,
        7,
        1,
        SpaceEventKind::User,
        &seen,
        &apps(),
        false,
    );
    assert_eq!(steps.len(), 2);
    assert!(matches!(steps[1], SpaceStep::AskVisibleWindows(1)));
    assert_eq!(w.window_server_info.get(&7), Some(&server));
    assert!(w.visible_windows.contains(&7));
    let tiny = SpaceFacts { server_window: Some(server), tiny: true, ..facts() };
    let none = SpaceEventHandler::handle_window_server_appeared(
        &mut w,
        &mut tracks,
        8,
        1,
        SpaceEventKind::User,
        &tiny,
        &apps(),
        false,
    );
    assert_eq!(none.len(), 1);
}

#[test]
fn windows_follow_their_displays() {
    let mut w = windows(1);
    let mut tracks = vec![];
    let mut delta = TopologyWindowDelta::default();
    let _ = delta.appeared.insert(101, 2);
    let steps = apply_topology_window_delta(
        &mut w,
        &mut tracks,
        &delta,
        101,
        &facts(),
        &apps(),
    );
    assert_eq!(w.window_server_space.get(&101), Some(&2));
    assert!(!w.visible_windows.contains(&101));
    assert!(matches!(
        steps[0],
        SpaceStep::Reassign { wid, space: 2, update_layout: false } if wid == window(1)
    ));
}

#[test]
fn mission_control_ends_a_drag() {
    let mut drag = DragManager::new();
    drag.ensure_active_drag(window(1), start(), Some(1));
    let mut mc = MissionControlManager {
        mission_control_state: MissionControlState::Inactive,
        pending_mission_control_refresh: VecSet::new(),
    };
    assert!(SpaceEventHandler::handle_mission_control_native_entered(&mut drag, &mut mc));
    assert_eq!(drag.drag_state, DragState::Inactive);
    assert!(!SpaceEventHandler::handle_mission_control_native_entered(&mut drag, &mut mc));
    assert!(SpaceEventHandler::handle_mission_control_native_exited(&mut mc));
    assert!(!SpaceEventHandler::handle_mission_control_native_exited(&mut mc));
}

fn source(origin: Option<u64>, current: Option<u64>, tiled: bool) -> DragSource {
    DragSource {
        window: window(1),
        origin_frame: start(),
        last_frame: rect(9.0, 9.0, 50.0, 50.0),
        origin_space: origin,
        current_space: current,
        tiled,
    }
}

fn commit(s: DragSource, target: Option<DropTarget>) -> DragCommit {
    DragCommit { source: s, target, pointer: Point { x: 0, y: 0 }, kind: DragKind::NativeMove }
}

fn target(idx: u32) -> DropTarget {
    DropTarget {
        window: window(idx),
        space: 1,
        frame: start(),
        tiling_area: start(),
        preview_area: start(),
        zone: DropZone::Center,
        action: WindowDropAction::Swap,
    }
}

#[test]
fn drops_need_two_known_windows() {
    let w = windows(2);
    let onto = commit(source(Some(1), Some(1), true), Some(target(2)));
    assert_eq!(
        requested_drop(&w, &onto),
        Some(WindowDropRequest {
            source: window(1),
            target: window(2),
            space: 1,
            action: WindowDropAction::Swap,
        })
    );
    let unknown = commit(source(Some(1), Some(1), true), Some(target(5)));
    assert_eq!(requested_drop(&w, &unknown), None);
    let elsewhere = commit(source(Some(1), Some(2), true), Some(target(2)));
    assert_eq!(requested_drop(&w, &elsewhere), None);
}

#[test]
fn a_window_dropped_in_another_space_moves_there() {
    let mut w = windows(2);
    let moved = handle_mouse_up(
        &mut w,
        Some(commit(source(Some(1), Some(2), false), None)),
        MouseUpPayload { final_space: Some(2) },
        DropFacts { dropped: false, admitted: true, floating: true },
    );
    assert_eq!(
        moved.outcome.layout_events,
        vec![LayoutEvent::WindowRemoved(window(1)), LayoutEvent::WindowAdded(2, window(1))]
    );
    assert_eq!(moved.outcome.arrange_passes, 1);
    assert_eq!(moved.assign, Some(2));
    assert!(moved.release_controlled);
    assert!(moved.forget_position);
    assert_eq!(moved.keep_position, Some((2, rect(9.0, 9.0, 50.0, 50.0))));
    assert_eq!(w.window_server_space.get(&101), Some(&2));
    let kept = handle_mouse_up(
        &mut w,
        Some(commit(source(Some(1), Some(1), false), None)),
        MouseUpPayload { final_space: Some(1) },
        DropFacts { dropped: false, admitted: true, floating: false },
    );
    assert!(kept.outcome.layout_events.is_empty());
    assert_eq!(kept.outcome.arrange_passes, 0);
    let nothing = handle_mouse_up(
        &mut w,
        None,
        MouseUpPayload { final_space: Some(2) },
        DropFacts { dropped: true, admitted: true, floating: true },
    );
    assert_eq!(nothing.assign, None);
    assert!(!nothing.release_controlled);
    let unknown = DragSource { window: window(9), ..source(Some(1), Some(1), false) };
    let gone = handle_mouse_up(
        &mut w,
        Some(commit(unknown, None)),
        MouseUpPayload { final_space: Some(2) },
        DropFacts { dropped: false, admitted: true, floating: false },
    );
    assert_eq!(gone.outcome.layout_events, vec![LayoutEvent::WindowRemoved(window(9))]);
    assert_eq!(gone.assign, None);
    assert_eq!(floating_workspace(None, Some(4)), Some(4));
    assert_eq!(floating_workspace(Some(3), Some(4)), Some(3));
}

#[test]
fn a_scene_holds_the_other_known_windows() {
    let w = windows(2);
    let candidate = |idx| DropCandidate {
        window: window(idx),
        center_frame: None,
        west_frame: None,
        east_frame: None,
        north_frame: None,
        south_frame: None,
        directional: false,
    };
    let scene =
        build_drag_scene(&w, &vec![candidate(1), candidate(2), candidate(3)], window(1), 4);
    assert_eq!(scene.len(), 1);
    assert_eq!((scene[0].window, scene[0].space, scene[0].frame), (window(2), 4, start()));
}

#[test]
fn workspace_commands_go_to_workspaces() {
    let mut s = switch();
    let plan = CommandEventHandler::handle_command_layout(
        &mut s,
        &LayoutCommand::SwitchToWorkspace(2),
        Some(7),
    );
    assert_eq!(plan.store_floating, Some(7));
    assert_eq!(plan.route, CommandRoute::Workspaces(7));
    assert_eq!(s.active_workspace_switch, Some(5));
    let none =
        CommandEventHandler::handle_command_layout(&mut s, &LayoutCommand::CreateWorkspace, None);
    assert_eq!(none.route, CommandRoute::Nobody);
    let engine = CommandEventHandler::handle_command_layout(
        &mut s,
        &LayoutCommand::Other("toggle_stack".to_string()),
        Some(7),
    );
    assert_eq!(engine.route, CommandRoute::Engine(Some(7)));
    assert_eq!(engine.store_floating, None);
}

#[test]
fn known_windows_are_raised_and_others_made_key() {
    let w = windows(1);
    match CommandEventHandler::handle_command_reactor_focus_window(
        &w,
        window(1),
        None,
        Some(3),
        &apps(),
    ) {
        FocusCommand::Raise(event, request) => {
            assert_eq!(event, Some(LayoutEvent::WindowFocused(3, window(1))));
            assert_eq!(request.focus_window, Some(window(1)));
            assert_eq!(request.apps, vec![1]);
        }
        _ => panic!("a known window is raised"),
    }
    assert!(matches!(
        CommandEventHandler::handle_command_reactor_focus_window(
            &w,
            window(9),
            Some(55),
            None,
            &apps()
        ),
        FocusCommand::MakeKey(1, 55)
    ));
    assert!(matches!(
        CommandEventHandler::handle_command_reactor_focus_window(
            &w,
            window(9),
            None,
            None,
            &apps()
        ),
        FocusCommand::Nothing
    ));
    let relayout = ConfigStep::Relayout { is_resize: false, is_workspace_switch: true };
    assert_eq!(
        CommandEventHandler::handle_config_updated(true, true, true),
        vec![
            ConfigStep::LayoutSettings,
            ConfigStep::DragSettings,
            ConfigStep::StackLine,
            relayout,
            ConfigStep::Hotkeys,
        ]
    );
    assert_eq!(
        CommandEventHandler::handle_config_updated(false, false, true),
        vec![ConfigStep::LayoutSettings, ConfigStep::DragSettings, relayout]
    );
    assert_eq!(
        CommandEventHandler::handle_config_updated(true, false, false),
        vec![ConfigStep::LayoutSettings, ConfigStep::DragSettings, relayout]
    );
}

fn to(idx: u32, frame: Frame) -> LayoutTarget {
    LayoutTarget {
        wid: window(idx),
        frame,
        unchanged: frame == start(),
        size_unchanged: frame.width == start().width && frame.height == start().height,
        duplicate: false,
        shown: true,
    }
}

fn pass(instant: bool) -> LayoutPass {
    LayoutPass {
        skip: None,
        instant,
        has_workspace: true,
        is_resize: false,
        animate: true,
        low_power: false,
    }
}

#[test]
fn windows_of_an_application_are_placed_together() {
    let mut w = windows(2);
    let a = rect(5.0, 0.0, 50.0, 50.0);
    let b = rect(60.0, 0.0, 50.0, 50.0);
    let r = w.update_layout(&vec![to(1, a), to(2, b)], &apps(), pass(true));
    assert_eq!(r.batches.len(), 1);
    assert_eq!(r.batches[0].frames.len(), 2);
    assert_eq!(r.entries.len(), 2);
    assert_eq!(r.entries[0].txid, r.entries[1].txid);
    assert_eq!(r.run, AnimationRun::Nothing);
    assert!(r.changed);
}

#[test]
fn layouts_are_animated() {
    let mut w = windows(2);
    let a = rect(5.0, 0.0, 50.0, 50.0);
    let r = w.update_layout(&vec![to(1, a), to(2, start())], &apps(), pass(false));
    assert_eq!(r.animated.len(), 1);
    assert_eq!((r.animated[0].start, r.animated[0].finish), (start(), a));
    assert_eq!(r.run, AnimationRun::Run);
    assert_eq!(w.windows.get(&window(1)).unwrap().frame_monotonic, a);
    assert_eq!(w.windows.get(&window(1)).unwrap().last_sent_txid, TransactionId(1));
    let still = w.update_layout(&vec![to(2, start())], &apps(), pass(false));
    assert_eq!(still.run, AnimationRun::Nothing);
    let skipped = w.update_layout(
        &vec![to(2, rect(8.0, 0.0, 50.0, 50.0))],
        &apps(),
        LayoutPass { skip: Some(window(2)), ..pass(false) },
    );
    assert!(skipped.animated.is_empty() && skipped.entries.is_empty());
}

#[test]
fn window_events_are_ignored_around_an_animation() {
    let mut w = windows(2);
    let a = rect(5.0, 0.0, 50.0, 50.0);
    let b = rect(60.0, 0.0, 50.0, 50.0);
    let r = w.update_layout(&vec![to(1, a), to(2, b)], &apps(), pass(false));
    let notices = animation_notices(&r.animated, true);
    assert_eq!(
        notices.before,
        vec![
            EventNotice::Ignore(CGSEventType::WindowMoved, 1),
            EventNotice::Ignore(CGSEventType::WindowResized, 1),
            EventNotice::Ignore(CGSEventType::WindowMoved, 2),
            EventNotice::Ignore(CGSEventType::WindowResized, 2),
        ]
    );
    assert_eq!(
        notices.after,
        vec![
            EventNotice::Unignore(CGSEventType::WindowMoved, 1),
            EventNotice::Unignore(CGSEventType::WindowResized, 1),
            EventNotice::Unignore(CGSEventType::WindowMoved, 2),
            EventNotice::Unignore(CGSEventType::WindowResized, 2),
        ]
    );
    let silent = animation_notices(&r.animated, false);
    assert!(silent.before.is_empty() && silent.after.is_empty());
}

#[test]
fn screens_with_a_space_are_laid_out_in_turn() {
    assert_eq!(
        layout_steps(&vec![Some(1), None, Some(3)], true),
        vec![
            LayoutStep::Groups(1),
            LayoutStep::Place(1),
            LayoutStep::Groups(3),
            LayoutStep::Place(3),
            LayoutStep::Menu,
        ]
    );
    assert_eq!(
        layout_steps(&vec![None, Some(2)], false),
        vec![LayoutStep::Place(2), LayoutStep::Menu]
    );
    let mut w = windows(2);
    let a = rect(5.0, 0.0, 50.0, 50.0);
    let still = w.update_layout(&vec![to(2, start())], &apps(), pass(true));
    let moved = w.update_layout(&vec![to(1, a)], &apps(), pass(true));
    assert!(any_frame_changed(&vec![still, moved]));
    assert!(!any_frame_changed(&vec![]));
    let mut switch = switch();
    assert!(!suppresses_animation(false, &switch));
    assert!(suppresses_animation(true, &switch));
    switch.begin_switch();
    assert!(suppresses_animation(false, &switch));
}

fn settings() -> AnimationSettings {
    AnimationSettings {
        interval_ns: 10,
        frames: 5,
        animate: true,
        layout_animate: None,
        transition: Transition::Slide,
        has_duration: true,
        low_power: false,
    }
}

#[test]
fn animations_are_declined_for_a_reason() {
    let place = |s: AnimationSettings, is_resize: bool| {
        let mut w = windows(1);
        let mut tx = TransactionManager::new(WindowTxStore::new());
        let mut counters = DeclineCounters { counts: DeclineSnapshot::default() };
        let a = rect(5.0, 0.0, 50.0, 50.0);
        let r = AnimationManager::animate_layout(
            &mut w,
            &mut tx,
            &mut counters,
            &apps(),
            true,
            &vec![to(1, a)],
            None,
            is_resize,
            false,
            &s,
        );
        (r.dispatch, counters.counts)
    };
    assert_eq!(place(settings(), false).0, Dispatch::Replace);
    let (dispatch, counts) = place(settings(), true);
    assert_eq!(dispatch, Dispatch::SkipToEnd);
    assert_eq!(counts.is_resize, 1);
    let (dispatch, counts) = place(AnimationSettings { low_power: true, ..settings() }, false);
    assert_eq!((dispatch, counts.low_power), (Dispatch::SkipToEnd, 1));
    let (dispatch, counts) = place(AnimationSettings { animate: false, ..settings() }, false);
    assert_eq!((dispatch, counts.animate_off), (Dispatch::SkipToEnd, 1));
}

#[test]
fn spaces_without_a_workspace_are_not_laid_out() {
    let mut w = windows(1);
    let mut tx = TransactionManager::new(WindowTxStore::new());
    let mut counters = DeclineCounters { counts: DeclineSnapshot::default() };
    let r = AnimationManager::animate_layout(
        &mut w,
        &mut tx,
        &mut counters,
        &apps(),
        false,
        &vec![to(1, rect(5.0, 0.0, 50.0, 50.0))],
        None,
        false,
        false,
        &settings(),
    );
    assert!(!r.changed);
    assert_eq!(r.dispatch, Dispatch::Nothing);
    assert_eq!(w.windows.get(&window(1)).unwrap().frame_monotonic, start());
    assert_eq!(counters.counts, DeclineSnapshot::default());
}

#[test]
fn instant_layouts_share_a_transaction() {
    let mut w = windows(2);
    let mut tx = TransactionManager::new(WindowTxStore::new());
    let mut counters = DeclineCounters { counts: DeclineSnapshot::default() };
    let moved = rect(5.0, 0.0, 50.0, 50.0);
    let resized = rect(60.0, 0.0, 70.0, 50.0);
    let r = AnimationManager::instant_layout(
        &mut w,
        &mut tx,
        &mut counters,
        &apps(),
        &vec![to(1, moved), to(2, resized)],
        None,
    );
    assert!(r.changed);
    assert_eq!(r.batches.len(), 1);
    assert_eq!(r.batches[0].positions.len() + r.batches[0].frames.len(), 2);
    assert_eq!(tx.get_last_sent_txid(101), tx.get_last_sent_txid(102));
    assert_eq!(tx.get_target_frame(102), Some(resized));
}

fn response(focus: Option<WindowId>, raise: Vec<WindowId>) -> EventResponse {
    EventResponse { raise_windows: raise, focus_window: focus }
}

fn response_facts() -> ResponseFacts {
    ResponseFacts {
        spaces: places(&[(1, 1), (2, 1)]),
        under_cursor: None,
        last_focused: None,
        changing_screens: VecSet::new(),
        first_space: Some(1),
    }
}

#[test]
fn raised_windows_are_grouped() {
    let w = windows(2);
    let mut rf = refocus();
    let mut sw = switch();
    let r = response(Some(window(2)), vec![window(1), window(2)]);
    let f = response_facts();
    let plan = match begin_layout_response(&w, &mut rf, &mut sw, false, &r, &f) {
        ResponseStep::Plan(p) => p,
        ResponseStep::Done => panic!("there is something to raise"),
    };
    assert_eq!(plan.focus, Some(window(2)));
    let request =
        handle_layout_response(&w, &mut rf, &mut sw, &r, plan, false, &apps(), true, &f).unwrap();
    assert_eq!(request.focus_window, Some(window(2)));
    assert_eq!(request.raise_windows.len(), 1);
    assert_eq!(request.raise_windows[0].windows, vec![window(1), window(2)]);
    assert_eq!(request.apps, vec![1]);
    assert_eq!(raise_window(window(1), None, &apps()).focus_window, Some(window(1)));
}

#[test]
fn hidden_windows_ask_for_another_focus() {
    let mut rf = refocus();
    let removed = LayoutEvent::WindowRemoved(window(1));
    prepare_refocus_after_layout_event(&mut rf, &removed, Some(1), &vec![Some(2)]);
    assert_eq!(rf.refocus_state, RefocusState::Idle);
    let added = LayoutEvent::WindowAdded(3, window(1));
    prepare_refocus_after_layout_event(&mut rf, &added, Some(1), &vec![Some(1)]);
    assert_eq!(rf.refocus_state, RefocusState::Idle);
    prepare_refocus_after_layout_event(&mut rf, &added, Some(1), &vec![Some(2)]);
    assert_eq!(rf.refocus_state, RefocusState::Pending(3));
}

fn activation() -> ActivationFacts {
    let mut window_workspaces = VecMap::new();
    let _ = window_workspaces.insert(window(1), 20);
    let mut active_workspaces = VecMap::new();
    let _ = active_workspaces.insert(1, 10);
    ActivationFacts {
        spaces: places(&[(1, 1)]),
        window_workspaces,
        active_workspaces,
        visible_spaces: spaces(&[1]),
        bundle_id: Some("com.example".to_string()),
        blacklist: vec![],
        now: 1000,
    }
}

#[test]
fn activating_an_application_switches_to_its_workspace() {
    let w = windows(1);
    let mut sw = switch();
    let wanted = AutoSwitch { space: 1, from: 10, to: 20 };
    assert_eq!(
        handle_app_activation_workspace_switch(&w, 1, &sw, &activation()),
        Some(wanted)
    );
    let blocked =
        ActivationFacts { blacklist: vec!["com.example".to_string()], ..activation() };
    assert_eq!(handle_app_activation_workspace_switch(&w, 1, &sw, &blocked), None);
    assert_eq!(handle_app_activation_workspace_switch(&w, 2, &sw, &activation()), None);
    sw.begin_auto_switch(wanted, 1000);
    assert_eq!(sw.workspace_switch_generation, 5);
    assert_eq!(handle_app_activation_workspace_switch(&w, 1, &sw, &activation()), None);
}

#[test]
fn commands_find_their_space() {
    let screens = vec![
        Screen { frame: start(), space: None },
        Screen { frame: start(), space: Some(4) },
    ];
    assert_eq!(workspace_command_space(Some(2), Some(3), &screens), Some(2));
    assert_eq!(workspace_command_space(None, Some(3), &screens), Some(3));
    assert_eq!(workspace_command_space(None, None, &screens), Some(4));
    assert_eq!(workspace_index(&vec![7, 8], 8), Some(1));
    assert_eq!(workspace_index(&vec![7, 8], 9), None);
    let mut floating = VecSet::new();
    let _ = floating.insert(window(2));
    let kept = store_current_floating_positions(
        &windows(2),
        &vec![window(1), window(2), window(3)],
        &floating,
    );
    assert_eq!(kept.len(), 1);
    assert_eq!((kept[0].wid, kept[0].frame), (window(2), start()));
}

#[test]
fn complete_readings_replace_what_shows() {
    let mut w = windows(1);
    let server = |id| WindowServerInfo { id, pid: 1, layer: 0, frame: start() };
    let mut levels: VecMap<u32, LevelReading> = VecMap::new();
    let _ = levels.insert(
        101,
        LevelReading {
            is_tiny: false,
            facts: LevelFacts { is_sticky: false, level: Some(0) },
        },
    );
    w.update_partial_window_server_info(&vec![server(200)], &levels);
    assert!(w.visible_windows.contains(&101) && w.visible_windows.contains(&200));
    w.update_complete_window_server_info(&vec![server(300)], &levels);
    assert!(!w.visible_windows.contains(&101) && w.visible_windows.contains(&300));
}

#[test]
fn unknown_windows_under_the_cursor_become_key() {
    let mut w = windows(1);
    let server = |id, pid| WindowServerInfo { id, pid, layer: 0, frame: start() };
    assert_eq!(w.focus_untracked_window_under_cursor(None, Some(server(7, 4))), None);
    assert_eq!(w.focus_untracked_window_under_cursor(Some(101), None), None);
    assert_eq!(w.focus_untracked_window_under_cursor(Some(7), None), None);
    assert_eq!(
        w.focus_untracked_window_under_cursor(Some(7), Some(server(7, 4))),
        Some((4, 7))
    );
    let _ = w.window_server_info.insert(7, server(7, 5));
    assert_eq!(
        w.focus_untracked_window_under_cursor(Some(7), Some(server(7, 4))),
        Some((5, 7))
    );
}
