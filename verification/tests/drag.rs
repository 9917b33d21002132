use rift::drag::{
    hit_test, resolve_action, DragActor, DragKind, DragMotion, DragMotionPublisher, DragScene,
    DragSceneTarget, DragSource, DropTarget, DropZone, HitFacts, MouseAction, MouseButton,
    MouseDropAction, MouseSettings, ResizeEdges, Session, StartFacts, State, WindowDropAction,
};
use rift::model::{Frame, Point};
use rift::reactor::event::Direction;
use rift::window_id::WindowId;

const FRACTION: f64 = 0.25;
const HYSTERESIS_POINTS: f64 = 8.0;

#[derive(Clone, Copy)]
struct Rect {
    x: f64,
    y: f64,
    w: f64,
    h: f64,
}

fn frame(x: f64, y: f64, w: f64, h: f64) -> Frame {
    Frame { x: x.to_bits(), y: y.to_bits(), width: w.to_bits(), height: h.to_bits() }
}

fn point(x: f64, y: f64) -> Point {
    Point { x: x.to_bits(), y: y.to_bits() }
}

fn numbers(f: Frame) -> Rect {
    Rect {
        x: f64::from_bits(f.x),
        y: f64::from_bits(f.y),
        w: f64::from_bits(f.width),
        h: f64::from_bits(f.height),
    }
}

fn rect() -> Frame {
    frame(0.0, 0.0, 200.0, 100.0)
}

fn contains(r: Rect, x: f64, y: f64, margin: f64) -> bool {
    x >= r.x - margin && x <= r.x + r.w + margin && y >= r.y - margin && y <= r.y + r.h + margin
}

fn classify_zone(r: Rect, x: f64, y: f64, fraction: f64) -> Option<DropZone> {
    if r.w <= 0.0 || r.h <= 0.0 || !contains(r, x, y, 0.0) {
        return None;
    }
    let left = (x - r.x) / r.w;
    let right = 1.0 - left;
    let top = (y - r.y) / r.h;
    let bottom = 1.0 - top;
    if left >= fraction && right >= fraction && top >= fraction && bottom >= fraction {
        return Some(DropZone::Center);
    }
    let mut best = (left, DropZone::West);
    if right < best.0 {
        best = (right, DropZone::East);
    }
    if top < best.0 {
        best = (top, DropZone::North);
    }
    if bottom < best.0 {
        best = (bottom, DropZone::South);
    }
    Some(best.1)
}

fn zone_frame(r: Rect, zone: DropZone, fraction: f64) -> Rect {
    match zone {
        DropZone::Center => Rect {
            x: r.x + r.w * fraction,
            y: r.y + r.h * fraction,
            w: r.w * (1.0 - 2.0 * fraction),
            h: r.h * (1.0 - 2.0 * fraction),
        },
        DropZone::West => Rect { x: r.x, y: r.y, w: r.w * fraction, h: r.h },
        DropZone::East => Rect { x: r.x + r.w * (1.0 - fraction), y: r.y, w: r.w * fraction, h: r.h },
        DropZone::North => Rect { x: r.x, y: r.y, w: r.w, h: r.h * fraction },
        DropZone::South => Rect { x: r.x, y: r.y + r.h * (1.0 - fraction), w: r.w, h: r.h * fraction },
    }
}

fn distance(r: Rect, x: f64, y: f64) -> f64 {
    let dx = (r.x - x).max(0.0).max(x - (r.x + r.w));
    let dy = (r.y - y).max(0.0).max(y - (r.y + r.h));
    dx * dx + dy * dy
}

fn hit_facts(scene: &DragScene, x: f64, y: f64, previous: Option<DropTarget>) -> HitFacts {
    let retained = match previous {
        Some(p) => {
            let base = if p.zone == DropZone::Center { p.frame } else { p.tiling_area };
            contains(zone_frame(numbers(base), p.zone, FRACTION), x, y, HYSTERESIS_POINTS)
        }
        None => false,
    };
    HitFacts {
        retained,
        area_zone: scene.tiling_area.and_then(|a| classify_zone(numbers(a), x, y, FRACTION)),
        contains: scene.targets.iter().map(|t| contains(numbers(t.frame), x, y, 0.0)).collect(),
        zones: scene
            .targets
            .iter()
            .map(|t| classify_zone(numbers(t.frame), x, y, FRACTION))
            .collect(),
        distances: scene
            .targets
            .iter()
            .map(|t| distance(numbers(t.frame), x, y).to_bits())
            .collect(),
    }
}

fn session(actor: &DragActor) -> Option<&Session> {
    match &actor.state {
        State::Dragging(s) => Some(s),
        _ => None,
    }
}

/// Where a window that is dragged with the modifier goes.
fn dragged_frame(s: &Session, x: f64, y: f64) -> Frame {
    let origin = numbers(s.source.origin_frame);
    let dx = x - f64::from_bits(s.anchor_point.x);
    let dy = y - f64::from_bits(s.anchor_point.y);
    let edges = match s.resize_edges {
        Some(edges) => edges,
        None => return frame(origin.x + dx, origin.y + dy, origin.w, origin.h),
    };
    let mut r = origin;
    if edges.west {
        r.x += dx;
        r.w -= dx;
    } else {
        r.w += dx;
    }
    if edges.north {
        r.y += dy;
        r.h -= dy;
    } else {
        r.h += dy;
    }
    frame(r.x, r.y, r.w, r.h)
}

fn motion(actor: &mut DragActor, x: f64, y: f64, button: MouseButton) -> bool {
    let (to, facts) = match session(actor) {
        Some(s) => (dragged_frame(s, x, y), hit_facts(&s.scene, x, y, s.target)),
        None => (rect(), hit_facts(&DragScene::default(), x, y, None)),
    };
    actor.motion(DragMotion { point: point(x, y), button }, to, &facts)
}

fn materially_changed(actor: &DragActor) -> bool {
    match session(actor) {
        Some(s) => {
            let a = numbers(s.last_effect_frame);
            let b = numbers(s.source.last_frame);
            (a.x - b.x).abs() >= 1.0
                || (a.y - b.y).abs() >= 1.0
                || (a.w - b.w).abs() >= 1.0
                || (a.h - b.h).abs() >= 1.0
        }
        None => false,
    }
}

fn start_facts(source: DragSource, x: f64, y: f64) -> StartFacts {
    let last = numbers(source.last_frame);
    let origin = numbers(source.origin_frame);
    StartFacts {
        resized: last.w != origin.w || last.h != origin.h,
        center: point(last.x + last.w / 2.0, last.y + last.h / 2.0),
        edges: ResizeEdges {
            west: x < origin.x + origin.w / 2.0,
            north: y < origin.y + origin.h / 2.0,
        },
    }
}

fn no_facts() -> StartFacts {
    StartFacts {
        resized: false,
        center: point(0.0, 0.0),
        edges: ResizeEdges { west: false, north: false },
    }
}

fn begin_native(actor: &mut DragActor, source: DragSource, scene: DragScene) {
    if actor.update_native(source.window, source.last_frame, source.current_space) {
        return;
    }
    let id = actor.await_native(source.window);
    let _ = actor.resolve_start(id, Some(source), scene, start_facts(source, 0.0, 0.0));
}

fn begin_modifier(
    actor: &mut DragActor,
    source: DragSource,
    x: f64,
    y: f64,
    action: MouseAction,
    scene: DragScene,
) {
    let id = actor.await_modifier(MouseButton::Left, point(x, y), action);
    let _ = actor.resolve_start(id, Some(source), scene, start_facts(source, x, y));
}

fn settings() -> MouseSettings {
    MouseSettings { enabled: true, drop_action: MouseDropAction::Swap }
}

fn window(pid: i32, idx: u32) -> WindowId {
    WindowId { pid, idx }
}

fn target_on(wid: WindowId, f: Frame, directional: bool) -> DragSceneTarget {
    DragSceneTarget {
        window: wid,
        space: 1,
        frame: f,
        center_frame: Some(f),
        west_frame: Some(f),
        east_frame: Some(f),
        north_frame: Some(f),
        south_frame: Some(f),
        directional,
    }
}

fn source_of(wid: WindowId, last_frame: Frame, tiled: bool) -> DragSource {
    DragSource {
        window: wid,
        origin_frame: rect(),
        last_frame,
        origin_space: Some(1),
        current_space: Some(1),
        tiled,
    }
}

#[test]
fn publisher_coalesces_to_newest_motion() {
    let mut publisher = DragMotionPublisher::default();
    for x in 0..1_000 {
        assert_eq!(
            publisher.publish(DragMotion { point: point(x as f64, 0.0), button: MouseButton::Left }),
            x == 0
        );
    }
    assert!(publisher.wake_queued());
    assert_eq!(f64::from_bits(publisher.take_latest().unwrap().point.x), 999.0);
    assert!(!publisher.wake_queued());
    assert!(publisher
        .publish(DragMotion { point: point(1_000.0, 0.0), button: MouseButton::Left }));
}

#[test]
fn native_tiled_move_targets_pointer_zone_and_commits_once() {
    let source = window(1, 1);
    let target = window(1, 2);
    let target_frame = frame(100.0, 0.0, 100.0, 100.0);
    let mut actor = DragActor::new(settings());
    begin_native(
        &mut actor,
        source_of(source, frame(10.0, 0.0, 200.0, 100.0), true),
        DragScene {
            tiling_area: Some(rect()),
            targets: vec![target_on(target, target_frame, true)],
        },
    );
    assert!(motion(&mut actor, 1.0, 50.0, MouseButton::Left));
    assert_eq!(actor.target().unwrap().action, WindowDropAction::Insert(Direction::Left));
    assert_eq!(actor.target().unwrap().preview_area, target_frame);
    let commit = actor.finish().unwrap();
    assert_eq!(commit.source.window, source);
    assert_eq!(commit.target.unwrap().window, target);
    assert!(actor.finish().is_none());
}

#[test]
fn layouts_without_directional_inserts_expose_only_the_center_zone() {
    let scene =
        DragScene { tiling_area: Some(rect()), targets: vec![target_on(window(1, 2), rect(), false)] };
    let edge = hit_facts(&scene, 1.0, 50.0, None);
    assert!(hit_test(&scene, &edge, MouseDropAction::Swap, None).is_none());
    let middle = hit_facts(&scene, 100.0, 50.0, None);
    assert_eq!(
        hit_test(&scene, &middle, MouseDropAction::Swap, None).unwrap().zone,
        DropZone::Center,
    );
}

#[test]
fn floating_move_never_builds_a_drop_target() {
    let mut actor = DragActor::new(settings());
    begin_native(
        &mut actor,
        source_of(window(1, 1), frame(10.0, 0.0, 200.0, 100.0), false),
        DragScene {
            tiling_area: Some(rect()),
            targets: vec![target_on(window(1, 2), rect(), true)],
        },
    );
    motion(&mut actor, 100.0, 50.0, MouseButton::Left);
    assert!(actor.target().is_none());
}

#[test]
fn modifier_resize_keeps_the_opposite_corner_fixed() {
    let mut actor = DragActor::new(settings());
    begin_modifier(
        &mut actor,
        source_of(window(1, 1), rect(), false),
        10.0,
        10.0,
        MouseAction::Resize,
        DragScene::default(),
    );
    motion(&mut actor, 30.0, 20.0, MouseButton::Right);
    let changed = materially_changed(&actor);
    let resized = numbers(actor.interactive_update(changed).unwrap().frame);
    assert_eq!((resized.x, resized.y), (20.0, 10.0));
    assert_eq!((resized.w, resized.h), (180.0, 90.0));
    assert_eq!(resized.x + resized.w, 200.0);
    assert_eq!(resized.y + resized.h, 100.0);
}

#[test]
fn tiled_resize_ignores_sub_point_motion() {
    let mut actor = DragActor::new(settings());
    begin_modifier(
        &mut actor,
        source_of(window(1, 1), rect(), true),
        190.0,
        90.0,
        MouseAction::Resize,
        DragScene::default(),
    );
    motion(&mut actor, 190.5, 90.5, MouseButton::Right);
    let changed = materially_changed(&actor);
    assert!(actor.interactive_update(changed).is_none());
    motion(&mut actor, 191.0, 90.5, MouseButton::Right);
    let changed = materially_changed(&actor);
    assert!(actor.interactive_update(changed).is_some());
    let changed = materially_changed(&actor);
    assert!(actor.interactive_update(changed).is_none());
}

#[test]
fn cancellation_restores_only_rift_initiated_floating_frames() {
    let source = source_of(window(1, 1), frame(20.0, 20.0, 200.0, 100.0), false);
    let mut actor = DragActor::new(settings());
    begin_native(&mut actor, source, DragScene::default());
    assert!(!actor.cancel().unwrap().restore_origin);

    begin_modifier(&mut actor, source, 10.0, 10.0, MouseAction::Move, DragScene::default());
    assert!(actor.cancel().unwrap().restore_origin);
}

#[test]
fn stale_source_resolution_is_ignored() {
    let mut actor = DragActor::new(settings());
    let stale = actor.await_native(window(1, 1));
    let current = actor.await_native(window(1, 2));
    assert!(!actor.resolve_start(stale, None, DragScene::default(), no_facts()));
    assert!(actor.is_active());
    assert!(actor.resolve_start(current, None, DragScene::default(), no_facts()));
    assert!(!actor.is_active());
}

#[test]
fn the_nearest_target_is_hit_and_the_last_one_is_kept_nearby() {
    let left = target_on(window(1, 2), frame(0.0, 0.0, 100.0, 100.0), true);
    let right = target_on(window(1, 3), frame(100.0, 0.0, 100.0, 100.0), true);
    let scene = DragScene { tiling_area: Some(rect()), targets: vec![left, right] };
    let facts = hit_facts(&scene, 160.0, 50.0, None);
    let hit = hit_test(&scene, &facts, MouseDropAction::Stack, None);
    let found = hit.unwrap();
    assert_eq!(found.window, window(1, 3));
    assert_eq!(found.zone, DropZone::East);
    assert_eq!(found.action, WindowDropAction::Insert(Direction::Right));
    let near = hit_facts(&scene, 143.0, 50.0, hit);
    assert!(near.retained);
    assert_eq!(
        hit_test(&scene, &near, MouseDropAction::Stack, hit).unwrap().zone,
        DropZone::East
    );
}

#[test]
fn without_a_tiling_area_the_frame_below_the_pointer_counts() {
    let scene = DragScene {
        tiling_area: None,
        targets: vec![
            target_on(window(1, 2), frame(0.0, 0.0, 100.0, 100.0), true),
            target_on(window(1, 3), frame(100.0, 0.0, 100.0, 100.0), true),
        ],
    };
    let facts = hit_facts(&scene, 150.0, 50.0, None);
    let hit = hit_test(&scene, &facts, MouseDropAction::Stack, None).unwrap();
    assert_eq!(hit.zone, DropZone::Center);
    assert_eq!(hit.action, WindowDropAction::Stack);
    assert_eq!(hit.tiling_area, frame(100.0, 0.0, 100.0, 100.0));
    let outside = hit_facts(&scene, 500.0, 50.0, None);
    assert!(hit_test(&scene, &outside, MouseDropAction::Stack, None).is_none());
}

#[test]
fn every_zone_has_its_action() {
    assert_eq!(resolve_action(DropZone::Center, MouseDropAction::Swap), WindowDropAction::Swap);
    assert_eq!(resolve_action(DropZone::Center, MouseDropAction::Stack), WindowDropAction::Stack);
    assert_eq!(
        resolve_action(DropZone::North, MouseDropAction::Stack),
        WindowDropAction::Insert(Direction::Up)
    );
    assert_eq!(
        resolve_action(DropZone::South, MouseDropAction::Swap),
        WindowDropAction::Insert(Direction::Down)
    );
}

#[test]
fn a_drag_with_another_size_is_a_resize() {
    let mut actor = DragActor::new(settings());
    begin_native(
        &mut actor,
        source_of(window(1, 1), frame(0.0, 0.0, 210.0, 100.0), true),
        DragScene::default(),
    );
    assert_eq!(actor.kind(), Some(DragKind::NativeResize));
    assert_eq!(actor.source().unwrap().window, window(1, 1));
}

#[test]
fn leaving_the_space_drops_the_target() {
    let mut actor = DragActor::new(settings());
    begin_native(
        &mut actor,
        source_of(window(1, 1), frame(10.0, 0.0, 200.0, 100.0), true),
        DragScene {
            tiling_area: Some(rect()),
            targets: vec![target_on(window(1, 2), rect(), true)],
        },
    );
    assert!(motion(&mut actor, 100.0, 50.0, MouseButton::Left));
    assert!(actor.target().is_some());
    assert!(actor.update_native(window(1, 1), rect(), Some(2)));
    assert!(actor.target().is_none());
    assert!(!actor.update_native(window(9, 9), rect(), Some(2)));
}

#[test]
fn a_removed_window_is_no_target_and_ends_its_own_drag() {
    let mut actor = DragActor::new(settings());
    begin_native(
        &mut actor,
        source_of(window(1, 1), frame(10.0, 0.0, 200.0, 100.0), true),
        DragScene {
            tiling_area: Some(rect()),
            targets: vec![target_on(window(1, 2), rect(), true)],
        },
    );
    assert!(motion(&mut actor, 100.0, 50.0, MouseButton::Left));
    assert!(!actor.window_removed(window(1, 2)));
    assert!(actor.target().is_none());
    assert!(session(&actor).unwrap().scene.targets.is_empty());
    assert!(actor.window_removed(window(1, 1)));
    assert!(!actor.is_active());
}

#[test]
fn switching_dragging_off_ends_a_drag() {
    let mut actor = DragActor::new(settings());
    let _ = actor.await_native(window(1, 1));
    actor.update_config(MouseSettings { enabled: false, drop_action: MouseDropAction::Swap });
    assert!(!actor.is_active());
}

#[test]
fn a_constrained_resize_takes_the_given_frame() {
    let mut actor = DragActor::new(settings());
    begin_modifier(
        &mut actor,
        source_of(window(1, 1), rect(), false),
        190.0,
        90.0,
        MouseAction::Resize,
        DragScene::default(),
    );
    actor.constrain_resize(frame(0.0, 0.0, 300.0, 100.0));
    assert_eq!(actor.source().unwrap().last_frame, frame(0.0, 0.0, 300.0, 100.0));
}

#[test]
fn a_new_scene_carries_the_target_over() {
    let mut actor = DragActor::new(settings());
    begin_native(
        &mut actor,
        source_of(window(1, 1), frame(10.0, 0.0, 200.0, 100.0), true),
        DragScene {
            tiling_area: Some(rect()),
            targets: vec![target_on(window(1, 2), rect(), true)],
        },
    );
    assert!(motion(&mut actor, 100.0, 50.0, MouseButton::Left));
    let wider = frame(0.0, 0.0, 220.0, 100.0);
    let scene = DragScene {
        tiling_area: Some(wider),
        targets: vec![target_on(window(1, 2), wider, true)],
    };
    let facts = hit_facts(&scene, 100.0, 50.0, None);
    actor.replace_scene(scene, &HitFacts { retained: true, ..facts });
    let target = actor.target().unwrap();
    assert_eq!(target.window, window(1, 2));
    assert_eq!(target.frame, wider);
    assert_eq!(target.preview_area, wider);
}
