use rift::model::Frame;
use rift::reactor::animation::{
    Animation, AnimationManager, Message, Order, Tween, TweenSize,
};
use rift::reactor::transaction_manager::TransactionId;
use rift::window_id::WindowId;

const FRAMES: u32 = 30;
const INTERVAL_NS: u64 = 10_000_000;

fn rect(x: f64, y: f64, w: f64, h: f64) -> Frame {
    Frame { x: x.to_bits(), y: y.to_bits(), width: w.to_bits(), height: h.to_bits() }
}

fn window(idx: u32) -> WindowId {
    WindowId { pid: 1, idx }
}

fn ease(t: f64) -> f64 {
    if t < 0.5 {
        (1.0 - f64::sqrt(1.0 - f64::powi(2.0 * t, 2))) / 2.0
    } else {
        (f64::sqrt(1.0 - f64::powi(-2.0 * t + 2.0, 2)) + 1.0) / 2.0
    }
}

fn blend(a: u64, b: u64, s: f64) -> u64 {
    ((1.0 - s) * f64::from_bits(a) + s * f64::from_bits(b)).to_bits()
}

fn get_frame(a: Frame, b: Frame, t: f64) -> Frame {
    let s = ease(t);
    Frame {
        x: blend(a.x, b.x, s),
        y: blend(a.y, b.y, s),
        width: blend(a.width, b.width, s),
        height: blend(a.height, b.height, s),
    }
}

/// Where a frame on its way is.
fn evaluate(t: &Tween) -> Frame {
    let eased = if t.step == 0 {
        t.start
    } else {
        get_frame(t.start, t.finish, t.step as f64 / t.steps as f64)
    };
    match t.size {
        TweenSize::Start => Frame { width: t.start.width, height: t.start.height, ..eased },
        TweenSize::Finish => Frame { width: t.finish.width, height: t.finish.height, ..eased },
        TweenSize::Eased => eased,
    }
}

fn animation(wid: WindowId, from: Frame, to: Frame) -> Animation {
    let mut animation = Animation::new(INTERVAL_NS, FRAMES);
    animation.add_window(wid, from, to, false, TransactionId(0));
    animation
}

fn current_frames(manager: &AnimationManager) -> Vec<Frame> {
    match &manager.active {
        Some(active) => active.current_frames().iter().map(evaluate).collect(),
        None => vec![],
    }
}

fn handle(manager: &mut AnimationManager, message: Message) -> Vec<Order> {
    let frames = current_frames(manager);
    let mut out = Vec::new();
    let _ = manager.handle_message(message, &frames, &mut out);
    out
}

fn tick(manager: &mut AnimationManager) -> Vec<Order> {
    let mut out = Vec::new();
    let _ = manager.tick(&mut out);
    out
}

fn assert_animation_pos(order: &Order, wid: WindowId, pos: (u64, u64)) {
    match order {
        Order::Step { wid: req_wid, tween, set_size, txid } => {
            assert_eq!(*req_wid, wid);
            let frame = evaluate(tween);
            assert_eq!((frame.x, frame.y), pos);
            assert!(!*set_size, "expected a position-only frame");
            assert_eq!(*txid, TransactionId(0));
        }
        _ => panic!("expected a step, got {order:?}"),
    }
}

fn animation_contains(manager: &AnimationManager, wid: WindowId) -> bool {
    manager
        .active
        .as_ref()
        .is_some_and(|active| active.animation.windows.iter().any(|w| w.wid == wid))
}

#[test]
fn replacement_uses_last_animated_frame_for_continuing_windows() {
    let wid = window(1);
    let first = animation(wid, rect(0.0, 0.0, 10.0, 10.0), rect(50.0, 60.0, 10.0, 10.0));
    let second = animation(wid, rect(50.0, 60.0, 10.0, 10.0), rect(80.0, 90.0, 10.0, 10.0));

    let mut manager = AnimationManager::new();
    assert_eq!(handle(&mut manager, Message::Replace(first)), vec![Order::Begin(wid)]);

    let orders = tick(&mut manager);
    let continuing_frame = current_frames(&manager)[0];
    assert_animation_pos(&orders[0], wid, (continuing_frame.x, continuing_frame.y));

    assert!(handle(&mut manager, Message::Replace(second)).is_empty());

    let resumed_start = manager.active.as_ref().unwrap().animation.windows[0].start;
    assert_eq!(resumed_start, continuing_frame);

    let orders = tick(&mut manager);
    let expected_next = get_frame(resumed_start, rect(80.0, 90.0, 10.0, 10.0), 1.0 / 30.0);
    assert_animation_pos(&orders[0], wid, (expected_next.x, expected_next.y));
}

#[test]
fn replacement_only_restarts_changed_windows() {
    let (wid1, wid2, wid3) = (window(1), window(2), window(3));
    let mut first = Animation::new(INTERVAL_NS, FRAMES);
    first.add_window(
        wid1,
        rect(0.0, 0.0, 10.0, 10.0),
        rect(50.0, 60.0, 10.0, 10.0),
        false,
        TransactionId(0),
    );
    first.add_window(
        wid2,
        rect(10.0, 0.0, 10.0, 10.0),
        rect(60.0, 60.0, 10.0, 10.0),
        false,
        TransactionId(0),
    );
    let mut second = Animation::new(INTERVAL_NS, FRAMES);
    second.add_window(
        wid1,
        rect(50.0, 60.0, 10.0, 10.0),
        rect(80.0, 90.0, 10.0, 10.0),
        false,
        TransactionId(0),
    );
    second.add_window(
        wid3,
        rect(20.0, 0.0, 10.0, 10.0),
        rect(90.0, 90.0, 10.0, 10.0),
        false,
        TransactionId(0),
    );

    let mut manager = AnimationManager::new();
    assert_eq!(handle(&mut manager, Message::Replace(first)).len(), 2);
    let orders = handle(&mut manager, Message::Replace(second));
    assert_eq!(orders.len(), 1);
    assert_eq!(orders[0], Order::Begin(wid3));
    assert!(animation_contains(&manager, wid2));

    let carried = manager
        .active
        .as_ref()
        .unwrap()
        .animation
        .windows
        .iter()
        .find(|w| w.wid == wid2)
        .unwrap();
    assert_eq!(carried.finish, rect(60.0, 60.0, 10.0, 10.0));
}

#[test]
fn replacement_does_not_carry_over_explicitly_handled_windows() {
    let (wid1, wid2) = (window(1), window(2));
    let mut first = Animation::new(INTERVAL_NS, FRAMES);
    first.add_window(
        wid1,
        rect(0.0, 0.0, 10.0, 10.0),
        rect(50.0, 60.0, 10.0, 10.0),
        false,
        TransactionId(0),
    );
    first.add_window(
        wid2,
        rect(10.0, 0.0, 10.0, 10.0),
        rect(60.0, 60.0, 10.0, 10.0),
        false,
        TransactionId(0),
    );
    let mut second = Animation::new(INTERVAL_NS, FRAMES);
    second.add_window(
        wid1,
        rect(50.0, 60.0, 10.0, 10.0),
        rect(80.0, 90.0, 10.0, 10.0),
        false,
        TransactionId(0),
    );
    second.mark_handled(wid2);

    let mut manager = AnimationManager::new();
    let _ = handle(&mut manager, Message::Replace(first));
    let _ = handle(&mut manager, Message::Replace(second));

    assert!(!animation_contains(&manager, wid2));
}

#[test]
fn skip_to_end_finishes_active_animation_and_applies_new_layout() {
    let wid = window(1);
    let first = animation(wid, rect(0.0, 0.0, 10.0, 10.0), rect(50.0, 60.0, 10.0, 10.0));
    let second = animation(wid, rect(50.0, 60.0, 10.0, 10.0), rect(80.0, 90.0, 10.0, 10.0));

    let mut manager = AnimationManager::new();
    let mut orders = handle(&mut manager, Message::Replace(first));
    orders.extend(handle(&mut manager, Message::SkipToEnd(second)));

    assert_eq!(orders.len(), 4);
    assert_eq!(orders[0], Order::Begin(wid));
    match &orders[1] {
        Order::Step { wid: req_wid, tween, set_size, txid } => {
            assert_eq!(*req_wid, wid);
            assert_eq!(evaluate(tween), rect(50.0, 60.0, 10.0, 10.0));
            assert!(*set_size, "expected a set_size frame");
            assert_eq!(*txid, TransactionId(0));
        }
        other => panic!("expected a step, got {other:?}"),
    }
    assert_eq!(orders[2], Order::End(wid));
    assert_eq!(
        orders[3],
        Order::Place { wid, frame: rect(80.0, 90.0, 10.0, 10.0), txid: TransactionId(0) }
    );
}

#[test]
fn an_animation_ends_at_its_finish() {
    let wid = window(1);
    let to = rect(50.0, 60.0, 20.0, 30.0);
    let mut manager = AnimationManager::new();
    let _ = handle(
        &mut manager,
        Message::Replace(animation(wid, rect(0.0, 0.0, 10.0, 10.0), to)),
    );
    let mut orders = Vec::new();
    let mut steps = 0;
    while manager.active.is_some() {
        orders = tick(&mut manager);
        steps += 1;
        assert!(steps <= 40, "the animation does not end");
    }
    assert_eq!(orders.last(), Some(&Order::End(wid)));
    assert!(tick(&mut manager).is_empty());
    assert_eq!(steps, FRAMES as usize);
}

#[test]
fn a_focused_window_has_its_final_size_from_the_start() {
    let mut a = Animation::new(INTERVAL_NS, FRAMES);
    a.add_window(
        window(1),
        rect(0.0, 0.0, 10.0, 10.0),
        rect(5.0, 5.0, 20.0, 20.0),
        true,
        TransactionId(0),
    );
    assert_eq!(a.windows[0].frame_after(1, FRAMES).size, TweenSize::Finish);
    a.windows[0].is_focus = false;
    assert_eq!(a.windows[0].frame_after(1, FRAMES).size, TweenSize::Start);
    assert_eq!(a.windows[0].frame_after(15, FRAMES).size, TweenSize::Finish);
    assert_eq!(a.windows[0].frame_after(u32::MAX, FRAMES).step, u32::MAX);
}

#[test]
fn orders_are_added_to_those_before() {
    let mut manager = AnimationManager::new();
    let mut out = vec![Order::End(window(9))];
    let from = rect(0.0, 0.0, 10.0, 10.0);
    let to = rect(50.0, 60.0, 10.0, 10.0);
    let _ = manager.handle_message(
        Message::Replace(animation(window(1), from, to)),
        &vec![],
        &mut out,
    );
    assert_eq!(out, vec![Order::End(window(9)), Order::Begin(window(1))]);
    let _ = manager.tick(&mut out);
    assert_eq!(out.len(), 3);
    assert_eq!(out[0], Order::End(window(9)));
}

#[test]
fn long_animations_are_drawn_step_by_step() {
    let mut manager = AnimationManager::new();
    let mut long = Animation::new(INTERVAL_NS, u32::MAX);
    long.add_window(
        window(1),
        rect(0.0, 0.0, 10.0, 10.0),
        rect(50.0, 60.0, 10.0, 10.0),
        false,
        TransactionId(0),
    );
    let _ = handle(&mut manager, Message::Replace(long));
    manager.active.as_mut().unwrap().next_frame = u32::MAX - 1;
    assert_eq!(tick(&mut manager).len(), 1);
    assert_eq!(manager.active.as_ref().unwrap().next_frame, u32::MAX);
    assert_eq!(manager.active.as_ref().unwrap().current_frames()[0].size, TweenSize::Finish);
    assert_eq!(tick(&mut manager).last(), Some(&Order::End(window(1))));
    assert!(manager.active.is_none());
}
