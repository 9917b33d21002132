use rift::model::Point;
use rift::mouse::{
    cg_keycode_to_keycode, is_modifier_key, key_code_from_event, listens_to, EventFlags, EventType,
    Hotkey, KeyCode, Modifiers, Mouse, MouseConfig, MouseStep, Request, State,
};

fn no_mods() -> Modifiers {
    Modifiers { control: false, alt: false, meta: false, shift: false }
}

fn config(hotkey: Option<Hotkey>) -> MouseConfig {
    MouseConfig { mouse_hides_on_focus: true, focus_follows_mouse: true, disable_hotkey: hotkey }
}

fn enabled(hotkey: Option<Hotkey>) -> Mouse {
    let mut mouse = Mouse::new(config(hotkey));
    assert_eq!(mouse.on_request(Request::SetEventProcessing(true)), vec![]);
    mouse
}

fn moved(mouse: &mut Mouse) -> Vec<MouseStep> {
    mouse.on_event(EventType::MouseMoved, 0, EventFlags::empty())
}

#[test]
fn warping_hides_the_pointer_until_the_mouse_is_used() {
    let mut mouse = enabled(None);
    let p = Point { x: 1, y: 2 };
    assert_eq!(mouse.on_request(Request::EnforceHidden), vec![]);
    assert_eq!(mouse.on_request(Request::Warp(p)), vec![MouseStep::Warp(p), MouseStep::Hide]);
    assert_eq!(mouse.on_request(Request::Warp(p)), vec![MouseStep::Warp(p)]);
    assert_eq!(mouse.on_request(Request::EnforceHidden), vec![MouseStep::Hide]);
    assert_eq!(moved(&mut mouse), vec![MouseStep::Show, MouseStep::LookBelow]);
    assert_eq!(moved(&mut mouse), vec![MouseStep::LookBelow]);
    assert_eq!(
        mouse.on_event(EventType::LeftMouseUp, 0, EventFlags::empty()),
        vec![MouseStep::TellMouseUp]
    );
    assert_eq!(mouse.on_event(EventType::RightMouseUp, 0, EventFlags::empty()), vec![]);
}

#[test]
fn nothing_happens_before_events_are_let_through() {
    let mut mouse = Mouse::new(config(None));
    assert_eq!(moved(&mut mouse), vec![]);
}

#[test]
fn the_focus_can_be_kept_from_following() {
    let mut mouse = enabled(None);
    let _ = mouse.on_request(Request::SetFocusFollowsMouseEnabled(false));
    assert_eq!(moved(&mut mouse), vec![]);
}

#[test]
fn a_held_hotkey_keeps_the_focus() {
    let target = Hotkey { modifiers: Modifiers { alt: true, ..no_mods() }, key_code: KeyCode::KeyF };
    let mut mouse = enabled(Some(target));
    let alt = EventFlags { alternate: true, ..EventFlags::empty() };
    assert_eq!(mouse.on_event(EventType::KeyDown, 0x03, EventFlags::empty()), vec![]);
    assert_eq!(moved(&mut mouse), vec![MouseStep::LookBelow]);
    let _ = mouse.on_event(EventType::FlagsChanged, 0x3A, alt);
    assert!(mouse.state.disable_hotkey_active);
    assert_eq!(moved(&mut mouse), vec![]);
    let _ = mouse.on_event(EventType::KeyUp, 0x03, alt);
    assert!(!mouse.state.disable_hotkey_active);
    assert_eq!(moved(&mut mouse), vec![MouseStep::LookBelow]);
}

#[test]
fn a_modifier_alone_can_be_the_hotkey() {
    let target = Hotkey { modifiers: no_mods(), key_code: KeyCode::Fn };
    let mut mouse = enabled(Some(target));
    let held = EventFlags { secondary_fn: true, ..EventFlags::empty() };
    let _ = mouse.on_event(EventType::FlagsChanged, 0x3F, held);
    assert!(mouse.state.disable_hotkey_active);
    let _ = mouse.on_event(EventType::FlagsChanged, 0x3F, EventFlags::empty());
    assert!(!mouse.state.disable_hotkey_active);
}

#[test]
fn keys_are_numbered() {
    assert_eq!(cg_keycode_to_keycode(0x00), Some(KeyCode::KeyA));
    assert_eq!(cg_keycode_to_keycode(0x16), Some(KeyCode::Digit6));
    assert_eq!(cg_keycode_to_keycode(0x34), Some(KeyCode::NumpadEnter));
    assert_eq!(cg_keycode_to_keycode(0x4C), Some(KeyCode::NumpadEnter));
    assert_eq!(cg_keycode_to_keycode(0x7E), Some(KeyCode::ArrowUp));
    assert_eq!(cg_keycode_to_keycode(0x42), None);
    assert_eq!(cg_keycode_to_keycode(0x7F), None);
    assert_eq!(key_code_from_event(-1), None);
    assert_eq!(key_code_from_event(0x10003), Some(KeyCode::KeyF));
    assert!(is_modifier_key(KeyCode::NumLock));
    assert!(!is_modifier_key(KeyCode::KeyA));
}

#[test]
fn the_keyboard_is_only_listened_to_for_a_hotkey() {
    let target = Hotkey { modifiers: no_mods(), key_code: KeyCode::KeyA };
    assert!(listens_to(EventType::MouseMoved, None));
    assert!(!listens_to(EventType::KeyDown, None));
    assert!(listens_to(EventType::KeyDown, Some(target)));
}

#[test]
fn the_window_below_the_pointer_is_told_once() {
    let mut state = State::new();
    assert_eq!(state.track_mouse_move(Some(5), false, Some(0)), Some(5));
    assert_eq!(state.track_mouse_move(Some(5), false, Some(0)), None);
    assert_eq!(state.track_mouse_move(Some(6), false, None), None);
    assert_eq!(state.above_window_level, i64::MIN);
    assert_eq!(state.track_mouse_move(Some(7), false, Some(24)), Some(7));
    assert_eq!(state.track_mouse_move(Some(8), true, Some(0)), None);
    assert_eq!(state.above_window, Some(7));
    assert_eq!(state.track_mouse_move(Some(8), false, Some(0)), Some(8));
    assert_eq!(state.track_mouse_move(Some(9), false, Some(101)), None);
    assert_eq!(state.track_mouse_move(Some(8), false, Some(0)), None);
    assert_eq!(state.track_mouse_move(Some(9), false, Some(-1)), None);
    assert_eq!(state.track_mouse_move(None, false, None), None);
}
