//! The mouse: hiding and showing the pointer, and the window that is below it. Focus follows the
//! mouse unless the user holds a hotkey.

use vstd::prelude::*;

use crate::collections::{Key, VecSet};
use crate::model::{Frame, Point, WindowServerId};

verus! {

/// A key, by its place on the keyboard.
#[derive(Clone, Copy, Debug, PartialEq, Eq, Structural)]
pub enum KeyCode {
    KeyA,
    KeyS,
    KeyD,
    KeyF,
    KeyH,
    KeyG,
    KeyZ,
    KeyX,
    KeyC,
    KeyV,
    IntlBackslash,
    KeyB,
    KeyQ,
    KeyW,
    KeyE,
    KeyR,
    KeyY,
    KeyT,
    Digit1,
    Digit2,
    Digit3,
    Digit4,
    Digit6,
    Digit5,
    Equal,
    Digit9,
    Digit7,
    Minus,
    Digit8,
    Digit0,
    BracketRight,
    KeyO,
    KeyU,
    BracketLeft,
    KeyI,
    KeyP,
    Enter,
    KeyL,
    KeyJ,
    Quote,
    KeyK,
    Semicolon,
    Backslash,
    Comma,
    Slash,
    KeyN,
    KeyM,
    Period,
    Tab,
    Space,
    Backquote,
    Backspace,
    NumpadEnter,
    Escape,
    MetaRight,
    MetaLeft,
    ShiftLeft,
    CapsLock,
    AltLeft,
    ControlLeft,
    ShiftRight,
    AltRight,
    ControlRight,
    Fn,
    F17,
    NumpadDecimal,
    NumpadMultiply,
    NumpadAdd,
    NumLock,
    AudioVolumeUp,
    AudioVolumeDown,
    AudioVolumeMute,
    NumpadDivide,
    NumpadSubtract,
    F18,
    F19,
    NumpadEqual,
    Numpad0,
    Numpad1,
    Numpad2,
    Numpad3,
    Numpad4,
    Numpad5,
    Numpad6,
    Numpad7,
    F20,
    Numpad8,
    Numpad9,
    IntlYen,
    IntlRo,
    NumpadComma,
    F5,
    F6,
    F7,
    F3,
    F8,
    F9,
    Lang2,
    F11,
    Lang1,
    F13,
    F16,
    F14,
    F10,
    ContextMenu,
    F12,
    F15,
    Insert,
    Home,
    PageUp,
    Delete,
    F4,
    End,
    F2,
    PageDown,
    F1,
    ArrowLeft,
    ArrowRight,
    ArrowDown,
    ArrowUp,
}

impl Key for KeyCode {
    fn same(&self, other: &Self) -> (r: bool) {
        *self == *other
    }
}

/// What the system says of the modifier keys.
#[derive(Clone, Copy, Debug, PartialEq, Eq, Structural)]
pub struct EventFlags {
    pub control: bool,
    pub alternate: bool,
    pub command: bool,
    pub shift: bool,
    pub alpha_shift: bool,
    pub secondary_fn: bool,
    pub numeric_pad: bool,
}

/// A modifier key that the system reports.
#[derive(Clone, Copy, Debug, PartialEq, Eq, Structural)]
pub enum EventFlag {
    Control,
    Alternate,
    Command,
    Shift,
    AlphaShift,
    SecondaryFn,
    NumericPad,
}

/// The modifiers of a hotkey.
#[derive(Clone, Copy, Debug, PartialEq, Eq, Structural)]
pub struct Modifiers {
    pub control: bool,
    pub alt: bool,
    pub meta: bool,
    pub shift: bool,
}

#[derive(Clone, Copy, Debug, PartialEq, Eq, Structural)]
pub struct Hotkey {
    pub modifiers: Modifiers,
    pub key_code: KeyCode,
}

/// The level of a window: windows of a higher level lie above those of a lower one.
pub type NSWindowLevel = i64;

#[allow(non_upper_case_globals)]
pub const NSMainMenuWindowLevel: NSWindowLevel = 24;

#[allow(non_upper_case_globals)]
pub const NSPopUpMenuWindowLevel: NSWindowLevel = 101;

impl EventFlags {
    pub open spec fn has(self, flag: EventFlag) -> bool {
        match flag {
            EventFlag::Control => self.control,
            EventFlag::Alternate => self.alternate,
            EventFlag::Command => self.command,
            EventFlag::Shift => self.shift,
            EventFlag::AlphaShift => self.alpha_shift,
            EventFlag::SecondaryFn => self.secondary_fn,
            EventFlag::NumericPad => self.numeric_pad,
        }
    }

    pub fn empty() -> (r: EventFlags)
        ensures
            forall|flag: EventFlag| !#[trigger] r.has(flag),
    {
        EventFlags {
            control: false,
            alternate: false,
            command: false,
            shift: false,
            alpha_shift: false,
            secondary_fn: false,
            numeric_pad: false,
        }
    }

    pub fn contains(&self, flag: EventFlag) -> (r: bool)
        ensures
            r == self.has(flag),
    {
        match flag {
            EventFlag::Control => self.control,
            EventFlag::Alternate => self.alternate,
            EventFlag::Command => self.command,
            EventFlag::Shift => self.shift,
            EventFlag::AlphaShift => self.alpha_shift,
            EventFlag::SecondaryFn => self.secondary_fn,
            EventFlag::NumericPad => self.numeric_pad,
        }
    }
}

impl Modifiers {
    /// Whether these modifiers hold all of `other`.
    pub open spec fn covers(self, other: Modifiers) -> bool {
        &&& other.control ==> self.control
        &&& other.alt ==> self.alt
        &&& other.meta ==> self.meta
        &&& other.shift ==> self.shift
    }

    pub fn contains(&self, other: Modifiers) -> (r: bool)
        ensures
            r == self.covers(other),
    {
        (!other.control || self.control) && (!other.alt || self.alt) && (!other.meta || self.meta)
            && (!other.shift || self.shift)
    }
}

/// The modifiers that the flags stand for.
pub open spec fn modifiers_of(flags: EventFlags) -> Modifiers {
    Modifiers {
        control: flags.control,
        alt: flags.alternate,
        meta: flags.command,
        shift: flags.shift,
    }
}

pub fn modifiers_from_flags(flags: EventFlags) -> (r: Modifiers)
    ensures
        r == modifiers_of(flags),
{
    Modifiers {
        control: flags.contains(EventFlag::Control),
        alt: flags.contains(EventFlag::Alternate),
        meta: flags.contains(EventFlag::Command),
        shift: flags.contains(EventFlag::Shift),
    }
}

/// The flag that a key sets while it is held, if it is a modifier.
pub open spec fn flag_of_key(key: KeyCode) -> Option<EventFlag> {
    match key {
        KeyCode::ShiftLeft | KeyCode::ShiftRight => Some(EventFlag::Shift),
        KeyCode::ControlLeft | KeyCode::ControlRight => Some(EventFlag::Control),
        KeyCode::AltLeft | KeyCode::AltRight => Some(EventFlag::Alternate),
        KeyCode::MetaLeft | KeyCode::MetaRight => Some(EventFlag::Command),
        KeyCode::CapsLock => Some(EventFlag::AlphaShift),
        KeyCode::Fn => Some(EventFlag::SecondaryFn),
        KeyCode::NumLock => Some(EventFlag::NumericPad),
        _ => None,
    }
}

pub fn modifier_flag_for_key(key_code: KeyCode) -> (r: Option<EventFlag>)
    ensures
        r == flag_of_key(key_code),
{
    match key_code {
        KeyCode::ShiftLeft | KeyCode::ShiftRight => Some(EventFlag::Shift),
        KeyCode::ControlLeft | KeyCode::ControlRight => Some(EventFlag::Control),
        KeyCode::AltLeft | KeyCode::AltRight => Some(EventFlag::Alternate),
        KeyCode::MetaLeft | KeyCode::MetaRight => Some(EventFlag::Command),
        KeyCode::CapsLock => Some(EventFlag::AlphaShift),
        KeyCode::Fn => Some(EventFlag::SecondaryFn),
        KeyCode::NumLock => Some(EventFlag::NumericPad),
        _ => None,
    }
}

pub fn is_modifier_key(key_code: KeyCode) -> (r: bool)
    ensures
        r == (flag_of_key(key_code) is Some),
{
    modifier_flag_for_key(key_code).is_some()
}

/// The key that the system numbers `code`.
pub open spec fn key_numbered(code: u16) -> Option<KeyCode> {
    match code {
        0x00 => Some(KeyCode::KeyA),
        0x01 => Some(KeyCode::KeyS),
        0x02 => Some(KeyCode::KeyD),
        0x03 => Some(KeyCode::KeyF),
        0x04 => Some(KeyCode::KeyH),
        0x05 => Some(KeyCode::KeyG),
        0x06 => Some(KeyCode::KeyZ),
        0x07 => Some(KeyCode::KeyX),
        0x08 => Some(KeyCode::KeyC),
        0x09 => Some(KeyCode::KeyV),
        0x0A => Some(KeyCode::IntlBackslash),
        0x0B => Some(KeyCode::KeyB),
        0x0C => Some(KeyCode::KeyQ),
        0x0D => Some(KeyCode::KeyW),
        0x0E => Some(KeyCode::KeyE),
        0x0F => Some(KeyCode::KeyR),
        0x10 => Some(KeyCode::KeyY),
        0x11 => Some(KeyCode::KeyT),
        0x12 => Some(KeyCode::Digit1),
        0x13 => Some(KeyCode::Digit2),
        0x14 => Some(KeyCode::Digit3),
        0x15 => Some(KeyCode::Digit4),
        0x16 => Some(KeyCode::Digit6),
        0x17 => Some(KeyCode::Digit5),
        0x18 => Some(KeyCode::Equal),
        0x19 => Some(KeyCode::Digit9),
        0x1A => Some(KeyCode::Digit7),
        0x1B => Some(KeyCode::Minus),
        0x1C => Some(KeyCode::Digit8),
        0x1D => Some(KeyCode::Digit0),
        0x1E => Some(KeyCode::BracketRight),
        0x1F => Some(KeyCode::KeyO),
        0x20 => Some(KeyCode::KeyU),
        0x21 => Some(KeyCode::BracketLeft),
        0x22 => Some(KeyCode::KeyI),
        0x23 => Some(KeyCode::KeyP),
        0x24 => Some(KeyCode::Enter),
        0x25 => Some(KeyCode::KeyL),
        0x26 => Some(KeyCode::KeyJ),
        0x27 => Some(KeyCode::Quote),
        0x28 => Some(KeyCode::KeyK),
        0x29 => Some(KeyCode::Semicolon),
        0x2A => Some(KeyCode::Backslash),
        0x2B => Some(KeyCode::Comma),
        0x2C => Some(KeyCode::Slash),
        0x2D => Some(KeyCode::KeyN),
        0x2E => Some(KeyCode::KeyM),
        0x2F => Some(KeyCode::Period),
        0x30 => Some(KeyCode::Tab),
        0x31 => Some(KeyCode::Space),
        0x32 => Some(KeyCode::Backquote),
        0x33 => Some(KeyCode::Backspace),
        0x34 => Some(KeyCode::NumpadEnter),
        0x35 => Some(KeyCode::Escape),
        0x36 => Some(KeyCode::MetaRight),
        0x37 => Some(KeyCode::MetaLeft),
        0x38 => Some(KeyCode::ShiftLeft),
        0x39 => Some(KeyCode::CapsLock),
        0x3A => Some(KeyCode::AltLeft),
        0x3B => Some(KeyCode::ControlLeft),
        0x3C => Some(KeyCode::ShiftRight),
        0x3D => Some(KeyCode::AltRight),
        0x3E => Some(KeyCode::ControlRight),
        0x3F => Some(KeyCode::Fn),
        0x40 => Some(KeyCode::F17),
        0x41 => Some(KeyCode::NumpadDecimal),
        0x43 => Some(KeyCode::NumpadMultiply),
        0x45 => Some(KeyCode::NumpadAdd),
        0x47 => Some(KeyCode::NumLock),
        0x48 => Some(KeyCode::AudioVolumeUp),
        0x49 => Some(KeyCode::AudioVolumeDown),
        0x4A => Some(KeyCode::AudioVolumeMute),
        0x4B => Some(KeyCode::NumpadDivide),
        0x4C => Some(KeyCode::NumpadEnter),
        0x4E => Some(KeyCode::NumpadSubtract),
        0x4F => Some(KeyCode::F18),
        0x50 => Some(KeyCode::F19),
        0x51 => Some(KeyCode::NumpadEqual),
        0x52 => Some(KeyCode::Numpad0),
        0x53 => Some(KeyCode::Numpad1),
        0x54 => Some(KeyCode::Numpad2),
        0x55 => Some(KeyCode::Numpad3),
        0x56 => Some(KeyCode::Numpad4),
        0x57 => Some(KeyCode::Numpad5),
        0x58 => Some(KeyCode::Numpad6),
        0x59 => Some(KeyCode::Numpad7),
        0x5A => Some(KeyCode::F20),
        0x5B => Some(KeyCode::Numpad8),
        0x5C => Some(KeyCode::Numpad9),
        0x5D => Some(KeyCode::IntlYen),
        0x5E => Some(KeyCode::IntlRo),
        0x5F => Some(KeyCode::NumpadComma),
        0x60 => Some(KeyCode::F5),
        0x61 => Some(KeyCode::F6),
        0x62 => Some(KeyCode::F7),
        0x63 => Some(KeyCode::F3),
        0x64 => Some(KeyCode::F8),
        0x65 => Some(KeyCode::F9),
        0x66 => Some(KeyCode::Lang2),
        0x67 => Some(KeyCode::F11),
        0x68 => Some(KeyCode::Lang1),
        0x69 => Some(KeyCode::F13),
        0x6A => Some(KeyCode::F16),
        0x6B => Some(KeyCode::F14),
        0x6D => Some(KeyCode::F10),
        0x6E => Some(KeyCode::ContextMenu),
        0x6F => Some(KeyCode::F12),
        0x71 => Some(KeyCode::F15),
        0x72 => Some(KeyCode::Insert),
        0x73 => Some(KeyCode::Home),
        0x74 => Some(KeyCode::PageUp),
        0x75 => Some(KeyCode::Delete),
        0x76 => Some(KeyCode::F4),
        0x77 => Some(KeyCode::End),
        0x78 => Some(KeyCode::F2),
        0x79 => Some(KeyCode::PageDown),
        0x7A => Some(KeyCode::F1),
        0x7B => Some(KeyCode::ArrowLeft),
        0x7C => Some(KeyCode::ArrowRight),
        0x7D => Some(KeyCode::ArrowDown),
        0x7E => Some(KeyCode::ArrowUp),
        _ => None,
    }
}

pub fn cg_keycode_to_keycode(code: u16) -> (r: Option<KeyCode>)
    ensures
        r == key_numbered(code),
{
    match code {
        0x00 => Some(KeyCode::KeyA),
        0x01 => Some(KeyCode::KeyS),
        0x02 => Some(KeyCode::KeyD),
        0x03 => Some(KeyCode::KeyF),
        0x04 => Some(KeyCode::KeyH),
        0x05 => Some(KeyCode::KeyG),
        0x06 => Some(KeyCode::KeyZ),
        0x07 => Some(KeyCode::KeyX),
        0x08 => Some(KeyCode::KeyC),
        0x09 => Some(KeyCode::KeyV),
        0x0A => Some(KeyCode::IntlBackslash),
        0x0B => Some(KeyCode::KeyB),
        0x0C => Some(KeyCode::KeyQ),
        0x0D => Some(KeyCode::KeyW),
        0x0E => Some(KeyCode::KeyE),
        0x0F => Some(KeyCode::KeyR),
        0x10 => Some(KeyCode::KeyY),
        0x11 => Some(KeyCode::KeyT),
        0x12 => Some(KeyCode::Digit1),
        0x13 => Some(KeyCode::Digit2),
        0x14 => Some(KeyCode::Digit3),
        0x15 => Some(KeyCode::Digit4),
        0x16 => Some(KeyCode::Digit6),
        0x17 => Some(KeyCode::Digit5),
        0x18 => Some(KeyCode::Equal),
        0x19 => Some(KeyCode::Digit9),
        0x1A => Some(KeyCode::Digit7),
        0x1B => Some(KeyCode::Minus),
        0x1C => Some(KeyCode::Digit8),
        0x1D => Some(KeyCode::Digit0),
        0x1E => Some(KeyCode::BracketRight),
        0x1F => Some(KeyCode::KeyO),
        0x20 => Some(KeyCode::KeyU),
        0x21 => Some(KeyCode::BracketLeft),
        0x22 => Some(KeyCode::KeyI),
        0x23 => Some(KeyCode::KeyP),
        0x24 => Some(KeyCode::Enter),
        0x25 => Some(KeyCode::KeyL),
        0x26 => Some(KeyCode::KeyJ),
        0x27 => Some(KeyCode::Quote),
        0x28 => Some(KeyCode::KeyK),
        0x29 => Some(KeyCode::Semicolon),
        0x2A => Some(KeyCode::Backslash),
        0x2B => Some(KeyCode::Comma),
        0x2C => Some(KeyCode::Slash),
        0x2D => Some(KeyCode::KeyN),
        0x2E => Some(KeyCode::KeyM),
        0x2F => Some(KeyCode::Period),
        0x30 => Some(KeyCode::Tab),
        0x31 => Some(KeyCode::Space),
        0x32 => Some(KeyCode::Backquote),
        0x33 => Some(KeyCode::Backspace),
        0x34 => Some(KeyCode::NumpadEnter),
        0x35 => Some(KeyCode::Escape),
        0x36 => Some(KeyCode::MetaRight),
        0x37 => Some(KeyCode::MetaLeft),
        0x38 => Some(KeyCode::ShiftLeft),
        0x39 => Some(KeyCode::CapsLock),
        0x3A => Some(KeyCode::AltLeft),
        0x3B => Some(KeyCode::ControlLeft),
        0x3C => Some(KeyCode::ShiftRight),
        0x3D => Some(KeyCode::AltRight),
        0x3E => Some(KeyCode::ControlRight),
        0x3F => Some(KeyCode::Fn),
        0x40 => Some(KeyCode::F17),
        0x41 => Some(KeyCode::NumpadDecimal),
        0x43 => Some(KeyCode::NumpadMultiply),
        0x45 => Some(KeyCode::NumpadAdd),
        0x47 => Some(KeyCode::NumLock),
        0x48 => Some(KeyCode::AudioVolumeUp),
        0x49 => Some(KeyCode::AudioVolumeDown),
        0x4A => Some(KeyCode::AudioVolumeMute),
        0x4B => Some(KeyCode::NumpadDivide),
        0x4C => Some(KeyCode::NumpadEnter),
        0x4E => Some(KeyCode::NumpadSubtract),
        0x4F => Some(KeyCode::F18),
        0x50 => Some(KeyCode::F19),
        0x51 => Some(KeyCode::NumpadEqual),
        0x52 => Some(KeyCode::Numpad0),
        0x53 => Some(KeyCode::Numpad1),
        0x54 => Some(KeyCode::Numpad2),
        0x55 => Some(KeyCode::Numpad3),
        0x56 => Some(KeyCode::Numpad4),
        0x57 => Some(KeyCode::Numpad5),
        0x58 => Some(KeyCode::Numpad6),
        0x59 => Some(KeyCode::Numpad7),
        0x5A => Some(KeyCode::F20),
        0x5B => Some(KeyCode::Numpad8),
        0x5C => Some(KeyCode::Numpad9),
        0x5D => Some(KeyCode::IntlYen),
        0x5E => Some(KeyCode::IntlRo),
        0x5F => Some(KeyCode::NumpadComma),
        0x60 => Some(KeyCode::F5),
        0x61 => Some(KeyCode::F6),
        0x62 => Some(KeyCode::F7),
        0x63 => Some(KeyCode::F3),
        0x64 => Some(KeyCode::F8),
        0x65 => Some(KeyCode::F9),
        0x66 => Some(KeyCode::Lang2),
        0x67 => Some(KeyCode::F11),
        0x68 => Some(KeyCode::Lang1),
        0x69 => Some(KeyCode::F13),
        0x6A => Some(KeyCode::F16),
        0x6B => Some(KeyCode::F14),
        0x6D => Some(KeyCode::F10),
        0x6E => Some(KeyCode::ContextMenu),
        0x6F => Some(KeyCode::F12),
        0x71 => Some(KeyCode::F15),
        0x72 => Some(KeyCode::Insert),
        0x73 => Some(KeyCode::Home),
        0x74 => Some(KeyCode::PageUp),
        0x75 => Some(KeyCode::Delete),
        0x76 => Some(KeyCode::F4),
        0x77 => Some(KeyCode::End),
        0x78 => Some(KeyCode::F2),
        0x79 => Some(KeyCode::PageDown),
        0x7A => Some(KeyCode::F1),
        0x7B => Some(KeyCode::ArrowLeft),
        0x7C => Some(KeyCode::ArrowRight),
        0x7D => Some(KeyCode::ArrowDown),
        0x7E => Some(KeyCode::ArrowUp),
        _ => None,
    }
}

/// The key that an event is about, by the number in it; only its low 16 bits count.
pub open spec fn key_in_event(raw: i64) -> Option<KeyCode> {
    if raw < 0 {
        None
    } else {
        key_numbered((raw % 0x1_0000) as u16)
    }
}

pub fn key_code_from_event(raw: i64) -> (r: Option<KeyCode>)
    ensures
        r == key_in_event(raw),
{
    if raw < 0 {
        return None;
    }
    cg_keycode_to_keycode((raw % 0x1_0000) as u16)
}

#[derive(Clone, Debug, PartialEq, Eq)]
pub enum Request {
    Warp(Point),
    EnforceHidden,
    ScreenParametersChanged(Vec<Frame>, u64),
    SetEventProcessing(bool),
    SetFocusFollowsMouseEnabled(bool),
}

#[derive(Clone, Copy, Debug, PartialEq, Eq, Structural)]
pub enum EventType {
    LeftMouseDown,
    LeftMouseUp,
    RightMouseDown,
    RightMouseUp,
    MouseMoved,
    LeftMouseDragged,
    RightMouseDragged,
    KeyDown,
    KeyUp,
    FlagsChanged,
}

impl EventType {
    pub open spec fn is_key(self) -> bool {
        self is KeyDown || self is KeyUp || self is FlagsChanged
    }

    pub fn is_keyboard(&self) -> (r: bool)
        ensures
            r == self.is_key(),
    {
        match self {
            EventType::KeyDown | EventType::KeyUp | EventType::FlagsChanged => true,
            _ => false,
        }
    }
}

/// What is to be done.
#[derive(Clone, Copy, Debug, PartialEq, Eq, Structural)]
pub enum MouseStep {
    Warp(Point),
    Hide,
    Show,
    /// Tell the reactor that the button was released.
    TellMouseUp,
    /// Look which window is below the pointer, and go on with [`State::track_mouse_move`].
    LookBelow,
}

/// What the mouse is configured to do.
#[derive(Clone, Copy, Debug, PartialEq, Eq, Structural)]
pub struct MouseConfig {
    pub mouse_hides_on_focus: bool,
    pub focus_follows_mouse: bool,
    pub disable_hotkey: Option<Hotkey>,
}

pub struct State {
    pub hidden: bool,
    pub above_window: Option<WindowServerId>,
    pub above_window_level: NSWindowLevel,
    pub converter: u64,
    pub screens: Vec<Frame>,
    pub event_processing_enabled: bool,
    pub focus_follows_mouse_enabled: bool,
    pub disable_hotkey_active: bool,
    pub pressed_keys: VecSet<KeyCode>,
    pub current_flags: EventFlags,
}

#[verifier::ext_equal]
pub struct MouseModel {
    pub hidden: bool,
    pub above: Option<WindowServerId>,
    pub level: NSWindowLevel,
    pub converter: u64,
    pub screens: Seq<Frame>,
    pub processing: bool,
    pub follows: bool,
    pub hotkey_active: bool,
    pub pressed: Set<KeyCode>,
    pub flags: EventFlags,
}

/// The window that the pointer came above: its level, or the lowest one where it has none.
pub open spec fn level_or_lowest(level: Option<NSWindowLevel>) -> NSWindowLevel {
    match level {
        Some(l) => l,
        None => i64::MIN,
    }
}

impl MouseModel {
    pub open spec fn initial() -> MouseModel {
        MouseModel {
            hidden: false,
            above: None,
            level: i64::MIN,
            converter: 0,
            screens: Seq::empty(),
            processing: false,
            follows: true,
            hotkey_active: false,
            pressed: Set::empty(),
            flags: EventFlags {
                control: false,
                alternate: false,
                command: false,
                shift: false,
                alpha_shift: false,
                secondary_fn: false,
                numeric_pad: false,
            },
        }
    }

    pub open spec fn requested(self, config: MouseConfig, request: Request) -> (
        MouseModel,
        Seq<MouseStep>,
    ) {
        match request {
            Request::Warp(point) => if config.mouse_hides_on_focus && !self.hidden {
                (
                    MouseModel { hidden: true, ..self },
                    seq![MouseStep::Warp(point), MouseStep::Hide],
                )
            } else {
                (self, seq![MouseStep::Warp(point)])
            },
            Request::EnforceHidden => (
                self,
                if self.hidden {
                    seq![MouseStep::Hide]
                } else {
                    Seq::empty()
                },
            ),
            Request::ScreenParametersChanged(frames, converter) => (
                MouseModel { screens: frames@, converter, ..self },
                Seq::empty(),
            ),
            Request::SetEventProcessing(enabled) => (
                MouseModel { processing: enabled, ..self },
                Seq::empty(),
            ),
            Request::SetFocusFollowsMouseEnabled(enabled) => (
                MouseModel { follows: enabled, ..self },
                Seq::empty(),
            ),
        }
    }

    /// Whether a key is held.
    pub open spec fn holds(self, key: KeyCode) -> bool {
        match flag_of_key(key) {
            Some(flag) => self.flags.has(flag),
            None => self.pressed.contains(key),
        }
    }

    pub open spec fn holds_hotkey(self, target: Hotkey) -> bool {
        modifiers_of(self.flags).covers(target.modifiers) && self.holds(target.key_code)
    }

    /// A key went down or up, or the modifiers changed.
    pub open spec fn keyed(
        self,
        target: Option<Hotkey>,
        event: EventType,
        raw: i64,
        flags: EventFlags,
    ) -> MouseModel {
        match target {
            None => self,
            Some(target) => {
                let pressed = match key_in_event(raw) {
                    None => self.pressed,
                    Some(key) => match event {
                        EventType::KeyDown => self.pressed.insert(key),
                        EventType::KeyUp => self.pressed.remove(key),
                        EventType::FlagsChanged => if flag_of_key(key) is Some {
                            self.pressed.remove(key)
                        } else {
                            self.pressed
                        },
                        _ => self.pressed,
                    },
                };
                let next = MouseModel { pressed, flags, ..self };
                MouseModel { hotkey_active: next.holds_hotkey(target), ..next }
            },
        }
    }

    pub open spec fn evented(
        self,
        config: MouseConfig,
        event: EventType,
        raw: i64,
        flags: EventFlags,
    ) -> (MouseModel, Seq<MouseStep>) {
        if event.is_key() {
            (self.keyed(config.disable_hotkey, event, raw, flags), Seq::empty())
        } else if !self.processing {
            (self, Seq::empty())
        } else {
            let shown: Seq<MouseStep> = if self.hidden {
                seq![MouseStep::Show]
            } else {
                Seq::empty()
            };
            (
                MouseModel { hidden: false, ..self },
                match event {
                    EventType::LeftMouseUp => shown.push(MouseStep::TellMouseUp),
                    EventType::MouseMoved => if config.focus_follows_mouse && self.follows
                        && !self.hotkey_active {
                        shown.push(MouseStep::LookBelow)
                    } else {
                        shown
                    },
                    _ => shown,
                },
            )
        }
    }

    /// Whether the pointer went from the menu bar into the gap below it, where the system reports
    /// whatever lies behind an open menu.
    pub open spec fn in_gap(self, in_menu_gap: bool) -> bool {
        self.level == NSMainMenuWindowLevel && in_menu_gap
    }

    pub open spec fn tracked_move(
        self,
        window: Option<WindowServerId>,
        in_menu_gap: bool,
        level: Option<NSWindowLevel>,
    ) -> (MouseModel, Option<WindowServerId>) {
        if self.above == window || self.in_gap(in_menu_gap) {
            (self, None)
        } else {
            let next_level = if window is Some {
                level_or_lowest(level)
            } else {
                i64::MIN
            };
            (
                MouseModel { above: window, level: next_level, ..self },
                if self.level < NSPopUpMenuWindowLevel && 0 <= next_level
                    < NSPopUpMenuWindowLevel {
                    window
                } else {
                    None
                },
            )
        }
    }
}

/// The events that are listened to: those of the keyboard only where a hotkey needs them.
pub fn listens_to(event: EventType, disable_hotkey: Option<Hotkey>) -> (r: bool)
    ensures
        r == (event.is_key() ==> disable_hotkey is Some),
{
    !event.is_keyboard() || disable_hotkey.is_some()
}

impl State {
    pub open spec fn view(self) -> MouseModel {
        MouseModel {
            hidden: self.hidden,
            above: self.above_window,
            level: self.above_window_level,
            converter: self.converter,
            screens: self.screens@,
            processing: self.event_processing_enabled,
            follows: self.focus_follows_mouse_enabled,
            hotkey_active: self.disable_hotkey_active,
            pressed: self.pressed_keys@,
            flags: self.current_flags,
        }
    }

    pub fn new() -> (r: State)
        ensures
            r@ == MouseModel::initial(),
    {
        State {
            hidden: false,
            above_window: None,
            above_window_level: i64::MIN,
            converter: 0,
            screens: Vec::new(),
            event_processing_enabled: false,
            focus_follows_mouse_enabled: true,
            disable_hotkey_active: false,
            pressed_keys: VecSet::new(),
            current_flags: EventFlags {
                control: false,
                alternate: false,
                command: false,
                shift: false,
                alpha_shift: false,
                secondary_fn: false,
                numeric_pad: false,
            },
        }
    }

    pub fn base_key_active(&self, key_code: KeyCode) -> (r: bool)
        ensures
            r == self@.holds(key_code),
    {
        match modifier_flag_for_key(key_code) {
            Some(flag) => self.current_flags.contains(flag),
            None => self.pressed_keys.contains(&key_code),
        }
    }

    pub fn compute_disable_hotkey_active(&self, target: Hotkey) -> (r: bool)
        ensures
            r == self@.holds_hotkey(target),
    {
        if !modifiers_from_flags(self.current_flags).contains(target.modifiers) {
            return false;
        }
        self.base_key_active(target.key_code)
    }

    /// Follows the pointer to `window`, whose level is `level`. The result is the window that is
    /// to be focused. `in_menu_gap`: whether the pointer is at the upper edge of a screen.
    pub fn track_mouse_move(
        &mut self,
        window: Option<WindowServerId>,
        in_menu_gap: bool,
        level: Option<NSWindowLevel>,
    ) -> (r: Option<WindowServerId>)
        ensures
            (final(self)@, r) == old(self)@.tracked_move(window, in_menu_gap, level),
    {
        if self.above_window == window {
            return None;
        }
        if self.above_window_level == NSMainMenuWindowLevel && in_menu_gap {
            return None;
        }
        let old_level: NSWindowLevel = self.above_window_level;
        let new_level: NSWindowLevel = match (window, level) {
            (Some(_), Some(l)) => l,
            _ => i64::MIN,
        };
        self.above_window = window;
        self.above_window_level = new_level;
        if old_level >= NSPopUpMenuWindowLevel {
            return None;
        }
        if new_level < 0 || new_level >= NSPopUpMenuWindowLevel {
            return None;
        }
        window
    }
}

pub struct Mouse {
    pub config: MouseConfig,
    pub state: State,
}

impl Mouse {
    pub fn new(config: MouseConfig) -> (r: Mouse)
        ensures
            r.config == config,
            r.state@ == MouseModel::initial(),
    {
        Mouse { config, state: State::new() }
    }

    pub fn on_request(&mut self, request: Request) -> (r: Vec<MouseStep>)
        ensures
            final(self).config == old(self).config,
            (final(self).state@, r@) == old(self).state@.requested(old(self).config, request),
    {
        let mut steps: Vec<MouseStep> = Vec::new();
        match request {
            Request::Warp(point) => {
                steps.push(MouseStep::Warp(point));
                if self.config.mouse_hides_on_focus && !self.state.hidden {
                    steps.push(MouseStep::Hide);
                    self.state.hidden = true;
                }
            },
            Request::EnforceHidden => {
                if self.state.hidden {
                    steps.push(MouseStep::Hide);
                }
            },
            Request::ScreenParametersChanged(frames, converter) => {
                self.state.screens = frames;
                self.state.converter = converter;
            },
            Request::SetEventProcessing(enabled) => {
                self.state.event_processing_enabled = enabled;
            },
            Request::SetFocusFollowsMouseEnabled(enabled) => {
                self.state.focus_follows_mouse_enabled = enabled;
            },
        }
        assert(steps@ =~= old(self).state@.requested(old(self).config, request).1);
        steps
    }

    fn handle_keyboard_event(&mut self, event: EventType, raw: i64, flags: EventFlags)
        ensures
            final(self).config == old(self).config,
            final(self).state@ == old(self).state@.keyed(
                old(self).config.disable_hotkey,
                event,
                raw,
                flags,
            ),
    {
        let target: Hotkey = match self.config.disable_hotkey {
            Some(target) => target,
            None => {
                return ;
            },
        };
        match key_code_from_event(raw) {
            Some(key) => {
                match event {
                    EventType::KeyDown => {
                        let _ = self.state.pressed_keys.insert(key);
                    },
                    EventType::KeyUp => {
                        let _ = self.state.pressed_keys.remove(&key);
                    },
                    EventType::FlagsChanged => {
                        if is_modifier_key(key) {
                            let _ = self.state.pressed_keys.remove(&key);
                        }
                    },
                    _ => {},
                }
            },
            None => {},
        }
        self.state.current_flags = flags;
        self.state.disable_hotkey_active = self.state.compute_disable_hotkey_active(target);
    }

    /// Handles an event of the mouse or of the keyboard. `raw` is the number of its key, `flags`
    /// what the system says of the modifiers.
    pub fn on_event(&mut self, event: EventType, raw: i64, flags: EventFlags) -> (r: Vec<
        MouseStep,
    >)
        ensures
            final(self).config == old(self).config,
            (final(self).state@, r@) == old(self).state@.evented(
                old(self).config,
                event,
                raw,
                flags,
            ),
    {
        let mut steps: Vec<MouseStep> = Vec::new();
        if event.is_keyboard() {
            self.handle_keyboard_event(event, raw, flags);
            return steps;
        }
        if !self.state.event_processing_enabled {
            return steps;
        }
        if self.state.hidden {
            steps.push(MouseStep::Show);
            self.state.hidden = false;
        }
        match event {
            EventType::LeftMouseUp => {
                steps.push(MouseStep::TellMouseUp);
            },
            EventType::MouseMoved => {
                if self.config.focus_follows_mouse && self.state.focus_follows_mouse_enabled
                    && !self.state.disable_hotkey_active {
                    steps.push(MouseStep::LookBelow);
                }
            },
            _ => {},
        }
        assert(steps@ =~= old(self).state@.evented(old(self).config, event, raw, flags).1);
        steps
    }
}

/// A hidden pointer shows as soon as the mouse is used, and stays shown.
pub proof fn using_the_mouse_shows_it(
    m: MouseModel,
    config: MouseConfig,
    event: EventType,
    raw: i64,
    flags: EventFlags,
)
    requires
        m.processing,
        !event.is_key(),
    ensures
        !m.evented(config, event, raw, flags).0.hidden,
        m.hidden ==> m.evented(config, event, raw, flags).1[0] == MouseStep::Show,
{
}

/// While the hotkey is held the mouse does not move the focus.
pub proof fn a_held_hotkey_stops_the_mouse(
    m: MouseModel,
    config: MouseConfig,
    raw: i64,
    flags: EventFlags,
)
    requires
        m.hotkey_active,
    ensures
        !m.evented(config, EventType::MouseMoved, raw, flags).1.contains(MouseStep::LookBelow),
{
}

/// Once a key is let go, a hotkey on it is not held any more.
pub proof fn a_released_key_frees_the_mouse(
    m: MouseModel,
    target: Hotkey,
    raw: i64,
    flags: EventFlags,
)
    requires
        key_in_event(raw) == Some(target.key_code),
        flag_of_key(target.key_code) is None,
    ensures
        !m.keyed(Some(target), EventType::KeyUp, raw, flags).hotkey_active,
{
}

/// Only windows below the level of menus get the focus, and each once until the pointer leaves it.
pub proof fn menus_never_get_the_focus(
    m: MouseModel,
    window: Option<WindowServerId>,
    in_menu_gap: bool,
    level: Option<NSWindowLevel>,
)
    ensures
        m.tracked_move(window, in_menu_gap, level).1 is Some ==> 0 <= level_or_lowest(level)
            < NSPopUpMenuWindowLevel && m.level < NSPopUpMenuWindowLevel,
        m.tracked_move(window, in_menu_gap, level).0.tracked_move(window, in_menu_gap, level).1
            is None,
{
}

/// No two numbers stand for one key, but for the enter key of the number pad.
pub proof fn keys_have_one_number(a: u16, b: u16)
    requires
        key_numbered(a) is Some,
        key_numbered(a) == key_numbered(b),
        key_numbered(a) != Some(KeyCode::NumpadEnter),
    ensures
        a == b,
{
}

/// Each key has the number that the system gives it: letters and digits first, then the modifiers,
/// the keys of the number pad, the function keys and the arrows.
pub proof fn keys_have_their_own_numbers(code: u16)
    ensures
        key_numbered(0) == Some(KeyCode::KeyA),
        key_numbered(1) == Some(KeyCode::KeyS),
        key_numbered(2) == Some(KeyCode::KeyD),
        key_numbered(3) == Some(KeyCode::KeyF),
        key_numbered(4) == Some(KeyCode::KeyH),
        key_numbered(5) == Some(KeyCode::KeyG),
        key_numbered(6) == Some(KeyCode::KeyZ),
        key_numbered(7) == Some(KeyCode::KeyX),
        key_numbered(8) == Some(KeyCode::KeyC),
        key_numbered(9) == Some(KeyCode::KeyV),
        key_numbered(10) == Some(KeyCode::IntlBackslash),
        key_numbered(11) == Some(KeyCode::KeyB),
        key_numbered(12) == Some(KeyCode::KeyQ),
        key_numbered(13) == Some(KeyCode::KeyW),
        key_numbered(14) == Some(KeyCode::KeyE),
        key_numbered(15) == Some(KeyCode::KeyR),
        key_numbered(16) == Some(KeyCode::KeyY),
        key_numbered(17) == Some(KeyCode::KeyT),
        key_numbered(18) == Some(KeyCode::Digit1),
        key_numbered(19) == Some(KeyCode::Digit2),
        key_numbered(20) == Some(KeyCode::Digit3),
        key_numbered(21) == Some(KeyCode::Digit4),
        key_numbered(22) == Some(KeyCode::Digit6),
        key_numbered(23) == Some(KeyCode::Digit5),
        key_numbered(24) == Some(KeyCode::Equal),
        key_numbered(25) == Some(KeyCode::Digit9),
        key_numbered(26) == Some(KeyCode::Digit7),
        key_numbered(27) == Some(KeyCode::Minus),
        key_numbered(28) == Some(KeyCode::Digit8),
        key_numbered(29) == Some(KeyCode::Digit0),
        key_numbered(30) == Some(KeyCode::BracketRight),
        key_numbered(31) == Some(KeyCode::KeyO),
        key_numbered(32) == Some(KeyCode::KeyU),
        key_numbered(33) == Some(KeyCode::BracketLeft),
        key_numbered(34) == Some(KeyCode::KeyI),
        key_numbered(35) == Some(KeyCode::KeyP),
        key_numbered(36) == Some(KeyCode::Enter),
        key_numbered(37) == Some(KeyCode::KeyL),
        key_numbered(38) == Some(KeyCode::KeyJ),
        key_numbered(39) == Some(KeyCode::Quote),
        key_numbered(40) == Some(KeyCode::KeyK),
        key_numbered(41) == Some(KeyCode::Semicolon),
        key_numbered(42) == Some(KeyCode::Backslash),
        key_numbered(43) == Some(KeyCode::Comma),
        key_numbered(44) == Some(KeyCode::Slash),
        key_numbered(45) == Some(KeyCode::KeyN),
        key_numbered(46) == Some(KeyCode::KeyM),
        key_numbered(47) == Some(KeyCode::Period),
        key_numbered(48) == Some(KeyCode::Tab),
        key_numbered(49) == Some(KeyCode::Space),
        key_numbered(50) == Some(KeyCode::Backquote),
        key_numbered(51) == Some(KeyCode::Backspace),
        key_numbered(52) == Some(KeyCode::NumpadEnter),
        key_numbered(53) == Some(KeyCode::Escape),
        key_numbered(54) == Some(KeyCode::MetaRight),
        key_numbered(55) == Some(KeyCode::MetaLeft),
        key_numbered(56) == Some(KeyCode::ShiftLeft),
        key_numbered(57) == Some(KeyCode::CapsLock),
        key_numbered(58) == Some(KeyCode::AltLeft),
        key_numbered(59) == Some(KeyCode::ControlLeft),
        key_numbered(60) == Some(KeyCode::ShiftRight),
        key_numbered(61) == Some(KeyCode::AltRight),
        key_numbered(62) == Some(KeyCode::ControlRight),
        key_numbered(63) == Some(KeyCode::Fn),
        key_numbered(64) == Some(KeyCode::F17),
        key_numbered(65) == Some(KeyCode::NumpadDecimal),
        key_numbered(67) == Some(KeyCode::NumpadMultiply),
        key_numbered(69) == Some(KeyCode::NumpadAdd),
        key_numbered(71) == Some(KeyCode::NumLock),
        key_numbered(72) == Some(KeyCode::AudioVolumeUp),
        key_numbered(73) == Some(KeyCode::AudioVolumeDown),
        key_numbered(74) == Some(KeyCode::AudioVolumeMute),
        key_numbered(75) == Some(KeyCode::NumpadDivide),
        key_numbered(76) == Some(KeyCode::NumpadEnter),
        key_numbered(78) == Some(KeyCode::NumpadSubtract),
        key_numbered(79) == Some(KeyCode::F18),
        key_numbered(80) == Some(KeyCode::F19),
        key_numbered(81) == Some(KeyCode::NumpadEqual),
        key_numbered(82) == Some(KeyCode::Numpad0),
        key_numbered(83) == Some(KeyCode::Numpad1),
        key_numbered(84) == Some(KeyCode::Numpad2),
        key_numbered(85) == Some(KeyCode::Numpad3),
        key_numbered(86) == Some(KeyCode::Numpad4),
        key_numbered(87) == Some(KeyCode::Numpad5),
        key_numbered(88) == Some(KeyCode::Numpad6),
        key_numbered(89) == Some(KeyCode::Numpad7),
        key_numbered(90) == Some(KeyCode::F20),
        key_numbered(91) == Some(KeyCode::Numpad8),
        key_numbered(92) == Some(KeyCode::Numpad9),
        key_numbered(93) == Some(KeyCode::IntlYen),
        key_numbered(94) == Some(KeyCode::IntlRo),
        key_numbered(95) == Some(KeyCode::NumpadComma),
        key_numbered(96) == Some(KeyCode::F5),
        key_numbered(97) == Some(KeyCode::F6),
        key_numbered(98) == Some(KeyCode::F7),
        key_numbered(99) == Some(KeyCode::F3),
        key_numbered(100) == Some(KeyCode::F8),
        key_numbered(101) == Some(KeyCode::F9),
        key_numbered(102) == Some(KeyCode::Lang2),
        key_numbered(103) == Some(KeyCode::F11),
        key_numbered(104) == Some(KeyCode::Lang1),
        key_numbered(105) == Some(KeyCode::F13),
        key_numbered(106) == Some(KeyCode::F16),
        key_numbered(107) == Some(KeyCode::F14),
        key_numbered(109) == Some(KeyCode::F10),
        key_numbered(110) == Some(KeyCode::ContextMenu),
        key_numbered(111) == Some(KeyCode::F12),
        key_numbered(113) == Some(KeyCode::F15),
        key_numbered(114) == Some(KeyCode::Insert),
        key_numbered(115) == Some(KeyCode::Home),
        key_numbered(116) == Some(KeyCode::PageUp),
        key_numbered(117) == Some(KeyCode::Delete),
        key_numbered(118) == Some(KeyCode::F4),
        key_numbered(119) == Some(KeyCode::End),
        key_numbered(120) == Some(KeyCode::F2),
        key_numbered(121) == Some(KeyCode::PageDown),
        key_numbered(122) == Some(KeyCode::F1),
        key_numbered(123) == Some(KeyCode::ArrowLeft),
        key_numbered(124) == Some(KeyCode::ArrowRight),
        key_numbered(125) == Some(KeyCode::ArrowDown),
        key_numbered(126) == Some(KeyCode::ArrowUp),
        code > 126 ==> key_numbered(code) is None,
        key_numbered(66) is None,
        key_numbered(68) is None,
        key_numbered(70) is None,
        key_numbered(77) is None,
        key_numbered(108) is None,
        key_numbered(112) is None,
{
}

/// Only the enter key of the number pad has two numbers.
pub proof fn keys_are_told_apart_by_their_numbers(a: u16, b: u16)
    requires
        key_numbered(a) is Some,
        key_numbered(a) == key_numbered(b),
    ensures
        a == b || key_numbered(a) == Some(KeyCode::NumpadEnter),
{
}

/// The number of a key is in the lower sixteen bits of what an event says.
pub proof fn events_carry_the_number_of_a_key(code: u16, raw: i64)
    ensures
        key_in_event(code as i64) == key_numbered(code),
        raw < 0 ==> key_in_event(raw) is None,
{
}

/// Modifiers are taken from the flags of the same name, and those that are asked for are held only
/// if every one of them is.
pub proof fn modifiers_are_those_of_the_flags(flags: EventFlags, asked: Modifiers)
    ensures
        modifiers_of(flags).control == flags.control,
        modifiers_of(flags).alt == flags.alternate,
        modifiers_of(flags).meta == flags.command,
        modifiers_of(flags).shift == flags.shift,
        modifiers_of(flags).covers(asked) <==> (!asked.control || flags.control) && (!asked.alt
            || flags.alternate) && (!asked.meta || flags.command) && (!asked.shift
            || flags.shift),
        flags.has(EventFlag::Control) == flags.control,
        flags.has(EventFlag::Alternate) == flags.alternate,
        flags.has(EventFlag::Command) == flags.command,
        flags.has(EventFlag::Shift) == flags.shift,
        flags.has(EventFlag::AlphaShift) == flags.alpha_shift,
        flags.has(EventFlag::SecondaryFn) == flags.secondary_fn,
        flags.has(EventFlag::NumericPad) == flags.numeric_pad,
{
}

/// A modifier key is held while its flag is set, on either side of the keyboard; any other key while
/// it is pressed. A hotkey is held with its modifiers and its key.
pub proof fn keys_are_held_by_flag_or_by_press(m: MouseModel, target: Hotkey)
    ensures
        m.holds(KeyCode::ShiftLeft) == m.flags.shift && m.holds(KeyCode::ShiftRight)
            == m.flags.shift,
        m.holds(KeyCode::ControlLeft) == m.flags.control && m.holds(KeyCode::ControlRight)
            == m.flags.control,
        m.holds(KeyCode::AltLeft) == m.flags.alternate && m.holds(KeyCode::AltRight)
            == m.flags.alternate,
        m.holds(KeyCode::MetaLeft) == m.flags.command && m.holds(KeyCode::MetaRight)
            == m.flags.command,
        m.holds(KeyCode::CapsLock) == m.flags.alpha_shift,
        m.holds(KeyCode::Fn) == m.flags.secondary_fn,
        m.holds(KeyCode::NumLock) == m.flags.numeric_pad,
        m.holds(KeyCode::KeyA) == m.pressed.contains(KeyCode::KeyA),
        flag_of_key(target.key_code) is None ==> m.holds(target.key_code) == m.pressed.contains(
            target.key_code,
        ),
        m.holds_hotkey(target) <==> m.holds(target.key_code) && modifiers_of(m.flags).covers(
            target.modifiers,
        ),
{
}

/// Keys that go down are pressed until they come up, and the flags are those of the last event.
pub proof fn pressed_keys_are_remembered(
    m: MouseModel,
    target: Hotkey,
    raw: i64,
    flags: EventFlags,
    key: KeyCode,
    other: KeyCode,
)
    requires
        key_in_event(raw) == Some(key),
        other != key,
    ensures
        ({
            let n = m.keyed(Some(target), EventType::KeyDown, raw, flags);
            &&& n.pressed.contains(key) && n.flags == flags
            &&& n.pressed.contains(other) == m.pressed.contains(other)
            &&& n.hotkey_active == n.holds_hotkey(target)
        }),
        ({
            let n = m.keyed(Some(target), EventType::KeyUp, raw, flags);
            &&& !n.pressed.contains(key) && n.flags == flags
            &&& n.pressed.contains(other) == m.pressed.contains(other)
            &&& n.hotkey_active == n.holds_hotkey(target)
        }),
        m.keyed(None, EventType::KeyDown, raw, flags) == m,
{
}

/// A warp moves the pointer to the point, and hides it if it is set to hide and does not already;
/// other requests set what they name and move nothing.
pub proof fn requests_to_the_mouse_do_what_they_say(
    m: MouseModel,
    config: MouseConfig,
    p: Point,
    frames: Vec<Frame>,
    converter: u64,
    on: bool,
)
    ensures
        ({
            let (n, steps) = m.requested(config, Request::Warp(p));
            &&& steps.len() > 0 && steps[0] == MouseStep::Warp(p)
            &&& config.mouse_hides_on_focus ==> n.hidden
            &&& config.mouse_hides_on_focus && !m.hidden ==> steps =~= seq![
                MouseStep::Warp(p),
                MouseStep::Hide,
            ]
            &&& !config.mouse_hides_on_focus || m.hidden ==> n == m && steps.len() == 1
        }),
        m.hidden ==> m.requested(config, Request::EnforceHidden).1 =~= seq![MouseStep::Hide],
        !m.hidden ==> m.requested(config, Request::EnforceHidden).1.len() == 0,
        m.requested(config, Request::EnforceHidden).0 == m,
        m.requested(config, Request::ScreenParametersChanged(frames, converter)).0.screens
            == frames@,
        m.requested(config, Request::ScreenParametersChanged(frames, converter)).0.converter
            == converter,
        m.requested(config, Request::SetEventProcessing(on)).0.processing == on,
        m.requested(config, Request::SetEventProcessing(on)).0.follows == m.follows,
        m.requested(config, Request::SetFocusFollowsMouseEnabled(on)).0.follows == on,
        m.requested(config, Request::SetFocusFollowsMouseEnabled(on)).0.processing
            == m.processing,
{
}

/// A released button is told and a move has what lies below looked at, the latter only if the focus
/// is to follow the mouse; before events are processed nothing is done.
pub proof fn events_of_the_mouse_are_followed(
    m: MouseModel,
    config: MouseConfig,
    raw: i64,
    flags: EventFlags,
    event: EventType,
)
    ensures
        !m.processing && !event.is_key() ==> m.evented(config, event, raw, flags) == (
            m,
            Seq::<MouseStep>::empty(),
        ),
        m.processing ==> m.evented(config, EventType::LeftMouseUp, raw, flags).1.last()
            == MouseStep::TellMouseUp,
        m.processing && config.focus_follows_mouse && m.follows && !m.hotkey_active ==> m.evented(
            config,
            EventType::MouseMoved,
            raw,
            flags,
        ).1.last() == MouseStep::LookBelow,
        (!config.focus_follows_mouse || !m.follows) && !m.hidden ==> m.evented(
            config,
            EventType::MouseMoved,
            raw,
            flags,
        ).1.len() == 0,
        m.processing && !m.hidden ==> m.evented(config, EventType::LeftMouseDown, raw, flags).1.len()
            == 0,
        event.is_key() <==> event is KeyDown || event is KeyUp || event is FlagsChanged,
{
}

/// A window that the pointer moves onto is told once; not while it is on the same one, nor while
/// the pointer crosses a gap in the menu bar, nor for windows at the level of menus or below the
/// desktop.
pub proof fn the_window_below_is_told_once(
    m: MouseModel,
    w: WindowServerId,
    gap: bool,
    level: Option<NSWindowLevel>,
)
    ensures
        m.above == Some(w) ==> m.tracked_move(Some(w), gap, level) == (m, None::<WindowServerId>),
        m.level == 24 && gap ==> m.tracked_move(Some(w), gap, level) == (
            m,
            None::<WindowServerId>,
        ),
        m.above != Some(w) && !(m.level == 24 && gap) ==> {
            let (n, told) = m.tracked_move(Some(w), gap, level);
            &&& n.above == Some(w) && n.level == (if level is Some { level->0 } else { i64::MIN })
            &&& told == (if m.level < 101 && level is Some && 0 <= level->0 && level->0 < 101 {
                Some(w)
            } else {
                None
            })
            &&& n.tracked_move(Some(w), gap, level).1 is None
        },
{
}

} // verus!
