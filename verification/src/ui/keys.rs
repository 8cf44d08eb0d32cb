//! Keys as the window system delivers them, and as terminals and shortcuts know
//! them.

use vstd::prelude::*;

verus! {

pub const KEY_SPACE: u32 = 0x20;

pub const KEY_APOSTROPHE: u32 = 0x27;

pub const KEY_PLUS: u32 = 0x2b;

pub const KEY_COMMA: u32 = 0x2c;

pub const KEY_MINUS: u32 = 0x2d;

pub const KEY_PERIOD: u32 = 0x2e;

pub const KEY_SLASH: u32 = 0x2f;

pub const KEY_SEMICOLON: u32 = 0x3b;

pub const KEY_EQUAL: u32 = 0x3d;

pub const KEY_BRACKETLEFT: u32 = 0x5b;

pub const KEY_BACKSLASH: u32 = 0x5c;

pub const KEY_BRACKETRIGHT: u32 = 0x5d;

pub const KEY_UNDERSCORE: u32 = 0x5f;

pub const KEY_GRAVE: u32 = 0x60;

pub const KEY_BAR: u32 = 0x7c;

pub const KEY_ISO_LEVEL3_SHIFT: u32 = 0xfe03;

pub const KEY_ISO_LEVEL5_SHIFT: u32 = 0xfe11;

pub const KEY_ISO_LEFT_TAB: u32 = 0xfe20;

pub const KEY_BACK_SPACE: u32 = 0xff08;

pub const KEY_TAB: u32 = 0xff09;

pub const KEY_RETURN: u32 = 0xff0d;

pub const KEY_PAUSE: u32 = 0xff13;

pub const KEY_SCROLL_LOCK: u32 = 0xff14;

pub const KEY_ESCAPE: u32 = 0xff1b;

pub const KEY_HOME: u32 = 0xff50;

pub const KEY_LEFT: u32 = 0xff51;

pub const KEY_UP: u32 = 0xff52;

pub const KEY_RIGHT: u32 = 0xff53;

pub const KEY_DOWN: u32 = 0xff54;

pub const KEY_PAGE_UP: u32 = 0xff55;

pub const KEY_PAGE_DOWN: u32 = 0xff56;

pub const KEY_END: u32 = 0xff57;

pub const KEY_PRINT: u32 = 0xff61;

pub const KEY_INSERT: u32 = 0xff63;

pub const KEY_MENU: u32 = 0xff67;

pub const KEY_NUM_LOCK: u32 = 0xff7f;

pub const KEY_KP_ENTER: u32 = 0xff8d;

pub const KEY_KP_HOME: u32 = 0xff95;

pub const KEY_KP_LEFT: u32 = 0xff96;

pub const KEY_KP_UP: u32 = 0xff97;

pub const KEY_KP_RIGHT: u32 = 0xff98;

pub const KEY_KP_DOWN: u32 = 0xff99;

pub const KEY_KP_PAGE_UP: u32 = 0xff9a;

pub const KEY_KP_PAGE_DOWN: u32 = 0xff9b;

pub const KEY_KP_END: u32 = 0xff9c;

pub const KEY_KP_BEGIN: u32 = 0xff9d;

pub const KEY_KP_INSERT: u32 = 0xff9e;

pub const KEY_KP_DELETE: u32 = 0xff9f;

pub const KEY_KP_MULTIPLY: u32 = 0xffaa;

pub const KEY_KP_ADD: u32 = 0xffab;

pub const KEY_KP_SEPARATOR: u32 = 0xffac;

pub const KEY_KP_SUBTRACT: u32 = 0xffad;

pub const KEY_KP_DECIMAL: u32 = 0xffae;

pub const KEY_KP_DIVIDE: u32 = 0xffaf;

pub const KEY_KP_EQUAL: u32 = 0xffbd;

pub const KEY_SHIFT_L: u32 = 0xffe1;

pub const KEY_SHIFT_R: u32 = 0xffe2;

pub const KEY_CONTROL_L: u32 = 0xffe3;

pub const KEY_CONTROL_R: u32 = 0xffe4;

pub const KEY_CAPS_LOCK: u32 = 0xffe5;

pub const KEY_META_L: u32 = 0xffe7;

pub const KEY_META_R: u32 = 0xffe8;

pub const KEY_ALT_L: u32 = 0xffe9;

pub const KEY_ALT_R: u32 = 0xffea;

pub const KEY_SUPER_L: u32 = 0xffeb;

pub const KEY_SUPER_R: u32 = 0xffec;

pub const KEY_HYPER_L: u32 = 0xffed;

pub const KEY_HYPER_R: u32 = 0xffee;

pub const KEY_DELETE: u32 = 0xffff;

pub const KEY_AUDIO_LOWER_VOLUME: u32 = 0x1008ff11;

pub const KEY_AUDIO_MUTE: u32 = 0x1008ff12;

pub const KEY_AUDIO_RAISE_VOLUME: u32 = 0x1008ff13;

pub const KEY_AUDIO_PLAY: u32 = 0x1008ff14;

pub const KEY_AUDIO_STOP: u32 = 0x1008ff15;

pub const KEY_AUDIO_PREV: u32 = 0x1008ff16;

pub const KEY_AUDIO_NEXT: u32 = 0x1008ff17;

pub const KEY_AUDIO_RECORD: u32 = 0x1008ff1c;

pub const KEY_AUDIO_PAUSE: u32 = 0x1008ff31;

pub const KEY_AUDIO_REWIND: u32 = 0x1008ff3e;

pub const KEY_AUDIO_FORWARD: u32 = 0x1008ff97;

/// The first of the function keys, which follow each other.
pub const KEY_F1: u32 = 0xffbe;

/// The last of the function keys.
pub const KEY_F35: u32 = 0xffe0;

/// The tenth function key, which opens the menu.
pub const KEY_F10: u32 = 0xffc7;

/// The first of the digits of the keypad, which follow each other.
pub const KEY_KP_0: u32 = 0xffb0;

/// The last of the digits of the keypad.
pub const KEY_KP_9: u32 = 0xffb9;

/// The modifier bits of a key event.
pub const SHIFT_MASK: u32 = 0x1;

pub const LOCK_MASK: u32 = 0x2;

pub const CONTROL_MASK: u32 = 0x4;

pub const ALT_MASK: u32 = 0x8;

pub const SUPER_MASK: u32 = 0x400_0000;

pub const HYPER_MASK: u32 = 0x800_0000;

pub const META_MASK: u32 = 0x1000_0000;

/// Keys that have a name in the terminal protocol but no character.
#[derive(Clone, Copy, Debug, PartialEq, Eq, Structural)]
pub enum NamedKey {
    NumpadEqual,
    NumpadSeparator,
    NumpadLeft,
    NumpadRight,
    NumpadUp,
    NumpadDown,
    NumpadPageUp,
    NumpadPageDown,
    NumpadHome,
    NumpadEnd,
    NumpadInsert,
    NumpadDelete,
    NumpadBegin,
    CapsLock,
    ScrollLock,
    NumLock,
    PrintScreen,
    Pause,
    Menu,
    MediaPlay,
    MediaPause,
    MediaStop,
    MediaFastForward,
    MediaRewind,
    MediaTrackNext,
    MediaTrackPrevious,
    MediaRecord,
    LowerVolume,
    RaiseVolume,
    MuteVolume,
    LeftShift,
    LeftControl,
    LeftAlt,
    LeftSuper,
    LeftHyper,
    LeftMeta,
    RightShift,
    RightControl,
    RightAlt,
    RightSuper,
    RightHyper,
    RightMeta,
    IsoLevel3Shift,
    IsoLevel5Shift,
}

/// A key as a terminal knows it.
#[derive(Clone, Copy, Debug, PartialEq, Eq, Structural)]
pub enum Key {
    Char(char),
    Up,
    Down,
    Left,
    Right,
    Home,
    End,
    PageUp,
    PageDown,
    Insert,
    Delete,
    Backspace,
    Enter,
    Tab,
    Escape,
    F(u8),
    NumpadDigit(u8),
    NumpadDecimal,
    NumpadDivide,
    NumpadMultiply,
    NumpadSubtract,
    NumpadAdd,
    NumpadEnter,
    Named(NamedKey),
}

/// A key as shortcuts know it.
#[derive(Clone, Copy, Debug, PartialEq, Eq, Structural)]
pub enum KeyCode {
    A,
    B,
    C,
    D,
    E,
    F,
    G,
    H,
    I,
    J,
    K,
    L,
    M,
    N,
    O,
    P,
    Q,
    R,
    S,
    T,
    U,
    V,
    W,
    X,
    Y,
    Z,
    Key0,
    Key1,
    Key2,
    Key3,
    Key4,
    Key5,
    Key6,
    Key7,
    Key8,
    Key9,
    F1,
    F2,
    F3,
    F4,
    F5,
    F6,
    F7,
    F8,
    F9,
    F10,
    F11,
    F12,
    Up,
    Down,
    Left,
    Right,
    Home,
    End,
    PageUp,
    PageDown,
    Insert,
    Delete,
    Backspace,
    Enter,
    Tab,
    Escape,
    Space,
    Minus,
    Equals,
    Comma,
    Period,
    Slash,
    Backslash,
    Semicolon,
    Quote,
    LeftBracket,
    RightBracket,
    Backquote,
}

/// The key that a terminal gets for a key value, where it is not a character:
/// function keys and keypad digits by their number, the others one by one.
pub open spec fn terminal_key(keyval: u32) -> Option<Key> {
    if KEY_F1 <= keyval <= KEY_F35 {
        Some(Key::F((keyval - KEY_F1 + 1) as u8))
    } else if KEY_KP_0 <= keyval <= KEY_KP_9 {
        Some(Key::NumpadDigit((keyval - KEY_KP_0) as u8))
    } else if keyval == KEY_UP {
        Some(Key::Up)
    } else if keyval == KEY_DOWN {
        Some(Key::Down)
    } else if keyval == KEY_LEFT {
        Some(Key::Left)
    } else if keyval == KEY_RIGHT {
        Some(Key::Right)
    } else if keyval == KEY_HOME {
        Some(Key::Home)
    } else if keyval == KEY_END {
        Some(Key::End)
    } else if keyval == KEY_PAGE_UP {
        Some(Key::PageUp)
    } else if keyval == KEY_PAGE_DOWN {
        Some(Key::PageDown)
    } else if keyval == KEY_INSERT {
        Some(Key::Insert)
    } else if keyval == KEY_DELETE {
        Some(Key::Delete)
    } else if keyval == KEY_BACK_SPACE {
        Some(Key::Backspace)
    } else if keyval == KEY_RETURN {
        Some(Key::Enter)
    } else if keyval == KEY_KP_DECIMAL {
        Some(Key::NumpadDecimal)
    } else if keyval == KEY_KP_DIVIDE {
        Some(Key::NumpadDivide)
    } else if keyval == KEY_KP_MULTIPLY {
        Some(Key::NumpadMultiply)
    } else if keyval == KEY_KP_SUBTRACT {
        Some(Key::NumpadSubtract)
    } else if keyval == KEY_KP_ADD {
        Some(Key::NumpadAdd)
    } else if keyval == KEY_KP_ENTER {
        Some(Key::NumpadEnter)
    } else if keyval == KEY_KP_EQUAL {
        Some(Key::Named(NamedKey::NumpadEqual))
    } else if keyval == KEY_KP_SEPARATOR {
        Some(Key::Named(NamedKey::NumpadSeparator))
    } else if keyval == KEY_KP_LEFT {
        Some(Key::Named(NamedKey::NumpadLeft))
    } else if keyval == KEY_KP_RIGHT {
        Some(Key::Named(NamedKey::NumpadRight))
    } else if keyval == KEY_KP_UP {
        Some(Key::Named(NamedKey::NumpadUp))
    } else if keyval == KEY_KP_DOWN {
        Some(Key::Named(NamedKey::NumpadDown))
    } else if keyval == KEY_KP_PAGE_UP {
        Some(Key::Named(NamedKey::NumpadPageUp))
    } else if keyval == KEY_KP_PAGE_DOWN {
        Some(Key::Named(NamedKey::NumpadPageDown))
    } else if keyval == KEY_KP_HOME {
        Some(Key::Named(NamedKey::NumpadHome))
    } else if keyval == KEY_KP_END {
        Some(Key::Named(NamedKey::NumpadEnd))
    } else if keyval == KEY_KP_INSERT {
        Some(Key::Named(NamedKey::NumpadInsert))
    } else if keyval == KEY_KP_DELETE {
        Some(Key::Named(NamedKey::NumpadDelete))
    } else if keyval == KEY_KP_BEGIN {
        Some(Key::Named(NamedKey::NumpadBegin))
    } else if keyval == KEY_TAB {
        Some(Key::Tab)
    } else if keyval == KEY_ISO_LEFT_TAB {
        Some(Key::Tab)
    } else if keyval == KEY_ESCAPE {
        Some(Key::Escape)
    } else if keyval == KEY_CAPS_LOCK {
        Some(Key::Named(NamedKey::CapsLock))
    } else if keyval == KEY_SCROLL_LOCK {
        Some(Key::Named(NamedKey::ScrollLock))
    } else if keyval == KEY_NUM_LOCK {
        Some(Key::Named(NamedKey::NumLock))
    } else if keyval == KEY_PRINT {
        Some(Key::Named(NamedKey::PrintScreen))
    } else if keyval == KEY_PAUSE {
        Some(Key::Named(NamedKey::Pause))
    } else if keyval == KEY_MENU {
        Some(Key::Named(NamedKey::Menu))
    } else if keyval == KEY_AUDIO_PLAY {
        Some(Key::Named(NamedKey::MediaPlay))
    } else if keyval == KEY_AUDIO_PAUSE {
        Some(Key::Named(NamedKey::MediaPause))
    } else if keyval == KEY_AUDIO_STOP {
        Some(Key::Named(NamedKey::MediaStop))
    } else if keyval == KEY_AUDIO_FORWARD {
        Some(Key::Named(NamedKey::MediaFastForward))
    } else if keyval == KEY_AUDIO_REWIND {
        Some(Key::Named(NamedKey::MediaRewind))
    } else if keyval == KEY_AUDIO_NEXT {
        Some(Key::Named(NamedKey::MediaTrackNext))
    } else if keyval == KEY_AUDIO_PREV {
        Some(Key::Named(NamedKey::MediaTrackPrevious))
    } else if keyval == KEY_AUDIO_RECORD {
        Some(Key::Named(NamedKey::MediaRecord))
    } else if keyval == KEY_AUDIO_LOWER_VOLUME {
        Some(Key::Named(NamedKey::LowerVolume))
    } else if keyval == KEY_AUDIO_RAISE_VOLUME {
        Some(Key::Named(NamedKey::RaiseVolume))
    } else if keyval == KEY_AUDIO_MUTE {
        Some(Key::Named(NamedKey::MuteVolume))
    } else if keyval == KEY_SHIFT_L {
        Some(Key::Named(NamedKey::LeftShift))
    } else if keyval == KEY_CONTROL_L {
        Some(Key::Named(NamedKey::LeftControl))
    } else if keyval == KEY_ALT_L {
        Some(Key::Named(NamedKey::LeftAlt))
    } else if keyval == KEY_SUPER_L {
        Some(Key::Named(NamedKey::LeftSuper))
    } else if keyval == KEY_HYPER_L {
        Some(Key::Named(NamedKey::LeftHyper))
    } else if keyval == KEY_META_L {
        Some(Key::Named(NamedKey::LeftMeta))
    } else if keyval == KEY_SHIFT_R {
        Some(Key::Named(NamedKey::RightShift))
    } else if keyval == KEY_CONTROL_R {
        Some(Key::Named(NamedKey::RightControl))
    } else if keyval == KEY_ALT_R {
        Some(Key::Named(NamedKey::RightAlt))
    } else if keyval == KEY_SUPER_R {
        Some(Key::Named(NamedKey::RightSuper))
    } else if keyval == KEY_HYPER_R {
        Some(Key::Named(NamedKey::RightHyper))
    } else if keyval == KEY_META_R {
        Some(Key::Named(NamedKey::RightMeta))
    } else if keyval == KEY_ISO_LEVEL3_SHIFT {
        Some(Key::Named(NamedKey::IsoLevel3Shift))
    } else if keyval == KEY_ISO_LEVEL5_SHIFT {
        Some(Key::Named(NamedKey::IsoLevel5Shift))
    } else {
        None
    }
}

/// Convert a key value to the key that a terminal gets.
pub fn keyval_to_key(keyval: u32) -> (key: Option<Key>)
    ensures
        key == terminal_key(keyval),
        keyval == 0xff51 <==> key == Some(Key::Left),
        keyval == 0xff52 <==> key == Some(Key::Up),
        keyval == 0xff53 <==> key == Some(Key::Right),
        keyval == 0xff54 <==> key == Some(Key::Down),
        keyval == 0xff50 <==> key == Some(Key::Home),
        keyval == 0xff57 <==> key == Some(Key::End),
        keyval == 0xff55 <==> key == Some(Key::PageUp),
        keyval == 0xff56 <==> key == Some(Key::PageDown),
        keyval == 0xff63 <==> key == Some(Key::Insert),
        keyval == 0xffff <==> key == Some(Key::Delete),
        keyval == 0xff08 <==> key == Some(Key::Backspace),
        keyval == 0xff0d <==> key == Some(Key::Enter),
        keyval == 0xff1b <==> key == Some(Key::Escape),
        keyval == 0xff09 || keyval == 0xfe20 <==> key == Some(Key::Tab),
{
    if KEY_F1 <= keyval && keyval <= KEY_F35 {
        let number: u8 = (keyval - KEY_F1) as u8;
        return Some(Key::F(number + 1));
    }
    if KEY_KP_0 <= keyval && keyval <= KEY_KP_9 {
        return Some(Key::NumpadDigit((keyval - KEY_KP_0) as u8));
    }
    if keyval == KEY_UP {
        Some(Key::Up)
    } else if keyval == KEY_DOWN {
        Some(Key::Down)
    } else if keyval == KEY_LEFT {
        Some(Key::Left)
    } else if keyval == KEY_RIGHT {
        Some(Key::Right)
    } else if keyval == KEY_HOME {
        Some(Key::Home)
    } else if keyval == KEY_END {
        Some(Key::End)
    } else if keyval == KEY_PAGE_UP {
        Some(Key::PageUp)
    } else if keyval == KEY_PAGE_DOWN {
        Some(Key::PageDown)
    } else if keyval == KEY_INSERT {
        Some(Key::Insert)
    } else if keyval == KEY_DELETE {
        Some(Key::Delete)
    } else if keyval == KEY_BACK_SPACE {
        Some(Key::Backspace)
    } else if keyval == KEY_RETURN {
        Some(Key::Enter)
    } else if keyval == KEY_KP_DECIMAL {
        Some(Key::NumpadDecimal)
    } else if keyval == KEY_KP_DIVIDE {
        Some(Key::NumpadDivide)
    } else if keyval == KEY_KP_MULTIPLY {
        Some(Key::NumpadMultiply)
    } else if keyval == KEY_KP_SUBTRACT {
        Some(Key::NumpadSubtract)
    } else if keyval == KEY_KP_ADD {
        Some(Key::NumpadAdd)
    } else if keyval == KEY_KP_ENTER {
        Some(Key::NumpadEnter)
    } else if keyval == KEY_KP_EQUAL {
        Some(Key::Named(NamedKey::NumpadEqual))
    } else if keyval == KEY_KP_SEPARATOR {
        Some(Key::Named(NamedKey::NumpadSeparator))
    } else if keyval == KEY_KP_LEFT {
        Some(Key::Named(NamedKey::NumpadLeft))
    } else if keyval == KEY_KP_RIGHT {
        Some(Key::Named(NamedKey::NumpadRight))
    } else if keyval == KEY_KP_UP {
        Some(Key::Named(NamedKey::NumpadUp))
    } else if keyval == KEY_KP_DOWN {
        Some(Key::Named(NamedKey::NumpadDown))
    } else if keyval == KEY_KP_PAGE_UP {
        Some(Key::Named(NamedKey::NumpadPageUp))
    } else if keyval == KEY_KP_PAGE_DOWN {
        Some(Key::Named(NamedKey::NumpadPageDown))
    } else if keyval == KEY_KP_HOME {
        Some(Key::Named(NamedKey::NumpadHome))
    } else if keyval == KEY_KP_END {
        Some(Key::Named(NamedKey::NumpadEnd))
    } else if keyval == KEY_KP_INSERT {
        Some(Key::Named(NamedKey::NumpadInsert))
    } else if keyval == KEY_KP_DELETE {
        Some(Key::Named(NamedKey::NumpadDelete))
    } else if keyval == KEY_KP_BEGIN {
        Some(Key::Named(NamedKey::NumpadBegin))
    } else if keyval == KEY_TAB {
        Some(Key::Tab)
    } else if keyval == KEY_ISO_LEFT_TAB {
        Some(Key::Tab)
    } else if keyval == KEY_ESCAPE {
        Some(Key::Escape)
    } else if keyval == KEY_CAPS_LOCK {
        Some(Key::Named(NamedKey::CapsLock))
    } else if keyval == KEY_SCROLL_LOCK {
        Some(Key::Named(NamedKey::ScrollLock))
    } else if keyval == KEY_NUM_LOCK {
        Some(Key::Named(NamedKey::NumLock))
    } else if keyval == KEY_PRINT {
        Some(Key::Named(NamedKey::PrintScreen))
    } else if keyval == KEY_PAUSE {
        Some(Key::Named(NamedKey::Pause))
    } else if keyval == KEY_MENU {
        Some(Key::Named(NamedKey::Menu))
    } else if keyval == KEY_AUDIO_PLAY {
        Some(Key::Named(NamedKey::MediaPlay))
    } else if keyval == KEY_AUDIO_PAUSE {
        Some(Key::Named(NamedKey::MediaPause))
    } else if keyval == KEY_AUDIO_STOP {
        Some(Key::Named(NamedKey::MediaStop))
    } else if keyval == KEY_AUDIO_FORWARD {
        Some(Key::Named(NamedKey::MediaFastForward))
    } else if keyval == KEY_AUDIO_REWIND {
        Some(Key::Named(NamedKey::MediaRewind))
    } else if keyval == KEY_AUDIO_NEXT {
        Some(Key::Named(NamedKey::MediaTrackNext))
    } else if keyval == KEY_AUDIO_PREV {
        Some(Key::Named(NamedKey::MediaTrackPrevious))
    } else if keyval == KEY_AUDIO_RECORD {
        Some(Key::Named(NamedKey::MediaRecord))
    } else if keyval == KEY_AUDIO_LOWER_VOLUME {
        Some(Key::Named(NamedKey::LowerVolume))
    } else if keyval == KEY_AUDIO_RAISE_VOLUME {
        Some(Key::Named(NamedKey::RaiseVolume))
    } else if keyval == KEY_AUDIO_MUTE {
        Some(Key::Named(NamedKey::MuteVolume))
    } else if keyval == KEY_SHIFT_L {
        Some(Key::Named(NamedKey::LeftShift))
    } else if keyval == KEY_CONTROL_L {
        Some(Key::Named(NamedKey::LeftControl))
    } else if keyval == KEY_ALT_L {
        Some(Key::Named(NamedKey::LeftAlt))
    } else if keyval == KEY_SUPER_L {
        Some(Key::Named(NamedKey::LeftSuper))
    } else if keyval == KEY_HYPER_L {
        Some(Key::Named(NamedKey::LeftHyper))
    } else if keyval == KEY_META_L {
        Some(Key::Named(NamedKey::LeftMeta))
    } else if keyval == KEY_SHIFT_R {
        Some(Key::Named(NamedKey::RightShift))
    } else if keyval == KEY_CONTROL_R {
        Some(Key::Named(NamedKey::RightControl))
    } else if keyval == KEY_ALT_R {
        Some(Key::Named(NamedKey::RightAlt))
    } else if keyval == KEY_SUPER_R {
        Some(Key::Named(NamedKey::RightSuper))
    } else if keyval == KEY_HYPER_R {
        Some(Key::Named(NamedKey::RightHyper))
    } else if keyval == KEY_META_R {
        Some(Key::Named(NamedKey::RightMeta))
    } else if keyval == KEY_ISO_LEVEL3_SHIFT {
        Some(Key::Named(NamedKey::IsoLevel3Shift))
    } else if keyval == KEY_ISO_LEVEL5_SHIFT {
        Some(Key::Named(NamedKey::IsoLevel5Shift))
    } else {
        None
    }
}

/// The letter key with a place in the alphabet, counted from zero.
pub open spec fn letter_key(place: int) -> KeyCode {
    if place == 0 {
        KeyCode::A
    } else if place == 1 {
        KeyCode::B
    } else if place == 2 {
        KeyCode::C
    } else if place == 3 {
        KeyCode::D
    } else if place == 4 {
        KeyCode::E
    } else if place == 5 {
        KeyCode::F
    } else if place == 6 {
        KeyCode::G
    } else if place == 7 {
        KeyCode::H
    } else if place == 8 {
        KeyCode::I
    } else if place == 9 {
        KeyCode::J
    } else if place == 10 {
        KeyCode::K
    } else if place == 11 {
        KeyCode::L
    } else if place == 12 {
        KeyCode::M
    } else if place == 13 {
        KeyCode::N
    } else if place == 14 {
        KeyCode::O
    } else if place == 15 {
        KeyCode::P
    } else if place == 16 {
        KeyCode::Q
    } else if place == 17 {
        KeyCode::R
    } else if place == 18 {
        KeyCode::S
    } else if place == 19 {
        KeyCode::T
    } else if place == 20 {
        KeyCode::U
    } else if place == 21 {
        KeyCode::V
    } else if place == 22 {
        KeyCode::W
    } else if place == 23 {
        KeyCode::X
    } else if place == 24 {
        KeyCode::Y
    } else {
        KeyCode::Z
    }
}

fn letter_code(place: u32) -> (code: KeyCode)
    requires
        place < 26,
    ensures
        code == letter_key(place as int),
{
    if place == 0 {
        KeyCode::A
    } else if place == 1 {
        KeyCode::B
    } else if place == 2 {
        KeyCode::C
    } else if place == 3 {
        KeyCode::D
    } else if place == 4 {
        KeyCode::E
    } else if place == 5 {
        KeyCode::F
    } else if place == 6 {
        KeyCode::G
    } else if place == 7 {
        KeyCode::H
    } else if place == 8 {
        KeyCode::I
    } else if place == 9 {
        KeyCode::J
    } else if place == 10 {
        KeyCode::K
    } else if place == 11 {
        KeyCode::L
    } else if place == 12 {
        KeyCode::M
    } else if place == 13 {
        KeyCode::N
    } else if place == 14 {
        KeyCode::O
    } else if place == 15 {
        KeyCode::P
    } else if place == 16 {
        KeyCode::Q
    } else if place == 17 {
        KeyCode::R
    } else if place == 18 {
        KeyCode::S
    } else if place == 19 {
        KeyCode::T
    } else if place == 20 {
        KeyCode::U
    } else if place == 21 {
        KeyCode::V
    } else if place == 22 {
        KeyCode::W
    } else if place == 23 {
        KeyCode::X
    } else if place == 24 {
        KeyCode::Y
    } else {
        KeyCode::Z
    }
}

/// The key of a digit.
pub open spec fn digit_key(digit: int) -> KeyCode {
    if digit == 0 {
        KeyCode::Key0
    } else if digit == 1 {
        KeyCode::Key1
    } else if digit == 2 {
        KeyCode::Key2
    } else if digit == 3 {
        KeyCode::Key3
    } else if digit == 4 {
        KeyCode::Key4
    } else if digit == 5 {
        KeyCode::Key5
    } else if digit == 6 {
        KeyCode::Key6
    } else if digit == 7 {
        KeyCode::Key7
    } else if digit == 8 {
        KeyCode::Key8
    } else {
        KeyCode::Key9
    }
}

fn digit_code(digit: u32) -> (code: KeyCode)
    requires
        digit < 10,
    ensures
        code == digit_key(digit as int),
{
    if digit == 0 {
        KeyCode::Key0
    } else if digit == 1 {
        KeyCode::Key1
    } else if digit == 2 {
        KeyCode::Key2
    } else if digit == 3 {
        KeyCode::Key3
    } else if digit == 4 {
        KeyCode::Key4
    } else if digit == 5 {
        KeyCode::Key5
    } else if digit == 6 {
        KeyCode::Key6
    } else if digit == 7 {
        KeyCode::Key7
    } else if digit == 8 {
        KeyCode::Key8
    } else {
        KeyCode::Key9
    }
}

/// The function key with a number, counted from zero.
pub open spec fn function_key(place: int) -> KeyCode {
    if place == 0 {
        KeyCode::F1
    } else if place == 1 {
        KeyCode::F2
    } else if place == 2 {
        KeyCode::F3
    } else if place == 3 {
        KeyCode::F4
    } else if place == 4 {
        KeyCode::F5
    } else if place == 5 {
        KeyCode::F6
    } else if place == 6 {
        KeyCode::F7
    } else if place == 7 {
        KeyCode::F8
    } else if place == 8 {
        KeyCode::F9
    } else if place == 9 {
        KeyCode::F10
    } else if place == 10 {
        KeyCode::F11
    } else {
        KeyCode::F12
    }
}

fn function_code(place: u32) -> (code: KeyCode)
    requires
        place < 12,
    ensures
        code == function_key(place as int),
{
    if place == 0 {
        KeyCode::F1
    } else if place == 1 {
        KeyCode::F2
    } else if place == 2 {
        KeyCode::F3
    } else if place == 3 {
        KeyCode::F4
    } else if place == 4 {
        KeyCode::F5
    } else if place == 5 {
        KeyCode::F6
    } else if place == 6 {
        KeyCode::F7
    } else if place == 7 {
        KeyCode::F8
    } else if place == 8 {
        KeyCode::F9
    } else if place == 9 {
        KeyCode::F10
    } else if place == 10 {
        KeyCode::F11
    } else {
        KeyCode::F12
    }
}

/// The key that a shortcut names, for a key value: letters in either case,
/// digits, the first twelve function keys, and some keys one by one. A shifted
/// character stands for the key that it is on.
pub open spec fn shortcut_key(keyval: u32) -> Option<KeyCode> {
    if 'a' as u32 <= keyval <= 'z' as u32 {
        Some(letter_key(keyval - 'a' as u32))
    } else if 'A' as u32 <= keyval <= 'Z' as u32 {
        Some(letter_key(keyval - 'A' as u32))
    } else if '0' as u32 <= keyval <= '9' as u32 {
        Some(digit_key(keyval - '0' as u32))
    } else if KEY_F1 <= keyval < KEY_F1 + 12 {
        Some(function_key(keyval - KEY_F1))
    } else if keyval == KEY_UP {
        Some(KeyCode::Up)
    } else if keyval == KEY_DOWN {
        Some(KeyCode::Down)
    } else if keyval == KEY_LEFT {
        Some(KeyCode::Left)
    } else if keyval == KEY_RIGHT {
        Some(KeyCode::Right)
    } else if keyval == KEY_HOME {
        Some(KeyCode::Home)
    } else if keyval == KEY_END {
        Some(KeyCode::End)
    } else if keyval == KEY_PAGE_UP {
        Some(KeyCode::PageUp)
    } else if keyval == KEY_KP_PAGE_UP {
        Some(KeyCode::PageUp)
    } else if keyval == KEY_PAGE_DOWN {
        Some(KeyCode::PageDown)
    } else if keyval == KEY_KP_PAGE_DOWN {
        Some(KeyCode::PageDown)
    } else if keyval == KEY_INSERT {
        Some(KeyCode::Insert)
    } else if keyval == KEY_DELETE {
        Some(KeyCode::Delete)
    } else if keyval == KEY_BACK_SPACE {
        Some(KeyCode::Backspace)
    } else if keyval == KEY_RETURN {
        Some(KeyCode::Enter)
    } else if keyval == KEY_KP_ENTER {
        Some(KeyCode::Enter)
    } else if keyval == KEY_TAB {
        Some(KeyCode::Tab)
    } else if keyval == KEY_ISO_LEFT_TAB {
        Some(KeyCode::Tab)
    } else if keyval == KEY_ESCAPE {
        Some(KeyCode::Escape)
    } else if keyval == KEY_SPACE {
        Some(KeyCode::Space)
    } else if keyval == KEY_MINUS {
        Some(KeyCode::Minus)
    } else if keyval == KEY_UNDERSCORE {
        Some(KeyCode::Minus)
    } else if keyval == KEY_EQUAL {
        Some(KeyCode::Equals)
    } else if keyval == KEY_PLUS {
        Some(KeyCode::Equals)
    } else if keyval == KEY_COMMA {
        Some(KeyCode::Comma)
    } else if keyval == KEY_PERIOD {
        Some(KeyCode::Period)
    } else if keyval == KEY_SLASH {
        Some(KeyCode::Slash)
    } else if keyval == KEY_BACKSLASH {
        Some(KeyCode::Backslash)
    } else if keyval == KEY_BAR {
        Some(KeyCode::Backslash)
    } else if keyval == KEY_SEMICOLON {
        Some(KeyCode::Semicolon)
    } else if keyval == KEY_APOSTROPHE {
        Some(KeyCode::Quote)
    } else if keyval == KEY_BRACKETLEFT {
        Some(KeyCode::LeftBracket)
    } else if keyval == KEY_BRACKETRIGHT {
        Some(KeyCode::RightBracket)
    } else if keyval == KEY_GRAVE {
        Some(KeyCode::Backquote)
    } else {
        None
    }
}

/// Convert a key value to the key that a shortcut names.
pub fn keyval_to_keycode(keyval: u32) -> (code: Option<KeyCode>)
    ensures
        code == shortcut_key(keyval),
{
    if 97 <= keyval && keyval <= 122 {
        return Some(letter_code(keyval - 97));
    }
    if 65 <= keyval && keyval <= 90 {
        return Some(letter_code(keyval - 65));
    }
    if 48 <= keyval && keyval <= 57 {
        return Some(digit_code(keyval - 48));
    }
    if KEY_F1 <= keyval && keyval < KEY_F1 + 12 {
        return Some(function_code(keyval - KEY_F1));
    }
    if keyval == KEY_UP {
        Some(KeyCode::Up)
    } else if keyval == KEY_DOWN {
        Some(KeyCode::Down)
    } else if keyval == KEY_LEFT {
        Some(KeyCode::Left)
    } else if keyval == KEY_RIGHT {
        Some(KeyCode::Right)
    } else if keyval == KEY_HOME {
        Some(KeyCode::Home)
    } else if keyval == KEY_END {
        Some(KeyCode::End)
    } else if keyval == KEY_PAGE_UP {
        Some(KeyCode::PageUp)
    } else if keyval == KEY_KP_PAGE_UP {
        Some(KeyCode::PageUp)
    } else if keyval == KEY_PAGE_DOWN {
        Some(KeyCode::PageDown)
    } else if keyval == KEY_KP_PAGE_DOWN {
        Some(KeyCode::PageDown)
    } else if keyval == KEY_INSERT {
        Some(KeyCode::Insert)
    } else if keyval == KEY_DELETE {
        Some(KeyCode::Delete)
    } else if keyval == KEY_BACK_SPACE {
        Some(KeyCode::Backspace)
    } else if keyval == KEY_RETURN {
        Some(KeyCode::Enter)
    } else if keyval == KEY_KP_ENTER {
        Some(KeyCode::Enter)
    } else if keyval == KEY_TAB {
        Some(KeyCode::Tab)
    } else if keyval == KEY_ISO_LEFT_TAB {
        Some(KeyCode::Tab)
    } else if keyval == KEY_ESCAPE {
        Some(KeyCode::Escape)
    } else if keyval == KEY_SPACE {
        Some(KeyCode::Space)
    } else if keyval == KEY_MINUS {
        Some(KeyCode::Minus)
    } else if keyval == KEY_UNDERSCORE {
        Some(KeyCode::Minus)
    } else if keyval == KEY_EQUAL {
        Some(KeyCode::Equals)
    } else if keyval == KEY_PLUS {
        Some(KeyCode::Equals)
    } else if keyval == KEY_COMMA {
        Some(KeyCode::Comma)
    } else if keyval == KEY_PERIOD {
        Some(KeyCode::Period)
    } else if keyval == KEY_SLASH {
        Some(KeyCode::Slash)
    } else if keyval == KEY_BACKSLASH {
        Some(KeyCode::Backslash)
    } else if keyval == KEY_BAR {
        Some(KeyCode::Backslash)
    } else if keyval == KEY_SEMICOLON {
        Some(KeyCode::Semicolon)
    } else if keyval == KEY_APOSTROPHE {
        Some(KeyCode::Quote)
    } else if keyval == KEY_BRACKETLEFT {
        Some(KeyCode::LeftBracket)
    } else if keyval == KEY_BRACKETRIGHT {
        Some(KeyCode::RightBracket)
    } else if keyval == KEY_GRAVE {
        Some(KeyCode::Backquote)
    } else {
        None
    }
}

/// The key values of the editing and keypad keys are those that the window system
/// assigns to the keys of the same names, and no other key value gives such a key.
pub proof fn law_editing_keys_have_their_own_values(keyval: u32)
    ensures
        terminal_key(keyval) == Some(Key::Up) <==> keyval == 0xff52,
        terminal_key(keyval) == Some(Key::Down) <==> keyval == 0xff54,
        terminal_key(keyval) == Some(Key::Left) <==> keyval == 0xff51,
        terminal_key(keyval) == Some(Key::Right) <==> keyval == 0xff53,
        terminal_key(keyval) == Some(Key::Home) <==> keyval == 0xff50,
        terminal_key(keyval) == Some(Key::End) <==> keyval == 0xff57,
        terminal_key(keyval) == Some(Key::PageUp) <==> keyval == 0xff55,
        terminal_key(keyval) == Some(Key::PageDown) <==> keyval == 0xff56,
        terminal_key(keyval) == Some(Key::Insert) <==> keyval == 0xff63,
        terminal_key(keyval) == Some(Key::Delete) <==> keyval == 0xffff,
        terminal_key(keyval) == Some(Key::Backspace) <==> keyval == 0xff08,
        terminal_key(keyval) == Some(Key::Enter) <==> keyval == 0xff0d,
        terminal_key(keyval) == Some(Key::Escape) <==> keyval == 0xff1b,
        terminal_key(keyval) == Some(Key::NumpadDecimal) <==> keyval == 0xffae,
        terminal_key(keyval) == Some(Key::NumpadDivide) <==> keyval == 0xffaf,
        terminal_key(keyval) == Some(Key::NumpadMultiply) <==> keyval == 0xffaa,
        terminal_key(keyval) == Some(Key::NumpadSubtract) <==> keyval == 0xffad,
        terminal_key(keyval) == Some(Key::NumpadAdd) <==> keyval == 0xffab,
        terminal_key(keyval) == Some(Key::NumpadEnter) <==> keyval == 0xff8d,
        terminal_key(keyval) == Some(Key::Tab) <==> keyval == 0xff09 || keyval == 0xfe20,
        terminal_key(keyval) matches Some(key) ==> key !is Char,
{
}

/// The same for the keys that only have a name: locks, media keys, and the modifiers of
/// both sides.
pub proof fn law_named_keys_have_their_own_values(keyval: u32)
    ensures
        terminal_key(keyval) == Some(Key::Named(NamedKey::NumpadEqual)) <==> keyval == 0xffbd,
        terminal_key(keyval) == Some(Key::Named(NamedKey::NumpadSeparator)) <==> keyval == 0xffac,
        terminal_key(keyval) == Some(Key::Named(NamedKey::NumpadLeft)) <==> keyval == 0xff96,
        terminal_key(keyval) == Some(Key::Named(NamedKey::NumpadRight)) <==> keyval == 0xff98,
        terminal_key(keyval) == Some(Key::Named(NamedKey::NumpadUp)) <==> keyval == 0xff97,
        terminal_key(keyval) == Some(Key::Named(NamedKey::NumpadDown)) <==> keyval == 0xff99,
        terminal_key(keyval) == Some(Key::Named(NamedKey::NumpadPageUp)) <==> keyval == 0xff9a,
        terminal_key(keyval) == Some(Key::Named(NamedKey::NumpadPageDown)) <==> keyval == 0xff9b,
        terminal_key(keyval) == Some(Key::Named(NamedKey::NumpadHome)) <==> keyval == 0xff95,
        terminal_key(keyval) == Some(Key::Named(NamedKey::NumpadEnd)) <==> keyval == 0xff9c,
        terminal_key(keyval) == Some(Key::Named(NamedKey::NumpadInsert)) <==> keyval == 0xff9e,
        terminal_key(keyval) == Some(Key::Named(NamedKey::NumpadDelete)) <==> keyval == 0xff9f,
        terminal_key(keyval) == Some(Key::Named(NamedKey::NumpadBegin)) <==> keyval == 0xff9d,
        terminal_key(keyval) == Some(Key::Named(NamedKey::CapsLock)) <==> keyval == 0xffe5,
        terminal_key(keyval) == Some(Key::Named(NamedKey::ScrollLock)) <==> keyval == 0xff14,
        terminal_key(keyval) == Some(Key::Named(NamedKey::NumLock)) <==> keyval == 0xff7f,
        terminal_key(keyval) == Some(Key::Named(NamedKey::PrintScreen)) <==> keyval == 0xff61,
        terminal_key(keyval) == Some(Key::Named(NamedKey::Pause)) <==> keyval == 0xff13,
        terminal_key(keyval) == Some(Key::Named(NamedKey::Menu)) <==> keyval == 0xff67,
        terminal_key(keyval) == Some(Key::Named(NamedKey::MediaPlay)) <==> keyval == 0x1008ff14,
        terminal_key(keyval) == Some(Key::Named(NamedKey::MediaPause)) <==> keyval == 0x1008ff31,
        terminal_key(keyval) == Some(Key::Named(NamedKey::MediaStop)) <==> keyval == 0x1008ff15,
        terminal_key(keyval) == Some(Key::Named(NamedKey::MediaFastForward)) <==> keyval == 0x1008ff97,
        terminal_key(keyval) == Some(Key::Named(NamedKey::MediaRewind)) <==> keyval == 0x1008ff3e,
        terminal_key(keyval) == Some(Key::Named(NamedKey::MediaTrackNext)) <==> keyval == 0x1008ff17,
        terminal_key(keyval) == Some(Key::Named(NamedKey::MediaTrackPrevious)) <==> keyval == 0x1008ff16,
        terminal_key(keyval) == Some(Key::Named(NamedKey::MediaRecord)) <==> keyval == 0x1008ff1c,
        terminal_key(keyval) == Some(Key::Named(NamedKey::LowerVolume)) <==> keyval == 0x1008ff11,
        terminal_key(keyval) == Some(Key::Named(NamedKey::RaiseVolume)) <==> keyval == 0x1008ff13,
        terminal_key(keyval) == Some(Key::Named(NamedKey::MuteVolume)) <==> keyval == 0x1008ff12,
        terminal_key(keyval) == Some(Key::Named(NamedKey::LeftShift)) <==> keyval == 0xffe1,
        terminal_key(keyval) == Some(Key::Named(NamedKey::LeftControl)) <==> keyval == 0xffe3,
        terminal_key(keyval) == Some(Key::Named(NamedKey::LeftAlt)) <==> keyval == 0xffe9,
        terminal_key(keyval) == Some(Key::Named(NamedKey::LeftSuper)) <==> keyval == 0xffeb,
        terminal_key(keyval) == Some(Key::Named(NamedKey::LeftHyper)) <==> keyval == 0xffed,
        terminal_key(keyval) == Some(Key::Named(NamedKey::LeftMeta)) <==> keyval == 0xffe7,
        terminal_key(keyval) == Some(Key::Named(NamedKey::RightShift)) <==> keyval == 0xffe2,
        terminal_key(keyval) == Some(Key::Named(NamedKey::RightControl)) <==> keyval == 0xffe4,
        terminal_key(keyval) == Some(Key::Named(NamedKey::RightAlt)) <==> keyval == 0xffea,
        terminal_key(keyval) == Some(Key::Named(NamedKey::RightSuper)) <==> keyval == 0xffec,
        terminal_key(keyval) == Some(Key::Named(NamedKey::RightHyper)) <==> keyval == 0xffee,
        terminal_key(keyval) == Some(Key::Named(NamedKey::RightMeta)) <==> keyval == 0xffe8,
        terminal_key(keyval) == Some(Key::Named(NamedKey::IsoLevel3Shift)) <==> keyval == 0xfe03,
        terminal_key(keyval) == Some(Key::Named(NamedKey::IsoLevel5Shift)) <==> keyval == 0xfe11,
{
}

/// Function keys and the digits of the keypad follow each other in the order of their
/// numbers.
pub proof fn law_numbered_keys_count_up(keyval: u32, number: u8)
    ensures
        terminal_key(keyval) == Some(Key::F(number)) <==> 1 <= number <= 35 && keyval == 0xffbd
            + number,
        terminal_key(keyval) == Some(Key::NumpadDigit(number)) <==> number <= 9 && keyval == 0xffb0
            + number,
{
}

/// Shortcuts know a letter's key by the letter in either case.
pub proof fn law_letter_shortcuts_are_their_letters(keyval: u32)
    ensures
        shortcut_key(keyval) == Some(KeyCode::A) <==> keyval == 0x61 || keyval == 0x41,
        shortcut_key(keyval) == Some(KeyCode::B) <==> keyval == 0x62 || keyval == 0x42,
        shortcut_key(keyval) == Some(KeyCode::C) <==> keyval == 0x63 || keyval == 0x43,
        shortcut_key(keyval) == Some(KeyCode::D) <==> keyval == 0x64 || keyval == 0x44,
        shortcut_key(keyval) == Some(KeyCode::E) <==> keyval == 0x65 || keyval == 0x45,
        shortcut_key(keyval) == Some(KeyCode::F) <==> keyval == 0x66 || keyval == 0x46,
        shortcut_key(keyval) == Some(KeyCode::G) <==> keyval == 0x67 || keyval == 0x47,
        shortcut_key(keyval) == Some(KeyCode::H) <==> keyval == 0x68 || keyval == 0x48,
        shortcut_key(keyval) == Some(KeyCode::I) <==> keyval == 0x69 || keyval == 0x49,
        shortcut_key(keyval) == Some(KeyCode::J) <==> keyval == 0x6a || keyval == 0x4a,
        shortcut_key(keyval) == Some(KeyCode::K) <==> keyval == 0x6b || keyval == 0x4b,
        shortcut_key(keyval) == Some(KeyCode::L) <==> keyval == 0x6c || keyval == 0x4c,
        shortcut_key(keyval) == Some(KeyCode::M) <==> keyval == 0x6d || keyval == 0x4d,
        shortcut_key(keyval) == Some(KeyCode::N) <==> keyval == 0x6e || keyval == 0x4e,
        shortcut_key(keyval) == Some(KeyCode::O) <==> keyval == 0x6f || keyval == 0x4f,
        shortcut_key(keyval) == Some(KeyCode::P) <==> keyval == 0x70 || keyval == 0x50,
        shortcut_key(keyval) == Some(KeyCode::Q) <==> keyval == 0x71 || keyval == 0x51,
        shortcut_key(keyval) == Some(KeyCode::R) <==> keyval == 0x72 || keyval == 0x52,
        shortcut_key(keyval) == Some(KeyCode::S) <==> keyval == 0x73 || keyval == 0x53,
        shortcut_key(keyval) == Some(KeyCode::T) <==> keyval == 0x74 || keyval == 0x54,
        shortcut_key(keyval) == Some(KeyCode::U) <==> keyval == 0x75 || keyval == 0x55,
        shortcut_key(keyval) == Some(KeyCode::V) <==> keyval == 0x76 || keyval == 0x56,
        shortcut_key(keyval) == Some(KeyCode::W) <==> keyval == 0x77 || keyval == 0x57,
        shortcut_key(keyval) == Some(KeyCode::X) <==> keyval == 0x78 || keyval == 0x58,
        shortcut_key(keyval) == Some(KeyCode::Y) <==> keyval == 0x79 || keyval == 0x59,
        shortcut_key(keyval) == Some(KeyCode::Z) <==> keyval == 0x7a || keyval == 0x5a,
{
}

/// Shortcuts know digits and the first twelve function keys by their numbers.
pub proof fn law_numbered_shortcuts_are_their_numbers(keyval: u32)
    ensures
        shortcut_key(keyval) == Some(KeyCode::Key0) <==> keyval == 0x30,
        shortcut_key(keyval) == Some(KeyCode::Key1) <==> keyval == 0x31,
        shortcut_key(keyval) == Some(KeyCode::Key2) <==> keyval == 0x32,
        shortcut_key(keyval) == Some(KeyCode::Key3) <==> keyval == 0x33,
        shortcut_key(keyval) == Some(KeyCode::Key4) <==> keyval == 0x34,
        shortcut_key(keyval) == Some(KeyCode::Key5) <==> keyval == 0x35,
        shortcut_key(keyval) == Some(KeyCode::Key6) <==> keyval == 0x36,
        shortcut_key(keyval) == Some(KeyCode::Key7) <==> keyval == 0x37,
        shortcut_key(keyval) == Some(KeyCode::Key8) <==> keyval == 0x38,
        shortcut_key(keyval) == Some(KeyCode::Key9) <==> keyval == 0x39,
        shortcut_key(keyval) == Some(KeyCode::F1) <==> keyval == 0xffbe,
        shortcut_key(keyval) == Some(KeyCode::F2) <==> keyval == 0xffbf,
        shortcut_key(keyval) == Some(KeyCode::F3) <==> keyval == 0xffc0,
        shortcut_key(keyval) == Some(KeyCode::F4) <==> keyval == 0xffc1,
        shortcut_key(keyval) == Some(KeyCode::F5) <==> keyval == 0xffc2,
        shortcut_key(keyval) == Some(KeyCode::F6) <==> keyval == 0xffc3,
        shortcut_key(keyval) == Some(KeyCode::F7) <==> keyval == 0xffc4,
        shortcut_key(keyval) == Some(KeyCode::F8) <==> keyval == 0xffc5,
        shortcut_key(keyval) == Some(KeyCode::F9) <==> keyval == 0xffc6,
        shortcut_key(keyval) == Some(KeyCode::F10) <==> keyval == 0xffc7,
        shortcut_key(keyval) == Some(KeyCode::F11) <==> keyval == 0xffc8,
        shortcut_key(keyval) == Some(KeyCode::F12) <==> keyval == 0xffc9,
{
}

/// Shortcuts know the other keys by the characters or functions on them, shifted
/// characters of some keys included.
pub proof fn law_other_shortcuts_are_their_keys(keyval: u32)
    ensures
        shortcut_key(keyval) == Some(KeyCode::Up) <==> keyval == 0xff52,
        shortcut_key(keyval) == Some(KeyCode::Down) <==> keyval == 0xff54,
        shortcut_key(keyval) == Some(KeyCode::Left) <==> keyval == 0xff51,
        shortcut_key(keyval) == Some(KeyCode::Right) <==> keyval == 0xff53,
        shortcut_key(keyval) == Some(KeyCode::Home) <==> keyval == 0xff50,
        shortcut_key(keyval) == Some(KeyCode::End) <==> keyval == 0xff57,
        shortcut_key(keyval) == Some(KeyCode::PageUp) <==> keyval == 0xff55 || keyval == 0xff9a,
        shortcut_key(keyval) == Some(KeyCode::PageDown) <==> keyval == 0xff56 || keyval == 0xff9b,
        shortcut_key(keyval) == Some(KeyCode::Insert) <==> keyval == 0xff63,
        shortcut_key(keyval) == Some(KeyCode::Delete) <==> keyval == 0xffff,
        shortcut_key(keyval) == Some(KeyCode::Backspace) <==> keyval == 0xff08,
        shortcut_key(keyval) == Some(KeyCode::Enter) <==> keyval == 0xff0d || keyval == 0xff8d,
        shortcut_key(keyval) == Some(KeyCode::Tab) <==> keyval == 0xff09 || keyval == 0xfe20,
        shortcut_key(keyval) == Some(KeyCode::Escape) <==> keyval == 0xff1b,
        shortcut_key(keyval) == Some(KeyCode::Space) <==> keyval == 0x20,
        shortcut_key(keyval) == Some(KeyCode::Minus) <==> keyval == 0x2d || keyval == 0x5f,
        shortcut_key(keyval) == Some(KeyCode::Equals) <==> keyval == 0x3d || keyval == 0x2b,
        shortcut_key(keyval) == Some(KeyCode::Comma) <==> keyval == 0x2c,
        shortcut_key(keyval) == Some(KeyCode::Period) <==> keyval == 0x2e,
        shortcut_key(keyval) == Some(KeyCode::Slash) <==> keyval == 0x2f,
        shortcut_key(keyval) == Some(KeyCode::Backslash) <==> keyval == 0x5c || keyval == 0x7c,
        shortcut_key(keyval) == Some(KeyCode::Semicolon) <==> keyval == 0x3b,
        shortcut_key(keyval) == Some(KeyCode::Quote) <==> keyval == 0x27,
        shortcut_key(keyval) == Some(KeyCode::LeftBracket) <==> keyval == 0x5b,
        shortcut_key(keyval) == Some(KeyCode::RightBracket) <==> keyval == 0x5d,
        shortcut_key(keyval) == Some(KeyCode::Backquote) <==> keyval == 0x60,
{
}

} // verus!
