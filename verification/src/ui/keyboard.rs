//! What a key press means: a shortcut, a key of the enhanced protocol, a control
//! character, or text.

use crate::keyed::{
    distinct_keys, has_key, keyed, lemma_keyed_empty, lemma_keyed_entry, lemma_keyed_index,
    lemma_keyed_pushed, lemma_keyed_removed,
};
use crate::text::{ascii_lower, is_control, is_control_char, to_ascii_lower};
use crate::ui::action::Action;
use crate::ui::keys::{
    keyval_to_key, keyval_to_keycode, shortcut_key, terminal_key, Key, KeyCode, NamedKey,
    ALT_MASK, CONTROL_MASK, HYPER_MASK, KEY_ALT_L, KEY_ALT_R, KEY_CONTROL_L, KEY_CONTROL_R,
    KEY_F10, KEY_META_L, KEY_META_R, KEY_SHIFT_L, KEY_SHIFT_R, KEY_SUPER_L, KEY_SUPER_R,
    LOCK_MASK, META_MASK, SHIFT_MASK, SUPER_MASK,
};
use vstd::prelude::*;
use vstd::utf8::*;

verus! {

/// Whether a modifier is held.
pub open spec fn held(state: u32, mask: u32) -> bool {
    state & mask == mask
}

fn is_held(state: u32, mask: u32) -> (is: bool)
    ensures
        is == held(state, mask),
{
    state & mask == mask
}

/// Whether a character is an upper-case letter.
pub uninterp spec fn upper_case(character: char) -> bool;

/// The lower-case form of a character, which may be several characters.
pub uninterp spec fn lower_case(character: char) -> Seq<char>;

/// `char::is_uppercase` of the standard library: it depends on the character
/// alone. Which characters count is Unicode's property `Uppercase`, a table.
#[verifier::external_body]
fn is_upper_case(character: char) -> (upper: bool)
    ensures
        upper == upper_case(character),
{
    character.is_uppercase()
}

/// `char::to_lowercase` of the standard library: the characters of the
/// lower-case form, in order. Which they are is a table of Unicode's.
#[verifier::external_body]
fn lower_case_of(character: char) -> (lower: Vec<char>)
    ensures
        lower@ == lower_case(character),
{
    character.to_lowercase().collect()
}

/// The modifiers that shortcuts know.
#[derive(Clone, Copy, Debug, PartialEq, Eq, Structural)]
pub struct ShortcutModifiers {
    pub ctrl: bool,
    pub shift: bool,
    pub alt: bool,
    pub logo: bool,
}

impl ShortcutModifiers {
    /// No modifier.
    pub fn empty() -> (modifiers: Self)
        ensures
            modifiers == (ShortcutModifiers { ctrl: false, shift: false, alt: false, logo: false }),
    {
        ShortcutModifiers { ctrl: false, shift: false, alt: false, logo: false }
    }
}

/// The modifiers in the bits of an event that shortcuts know.
pub open spec fn shortcut_modifiers(state: u32) -> ShortcutModifiers {
    ShortcutModifiers {
        ctrl: held(state, CONTROL_MASK),
        shift: held(state, SHIFT_MASK),
        alt: held(state, ALT_MASK),
        logo: held(state, SUPER_MASK),
    }
}

/// Convert the modifier bits of an event to those that shortcuts know.
pub fn gtk_modifiers_to_modifiers(state: u32) -> (modifiers: ShortcutModifiers)
    ensures
        modifiers == shortcut_modifiers(state),
{
    ShortcutModifiers {
        ctrl: is_held(state, CONTROL_MASK),
        shift: is_held(state, SHIFT_MASK),
        alt: is_held(state, ALT_MASK),
        logo: is_held(state, SUPER_MASK),
    }
}

/// What a key press names for shortcuts. Some keyboard layouts use up Shift to
/// produce an upper-case letter, so an upper-case letter counts as shifted.
pub open spec fn shortcut_pressed(keyval: u32, state: u32, upper: bool) -> Option<
    (KeyCode, ShortcutModifiers),
> {
    match shortcut_key(keyval) {
        Some(code) => Some(
            (
                code,
                ShortcutModifiers {
                    ctrl: held(state, CONTROL_MASK),
                    shift: held(state, SHIFT_MASK) || upper,
                    alt: held(state, ALT_MASK),
                    logo: held(state, SUPER_MASK),
                },
            ),
        ),
        None => None,
    }
}

/// What a key press names for shortcuts, where it is known whether its character
/// is an upper-case letter.
pub fn shortcut_of(keyval: u32, state: u32, upper: bool) -> (shortcut: Option<
    (KeyCode, ShortcutModifiers),
>)
    ensures
        shortcut == shortcut_pressed(keyval, state, upper),
{
    match keyval_to_keycode(keyval) {
        Some(code) => {
            let modifiers = gtk_modifiers_to_modifiers(state);
            let shift = modifiers.shift || upper;
            Some(
                (
                    code,
                    ShortcutModifiers {
                        ctrl: modifiers.ctrl,
                        shift,
                        alt: modifiers.alt,
                        logo: modifiers.logo,
                    },
                ),
            )
        },
        None => None,
    }
}

/// Whether a key's character is an upper-case letter.
pub open spec fn types_upper_case(character: Option<char>) -> bool {
    match character {
        Some(character) => upper_case(character),
        None => false,
    }
}

fn is_typing_upper_case(character: Option<char>) -> (upper: bool)
    ensures
        upper == types_upper_case(character),
{
    match character {
        Some(character) => is_upper_case(character),
        None => false,
    }
}

/// What a key press with a character names for shortcuts.
pub fn pressed_shortcut(keyval: u32, state: u32, character: Option<char>) -> (shortcut: Option<
    (KeyCode, ShortcutModifiers),
>)
    ensures
        shortcut == shortcut_pressed(keyval, state, types_upper_case(character)),
{
    shortcut_of(keyval, state, is_typing_upper_case(character))
}

/// The action of a key that is bound whatever the configuration says.
pub open spec fn conventional_action(key: KeyCode, modifiers: ShortcutModifiers) -> Option<Action> {
    if key == KeyCode::F11 && modifiers == (ShortcutModifiers {
        ctrl: false,
        shift: false,
        alt: false,
        logo: false,
    }) {
        Some(Action::ToggleFullscreen)
    } else {
        None
    }
}

/// The eleventh function key toggles fullscreen when it is pressed alone, and no other
/// press does so by convention.
pub proof fn law_fullscreen_has_its_key(key: KeyCode, modifiers: ShortcutModifiers, action: Action)
    ensures
        conventional_action(key, modifiers) == Some(action) <==> action == Action::ToggleFullscreen
            && key == KeyCode::F11 && !modifiers.ctrl && !modifiers.shift && !modifiers.alt
            && !modifiers.logo,
{
}

/// The shortcut that is bound whatever the configuration says: fullscreen on its
/// conventional key.
pub fn conventional_shortcut(key: KeyCode, modifiers: ShortcutModifiers) -> (action: Option<Action>)
    ensures
        action == conventional_action(key, modifiers),
{
    if key == KeyCode::F11 && modifiers == ShortcutModifiers::empty() {
        Some(Action::ToggleFullscreen)
    } else {
        None
    }
}

/// The modifiers that a terminal is told of.
#[derive(Clone, Copy, Debug, PartialEq, Eq, Structural)]
pub struct Modifiers {
    pub ctrl: bool,
    pub shift: bool,
    pub alt: bool,
    pub logo: bool,
    pub hyper: bool,
    pub meta: bool,
    pub caps_lock: bool,
}

impl Modifiers {
    /// No modifier.
    pub fn empty() -> (modifiers: Self)
        ensures
            modifiers == (Modifiers {
                ctrl: false,
                shift: false,
                alt: false,
                logo: false,
                hyper: false,
                meta: false,
                caps_lock: false,
            }),
    {
        Modifiers {
            ctrl: false,
            shift: false,
            alt: false,
            logo: false,
            hyper: false,
            meta: false,
            caps_lock: false,
        }
    }
}

/// The modifiers in the bits of an event.
pub open spec fn modifiers_of(state: u32) -> Modifiers {
    Modifiers {
        ctrl: held(state, CONTROL_MASK),
        shift: held(state, SHIFT_MASK),
        alt: held(state, ALT_MASK),
        logo: held(state, SUPER_MASK),
        hyper: held(state, HYPER_MASK),
        meta: held(state, META_MASK),
        caps_lock: held(state, LOCK_MASK),
    }
}

/// Convert the modifier bits of an event to those that a terminal is told of.
pub fn gtk_state_to_modifiers(state: u32) -> (modifiers: Modifiers)
    ensures
        modifiers == modifiers_of(state),
{
    Modifiers {
        ctrl: is_held(state, CONTROL_MASK),
        shift: is_held(state, SHIFT_MASK),
        alt: is_held(state, ALT_MASK),
        logo: is_held(state, SUPER_MASK),
        hyper: is_held(state, HYPER_MASK),
        meta: is_held(state, META_MASK),
        caps_lock: is_held(state, LOCK_MASK),
    }
}

/// Which enhancements of the keyboard protocol an application has switched on.
#[derive(Clone, Copy, Debug, PartialEq, Eq, Structural)]
pub struct KeyboardEnhancementFlags {
    pub disambiguate: bool,
    pub report_events: bool,
    pub report_all_keys: bool,
}

/// Whether the enhanced protocol carries a key. `named_modifier` says whether
/// the terminal counts a named key among the modifiers.
pub open spec fn is_enhanced(
    flags: KeyboardEnhancementFlags,
    key: Key,
    named_modifier: bool,
    modifiers: Modifiers,
) -> bool {
    flags.report_all_keys || match key {
        Key::Char(_) => flags.disambiguate && (modifiers.ctrl || modifiers.alt || modifiers.logo
            || modifiers.hyper || modifiers.meta),
        Key::Escape => flags.disambiguate || flags.report_events,
        Key::Enter | Key::Tab | Key::Backspace => false,
        Key::Named(_) => !named_modifier && flags.report_events,
        _ => flags.report_events,
    }
}

pub fn should_route_enhanced_key(
    flags: KeyboardEnhancementFlags,
    key: Key,
    named_modifier: bool,
    modifiers: Modifiers,
) -> (enhanced: bool)
    ensures
        enhanced == is_enhanced(flags, key, named_modifier, modifiers),
{
    if flags.report_all_keys {
        return true;
    }
    match key {
        Key::Char(_) => flags.disambiguate && (modifiers.ctrl || modifiers.alt || modifiers.logo
            || modifiers.hyper || modifiers.meta),
        Key::Escape => flags.disambiguate || flags.report_events,
        Key::Enter | Key::Tab | Key::Backspace => false,
        Key::Named(_) => !named_modifier && flags.report_events,
        _ => flags.report_events,
    }
}

/// A key with what the enhanced protocol reports beside it.
#[derive(Clone, Copy, Debug, PartialEq, Eq, Structural)]
pub struct ReportedKey {
    pub key: Key,
    /// The character that the key types with Shift.
    pub shifted_key: Option<char>,
    /// The character at the key's place on a PC-101 keyboard.
    pub base_layout_key: Option<char>,
}

/// A lower-case form that is a single character.
pub open spec fn single(characters: Seq<char>) -> Option<char> {
    if characters.len() == 1 {
        Some(characters[0])
    } else {
        None
    }
}

/// The only character of a row.
pub fn only_character(characters: &Vec<char>) -> (only: Option<char>)
    ensures
        only == single(characters@),
{
    if characters.len() == 1 {
        Some(characters[0])
    } else {
        None
    }
}

/// The lower-case form of a character, where it is a single character.
pub fn single_lowercase(character: char) -> (lower: Option<char>)
    ensures
        lower == single(lower_case(character)),
{
    let characters = lower_case_of(character);
    only_character(&characters)
}

/// The keys of a row of a PC-101 keyboard, from left to right.
pub open spec fn pc101_row(row: int) -> Seq<char> {
    if row == 0 {
        "1234567890-="@
    } else if row == 1 {
        "qwertyuiop[]"@
    } else if row == 2 {
        "asdfghjkl;'`"@
    } else {
        "zxcvbnm,./"@
    }
}

/// The character at a place on a PC-101 keyboard, by the key codes that Wayland
/// delivers: four rows, the backslash, and the space bar.
pub open spec fn pc101_key(keycode: u32) -> Option<char> {
    if 10 <= keycode <= 21 {
        Some(pc101_row(0)[keycode - 10])
    } else if 24 <= keycode <= 35 {
        Some(pc101_row(1)[keycode - 24])
    } else if 38 <= keycode <= 49 {
        Some(pc101_row(2)[keycode - 38])
    } else if keycode == 51 {
        Some('\\')
    } else if 52 <= keycode <= 61 {
        Some(pc101_row(3)[keycode - 52])
    } else if keycode == 65 {
        Some(' ')
    } else {
        None
    }
}

/// The character at a place on a PC-101 keyboard.
pub fn pc101_key_for_gdk_keycode(keycode: u32) -> (character: Option<char>)
    ensures
        character == pc101_key(keycode),
{
    proof {
        reveal_strlit("1234567890-=");
        reveal_strlit("qwertyuiop[]");
        reveal_strlit("asdfghjkl;'`");
        reveal_strlit("zxcvbnm,./");
    }
    if 10 <= keycode && keycode <= 21 {
        Some("1234567890-=".get_char((keycode - 10) as usize))
    } else if 24 <= keycode && keycode <= 35 {
        Some("qwertyuiop[]".get_char((keycode - 24) as usize))
    } else if 38 <= keycode && keycode <= 49 {
        Some("asdfghjkl;'`".get_char((keycode - 38) as usize))
    } else if keycode == 51 {
        Some('\\')
    } else if 52 <= keycode && keycode <= 61 {
        Some("zxcvbnm,./".get_char((keycode - 52) as usize))
    } else if keycode == 65 {
        Some(' ')
    } else {
        None
    }
}

/// What the display says that a key types: without modifiers, with Shift, and
/// the lower-case form of its key value.
#[derive(Clone, Copy, Debug, PartialEq, Eq, Structural)]
pub struct Translations {
    pub plain: Option<char>,
    pub shifted: Option<char>,
    pub lower: Option<char>,
}

/// The key that the enhanced protocol reports. `lowered` is the single
/// lower-case form of what the key types without modifiers.
pub open spec fn reported(
    keyval: u32,
    keycode: u32,
    translations: Translations,
    lowered: Option<char>,
) -> Option<ReportedKey> {
    match terminal_key(keyval) {
        Some(key) => Some(ReportedKey { key, shifted_key: None, base_layout_key: None }),
        None => {
            let unshifted = if lowered is Some {
                lowered
            } else {
                translations.lower
            };
            match unshifted {
                Some(character) => Some(
                    ReportedKey {
                        key: Key::Char(character),
                        shifted_key: translations.shifted,
                        base_layout_key: pc101_key(keycode),
                    },
                ),
                None => None,
            }
        },
    }
}

/// The key that the enhanced protocol reports, where the lower-case form of its
/// character is known.
pub fn reported_key(
    keyval: u32,
    keycode: u32,
    translations: &Translations,
    lowered: Option<char>,
) -> (key: Option<ReportedKey>)
    ensures
        key == reported(keyval, keycode, *translations, lowered),
{
    if let Some(key) = keyval_to_key(keyval) {
        return Some(ReportedKey { key, shifted_key: None, base_layout_key: None });
    }
    let unshifted = match lowered {
        Some(character) => Some(character),
        None => translations.lower,
    };
    match unshifted {
        Some(character) => Some(
            ReportedKey {
                key: Key::Char(character),
                shifted_key: translations.shifted,
                base_layout_key: pc101_key_for_gdk_keycode(keycode),
            },
        ),
        None => None,
    }
}

/// The key that the enhanced protocol reports for a key press.
pub fn reported_key_from_gdk(keyval: u32, keycode: u32, translations: &Translations) -> (key:
    Option<ReportedKey>)
    ensures
        key == reported(
            keyval,
            keycode,
            *translations,
            match translations.plain {
                Some(character) => single(lower_case(character)),
                None => None,
            },
        ),
{
    let lowered = match translations.plain {
        Some(character) => single_lowercase(character),
        None => None,
    };
    reported_key(keyval, keycode, translations, lowered)
}

/// The text that the enhanced protocol reports with a key: its character, unless
/// a modifier other than Shift and Alt is held or it is a control character.
pub open spec fn associated_text(
    key: Key,
    character: Option<char>,
    modifiers: Modifiers,
) -> Option<char> {
    if key !is Char || modifiers.ctrl || modifiers.logo || modifiers.hyper || modifiers.meta {
        None
    } else {
        match character {
            Some(character) => if is_control(character) {
                None
            } else {
                Some(character)
            },
            None => None,
        }
    }
}

pub fn associated_text_for_gdk_key(
    key: Key,
    character: Option<char>,
    modifiers: Modifiers,
) -> (text: Option<char>)
    ensures
        text == associated_text(key, character, modifiers),
{
    match key {
        Key::Char(_) => {},
        _ => {
            return None;
        },
    }
    if modifiers.ctrl || modifiers.logo || modifiers.hyper || modifiers.meta {
        return None;
    }
    match character {
        Some(character) => if is_control_char(character) {
            None
        } else {
            Some(character)
        },
        None => None,
    }
}

/// The control character that a letter or one of `[ \ ] ^ _ @` makes with Ctrl,
/// or one of the digits that stand for them.
pub open spec fn common_control(lower: char) -> Option<u8> {
    if 'a' <= lower <= 'z' {
        Some((lower as u32 - 'a' as u32 + 1) as u8)
    } else if lower == '[' || lower == '3' {
        Some(0x1b)
    } else if lower == '\\' || lower == '4' {
        Some(0x1c)
    } else if lower == ']' || lower == '5' {
        Some(0x1d)
    } else if lower == '^' || lower == '6' {
        Some(0x1e)
    } else if lower == '_' || lower == '7' {
        Some(0x1f)
    } else if lower == '@' || lower == '2' {
        Some(0)
    } else {
        None
    }
}

/// The control character that a key makes with Ctrl in a terminal that has the
/// input: the common ones, and those of the slash, the space bar and the
/// question mark.
pub open spec fn terminal_control(character: char) -> Option<u8> {
    let lower = ascii_lower(character);
    if lower == '/' {
        Some(0x1f)
    } else if lower == ' ' {
        Some(0)
    } else if lower == '?' || lower == '8' {
        Some(0x7f)
    } else {
        common_control(lower)
    }
}

fn common_control_byte(lower: char) -> (byte: Option<u8>)
    ensures
        byte == common_control(lower),
{
    if 'a' <= lower && lower <= 'z' {
        Some(((lower as u32) - 96) as u8)
    } else if lower == '[' || lower == '3' {
        Some(0x1b)
    } else if lower == '\\' || lower == '4' {
        Some(0x1c)
    } else if lower == ']' || lower == '5' {
        Some(0x1d)
    } else if lower == '^' || lower == '6' {
        Some(0x1e)
    } else if lower == '_' || lower == '7' {
        Some(0x1f)
    } else if lower == '@' || lower == '2' {
        Some(0)
    } else {
        None
    }
}

/// The control character that a key makes with Ctrl.
pub fn control_byte(character: char) -> (byte: Option<u8>)
    ensures
        byte == terminal_control(character),
{
    let lower = to_ascii_lower(character);
    if lower == '/' {
        Some(0x1f)
    } else if lower == ' ' {
        Some(0)
    } else if lower == '?' || lower == '8' {
        Some(0x7f)
    } else {
        common_control_byte(lower)
    }
}

/// A control character made with Ctrl is a control character.
pub proof fn law_ctrl_makes_control_characters(character: char)
    ensures
        match terminal_control(character) {
            Some(byte) => byte <= 0x1f || byte == 0x7f,
            None => true,
        },
{
}

/// How often a key has been reported since it went down.
#[derive(Clone, Copy, Debug, PartialEq, Eq, Structural)]
pub enum KeyEventKind {
    Press,
    Repeat,
}

/// A key press that the input method left alone.
#[derive(Clone, Copy, Debug, PartialEq, Eq, Structural)]
pub struct KeyPress {
    pub keyval: u32,
    pub keycode: u32,
    pub state: u32,
    /// The character that the key value stands for.
    pub character: Option<char>,
    /// The key as the enhanced protocol would report it.
    pub reported: Option<ReportedKey>,
    /// Whether the terminal counts that key among the modifiers.
    pub named_modifier: bool,
}

/// What a key press leads to.
#[derive(Clone, Copy, Debug, PartialEq, Eq, Structural)]
pub enum KeyStep {
    /// Report a key of the enhanced protocol.
    Enhanced { reported: ReportedKey, modifiers: Modifiers, kind: KeyEventKind, text: Option<char> },
    /// Let the terminal encode a key. Where it has no encoding for it, the press
    /// goes on as one of a plain key.
    Special { key: Key, modifiers: Modifiers },
    /// Write one byte.
    Control(u8),
    /// Write an escape and the character.
    Escaped(char),
    /// Enter the character as text.
    Text(char),
    /// Leave the press to others.
    Proceed,
}

/// What the press of a plain key leads to.
pub open spec fn plain_step(character: Option<char>, state: u32) -> KeyStep {
    let ctrl = held(state, CONTROL_MASK);
    let alt = held(state, ALT_MASK);
    match character {
        None => KeyStep::Proceed,
        Some(character) => if ctrl && !alt {
            match terminal_control(character) {
                Some(byte) => KeyStep::Control(byte),
                None => KeyStep::Proceed,
            }
        } else if alt && !ctrl {
            KeyStep::Escaped(character)
        } else if !ctrl && !alt {
            KeyStep::Text(character)
        } else {
            KeyStep::Proceed
        },
    }
}

/// What the press of a plain key leads to.
pub fn plain_key(character: Option<char>, state: u32) -> (step: KeyStep)
    ensures
        step == plain_step(character, state),
{
    let ctrl = is_held(state, CONTROL_MASK);
    let alt = is_held(state, ALT_MASK);
    match character {
        None => KeyStep::Proceed,
        Some(character) => if ctrl && !alt {
            match control_byte(character) {
                Some(byte) => KeyStep::Control(byte),
                None => KeyStep::Proceed,
            }
        } else if alt && !ctrl {
            KeyStep::Escaped(character)
        } else if !ctrl && !alt {
            KeyStep::Text(character)
        } else {
            KeyStep::Proceed
        },
    }
}

/// The bytes of an escape and a character.
pub fn escaped_bytes(character: char) -> (bytes: Vec<u8>)
    ensures
        bytes@ == seq![0x1bu8] + encode_utf8(seq![character]),
{
    let mut text = String::new();
    text.push('\u{1b}');
    text.push(character);
    proof {
        let chars = seq!['\u{1b}', character];
        assert(text@ =~= chars);
        assert(chars.drop_first() =~= seq![character]);
        assert(encode_scalar('\u{1b}' as u32) =~= seq![0x1bu8]) by {
            assert(0x1bu32 & 0x7F == 0x1bu32) by (bit_vector);
        }
    }
    vstd::slice::slice_to_vec(text.as_str().as_bytes())
}

/// How the press of a key counts while some keys are down: as a repeat of a key
/// that is down already.
pub open spec fn press_kind(down: Map<u32, ReportedKey>, keycode: u32) -> KeyEventKind {
    if down.dom().contains(keycode) {
        KeyEventKind::Repeat
    } else {
        KeyEventKind::Press
    }
}

/// A key repeats from its press to its release, or until the terminal loses the
/// input; other keys do not change that.
pub proof fn law_only_held_keys_repeat(
    down: Map<u32, ReportedKey>,
    keycode: u32,
    reported: ReportedKey,
    other: u32,
)
    ensures
        press_kind(Map::empty(), keycode) == KeyEventKind::Press,
        press_kind(down.insert(keycode, reported), keycode) == KeyEventKind::Repeat,
        press_kind(down.insert(keycode, reported).remove(keycode), keycode) == KeyEventKind::Press,
        other != keycode ==> press_kind(down.insert(other, reported), keycode) == press_kind(
            down,
            keycode,
        ),
        other != keycode ==> press_kind(down.remove(other), keycode) == press_kind(down, keycode),
{
}

/// The enhanced protocol carries a key press.
pub open spec fn carries(press: KeyPress, flags: KeyboardEnhancementFlags) -> bool {
    press.reported is Some && is_enhanced(
        flags,
        press.reported->0.key,
        press.named_modifier,
        modifiers_of(press.state),
    )
}

/// What was reported when a key went down, where it is down.
pub open spec fn noted_key(down: Map<u32, ReportedKey>, keycode: u32) -> Option<ReportedKey> {
    if down.dom().contains(keycode) {
        Some(down[keycode])
    } else {
        None
    }
}

/// The key that a press of the enhanced protocol is one of: what was noted when it went
/// down.
pub open spec fn pressed_key(down: Map<u32, ReportedKey>, press: KeyPress) -> ReportedKey {
    match noted_key(down, press.keycode) {
        Some(reported) => reported,
        None => press.reported->0,
    }
}

/// What a key press leads to while some keys are down.
pub open spec fn press_step(
    down: Map<u32, ReportedKey>,
    press: KeyPress,
    flags: KeyboardEnhancementFlags,
) -> KeyStep {
    let modifiers = modifiers_of(press.state);
    if carries(press, flags) {
        let reported = pressed_key(down, press);
        KeyStep::Enhanced {
            reported,
            modifiers,
            kind: press_kind(down, press.keycode),
            text: associated_text(reported.key, press.character, modifiers),
        }
    } else {
        match terminal_key(press.keyval) {
            Some(key) => KeyStep::Special { key, modifiers },
            None => plain_step(press.character, press.state),
        }
    }
}

/// The keys that are down after a key press.
pub open spec fn down_after_press(
    down: Map<u32, ReportedKey>,
    press: KeyPress,
    flags: KeyboardEnhancementFlags,
) -> Map<u32, ReportedKey> {
    if carries(press, flags) {
        down.insert(press.keycode, pressed_key(down, press))
    } else {
        down
    }
}

/// A key that is held is reported as pressed once and then as repeated, always as the
/// key that went down, and its release is that of the same key; then it is up again.
pub proof fn law_held_key_repeats_and_is_released(
    down: Map<u32, ReportedKey>,
    press: KeyPress,
    again: KeyPress,
    flags: KeyboardEnhancementFlags,
    reported: ReportedKey,
)
    requires
        press.reported == Some(reported),
        again.keycode == press.keycode,
        !down.dom().contains(press.keycode),
        carries(press, flags),
        carries(again, flags),
    ensures
        ({
            let first = press_step(down, press, flags);
            let held = down_after_press(down, press, flags);
            let second = press_step(held, again, flags);
            let after = down_after_press(held, again, flags);
            &&& first matches KeyStep::Enhanced { reported: told, kind, modifiers, .. } && told
                == reported && kind == KeyEventKind::Press && modifiers == modifiers_of(press.state)
            &&& second matches KeyStep::Enhanced { reported: told, kind, modifiers, .. } && told
                == reported && kind == KeyEventKind::Repeat && modifiers == modifiers_of(
                again.state,
            )
            &&& noted_key(held, press.keycode) == Some(reported)
            &&& noted_key(after, press.keycode) == Some(reported)
            &&& noted_key(after.remove(press.keycode), press.keycode) is None
            &&& noted_key(down, press.keycode) is None
            &&& after.remove(press.keycode) == down
        }),
{
    let held = down_after_press(down, press, flags);
    let after = down_after_press(held, again, flags);
    assert(after.remove(press.keycode) =~= down);
}

/// A press that the enhanced protocol does not carry is that of a special key where it
/// has a name, and that of a plain one otherwise; no key is noted for it.
pub proof fn law_other_presses_are_plain(
    down: Map<u32, ReportedKey>,
    press: KeyPress,
    flags: KeyboardEnhancementFlags,
)
    requires
        !carries(press, flags),
    ensures
        down_after_press(down, press, flags) == down,
        terminal_key(press.keyval) matches Some(key) ==> press_step(down, press, flags)
            == (KeyStep::Special { key, modifiers: modifiers_of(press.state) }),
        terminal_key(press.keyval) is None ==> press_step(down, press, flags) == plain_step(
            press.character,
            press.state,
        ),
        press.reported is None ==> !carries(press, flags),
{
}

/// The keys of the enhanced protocol that are down.
#[derive(Debug)]
pub struct PressedKeys {
    keys: Vec<(u32, ReportedKey)>,
}

impl View for PressedKeys {
    type V = Map<u32, ReportedKey>;

    /// What was reported when each key went down, by its key code.
    closed spec fn view(&self) -> Map<u32, ReportedKey> {
        keyed(self.keys@)
    }
}

impl PressedKeys {
    pub closed spec fn valid(&self) -> bool {
        distinct_keys(self.keys@)
    }

    /// No key is down.
    pub fn new() -> (keys: Self)
        ensures
            keys.valid(),
            keys@ == Map::<u32, ReportedKey>::empty(),
    {
        proof {
            lemma_keyed_empty::<u32, ReportedKey>();
        }
        PressedKeys { keys: Vec::new() }
    }

    fn place(&self, keycode: u32) -> (place: Option<usize>)
        requires
            self.valid(),
        ensures
            match place {
                Some(place) => place < self.keys@.len() && self.keys@[place as int].0 == keycode
                    && self@.dom().contains(keycode) && self@[keycode]
                    == self.keys@[place as int].1,
                None => !self@.dom().contains(keycode) && !has_key(self.keys@, keycode),
            },
    {
        let mut place: usize = 0;
        while place < self.keys.len()
            invariant
                place <= self.keys@.len(),
                self.valid(),
                forall|i: int| 0 <= i < place ==> (#[trigger] self.keys@[i]).0 != keycode,
            decreases self.keys@.len() - place,
        {
            if self.keys[place].0 == keycode {
                proof {
                    lemma_keyed_entry(self.keys@, place as int);
                }
                return Some(place);
            }
            place += 1;
        }
        None
    }

    /// A key was pressed: where the enhanced protocol carries it, the first
    /// press is reported as such and noted, and every later one as a repeat of
    /// the key that was noted.
    pub fn pressed(&mut self, press: &KeyPress, flags: KeyboardEnhancementFlags) -> (step: KeyStep)
        requires
            old(self).valid(),
        ensures
            final(self).valid(),
            step == press_step(old(self)@, *press, flags),
            final(self)@ == down_after_press(old(self)@, *press, flags),
    {
        let modifiers = gtk_state_to_modifiers(press.state);
        if let Some(reported) = press.reported {
            if should_route_enhanced_key(flags, reported.key, press.named_modifier, modifiers) {
                match self.place(press.keycode) {
                    Some(place) => {
                        let down = self.keys[place].1;
                        proof {
                            assert(self@.insert(press.keycode, down) =~= self@);
                        }
                        return KeyStep::Enhanced {
                            reported: down,
                            modifiers,
                            kind: KeyEventKind::Repeat,
                            text: associated_text_for_gdk_key(
                                down.key,
                                press.character,
                                modifiers,
                            ),
                        };
                    },
                    None => {
                        proof {
                            lemma_keyed_pushed(self.keys@, (press.keycode, reported));
                        }
                        self.keys.push((press.keycode, reported));
                        return KeyStep::Enhanced {
                            reported,
                            modifiers,
                            kind: KeyEventKind::Press,
                            text: associated_text_for_gdk_key(
                                reported.key,
                                press.character,
                                modifiers,
                            ),
                        };
                    },
                }
            }
        }
        match keyval_to_key(press.keyval) {
            Some(key) => KeyStep::Special { key, modifiers },
            None => plain_key(press.character, press.state),
        }
    }

    /// A key was released: what was reported when it went down, where it was
    /// reported at all. It is then up.
    pub fn released(&mut self, keycode: u32) -> (reported: Option<ReportedKey>)
        requires
            old(self).valid(),
        ensures
            final(self).valid(),
            final(self)@ == old(self)@.remove(keycode),
            reported == noted_key(old(self)@, keycode),
    {
        match self.place(keycode) {
            Some(place) => {
                proof {
                    lemma_keyed_removed(self.keys@, place as int);
                }
                let (_, reported) = self.keys.remove(place);
                Some(reported)
            },
            None => {
                proof {
                    assert(self@.remove(keycode) =~= self@);
                }
                None
            },
        }
    }

    /// The terminal lost the input. Releases may not arrive any more, so no key
    /// counts as down.
    pub fn focus_lost(&mut self)
        ensures
            final(self).valid(),
            final(self)@ == Map::<u32, ReportedKey>::empty(),
    {
        proof {
            lemma_keyed_empty::<u32, ReportedKey>();
        }
        self.keys = Vec::new();
    }
}

/// What a key press leads to while no terminal has the input.
#[derive(Clone, Copy, Debug, PartialEq, Eq, Structural)]
pub enum RestoreStep {
    /// Leave the press alone.
    Proceed,
    /// Give the terminal the input, and let it handle the press.
    Focus,
    /// Give the terminal the input, and write a character to it.
    FocusAndWrite(char),
}

/// The keys that never bring the input back: modifiers, and the menu key.
pub open spec fn keeps_focus(keyval: u32) -> bool {
    ||| keyval == KEY_SHIFT_L
    ||| keyval == KEY_SHIFT_R
    ||| keyval == KEY_CONTROL_L
    ||| keyval == KEY_CONTROL_R
    ||| keyval == KEY_ALT_L
    ||| keyval == KEY_ALT_R
    ||| keyval == KEY_SUPER_L
    ||| keyval == KEY_SUPER_R
    ||| keyval == KEY_META_L
    ||| keyval == KEY_META_R
    ||| keyval == KEY_F10
}

/// What a key press leads to. `shown` says whether a tab is shown, `focused`
/// whether its terminal has the input, `upper` whether the key's character is an
/// upper-case letter.
pub open spec fn restore_step(
    keyval: u32,
    state: u32,
    character: Option<char>,
    upper: bool,
    shown: bool,
    focused: bool,
) -> RestoreStep {
    let ctrl = held(state, CONTROL_MASK);
    let alt = held(state, ALT_MASK);
    let shift = held(state, SHIFT_MASK) || upper;
    if keeps_focus(keyval) || focused || !shown {
        RestoreStep::Proceed
    } else if ctrl && shift {
        RestoreStep::Focus
    } else {
        match character {
            None => RestoreStep::Focus,
            Some(character) => if ctrl && !alt {
                match common_control(ascii_lower(character)) {
                    Some(byte) => RestoreStep::FocusAndWrite(byte as char),
                    None => RestoreStep::Focus,
                }
            } else if !ctrl && !alt {
                RestoreStep::FocusAndWrite(character)
            } else {
                RestoreStep::Focus
            },
        }
    }
}

/// What a key press leads to where it is known whether its character is an
/// upper-case letter.
pub fn restored_focus(
    keyval: u32,
    state: u32,
    character: Option<char>,
    upper: bool,
    shown: bool,
    focused: bool,
) -> (step: RestoreStep)
    ensures
        step == restore_step(keyval, state, character, upper, shown, focused),
{
    if keyval == KEY_SHIFT_L || keyval == KEY_SHIFT_R || keyval == KEY_CONTROL_L || keyval
        == KEY_CONTROL_R || keyval == KEY_ALT_L || keyval == KEY_ALT_R || keyval == KEY_SUPER_L
        || keyval == KEY_SUPER_R || keyval == KEY_META_L || keyval == KEY_META_R || keyval
        == KEY_F10 {
        return RestoreStep::Proceed;
    }
    if focused || !shown {
        return RestoreStep::Proceed;
    }
    let ctrl = is_held(state, CONTROL_MASK);
    let alt = is_held(state, ALT_MASK);
    let shift = is_held(state, SHIFT_MASK) || upper;
    if ctrl && shift {
        return RestoreStep::Focus;
    }
    match character {
        None => RestoreStep::Focus,
        Some(character) => if ctrl && !alt {
            match common_control_byte(to_ascii_lower(character)) {
                Some(byte) => RestoreStep::FocusAndWrite(byte as char),
                None => RestoreStep::Focus,
            }
        } else if !ctrl && !alt {
            RestoreStep::FocusAndWrite(character)
        } else {
            RestoreStep::Focus
        },
    }
}

/// What a key press with a character leads to while no terminal may have the
/// input.
pub fn key_without_focus(
    keyval: u32,
    state: u32,
    character: Option<char>,
    shown: bool,
    focused: bool,
) -> (step: RestoreStep)
    ensures
        step == restore_step(
            keyval,
            state,
            character,
            types_upper_case(character),
            shown,
            focused,
        ),
{
    restored_focus(keyval, state, character, is_typing_upper_case(character), shown, focused)
}

/// A modifier is held by its own bit of an event, whatever the other bits are: Shift by
/// the first, Caps Lock by the second, Ctrl by the third, Alt by the fourth, and Super,
/// Hyper and Meta by the twenty-seventh to the twenty-ninth.
pub proof fn law_modifiers_are_their_bits(state: u32)
    ensures
        modifiers_of(state).shift == (state & 0x1 == 0x1),
        modifiers_of(state).caps_lock == (state & 0x2 == 0x2),
        modifiers_of(state).ctrl == (state & 0x4 == 0x4),
        modifiers_of(state).alt == (state & 0x8 == 0x8),
        modifiers_of(state).logo == (state & 0x0400_0000 == 0x0400_0000),
        modifiers_of(state).hyper == (state & 0x0800_0000 == 0x0800_0000),
        modifiers_of(state).meta == (state & 0x1000_0000 == 0x1000_0000),
        shortcut_modifiers(state).shift == modifiers_of(state).shift,
        shortcut_modifiers(state).ctrl == modifiers_of(state).ctrl,
        shortcut_modifiers(state).alt == modifiers_of(state).alt,
        shortcut_modifiers(state).logo == modifiers_of(state).logo,
{
}

/// A press names the shortcut of its key with the modifiers that are held; an
/// upper-case letter counts as shifted, and changes no other modifier.
pub proof fn law_upper_case_counts_as_shifted(keyval: u32, state: u32, code: KeyCode)
    requires
        shortcut_key(keyval) == Some(code),
    ensures
        shortcut_pressed(keyval, state, false) == Some((code, shortcut_modifiers(state))),
        shortcut_pressed(keyval, state, true) == Some(
            (code, (ShortcutModifiers { shift: true, ..shortcut_modifiers(state) })),
        ),
        held(state, 0x1) ==> shortcut_pressed(keyval, state, true) == shortcut_pressed(
            keyval,
            state,
            false,
        ),
{
}

/// A key that names no shortcut is none with any modifier.
pub proof fn law_other_keys_are_no_shortcuts(keyval: u32, state: u32, upper: bool)
    ensures
        shortcut_pressed(keyval, state, upper) is None <==> shortcut_key(keyval) is None,
{
}

/// With no enhancement switched on the protocol carries no key, and with all keys
/// reported it carries every key. Otherwise a character is carried only with a modifier
/// beside Shift where keys are told apart; Escape with either enhancement; Enter, Tab
/// and Backspace never; and the other keys where their events are reported, unless the
/// terminal counts them among the modifiers.
pub proof fn law_enhancements_carry_their_keys(
    flags: KeyboardEnhancementFlags,
    key: Key,
    named_modifier: bool,
    modifiers: Modifiers,
)
    ensures
        !flags.disambiguate && !flags.report_events && !flags.report_all_keys ==> !is_enhanced(
            flags,
            key,
            named_modifier,
            modifiers,
        ),
        flags.report_all_keys ==> is_enhanced(flags, key, named_modifier, modifiers),
        !flags.report_all_keys ==> {
            let carried = is_enhanced(flags, key, named_modifier, modifiers);
            &&& key == Key::Enter || key == Key::Tab || key == Key::Backspace ==> !carried
            &&& key == Key::Escape ==> (carried <==> flags.disambiguate || flags.report_events)
            &&& key is Char && !modifiers.ctrl && !modifiers.alt && !modifiers.logo
                && !modifiers.hyper && !modifiers.meta ==> !carried
            &&& key is Char && (modifiers.ctrl || modifiers.alt || modifiers.logo || modifiers.hyper
                || modifiers.meta) ==> (carried <==> flags.disambiguate)
            &&& key is Named && named_modifier ==> !carried
            &&& key is Named && !named_modifier ==> (carried <==> flags.report_events)
            &&& key == Key::Up || key == Key::Down || key == Key::Left || key == Key::Right || key
                == Key::Home || key == Key::End || key == Key::PageUp || key == Key::PageDown || key
                == Key::Insert || key == Key::Delete || key is F ==> (carried
                <==> flags.report_events)
        },
{
}

/// Each key of a PC-101 keyboard has its place: the code of a key tells its character,
/// and no other key types that character.
#[verifier::rlimit(60)]
pub proof fn law_keys_have_their_places(keycode: u32)
    ensures
        pc101_key(keycode) == Some('1') <==> keycode == 10,
        pc101_key(keycode) == Some('2') <==> keycode == 11,
        pc101_key(keycode) == Some('3') <==> keycode == 12,
        pc101_key(keycode) == Some('4') <==> keycode == 13,
        pc101_key(keycode) == Some('5') <==> keycode == 14,
        pc101_key(keycode) == Some('6') <==> keycode == 15,
        pc101_key(keycode) == Some('7') <==> keycode == 16,
        pc101_key(keycode) == Some('8') <==> keycode == 17,
        pc101_key(keycode) == Some('9') <==> keycode == 18,
        pc101_key(keycode) == Some('0') <==> keycode == 19,
        pc101_key(keycode) == Some('-') <==> keycode == 20,
        pc101_key(keycode) == Some('=') <==> keycode == 21,
        pc101_key(keycode) == Some('q') <==> keycode == 24,
        pc101_key(keycode) == Some('w') <==> keycode == 25,
        pc101_key(keycode) == Some('e') <==> keycode == 26,
        pc101_key(keycode) == Some('r') <==> keycode == 27,
        pc101_key(keycode) == Some('t') <==> keycode == 28,
        pc101_key(keycode) == Some('y') <==> keycode == 29,
        pc101_key(keycode) == Some('u') <==> keycode == 30,
        pc101_key(keycode) == Some('i') <==> keycode == 31,
        pc101_key(keycode) == Some('o') <==> keycode == 32,
        pc101_key(keycode) == Some('p') <==> keycode == 33,
        pc101_key(keycode) == Some('[') <==> keycode == 34,
        pc101_key(keycode) == Some(']') <==> keycode == 35,
        pc101_key(keycode) == Some('a') <==> keycode == 38,
        pc101_key(keycode) == Some('s') <==> keycode == 39,
        pc101_key(keycode) == Some('d') <==> keycode == 40,
        pc101_key(keycode) == Some('f') <==> keycode == 41,
        pc101_key(keycode) == Some('g') <==> keycode == 42,
        pc101_key(keycode) == Some('h') <==> keycode == 43,
        pc101_key(keycode) == Some('j') <==> keycode == 44,
        pc101_key(keycode) == Some('k') <==> keycode == 45,
        pc101_key(keycode) == Some('l') <==> keycode == 46,
        pc101_key(keycode) == Some(';') <==> keycode == 47,
        pc101_key(keycode) == Some('\'') <==> keycode == 48,
        pc101_key(keycode) == Some('`') <==> keycode == 49,
        pc101_key(keycode) == Some('\\') <==> keycode == 51,
        pc101_key(keycode) == Some('z') <==> keycode == 52,
        pc101_key(keycode) == Some('x') <==> keycode == 53,
        pc101_key(keycode) == Some('c') <==> keycode == 54,
        pc101_key(keycode) == Some('v') <==> keycode == 55,
        pc101_key(keycode) == Some('b') <==> keycode == 56,
        pc101_key(keycode) == Some('n') <==> keycode == 57,
        pc101_key(keycode) == Some('m') <==> keycode == 58,
        pc101_key(keycode) == Some(',') <==> keycode == 59,
        pc101_key(keycode) == Some('.') <==> keycode == 60,
        pc101_key(keycode) == Some('/') <==> keycode == 61,
        pc101_key(keycode) == Some(' ') <==> keycode == 65,
{
    reveal_strlit("1234567890-=");
    reveal_strlit("qwertyuiop[]");
    reveal_strlit("asdfghjkl;'`");
    reveal_strlit("zxcvbnm,./");
}

/// A key with a name is reported by its name alone. Any other is reported by the
/// character that it types without Shift, with the one that it types with Shift beside
/// it and the one at its place; where its own lower-case form is not a single character
/// that of its value counts, and a key without either is not reported.
pub proof fn law_keys_are_reported_unshifted(
    keyval: u32,
    keycode: u32,
    translations: Translations,
    character: char,
    key: Key,
)
    ensures
        terminal_key(keyval) == Some(key) ==> reported(keyval, keycode, translations, None) == Some(
            ReportedKey { key, shifted_key: None, base_layout_key: None },
        ) && reported(keyval, keycode, translations, Some(character)) == reported(
            keyval,
            keycode,
            translations,
            None,
        ),
        terminal_key(keyval) is None ==> {
            let told = reported(keyval, keycode, translations, Some(character));
            &&& told is Some
            &&& told->0.key == Key::Char(character)
            &&& told->0.shifted_key == translations.shifted
            &&& told->0.base_layout_key == pc101_key(keycode)
            &&& translations.lower is None ==> reported(keyval, keycode, translations, None) is None
            &&& translations.lower == Some(character) ==> reported(
                keyval,
                keycode,
                translations,
                None,
            ) == told
        },
        single(seq![character]) == Some(character),
        single(Seq::empty()) is None,
        single(seq![character, character]) is None,
{
}

/// The text that goes with a key is its own character; Ctrl, Super, Hyper and Meta keep
/// it back, Shift and Alt do not, and a key that types no character or a control
/// character has none.
pub proof fn law_text_is_the_typed_character(
    key: Key,
    character: char,
    typed: Option<char>,
    modifiers: Modifiers,
)
    ensures
        associated_text(key, typed, modifiers) == Some(character) <==> key is Char && typed == Some(
            character,
        ) && !is_control(character) && !modifiers.ctrl && !modifiers.logo && !modifiers.hyper
            && !modifiers.meta,
{
}

/// Ctrl takes a letter, in either case, or one of the characters from the at sign to the
/// underscore to the control character thirty-two places below its row: their codes
/// agree in the last five bits. The digits from three to seven stand for those from
/// Escape on, two for the first, and eight for the last of all.
pub proof fn law_ctrl_drops_the_upper_bits(character: char)
    ensures
        '@' <= character <= '_' ==> terminal_control(character) == Some(
            (character as u32 % 32) as u8,
        ),
        'a' <= character <= 'z' ==> terminal_control(character) == Some(
            (character as u32 % 32) as u8,
        ),
        '3' <= character <= '7' ==> terminal_control(character) == Some(
            (0x18 + (character as u32 - '0' as u32)) as u8,
        ),
        character == '2' || character == ' ' ==> terminal_control(character) == Some(0u8),
        character == '8' || character == '?' ==> terminal_control(character) == Some(0x7fu8),
        character == '/' ==> terminal_control(character) == Some(0x1fu8),
        terminal_control(character) is Some <==> '@' <= character <= '_' || 'a' <= character <= 'z'
            || '2' <= character <= '8' || character == ' ' || character == '?' || character == '/',
{
}

/// A plain key types its character, with Alt an escape before it, and with Ctrl the
/// control character that it makes; with both, or without a character, it is left to
/// others.
pub proof fn law_plain_keys_type_their_character(character: char, state: u32)
    ensures
        !held(state, 0x4) && !held(state, 0x8) ==> plain_step(Some(character), state)
            == KeyStep::Text(character),
        !held(state, 0x4) && held(state, 0x8) ==> plain_step(Some(character), state)
            == KeyStep::Escaped(character),
        held(state, 0x4) && !held(state, 0x8) ==> plain_step(Some(character), state) == (
        match terminal_control(character) {
            Some(byte) => KeyStep::Control(byte),
            None => KeyStep::Proceed,
        }),
        held(state, 0x4) && held(state, 0x8) ==> plain_step(Some(character), state)
            == KeyStep::Proceed,
        plain_step(None, state) == KeyStep::Proceed,
{
}

/// Modifiers on their own and the menu key leave the input where it is, and no other key
/// does so by itself.
pub proof fn law_modifiers_leave_the_input(keyval: u32)
    ensures
        keeps_focus(keyval) <==> 0xffe1 <= keyval <= 0xffe4 || 0xffe7 <= keyval <= 0xffec || keyval
            == 0xffc7,
{
}

/// A key that brings the input back to a terminal writes what it would have typed there:
/// the same character, or the same control character. It changes nothing where a
/// terminal has the input, or where there is none; and a press with Ctrl and Shift, or
/// with Alt, is left for the terminal to handle.
pub proof fn law_restored_input_types_the_same(
    keyval: u32,
    state: u32,
    character: char,
    upper: bool,
)
    requires
        !keeps_focus(keyval),
    ensures
        restore_step(keyval, state, Some(character), upper, true, true) == RestoreStep::Proceed,
        restore_step(keyval, state, Some(character), upper, false, false) == RestoreStep::Proceed,
        restore_step(keyval, state, None, upper, true, false) == RestoreStep::Focus,
        plain_step(Some(character), state) == KeyStep::Text(character) ==> restore_step(
            keyval,
            state,
            Some(character),
            upper,
            true,
            false,
        ) == RestoreStep::FocusAndWrite(character),
        held(state, 0x8) ==> restore_step(keyval, state, Some(character), upper, true, false)
            == RestoreStep::Focus,
        held(state, 0x4) && (held(state, 0x1) || upper) ==> restore_step(
            keyval,
            state,
            Some(character),
            upper,
            true,
            false,
        ) == RestoreStep::Focus,
        held(state, 0x4) && !held(state, 0x1) && !upper && !held(state, 0x8) ==> (restore_step(
            keyval,
            state,
            Some(character),
            upper,
            true,
            false,
        ) matches RestoreStep::FocusAndWrite(written) ==> plain_step(Some(character), state)
            == KeyStep::Control(written as u8)),
        held(state, 0x4) && !held(state, 0x1) && !upper && !held(state, 0x8) ==> (restore_step(
            keyval,
            state,
            Some(character),
            upper,
            true,
            false,
        ) is FocusAndWrite <==> '@' <= character <= '_' || 'a' <= character <= 'z' || '2'
            <= character <= '7'),
{
}

/// A key types an upper-case letter exactly if it has a character that is one.
pub proof fn law_only_characters_are_upper_case(character: char)
    ensures
        !types_upper_case(None),
        types_upper_case(Some(character)) == upper_case(character),
{
}

} // verus!
