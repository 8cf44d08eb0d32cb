use cterm::ui::action::{
    gtk_action_activation, is_managed_restricted_action, reject_managed_action, Action,
    GtkActionActivation, PaneDirection, SplitDirection,
};
use cterm::ui::keyboard::{
    associated_text_for_gdk_key, control_byte, conventional_shortcut, escaped_bytes,
    gtk_modifiers_to_modifiers, gtk_state_to_modifiers, key_without_focus, only_character,
    pc101_key_for_gdk_keycode, plain_key, pressed_shortcut, reported_key, reported_key_from_gdk,
    restored_focus, shortcut_of, should_route_enhanced_key, single_lowercase, KeyEventKind,
    KeyPress, KeyStep, KeyboardEnhancementFlags, Modifiers, PressedKeys, ReportedKey, RestoreStep,
    ShortcutModifiers, Translations,
};
use cterm::ui::keys::{
    keyval_to_key, keyval_to_keycode, Key, KeyCode, NamedKey, ALT_MASK, CONTROL_MASK,
    KEY_AUDIO_PLAY, KEY_BAR, KEY_CONTROL_R, KEY_ESCAPE, KEY_F1, KEY_F35, KEY_KP_0, KEY_KP_PAGE_UP,
    KEY_PLUS, KEY_RETURN, KEY_SHIFT_L, KEY_UNDERSCORE, KEY_UP, LOCK_MASK, SHIFT_MASK, SUPER_MASK,
};
use cterm::ui::mouse::{
    gtk_state_to_mouse_mods, mouse_position_changed, select_all, FinishedSelection, MouseButton,
    MouseEncoding, MouseEvent, MouseMode, MousePosition, MouseState, MouseStep, SelectionMode,
};

#[test]
fn named_keys_cover_wayland_modifiers_media_and_extended_functions() {
    assert_eq!(
        keyval_to_key(KEY_CONTROL_R),
        Some(Key::Named(NamedKey::RightControl))
    );
    assert_eq!(
        keyval_to_key(KEY_AUDIO_PLAY),
        Some(Key::Named(NamedKey::MediaPlay))
    );
    assert_eq!(keyval_to_key(KEY_F35), Some(Key::F(35)));
    assert_eq!(
        keyval_to_key(KEY_KP_PAGE_UP),
        Some(Key::Named(NamedKey::NumpadPageUp))
    );
}

#[test]
fn pc101_identity_uses_physical_wayland_keycodes() {
    assert_eq!(pc101_key_for_gdk_keycode(10), Some('1'));
    assert_eq!(pc101_key_for_gdk_keycode(38), Some('a'));
    assert_eq!(pc101_key_for_gdk_keycode(51), Some('\\'));
    assert_eq!(pc101_key_for_gdk_keycode(65), Some(' '));
    assert_eq!(pc101_key_for_gdk_keycode(999), None);
}

fn no_flags() -> KeyboardEnhancementFlags {
    KeyboardEnhancementFlags { disambiguate: false, report_events: false, report_all_keys: false }
}

fn all_keys() -> KeyboardEnhancementFlags {
    KeyboardEnhancementFlags { report_all_keys: true, ..no_flags() }
}

#[test]
fn all_key_mode_routes_plain_and_modifier_keys() {
    assert!(should_route_enhanced_key(
        all_keys(),
        Key::Char('a'),
        false,
        Modifiers::empty(),
    ));
    assert!(should_route_enhanced_key(
        all_keys(),
        Key::Named(NamedKey::LeftShift),
        true,
        Modifiers { shift: true, ..Modifiers::empty() },
    ));
}

#[test]
fn enhancements_route_only_what_they_ask_for() {
    let disambiguate = KeyboardEnhancementFlags { disambiguate: true, ..no_flags() };
    let events = KeyboardEnhancementFlags { report_events: true, ..no_flags() };
    let ctrl = Modifiers { ctrl: true, ..Modifiers::empty() };
    let none = Modifiers::empty();
    assert!(!should_route_enhanced_key(no_flags(), Key::Escape, false, none));
    assert!(should_route_enhanced_key(disambiguate, Key::Char('a'), false, ctrl));
    assert!(!should_route_enhanced_key(disambiguate, Key::Char('a'), false, none));
    assert!(should_route_enhanced_key(disambiguate, Key::Escape, false, none));
    assert!(!should_route_enhanced_key(events, Key::Enter, false, none));
    assert!(should_route_enhanced_key(events, Key::Up, false, none));
    assert!(should_route_enhanced_key(events, Key::Named(NamedKey::Menu), false, none));
    assert!(!should_route_enhanced_key(events, Key::Named(NamedKey::LeftAlt), true, none));
}

#[test]
fn shifted_split_keyvals_map_to_their_configured_physical_keys() {
    assert_eq!(keyval_to_keycode(KEY_BAR), Some(KeyCode::Backslash));
    assert_eq!(keyval_to_keycode(KEY_UNDERSCORE), Some(KeyCode::Minus));
}

#[test]
fn key_values_cover_letters_digits_and_function_keys() {
    assert_eq!(keyval_to_keycode('q' as u32), Some(KeyCode::Q));
    assert_eq!(keyval_to_keycode('Q' as u32), Some(KeyCode::Q));
    assert_eq!(keyval_to_keycode('7' as u32), Some(KeyCode::Key7));
    assert_eq!(keyval_to_keycode(KEY_PLUS), Some(KeyCode::Equals));
    assert_eq!(keyval_to_keycode(KEY_F1 + 11), Some(KeyCode::F12));
    assert_eq!(keyval_to_keycode(KEY_F1 + 12), None);
    assert_eq!(keyval_to_key(KEY_F1), Some(Key::F(1)));
    assert_eq!(keyval_to_key(KEY_KP_0 + 4), Some(Key::NumpadDigit(4)));
    assert_eq!(keyval_to_key(KEY_UP), Some(Key::Up));
    assert_eq!(keyval_to_key(KEY_RETURN), Some(Key::Enter));
    assert_eq!(keyval_to_key('a' as u32), None);
}

#[test]
fn formerly_missing_shortcut_actions_map_to_native_gtk_actions() {
    for (action, name) in [
        (Action::SelectAll, "select-all"),
        (Action::ToggleFullscreen, "toggle-fullscreen"),
        (Action::OpenPreferences, "preferences"),
        (Action::FindText, "find"),
        (Action::ResetTerminal, "reset"),
    ] {
        assert_eq!(
            gtk_action_activation(&action),
            GtkActionActivation::simple(name)
        );
    }
}

#[test]
fn parameterized_actions_preserve_their_native_parameters() {
    assert_eq!(
        gtk_action_activation(&Action::Tab(7)),
        GtkActionActivation::with_string("select-tab-index", "7")
    );
    assert_eq!(
        gtk_action_activation(&Action::SplitPane(SplitDirection::Horizontal)),
        GtkActionActivation::simple("split-pane-horizontal")
    );
    assert_eq!(
        gtk_action_activation(&Action::FocusPane(PaneDirection::Down)),
        GtkActionActivation::simple("focus-pane-down")
    );
}

#[test]
fn managed_policy_blocks_secondary_session_and_configuration_actions() {
    for action in [
        Action::NewTab,
        Action::SplitPane(SplitDirection::Vertical),
        Action::ClosePane,
        Action::FocusPane(PaneDirection::Left),
        Action::ResizePane(PaneDirection::Right),
        Action::TogglePaneZoom,
        Action::NewWindow,
        Action::OpenPreferences,
        Action::QuickOpenTemplate,
    ] {
        assert!(is_managed_restricted_action(&action), "{action:?}");
    }

    for action in [
        Action::CloseTab,
        Action::CloseWindow,
        Action::Copy,
        Action::SelectAll,
        Action::ToggleFullscreen,
        Action::FindText,
        Action::ResetTerminal,
    ] {
        assert!(!is_managed_restricted_action(&action), "{action:?}");
    }
}

#[test]
fn only_managed_windows_reject_actions() {
    assert!(reject_managed_action(true, &Action::NewTab));
    assert!(!reject_managed_action(false, &Action::NewTab));
    assert!(!reject_managed_action(true, &Action::Copy));
}

#[test]
fn gtk_provides_the_conventional_fullscreen_shortcut() {
    assert_eq!(
        conventional_shortcut(KeyCode::F11, ShortcutModifiers::empty()),
        Some(Action::ToggleFullscreen)
    );
    assert_eq!(conventional_shortcut(KeyCode::F10, ShortcutModifiers::empty()), None);
    assert_eq!(
        conventional_shortcut(
            KeyCode::F11,
            ShortcutModifiers { ctrl: true, ..ShortcutModifiers::empty() }
        ),
        None
    );
}

#[test]
fn an_upper_case_letter_counts_as_shifted_in_shortcuts() {
    let ctrl = ShortcutModifiers { ctrl: true, ..ShortcutModifiers::empty() };
    assert_eq!(gtk_modifiers_to_modifiers(CONTROL_MASK), ctrl);
    assert_eq!(
        pressed_shortcut('t' as u32, CONTROL_MASK, Some('t')),
        Some((KeyCode::T, ctrl))
    );
    assert_eq!(
        pressed_shortcut('T' as u32, CONTROL_MASK, Some('T')),
        Some((KeyCode::T, ShortcutModifiers { shift: true, ..ctrl }))
    );
    assert_eq!(
        shortcut_of('t' as u32, SUPER_MASK, true),
        Some((
            KeyCode::T,
            ShortcutModifiers { shift: true, logo: true, ..ShortcutModifiers::empty() }
        ))
    );
    assert_eq!(pressed_shortcut(0, CONTROL_MASK, None), None);
}

#[test]
fn modifier_bits_are_told_apart() {
    let modifiers = gtk_state_to_modifiers(LOCK_MASK | ALT_MASK | (1 << 28));
    assert!(modifiers.caps_lock && modifiers.alt && modifiers.meta);
    assert!(!modifiers.ctrl && !modifiers.shift && !modifiers.logo && !modifiers.hyper);
    let mouse = gtk_state_to_mouse_mods(SHIFT_MASK | CONTROL_MASK);
    assert!(mouse.shift && mouse.ctrl && !mouse.alt);
}

#[test]
fn lower_case_forms_are_single_characters() {
    assert_eq!(single_lowercase('A'), Some('a'));
    assert_eq!(single_lowercase('1'), Some('1'));
    assert_eq!(single_lowercase('\u{130}'), None);
    assert_eq!(only_character(&vec!['a', 'b']), None);
    assert_eq!(only_character(&vec![]), None);
}

#[test]
fn reported_keys_carry_their_shifted_and_base_forms() {
    let translations = Translations { plain: Some('Q'), shifted: Some('Q'), lower: None };
    let expected = Some(ReportedKey {
        key: Key::Char('q'),
        shifted_key: Some('Q'),
        base_layout_key: Some('a'),
    });
    assert_eq!(reported_key_from_gdk('q' as u32, 38, &translations), expected);
    assert_eq!(reported_key('q' as u32, 38, &translations, Some('q')), expected);
    let unknown = Translations { plain: None, shifted: None, lower: None };
    assert_eq!(reported_key_from_gdk('q' as u32, 38, &unknown), None);
    assert_eq!(
        reported_key_from_gdk(KEY_ESCAPE, 9, &unknown),
        Some(ReportedKey { key: Key::Escape, shifted_key: None, base_layout_key: None })
    );
}

#[test]
fn associated_text_is_what_the_key_types() {
    let none = Modifiers::empty();
    let ctrl = Modifiers { ctrl: true, ..none };
    assert_eq!(associated_text_for_gdk_key(Key::Char('a'), Some('A'), none), Some('A'));
    assert_eq!(associated_text_for_gdk_key(Key::Char('a'), Some('a'), ctrl), None);
    assert_eq!(associated_text_for_gdk_key(Key::Char('a'), Some('\u{7}'), none), None);
    assert_eq!(associated_text_for_gdk_key(Key::Up, Some('a'), none), None);
}

#[test]
fn ctrl_types_control_characters() {
    assert_eq!(control_byte('a'), Some(1));
    assert_eq!(control_byte('Z'), Some(26));
    assert_eq!(control_byte('['), Some(27));
    assert_eq!(control_byte('1'), None);
    assert_eq!(plain_key(Some('c'), CONTROL_MASK), KeyStep::Control(3));
    assert_eq!(plain_key(Some('c'), ALT_MASK), KeyStep::Escaped('c'));
    assert_eq!(plain_key(Some('c'), 0), KeyStep::Text('c'));
    assert_eq!(plain_key(Some('c'), ALT_MASK | CONTROL_MASK), KeyStep::Proceed);
    assert_eq!(plain_key(None, 0), KeyStep::Proceed);
    assert_eq!(escaped_bytes('c'), b"\x1bc".to_vec());
    assert_eq!(escaped_bytes('\u{e9}'), "\u{1b}\u{e9}".as_bytes().to_vec());
}

#[test]
fn a_key_repeats_until_it_is_released() {
    let reported =
        ReportedKey { key: Key::Char('a'), shifted_key: Some('A'), base_layout_key: Some('a') };
    let press = KeyPress {
        keyval: 'a' as u32,
        keycode: 38,
        state: 0,
        character: Some('a'),
        reported: Some(reported),
        named_modifier: false,
    };
    let step = |kind| KeyStep::Enhanced {
        reported,
        modifiers: Modifiers::empty(),
        kind,
        text: Some('a'),
    };
    let mut keys = PressedKeys::new();
    assert_eq!(keys.pressed(&press, all_keys()), step(KeyEventKind::Press));
    assert_eq!(keys.pressed(&press, all_keys()), step(KeyEventKind::Repeat));
    assert_eq!(keys.released(38), Some(reported));
    assert_eq!(keys.released(38), None);
    assert_eq!(keys.pressed(&press, all_keys()), step(KeyEventKind::Press));
    keys.focus_lost();
    assert_eq!(keys.released(38), None);
    assert_eq!(keys.pressed(&press, no_flags()), KeyStep::Text('a'));
    assert_eq!(
        keys.pressed(&KeyPress { keyval: KEY_UP, reported: None, ..press }, no_flags()),
        KeyStep::Special { key: Key::Up, modifiers: Modifiers::empty() }
    );
}

#[test]
fn a_key_press_brings_the_input_back() {
    assert_eq!(
        key_without_focus('x' as u32, 0, Some('x'), true, false),
        RestoreStep::FocusAndWrite('x')
    );
    assert_eq!(
        key_without_focus('c' as u32, CONTROL_MASK, Some('c'), true, false),
        RestoreStep::FocusAndWrite('\u{3}')
    );
    assert_eq!(
        key_without_focus('C' as u32, CONTROL_MASK, Some('C'), true, false),
        RestoreStep::Focus
    );
    assert_eq!(key_without_focus(KEY_UP, 0, None, true, false), RestoreStep::Focus);
    assert_eq!(key_without_focus(KEY_SHIFT_L, 0, None, true, false), RestoreStep::Proceed);
    assert_eq!(key_without_focus('x' as u32, 0, Some('x'), true, true), RestoreStep::Proceed);
    assert_eq!(key_without_focus('x' as u32, 0, Some('x'), false, false), RestoreStep::Proceed);
    assert_eq!(
        restored_focus('x' as u32, ALT_MASK, Some('x'), false, true, false),
        RestoreStep::Focus
    );
}

fn at(col: usize, row: usize, pixel_x: i32, pixel_y: i32) -> MousePosition {
    MousePosition { col, row, pixel_x, pixel_y }
}

#[test]
fn positions_are_compared_as_they_are_encoded() {
    assert!(!mouse_position_changed(MouseEncoding::Cells, at(1, 1, 8, 8), at(1, 1, 9, 9)));
    assert!(mouse_position_changed(MouseEncoding::SgrPixels, at(1, 1, 8, 8), at(1, 1, 9, 8)));
    assert!(mouse_position_changed(MouseEncoding::Cells, at(1, 1, 8, 8), at(2, 1, 9, 8)));
}

#[test]
fn a_drag_selects_unless_an_application_takes_it() {
    let mut mouse = MouseState::new();
    assert_eq!(
        mouse.primary_pressed(2, false, false, false, MouseMode::Off),
        MouseStep::StartSelection(SelectionMode::Word)
    );
    assert_eq!(
        mouse.pointer_moved(at(3, 4, 0, 0), false, true, MouseMode::Off, MouseEncoding::Cells),
        MouseStep::ExtendSelection
    );
    let word = FinishedSelection { empty: true, mode: SelectionMode::Word };
    assert_eq!(mouse.primary_released(Some(word)), MouseStep::CopyToPrimary);
    let nothing = FinishedSelection { empty: true, mode: SelectionMode::Char };
    assert_eq!(mouse.primary_released(Some(nothing)), MouseStep::ClearSelection);
    assert_eq!(mouse.primary_released(None), MouseStep::Nothing);

    assert_eq!(
        mouse.primary_pressed(1, false, false, false, MouseMode::Normal),
        MouseStep::TryReport(MouseButton::Left)
    );
    assert_eq!(
        mouse.press_answered(MouseButton::Left, true, 1, false),
        MouseStep::Nothing
    );
    assert_eq!(
        mouse.pointer_moved(at(5, 4, 0, 0), false, false, MouseMode::Normal, MouseEncoding::Cells),
        MouseStep::Report(MouseEvent::Motion(Some(MouseButton::Left)))
    );
    assert_eq!(
        mouse.pointer_moved(at(5, 4, 1, 1), false, false, MouseMode::Normal, MouseEncoding::Cells),
        MouseStep::Nothing
    );
    assert_eq!(mouse.other_released(MouseButton::Right), MouseStep::Nothing);
    assert_eq!(
        mouse.primary_released(None),
        MouseStep::Report(MouseEvent::Release(MouseButton::Left))
    );
    assert_eq!(
        mouse.press_answered(MouseButton::Left, false, 3, false),
        MouseStep::StartSelection(SelectionMode::Line)
    );
}

#[test]
fn links_open_and_offer_their_menu() {
    let mut mouse = MouseState::new();
    assert_eq!(
        mouse.primary_pressed(1, true, false, true, MouseMode::Normal),
        MouseStep::OpenLink
    );
    assert_eq!(
        mouse.secondary_pressed(true, true, MouseMode::Normal),
        MouseStep::ShowLinkMenu
    );
    assert_eq!(mouse.secondary_pressed(false, false, MouseMode::Off), MouseStep::Nothing);
    assert_eq!(
        mouse.press_answered(MouseButton::Right, false, 1, true),
        MouseStep::ShowLinkMenu
    );
    assert_eq!(mouse.middle_pressed(false, MouseMode::Off), MouseStep::PastePrimary);
    assert_eq!(
        mouse.middle_pressed(false, MouseMode::AnyEvent),
        MouseStep::TryReport(MouseButton::Middle)
    );
    assert_eq!(
        mouse.pointer_moved(at(1, 1, 0, 0), false, true, MouseMode::Off, MouseEncoding::Cells),
        MouseStep::Hover { link: true }
    );
    assert_eq!(
        mouse.pointer_moved(at(2, 1, 0, 0), false, true, MouseMode::AnyEvent, MouseEncoding::Cells),
        MouseStep::Report(MouseEvent::Motion(None))
    );
}

#[test]
fn the_wheel_goes_where_it_is_wanted() {
    let mouse = MouseState::new();
    assert_eq!(
        mouse.wheel_turned(true, false, MouseMode::Normal, true, true),
        MouseStep::Report(MouseEvent::Press(MouseButton::WheelUp))
    );
    assert_eq!(
        mouse.wheel_turned(false, false, MouseMode::Off, true, true),
        MouseStep::TypeArrow { up: false, times: 3 }
    );
    assert_eq!(
        mouse.wheel_turned(false, true, MouseMode::Normal, true, true),
        MouseStep::ScrollViewport { up: false, lines: 3 }
    );
    assert_eq!(
        mouse.wheel_turned(true, false, MouseMode::Off, true, false),
        MouseStep::ScrollViewport { up: true, lines: 3 }
    );
    assert_eq!(select_all(100, 80), ((0, 0), (99, 79)));
    assert_eq!(select_all(0, 0), ((0, 0), (0, 0)));
}
