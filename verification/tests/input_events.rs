use gui_bridge::input::{
    is_printable, text_input_event, translate_modifier, translate_physical_key, update,
    ButtonEdges, HostInput, InputEvent, Key, KeyCode, KeySample, Modifiers, ModifiersState,
    PhysicalKey, PointerButton,
};

fn idle() -> ButtonEdges {
    ButtonEdges { just_pressed: false, just_released: false }
}

fn no_mods() -> ModifiersState {
    ModifiersState { alt: false, control: false, shift: false, super_key: false }
}

#[test]
fn printable_excludes_ascii_controls() {
    assert!(!is_printable('\u{0}'));
    assert!(!is_printable('\n'));
    assert!(!is_printable('\u{1f}'));
    assert!(!is_printable('\u{7f}'));
    assert!(is_printable(' '));
    assert!(is_printable('a'));
    assert!(is_printable('~'));
    assert!(is_printable('\u{80}'));
    assert!(is_printable('é'));
}

#[test]
fn printable_excludes_private_use_areas() {
    assert!(is_printable('\u{d7ff}'));
    assert!(!is_printable('\u{e000}'));
    assert!(!is_printable('\u{f8ff}'));
    assert!(is_printable('\u{f900}'));
    assert!(is_printable('\u{effff}'));
    assert!(!is_printable('\u{f0000}'));
    assert!(!is_printable('\u{ffffd}'));
    assert!(is_printable('\u{ffffe}'));
    assert!(is_printable('\u{fffff}'));
    assert!(!is_printable('\u{100000}'));
    assert!(!is_printable('\u{10fffd}'));
    assert!(is_printable('\u{10fffe}'));
    assert!(is_printable('\u{10ffff}'));
}

#[test]
fn text_input_reports_printable_characters_only() {
    assert_eq!(text_input_event('x'), Some('x'));
    assert_eq!(text_input_event('\u{8}'), None);
    assert_eq!(text_input_event('\u{e123}'), None);
}

#[test]
fn every_known_key_code_translates() {
    let table = [
        (KeyCode::Escape, Key::Escape),
        (KeyCode::Insert, Key::Insert),
        (KeyCode::Home, Key::Home),
        (KeyCode::Delete, Key::Delete),
        (KeyCode::End, Key::End),
        (KeyCode::PageDown, Key::PageDown),
        (KeyCode::PageUp, Key::PageUp),
        (KeyCode::ArrowLeft, Key::ArrowLeft),
        (KeyCode::ArrowUp, Key::ArrowUp),
        (KeyCode::ArrowRight, Key::ArrowRight),
        (KeyCode::ArrowDown, Key::ArrowDown),
        (KeyCode::Backspace, Key::Backspace),
        (KeyCode::Enter, Key::Enter),
        (KeyCode::Tab, Key::Tab),
        (KeyCode::Space, Key::Space),
        (KeyCode::KeyA, Key::A),
        (KeyCode::KeyK, Key::K),
        (KeyCode::KeyU, Key::U),
        (KeyCode::KeyW, Key::W),
        (KeyCode::KeyZ, Key::Z),
    ];
    for (code, key) in table {
        assert_eq!(translate_physical_key(PhysicalKey::Code(code)), Some(key));
    }
}

#[test]
fn other_and_unidentified_keys_translate_to_nothing() {
    assert_eq!(translate_physical_key(PhysicalKey::Code(KeyCode::Other)), None);
    assert_eq!(translate_physical_key(PhysicalKey::Unidentified), None);
}

#[test]
fn modifiers_off_mac_use_control_as_command() {
    let host = ModifiersState { alt: true, control: true, shift: false, super_key: true };
    assert_eq!(
        translate_modifier(host, false),
        Modifiers { alt: true, ctrl: true, shift: false, mac_cmd: false, command: true }
    );
    let host = ModifiersState { alt: false, control: false, shift: true, super_key: true };
    assert_eq!(
        translate_modifier(host, false),
        Modifiers { alt: false, ctrl: false, shift: true, mac_cmd: false, command: false }
    );
}

#[test]
fn modifiers_on_mac_use_super_as_command() {
    let host = ModifiersState { alt: false, control: true, shift: false, super_key: true };
    assert_eq!(
        translate_modifier(host, true),
        Modifiers { alt: false, ctrl: true, shift: false, mac_cmd: true, command: true }
    );
    let host = ModifiersState { alt: false, control: true, shift: false, super_key: false };
    assert_eq!(
        translate_modifier(host, true),
        Modifiers { alt: false, ctrl: true, shift: false, mac_cmd: false, command: false }
    );
}

#[test]
fn quiet_frame_reports_only_the_pointer() {
    let host = HostInput {
        pressed_keys: vec![],
        modifiers: no_mods(),
        left: idle(),
        middle: idle(),
        right: idle(),
    };
    assert_eq!(update(&host, false), vec![InputEvent::PointerMoved]);
}

#[test]
fn frame_events_come_keys_then_pointer_then_buttons() {
    let host = HostInput {
        pressed_keys: vec![
            KeySample { key: PhysicalKey::Code(KeyCode::KeyA), just_pressed: true },
            KeySample { key: PhysicalKey::Code(KeyCode::Enter), just_pressed: false },
            KeySample { key: PhysicalKey::Code(KeyCode::Other), just_pressed: true },
            KeySample { key: PhysicalKey::Unidentified, just_pressed: true },
            KeySample { key: PhysicalKey::Code(KeyCode::Tab), just_pressed: true },
        ],
        modifiers: ModifiersState { alt: false, control: true, shift: true, super_key: false },
        left: ButtonEdges { just_pressed: true, just_released: true },
        middle: idle(),
        right: ButtonEdges { just_pressed: false, just_released: true },
    };
    let modifiers =
        Modifiers { alt: false, ctrl: true, shift: true, mac_cmd: false, command: true };
    assert_eq!(
        update(&host, false),
        vec![
            InputEvent::Key { key: Key::A, pressed: true, repeat: false, modifiers },
            InputEvent::Key { key: Key::Tab, pressed: true, repeat: false, modifiers },
            InputEvent::PointerMoved,
            InputEvent::PointerButton { button: PointerButton::Primary, pressed: true, modifiers },
            InputEvent::PointerButton {
                button: PointerButton::Secondary,
                pressed: false,
                modifiers
            },
        ]
    );
}

#[test]
fn middle_button_sits_between_left_and_right() {
    let pressed = ButtonEdges { just_pressed: true, just_released: false };
    let host = HostInput {
        pressed_keys: vec![],
        modifiers: no_mods(),
        left: pressed,
        middle: pressed,
        right: pressed,
    };
    let modifiers = translate_modifier(no_mods(), true);
    assert_eq!(
        update(&host, true),
        vec![
            InputEvent::PointerMoved,
            InputEvent::PointerButton { button: PointerButton::Primary, pressed: true, modifiers },
            InputEvent::PointerButton { button: PointerButton::Middle, pressed: true, modifiers },
            InputEvent::PointerButton { button: PointerButton::Secondary, pressed: true, modifiers },
        ]
    );
}
