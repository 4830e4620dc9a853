use vstd::prelude::*;

verus! {

/// The physical keys that the host can report and the bridge tells apart;
/// every other key code is `Other`.
#[derive(Clone, Copy, Debug, PartialEq, Eq, Structural)]
pub enum KeyCode {
    Escape,
    Insert,
    Home,
    Delete,
    End,
    PageDown,
    PageUp,
    ArrowLeft,
    ArrowUp,
    ArrowRight,
    ArrowDown,
    Backspace,
    Enter,
    Tab,
    Space,
    KeyA,
    KeyK,
    KeyU,
    KeyW,
    KeyZ,
    Other,
}

/// A key as the host reports it: one with a known code, or one that the
/// platform could not identify.
#[derive(Clone, Copy, Debug, PartialEq, Eq, Structural)]
pub enum PhysicalKey {
    Code(KeyCode),
    Unidentified,
}

/// The keys that are passed on to the GUI.
#[derive(Clone, Copy, Debug, PartialEq, Eq, Structural)]
pub enum Key {
    Escape,
    Insert,
    Home,
    Delete,
    End,
    PageDown,
    PageUp,
    ArrowLeft,
    ArrowUp,
    ArrowRight,
    ArrowDown,
    Backspace,
    Enter,
    Tab,
    Space,
    A,
    K,
    U,
    W,
    Z,
}

/// The modifier keys as the host reports them.
#[derive(Clone, Copy, Debug, PartialEq, Eq, Structural)]
pub struct ModifiersState {
    pub alt: bool,
    pub control: bool,
    pub shift: bool,
    pub super_key: bool,
}

/// The modifier keys as the GUI wants them.
#[derive(Clone, Copy, Debug, PartialEq, Eq, Structural)]
pub struct Modifiers {
    pub alt: bool,
    pub ctrl: bool,
    pub shift: bool,
    pub mac_cmd: bool,
    pub command: bool,
}

#[derive(Clone, Copy, Debug, PartialEq, Eq, Structural)]
pub enum PointerButton {
    Primary,
    Secondary,
    Middle,
}

/// A key that is held down, and whether it went down since the last frame.
#[derive(Clone, Copy, Debug, PartialEq, Eq, Structural)]
pub struct KeySample {
    pub key: PhysicalKey,
    pub just_pressed: bool,
}

/// The edges of one mouse button since the last frame.
#[derive(Clone, Copy, Debug, PartialEq, Eq, Structural)]
pub struct ButtonEdges {
    pub just_pressed: bool,
    pub just_released: bool,
}

/// What the host's input system shows at the start of a frame.
#[derive(Clone, Debug)]
pub struct HostInput {
    pub pressed_keys: Vec<KeySample>,
    pub modifiers: ModifiersState,
    pub left: ButtonEdges,
    pub middle: ButtonEdges,
    pub right: ButtonEdges,
}

/// An event for the GUI. Pointer events happen at the pointer position of
/// the frame they are reported in.
#[derive(Clone, Copy, Debug, PartialEq, Eq, Structural)]
pub enum InputEvent {
    Key { key: Key, pressed: bool, repeat: bool, modifiers: Modifiers },
    PointerMoved,
    PointerButton { button: PointerButton, pressed: bool, modifiers: Modifiers },
}

/// Whether a code point lies in one of the three Unicode private-use areas.
pub open spec fn is_private_use(code: int) -> bool {
    (0xe000 <= code <= 0xf8ff) || (0xf0000 <= code <= 0xffffd) || (0x100000 <= code <= 0x10fffd)
}

/// Whether a code point is an ASCII control character: below the space, or
/// the delete character.
pub open spec fn is_ascii_control_code(code: int) -> bool {
    (0 <= code <= 0x1f) || code == 0x7f
}

/// A character is reported as committed text exactly when it is neither an
/// ASCII control character nor a private-use code point.
pub open spec fn spec_is_printable(chr: char) -> bool {
    !is_private_use(chr as int) && !is_ascii_control_code(chr as int)
}

/// Whether a committed character is passed on to the GUI as text.
pub fn is_printable(chr: char) -> (printable: bool)
    ensures
        printable == spec_is_printable(chr),
{
    let is_in_private_use_area = ('\u{e000}' <= chr && chr <= '\u{f8ff}') || ('\u{f0000}' <= chr
        && chr <= '\u{ffffd}') || ('\u{100000}' <= chr && chr <= '\u{10fffd}');
    let is_control = chr <= '\u{1f}' || chr == '\u{7f}';
    !is_in_private_use_area && !is_control
}

/// The host key code that a GUI key stands for.
pub open spec fn code_of(key: Key) -> KeyCode {
    match key {
        Key::Escape => KeyCode::Escape,
        Key::Insert => KeyCode::Insert,
        Key::Home => KeyCode::Home,
        Key::Delete => KeyCode::Delete,
        Key::End => KeyCode::End,
        Key::PageDown => KeyCode::PageDown,
        Key::PageUp => KeyCode::PageUp,
        Key::ArrowLeft => KeyCode::ArrowLeft,
        Key::ArrowUp => KeyCode::ArrowUp,
        Key::ArrowRight => KeyCode::ArrowRight,
        Key::ArrowDown => KeyCode::ArrowDown,
        Key::Backspace => KeyCode::Backspace,
        Key::Enter => KeyCode::Enter,
        Key::Tab => KeyCode::Tab,
        Key::Space => KeyCode::Space,
        Key::A => KeyCode::KeyA,
        Key::K => KeyCode::KeyK,
        Key::U => KeyCode::KeyU,
        Key::W => KeyCode::KeyW,
        Key::Z => KeyCode::KeyZ,
    }
}

/// The GUI key of a host key: the one that stands for its code, if any.
pub open spec fn spec_translate(key: PhysicalKey) -> Option<Key> {
    if exists|k: Key| key == PhysicalKey::Code(code_of(k)) {
        Some(choose|k: Key| key == PhysicalKey::Code(code_of(k)))
    } else {
        None
    }
}

/// Translates a host key. Unidentified keys and codes that the GUI has no
/// key for give `None`.
pub fn translate_physical_key(key: PhysicalKey) -> (translated: Option<Key>)
    ensures
        translated == spec_translate(key),
        match translated {
            Some(k) => key == PhysicalKey::Code(code_of(k)),
            None => key == PhysicalKey::Unidentified || key == PhysicalKey::Code(KeyCode::Other),
        },
{
    let code = match key {
        PhysicalKey::Code(code) => code,
        PhysicalKey::Unidentified => {
            return None;
        },
    };
    let translated = match code {
        KeyCode::Escape => Key::Escape,
        KeyCode::Insert => Key::Insert,
        KeyCode::Home => Key::Home,
        KeyCode::Delete => Key::Delete,
        KeyCode::End => Key::End,
        KeyCode::PageDown => Key::PageDown,
        KeyCode::PageUp => Key::PageUp,
        KeyCode::ArrowLeft => Key::ArrowLeft,
        KeyCode::ArrowUp => Key::ArrowUp,
        KeyCode::ArrowRight => Key::ArrowRight,
        KeyCode::ArrowDown => Key::ArrowDown,
        KeyCode::Backspace => Key::Backspace,
        KeyCode::Enter => Key::Enter,
        KeyCode::Tab => Key::Tab,
        KeyCode::Space => Key::Space,
        KeyCode::KeyA => Key::A,
        KeyCode::KeyK => Key::K,
        KeyCode::KeyU => Key::U,
        KeyCode::KeyW => Key::W,
        KeyCode::KeyZ => Key::Z,
        KeyCode::Other => {
            return None;
        },
    };
    proof {
        assert(key == PhysicalKey::Code(code_of(translated)));
    }
    Some(translated)
}

/// The GUI's modifiers for the host's. On macOS the command key is the
/// super key; elsewhere there is no mac command key and control is the
/// command key.
pub open spec fn spec_modifiers(keymods: ModifiersState, mac_os: bool) -> Modifiers {
    Modifiers {
        alt: keymods.alt,
        ctrl: keymods.control,
        shift: keymods.shift,
        mac_cmd: mac_os && keymods.super_key,
        command: if mac_os {
            keymods.super_key
        } else {
            keymods.control
        },
    }
}

/// Translates the host's modifier keys for the GUI, on macOS (`mac_os`) or
/// on any other system.
pub fn translate_modifier(keymods: ModifiersState, mac_os: bool) -> (modifiers: Modifiers)
    ensures
        modifiers == spec_modifiers(keymods, mac_os),
{
    if mac_os {
        Modifiers {
            alt: keymods.alt,
            ctrl: keymods.control,
            shift: keymods.shift,
            mac_cmd: keymods.super_key,
            command: keymods.super_key,
        }
    } else {
        Modifiers {
            alt: keymods.alt,
            ctrl: keymods.control,
            shift: keymods.shift,
            mac_cmd: false,
            command: keymods.control,
        }
    }
}

/// One key-down event for each held key that just went down and that the
/// GUI has a key for, in the order of the samples.
pub open spec fn key_events(keys: Seq<KeySample>, modifiers: Modifiers) -> Seq<InputEvent>
    decreases keys.len(),
{
    if keys.len() == 0 {
        Seq::empty()
    } else {
        let before = key_events(keys.drop_last(), modifiers);
        match spec_translate(keys.last().key) {
            Some(key) => if keys.last().just_pressed {
                before.push(InputEvent::Key { key, pressed: true, repeat: false, modifiers })
            } else {
                before
            },
            None => before,
        }
    }
}

/// The event of one mouse button: a press if it just went down, else a
/// release if it just came up, else none.
pub open spec fn button_events(
    button: PointerButton,
    edges: ButtonEdges,
    modifiers: Modifiers,
) -> Seq<InputEvent> {
    if edges.just_pressed {
        seq![InputEvent::PointerButton { button, pressed: true, modifiers }]
    } else if edges.just_released {
        seq![InputEvent::PointerButton { button, pressed: false, modifiers }]
    } else {
        Seq::empty()
    }
}

/// The events of a frame: the key presses, the pointer's move, then the
/// buttons in the order left, middle, right.
pub open spec fn frame_events(host: HostInput, mac_os: bool) -> Seq<InputEvent> {
    let modifiers = spec_modifiers(host.modifiers, mac_os);
    key_events(host.pressed_keys@, modifiers) + seq![InputEvent::PointerMoved] + button_events(
        PointerButton::Primary,
        host.left,
        modifiers,
    ) + button_events(PointerButton::Middle, host.middle, modifiers) + button_events(
        PointerButton::Secondary,
        host.right,
        modifiers,
    )
}

fn push_button_event(
    events: &mut Vec<InputEvent>,
    button: PointerButton,
    edges: ButtonEdges,
    modifiers: Modifiers,
)
    ensures
        final(events)@ == old(events)@ + button_events(button, edges, modifiers),
{
    if edges.just_pressed {
        events.push(InputEvent::PointerButton { button, pressed: true, modifiers });
    } else if edges.just_released {
        events.push(InputEvent::PointerButton { button, pressed: false, modifiers });
    }
    proof {
        assert(events@ =~= old(events)@ + button_events(button, edges, modifiers));
    }
}

/// Turns what the host shows at the start of a frame into the frame's
/// events for the GUI.
pub fn update(host: &HostInput, mac_os: bool) -> (events: Vec<InputEvent>)
    ensures
        events@ == frame_events(*host, mac_os),
{
    let modifiers = translate_modifier(host.modifiers, mac_os);
    let mut events: Vec<InputEvent> = Vec::new();
    let mut i: usize = 0;
    while i < host.pressed_keys.len()
        invariant
            i <= host.pressed_keys@.len(),
            events@ == key_events(host.pressed_keys@.take(i as int), modifiers),
        decreases host.pressed_keys@.len() - i,
    {
        proof {
            assert(host.pressed_keys@.take(i + 1).drop_last() =~= host.pressed_keys@.take(i as int));
            assert(host.pressed_keys@.take(i + 1).last() == host.pressed_keys@[i as int]);
        }
        let sample = host.pressed_keys[i];
        if sample.just_pressed {
            match translate_physical_key(sample.key) {
                Some(key) => {
                    events.push(InputEvent::Key { key, pressed: true, repeat: false, modifiers });
                },
                None => {},
            }
        }
        i += 1;
    }
    proof {
        assert(host.pressed_keys@.take(i as int) =~= host.pressed_keys@);
    }
    events.push(InputEvent::PointerMoved);
    proof {
        assert(events@ =~= key_events(host.pressed_keys@, modifiers) + seq![InputEvent::PointerMoved]);
    }
    push_button_event(&mut events, PointerButton::Primary, host.left, modifiers);
    push_button_event(&mut events, PointerButton::Middle, host.middle, modifiers);
    push_button_event(&mut events, PointerButton::Secondary, host.right, modifiers);
    events
}

/// The text to report for a committed character: the character itself where
/// it is printable, nothing otherwise.
pub fn text_input_event(ch: char) -> (text: Option<char>)
    ensures
        text == (if spec_is_printable(ch) {
            Some(ch)
        } else {
            None
        }),
{
    if is_printable(ch) {
        Some(ch)
    } else {
        None
    }
}

} // verus!
