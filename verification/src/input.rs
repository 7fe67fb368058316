//! Terminal input and its mapping onto the events that widgets are told
//! of.

use vstd::prelude::*;

verus! {

/// A key as the terminal reports it.
#[derive(Debug, Clone, Copy, PartialEq, Eq, Structural)]
pub enum TermKey {
    Backspace,
    Enter,
    Left,
    Right,
    Up,
    Down,
    Home,
    End,
    PageUp,
    PageDown,
    Tab,
    BackTab,
    Delete,
    Insert,
    /// A function key, by its number.
    F(u8),
    Char(char),
    Null,
    Esc,
}

/// The modifier keys that the terminal reports with a key.
#[derive(Debug, Clone, Copy, PartialEq, Eq, Structural)]
pub struct TermModifiers {
    pub shift: bool,
    pub control: bool,
    pub alt: bool,
}

/// A mouse button as the terminal reports it.
#[derive(Debug, Clone, Copy, PartialEq, Eq, Structural)]
pub enum TermMouseButton {
    Left,
    Right,
    Middle,
}

/// What the pointer did, as the terminal reports it.
#[derive(Debug, Clone, Copy, PartialEq, Eq, Structural)]
pub enum TermMouseKind {
    Down(TermMouseButton),
    Up(TermMouseButton),
    Drag(TermMouseButton),
    Moved,
    ScrollDown,
    ScrollUp,
}

/// A pointer report of the terminal: what happened, and in which cell.
#[derive(Debug, Clone, Copy, PartialEq, Eq, Structural)]
pub struct TermMouse {
    pub kind: TermMouseKind,
    pub column: u16,
    pub row: u16,
}

/// One report of the terminal.
#[derive(Debug, Clone, Copy, PartialEq, Eq, Structural)]
pub enum TermEvent {
    Key(TermKey, TermModifiers),
    Mouse(TermMouse),
    /// The terminal now has this many columns and rows.
    Resize(u16, u16),
}

/// A key as widgets know it.
#[derive(Debug, Clone, Copy, PartialEq, Eq, Structural)]
pub enum KeyCode {
    A,
    B,
    C,
    D,
    E,
    F,
    G,
    H,
    I,
    J,
    K,
    L,
    M,
    N,
    O,
    P,
    Q,
    R,
    S,
    T,
    U,
    V,
    W,
    X,
    Y,
    Z,
    Escape,
    F1,
    F2,
    F3,
    F4,
    F5,
    F6,
    F7,
    F8,
    F9,
    F10,
    F11,
    F12,
    Insert,
    Home,
    Delete,
    End,
    PageDown,
    PageUp,
    Left,
    Up,
    Right,
    Down,
    Backspace,
    Enter,
    Tab,
}

/// The modifier keys as widgets know them.
#[derive(Debug, Clone, Copy, PartialEq, Eq, Structural)]
pub struct Modifiers {
    pub shift: bool,
    pub control: bool,
    pub alt: bool,
    pub logo: bool,
}

/// What the keyboard did, as widgets are told.
#[derive(Debug, Clone, Copy, PartialEq, Eq, Structural)]
pub enum KeyboardEvent {
    KeyPressed { key_code: KeyCode, modifiers: Modifiers },
    KeyReleased { key_code: KeyCode, modifiers: Modifiers },
    CharacterReceived(char),
}

/// A mouse button as widgets know it.
#[derive(Debug, Clone, Copy, PartialEq, Eq, Structural)]
pub enum MouseButton {
    Left,
    Right,
    Middle,
}

/// What the pointer did, as widgets are told.
#[derive(Debug, Clone, Copy, PartialEq, Eq, Structural)]
pub enum MouseEvent {
    ButtonPressed(MouseButton),
    ButtonReleased(MouseButton),
    /// The pointer is now over the cell in this column and row.
    CursorMoved { column: u16, row: u16 },
    /// The wheel turned by this many lines.
    WheelScrolled { x: i8, y: i8 },
}

/// An event that widgets are told of.
#[derive(Debug, Clone, Copy, PartialEq, Eq, Structural)]
pub enum Event {
    Keyboard(KeyboardEvent),
    Mouse(MouseEvent),
    /// The window now has this many columns and rows.
    Resized { width: u32, height: u32 },
}

/// The first character of the uppercase form of `c`, as `char::to_uppercase`
/// of the standard library yields it.
pub uninterp spec fn uppercase_head(c: char) -> char;

/// `char::to_uppercase` of the standard library, followed by `next` on what
/// it returns: the iterator yields the uppercase form of `c` as one or more
/// characters, so there always is a first one.
#[verifier::external_body]
fn first_uppercase(c: char) -> (upper: Option<char>)
    ensures
        upper == Some(uppercase_head(c)),
{
    c.to_uppercase().next()
}

/// The key of an uppercase letter. The letters `A` to `Z` have one, all but
/// `W`; nothing else has.
pub open spec fn letter_key(upper: Option<char>) -> Option<KeyCode> {
    match upper {
        Some('A') => Some(KeyCode::A),
        Some('B') => Some(KeyCode::B),
        Some('C') => Some(KeyCode::C),
        Some('D') => Some(KeyCode::D),
        Some('E') => Some(KeyCode::E),
        Some('F') => Some(KeyCode::F),
        Some('G') => Some(KeyCode::G),
        Some('H') => Some(KeyCode::H),
        Some('I') => Some(KeyCode::I),
        Some('J') => Some(KeyCode::J),
        Some('K') => Some(KeyCode::K),
        Some('L') => Some(KeyCode::L),
        Some('M') => Some(KeyCode::M),
        Some('N') => Some(KeyCode::N),
        Some('O') => Some(KeyCode::O),
        Some('P') => Some(KeyCode::P),
        Some('Q') => Some(KeyCode::Q),
        Some('R') => Some(KeyCode::R),
        Some('S') => Some(KeyCode::S),
        Some('T') => Some(KeyCode::T),
        Some('U') => Some(KeyCode::U),
        Some('V') => Some(KeyCode::V),
        Some('X') => Some(KeyCode::X),
        Some('Y') => Some(KeyCode::Y),
        Some('Z') => Some(KeyCode::Z),
        _ => None,
    }
}

/// The key of a function key number: `F1` to `F12` for 1 to 12.
pub open spec fn function_key(number: u8) -> Option<KeyCode> {
    if number == 1 {
        Some(KeyCode::F1)
    } else if number == 2 {
        Some(KeyCode::F2)
    } else if number == 3 {
        Some(KeyCode::F3)
    } else if number == 4 {
        Some(KeyCode::F4)
    } else if number == 5 {
        Some(KeyCode::F5)
    } else if number == 6 {
        Some(KeyCode::F6)
    } else if number == 7 {
        Some(KeyCode::F7)
    } else if number == 8 {
        Some(KeyCode::F8)
    } else if number == 9 {
        Some(KeyCode::F9)
    } else if number == 10 {
        Some(KeyCode::F10)
    } else if number == 11 {
        Some(KeyCode::F11)
    } else if number == 12 {
        Some(KeyCode::F12)
    } else {
        None
    }
}

/// The key that widgets are told of for a key of the terminal. A character
/// goes by the first character of its uppercase form; the back tab is a tab.
pub open spec fn key_code_of(key: TermKey) -> Option<KeyCode> {
    match key {
        TermKey::Backspace => Some(KeyCode::Backspace),
        TermKey::Enter => Some(KeyCode::Enter),
        TermKey::Left => Some(KeyCode::Left),
        TermKey::Right => Some(KeyCode::Right),
        TermKey::Up => Some(KeyCode::Up),
        TermKey::Down => Some(KeyCode::Down),
        TermKey::Home => Some(KeyCode::Home),
        TermKey::End => Some(KeyCode::End),
        TermKey::PageUp => Some(KeyCode::PageUp),
        TermKey::PageDown => Some(KeyCode::PageDown),
        TermKey::Tab => Some(KeyCode::Tab),
        TermKey::BackTab => Some(KeyCode::Tab),
        TermKey::Delete => Some(KeyCode::Delete),
        TermKey::Insert => Some(KeyCode::Insert),
        TermKey::F(number) => function_key(number),
        TermKey::Char(c) => letter_key(Some(uppercase_head(c))),
        TermKey::Null => None,
        TermKey::Esc => Some(KeyCode::Escape),
    }
}

/// The modifiers that widgets are told of: those of the terminal, and never
/// the logo key.
pub open spec fn modifiers_of(modifiers: TermModifiers) -> Modifiers {
    Modifiers {
        shift: modifiers.shift,
        control: modifiers.control,
        alt: modifiers.alt,
        logo: false,
    }
}

/// No modifier key at all.
pub open spec fn no_modifiers() -> Modifiers {
    Modifiers { shift: false, control: false, alt: false, logo: false }
}

/// The events of a key with a known code: pressed, then `between`, then
/// released; or `between` alone where the key has no code.
pub open spec fn key_stroke(
    key_code: Option<KeyCode>,
    modifiers: Modifiers,
    between: Seq<KeyboardEvent>,
) -> Seq<KeyboardEvent> {
    match key_code {
        Some(key_code) => seq![KeyboardEvent::KeyPressed { key_code, modifiers }] + between
            + seq![KeyboardEvent::KeyReleased { key_code, modifiers }],
        None => between,
    }
}

/// The keyboard events of one key report: the key goes down and up again
/// where it has a code, and in between a character is received where the key
/// is a character and control is not held.
pub open spec fn key_events(key: TermKey, modifiers: TermModifiers) -> Seq<KeyboardEvent> {
    key_stroke(
        key_code_of(key),
        modifiers_of(modifiers),
        match key {
            TermKey::Char(c) if !modifiers.control => seq![KeyboardEvent::CharacterReceived(c)],
            _ => Seq::empty(),
        },
    )
}

/// The keyboard events of a character typed with the given modifiers: the
/// character is received unless alt or control is held.
pub open spec fn char_events(c: char, modifiers: Modifiers) -> Seq<KeyboardEvent> {
    key_stroke(
        letter_key(Some(uppercase_head(c))),
        modifiers,
        if !modifiers.alt && !modifiers.control {
            seq![KeyboardEvent::CharacterReceived(c)]
        } else {
            Seq::empty()
        },
    )
}

/// The button that widgets are told of for a button of the terminal.
pub open spec fn button_of(button: TermMouseButton) -> MouseButton {
    match button {
        TermMouseButton::Left => MouseButton::Left,
        TermMouseButton::Right => MouseButton::Right,
        TermMouseButton::Middle => MouseButton::Middle,
    }
}

/// The mouse events of one pointer report. Dragging tells widgets nothing;
/// the wheel turns by one line in either direction.
pub open spec fn mouse_events(mouse: TermMouse) -> Seq<MouseEvent> {
    match mouse.kind {
        TermMouseKind::Down(button) => seq![MouseEvent::ButtonPressed(button_of(button))],
        TermMouseKind::Up(button) => seq![MouseEvent::ButtonReleased(button_of(button))],
        TermMouseKind::Drag(_) => Seq::empty(),
        TermMouseKind::Moved => seq![
            MouseEvent::CursorMoved { column: mouse.column, row: mouse.row },
        ],
        TermMouseKind::ScrollDown => seq![MouseEvent::WheelScrolled { x: 0, y: 1 }],
        TermMouseKind::ScrollUp => seq![MouseEvent::WheelScrolled { x: 0, y: 1 }],
    }
}

/// The events of one report of the terminal.
pub open spec fn events_of(event: TermEvent) -> Seq<Event> {
    match event {
        TermEvent::Key(key, modifiers) => key_events(key, modifiers).map_values(
            |e: KeyboardEvent| Event::Keyboard(e),
        ),
        TermEvent::Mouse(mouse) => mouse_events(mouse).map_values(|e: MouseEvent| Event::Mouse(e)),
        TermEvent::Resize(width, height) => seq![
            Event::Resized { width: width as u32, height: height as u32 },
        ],
    }
}

/// The cell the pointer was last seen over, after one more report.
pub open spec fn pointer_after(last: (u16, u16), event: TermEvent) -> (u16, u16) {
    match event {
        TermEvent::Mouse(mouse) => (mouse.column, mouse.row),
        _ => last,
    }
}

/// The key of an uppercase letter, if it has one.
pub fn keycode_for_uppercase(upper: Option<char>) -> (key_code: Option<KeyCode>)
    ensures
        key_code == letter_key(upper),
{
    match upper {
        Some('A') => Some(KeyCode::A),
        Some('B') => Some(KeyCode::B),
        Some('C') => Some(KeyCode::C),
        Some('D') => Some(KeyCode::D),
        Some('E') => Some(KeyCode::E),
        Some('F') => Some(KeyCode::F),
        Some('G') => Some(KeyCode::G),
        Some('H') => Some(KeyCode::H),
        Some('I') => Some(KeyCode::I),
        Some('J') => Some(KeyCode::J),
        Some('K') => Some(KeyCode::K),
        Some('L') => Some(KeyCode::L),
        Some('M') => Some(KeyCode::M),
        Some('N') => Some(KeyCode::N),
        Some('O') => Some(KeyCode::O),
        Some('P') => Some(KeyCode::P),
        Some('Q') => Some(KeyCode::Q),
        Some('R') => Some(KeyCode::R),
        Some('S') => Some(KeyCode::S),
        Some('T') => Some(KeyCode::T),
        Some('U') => Some(KeyCode::U),
        Some('V') => Some(KeyCode::V),
        Some('X') => Some(KeyCode::X),
        Some('Y') => Some(KeyCode::Y),
        Some('Z') => Some(KeyCode::Z),
        _ => None,
    }
}

/// The key of a character: the key of the first character of its uppercase
/// form.
pub fn keycode_from_char(c: char) -> (key_code: Option<KeyCode>)
    ensures
        key_code == letter_key(Some(uppercase_head(c))),
{
    keycode_for_uppercase(first_uppercase(c))
}

/// The key that widgets are told of for a key of the terminal.
pub fn term_keycode_to_iced(term_keycode: TermKey) -> (key_code: Option<KeyCode>)
    ensures
        key_code == key_code_of(term_keycode),
{
    match term_keycode {
        TermKey::Backspace => Some(KeyCode::Backspace),
        TermKey::Enter => Some(KeyCode::Enter),
        TermKey::Left => Some(KeyCode::Left),
        TermKey::Right => Some(KeyCode::Right),
        TermKey::Up => Some(KeyCode::Up),
        TermKey::Down => Some(KeyCode::Down),
        TermKey::Home => Some(KeyCode::Home),
        TermKey::End => Some(KeyCode::End),
        TermKey::PageUp => Some(KeyCode::PageUp),
        TermKey::PageDown => Some(KeyCode::PageDown),
        TermKey::Tab => Some(KeyCode::Tab),
        TermKey::BackTab => Some(KeyCode::Tab),
        TermKey::Delete => Some(KeyCode::Delete),
        TermKey::Insert => Some(KeyCode::Insert),
        TermKey::F(number) => match number {
            1 => Some(KeyCode::F1),
            2 => Some(KeyCode::F2),
            3 => Some(KeyCode::F3),
            4 => Some(KeyCode::F4),
            5 => Some(KeyCode::F5),
            6 => Some(KeyCode::F6),
            7 => Some(KeyCode::F7),
            8 => Some(KeyCode::F8),
            9 => Some(KeyCode::F9),
            10 => Some(KeyCode::F10),
            11 => Some(KeyCode::F11),
            12 => Some(KeyCode::F12),
            _ => None,
        },
        TermKey::Char(c) => keycode_from_char(c),
        TermKey::Null => None,
        TermKey::Esc => Some(KeyCode::Escape),
    }
}

/// The modifiers that widgets are told of for the modifiers of the terminal.
pub fn term_keymod_to_iced(term_keymod: TermModifiers) -> (modifiers: Modifiers)
    ensures
        modifiers == modifiers_of(term_keymod),
{
    Modifiers {
        alt: term_keymod.alt,
        control: term_keymod.control,
        logo: false,
        shift: term_keymod.shift,
    }
}

/// Maps one key report onto keyboard events.
pub fn map_keycode_event(term_keycode: TermKey, term_keymod: TermModifiers) -> (events: Vec<
    KeyboardEvent,
>)
    ensures
        events@ == key_events(term_keycode, term_keymod),
{
    let iced_keycode = term_keycode_to_iced(term_keycode);
    let modifiers = term_keymod_to_iced(term_keymod);
    let mut events: Vec<KeyboardEvent> = Vec::new();
    if let Some(key_code) = iced_keycode {
        events.push(KeyboardEvent::KeyPressed { key_code, modifiers });
    }
    if !modifiers.control {
        if let TermKey::Char(c) = term_keycode {
            events.push(KeyboardEvent::CharacterReceived(c));
        }
    }
    if let Some(key_code) = iced_keycode {
        events.push(KeyboardEvent::KeyReleased { key_code, modifiers });
    }
    proof {
        assert(events@ =~= key_events(term_keycode, term_keymod));
    }
    events
}

/// The button that widgets are told of for a button of the terminal.
pub fn map_mouse_button(button: TermMouseButton) -> (mapped: MouseButton)
    ensures
        mapped == button_of(button),
{
    match button {
        TermMouseButton::Left => MouseButton::Left,
        TermMouseButton::Right => MouseButton::Right,
        TermMouseButton::Middle => MouseButton::Middle,
    }
}

/// Maps one pointer report onto mouse events.
pub fn map_mouse_event(mouse_event: TermMouse) -> (events: Vec<MouseEvent>)
    ensures
        events@ == mouse_events(mouse_event),
{
    let mut events: Vec<MouseEvent> = Vec::new();
    match mouse_event.kind {
        TermMouseKind::Down(button) => {
            events.push(MouseEvent::ButtonPressed(map_mouse_button(button)));
        },
        TermMouseKind::Up(button) => {
            events.push(MouseEvent::ButtonReleased(map_mouse_button(button)));
        },
        TermMouseKind::Drag(_) => {},
        TermMouseKind::Moved => {
            events.push(
                MouseEvent::CursorMoved { column: mouse_event.column, row: mouse_event.row },
            );
        },
        TermMouseKind::ScrollDown => {
            events.push(MouseEvent::WheelScrolled { x: 0, y: 1 });
        },
        TermMouseKind::ScrollUp => {
            events.push(MouseEvent::WheelScrolled { x: 0, y: 1 });
        },
    }
    proof {
        assert(events@ =~= mouse_events(mouse_event));
    }
    events
}

/// Maps one report of the terminal onto the events that widgets are
/// told of.
pub fn map_term_event(event: TermEvent) -> (events: Vec<Event>)
    ensures
        events@ == events_of(event),
{
    let mut events: Vec<Event> = Vec::new();
    match event {
        TermEvent::Key(key, modifiers) => {
            let keyboard = map_keycode_event(key, modifiers);
            let n = keyboard.len();
            let mut i: usize = 0;
            while i < n
                invariant
                    n == keyboard@.len(),
                    i <= n,
                    events@ == keyboard@.take(i as int).map_values(
                        |e: KeyboardEvent| Event::Keyboard(e),
                    ),
                decreases n - i,
            {
                events.push(Event::Keyboard(keyboard[i]));
                proof {
                    assert(events@ =~= keyboard@.take(i + 1).map_values(
                        |e: KeyboardEvent| Event::Keyboard(e),
                    ));
                }
                i += 1;
            }
            proof {
                assert(keyboard@.take(n as int) =~= keyboard@);
            }
        },
        TermEvent::Mouse(mouse) => {
            let pointer = map_mouse_event(mouse);
            let n = pointer.len();
            let mut i: usize = 0;
            while i < n
                invariant
                    n == pointer@.len(),
                    i <= n,
                    events@ == pointer@.take(i as int).map_values(|e: MouseEvent| Event::Mouse(e)),
                decreases n - i,
            {
                events.push(Event::Mouse(pointer[i]));
                proof {
                    assert(events@ =~= pointer@.take(i + 1).map_values(
                        |e: MouseEvent| Event::Mouse(e),
                    ));
                }
                i += 1;
            }
            proof {
                assert(pointer@.take(n as int) =~= pointer@);
            }
        },
        TermEvent::Resize(width, height) => {
            events.push(Event::Resized { width: width as u32, height: height as u32 });
            proof {
                assert(events@ =~= events_of(event));
            }
        },
    }
    events
}

/// The cell the pointer was last seen over, after one more report.
pub fn track_pointer(last: (u16, u16), event: TermEvent) -> (pointer: (u16, u16))
    ensures
        pointer == pointer_after(last, event),
{
    match event {
        TermEvent::Mouse(mouse) => (mouse.column, mouse.row),
        _ => last,
    }
}

/// The events of a key with a code that is pressed and released with no
/// modifier held.
pub fn key_pressed_without_modifiers(keycode: KeyCode) -> (events: Vec<KeyboardEvent>)
    ensures
        events@ == key_stroke(Some(keycode), no_modifiers(), Seq::empty()),
{
    let modifiers = Modifiers { alt: false, control: false, logo: false, shift: false };
    let mut events: Vec<KeyboardEvent> = Vec::new();
    events.push(KeyboardEvent::KeyPressed { key_code: keycode, modifiers });
    events.push(KeyboardEvent::KeyReleased { key_code: keycode, modifiers });
    proof {
        assert(events@ =~= key_stroke(Some(keycode), no_modifiers(), Seq::empty()));
    }
    events
}

/// The events of a character typed with no modifier held.
pub fn char_received(c: char) -> (events: Vec<KeyboardEvent>)
    ensures
        events@ == char_events(c, no_modifiers()),
{
    char_received_with_modifiers(
        c,
        Modifiers { alt: false, control: false, logo: false, shift: false },
    )
}

/// The events of a character typed with the given modifiers held.
pub fn char_received_with_modifiers(c: char, modifiers: Modifiers) -> (events: Vec<KeyboardEvent>)
    ensures
        events@ == char_events(c, modifiers),
{
    let mut events: Vec<KeyboardEvent> = Vec::new();
    let keycode = keycode_from_char(c);
    if let Some(key_code) = keycode {
        events.push(KeyboardEvent::KeyPressed { key_code, modifiers });
    }
    if !modifiers.alt && !modifiers.control {
        events.push(KeyboardEvent::CharacterReceived(c));
    }
    if let Some(key_code) = keycode {
        events.push(KeyboardEvent::KeyReleased { key_code, modifiers });
    }
    proof {
        assert(events@ =~= char_events(c, modifiers));
    }
    events
}

} // verus!
