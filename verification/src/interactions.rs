//! Mouse and keyboard events as they are logged next to a recording.

use crate::text::{decimal, push_decimal, push_signed_decimal, signed_decimal, str_eq, texts};
use vstd::prelude::*;
use vstd::string::*;

verus! {

/// A key of the keyboard.
#[derive(Debug, Clone, Copy, PartialEq, Eq, Structural)]
pub enum Key {
    Alt,
    AltGr,
    Backspace,
    CapsLock,
    ControlLeft,
    ControlRight,
    Delete,
    DownArrow,
    End,
    Escape,
    F1,
    F2,
    F3,
    F4,
    F5,
    F6,
    F7,
    F8,
    F9,
    F10,
    F11,
    F12,
    Home,
    LeftArrow,
    MetaLeft,
    MetaRight,
    PageDown,
    PageUp,
    Return,
    RightArrow,
    ShiftLeft,
    ShiftRight,
    Space,
    Tab,
    UpArrow,
    PrintScreen,
    ScrollLock,
    Pause,
    NumLock,
    BackQuote,
    Num1,
    Num2,
    Num3,
    Num4,
    Num5,
    Num6,
    Num7,
    Num8,
    Num9,
    Num0,
    Minus,
    Equal,
    KeyQ,
    KeyW,
    KeyE,
    KeyR,
    KeyT,
    KeyY,
    KeyU,
    KeyI,
    KeyO,
    KeyP,
    LeftBracket,
    RightBracket,
    KeyA,
    KeyS,
    KeyD,
    KeyF,
    KeyG,
    KeyH,
    KeyJ,
    KeyK,
    KeyL,
    SemiColon,
    Quote,
    BackSlash,
    IntlBackslash,
    KeyZ,
    KeyX,
    KeyC,
    KeyV,
    KeyB,
    KeyN,
    KeyM,
    Comma,
    Dot,
    Slash,
    Insert,
    KpReturn,
    KpMinus,
    KpPlus,
    KpMultiply,
    KpDivide,
    Kp0,
    Kp1,
    Kp2,
    Kp3,
    Kp4,
    Kp5,
    Kp6,
    Kp7,
    Kp8,
    Kp9,
    KpDelete,
    Function,
    /// A key that has no name, by its code.
    Unknown(u32),
}

impl Key {
    /// The name under which a key is logged.
    pub open spec fn name(self) -> Seq<char> {
        match self {
            Key::Alt => "Alt"@,
            Key::AltGr => "AltGr"@,
            Key::Backspace => "Backspace"@,
            Key::CapsLock => "CapsLock"@,
            Key::ControlLeft => "CtrlLeft"@,
            Key::ControlRight => "CtrlRight"@,
            Key::Delete => "Delete"@,
            Key::DownArrow => "Down"@,
            Key::End => "End"@,
            Key::Escape => "Esc"@,
            Key::F1 => "F1"@,
            Key::F2 => "F2"@,
            Key::F3 => "F3"@,
            Key::F4 => "F4"@,
            Key::F5 => "F5"@,
            Key::F6 => "F6"@,
            Key::F7 => "F7"@,
            Key::F8 => "F8"@,
            Key::F9 => "F9"@,
            Key::F10 => "F10"@,
            Key::F11 => "F11"@,
            Key::F12 => "F12"@,
            Key::Home => "Home"@,
            Key::LeftArrow => "Left"@,
            Key::MetaLeft => "MetaLeft"@,
            Key::MetaRight => "MetaRight"@,
            Key::PageDown => "PageDown"@,
            Key::PageUp => "PageUp"@,
            Key::Return => "Enter"@,
            Key::RightArrow => "Right"@,
            Key::ShiftLeft => "ShiftLeft"@,
            Key::ShiftRight => "ShiftRight"@,
            Key::Space => "Space"@,
            Key::Tab => "Tab"@,
            Key::UpArrow => "Up"@,
            Key::PrintScreen => "PrintScreen"@,
            Key::ScrollLock => "ScrollLock"@,
            Key::Pause => "Pause"@,
            Key::NumLock => "NumLock"@,
            Key::BackQuote => "`"@,
            Key::Num1 => "1"@,
            Key::Num2 => "2"@,
            Key::Num3 => "3"@,
            Key::Num4 => "4"@,
            Key::Num5 => "5"@,
            Key::Num6 => "6"@,
            Key::Num7 => "7"@,
            Key::Num8 => "8"@,
            Key::Num9 => "9"@,
            Key::Num0 => "0"@,
            Key::Minus => "-"@,
            Key::Equal => "="@,
            Key::KeyQ => "Q"@,
            Key::KeyW => "W"@,
            Key::KeyE => "E"@,
            Key::KeyR => "R"@,
            Key::KeyT => "T"@,
            Key::KeyY => "Y"@,
            Key::KeyU => "U"@,
            Key::KeyI => "I"@,
            Key::KeyO => "O"@,
            Key::KeyP => "P"@,
            Key::LeftBracket => "["@,
            Key::RightBracket => "]"@,
            Key::KeyA => "A"@,
            Key::KeyS => "S"@,
            Key::KeyD => "D"@,
            Key::KeyF => "F"@,
            Key::KeyG => "G"@,
            Key::KeyH => "H"@,
            Key::KeyJ => "J"@,
            Key::KeyK => "K"@,
            Key::KeyL => "L"@,
            Key::SemiColon => ";"@,
            Key::Quote => "'"@,
            Key::BackSlash => "\\"@,
            Key::IntlBackslash => "IntlBackslash"@,
            Key::KeyZ => "Z"@,
            Key::KeyX => "X"@,
            Key::KeyC => "C"@,
            Key::KeyV => "V"@,
            Key::KeyB => "B"@,
            Key::KeyN => "N"@,
            Key::KeyM => "M"@,
            Key::Comma => ","@,
            Key::Dot => "."@,
            Key::Slash => "/"@,
            Key::Insert => "Insert"@,
            Key::KpReturn => "KpEnter"@,
            Key::KpMinus => "Kp-"@,
            Key::KpPlus => "Kp+"@,
            Key::KpMultiply => "Kp*"@,
            Key::KpDivide => "Kp/"@,
            Key::Kp0 => "Kp0"@,
            Key::Kp1 => "Kp1"@,
            Key::Kp2 => "Kp2"@,
            Key::Kp3 => "Kp3"@,
            Key::Kp4 => "Kp4"@,
            Key::Kp5 => "Kp5"@,
            Key::Kp6 => "Kp6"@,
            Key::Kp7 => "Kp7"@,
            Key::Kp8 => "Kp8"@,
            Key::Kp9 => "Kp9"@,
            Key::KpDelete => "KpDelete"@,
            Key::Function => "Function"@,
            Key::Unknown(code) => "Unknown("@ + decimal(code as nat) + ")"@,
        }
    }
}

/// The name under which a key is logged.
pub fn format_key(key: Key) -> (r: String)
    ensures
        r@ == key.name(),
{
    match key {
        Key::Alt => String::from_str("Alt"),
        Key::AltGr => String::from_str("AltGr"),
        Key::Backspace => String::from_str("Backspace"),
        Key::CapsLock => String::from_str("CapsLock"),
        Key::ControlLeft => String::from_str("CtrlLeft"),
        Key::ControlRight => String::from_str("CtrlRight"),
        Key::Delete => String::from_str("Delete"),
        Key::DownArrow => String::from_str("Down"),
        Key::End => String::from_str("End"),
        Key::Escape => String::from_str("Esc"),
        Key::F1 => String::from_str("F1"),
        Key::F2 => String::from_str("F2"),
        Key::F3 => String::from_str("F3"),
        Key::F4 => String::from_str("F4"),
        Key::F5 => String::from_str("F5"),
        Key::F6 => String::from_str("F6"),
        Key::F7 => String::from_str("F7"),
        Key::F8 => String::from_str("F8"),
        Key::F9 => String::from_str("F9"),
        Key::F10 => String::from_str("F10"),
        Key::F11 => String::from_str("F11"),
        Key::F12 => String::from_str("F12"),
        Key::Home => String::from_str("Home"),
        Key::LeftArrow => String::from_str("Left"),
        Key::MetaLeft => String::from_str("MetaLeft"),
        Key::MetaRight => String::from_str("MetaRight"),
        Key::PageDown => String::from_str("PageDown"),
        Key::PageUp => String::from_str("PageUp"),
        Key::Return => String::from_str("Enter"),
        Key::RightArrow => String::from_str("Right"),
        Key::ShiftLeft => String::from_str("ShiftLeft"),
        Key::ShiftRight => String::from_str("ShiftRight"),
        Key::Space => String::from_str("Space"),
        Key::Tab => String::from_str("Tab"),
        Key::UpArrow => String::from_str("Up"),
        Key::PrintScreen => String::from_str("PrintScreen"),
        Key::ScrollLock => String::from_str("ScrollLock"),
        Key::Pause => String::from_str("Pause"),
        Key::NumLock => String::from_str("NumLock"),
        Key::BackQuote => String::from_str("`"),
        Key::Num1 => String::from_str("1"),
        Key::Num2 => String::from_str("2"),
        Key::Num3 => String::from_str("3"),
        Key::Num4 => String::from_str("4"),
        Key::Num5 => String::from_str("5"),
        Key::Num6 => String::from_str("6"),
        Key::Num7 => String::from_str("7"),
        Key::Num8 => String::from_str("8"),
        Key::Num9 => String::from_str("9"),
        Key::Num0 => String::from_str("0"),
        Key::Minus => String::from_str("-"),
        Key::Equal => String::from_str("="),
        Key::KeyQ => String::from_str("Q"),
        Key::KeyW => String::from_str("W"),
        Key::KeyE => String::from_str("E"),
        Key::KeyR => String::from_str("R"),
        Key::KeyT => String::from_str("T"),
        Key::KeyY => String::from_str("Y"),
        Key::KeyU => String::from_str("U"),
        Key::KeyI => String::from_str("I"),
        Key::KeyO => String::from_str("O"),
        Key::KeyP => String::from_str("P"),
        Key::LeftBracket => String::from_str("["),
        Key::RightBracket => String::from_str("]"),
        Key::KeyA => String::from_str("A"),
        Key::KeyS => String::from_str("S"),
        Key::KeyD => String::from_str("D"),
        Key::KeyF => String::from_str("F"),
        Key::KeyG => String::from_str("G"),
        Key::KeyH => String::from_str("H"),
        Key::KeyJ => String::from_str("J"),
        Key::KeyK => String::from_str("K"),
        Key::KeyL => String::from_str("L"),
        Key::SemiColon => String::from_str(";"),
        Key::Quote => String::from_str("'"),
        Key::BackSlash => String::from_str("\\"),
        Key::IntlBackslash => String::from_str("IntlBackslash"),
        Key::KeyZ => String::from_str("Z"),
        Key::KeyX => String::from_str("X"),
        Key::KeyC => String::from_str("C"),
        Key::KeyV => String::from_str("V"),
        Key::KeyB => String::from_str("B"),
        Key::KeyN => String::from_str("N"),
        Key::KeyM => String::from_str("M"),
        Key::Comma => String::from_str(","),
        Key::Dot => String::from_str("."),
        Key::Slash => String::from_str("/"),
        Key::Insert => String::from_str("Insert"),
        Key::KpReturn => String::from_str("KpEnter"),
        Key::KpMinus => String::from_str("Kp-"),
        Key::KpPlus => String::from_str("Kp+"),
        Key::KpMultiply => String::from_str("Kp*"),
        Key::KpDivide => String::from_str("Kp/"),
        Key::Kp0 => String::from_str("Kp0"),
        Key::Kp1 => String::from_str("Kp1"),
        Key::Kp2 => String::from_str("Kp2"),
        Key::Kp3 => String::from_str("Kp3"),
        Key::Kp4 => String::from_str("Kp4"),
        Key::Kp5 => String::from_str("Kp5"),
        Key::Kp6 => String::from_str("Kp6"),
        Key::Kp7 => String::from_str("Kp7"),
        Key::Kp8 => String::from_str("Kp8"),
        Key::Kp9 => String::from_str("Kp9"),
        Key::KpDelete => String::from_str("KpDelete"),
        Key::Function => String::from_str("Function"),
        Key::Unknown(code) => {
            let mut name = String::from_str("Unknown(");
            push_decimal(&mut name, code as u64);
            name.append(")");
            name
        },
    }
}

/// A key that went down or up.
#[derive(Debug, Clone, PartialEq, Eq)]
pub struct KeyboardEvent {
    /// Milliseconds since the start of the recording.
    pub timestamp_ms: u64,
    pub key: String,
    /// `press` or `release`.
    pub event_type: String,
}

/// The totals of a recording's interactions.
#[derive(Debug, Clone, PartialEq, Eq)]
pub struct InteractionMetadata {
    /// When the recording started.
    pub started_at: String,
    pub total_mouse_moves: usize,
    pub total_mouse_clicks: usize,
    pub total_keyboard_events: usize,
}

/// The keyboard event for a key that went down or up.
pub fn keyboard_event(timestamp_ms: u64, key: Key, pressed: bool) -> (r: KeyboardEvent)
    ensures
        r.timestamp_ms == timestamp_ms,
        r.key@ == key.name(),
        r.event_type@ == if pressed {
            "press"@
        } else {
            "release"@
        },
{
    KeyboardEvent {
        timestamp_ms,
        key: format_key(key),
        event_type: if pressed {
            String::from_str("press")
        } else {
            String::from_str("release")
        },
    }
}

/// Decides which mouse movements are kept: every `sample_rate`-th one.
#[derive(Debug, Clone, Copy, PartialEq, Eq, Structural)]
pub struct MovementSampler {
    /// Movements seen so far.
    pub counter: usize,
    pub sample_rate: usize,
}

/// Of how many movements one is kept.
pub const MOVEMENT_SAMPLE_RATE: usize = 5;

impl MovementSampler {
    /// A sampler that keeps every fifth movement.
    pub fn new() -> (r: MovementSampler)
        ensures
            r.counter == 0,
            r.sample_rate == MOVEMENT_SAMPLE_RATE,
    {
        MovementSampler { counter: 0, sample_rate: MOVEMENT_SAMPLE_RATE }
    }

    /// Counts a movement and says whether it is kept.  The count starts
    /// over when it cannot grow any more.
    pub fn on_move(&mut self) -> (keep: bool)
        requires
            old(self).sample_rate > 0,
        ensures
            final(self).sample_rate == old(self).sample_rate,
            final(self).counter == if old(self).counter == usize::MAX {
                0
            } else {
                old(self).counter + 1
            },
            keep == (final(self).counter % final(self).sample_rate == 0),
    {
        if self.counter == usize::MAX {
            self.counter = 0;
        } else {
            self.counter = self.counter + 1;
        }
        self.counter % self.sample_rate == 0
    }
}

/// The number of texts in a list that equal `kind`.
pub open spec fn count_of(kinds: Seq<Seq<char>>, kind: Seq<char>) -> nat
    decreases kinds.len(),
{
    if kinds.len() == 0 {
        0
    } else {
        count_of(kinds.drop_last(), kind) + if kinds.last() == kind {
            1nat
        } else {
            0nat
        }
    }
}

/// The totals of a recording: the mouse events of type `move`, those of
/// type `click`, and the keyboard events.
pub fn interaction_totals(started_at: &str, mouse_event_types: &Vec<String>, keyboard_events: usize) -> (r:
    InteractionMetadata)
    ensures
        r.started_at@ == started_at@,
        r.total_mouse_moves == count_of(texts(mouse_event_types@), "move"@),
        r.total_mouse_clicks == count_of(texts(mouse_event_types@), "click"@),
        r.total_keyboard_events == keyboard_events,
{
    let ghost kinds = texts(mouse_event_types@);
    let mut moves: usize = 0;
    let mut clicks: usize = 0;
    let mut i: usize = 0;
    assert(kinds.take(0) =~= seq![]);
    while i < mouse_event_types.len()
        invariant
            i <= mouse_event_types@.len(),
            kinds == texts(mouse_event_types@),
            moves == count_of(kinds.take(i as int), "move"@),
            clicks == count_of(kinds.take(i as int), "click"@),
            moves <= i,
            clicks <= i,
        decreases mouse_event_types.len() - i,
    {
        proof {
            assert(kinds.take(i + 1).drop_last() =~= kinds.take(i as int));
            assert(kinds.take(i + 1).last() == mouse_event_types@[i as int]@);
        }
        if str_eq(mouse_event_types[i].as_str(), "move") {
            moves = moves + 1;
        }
        if str_eq(mouse_event_types[i].as_str(), "click") {
            clicks = clicks + 1;
        }
        i += 1;
    }
    assert(kinds.take(i as int) =~= kinds);
    InteractionMetadata {
        started_at: String::from_str(started_at),
        total_mouse_moves: moves,
        total_mouse_clicks: clicks,
        total_keyboard_events: keyboard_events,
    }
}

/// The process name and window title that are logged for the window in
/// front: the name `Unknown` stands for an empty or unobtainable process
/// name, the empty text for an unobtainable title.
pub fn active_window_labels(window: Option<(&str, &str)>) -> (r: (String, String))
    ensures
        window is None ==> r.0@ == "Unknown"@ && r.1@.len() == 0,
        window matches Some(w) ==> r.0@ == (if w.0@.len() == 0 {
            "Unknown"@
        } else {
            w.0@
        }) && r.1@ == w.1@,
{
    match window {
        None => (String::from_str("Unknown"), String::new()),
        Some((app_name, title)) => {
            let name = if app_name.unicode_len() == 0 {
                String::from_str("Unknown")
            } else {
                String::from_str(app_name)
            };
            (name, String::from_str(title))
        },
    }
}

/// A button of the mouse.
#[derive(Debug, Clone, Copy, PartialEq, Eq, Structural)]
pub enum MouseButton {
    Left,
    Right,
    Middle,
    /// A button that has no name, by its code.
    Unknown(u8),
}

impl MouseButton {
    /// The name under which a button is logged.
    pub open spec fn name(self) -> Seq<char> {
        match self {
            MouseButton::Left => "left"@,
            MouseButton::Right => "right"@,
            MouseButton::Middle => "middle"@,
            MouseButton::Unknown(code) => "unknown("@ + decimal(code as nat) + ")"@,
        }
    }
}

/// The name under which a button is logged.
pub fn button_name(button: MouseButton) -> (r: String)
    ensures
        r@ == button.name(),
{
    match button {
        MouseButton::Left => String::from_str("left"),
        MouseButton::Right => String::from_str("right"),
        MouseButton::Middle => String::from_str("middle"),
        MouseButton::Unknown(code) => {
            let mut name = String::from_str("unknown(");
            push_decimal(&mut name, code as u64);
            name.append(")");
            name
        },
    }
}

/// The type under which a turn of the wheel is collected: the word
/// `scroll` with the two distances.
pub fn scroll_label(delta_x: i64, delta_y: i64) -> (r: String)
    ensures
        r@ == "scroll("@ + signed_decimal(delta_x as int) + ", "@ + signed_decimal(delta_y as int)
            + ")"@,
{
    let mut label = String::from_str("scroll(");
    push_signed_decimal(&mut label, delta_x);
    label.append(", ");
    push_signed_decimal(&mut label, delta_y);
    label.append(")");
    label
}

} // verus!
