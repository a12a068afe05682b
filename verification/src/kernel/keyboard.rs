//! The first-generation kernel's keyboard decoding: scancode set one, one
//! event per single-byte scancode, with multi-byte sequences recognized but
//! not yet decoded. The port reads and the event queue live at the
//! unverified edge.

use vstd::prelude::*;

verus! {

/// Left or right of a paired modifier key.
#[derive(Debug, Clone, Copy, PartialEq, Eq, Structural)]
pub enum Side {
    Left,
    Right,
}

/// A key of the numeric keypad.
#[derive(Debug, Clone, Copy, PartialEq, Eq, Structural)]
pub enum Keypad {
    Plus,
    Minus,
    Asterisk,
    Slash,
    Num1,
    Num2,
    Num3,
    Num4,
    Num5,
    Num6,
    Num7,
    Num8,
    Num9,
    Num0,
    Period,
}

/// A key, by its position in scancode set one.
#[derive(Debug, Clone, Copy, PartialEq, Eq, Structural)]
pub enum Keycode {
    Escape,
    Num1,
    Num2,
    Num3,
    Num4,
    Num5,
    Num6,
    Num7,
    Num8,
    Num9,
    Num0,
    Minus,
    Equals,
    Backspace,
    Tab,
    Q,
    W,
    E,
    R,
    T,
    Y,
    U,
    I,
    O,
    P,
    OpenSquareBracket,
    CloseSquareBracket,
    Enter,
    A,
    S,
    D,
    F,
    G,
    H,
    J,
    K,
    L,
    Semicolon,
    Quote,
    Backtick,
    Backslash,
    Z,
    X,
    C,
    V,
    B,
    N,
    M,
    Comma,
    Period,
    Slash,
    Space,
    F1,
    F2,
    F3,
    F4,
    F5,
    F6,
    F7,
    F8,
    F9,
    F10,
    F11,
    F12,
    CapsLock,
    NumberLock,
    ScrollLock,
    Keypad(Keypad),
    Control(Side),
    Shift(Side),
    Alt(Side),
    Unknown,
}

/// Whether the key went down or came up.
#[derive(Debug, Clone, Copy, PartialEq, Eq, Structural)]
pub enum Action {
    Pressed,
    Released,
}

/// One decoded keyboard event.
#[derive(Debug, Clone, Copy, PartialEq, Eq, Structural)]
pub struct KeyboardEvent {
    pub key: Keycode,
    pub action: Action,
}

/// The key a scancode byte in `0x01..=0xD8` names, by its low seven bits.
pub open spec fn keycode_of(code: u8) -> Keycode {
    match code {
        0x01u8 => Keycode::Escape,
        0x02u8 => Keycode::Num1,
        0x03u8 => Keycode::Num2,
        0x04u8 => Keycode::Num3,
        0x05u8 => Keycode::Num4,
        0x06u8 => Keycode::Num5,
        0x07u8 => Keycode::Num6,
        0x08u8 => Keycode::Num7,
        0x09u8 => Keycode::Num8,
        0x0Au8 => Keycode::Num9,
        0x0Bu8 => Keycode::Num0,
        0x0Cu8 => Keycode::Minus,
        0x0Du8 => Keycode::Equals,
        0x0Eu8 => Keycode::Backspace,
        0x0Fu8 => Keycode::Tab,
        0x10u8 => Keycode::Q,
        0x11u8 => Keycode::W,
        0x12u8 => Keycode::E,
        0x13u8 => Keycode::R,
        0x14u8 => Keycode::T,
        0x15u8 => Keycode::Y,
        0x16u8 => Keycode::U,
        0x17u8 => Keycode::I,
        0x18u8 => Keycode::O,
        0x19u8 => Keycode::P,
        0x1Au8 => Keycode::OpenSquareBracket,
        0x1Bu8 => Keycode::CloseSquareBracket,
        0x1Cu8 => Keycode::Enter,
        0x1Du8 => Keycode::Control(Side::Left),
        0x1Eu8 => Keycode::A,
        0x1Fu8 => Keycode::S,
        0x20u8 => Keycode::D,
        0x21u8 => Keycode::F,
        0x22u8 => Keycode::G,
        0x23u8 => Keycode::H,
        0x24u8 => Keycode::J,
        0x25u8 => Keycode::K,
        0x26u8 => Keycode::L,
        0x27u8 => Keycode::Semicolon,
        0x28u8 => Keycode::Quote,
        0x29u8 => Keycode::Backtick,
        0x2Au8 => Keycode::Shift(Side::Left),
        0x2Bu8 => Keycode::Backslash,
        0x2Cu8 => Keycode::Z,
        0x2Du8 => Keycode::X,
        0x2Eu8 => Keycode::C,
        0x2Fu8 => Keycode::V,
        0x30u8 => Keycode::B,
        0x31u8 => Keycode::N,
        0x32u8 => Keycode::M,
        0x33u8 => Keycode::Comma,
        0x34u8 => Keycode::Period,
        0x35u8 => Keycode::Slash,
        0x36u8 => Keycode::Shift(Side::Right),
        0x37u8 => Keycode::Keypad(Keypad::Asterisk),
        0x38u8 => Keycode::Alt(Side::Left),
        0x39u8 => Keycode::Space,
        0x3Bu8 => Keycode::F1,
        0x3Cu8 => Keycode::F2,
        0x3Du8 => Keycode::F3,
        0x3Eu8 => Keycode::F4,
        0x3Fu8 => Keycode::F5,
        0x40u8 => Keycode::F6,
        0x41u8 => Keycode::F7,
        0x42u8 => Keycode::F8,
        0x43u8 => Keycode::F9,
        0x44u8 => Keycode::F10,
        0x57u8 => Keycode::F11,
        0x58u8 => Keycode::F12,
        0x3Au8 => Keycode::CapsLock,
        0x45u8 => Keycode::NumberLock,
        0x46u8 => Keycode::ScrollLock,
        0x47u8 => Keycode::Keypad(Keypad::Num7),
        0x48u8 => Keycode::Keypad(Keypad::Num8),
        0x49u8 => Keycode::Keypad(Keypad::Num9),
        0x4Au8 => Keycode::Keypad(Keypad::Minus),
        0x4Bu8 => Keycode::Keypad(Keypad::Num4),
        0x4Cu8 => Keycode::Keypad(Keypad::Num5),
        0x4Du8 => Keycode::Keypad(Keypad::Num6),
        0x4Eu8 => Keycode::Keypad(Keypad::Plus),
        0x4Fu8 => Keycode::Keypad(Keypad::Num1),
        0x50u8 => Keycode::Keypad(Keypad::Num2),
        0x51u8 => Keycode::Keypad(Keypad::Num3),
        0x52u8 => Keycode::Keypad(Keypad::Num0),
        0x53u8 => Keycode::Keypad(Keypad::Period),
        _ => Keycode::Unknown,
    }
}

/// Decodes a scancode byte: bytes in `0x01..=0xD8` name a key by their low
/// seven bits, anything else is no key.
pub fn byte_to_keycode(byte: u8) -> (result: Option<Keycode>)
    ensures
        result == if 0x01 <= byte <= 0xD8 {
            Some(keycode_of((byte & 0x7Fu8) as u8))
        } else {
            None::<Keycode>
        },
{
    if 0x01 <= byte && byte <= 0xD8 {
        Some(
            match byte & 0b0111_1111 {
                0x01 => Keycode::Escape,
                0x02 => Keycode::Num1,
                0x03 => Keycode::Num2,
                0x04 => Keycode::Num3,
                0x05 => Keycode::Num4,
                0x06 => Keycode::Num5,
                0x07 => Keycode::Num6,
                0x08 => Keycode::Num7,
                0x09 => Keycode::Num8,
                0x0A => Keycode::Num9,
                0x0B => Keycode::Num0,
                0x0C => Keycode::Minus,
                0x0D => Keycode::Equals,
                0x0E => Keycode::Backspace,
                0x0F => Keycode::Tab,
                0x10 => Keycode::Q,
                0x11 => Keycode::W,
                0x12 => Keycode::E,
                0x13 => Keycode::R,
                0x14 => Keycode::T,
                0x15 => Keycode::Y,
                0x16 => Keycode::U,
                0x17 => Keycode::I,
                0x18 => Keycode::O,
                0x19 => Keycode::P,
                0x1A => Keycode::OpenSquareBracket,
                0x1B => Keycode::CloseSquareBracket,
                0x1C => Keycode::Enter,
                0x1D => Keycode::Control(Side::Left),
                0x1E => Keycode::A,
                0x1F => Keycode::S,
                0x20 => Keycode::D,
                0x21 => Keycode::F,
                0x22 => Keycode::G,
                0x23 => Keycode::H,
                0x24 => Keycode::J,
                0x25 => Keycode::K,
                0x26 => Keycode::L,
                0x27 => Keycode::Semicolon,
                0x28 => Keycode::Quote,
                0x29 => Keycode::Backtick,
                0x2A => Keycode::Shift(Side::Left),
                0x2B => Keycode::Backslash,
                0x2C => Keycode::Z,
                0x2D => Keycode::X,
                0x2E => Keycode::C,
                0x2F => Keycode::V,
                0x30 => Keycode::B,
                0x31 => Keycode::N,
                0x32 => Keycode::M,
                0x33 => Keycode::Comma,
                0x34 => Keycode::Period,
                0x35 => Keycode::Slash,
                0x36 => Keycode::Shift(Side::Right),
                0x37 => Keycode::Keypad(Keypad::Asterisk),
                0x38 => Keycode::Alt(Side::Left),
                0x39 => Keycode::Space,
                0x3B => Keycode::F1,
                0x3C => Keycode::F2,
                0x3D => Keycode::F3,
                0x3E => Keycode::F4,
                0x3F => Keycode::F5,
                0x40 => Keycode::F6,
                0x41 => Keycode::F7,
                0x42 => Keycode::F8,
                0x43 => Keycode::F9,
                0x44 => Keycode::F10,
                0x57 => Keycode::F11,
                0x58 => Keycode::F12,
                0x3A => Keycode::CapsLock,
                0x45 => Keycode::NumberLock,
                0x46 => Keycode::ScrollLock,
                0x47 => Keycode::Keypad(Keypad::Num7),
                0x48 => Keycode::Keypad(Keypad::Num8),
                0x49 => Keycode::Keypad(Keypad::Num9),
                0x4A => Keycode::Keypad(Keypad::Minus),
                0x4B => Keycode::Keypad(Keypad::Num4),
                0x4C => Keycode::Keypad(Keypad::Num5),
                0x4D => Keycode::Keypad(Keypad::Num6),
                0x4E => Keycode::Keypad(Keypad::Plus),
                0x4F => Keycode::Keypad(Keypad::Num1),
                0x50 => Keycode::Keypad(Keypad::Num2),
                0x51 => Keycode::Keypad(Keypad::Num3),
                0x52 => Keycode::Keypad(Keypad::Num0),
                0x53 => Keycode::Keypad(Keypad::Period),
                _ => Keycode::Unknown,
            },
        )
    } else {
        None
    }
}

/// The decoder between interrupts: idle, or holding the introducer byte of
/// a multi-byte sequence.
#[derive(Debug, Clone, Copy, PartialEq, Eq, Structural)]
pub enum State {
    Idle,
    FirstByteOfMultibyteScancode(u8),
}

impl State {
    /// The held introducer can only be one of the two multi-byte markers.
    pub open spec fn wf(self) -> bool {
        match self {
            State::Idle => true,
            State::FirstByteOfMultibyteScancode(byte) => byte == 0xE0u8 || byte == 0xE1u8,
        }
    }
}

/// One interrupt's worth of decoding: a byte naming a key emits its event
/// and returns to idle; a multi-byte marker is held; any other byte while a
/// marker is held has no decoding yet, so such inputs are excluded.
pub fn keyboard_step(state: State, byte: u8) -> (result: (State, Option<KeyboardEvent>))
    requires
        state.wf(),
        state is FirstByteOfMultibyteScancode ==> (0x01 <= byte <= 0xD8 || byte == 0xE0 || byte
            == 0xE1),
    ensures
        result.0.wf(),
        result == if 0x01 <= byte <= 0xD8 {
            (
                State::Idle,
                Some(
                    KeyboardEvent {
                        key: keycode_of((byte & 0x7Fu8) as u8),
                        action: if byte & 0x80u8 == 0 {
                            Action::Pressed
                        } else {
                            Action::Released
                        },
                    },
                ),
            )
        } else if byte == 0xE0 || byte == 0xE1 {
            (State::FirstByteOfMultibyteScancode(byte), None::<KeyboardEvent>)
        } else {
            (State::Idle, None::<KeyboardEvent>)
        },
{
    match byte_to_keycode(byte) {
        Some(key) => {
            let action = if (byte & 0b1000_0000) == 0 {
                Action::Pressed
            } else {
                Action::Released
            };
            (State::Idle, Some(KeyboardEvent { key, action }))
        },
        None => {
            if byte == 0xE0 || byte == 0xE1 {
                (State::FirstByteOfMultibyteScancode(byte), None)
            } else {
                (State::Idle, None)
            }
        },
    }
}

} // verus!
