//! PS/2 keyboard scancode decoding.
//!
//! The interrupt handler at the unverified edge of the kernel reads one
//! scancode byte per interrupt and feeds it to `KeyboardState`, which
//! buffers the bytes of multi-byte sequences (introduced by `0xE0` or
//! `0xE1`), decodes complete sequences into key events, and queues them for
//! the kernel's event loop.

use vstd::prelude::*;

verus! {

/// A key, by its position in scancode set one; sequences the table does not
/// know are preserved as raw bytes.
#[derive(Debug, Clone, PartialEq, Eq)]
pub enum Key {
    Escape,
    Num1,
    Num2,
    Num3,
    Num4,
    Num5,
    Num6,
    Num7,
    Num8,
    Num9,
    Num0,
    Minus,
    Equals,
    Backspace,
    Tab,
    Q,
    W,
    E,
    R,
    T,
    Y,
    U,
    I,
    O,
    P,
    OpenBracket,
    CloseBracket,
    Enter,
    LeftControl,
    A,
    S,
    D,
    F,
    G,
    H,
    J,
    K,
    L,
    Semicolon,
    Quote,
    Backtick,
    LeftShift,
    Backslash,
    Z,
    X,
    C,
    V,
    B,
    N,
    M,
    Comma,
    Period,
    Slash,
    RightShift,
    KeypadMultiply,
    LeftAlt,
    Space,
    CapsLock,
    F1,
    F2,
    F3,
    F4,
    F5,
    F6,
    F7,
    F8,
    F9,
    F10,
    NumberLock,
    ScrollLock,
    Keypad7,
    Keypad8,
    Keypad9,
    KeypadMinus,
    Keypad4,
    Keypad5,
    Keypad6,
    KeypadPlus,
    Keypad1,
    Keypad2,
    Keypad3,
    Keypad0,
    KeypadPeriod,
    F11,
    F12,
    PreviousTrack,
    NextTrack,
    KeypadEnter,
    RightControl,
    Mute,
    Calculator,
    Play,
    Stop,
    VolumeDown,
    VolumeUp,
    WWWHome,
    KeypadSlash,
    RightAlt,
    Home,
    CursorUp,
    PageUp,
    CursorLeft,
    CursorRight,
    End,
    CursorDown,
    PageDown,
    Insert,
    Delete,
    LeftGUI,
    RightGUI,
    Apps,
    Power,
    Sleep,
    Wake,
    WWWSearch,
    WWWFavorites,
    WWWRefresh,
    WWWStop,
    WWWForward,
    WWWBack,
    MyComputer,
    Email,
    MediaSelect,
    Unknown1([u8; 1]),
    Unknown2([u8; 2]),
    Unknown3([u8; 3]),
}

/// Whether the key went down or came up.
#[derive(Debug, Clone, Copy, PartialEq, Eq, Structural)]
pub enum KeyState {
    Pressed,
    Released,
}

/// One decoded keyboard event.
#[derive(Debug, Clone, PartialEq, Eq)]
pub struct KeyEvent {
    pub key: Key,
    pub state: KeyState,
}

/// The key of a single-byte scancode, by its low seven bits.
pub open spec fn single_key(code: u8, raw: u8) -> Key {
    match code {
        0x01u8 => Key::Escape,
        0x02u8 => Key::Num1,
        0x03u8 => Key::Num2,
        0x04u8 => Key::Num3,
        0x05u8 => Key::Num4,
        0x06u8 => Key::Num5,
        0x07u8 => Key::Num6,
        0x08u8 => Key::Num7,
        0x09u8 => Key::Num8,
        0x0Au8 => Key::Num9,
        0x0Bu8 => Key::Num0,
        0x0Cu8 => Key::Minus,
        0x0Du8 => Key::Equals,
        0x0Eu8 => Key::Backspace,
        0x0Fu8 => Key::Tab,
        0x10u8 => Key::Q,
        0x11u8 => Key::W,
        0x12u8 => Key::E,
        0x13u8 => Key::R,
        0x14u8 => Key::T,
        0x15u8 => Key::Y,
        0x16u8 => Key::U,
        0x17u8 => Key::I,
        0x18u8 => Key::O,
        0x19u8 => Key::P,
        0x1Au8 => Key::OpenBracket,
        0x1Bu8 => Key::CloseBracket,
        0x1Cu8 => Key::Enter,
        0x1Du8 => Key::LeftControl,
        0x1Eu8 => Key::A,
        0x1Fu8 => Key::S,
        0x20u8 => Key::D,
        0x21u8 => Key::F,
        0x22u8 => Key::G,
        0x23u8 => Key::H,
        0x24u8 => Key::J,
        0x25u8 => Key::K,
        0x26u8 => Key::L,
        0x27u8 => Key::Semicolon,
        0x28u8 => Key::Quote,
        0x29u8 => Key::Backtick,
        0x2Au8 => Key::LeftShift,
        0x2Bu8 => Key::Backslash,
        0x2Cu8 => Key::Z,
        0x2Du8 => Key::X,
        0x2Eu8 => Key::C,
        0x2Fu8 => Key::V,
        0x30u8 => Key::B,
        0x31u8 => Key::N,
        0x32u8 => Key::M,
        0x33u8 => Key::Comma,
        0x34u8 => Key::Period,
        0x35u8 => Key::Slash,
        0x36u8 => Key::RightShift,
        0x37u8 => Key::KeypadMultiply,
        0x38u8 => Key::LeftAlt,
        0x39u8 => Key::Space,
        0x3Au8 => Key::CapsLock,
        0x3Bu8 => Key::F1,
        0x3Cu8 => Key::F2,
        0x3Du8 => Key::F3,
        0x3Eu8 => Key::F4,
        0x3Fu8 => Key::F5,
        0x40u8 => Key::F6,
        0x41u8 => Key::F7,
        0x42u8 => Key::F8,
        0x43u8 => Key::F9,
        0x44u8 => Key::F10,
        0x45u8 => Key::NumberLock,
        0x46u8 => Key::ScrollLock,
        0x47u8 => Key::Keypad7,
        0x48u8 => Key::Keypad8,
        0x49u8 => Key::Keypad9,
        0x4Au8 => Key::KeypadMinus,
        0x4Bu8 => Key::Keypad4,
        0x4Cu8 => Key::Keypad5,
        0x4Du8 => Key::Keypad6,
        0x4Eu8 => Key::KeypadPlus,
        0x4Fu8 => Key::Keypad1,
        0x50u8 => Key::Keypad2,
        0x51u8 => Key::Keypad3,
        0x52u8 => Key::Keypad0,
        0x53u8 => Key::KeypadPeriod,
        0x57u8 => Key::F11,
        0x58u8 => Key::F12,
        _ => Key::Unknown1([raw]),
    }
}

/// The key of a two-byte `0xE0` sequence, by the second byte's low seven
/// bits.
pub open spec fn extended_key(code: u8, raw0: u8, raw1: u8) -> Key {
    match code {
        0x10u8 => Key::PreviousTrack,
        0x19u8 => Key::NextTrack,
        0x1Cu8 => Key::Enter,
        0x1Du8 => Key::RightControl,
        0x20u8 => Key::Mute,
        0x21u8 => Key::Calculator,
        0x22u8 => Key::Play,
        0x24u8 => Key::Stop,
        0x2Eu8 => Key::VolumeDown,
        0x30u8 => Key::VolumeUp,
        0x32u8 => Key::WWWHome,
        0x35u8 => Key::KeypadSlash,
        0x38u8 => Key::RightAlt,
        0x47u8 => Key::Home,
        0x48u8 => Key::CursorUp,
        0x49u8 => Key::PageUp,
        0x4Bu8 => Key::CursorLeft,
        0x4Du8 => Key::CursorRight,
        0x4Fu8 => Key::End,
        0x50u8 => Key::CursorDown,
        0x51u8 => Key::PageDown,
        0x52u8 => Key::Insert,
        0x53u8 => Key::Delete,
        0x5Bu8 => Key::LeftGUI,
        0x5Cu8 => Key::RightGUI,
        0x5Du8 => Key::Apps,
        0x5Eu8 => Key::Power,
        0x5Fu8 => Key::Sleep,
        0x63u8 => Key::Wake,
        0x65u8 => Key::WWWSearch,
        0x66u8 => Key::WWWFavorites,
        0x67u8 => Key::WWWRefresh,
        0x68u8 => Key::WWWStop,
        0x69u8 => Key::WWWForward,
        0x6Au8 => Key::WWWBack,
        0x6Bu8 => Key::MyComputer,
        0x6Cu8 => Key::Email,
        0x6Du8 => Key::MediaSelect,
        _ => Key::Unknown2([raw0, raw1]),
    }
}

/// Press or release, from a scancode's high bit.
pub open spec fn state_of(byte: u8) -> KeyState {
    if byte & 0x80u8 == 0 {
        KeyState::Pressed
    } else {
        KeyState::Released
    }
}

/// The decoder type held inside `KeyboardState`: a fixed four-byte vector
/// from the outside collection library.
#[verifier::external_type_specification]
#[verifier::external_body]
#[verifier::reject_recursive_types(T)]
pub struct ExArrayVec<T, const CAP: usize>(arrayvec::ArrayVec<T, CAP>);

/// The bytes a scancode buffer currently holds, in arrival order.
pub uninterp spec fn scan_buffer(buffer: arrayvec::ArrayVec<u8, 4>) -> Seq<u8>;

/// Relies on arrayvec::ArrayVec::new: a fresh vector holds no elements.
#[verifier::external_body]
fn scan_buffer_new() -> (buffer: arrayvec::ArrayVec<u8, 4>)
    ensures
        scan_buffer(buffer) == Seq::<u8>::empty(),
{
    arrayvec::ArrayVec::new()
}

/// Relies on arrayvec::ArrayVec::push: appends the element at the end; it
/// panics when the vector is full, which the precondition rules out.
#[verifier::external_body]
fn scan_buffer_push(buffer: &mut arrayvec::ArrayVec<u8, 4>, byte: u8)
    requires
        scan_buffer(*old(buffer)).len() < 4,
    ensures
        scan_buffer(*final(buffer)) == scan_buffer(*old(buffer)).push(byte),
{
    buffer.push(byte)
}

/// Relies on arrayvec::ArrayVec::len: the number of elements held.
#[verifier::external_body]
fn scan_buffer_len(buffer: &arrayvec::ArrayVec<u8, 4>) -> (len: usize)
    ensures
        len == scan_buffer(*buffer).len(),
{
    buffer.len()
}

/// Relies on the arrayvec index operator: the element at `index`.
#[verifier::external_body]
fn scan_buffer_get(buffer: &arrayvec::ArrayVec<u8, 4>, index: usize) -> (byte: u8)
    requires
        index < scan_buffer(*buffer).len(),
    ensures
        byte == scan_buffer(*buffer)[index as int],
{
    buffer[index]
}

/// Relies on arrayvec::ArrayVec::take and as_slice: hands the held bytes
/// out and leaves the vector empty.
#[verifier::external_body]
fn scan_buffer_take(buffer: &mut arrayvec::ArrayVec<u8, 4>) -> (bytes: Vec<u8>)
    ensures
        bytes@ == scan_buffer(*old(buffer)),
        scan_buffer(*final(buffer)) == Seq::<u8>::empty(),
{
    buffer.take().as_slice().to_vec()
}

/// What one scancode byte does to the decoder: the new buffer contents and
/// the event a completed sequence emits. An acknowledge byte (`0xFA`) is
/// dropped; a buffer led by `0xE0` waits for two bytes, one led by `0xE1`
/// for three, and anything else decodes immediately.
pub open spec fn scancode_step(buffer: Seq<u8>, scancode: u8) -> (Seq<u8>, Option<KeyEvent>) {
    if scancode == 0xFAu8 {
        (buffer, None::<KeyEvent>)
    } else {
        let b = buffer.push(scancode);
        if b[0] == 0xE0u8 {
            if b.len() >= 2 {
                (
                    Seq::<u8>::empty(),
                    Some(
                        KeyEvent {
                            key: extended_key((b[1] & 0x7Fu8) as u8, b[0], b[1]),
                            state: state_of(b[1]),
                        },
                    ),
                )
            } else {
                (b, None::<KeyEvent>)
            }
        } else if b[0] == 0xE1u8 {
            if b.len() >= 3 {
                (
                    Seq::<u8>::empty(),
                    Some(KeyEvent { key: Key::Unknown3([b[0], b[1], b[2]]), state: state_of(b[1]) }),
                )
            } else {
                (b, None::<KeyEvent>)
            }
        } else {
            (
                Seq::<u8>::empty(),
                Some(
                    KeyEvent { key: single_key((b[0] & 0x7Fu8) as u8, b[0]), state: state_of(b[0]) },
                ),
            )
        }
    }
}

/// The keyboard decoder: buffered bytes of an unfinished sequence and the
/// queue of decoded events.
pub struct KeyboardState {
    pub key_events: std::collections::VecDeque<KeyEvent>,
    pub bytes: arrayvec::ArrayVec<u8, 4>,
}

impl KeyboardState {
    /// The buffer only ever holds an unfinished sequence: nothing, a lone
    /// `0xE0`, or an `0xE1` with at most one more byte.
    pub open spec fn wf(&self) -> bool {
        let b = scan_buffer(self.bytes);
        ||| b.len() == 0
        ||| (b[0] == 0xE0u8 && b.len() == 1)
        ||| (b[0] == 0xE1u8 && 1 <= b.len() <= 2)
    }

    /// A decoder with nothing buffered and nothing queued.
    pub fn new() -> (result: Self)
        ensures
            result.wf(),
            scan_buffer(result.bytes) == Seq::<u8>::empty(),
            result.key_events@ == Seq::<KeyEvent>::empty(),
    {
        KeyboardState {
            key_events: std::collections::VecDeque::new(),
            bytes: scan_buffer_new(),
        }
    }

    /// The oldest decoded event, if any.
    pub fn next_event(&mut self) -> (result: Option<KeyEvent>)
        ensures
            final(self).bytes == old(self).bytes,
            match result {
                Some(event) => old(self).key_events@.len() > 0 && event == old(
                    self,
                ).key_events@[0] && final(self).key_events@ == old(self).key_events@.drop_first(),
                None => old(self).key_events@.len() == 0 && final(self).key_events@ == old(
                    self,
                ).key_events@,
            },
    {
        self.key_events.pop_front()
    }

    /// Feeds one scancode byte to the decoder.
    pub fn process_scancode(&mut self, scancode: u8)
        requires
            old(self).wf(),
        ensures
            final(self).wf(),
            scan_buffer(final(self).bytes) == scancode_step(
                scan_buffer(old(self).bytes),
                scancode,
            ).0,
            final(self).key_events@ == match scancode_step(
                scan_buffer(old(self).bytes),
                scancode,
            ).1 {
                Some(event) => old(self).key_events@.push(event),
                None => old(self).key_events@,
            },
    {
        if scancode == 0xFA {
            // just an acknowledge byte
            return ;
        }
        scan_buffer_push(&mut self.bytes, scancode);
        let first = scan_buffer_get(&self.bytes, 0);
        if first == 0xE0 {
            if scan_buffer_len(&self.bytes) >= 2 {
                let taken = scan_buffer_take(&mut self.bytes);
                let state = if taken[1] & 0x80 == 0 {
                    KeyState::Pressed
                } else {
                    KeyState::Released
                };
                let key = match taken[1] & 0x7F {
                    0x10 => Key::PreviousTrack,
                    0x19 => Key::NextTrack,
                    0x1C => Key::Enter,
                    0x1D => Key::RightControl,
                    0x20 => Key::Mute,
                    0x21 => Key::Calculator,
                    0x22 => Key::Play,
                    0x24 => Key::Stop,
                    0x2E => Key::VolumeDown,
                    0x30 => Key::VolumeUp,
                    0x32 => Key::WWWHome,
                    0x35 => Key::KeypadSlash,
                    0x38 => Key::RightAlt,
                    0x47 => Key::Home,
                    0x48 => Key::CursorUp,
                    0x49 => Key::PageUp,
                    0x4B => Key::CursorLeft,
                    0x4D => Key::CursorRight,
                    0x4F => Key::End,
                    0x50 => Key::CursorDown,
                    0x51 => Key::PageDown,
                    0x52 => Key::Insert,
                    0x53 => Key::Delete,
                    0x5B => Key::LeftGUI,
                    0x5C => Key::RightGUI,
                    0x5D => Key::Apps,
                    0x5E => Key::Power,
                    0x5F => Key::Sleep,
                    0x63 => Key::Wake,
                    0x65 => Key::WWWSearch,
                    0x66 => Key::WWWFavorites,
                    0x67 => Key::WWWRefresh,
                    0x68 => Key::WWWStop,
                    0x69 => Key::WWWForward,
                    0x6A => Key::WWWBack,
                    0x6B => Key::MyComputer,
                    0x6C => Key::Email,
                    0x6D => Key::MediaSelect,
                    _ => Key::Unknown2([taken[0], taken[1]]),
                };
                self.key_events.push_back(KeyEvent { key, state });
            }
        } else if first == 0xE1 {
            if scan_buffer_len(&self.bytes) >= 3 {
                let taken = scan_buffer_take(&mut self.bytes);
                let state = if taken[1] & 0x80 == 0 {
                    KeyState::Pressed
                } else {
                    KeyState::Released
                };
                self.key_events.push_back(
                    KeyEvent { key: Key::Unknown3([taken[0], taken[1], taken[2]]), state },
                );
            }
        } else {
            let taken = scan_buffer_take(&mut self.bytes);
            let state = if taken[0] & 0x80 == 0 {
                KeyState::Pressed
            } else {
                KeyState::Released
            };
            let key = match taken[0] & 0x7F {
                0x01 => Key::Escape,
                0x02 => Key::Num1,
                0x03 => Key::Num2,
                0x04 => Key::Num3,
                0x05 => Key::Num4,
                0x06 => Key::Num5,
                0x07 => Key::Num6,
                0x08 => Key::Num7,
                0x09 => Key::Num8,
                0x0A => Key::Num9,
                0x0B => Key::Num0,
                0x0C => Key::Minus,
                0x0D => Key::Equals,
                0x0E => Key::Backspace,
                0x0F => Key::Tab,
                0x10 => Key::Q,
                0x11 => Key::W,
                0x12 => Key::E,
                0x13 => Key::R,
                0x14 => Key::T,
                0x15 => Key::Y,
                0x16 => Key::U,
                0x17 => Key::I,
                0x18 => Key::O,
                0x19 => Key::P,
                0x1A => Key::OpenBracket,
                0x1B => Key::CloseBracket,
                0x1C => Key::Enter,
                0x1D => Key::LeftControl,
                0x1E => Key::A,
                0x1F => Key::S,
                0x20 => Key::D,
                0x21 => Key::F,
                0x22 => Key::G,
                0x23 => Key::H,
                0x24 => Key::J,
                0x25 => Key::K,
                0x26 => Key::L,
                0x27 => Key::Semicolon,
                0x28 => Key::Quote,
                0x29 => Key::Backtick,
                0x2A => Key::LeftShift,
                0x2B => Key::Backslash,
                0x2C => Key::Z,
                0x2D => Key::X,
                0x2E => Key::C,
                0x2F => Key::V,
                0x30 => Key::B,
                0x31 => Key::N,
                0x32 => Key::M,
                0x33 => Key::Comma,
                0x34 => Key::Period,
                0x35 => Key::Slash,
                0x36 => Key::RightShift,
                0x37 => Key::KeypadMultiply,
                0x38 => Key::LeftAlt,
                0x39 => Key::Space,
                0x3A => Key::CapsLock,
                0x3B => Key::F1,
                0x3C => Key::F2,
                0x3D => Key::F3,
                0x3E => Key::F4,
                0x3F => Key::F5,
                0x40 => Key::F6,
                0x41 => Key::F7,
                0x42 => Key::F8,
                0x43 => Key::F9,
                0x44 => Key::F10,
                0x45 => Key::NumberLock,
                0x46 => Key::ScrollLock,
                0x47 => Key::Keypad7,
                0x48 => Key::Keypad8,
                0x49 => Key::Keypad9,
                0x4A => Key::KeypadMinus,
                0x4B => Key::Keypad4,
                0x4C => Key::Keypad5,
                0x4D => Key::Keypad6,
                0x4E => Key::KeypadPlus,
                0x4F => Key::Keypad1,
                0x50 => Key::Keypad2,
                0x51 => Key::Keypad3,
                0x52 => Key::Keypad0,
                0x53 => Key::KeypadPeriod,
                0x57 => Key::F11,
                0x58 => Key::F12,
                _ => Key::Unknown1([taken[0]]),
            };
            self.key_events.push_back(KeyEvent { key, state });
        }
    }
}

} // verus!
