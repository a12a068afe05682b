//! PS/2 mouse packet decoding.
//!
//! Mouse data arrives one byte per interrupt; three bytes make a packet
//! carrying the button states and the movement deltas. `MouseState` gathers
//! the bytes, decodes full packets into events and queues them. The port
//! reads live at the unverified edge of the kernel.

use vstd::prelude::*;

verus! {

/// How far the packet assembly has come.
#[derive(Debug, Clone, Copy, PartialEq, Eq)]
pub enum MouseDataState {
    Idle,
    First([u8; 1]),
    Second([u8; 2]),
}

/// A mouse button.
#[derive(Debug, Clone, Copy, PartialEq, Eq, Structural)]
pub enum MouseButton {
    Left,
    Right,
    Middle,
}

/// Whether a button is down.
#[derive(Debug, Clone, Copy, PartialEq, Eq, Structural)]
pub enum MouseButtonState {
    Pressed,
    Released,
}

/// The state of all three buttons, as one packet reports them.
#[derive(Debug, Clone, Copy, PartialEq, Eq, Structural)]
pub struct MouseButtons {
    pub left: MouseButtonState,
    pub right: MouseButtonState,
    pub middle: MouseButtonState,
}

/// One decoded mouse event: button states and signed movement deltas.
#[derive(Debug, Clone, Copy, PartialEq, Eq, Structural)]
pub struct MouseEvent {
    pub mouse_buttons: MouseButtons,
    pub x_offset: i16,
    pub y_offset: i16,
}

/// The button state a packet's flag bit reports.
pub open spec fn button_of(flags: u8, mask: u8) -> MouseButtonState {
    if flags & mask != 0 {
        MouseButtonState::Pressed
    } else {
        MouseButtonState::Released
    }
}

/// The event a completed packet `[flags, x, y]` decodes to. The deltas are
/// the sign-extended axis bytes; the packet's ninth movement bits are lost
/// to a flag shift that stays within eight bits before widening, so the
/// extracted overflow mask is always zero.
pub open spec fn packet_event(flags: u8, x: u8, y: u8) -> MouseEvent {
    MouseEvent {
        mouse_buttons: MouseButtons {
            left: button_of(flags, 0x01u8),
            right: button_of(flags, 0x02u8),
            middle: button_of(flags, 0x04u8),
        },
        x_offset: (x as i8 as i16 - (((flags << 4u8) as i16) & 0x100)) as i16,
        y_offset: (y as i8 as i16 - (((flags << 3u8) as i16) & 0x100)) as i16,
    }
}

/// What one data byte does to the packet assembly: the next assembly state
/// and the event a completed packet emits. An acknowledge byte (`0xFA`)
/// between packets is dropped.
pub open spec fn mouse_step(state: MouseDataState, byte: u8) -> (MouseDataState, Option<
    MouseEvent,
>) {
    match state {
        MouseDataState::Idle => if byte == 0xFAu8 {
            (MouseDataState::Idle, None::<MouseEvent>)
        } else {
            (MouseDataState::First([byte]), None::<MouseEvent>)
        },
        MouseDataState::First(first) => (
            MouseDataState::Second([first[0], byte]),
            None::<MouseEvent>,
        ),
        MouseDataState::Second(bytes) => (
            MouseDataState::Idle,
            Some(packet_event(bytes[0], bytes[1], byte)),
        ),
    }
}

/// The mouse decoder: the packet assembly state and the queue of decoded
/// events.
pub struct MouseState {
    pub mouse_events: std::collections::VecDeque<MouseEvent>,
    pub data_state: MouseDataState,
}

impl MouseState {
    /// A decoder with no partial packet and nothing queued.
    pub fn new() -> (result: Self)
        ensures
            result.data_state == MouseDataState::Idle,
            result.mouse_events@ == Seq::<MouseEvent>::empty(),
    {
        MouseState {
            mouse_events: std::collections::VecDeque::new(),
            data_state: MouseDataState::Idle,
        }
    }

    /// The oldest decoded event, if any.
    pub fn next_event(&mut self) -> (result: Option<MouseEvent>)
        ensures
            final(self).data_state == old(self).data_state,
            match result {
                Some(event) => old(self).mouse_events@.len() > 0 && event == old(
                    self,
                ).mouse_events@[0] && final(self).mouse_events@ == old(
                    self,
                ).mouse_events@.drop_first(),
                None => old(self).mouse_events@.len() == 0 && final(self).mouse_events@ == old(
                    self,
                ).mouse_events@,
            },
    {
        self.mouse_events.pop_front()
    }

    /// Feeds one data byte to the decoder.
    pub fn process_byte(&mut self, byte: u8)
        ensures
            final(self).data_state == mouse_step(old(self).data_state, byte).0,
            final(self).mouse_events@ == match mouse_step(old(self).data_state, byte).1 {
                Some(event) => old(self).mouse_events@.push(event),
                None => old(self).mouse_events@,
            },
    {
        self.data_state = match self.data_state {
            MouseDataState::Idle => {
                if byte == 0xFA {
                    MouseDataState::Idle
                } else {
                    MouseDataState::First([byte])
                }
            },
            MouseDataState::First(first) => MouseDataState::Second([first[0], byte]),
            MouseDataState::Second(bytes) => {
                let first = bytes[0];
                let x_axis = bytes[1] as i8 as i16;
                let y_axis = byte as i8 as i16;

                proof {
                    lemma_overflow_mask(first);
                }
                let x_offset = x_axis - (((first << 4u8) as i16) & 0x100);
                let y_offset = y_axis - (((first << 3u8) as i16) & 0x100);

                let mouse_buttons = MouseButtons {
                    left: if first & 0x01 != 0 {
                        MouseButtonState::Pressed
                    } else {
                        MouseButtonState::Released
                    },
                    right: if first & 0x02 != 0 {
                        MouseButtonState::Pressed
                    } else {
                        MouseButtonState::Released
                    },
                    middle: if first & 0x04 != 0 {
                        MouseButtonState::Pressed
                    } else {
                        MouseButtonState::Released
                    },
                };

                self.mouse_events.push_back(
                    MouseEvent { mouse_buttons, x_offset, y_offset },
                );

                MouseDataState::Idle
            },
        };
    }
}

/// The overflow-bit extraction shifts within eight bits before widening, so
/// the mask always comes out zero.
proof fn lemma_overflow_mask(flags: u8)
    ensures
        ((flags << 4u8) as i16) & 0x100 == 0,
        ((flags << 3u8) as i16) & 0x100 == 0,
{
    assert(((flags << 4u8) as i16) & 0x100 == 0 && ((flags << 3u8) as i16) & 0x100 == 0)
        by (bit_vector);
}

} // verus!
