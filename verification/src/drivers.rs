//! Input device protocols: the decoding state machines of the PS/2
//! keyboard and mouse. The port reads and interrupt plumbing that feed them
//! bytes live at the unverified edge of the kernel.

pub mod ps2_keyboard;
pub mod ps2_mouse;
