//! Data structures of the first-generation kernel image: its firmware
//! bindings, descriptor tables, framebuffer description and keyboard
//! decoder.

pub mod efi;
pub mod framebuffer;
pub mod gdt;
pub mod idt;
pub mod keyboard;
