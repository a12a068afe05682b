//! Interrupt descriptor table entries.
//!
//! An interrupt gate splits its handler address across three fields of a
//! packed table entry. The entry layout and the splitting arithmetic are
//! verified; loading the table into the processor and the handlers
//! themselves live at the unverified edge of the kernel.

use vstd::prelude::*;

verus! {

/// One gate of the interrupt descriptor table.
#[derive(Debug, Clone, Copy, PartialEq, Eq, Structural)]
pub struct Entry {
    pub offset0: u16,
    pub selector: u16,
    pub ist: u8,
    pub types_attributes: u8,
    pub offset1: u16,
    pub offset2: u32,
    pub reserved: u32,
}

/// How the processor should treat the entry: interrupts stay masked while
/// an interrupt handler runs and stay unmasked inside a trap handler.
#[derive(Debug, Clone, Copy, PartialEq, Eq, Structural)]
pub enum InterruptType {
    Interrupt,
    Trap,
}

/// The whole table: one gate per vector.
pub struct Idt {
    pub entries: [Entry; 256],
}

/// What the processor pushes for an interrupt handler.
#[derive(Debug, Clone, Copy, PartialEq, Eq, Structural)]
pub struct InterruptStackFrame {
    pub ip: usize,
    pub cs: usize,
    pub flags: usize,
    pub sp: usize,
    pub ss: usize,
}

/// The three offset fields encode the handler address in base 2^16: the low
/// word, the next word, and the high double word.
proof fn lemma_offset_split(offset: u64)
    ensures
        (offset & 0xFFFF) == offset % 0x10000,
        ((offset & 0xFFFF_0000) >> 16u64) == (offset / 0x10000) % 0x10000,
        ((offset & 0xFFFF_FFFF_0000_0000) >> 32u64) == offset / 0x1_0000_0000,
        (offset & 0xFFFF) < 0x10000,
        ((offset & 0xFFFF_0000) >> 16u64) < 0x10000,
{
    assert((offset & 0xFFFF) == offset % 0x10000 && ((offset & 0xFFFF_0000) >> 16u64) == (offset
        / 0x10000) % 0x10000 && ((offset & 0xFFFF_FFFF_0000_0000) >> 32u64) == offset
        / 0x1_0000_0000 && (offset & 0xFFFF) < 0x10000 && ((offset & 0xFFFF_0000) >> 16u64)
        < 0x10000) by (bit_vector);
}

impl Entry {
    /// Splits a handler address across the entry's three offset fields.
    pub fn set_offset(&mut self, offset: usize)
        ensures
            final(self).offset0 == (offset as int) % 0x10000,
            final(self).offset1 == ((offset as int) / 0x10000) % 0x10000,
            final(self).offset2 == (offset as int) / 0x1_0000_0000,
            final(self).selector == old(self).selector,
            final(self).ist == old(self).ist,
            final(self).types_attributes == old(self).types_attributes,
            final(self).reserved == old(self).reserved,
    {
        let wide = offset as u64;
        proof {
            lemma_offset_split(wide);
            assert(wide / 0x1_0000_0000 <= 0xFFFF_FFFF) by (bit_vector);
        }
        self.offset0 = (wide & 0xFFFF) as u16;
        self.offset1 = ((wide & 0xFFFF_0000) >> 16u64) as u16;
        self.offset2 = ((wide & 0xFFFF_FFFF_0000_0000) >> 32u64) as u32;
    }

    /// Points the entry at a handler address: the offset fields take the
    /// split address, the selector picks the kernel code segment (the
    /// second eight-byte entry of the global descriptor table), and the
    /// type bits select interrupt or trap behavior.
    pub fn set_handler_(&mut self, handler: usize, interrupt_type: InterruptType)
        ensures
            final(self).offset0 == (handler as int) % 0x10000,
            final(self).offset1 == ((handler as int) / 0x10000) % 0x10000,
            final(self).offset2 == (handler as int) / 0x1_0000_0000,
            final(self).selector == 8,
            final(self).ist == 0,
            final(self).types_attributes == match interrupt_type {
                InterruptType::Interrupt => 0b1000_1110u8,
                InterruptType::Trap => 0b1000_1111u8,
            },
            final(self).reserved == old(self).reserved,
    {
        self.set_offset(handler);
        self.selector = 8;
        self.ist = 0;
        self.types_attributes = match interrupt_type {
            InterruptType::Interrupt => 0b1000_1110,
            InterruptType::Trap => 0b1000_1111,
        };
    }
}

} // verus!
