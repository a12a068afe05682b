//! The first-generation kernel's interrupt descriptor entries: their
//! layout and the handler-address split, with its round trip proven.

use vstd::prelude::*;

verus! {

/// Gate type bits of an interrupt gate.
pub const TA_INTERRUPT_GATE: u8 = 0b1000_1110;

/// Gate type bits of a trap gate.
pub const TA_TRAP_GATE: u8 = 0b1000_1111;

/// One gate of the table.
#[derive(Debug, Clone, Copy, PartialEq, Eq, Structural)]
pub struct DescriptorEntry {
    pub offset0: u16,
    pub selector: u16,
    pub ist: u8,
    pub type_attr: u8,
    pub offset1: u16,
    pub offset2: u32,
    pub ignore: u32,
}

/// The pointer handed to the processor: the table's byte limit and its
/// address.
#[derive(Debug, Clone, Copy, PartialEq, Eq, Structural)]
pub struct Descriptor {
    pub limit: u16,
    pub offset: u64,
}

proof fn lemma_offset_split(offset: u64)
    ensures
        (offset & 0xFFFF) == offset % 0x10000,
        ((offset & 0xFFFF_0000) >> 16u64) == (offset / 0x10000) % 0x10000,
        ((offset & 0xFFFF_FFFF_0000_0000) >> 32u64) == offset / 0x1_0000_0000,
        (offset & 0xFFFF) < 0x10000,
        ((offset & 0xFFFF_0000) >> 16u64) < 0x10000,
        offset / 0x1_0000_0000 <= 0xFFFF_FFFF,
{
    assert((offset & 0xFFFF) == offset % 0x10000 && ((offset & 0xFFFF_0000) >> 16u64) == (offset
        / 0x10000) % 0x10000 && ((offset & 0xFFFF_FFFF_0000_0000) >> 32u64) == offset
        / 0x1_0000_0000 && (offset & 0xFFFF) < 0x10000 && ((offset & 0xFFFF_0000) >> 16u64)
        < 0x10000 && offset / 0x1_0000_0000 <= 0xFFFF_FFFF) by (bit_vector);
}

impl DescriptorEntry {
    /// Splits a handler address across the entry's three offset fields.
    pub fn set_offset(&mut self, offset: u64)
        ensures
            final(self).offset0 == offset % 0x10000,
            final(self).offset1 == (offset / 0x10000) % 0x10000,
            final(self).offset2 == offset / 0x1_0000_0000,
            final(self).selector == old(self).selector,
            final(self).ist == old(self).ist,
            final(self).type_attr == old(self).type_attr,
            final(self).ignore == old(self).ignore,
    {
        proof {
            lemma_offset_split(offset);
        }
        self.offset0 = (offset & 0xFFFF) as u16;
        self.offset1 = ((offset & 0xFFFF_0000) >> 16u64) as u16;
        self.offset2 = ((offset & 0xFFFF_FFFF_0000_0000) >> 32u64) as u32;
    }

    /// Reassembles the handler address from the three offset fields.
    pub fn get_offset(&self) -> (result: u64)
        ensures
            result == self.offset0 + self.offset1 * 0x10000 + self.offset2 * 0x1_0000_0000,
    {
        proof {
            let o0 = self.offset0;
            let o1 = self.offset1;
            let o2 = self.offset2;
            assert((o0 as u64 | ((o1 as u64) << 16u64) | ((o2 as u64) << 32u64)) == o0 + o1
                * 0x10000 + o2 * 0x1_0000_0000) by (bit_vector);
        }
        self.offset0 as u64 | ((self.offset1 as u64) << 16u64) | ((self.offset2 as u64) << 32u64)
    }
}

/// Splitting a handler address into the entry's offset fields and reading
/// them back yields the address unchanged.
pub proof fn lemma_offset_round_trip(offset: u64)
    ensures
        (offset % 0x10000) + ((offset / 0x10000) % 0x10000) * 0x10000 + (offset / 0x1_0000_0000)
            * 0x1_0000_0000 == offset,
{
    assert((offset % 0x10000) + ((offset / 0x10000) % 0x10000) * 0x10000 + (offset
        / 0x1_0000_0000) * 0x1_0000_0000 == offset) by (bit_vector);
}

} // verus!
