//! The first-generation kernel's global descriptor table layout.

use vstd::prelude::*;

verus! {

/// The pointer handed to the processor: the table's byte size minus one and
/// its address.
#[derive(Debug, Clone, Copy, PartialEq, Eq, Structural)]
pub struct Descriptor {
    pub size: u16,
    pub offset: u64,
}

/// One segment descriptor.
#[derive(Debug, Clone, Copy, PartialEq, Eq, Structural)]
pub struct Entry {
    pub limit0: u16,
    pub base0: u16,
    pub base1: u8,
    pub access_byte: u8,
    pub limit1_flags: u8,
    pub base2: u8,
}

/// The three-entry table: null, code, data.
#[derive(Debug, Clone, Copy, PartialEq, Eq, Structural)]
pub struct GDT {
    pub null: Entry,
    pub code: Entry,
    pub data: Entry,
}

/// The flat 64-bit table this kernel generation loads: a present,
/// executable code segment and a present, writable data segment, both with
/// the long-mode flag and zero base and limit words.
pub fn default_gdt() -> (result: GDT)
    ensures
        result.null == (Entry {
            limit0: 0,
            base0: 0,
            base1: 0,
            access_byte: 0,
            limit1_flags: 0,
            base2: 0,
        }),
        result.code.access_byte == 0x9A,
        result.code.limit1_flags == 0xA0,
        result.data.access_byte == 0x92,
        result.data.limit1_flags == 0xA0,
        result.code.limit0 == 0 && result.code.base0 == 0 && result.code.base1 == 0
            && result.code.base2 == 0,
        result.data.limit0 == 0 && result.data.base0 == 0 && result.data.base1 == 0
            && result.data.base2 == 0,
{
    GDT {
        null: Entry { limit0: 0, base0: 0, base1: 0, access_byte: 0, limit1_flags: 0, base2: 0 },
        code: Entry {
            limit0: 0,
            base0: 0,
            base1: 0,
            access_byte: 0x9A,
            limit1_flags: 0xA0,
            base2: 0,
        },
        data: Entry {
            limit0: 0,
            base0: 0,
            base1: 0,
            access_byte: 0x92,
            limit1_flags: 0xA0,
            base2: 0,
        },
    }
}

} // verus!
