//! Global descriptor table entries.
//!
//! The table itself is built once and handed to the processor by the
//! unverified edge of the kernel; the entry and descriptor layouts live
//! here.

use vstd::prelude::*;

verus! {

/// The pointer the processor is given to find the table: its byte size
/// minus one and its address.
#[derive(Debug, Clone, Copy, PartialEq, Eq, Structural)]
pub struct GdtDescriptor {
    pub size: u16,
    pub offset: usize,
}

/// One segment descriptor.
#[derive(Debug, Clone, Copy, PartialEq, Eq, Structural)]
pub struct Entry {
    pub limit0: u16,
    pub base0: u16,
    pub base1: u8,
    pub access_byte: u8,
    pub limit1_flags: u8,
    pub base2: u8,
}

/// The kernel's three-entry table: the mandatory null descriptor, a code
/// segment and a data segment.
#[derive(Debug, Clone, Copy, PartialEq, Eq, Structural)]
pub struct Gdt {
    pub null: Entry,
    pub kernel_code: Entry,
    pub kernel_data: Entry,
}

/// The flat 64-bit table the kernel runs under: a null descriptor, then an
/// executable-readable code segment and a writable data segment, both
/// present, covering the full address space.
pub fn kernel_gdt() -> (result: Gdt)
    ensures
        result.null == (Entry {
            limit0: 0,
            base0: 0,
            base1: 0,
            access_byte: 0,
            limit1_flags: 0,
            base2: 0,
        }),
        result.kernel_code.access_byte == 0b1_00_1_1_0_1_1,
        result.kernel_data.access_byte == 0b1_00_1_0_0_1_1,
        result.kernel_code.limit0 == 0xFFFF,
        result.kernel_data.limit0 == 0xFFFF,
        result.kernel_code.limit1_flags == 0xFA,
        result.kernel_data.limit1_flags == 0xFA,
{
    Gdt {
        null: Entry { limit0: 0, base0: 0, base1: 0, access_byte: 0, limit1_flags: 0, base2: 0 },
        kernel_code: Entry {
            limit0: 0xFFFF,
            base0: 0,
            base1: 0,
            access_byte: 0b1_00_1_1_0_1_1,
            limit1_flags: 0xFA,
            base2: 0,
        },
        kernel_data: Entry {
            limit0: 0xFFFF,
            base0: 0,
            base1: 0,
            access_byte: 0b1_00_1_0_0_1_1,
            limit1_flags: 0xFA,
            base2: 0,
        },
    }
}

} // verus!
