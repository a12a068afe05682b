//! Firmware bindings of the first-generation kernel: status words, protocol
//! identities and the plain records its boot path reads. The call tables
//! themselves are reached only from the unverified edge.

use vstd::prelude::*;

verus! {

/// The opaque object firmware handles point at.
#[derive(Debug, Clone, Copy, PartialEq, Eq, Structural)]
pub struct Handle_;

/// A firmware status word: zero reports success, a word with the top bit
/// set reports an error.
#[derive(Debug, Clone, Copy, PartialEq, Eq, Structural)]
pub struct Status(pub usize);

impl Status {
    /// The success word.
    pub fn success() -> (result: Self)
        ensures
            result.0 == 0,
    {
        Status(0)
    }

    /// The top bit, which marks a status word as an error.
    pub fn error_mask() -> (result: usize)
        ensures
            result == usize::MAX / 2 + 1,
    {
        usize::MAX / 2 + 1
    }

    /// An error word carrying `code`.
    pub fn new_error(code: usize) -> (result: Self)
        requires
            code <= usize::MAX / 2,
        ensures
            result.0 == usize::MAX / 2 + 1 + code,
            result.is_error_spec(),
    {
        Status(usize::MAX / 2 + 1 + code)
    }

    /// Whether the word reports an error.
    pub open spec fn is_error_spec(self) -> bool {
        self.0 >= usize::MAX / 2 + 1
    }

    /// Whether the word reports an error: its top bit is set, that is, the
    /// word reaches the error mask.
    pub fn is_error(self) -> (result: bool)
        ensures
            result == self.is_error_spec(),
    {
        self.0 >= usize::MAX / 2 + 1
    }
}

/// A firmware protocol identity, stored as its sixteen wire bytes.
#[derive(Debug, Clone, Copy, PartialEq, Eq)]
pub struct Guid(pub [u8; 16]);

impl Guid {
    /// Packs the textual GUID fields into wire order: the three numeric
    /// fields little-endian, the final eight bytes as given.
    pub fn new(
        a: u32,
        b: u16,
        c: u16,
        d0: u8,
        d1: u8,
        d2: u8,
        d3: u8,
        d4: u8,
        d5: u8,
        d6: u8,
        d7: u8,
    ) -> (result: Self)
        ensures
            result.0@ == seq![
                (a % 0x100) as u8,
                ((a / 0x100) % 0x100) as u8,
                ((a / 0x1_0000) % 0x100) as u8,
                ((a / 0x100_0000) % 0x100) as u8,
                (b % 0x100) as u8,
                ((b / 0x100) % 0x100) as u8,
                (c % 0x100) as u8,
                ((c / 0x100) % 0x100) as u8,
                d0,
                d1,
                d2,
                d3,
                d4,
                d5,
                d6,
                d7,
            ],
    {
        proof {
            lemma_guid_bytes(a, b, c);
        }
        let bytes: [u8; 16] = [
            (a & 0xFF) as u8,
            ((a >> 8u32) & 0xFF) as u8,
            ((a >> 16u32) & 0xFF) as u8,
            ((a >> 24u32) & 0xFF) as u8,
            (b & 0xFF) as u8,
            ((b >> 8u16) & 0xFF) as u8,
            (c & 0xFF) as u8,
            ((c >> 8u16) & 0xFF) as u8,
            d0,
            d1,
            d2,
            d3,
            d4,
            d5,
            d6,
            d7,
        ];
        let result = Guid(bytes);
        proof {
            assert(result.0@ =~= seq![
                (a % 0x100) as u8,
                ((a / 0x100) % 0x100) as u8,
                ((a / 0x1_0000) % 0x100) as u8,
                ((a / 0x100_0000) % 0x100) as u8,
                (b % 0x100) as u8,
                ((b / 0x100) % 0x100) as u8,
                (c % 0x100) as u8,
                ((c / 0x100) % 0x100) as u8,
                d0,
                d1,
                d2,
                d3,
                d4,
                d5,
                d6,
                d7,
            ]);
        }
        result
    }
}

/// Masking and shifting a word extracts its base-256 digits.
proof fn lemma_guid_bytes(a: u32, b: u16, c: u16)
    ensures
        a & 0xFF == a % 0x100,
        (a >> 8u32) & 0xFF == (a / 0x100) % 0x100,
        (a >> 16u32) & 0xFF == (a / 0x1_0000) % 0x100,
        (a >> 24u32) & 0xFF == (a / 0x100_0000) % 0x100,
        b & 0xFF == b % 0x100,
        (b >> 8u16) & 0xFF == (b / 0x100) % 0x100,
        c & 0xFF == c % 0x100,
        (c >> 8u16) & 0xFF == (c / 0x100) % 0x100,
{
    assert(a & 0xFF == a % 0x100 && (a >> 8u32) & 0xFF == (a / 0x100) % 0x100 && (a >> 16u32)
        & 0xFF == (a / 0x1_0000) % 0x100 && (a >> 24u32) & 0xFF == (a / 0x100_0000) % 0x100)
        by (bit_vector);
    assert(b & 0xFF == b % 0x100 && (b >> 8u16) & 0xFF == (b / 0x100) % 0x100) by (bit_vector);
    assert(c & 0xFF == c % 0x100 && (c >> 8u16) & 0xFF == (c / 0x100) % 0x100) by (bit_vector);
}

/// The header every firmware table starts with.
#[derive(Debug, Clone, Copy, PartialEq, Eq, Structural)]
pub struct TableHeader {
    pub signature: u64,
    pub revision: u32,
    pub headersize: u32,
    pub crc32: u32,
    pub reserved: u32,
}

/// Firmware classification of a memory region.
#[derive(Debug, Clone, Copy, PartialEq, Eq, Structural)]
pub struct MemoryType(pub i32);

pub const LOADER_DATA: i32 = 2;
pub const CONVENTIONAL_MEMORY: i32 = 7;

/// A physical address as firmware reports it.
#[derive(Debug, Clone, Copy, PartialEq, Eq, Structural)]
pub struct PhysicalAddress(pub u64);

/// A virtual address as firmware reports it.
#[derive(Debug, Clone, Copy, PartialEq, Eq, Structural)]
pub struct VirtualAddress(pub u64);

/// One record of the firmware memory map; the attribute bits are carried as
/// the raw word.
#[derive(Debug, Clone, Copy, PartialEq, Eq, Structural)]
pub struct MemoryDescriptor {
    pub type_: MemoryType,
    pub physical_start: PhysicalAddress,
    pub virtual_start: VirtualAddress,
    pub number_of_pages: u64,
    pub attribute: u64,
}

/// Geometry and pixel layout of one graphics mode.
#[derive(Debug, Clone, Copy, PartialEq, Eq)]
pub struct GopModeInfo {
    pub version: u32,
    pub width: u32,
    pub height: u32,
    pub pixel_format: u32,
    pub pixel_bitmask: [u32; 4],
    pub pixels_per_scanline: u32,
}

/// One blit pixel, blue first as the protocol stores it.
#[derive(Debug, Clone, Copy, PartialEq, Eq, Structural)]
pub struct Pixel {
    pub blue: u8,
    pub green: u8,
    pub red: u8,
    pub reserved: u8,
}

} // verus!
