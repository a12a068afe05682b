//! Data carried across the firmware boundary.
//!
//! The firmware itself is reached only through the unverified edge of the
//! kernel; what stands here is the shape of the values it hands back — memory
//! descriptors, status codes, graphics mode records — together with the
//! decision logic of the memory-map acquisition protocol, which is verified.

use crate::framebuffer::FrameBufferFormat;
use crate::page_allocator::{npages_spec, pages_needed, PAGE_SIZE};
use vstd::prelude::*;

verus! {

/// A firmware error code: a negative status word. The zero word means
/// success and is never an `Error`.
#[derive(Debug, Clone, Copy, PartialEq, Eq, Structural)]
pub struct Error(pub isize);

impl Error {
    /// Whether the word is a well-formed error code.
    pub open spec fn wf(self) -> bool {
        self.0 != 0
    }

    /// The code for an unsupported request: the error bit (the sign bit)
    /// together with code 3.
    pub fn unsupported() -> (result: Self)
        ensures
            result.0 == isize::MIN + 3,
            result.wf(),
    {
        Error(isize::MIN + 3)
    }

    /// The code reporting that a caller's buffer was too small: the error
    /// bit together with code 5.
    pub fn buffer_too_small() -> (result: Self)
        ensures
            result.0 == isize::MIN + 5,
            result.wf(),
    {
        Error(isize::MIN + 5)
    }
}

/// Outcome of a firmware call.
pub type Status = Result<(), Error>;

/// Placement policy for a firmware page allocation.
#[derive(Debug, Clone, Copy, PartialEq, Eq, Structural)]
pub enum AllocateType {
    AnyPages,
    MaxAddress,
    Address,
}

/// Firmware classification of a memory region.
#[derive(Debug, Clone, Copy, PartialEq, Eq, Structural)]
pub struct MemoryType(pub u32);

pub const MEMORY_TYPE_RESERVED: u32 = 0;
pub const MEMORY_TYPE_LOADER_CODE: u32 = 1;
pub const MEMORY_TYPE_LOADER_DATA: u32 = 2;
pub const MEMORY_TYPE_BOOT_SERVICES_CODE: u32 = 3;
pub const MEMORY_TYPE_BOOT_SERVICES_DATA: u32 = 4;
pub const MEMORY_TYPE_RUNTIME_SERVICES_CODE: u32 = 5;
pub const MEMORY_TYPE_RUNTIME_SERVICES_DATA: u32 = 6;
pub const MEMORY_TYPE_CONVENTIONAL: u32 = 7;
pub const MEMORY_TYPE_UNUSABLE: u32 = 8;
pub const MEMORY_TYPE_ACPI_RECLAIM: u32 = 9;
pub const MEMORY_TYPE_ACPI_NVS: u32 = 10;
pub const MEMORY_TYPE_MEMORY_MAPPED_IO: u32 = 11;
pub const MEMORY_TYPE_MEMORY_MAPPED_IO_PORT_SPACE: u32 = 12;
pub const MEMORY_TYPE_PAL_CODE: u32 = 13;
pub const MEMORY_TYPE_PERSISTENT: u32 = 14;

impl MemoryType {
    /// General-purpose memory, free for the allocator to manage.
    pub open spec fn is_conventional(self) -> bool {
        self.0 == MEMORY_TYPE_CONVENTIONAL
    }

    /// Memory the allocator may hand out once boot services have been left
    /// behind: conventional memory and the firmware's own boot-time code and
    /// data regions.
    pub open spec fn is_allocatable(self) -> bool {
        self.0 == MEMORY_TYPE_CONVENTIONAL || self.0 == MEMORY_TYPE_BOOT_SERVICES_CODE
            || self.0 == MEMORY_TYPE_BOOT_SERVICES_DATA
    }

    pub fn conventional() -> (result: Self)
        ensures
            result.is_conventional(),
            result.is_allocatable(),
            result.0 == MEMORY_TYPE_CONVENTIONAL,
    {
        MemoryType(MEMORY_TYPE_CONVENTIONAL)
    }
}

/// One record of the firmware memory map, already read out of the raw
/// variable-stride buffer into plain fields.
#[derive(Debug, Clone, Copy, PartialEq, Eq, Structural)]
pub struct MemoryDescriptor {
    pub memory_type: MemoryType,
    pub physical_start: usize,
    pub virtual_start: usize,
    pub number_of_pages: usize,
    pub attribute: u64,
}

/// A firmware protocol identity.
#[derive(Debug, Clone, Copy, PartialEq, Eq)]
pub struct Guid {
    pub data1: u32,
    pub data2: u16,
    pub data3: u16,
    pub data4: [u8; 8],
}

impl Guid {
    /// Identity of the graphics output protocol.
    pub fn graphics_output_protocol() -> (result: Self)
        ensures
            result.data1 == 0x9042a9de,
            result.data2 == 0x23dc,
            result.data3 == 0x4a38,
            result.data4@ == seq![0x96u8, 0xfb, 0x7a, 0xde, 0xd0, 0x80, 0x51, 0x6a],
    {
        let guid = Guid {
            data1: 0x9042a9de,
            data2: 0x23dc,
            data3: 0x4a38,
            data4: [0x96, 0xfb, 0x7a, 0xde, 0xd0, 0x80, 0x51, 0x6a],
        };
        proof {
            assert(guid.data4@ =~= seq![0x96u8, 0xfb, 0x7a, 0xde, 0xd0, 0x80, 0x51, 0x6a]);
        }
        guid
    }
}

/// Pixel layouts a graphics mode can report.
#[derive(Debug, Clone, Copy, PartialEq, Eq, Structural)]
pub enum GraphicsPixelFormat {
    RedGreenBlueReserved8BitPerColor,
    BlueGreenRedReserved8BitPerColor,
    BitMask,
    BltOnly,
}

/// Channel masks of a bit-mask pixel format.
#[derive(Debug, Clone, Copy, PartialEq, Eq, Structural)]
pub struct PixelBitmask {
    pub red_mask: u32,
    pub green_mask: u32,
    pub blue_mask: u32,
    pub reserved_mask: u32,
}

/// Geometry and pixel layout of one graphics mode.
#[derive(Debug, Clone, Copy, PartialEq, Eq, Structural)]
pub struct GOPModeInformation {
    pub version: u32,
    pub horizontal_resolution: u32,
    pub vertical_resolution: u32,
    pub pixel_format: GraphicsPixelFormat,
    pub pixel_information: PixelBitmask,
    pub pixels_per_scan_line: u32,
}

/// What the boot path should do next while acquiring the memory map. The
/// first query may report a buffer too small; the map can also grow between
/// the size probe and the fetch, so the whole sequence retries until a
/// fetch succeeds.
#[derive(Debug, Clone, Copy, PartialEq, Eq, Structural)]
pub enum MemoryMapAction {
    /// Free the old buffer if one exists, allocate this many fresh pages,
    /// and query again.
    Retry { free_old: bool, allocate_pages: usize },
    /// The fetch succeeded; the map key is valid for exiting boot services.
    Done,
    /// The firmware failed with an error other than a short buffer.
    Fail(Error),
}

/// One decision of the memory-map acquisition loop, from the outcome of a
/// `get_memory_map` call: a short buffer asks for a retry with the reported
/// size rounded up to whole pages, success ends the loop, and any other
/// error aborts boot.
pub fn memory_map_step(have_buffer: bool, reported_size: usize, status: Status) -> (action:
    MemoryMapAction)
    ensures
        action == match status {
            Err(e) => if e.0 == isize::MIN + 5 {
                MemoryMapAction::Retry {
                    free_old: have_buffer,
                    allocate_pages: npages_spec(reported_size as int) as usize,
                }
            } else {
                MemoryMapAction::Fail(e)
            },
            Ok(()) => MemoryMapAction::Done,
        },
{
    match status {
        Err(e) => {
            if e.0 == isize::MIN + 5 {
                proof {
                    crate::page_allocator::lemma_npages_usize(reported_size as int);
                }
                MemoryMapAction::Retry {
                    free_old: have_buffer,
                    allocate_pages: pages_needed(reported_size),
                }
            } else {
                MemoryMapAction::Fail(e)
            }
        },
        Ok(()) => MemoryMapAction::Done,
    }
}

/// The 32-bit little-endian value at `base`.
pub open spec fn le32_at(bytes: Seq<u8>, base: int) -> int {
    bytes[base] + bytes[base + 1] * 0x100 + bytes[base + 2] * 0x1_0000 + bytes[base + 3]
        * 0x100_0000
}

/// The 64-bit little-endian value at `base`.
pub open spec fn le64_at(bytes: Seq<u8>, base: int) -> int {
    le32_at(bytes, base) + le32_at(bytes, base + 4) * 0x1_0000_0000
}

/// Whether the raw record at `base` reads back as `rec`: the type word, the
/// three address and count quadwords at their wire offsets, and the
/// attribute quadword.
pub open spec fn record_read(bytes: Seq<u8>, base: int, rec: MemoryDescriptor) -> bool {
    &&& rec.memory_type.0 == le32_at(bytes, base)
    &&& rec.physical_start == le64_at(bytes, base + 8)
    &&& rec.virtual_start == le64_at(bytes, base + 16)
    &&& rec.number_of_pages == le64_at(bytes, base + 24)
    &&& rec.attribute == le64_at(bytes, base + 32)
}

/// Reads the 64-bit little-endian value at `base` as a machine word;
/// `None` when it does not fit one.
fn read_le64(bytes: &[u8], base: usize) -> (result: Option<usize>)
    requires
        base + 8 <= bytes@.len(),
    ensures
        match result {
            Some(value) => value == le64_at(bytes@, base as int),
            None => le64_at(bytes@, base as int) > usize::MAX,
        },
{
    let value: u64 = bytes[base] as u64 + bytes[base + 1] as u64 * 0x100 + bytes[base + 2] as u64
        * 0x1_0000 + bytes[base + 3] as u64 * 0x100_0000 + bytes[base + 4] as u64 * 0x1_0000_0000
        + bytes[base + 5] as u64 * 0x100_0000_0000 + bytes[base + 6] as u64 * 0x1_0000_0000_0000
        + bytes[base + 7] as u64 * 0x100_0000_0000_0000;
    if value > usize::MAX as u64 {
        None
    } else {
        Some(value as usize)
    }
}

/// One of the three address-sized fields of the record at index `i` does
/// not fit a machine word.
pub open spec fn record_field_overflows(bytes: Seq<u8>, descriptor_size: int, i: int) -> bool {
    ||| le64_at(bytes, i * descriptor_size + 8) > usize::MAX
    ||| le64_at(bytes, i * descriptor_size + 16) > usize::MAX
    ||| le64_at(bytes, i * descriptor_size + 24) > usize::MAX
}

/// Reads the memory map out of the raw buffer firmware filled: `count`
/// records, each starting `descriptor_size` bytes after the previous one —
/// the stride must be respected literally, whatever the known fields take.
/// `None` when the stride is shorter than the known fields, the buffer is
/// shorter than the records claim, or an address does not fit a machine
/// word.
pub fn parse_memory_map(bytes: &[u8], descriptor_size: usize, count: usize) -> (result: Option<
    Vec<MemoryDescriptor>,
>)
    ensures
        match result {
            Some(records) => {
                &&& records@.len() == count
                &&& descriptor_size >= 40
                &&& count * descriptor_size <= bytes@.len()
                &&& forall|i: int|
                    0 <= i < count ==> record_read(
                        bytes@,
                        i * descriptor_size,
                        #[trigger] records@[i],
                    )
            },
            None => {
                ||| descriptor_size < 40
                ||| count * descriptor_size > bytes@.len()
                ||| exists|i: int|
                    0 <= i < count && #[trigger] record_field_overflows(
                        bytes@,
                        descriptor_size as int,
                        i,
                    )
            },
        },
{
    let n = bytes.len();
    if descriptor_size < 40 {
        return None;
    }
    let total = match count.checked_mul(descriptor_size) {
        Some(total) => total,
        None => {
            return None;
        },
    };
    if total > n {
        return None;
    }
    let mut records: Vec<MemoryDescriptor> = Vec::new();
    let mut i: usize = 0;
    while i < count
        invariant
            descriptor_size >= 40,
            n == bytes@.len(),
            count * descriptor_size <= n,
            0 <= i <= count,
            records@.len() == i,
            forall|k: int|
                0 <= k < i ==> record_read(bytes@, k * descriptor_size, #[trigger] records@[k]),
        decreases count - i,
    {
        proof {
            lemma_record_base(i as int, count as int, descriptor_size as int);
        }
        let base = i * descriptor_size;
        let memory_type = MemoryType(
            bytes[base] as u32 + bytes[base + 1] as u32 * 0x100 + bytes[base + 2] as u32
                * 0x1_0000 + bytes[base + 3] as u32 * 0x100_0000,
        );
        let physical_start = match read_le64(bytes, base + 8) {
            Some(value) => value,
            None => {
                proof {
                    assert(record_field_overflows(bytes@, descriptor_size as int, i as int));
                }
                return None;
            },
        };
        let virtual_start = match read_le64(bytes, base + 16) {
            Some(value) => value,
            None => {
                proof {
                    assert(record_field_overflows(bytes@, descriptor_size as int, i as int));
                }
                return None;
            },
        };
        let number_of_pages = match read_le64(bytes, base + 24) {
            Some(value) => value,
            None => {
                proof {
                    assert(record_field_overflows(bytes@, descriptor_size as int, i as int));
                }
                return None;
            },
        };
        proof {
            lemma_le64_fits(bytes@, base + 32);
        }
        let attribute: u64 = bytes[base + 32] as u64 + bytes[base + 33] as u64 * 0x100 + bytes[base
            + 34] as u64 * 0x1_0000 + bytes[base + 35] as u64 * 0x100_0000 + bytes[base + 36]
            as u64 * 0x1_0000_0000 + bytes[base + 37] as u64 * 0x100_0000_0000 + bytes[base + 38]
            as u64 * 0x1_0000_0000_0000 + bytes[base + 39] as u64 * 0x100_0000_0000_0000;
        records.push(
            MemoryDescriptor {
                memory_type,
                physical_start,
                virtual_start,
                number_of_pages,
                attribute,
            },
        );
        i = i + 1;
    }
    Some(records)
}

/// Record `i` of `count` starts within the buffer, with room for the known
/// fields.
proof fn lemma_record_base(i: int, count: int, descriptor_size: int)
    requires
        0 <= i < count,
        descriptor_size >= 40,
    ensures
        i * descriptor_size + descriptor_size <= count * descriptor_size,
        0 <= i * descriptor_size,
        i * descriptor_size + 40 <= count * descriptor_size,
{
    assert((i + 1) * descriptor_size <= count * descriptor_size && 0 <= i * descriptor_size && (i
        + 1) * descriptor_size == i * descriptor_size + descriptor_size) by (nonlinear_arith)
        requires
            0 <= i < count,
            descriptor_size >= 40,
    ;
}

/// A 64-bit little-endian value is below 2^64.
proof fn lemma_le64_fits(bytes: Seq<u8>, base: int)
    ensures
        le64_at(bytes, base) < 0x1_0000_0000_0000_0000,
        le64_at(bytes, base) >= 0,
{
}

/// The pixel channel order a graphics mode requires, or the error boot
/// reports for the formats the framebuffer code cannot drive.
pub fn framebuffer_format_for(pixel_format: GraphicsPixelFormat) -> (result: Result<
    FrameBufferFormat,
    Error,
>)
    ensures
        result == match pixel_format {
            GraphicsPixelFormat::RedGreenBlueReserved8BitPerColor => Ok::<FrameBufferFormat, Error>(
                FrameBufferFormat::Rgb,
            ),
            GraphicsPixelFormat::BlueGreenRedReserved8BitPerColor => Ok::<FrameBufferFormat, Error>(
                FrameBufferFormat::Bgr,
            ),
            _ => Err::<FrameBufferFormat, Error>(Error((isize::MIN + 3) as isize)),
        },
{
    match pixel_format {
        GraphicsPixelFormat::RedGreenBlueReserved8BitPerColor => Ok(FrameBufferFormat::Rgb),
        GraphicsPixelFormat::BlueGreenRedReserved8BitPerColor => Ok(FrameBufferFormat::Bgr),
        GraphicsPixelFormat::BitMask => Err(Error::unsupported()),
        GraphicsPixelFormat::BltOnly => Err(Error::unsupported()),
    }
}

} // verus!
