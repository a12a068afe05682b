//! Bootstrap of the allocator from synthetic firmware memory maps.

use bootmem::efi::{
    parse_memory_map, MemoryDescriptor, MemoryType, MEMORY_TYPE_BOOT_SERVICES_DATA,
    MEMORY_TYPE_CONVENTIONAL, MEMORY_TYPE_RESERVED,
};
use bootmem::page_allocator::{init_page_allocator, BootstrapError, PAGE_SIZE};

fn record(kind: u32, start: usize, pages: usize) -> MemoryDescriptor {
    MemoryDescriptor {
        memory_type: MemoryType(kind),
        physical_start: start,
        virtual_start: start,
        number_of_pages: pages,
        attribute: 0,
    }
}

#[test]
fn bootstrap_scenario_adjacent_regions() {
    // conventional, reserved and conventional regions, all physically
    // adjacent: they coalesce into one block whose bitmap covers every page,
    // the reserved pages and the null page are marked, and the metadata
    // lands in the first conventional run large enough to host it
    let map = vec![
        record(MEMORY_TYPE_CONVENTIONAL, 0x0, 4),
        record(MEMORY_TYPE_RESERVED, 0x4000, 2),
        record(MEMORY_TYPE_CONVENTIONAL, 0x6000, 100),
    ];
    let outcome = init_page_allocator(map).unwrap();
    let pa = &outcome.allocator;

    assert_eq!(pa.blocks().len(), 1);
    assert_eq!(pa.blocks()[0].start_address, 0x0);
    assert_eq!(pa.blocks()[0].page_count, 106);
    assert_eq!(pa.total_pages(), 106);

    // metadata: one block entry plus a 106-bit bitmap, hosted by the first
    // conventional run, whose first record starts at the null address and
    // therefore never claims a non-null pointer
    assert_eq!(outcome.metadata_size, 24 + 14);
    assert_eq!(outcome.metadata_address, 0x0);

    // the two reserved pages are marked
    assert_eq!(pa.get_allocated(0x4000), Some(true));
    assert_eq!(pa.get_allocated(0x5000), Some(true));
    // the null page is marked (it also holds the metadata here)
    assert_eq!(pa.get_allocated(0x0), Some(true));
    // an ordinary conventional page is free
    assert_eq!(pa.get_allocated(0x6000), Some(false));
    assert_eq!(pa.allocated_pages(), 3);
}

#[test]
fn bootstrap_separated_regions_make_two_blocks() {
    // a gap between the regions keeps them in separate blocks
    let map = vec![
        record(MEMORY_TYPE_CONVENTIONAL, 0x100000, 8),
        record(MEMORY_TYPE_CONVENTIONAL, 0x200000, 8),
    ];
    let outcome = init_page_allocator(map).unwrap();
    let pa = &outcome.allocator;
    assert_eq!(pa.blocks().len(), 2);
    assert_eq!(pa.blocks()[0].start_address, 0x100000);
    assert_eq!(pa.blocks()[0].bitmap_start, 0);
    assert_eq!(pa.blocks()[1].start_address, 0x200000);
    assert_eq!(pa.blocks()[1].bitmap_start, 8);
    assert_eq!(pa.total_pages(), 16);
    // metadata: 2 block entries + 2 bitmap bytes, in the first region
    assert_eq!(outcome.metadata_size, 48 + 2);
    assert_eq!(outcome.metadata_address, 0x100000);
    // the metadata takes one page of the first region
    assert_eq!(pa.get_allocated(0x100000), Some(true));
    assert_eq!(pa.get_allocated(0x101000), Some(false));
}

#[test]
fn bootstrap_sorts_unordered_records() {
    let map = vec![
        record(MEMORY_TYPE_CONVENTIONAL, 0x200000, 4),
        record(MEMORY_TYPE_CONVENTIONAL, 0x100000, 4),
    ];
    let outcome = init_page_allocator(map).unwrap();
    assert_eq!(outcome.normalized_map[0].physical_start, 0x100000);
    assert_eq!(outcome.normalized_map[1].physical_start, 0x200000);
    assert_eq!(outcome.allocator.blocks()[0].start_address, 0x100000);
}

#[test]
fn bootstrap_rejects_non_identity_mapping() {
    let mut bad = record(MEMORY_TYPE_CONVENTIONAL, 0x100000, 4);
    bad.virtual_start = 0xFFFF_0000;
    let result = init_page_allocator(vec![bad]);
    assert_eq!(result.err(), Some(BootstrapError::NonIdentityMapping));
}

#[test]
fn bootstrap_rejects_overlapping_regions() {
    let map = vec![
        record(MEMORY_TYPE_CONVENTIONAL, 0x100000, 4),
        record(MEMORY_TYPE_CONVENTIONAL, 0x102000, 4),
    ];
    let result = init_page_allocator(map);
    assert_eq!(result.err(), Some(BootstrapError::InvalidMemoryMap));
}

#[test]
fn bootstrap_rejects_empty_region() {
    let map = vec![record(MEMORY_TYPE_CONVENTIONAL, 0x100000, 0)];
    let result = init_page_allocator(map);
    assert_eq!(result.err(), Some(BootstrapError::InvalidMemoryMap));
}

#[test]
fn bootstrap_fails_without_metadata_host() {
    // only a reserved region: no conventional run can host the metadata
    let map = vec![record(MEMORY_TYPE_RESERVED, 0x100000, 64)];
    let result = init_page_allocator(map);
    assert_eq!(result.err(), Some(BootstrapError::NoMetadataRegion));
}

#[test]
fn bootstrap_metadata_skips_small_runs() {
    // the first conventional run (one page) cannot host the metadata of a
    // large map; the scan settles on the later, larger run
    let mut map = vec![record(MEMORY_TYPE_CONVENTIONAL, 0x1000, 1)];
    // 600 reserved single-page regions, separated so each is its own block:
    // the metadata then needs 601 block entries and more than one page
    for i in 0..600usize {
        map.push(record(MEMORY_TYPE_RESERVED, 0x100000 + i * 2 * PAGE_SIZE, 1));
    }
    map.push(record(MEMORY_TYPE_CONVENTIONAL, 0x10000000, 64));
    let outcome = init_page_allocator(map).unwrap();
    // 602 blocks of 24 bytes each, plus the bitmap: more than one page
    assert!(outcome.metadata_size > PAGE_SIZE);
    assert_eq!(outcome.metadata_address, 0x10000000);
    // the metadata pages are marked allocated
    assert_eq!(outcome.allocator.get_allocated(0x10000000), Some(true));
    assert_eq!(outcome.allocator.get_allocated(0x10001000), Some(true));
}

#[test]
fn bootstrap_empty_map() {
    let outcome = init_page_allocator(Vec::new()).unwrap();
    assert_eq!(outcome.allocator.blocks().len(), 0);
    assert_eq!(outcome.metadata_size, 0);
    assert_eq!(outcome.metadata_address, 0);
    assert_eq!(outcome.allocator.total_pages(), 0);
}

#[test]
fn bootstrap_boot_services_memory_is_allocatable() {
    let map = vec![
        record(MEMORY_TYPE_CONVENTIONAL, 0x100000, 8),
        record(MEMORY_TYPE_BOOT_SERVICES_DATA, 0x108000, 8),
    ];
    let outcome = init_page_allocator(map).unwrap();
    // boot-services pages are not marked reserved
    assert_eq!(outcome.allocator.get_allocated(0x108000), Some(false));
    // but they do not host metadata: the scan wants conventional memory only
    assert_eq!(outcome.metadata_address, 0x100000);
}

#[test]
fn parse_memory_map_reads_strided_records() {
    // two records with a stride of 48: the known 40 bytes plus padding the
    // parser must step over
    let stride = 48usize;
    let mut bytes = vec![0u8; 2 * stride];
    let fill = |bytes: &mut Vec<u8>, base: usize, kind: u32, start: u64, pages: u64| {
        bytes[base..base + 4].copy_from_slice(&kind.to_le_bytes());
        bytes[base + 8..base + 16].copy_from_slice(&start.to_le_bytes());
        bytes[base + 16..base + 24].copy_from_slice(&start.to_le_bytes());
        bytes[base + 24..base + 32].copy_from_slice(&pages.to_le_bytes());
        bytes[base + 32..base + 40].copy_from_slice(&7u64.to_le_bytes());
    };
    fill(&mut bytes, 0, MEMORY_TYPE_CONVENTIONAL, 0x100000, 16);
    fill(&mut bytes, stride, MEMORY_TYPE_RESERVED, 0x200000, 4);
    let records = parse_memory_map(&bytes, stride, 2).unwrap();
    assert_eq!(records.len(), 2);
    assert_eq!(records[0].memory_type.0, MEMORY_TYPE_CONVENTIONAL);
    assert_eq!(records[0].physical_start, 0x100000);
    assert_eq!(records[0].virtual_start, 0x100000);
    assert_eq!(records[0].number_of_pages, 16);
    assert_eq!(records[0].attribute, 7);
    assert_eq!(records[1].memory_type.0, MEMORY_TYPE_RESERVED);
    assert_eq!(records[1].physical_start, 0x200000);
    assert_eq!(records[1].number_of_pages, 4);
}

#[test]
fn parse_memory_map_rejects_short_stride_and_buffer() {
    let bytes = vec![0u8; 100];
    assert!(parse_memory_map(&bytes, 39, 2).is_none());
    assert!(parse_memory_map(&bytes, 48, 3).is_none());
}
