//! Behavior of the page allocator on synthetic block layouts.

use bootmem::page_allocator::{Block, PageAllocator, PAGE_SIZE};

/// One block of `pages` pages starting at `start`, all free.
fn single_block(start: usize, pages: usize) -> PageAllocator {
    PageAllocator {
        blocks: vec![Block { start_address: start, page_count: pages, bitmap_start: 0 }],
        bitmap: vec![0u8; pages.div_ceil(8)],
    }
}

#[test]
fn zero_size_returns_alignment() {
    let mut pa = single_block(0x10000, 8);
    assert_eq!(pa.allocate(16, 0), Some(16));
    // nothing was reserved
    assert_eq!(pa.allocated_pages(), 0);
}

#[test]
fn allocate_first_fit_is_lowest_address() {
    let mut pa = single_block(0x10000, 8);
    let a = pa.allocate(1, PAGE_SIZE).unwrap();
    assert_eq!(a, 0x10000);
    let b = pa.allocate(1, PAGE_SIZE).unwrap();
    assert_eq!(b, 0x11000);
}

#[test]
fn allocate_round_trip_get_allocated() {
    let mut pa = single_block(0x10000, 8);
    let a = pa.allocate(1, 2 * PAGE_SIZE).unwrap();
    assert_eq!(pa.get_allocated(a), Some(true));
    pa.free(a, 2 * PAGE_SIZE);
    assert_eq!(pa.get_allocated(a), Some(false));
}

#[test]
fn allocate_no_overlap_back_to_back() {
    let mut pa = single_block(0x10000, 16);
    let a = pa.allocate(1, 3 * PAGE_SIZE).unwrap();
    let b = pa.allocate(1, 2 * PAGE_SIZE).unwrap();
    assert!(a + 3 * PAGE_SIZE <= b || b + 2 * PAGE_SIZE <= a);
}

#[test]
fn allocate_respects_alignment() {
    // block starts one page off a 4-page alignment boundary
    let mut pa = single_block(0x1000, 16);
    let alignment = 4 * PAGE_SIZE;
    let a = pa.allocate(alignment, PAGE_SIZE).unwrap();
    assert_eq!(a % alignment, 0);
    assert_eq!(a, 0x4000);
    // the unaligned pages before it are still free
    assert_eq!(pa.get_allocated(0x1000), Some(false));
}

#[test]
fn conservation_all_observation_points() {
    // thirteen pages: the last bitmap byte has padding bits, which must not
    // count as free pages
    let mut pa = single_block(0x10000, 13);
    assert_eq!(pa.total_pages(), 13);
    assert_eq!(pa.allocated_pages() + pa.free_pages(), pa.total_pages());
    let a = pa.allocate(1, 5 * PAGE_SIZE).unwrap();
    assert_eq!(pa.allocated_pages() + pa.free_pages(), pa.total_pages());
    assert_eq!(pa.allocated_pages(), 5);
    assert_eq!(pa.free_pages(), 8);
    pa.free(a, 5 * PAGE_SIZE);
    assert_eq!(pa.allocated_pages() + pa.free_pages(), pa.total_pages());
    assert_eq!(pa.allocated_pages(), 0);
    assert_eq!(pa.free_pages(), 13);
}

#[test]
fn exhaustion_exactly_n_requests() {
    // a synthetic single block of exactly 12 free pages serves 12 / 3
    // three-page allocations and then refuses
    let mut pa = single_block(0x40000, 12);
    for _ in 0..4 {
        assert!(pa.allocate(1, 3 * PAGE_SIZE).is_some());
    }
    assert_eq!(pa.allocate(1, 3 * PAGE_SIZE), None);
    assert_eq!(pa.free_pages(), 0);
    assert_eq!(pa.allocated_pages(), 12);
}

#[test]
fn first_fit_reuse_after_free() {
    let mut pa = single_block(0x10000, 8);
    let a1 = pa.allocate(1, PAGE_SIZE).unwrap();
    let a2 = pa.allocate(1, PAGE_SIZE).unwrap();
    pa.free(a1, PAGE_SIZE);
    // a two-page request cannot use the freed single page before the
    // still-allocated second one; it must land beyond it
    let a3 = pa.allocate(1, 2 * PAGE_SIZE).unwrap();
    assert!(a3 > a2 || a3 + 2 * PAGE_SIZE <= a2);
    assert_eq!(a3, a2 + PAGE_SIZE);
    assert_eq!(pa.get_allocated(a2), Some(true));
    // the freed first page is only reused once a single page is asked for
    let a4 = pa.allocate(1, PAGE_SIZE).unwrap();
    assert_eq!(a4, a1);
}

#[test]
fn allocation_never_spans_blocks() {
    // two 2-page blocks with a gap; a three-page request cannot be served
    let pa = PageAllocator {
        blocks: vec![
            Block { start_address: 0x10000, page_count: 2, bitmap_start: 0 },
            Block { start_address: 0x20000, page_count: 2, bitmap_start: 2 },
        ],
        bitmap: vec![0u8],
    };
    let mut pa = pa;
    assert_eq!(pa.allocate(1, 3 * PAGE_SIZE), None);
    // but a two-page request fits in the first block
    assert_eq!(pa.allocate(1, 2 * PAGE_SIZE), Some(0x10000));
    // and the next one in the second
    assert_eq!(pa.allocate(1, 2 * PAGE_SIZE), Some(0x20000));
}

#[test]
fn free_out_of_range_is_ignored() {
    let mut pa = single_block(0x10000, 4);
    let a = pa.allocate(1, PAGE_SIZE).unwrap();
    pa.free(0x90000, PAGE_SIZE);
    assert_eq!(pa.get_allocated(a), Some(true));
    assert_eq!(pa.allocated_pages(), 1);
}

#[test]
fn free_zero_size_is_noop() {
    let mut pa = single_block(0x10000, 4);
    let a = pa.allocate(1, PAGE_SIZE).unwrap();
    pa.free(a, 0);
    assert_eq!(pa.get_allocated(a), Some(true));
}

#[test]
fn get_allocated_outside_every_block() {
    let pa = single_block(0x10000, 4);
    assert_eq!(pa.get_allocated(0x0), None);
    assert_eq!(pa.get_allocated(0x10000 + 4 * PAGE_SIZE), None);
    assert_eq!(pa.get_allocated(0x10000), Some(false));
    assert_eq!(pa.get_allocated(0x10000 + 4 * PAGE_SIZE - 1), Some(false));
}

#[test]
fn set_allocated_marks_single_page() {
    let mut pa = single_block(0x10000, 4);
    pa.set_allocated(0x11000, true);
    assert_eq!(pa.get_allocated(0x11000), Some(true));
    assert_eq!(pa.get_allocated(0x10000), Some(false));
    assert_eq!(pa.get_allocated(0x12000), Some(false));
    pa.set_allocated(0x11000, false);
    assert_eq!(pa.get_allocated(0x11000), Some(false));
}

#[test]
fn blocks_accessor_reports_layout() {
    let pa = single_block(0x10000, 4);
    let blocks = pa.blocks();
    assert_eq!(blocks.len(), 1);
    assert_eq!(blocks[0].start_address, 0x10000);
    assert_eq!(blocks[0].page_count, 4);
    assert_eq!(blocks[0].bitmap_start, 0);
}

#[test]
fn empty_allocator_serves_nothing() {
    let mut pa = PageAllocator::empty();
    assert_eq!(pa.allocate(1, PAGE_SIZE), None);
    assert_eq!(pa.total_pages(), 0);
    assert_eq!(pa.allocated_pages(), 0);
    assert_eq!(pa.free_pages(), 0);
}

#[test]
fn byte_size_rounds_up_to_pages() {
    let mut pa = single_block(0x10000, 8);
    // one byte takes a whole page
    let a = pa.allocate(1, 1).unwrap();
    assert_eq!(a, 0x10000);
    assert_eq!(pa.allocated_pages(), 1);
    // 4097 bytes take two pages
    let b = pa.allocate(1, PAGE_SIZE + 1).unwrap();
    assert_eq!(b, 0x11000);
    assert_eq!(pa.allocated_pages(), 3);
}

#[test]
fn allocated_run_resets_candidate() {
    let mut pa = single_block(0x10000, 8);
    // occupy the middle page, splitting the free space into 3 + 4
    pa.set_allocated(0x13000, true);
    // a four-page run must skip the 3-page prefix
    let a = pa.allocate(1, 4 * PAGE_SIZE).unwrap();
    assert_eq!(a, 0x14000);
}

#[test]
fn oversized_request_is_refused() {
    let mut pa = single_block(0x10000, 8);
    assert_eq!(pa.allocate(1, usize::MAX), None);
    assert_eq!(pa.allocated_pages(), 0);
}

#[test]
fn alignment_larger_than_any_block_finds_nothing() {
    let mut pa = single_block(0x1000, 8);
    // no address of this block is a multiple of one mebibyte
    assert_eq!(pa.allocate(0x100000, PAGE_SIZE), None);
}
