//! The heap allocator shim.
//!
//! The language runtime's dynamic-memory hook hands over an alignment and a
//! byte size; the shim rounds every request — however small — up to whole
//! pages and forwards it to the page allocator, reporting exhaustion as the
//! null address. The hook itself (the global-allocator trait) lives at the
//! unverified edge of the kernel and calls these two functions.

use crate::page_allocator::{
    bit_pos, bits_set_in_run, is_covered, is_fit_addr, npages_spec, page_range_bit,
    PageAllocator, PAGE_SIZE,
};
use vstd::prelude::*;

verus! {

/// Serves a byte-granular allocation request from whole pages. Returns the
/// null address when no fitting run of pages exists; a zero-size request
/// reports the alignment itself without reserving anything, as `allocate`
/// does.
pub fn heap_alloc(allocator: &mut PageAllocator, alignment: usize, size: usize) -> (address:
    usize)
    requires
        old(allocator).wf(),
        alignment >= 1,
    ensures
        final(allocator).wf(),
        final(allocator).blocks@ == old(allocator).blocks@,
        final(allocator).bitmap@.len() == old(allocator).bitmap@.len(),
        size == 0 ==> address == alignment && final(allocator).bitmap@ == old(allocator).bitmap@,
        size > 0 && address == 0 ==> {
            ||| (forall|a: int|
                !is_fit_addr(
                    old(allocator).blocks@,
                    old(allocator).bitmap@,
                    alignment as int,
                    npages_spec(size as int),
                    a,
                )) && final(allocator).bitmap@ == old(allocator).bitmap@
            // only an artificial state offering the null page itself can
            // make a successful allocation indistinguishable from failure
            ||| (is_fit_addr(
                old(allocator).blocks@,
                old(allocator).bitmap@,
                alignment as int,
                npages_spec(size as int),
                0,
            ) && bits_set_in_run(
                old(allocator).bitmap@,
                final(allocator).bitmap@,
                bit_pos(old(allocator).blocks@, 0),
                npages_spec(size as int),
            ))
        },
        size > 0 && address != 0 ==> {
            &&& address % alignment == 0
            &&& is_fit_addr(
                old(allocator).blocks@,
                old(allocator).bitmap@,
                alignment as int,
                npages_spec(size as int),
                address as int,
            )
            &&& forall|a: int|
                a < address ==> !is_fit_addr(
                    old(allocator).blocks@,
                    old(allocator).bitmap@,
                    alignment as int,
                    npages_spec(size as int),
                    a,
                )
            &&& is_covered(old(allocator).blocks@, address as int)
            &&& bits_set_in_run(
                old(allocator).bitmap@,
                final(allocator).bitmap@,
                bit_pos(old(allocator).blocks@, address as int),
                npages_spec(size as int),
            )
        },
{
    match allocator.allocate(alignment, size) {
        Some(address) => address,
        None => 0,
    }
}

/// Returns a previously served request's pages to the allocator; the size
/// must be the one the allocation was made with.
pub fn heap_dealloc(allocator: &mut PageAllocator, address: usize, size: usize)
    requires
        old(allocator).wf(),
        size == 0 || address + (npages_spec(size as int) - 1) * PAGE_SIZE <= usize::MAX,
    ensures
        final(allocator).wf(),
        final(allocator).blocks@ == old(allocator).blocks@,
        final(allocator).bitmap@.len() == old(allocator).bitmap@.len(),
        size == 0 ==> final(allocator).bitmap@ == old(allocator).bitmap@,
        size > 0 ==> forall|pos: int|
            0 <= pos < 8 * final(allocator).bitmap@.len() ==> (#[trigger] crate::page_allocator::bit_is_set(
                final(allocator).bitmap@,
                pos,
            )) == (crate::page_allocator::bit_is_set(old(allocator).bitmap@, pos)
                && !page_range_bit(
                old(allocator).blocks@,
                address as int,
                npages_spec(size as int),
                pos,
            )),
{
    allocator.free(address, size);
}

} // verus!
