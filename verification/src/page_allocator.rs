//! The bitmap-backed physical page allocator.
//!
//! Physical memory is a list of `Block`s — maximal runs of contiguous pages —
//! and one flat bitmap with a bit per page across all blocks, set exactly
//! when the page is unavailable (handed out, firmware-reserved, or holding
//! the allocator's own bootstrap metadata). `allocate` serves the first
//! sufficiently long run of free, suitably aligned pages in block order;
//! `free` clears the bits of a previously returned range.

use crate::efi::MemoryDescriptor;
use crate::memory_map::{
    blocks_of, build_blocks, check_identity_mapping, check_regions, count_total_pages,
    lemma_mul_distrib_pages,
    find_metadata_region, map_identity, map_pages_prefix, map_pages_total, map_regions_wf, meta_scan,
    sort_memory_map, sorted_by_start,
};
use vstd::prelude::*;

verus! {

/// Size of one physical page in bytes.
pub const PAGE_SIZE: usize = 4096;

/// One maximal run of physically contiguous pages. Page `j` of the block
/// starts at `start_address + j * PAGE_SIZE` and owns bitmap bit
/// `bitmap_start + j`.
#[derive(Debug, Clone, Copy, PartialEq, Eq, Structural)]
pub struct Block {
    pub start_address: usize,
    pub page_count: usize,
    pub bitmap_start: usize,
}

/// Bit `pos` of the flat bitmap, least significant bit of each byte first.
pub open spec fn bit_is_set(bitmap: Seq<u8>, pos: int) -> bool {
    bitmap[pos / 8] & (1u8 << ((pos % 8) as u8)) != 0
}

/// Number of pages of the first `i` blocks; bit index where block `i`'s
/// pages begin.
pub open spec fn pages_before(blocks: Seq<Block>, i: int) -> int
    decreases i,
{
    if i <= 0 {
        0
    } else {
        pages_before(blocks, i - 1) + blocks[i - 1].page_count
    }
}

/// Total number of pages tracked across all blocks.
pub open spec fn total_pages_spec(blocks: Seq<Block>) -> int {
    pages_before(blocks, blocks.len() as int)
}

/// Structural soundness of a block table: bitmap indices are the prefix page
/// sums, block address ranges fit in the address space, and blocks are
/// sorted and disjoint.
pub open spec fn blocks_wf(blocks: Seq<Block>) -> bool {
    &&& forall|i: int|
        0 <= i < blocks.len() ==> (#[trigger] blocks[i]).bitmap_start == pages_before(blocks, i)
    &&& forall|i: int|
        0 <= i < blocks.len() ==> (#[trigger] blocks[i]).start_address + blocks[i].page_count
            * PAGE_SIZE <= usize::MAX
    &&& forall|i: int|
        0 <= i < blocks.len() - 1 ==> (#[trigger] blocks[i]).start_address + blocks[i].page_count
            * PAGE_SIZE <= blocks[i + 1].start_address
}

/// Whether block `i` covers address `addr`.
pub open spec fn covers(blocks: Seq<Block>, i: int, addr: int) -> bool {
    &&& 0 <= i < blocks.len()
    &&& blocks[i].start_address <= addr < blocks[i].start_address + blocks[i].page_count * PAGE_SIZE
}

/// Whether some block covers address `addr`.
pub open spec fn is_covered(blocks: Seq<Block>, addr: int) -> bool {
    exists|i: int| covers(blocks, i, addr)
}

/// The index of the block covering `addr` (unique under `blocks_wf`).
pub open spec fn covering_block(blocks: Seq<Block>, addr: int) -> int {
    choose|i: int| covers(blocks, i, addr)
}

/// The bitmap bit that tracks the page containing address `addr`.
pub open spec fn bit_pos(blocks: Seq<Block>, addr: int) -> int {
    let i = covering_block(blocks, addr);
    blocks[i].bitmap_start + (addr - blocks[i].start_address) / (PAGE_SIZE as int)
}

/// Every prefix page sum is non-negative.
pub proof fn lemma_pages_before_nonneg(blocks: Seq<Block>, i: int)
    ensures
        pages_before(blocks, i) >= 0,
    decreases i,
{
    if i > 0 {
        lemma_pages_before_nonneg(blocks, i - 1);
    }
}

/// Prefix page sums grow monotonically.
pub proof fn lemma_pages_before_mono(blocks: Seq<Block>, i: int, j: int)
    requires
        i <= j,
    ensures
        pages_before(blocks, i) <= pages_before(blocks, j),
    decreases j - i,
{
    if i < j {
        lemma_pages_before_mono(blocks, i, j - 1);
    }
}

/// The pages of block `i` all have bit indices below the total.
pub proof fn lemma_block_bits_in_range(blocks: Seq<Block>, i: int)
    requires
        0 <= i < blocks.len(),
    ensures
        pages_before(blocks, i) >= 0,
        pages_before(blocks, i) + blocks[i].page_count <= total_pages_spec(blocks),
{
    lemma_pages_before_nonneg(blocks, i);
    lemma_pages_before_mono(blocks, i + 1, blocks.len() as int);
}

/// Blocks that come earlier in the table occupy lower addresses, with their
/// whole range below the start of any later block.
pub proof fn lemma_block_order(blocks: Seq<Block>, i: int, j: int)
    requires
        blocks_wf(blocks),
        0 <= i < j < blocks.len(),
    ensures
        blocks[i].start_address + blocks[i].page_count * PAGE_SIZE <= blocks[j].start_address,
    decreases j - i,
{
    if i + 1 < j {
        lemma_block_order(blocks, i + 1, j);
        lemma_pages_size_nonneg(blocks, i + 1);
    }
}

proof fn lemma_pages_size_nonneg(blocks: Seq<Block>, i: int)
    requires
        0 <= i < blocks.len(),
    ensures
        blocks[i].page_count * PAGE_SIZE >= 0,
{
    assert(blocks[i].page_count * PAGE_SIZE >= 0) by (nonlinear_arith)
        requires
            blocks[i].page_count >= 0,
    ;
}

/// Under a well-formed block table at most one block covers any address.
pub proof fn lemma_covers_unique(blocks: Seq<Block>, i: int, j: int, addr: int)
    requires
        blocks_wf(blocks),
        covers(blocks, i, addr),
        covers(blocks, j, addr),
    ensures
        i == j,
{
    if i < j {
        lemma_block_order(blocks, i, j);
    }
    if j < i {
        lemma_block_order(blocks, j, i);
    }
}

/// The offset of a covered address within its block resolves to a page index
/// inside the block.
proof fn lemma_offset_page(start: int, page_count: int, addr: int)
    requires
        start <= addr < start + page_count * PAGE_SIZE,
    ensures
        0 <= (addr - start) / (PAGE_SIZE as int) < page_count,
{
    assert(0 <= (addr - start) / (PAGE_SIZE as int) < page_count) by (nonlinear_arith)
        requires
            0 <= addr - start < page_count * PAGE_SIZE,
            PAGE_SIZE == 4096,
    ;
}

/// The bit of a covered address lies inside its block's bit range, hence
/// below the total page count.
pub proof fn lemma_bit_pos_in_block(blocks: Seq<Block>, i: int, addr: int)
    requires
        blocks_wf(blocks),
        covers(blocks, i, addr),
    ensures
        covering_block(blocks, addr) == i,
        bit_pos(blocks, addr) == blocks[i].bitmap_start + (addr - blocks[i].start_address) / (
        PAGE_SIZE as int),
        blocks[i].bitmap_start <= bit_pos(blocks, addr) < blocks[i].bitmap_start
            + blocks[i].page_count,
        0 <= bit_pos(blocks, addr) < total_pages_spec(blocks),
{
    assert(is_covered(blocks, addr));
    lemma_covers_unique(blocks, i, covering_block(blocks, addr), addr);
    lemma_offset_page(
        blocks[i].start_address as int,
        blocks[i].page_count as int,
        addr,
    );
    lemma_block_bits_in_range(blocks, i);
}

/// The bitmap-backed physical page allocator: the block table, immutable
/// after bootstrap, and the allocation bitmap.
pub struct PageAllocator {
    pub blocks: Vec<Block>,
    pub bitmap: Vec<u8>,
}

impl PageAllocator {
    /// Well-formedness: sound block table, a bitmap sized to exactly one bit
    /// per page (rounded up to whole bytes), every address computation in
    /// range, and the padding bits of the last byte never set.
    pub open spec fn wf(&self) -> bool {
        &&& blocks_wf(self.blocks@)
        &&& 8 * total_pages_spec(self.blocks@) <= usize::MAX
        &&& self.bitmap@.len() == (total_pages_spec(self.blocks@) + 7) / 8
        &&& forall|pos: int|
            total_pages_spec(self.blocks@) <= pos < 8 * self.bitmap@.len()
                ==> !(#[trigger] bit_is_set(self.bitmap@, pos))
    }

    /// The empty placeholder that exists before bootstrap: no blocks, no
    /// bitmap.
    pub fn empty() -> (result: Self)
        ensures
            result.wf(),
            result.blocks@.len() == 0,
            result.bitmap@.len() == 0,
    {
        PageAllocator { blocks: Vec::new(), bitmap: Vec::new() }
    }

    /// The block table.
    pub fn blocks(&self) -> (result: &Vec<Block>)
        ensures
            result@ == self.blocks@,
    {
        &self.blocks
    }

    /// Whether the page containing `address` is currently unavailable;
    /// `None` when no block tracks the address.
    pub fn get_allocated(&self, address: usize) -> (result: Option<bool>)
        requires
            self.wf(),
        ensures
            result == if is_covered(self.blocks@, address as int) {
                Some(bit_is_set(self.bitmap@, bit_pos(self.blocks@, address as int)))
            } else {
                None::<bool>
            },
    {
        let n = self.blocks.len();
        let mut bi: usize = 0;
        while bi < n
            invariant
                self.wf(),
                n == self.blocks@.len(),
                0 <= bi <= n,
                forall|k: int| 0 <= k < bi ==> !covers(self.blocks@, k, address as int),
            decreases n - bi,
        {
            let block = self.blocks[bi];
            if address >= block.start_address && address < block.start_address + block.page_count
                * PAGE_SIZE {
                proof {
                    assert(covers(self.blocks@, bi as int, address as int));
                    lemma_bit_pos_in_block(self.blocks@, bi as int, address as int);
                }
                let index = block.bitmap_start + (address - block.start_address) / PAGE_SIZE;
                let byte_index = index / 8;
                let bit_index = (index % 8) as u8;
                return Some(self.bitmap[byte_index] & (1u8 << bit_index) != 0);
            }
            bi = bi + 1;
        }
        proof {
            assert(!is_covered(self.blocks@, address as int));
        }
        None
    }

    /// Sets or clears the bit of the page containing `address`; an address
    /// outside every block is silently ignored.
    pub fn set_allocated(&mut self, address: usize, value: bool)
        requires
            old(self).wf(),
        ensures
            final(self).wf(),
            final(self).blocks@ == old(self).blocks@,
            final(self).bitmap@.len() == old(self).bitmap@.len(),
            forall|pos: int|
                0 <= pos < 8 * final(self).bitmap@.len() ==> (#[trigger] bit_is_set(
                    final(self).bitmap@,
                    pos,
                )) == if is_covered(old(self).blocks@, address as int) && pos == bit_pos(
                    old(self).blocks@,
                    address as int,
                ) {
                    value
                } else {
                    bit_is_set(old(self).bitmap@, pos)
                },
    {
        let n = self.blocks.len();
        let mut bi: usize = 0;
        while bi < n
            invariant
                self.wf(),
                self.blocks@ == old(self).blocks@,
                self.bitmap@ == old(self).bitmap@,
                n == self.blocks@.len(),
                0 <= bi <= n,
                forall|k: int| 0 <= k < bi ==> !covers(self.blocks@, k, address as int),
            decreases n - bi,
        {
            let block = self.blocks[bi];
            if address >= block.start_address && address < block.start_address + block.page_count
                * PAGE_SIZE {
                proof {
                    assert(covers(self.blocks@, bi as int, address as int));
                    lemma_bit_pos_in_block(self.blocks@, bi as int, address as int);
                }
                let index = block.bitmap_start + (address - block.start_address) / PAGE_SIZE;
                let byte_index = index / 8;
                let bit_index = (index % 8) as u8;
                let old_byte = self.bitmap[byte_index];
                let new_byte = if value {
                    old_byte | (1u8 << bit_index)
                } else {
                    old_byte & !(1u8 << bit_index)
                };
                self.bitmap.set(byte_index, new_byte);
                proof {
                    let target = bit_pos(self.blocks@, address as int);
                    assert(target == index);
                    assert forall|pos: int| 0 <= pos < 8 * self.bitmap@.len() implies (
                    #[trigger] bit_is_set(self.bitmap@, pos)) == if pos == target {
                        value
                    } else {
                        bit_is_set(old(self).bitmap@, pos)
                    } by {
                        if pos / 8 == byte_index as int {
                            lemma_u8_bit_update(old_byte, bit_index, (pos % 8) as u8);
                        } else {
                            assert(self.bitmap@[pos / 8] == old(self).bitmap@[pos / 8]);
                        }
                    }
                    assert forall|pos: int|
                        total_pages_spec(self.blocks@) <= pos < 8 * self.bitmap@.len() implies !(
                    #[trigger] bit_is_set(self.bitmap@, pos)) by {
                        assert(target < total_pages_spec(self.blocks@));
                        assert(!bit_is_set(old(self).bitmap@, pos));
                    }
                }
                return ;
            }
            bi = bi + 1;
        }
        proof {
            assert(!is_covered(self.blocks@, address as int));
        }
    }
}

/// Number of pages needed to hold `size` bytes.
pub open spec fn npages_spec(size: int) -> int {
    size / (PAGE_SIZE as int) + if size % (PAGE_SIZE as int) != 0 {
        1int
    } else {
        0int
    }
}

/// `k` pages hold `size > 0` bytes exactly when `k` reaches the rounded-up
/// page count.
pub proof fn lemma_npages(size: int, k: int)
    requires
        size >= 1,
        k >= 0,
    ensures
        (k * PAGE_SIZE >= size) <==> (k >= npages_spec(size)),
        npages_spec(size) >= 1,
{
    vstd::arithmetic::div_mod::lemma_fundamental_div_mod(size, PAGE_SIZE as int);
}

/// A page count derived from a machine-word byte count fits the machine
/// word itself.
pub proof fn lemma_npages_usize(size: int)
    requires
        0 <= size <= usize::MAX,
    ensures
        0 <= npages_spec(size) <= usize::MAX,
{
    vstd::arithmetic::div_mod::lemma_fundamental_div_mod(size, PAGE_SIZE as int);
}

/// Rounds a byte count up to whole pages.
pub fn pages_needed(size: usize) -> (result: usize)
    ensures
        result == npages_spec(size as int),
{
    proof {
        vstd::arithmetic::div_mod::lemma_fundamental_div_mod(size as int, PAGE_SIZE as int);
    }
    size / PAGE_SIZE + if size % PAGE_SIZE != 0 {
        1
    } else {
        0
    }
}

/// Bit of page `j` of block `i`.
pub open spec fn block_page_set(blocks: Seq<Block>, bitmap: Seq<u8>, i: int, j: int) -> bool {
    bit_is_set(bitmap, blocks[i].bitmap_start + j)
}

/// An allocation of `npages` pages aligned to `alignment` fits at page `p`
/// of block `i`: the run stays inside the block, starts at an aligned
/// address, and every page of it is free.
pub open spec fn fits_at(
    blocks: Seq<Block>,
    bitmap: Seq<u8>,
    alignment: int,
    npages: int,
    i: int,
    p: int,
) -> bool {
    &&& 0 <= i < blocks.len()
    &&& 0 <= p
    &&& p + npages <= blocks[i].page_count
    &&& (blocks[i].start_address + p * PAGE_SIZE) % alignment == 0
    &&& forall|j: int| p <= j < p + npages ==> !(#[trigger] block_page_set(blocks, bitmap, i, j))
}

/// Address `addr` is the start of some fitting run.
pub open spec fn is_fit_addr(
    blocks: Seq<Block>,
    bitmap: Seq<u8>,
    alignment: int,
    npages: int,
    addr: int,
) -> bool {
    exists|i: int, p: int|
        fits_at(blocks, bitmap, alignment, npages, i, p) && addr == blocks[i].start_address + p
            * PAGE_SIZE
}

/// The new bitmap equals the old one with exactly the `npages` bits from
/// `run_start` upward set.
pub open spec fn bits_set_in_run(
    old_bm: Seq<u8>,
    new_bm: Seq<u8>,
    run_start: int,
    npages: int,
) -> bool {
    &&& new_bm.len() == old_bm.len()
    &&& forall|pos: int|
        0 <= pos < 8 * new_bm.len() ==> (#[trigger] bit_is_set(new_bm, pos)) == (run_start <= pos
            < run_start + npages || bit_is_set(old_bm, pos))
}

/// Multiplying a smaller page count by the page size keeps it smaller.
proof fn lemma_mul_pages_le(a: int, b: int)
    requires
        a <= b,
    ensures
        a * PAGE_SIZE <= b * PAGE_SIZE,
{
    assert(a * PAGE_SIZE <= b * PAGE_SIZE) by (nonlinear_arith)
        requires
            a <= b,
            PAGE_SIZE >= 1,
    ;
}

/// Bit `pos` tracks one of the `npages` pages at `addr`, `addr + PAGE_SIZE`,
/// and so on; page addresses outside every block contribute nothing.
pub open spec fn page_range_bit(blocks: Seq<Block>, addr: int, npages: int, pos: int) -> bool {
    exists|k: int|
        0 <= k < npages && #[trigger] is_covered(blocks, addr + k * PAGE_SIZE) && pos == bit_pos(
            blocks,
            addr + k * PAGE_SIZE,
        )
}

/// Set bits of byte `b` among its lowest `k` bits.
pub open spec fn ones_in_byte(b: u8, k: int) -> int
    decreases k,
{
    if k <= 0 {
        0
    } else {
        ones_in_byte(b, k - 1) + if b & (1u8 << ((k - 1) as u8)) != 0 {
            1int
        } else {
            0int
        }
    }
}

/// Set bits of the first `n` bytes of the bitmap.
pub open spec fn ones_prefix(bitmap: Seq<u8>, n: int) -> int
    decreases n,
{
    if n <= 0 {
        0
    } else {
        ones_prefix(bitmap, n - 1) + ones_in_byte(bitmap[n - 1], 8)
    }
}

/// Set bits of the whole bitmap: the number of unavailable pages.
pub open spec fn total_ones(bitmap: Seq<u8>) -> int {
    ones_prefix(bitmap, bitmap.len() as int)
}

pub proof fn lemma_ones_in_byte_bound(b: u8, k: int)
    ensures
        0 <= ones_in_byte(b, k) <= if k >= 0 {
            k
        } else {
            0int
        },
    decreases k,
{
    if k > 0 {
        lemma_ones_in_byte_bound(b, k - 1);
    }
}

pub proof fn lemma_ones_prefix_bound(bitmap: Seq<u8>, n: int)
    ensures
        0 <= ones_prefix(bitmap, n) <= if n >= 0 {
            8 * n
        } else {
            0int
        },
    decreases n,
{
    if n > 0 {
        lemma_ones_prefix_bound(bitmap, n - 1);
        lemma_ones_in_byte_bound(bitmap[n - 1], 8);
    }
}

/// Number of set bits in one byte.
fn count_ones_byte(b: u8) -> (result: usize)
    ensures
        result == ones_in_byte(b, 8),
        result <= 8,
{
    let mut count: usize = 0;
    let mut k: usize = 0;
    while k < 8
        invariant
            0 <= k <= 8,
            count == ones_in_byte(b, k as int),
            count <= k,
        decreases 8 - k,
    {
        if b & (1u8 << (k as u8)) != 0 {
            count = count + 1;
        }
        k = k + 1;
    }
    count
}

impl PageAllocator {
    /// The page index of the first fitting run inside block `bi`: the lowest
    /// page starting an aligned run of `npages` free pages that stays within
    /// the block.
    fn find_fit_in_block(
        &self,
        bi: usize,
        alignment: usize,
        size: usize,
        npages: usize,
    ) -> (result: Option<usize>)
        requires
            self.wf(),
            0 <= bi < self.blocks@.len(),
            alignment >= 1,
            size >= 1,
            npages == npages_spec(size as int),
        ensures
            match result {
                Some(p) => {
                    &&& fits_at(
                        self.blocks@,
                        self.bitmap@,
                        alignment as int,
                        npages as int,
                        bi as int,
                        p as int,
                    )
                    &&& forall|p2: int|
                        p2 < p ==> !fits_at(
                            self.blocks@,
                            self.bitmap@,
                            alignment as int,
                            npages as int,
                            bi as int,
                            p2,
                        )
                },
                None => forall|p2: int|
                    !fits_at(
                        self.blocks@,
                        self.bitmap@,
                        alignment as int,
                        npages as int,
                        bi as int,
                        p2,
                    ),
            },
    {
        let block = self.blocks[bi];
        proof {
            lemma_npages(size as int, 0);
            lemma_block_bits_in_range(self.blocks@, bi as int);
        }
        let mut start: Option<usize> = None;
        let mut seen_count: usize = 0;
        let mut page: usize = 0;
        while page < block.page_count
            invariant
                self.wf(),
                0 <= bi < self.blocks@.len(),
                block == self.blocks@[bi as int],
                alignment >= 1,
                size >= 1,
                npages == npages_spec(size as int),
                npages >= 1,
                0 <= page <= block.page_count,
                start matches Some(s) ==> {
                    &&& 0 <= s <= page
                    &&& (block.start_address + s * PAGE_SIZE) % (alignment as int) == 0
                    &&& seen_count == (page - s) * PAGE_SIZE
                    &&& seen_count < size
                    &&& forall|j: int|
                        s <= j < page ==> !(#[trigger] block_page_set(
                            self.blocks@,
                            self.bitmap@,
                            bi as int,
                            j,
                        ))
                    &&& forall|p2: int|
                        p2 < s ==> !fits_at(
                            self.blocks@,
                            self.bitmap@,
                            alignment as int,
                            npages as int,
                            bi as int,
                            p2,
                        )
                },
                start is None ==> seen_count == 0 && (forall|p2: int|
                    p2 < page ==> !fits_at(
                        self.blocks@,
                        self.bitmap@,
                        alignment as int,
                        npages as int,
                        bi as int,
                        p2,
                    )),
            decreases block.page_count - page,
        {
            proof {
                lemma_block_bits_in_range(self.blocks@, bi as int);
            }
            let index = block.bitmap_start + page;
            let byte_index = index / 8;
            let bit_index = (index % 8) as u8;
            if self.bitmap[byte_index] & (1u8 << bit_index) != 0 {
                proof {
                    assert(block_page_set(self.blocks@, self.bitmap@, bi as int, page as int));
                    let cutoff: int = match start {
                        Some(s) => s as int,
                        None => page as int,
                    };
                    assert forall|p2: int| p2 < page + 1 implies !fits_at(
                        self.blocks@,
                        self.bitmap@,
                        alignment as int,
                        npages as int,
                        bi as int,
                        p2,
                    ) by {
                        if p2 >= cutoff && fits_at(
                            self.blocks@,
                            self.bitmap@,
                            alignment as int,
                            npages as int,
                            bi as int,
                            p2,
                        ) {
                            assert(p2 <= page < p2 + npages);
                            assert(!block_page_set(
                                self.blocks@,
                                self.bitmap@,
                                bi as int,
                                page as int,
                            ));
                        }
                    }
                }
                start = None;
                seen_count = 0;
            } else {
                if start.is_none() {
                    proof {
                        lemma_mul_pages_le(page as int, block.page_count as int);
                    }
                    if (block.start_address + page * PAGE_SIZE) % alignment != 0 {
                        // an allocation cannot start at an unaligned page
                        page = page + 1;
                        continue ;
                    }
                    start = Some(page);
                }
                let s = match start {
                    Some(s) => s,
                    None => 0,
                };
                proof {
                    lemma_mul_pages_le((page + 1 - s) as int, block.page_count as int);
                    lemma_mul_pages_le(page as int, block.page_count as int);
                }
                seen_count = seen_count + PAGE_SIZE;
                if seen_count >= size {
                    proof {
                        lemma_npages(size as int, page + 1 - s);
                        assert(s + npages <= page + 1);
                        assert(fits_at(
                            self.blocks@,
                            self.bitmap@,
                            alignment as int,
                            npages as int,
                            bi as int,
                            s as int,
                        ));
                    }
                    return Some(s);
                }
            }
            page = page + 1;
        }
        proof {
            assert forall|p2: int|
                !fits_at(
                    self.blocks@,
                    self.bitmap@,
                    alignment as int,
                    npages as int,
                    bi as int,
                    p2,
                ) by {
                match start {
                    Some(sv) => {
                        assert(seen_count == (block.page_count - sv) * PAGE_SIZE);
                        lemma_npages(size as int, block.page_count - sv as int);
                        if p2 >= sv as int && fits_at(
                            self.blocks@,
                            self.bitmap@,
                            alignment as int,
                            npages as int,
                            bi as int,
                            p2,
                        ) {
                            assert(p2 + npages > block.page_count);
                        }
                    },
                    None => {
                        if fits_at(
                            self.blocks@,
                            self.bitmap@,
                            alignment as int,
                            npages as int,
                            bi as int,
                            p2,
                        ) {
                            assert(0 <= p2 < block.page_count);
                        }
                    },
                }
            }
        }
        None
    }

    /// Sets the `npages` consecutive bitmap bits starting at `run_start_bit`.
    fn mark_run(&mut self, run_start_bit: usize, npages: usize)
        requires
            old(self).wf(),
            run_start_bit + npages <= total_pages_spec(old(self).blocks@),
        ensures
            final(self).wf(),
            final(self).blocks@ == old(self).blocks@,
            bits_set_in_run(
                old(self).bitmap@,
                final(self).bitmap@,
                run_start_bit as int,
                npages as int,
            ),
    {
        proof {
            lemma_pages_before_nonneg(self.blocks@, self.blocks@.len() as int);
        }
        let mut k: usize = 0;
        while k < npages
            invariant
                self.blocks@ == old(self).blocks@,
                blocks_wf(self.blocks@),
                8 * total_pages_spec(self.blocks@) <= usize::MAX,
                self.bitmap@.len() == old(self).bitmap@.len(),
                self.bitmap@.len() == (total_pages_spec(self.blocks@) + 7) / 8,
                run_start_bit + npages <= total_pages_spec(self.blocks@),
                0 <= k <= npages,
                forall|pos: int|
                    0 <= pos < 8 * self.bitmap@.len() ==> (#[trigger] bit_is_set(
                        self.bitmap@,
                        pos,
                    )) == (run_start_bit <= pos < run_start_bit + k || bit_is_set(
                        old(self).bitmap@,
                        pos,
                    )),
                forall|pos: int|
                    total_pages_spec(self.blocks@) <= pos < 8 * self.bitmap@.len() ==> !(
                    #[trigger] bit_is_set(old(self).bitmap@, pos)),
            decreases npages - k,
        {
            let idx = run_start_bit + k;
            let byi = idx / 8;
            let bii = (idx % 8) as u8;
            let old_byte = self.bitmap[byi];
            let ghost prev = self.bitmap@;
            self.bitmap.set(byi, old_byte | (1u8 << bii));
            proof {
                vstd::arithmetic::div_mod::lemma_fundamental_div_mod(idx as int, 8);
                assert forall|pos: int| 0 <= pos < 8 * self.bitmap@.len() implies (
                #[trigger] bit_is_set(self.bitmap@, pos)) == (run_start_bit <= pos < run_start_bit
                    + (k + 1) || bit_is_set(old(self).bitmap@, pos)) by {
                    assert(bit_is_set(prev, pos) == (run_start_bit <= pos < run_start_bit + k
                        || bit_is_set(old(self).bitmap@, pos)));
                    vstd::arithmetic::div_mod::lemma_fundamental_div_mod(pos, 8);
                    if pos / 8 == byi as int {
                        lemma_u8_bit_update(old_byte, bii, (pos % 8) as u8);
                    } else {
                        assert(self.bitmap@[pos / 8] == prev[pos / 8]);
                    }
                }
            }
            k = k + 1;
        }
    }

    /// First-fit page allocation. A request of zero bytes reserves nothing
    /// and returns the alignment itself as its address — a deliberate
    /// conflation its callers lean on. Otherwise the lowest address starting an aligned run of
    /// enough free pages inside a single block is claimed and returned;
    /// `None` when no block has such a run.
    pub fn allocate(&mut self, alignment: usize, size: usize) -> (result: Option<usize>)
        requires
            old(self).wf(),
            alignment >= 1,
        ensures
            final(self).wf(),
            final(self).blocks@ == old(self).blocks@,
            final(self).bitmap@.len() == old(self).bitmap@.len(),
            size == 0 ==> result == Some(alignment) && final(self).bitmap@ == old(self).bitmap@,
            size > 0 ==> match result {
                Some(address) => {
                    &&& address % alignment == 0
                    &&& is_fit_addr(
                        old(self).blocks@,
                        old(self).bitmap@,
                        alignment as int,
                        npages_spec(size as int),
                        address as int,
                    )
                    &&& forall|a: int|
                        a < address ==> !is_fit_addr(
                            old(self).blocks@,
                            old(self).bitmap@,
                            alignment as int,
                            npages_spec(size as int),
                            a,
                        )
                    &&& is_covered(old(self).blocks@, address as int)
                    &&& bit_pos(old(self).blocks@, address as int) + npages_spec(size as int)
                        <= total_pages_spec(old(self).blocks@)
                    &&& bits_set_in_run(
                        old(self).bitmap@,
                        final(self).bitmap@,
                        bit_pos(old(self).blocks@, address as int),
                        npages_spec(size as int),
                    )
                },
                None => {
                    &&& forall|a: int|
                        !is_fit_addr(
                            old(self).blocks@,
                            old(self).bitmap@,
                            alignment as int,
                            npages_spec(size as int),
                            a,
                        )
                    &&& final(self).bitmap@ == old(self).bitmap@
                },
            },
    {
        if size == 0 {
            return Some(alignment);
        }
        let npages = pages_needed(size);
        proof {
            lemma_npages(size as int, 0);
        }
        let n = self.blocks.len();
        let mut bi: usize = 0;
        while bi < n
            invariant
                self.wf(),
                self.blocks@ == old(self).blocks@,
                self.bitmap@ == old(self).bitmap@,
                n == self.blocks@.len(),
                0 <= bi <= n,
                alignment >= 1,
                size >= 1,
                npages == npages_spec(size as int),
                npages >= 1,
                forall|i: int, p: int|
                    0 <= i < bi ==> !fits_at(
                        self.blocks@,
                        self.bitmap@,
                        alignment as int,
                        npages as int,
                        i,
                        p,
                    ),
            decreases n - bi,
        {
            match self.find_fit_in_block(bi, alignment, size, npages) {
                Some(s) => {
                    let block = self.blocks[bi];
                    proof {
                        lemma_page_addr(self.blocks@, bi as int, s as int);
                        lemma_block_bits_in_range(self.blocks@, bi as int);
                    }
                    let run_start_bit = block.bitmap_start + s;
                    let address = block.start_address + s * PAGE_SIZE;
                    proof {
                        lemma_first_fit_minimal(
                            self.blocks@,
                            self.bitmap@,
                            alignment as int,
                            npages as int,
                            bi as int,
                            s as int,
                        );
                        assert(is_fit_addr(
                            self.blocks@,
                            self.bitmap@,
                            alignment as int,
                            npages as int,
                            address as int,
                        ));
                    }
                    self.mark_run(run_start_bit, npages);
                    return Some(address);
                },
                None => {
                    proof {
                        assert forall|i: int, p: int| 0 <= i < bi + 1 implies !fits_at(
                            self.blocks@,
                            self.bitmap@,
                            alignment as int,
                            npages as int,
                            i,
                            p,
                        ) by {}
                    }
                },
            }
            bi = bi + 1;
        }
        proof {
            assert forall|a: int|
                !is_fit_addr(
                    self.blocks@,
                    self.bitmap@,
                    alignment as int,
                    npages as int,
                    a,
                ) by {
                if is_fit_addr(self.blocks@, self.bitmap@, alignment as int, npages as int, a) {
                    let (i, p) = choose|i: int, p: int|
                        fits_at(self.blocks@, self.bitmap@, alignment as int, npages as int, i, p)
                            && a == self.blocks@[i].start_address + p * PAGE_SIZE;
                    assert(!fits_at(
                        self.blocks@,
                        self.bitmap@,
                        alignment as int,
                        npages as int,
                        i,
                        p,
                    ));
                }
            }
        }
        None
    }

    /// Clears the page bits of `[address, address + size)` rounded up to
    /// whole pages; a zero size is a no-op, and page addresses outside every
    /// block are silently ignored.
    pub fn free(&mut self, address: usize, size: usize)
        requires
            old(self).wf(),
            size == 0 || address + (npages_spec(size as int) - 1) * PAGE_SIZE <= usize::MAX,
        ensures
            final(self).wf(),
            final(self).blocks@ == old(self).blocks@,
            final(self).bitmap@.len() == old(self).bitmap@.len(),
            size == 0 ==> final(self).bitmap@ == old(self).bitmap@,
            size > 0 ==> forall|pos: int|
                0 <= pos < 8 * final(self).bitmap@.len() ==> (#[trigger] bit_is_set(
                    final(self).bitmap@,
                    pos,
                )) == (bit_is_set(old(self).bitmap@, pos) && !page_range_bit(
                    old(self).blocks@,
                    address as int,
                    npages_spec(size as int),
                    pos,
                )),
    {
        if size == 0 {
            return ;
        }
        let npages = pages_needed(size);
        proof {
            lemma_npages(size as int, 0);
        }
        let mut k: usize = 0;
        while k < npages
            invariant
                self.wf(),
                self.blocks@ == old(self).blocks@,
                self.bitmap@.len() == old(self).bitmap@.len(),
                size >= 1,
                npages == npages_spec(size as int),
                npages >= 1,
                0 <= k <= npages,
                address + (npages - 1) * PAGE_SIZE <= usize::MAX,
                forall|pos: int|
                    0 <= pos < 8 * self.bitmap@.len() ==> (#[trigger] bit_is_set(
                        self.bitmap@,
                        pos,
                    )) == (bit_is_set(old(self).bitmap@, pos) && !page_range_bit(
                        old(self).blocks@,
                        address as int,
                        k as int,
                        pos,
                    )),
            decreases npages - k,
        {
            proof {
                lemma_mul_pages_le(k as int, (npages - 1) as int);
                lemma_mul_pages_le(0, k as int);
            }
            let page_address = address + k * PAGE_SIZE;
            let ghost prev = self.bitmap@;
            self.set_allocated(page_address, false);
            proof {
                assert forall|pos: int| 0 <= pos < 8 * self.bitmap@.len() implies (
                #[trigger] bit_is_set(self.bitmap@, pos)) == (bit_is_set(old(self).bitmap@, pos)
                    && !page_range_bit(old(self).blocks@, address as int, k + 1, pos)) by {
                    if page_range_bit(old(self).blocks@, address as int, k + 1, pos) {
                        let kk = choose|kk: int|
                            0 <= kk < k + 1 && #[trigger] is_covered(
                                old(self).blocks@,
                                address + kk * PAGE_SIZE,
                            ) && pos == bit_pos(old(self).blocks@, address + kk * PAGE_SIZE);
                        if kk < k {
                            assert(page_range_bit(old(self).blocks@, address as int, k as int, pos));
                        }
                    }
                    if page_range_bit(old(self).blocks@, address as int, k as int, pos) {
                        let kk = choose|kk: int|
                            0 <= kk < k && #[trigger] is_covered(
                                old(self).blocks@,
                                address + kk * PAGE_SIZE,
                            ) && pos == bit_pos(old(self).blocks@, address + kk * PAGE_SIZE);
                        assert(page_range_bit(old(self).blocks@, address as int, k + 1, pos));
                    }
                }
            }
            k = k + 1;
        }
    }

    /// Sets the page bits of `count` pages starting at `base`; page
    /// addresses outside every block are silently ignored.
    pub fn mark_pages(&mut self, base: usize, count: usize)
        requires
            old(self).wf(),
            count == 0 || base + (count - 1) * PAGE_SIZE <= usize::MAX,
        ensures
            final(self).wf(),
            final(self).blocks@ == old(self).blocks@,
            final(self).bitmap@.len() == old(self).bitmap@.len(),
            forall|pos: int|
                0 <= pos < 8 * final(self).bitmap@.len() ==> (#[trigger] bit_is_set(
                    final(self).bitmap@,
                    pos,
                )) == (bit_is_set(old(self).bitmap@, pos) || page_range_bit(
                    old(self).blocks@,
                    base as int,
                    count as int,
                    pos,
                )),
    {
        let mut k: usize = 0;
        while k < count
            invariant
                self.wf(),
                self.blocks@ == old(self).blocks@,
                self.bitmap@.len() == old(self).bitmap@.len(),
                0 <= k <= count,
                count == 0 || base + (count - 1) * PAGE_SIZE <= usize::MAX,
                forall|pos: int|
                    0 <= pos < 8 * self.bitmap@.len() ==> (#[trigger] bit_is_set(
                        self.bitmap@,
                        pos,
                    )) == (bit_is_set(old(self).bitmap@, pos) || page_range_bit(
                        old(self).blocks@,
                        base as int,
                        k as int,
                        pos,
                    )),
            decreases count - k,
        {
            proof {
                lemma_mul_pages_le(k as int, (count - 1) as int);
                lemma_mul_pages_le(0, k as int);
            }
            let page_address = base + k * PAGE_SIZE;
            self.set_allocated(page_address, true);
            proof {
                assert forall|pos: int| 0 <= pos < 8 * self.bitmap@.len() implies (
                #[trigger] bit_is_set(self.bitmap@, pos)) == (bit_is_set(old(self).bitmap@, pos)
                    || page_range_bit(old(self).blocks@, base as int, k + 1, pos)) by {
                    if page_range_bit(old(self).blocks@, base as int, k + 1, pos) {
                        let kk = choose|kk: int|
                            0 <= kk < k + 1 && #[trigger] is_covered(
                                old(self).blocks@,
                                base + kk * PAGE_SIZE,
                            ) && pos == bit_pos(old(self).blocks@, base + kk * PAGE_SIZE);
                        if kk < k {
                            assert(page_range_bit(old(self).blocks@, base as int, k as int, pos));
                        }
                    }
                    if page_range_bit(old(self).blocks@, base as int, k as int, pos) {
                        let kk = choose|kk: int|
                            0 <= kk < k && #[trigger] is_covered(
                                old(self).blocks@,
                                base + kk * PAGE_SIZE,
                            ) && pos == bit_pos(old(self).blocks@, base + kk * PAGE_SIZE);
                        assert(page_range_bit(old(self).blocks@, base as int, k + 1, pos));
                    }
                }
            }
            k = k + 1;
        }
    }

    /// Number of pages the allocator tracks, available or not.
    pub fn total_pages(&self) -> (result: usize)
        requires
            self.wf(),
        ensures
            result == total_pages_spec(self.blocks@),
    {
        let n = self.blocks.len();
        let mut total: usize = 0;
        let mut i: usize = 0;
        while i < n
            invariant
                self.wf(),
                n == self.blocks@.len(),
                0 <= i <= n,
                total == pages_before(self.blocks@, i as int),
            decreases n - i,
        {
            proof {
                lemma_pages_before_mono(self.blocks@, i + 1, self.blocks@.len() as int);
                lemma_pages_before_nonneg(self.blocks@, i as int);
            }
            total = total + self.blocks[i].page_count;
            i = i + 1;
        }
        total
    }

    /// Number of unavailable pages: the population count of the bitmap.
    pub fn allocated_pages(&self) -> (result: usize)
        requires
            self.wf(),
        ensures
            result == total_ones(self.bitmap@),
    {
        let n = self.bitmap.len();
        let mut count: usize = 0;
        let mut i: usize = 0;
        while i < n
            invariant
                self.wf(),
                n == self.bitmap@.len(),
                0 <= i <= n,
                count == ones_prefix(self.bitmap@, i as int),
                count <= 8 * i,
            decreases n - i,
        {
            proof {
                lemma_ones_prefix_bound(self.bitmap@, i as int);
                lemma_total_bits_fit(self);
            }
            count = count + count_ones_byte(self.bitmap[i]);
            i = i + 1;
        }
        count
    }

    /// Number of pages currently available: the tracked total less the
    /// population count of the bitmap. The padding bits of the last bitmap
    /// byte are never set, so they do not enter the count, and the
    /// allocated and free counts always sum to the page total.
    pub fn free_pages(&self) -> (result: usize)
        requires
            self.wf(),
        ensures
            result == total_pages_spec(self.blocks@) - total_ones(self.bitmap@),
    {
        proof {
            lemma_ones_le_total(self);
        }
        let total = self.total_pages();
        let allocated = self.allocated_pages();
        total - allocated
    }
}

/// The bitmap's bit count fits in the machine word.
proof fn lemma_total_bits_fit(pa: &PageAllocator)
    requires
        pa.wf(),
    ensures
        8 * pa.bitmap@.len() <= usize::MAX,
{
    lemma_pages_before_nonneg(pa.blocks@, pa.blocks@.len() as int);
}

/// A byte whose bits from `r` upward are clear has all its set bits among
/// the lowest `r`.
proof fn lemma_ones_in_byte_clear_above(b: u8, r: int, k: int)
    requires
        0 <= r <= k <= 8,
        forall|j: int| r <= j < 8 ==> #[trigger] (b & (1u8 << (j as u8))) == 0,
    ensures
        ones_in_byte(b, k) == ones_in_byte(b, r),
    decreases k - r,
{
    if k > r {
        lemma_ones_in_byte_clear_above(b, r, k - 1);
        assert((b & (1u8 << (((k - 1) as u8)))) == 0);
    }
}

/// The bitmap never counts more set bits than there are tracked pages: the
/// padding bits of the last byte are clear under well-formedness.
pub proof fn lemma_ones_le_total(pa: &PageAllocator)
    requires
        pa.wf(),
    ensures
        0 <= total_ones(pa.bitmap@) <= total_pages_spec(pa.blocks@),
{
    let bm = pa.bitmap@;
    let total = total_pages_spec(pa.blocks@);
    lemma_pages_before_nonneg(pa.blocks@, pa.blocks@.len() as int);
    vstd::arithmetic::div_mod::lemma_fundamental_div_mod(total + 7, 8);
    if bm.len() == 0 {
        assert(total_ones(bm) == 0);
    } else {
        let len = bm.len() as int;
        let r = total - 8 * (len - 1);
        assert(1 <= r <= 8);
        assert forall|j: int| r <= j < 8 implies #[trigger] (bm[len - 1] & (1u8 << (j as u8)))
            == 0 by {
            let pos = 8 * (len - 1) + j;
            assert(total <= pos < 8 * len);
            assert(!bit_is_set(bm, pos));
            vstd::arithmetic::div_mod::lemma_fundamental_div_mod(pos, 8);
            assert(pos / 8 == len - 1 && pos % 8 == j);
        }
        lemma_ones_in_byte_clear_above(bm[len - 1], r, 8);
        lemma_ones_in_byte_bound(bm[len - 1], r);
        lemma_ones_prefix_bound(bm, len - 1);
        assert(total_ones(bm) == ones_prefix(bm, len - 1) + ones_in_byte(bm[len - 1], 8));
    }
}

/// Page `p` of block `bi` sits at `start_address + p * PAGE_SIZE`; that
/// address is covered by exactly block `bi` and tracked by bit
/// `bitmap_start + p`.
pub proof fn lemma_page_addr(blocks: Seq<Block>, bi: int, p: int)
    requires
        blocks_wf(blocks),
        0 <= bi < blocks.len(),
        0 <= p < blocks[bi].page_count,
    ensures
        covers(blocks, bi, blocks[bi].start_address + p * PAGE_SIZE),
        is_covered(blocks, blocks[bi].start_address + p * PAGE_SIZE),
        covering_block(blocks, blocks[bi].start_address + p * PAGE_SIZE) == bi,
        bit_pos(blocks, blocks[bi].start_address + p * PAGE_SIZE) == blocks[bi].bitmap_start + p,
        blocks[bi].bitmap_start + p < total_pages_spec(blocks),
{
    let addr = blocks[bi].start_address + p * PAGE_SIZE;
    lemma_mul_pages_le(p + 1, blocks[bi].page_count as int);
    lemma_mul_pages_le(0, p);
    assert(covers(blocks, bi, addr));
    lemma_bit_pos_in_block(blocks, bi, addr);
    assert((p * PAGE_SIZE) / (PAGE_SIZE as int) == p) by (nonlinear_arith);
}

/// If no run fits in any earlier block nor at any earlier page of block
/// `bi`, then no address below that of page `s` of block `bi` fits.
proof fn lemma_first_fit_minimal(
    blocks: Seq<Block>,
    bitmap: Seq<u8>,
    alignment: int,
    npages: int,
    bi: int,
    s: int,
)
    requires
        blocks_wf(blocks),
        npages >= 1,
        0 <= bi < blocks.len(),
        0 <= s < blocks[bi].page_count,
        forall|p2: int| p2 < s ==> !fits_at(blocks, bitmap, alignment, npages, bi, p2),
        forall|i: int, p: int| 0 <= i < bi ==> !fits_at(blocks, bitmap, alignment, npages, i, p),
    ensures
        forall|a: int|
            a < blocks[bi].start_address + s * PAGE_SIZE ==> !is_fit_addr(
                blocks,
                bitmap,
                alignment,
                npages,
                a,
            ),
{
    let address = blocks[bi].start_address + s * PAGE_SIZE;
    assert forall|a: int| a < address implies !is_fit_addr(
        blocks,
        bitmap,
        alignment,
        npages,
        a,
    ) by {
        if is_fit_addr(blocks, bitmap, alignment, npages, a) {
            let (i, p) = choose|i: int, p: int|
                fits_at(blocks, bitmap, alignment, npages, i, p) && a == blocks[i].start_address
                    + p * PAGE_SIZE;
            lemma_mul_pages_le(0, p);
            if i < bi {
                assert(!fits_at(blocks, bitmap, alignment, npages, i, p));
            } else if i == bi {
                if p >= s {
                    lemma_mul_pages_le(s, p);
                    assert(a >= address);
                } else {
                    assert(!fits_at(blocks, bitmap, alignment, npages, i, p));
                }
            } else {
                lemma_block_order(blocks, bi, i);
                lemma_mul_pages_le(s + 1, blocks[bi].page_count as int);
                assert(a >= blocks[i].start_address);
            }
        }
    }
}

/// Setting or clearing one bit of a byte leaves every other bit alone.
proof fn lemma_u8_bit_update(b: u8, k: u8, j: u8)
    requires
        k < 8,
        j < 8,
    ensures
        ((b | (1u8 << k)) & (1u8 << j) != 0) == (j == k || (b & (1u8 << j) != 0)),
        ((b & !(1u8 << k)) & (1u8 << j) != 0) == (j != k && (b & (1u8 << j) != 0)),
{
    assert(((b | (1u8 << k)) & (1u8 << j) != 0) == (j == k || (b & (1u8 << j) != 0)) && ((b & !(
    1u8 << k)) & (1u8 << j) != 0) == (j != k && (b & (1u8 << j) != 0))) by (bit_vector)
        requires
            k < 8,
            j < 8,
    ;
}

/// Why bootstrap failed. Every failure is fatal: there is no fallback
/// allocator.
#[derive(Debug, Clone, Copy, PartialEq, Eq, Structural)]
pub enum BootstrapError {
    /// A record's virtual address differs from its physical address, so the
    /// identity mapping this boot stage runs under does not hold.
    NonIdentityMapping,
    /// A record is empty, regions overlap, or a size computation exceeds the
    /// machine word.
    InvalidMemoryMap,
    /// No run of conventional memory is large enough to host the allocator's
    /// own metadata.
    NoMetadataRegion,
}

/// What a successful bootstrap yields: the initialized allocator, the
/// normalized (sorted) memory map it was built from, and where its own
/// metadata was placed.
pub struct BootstrapOutcome {
    pub allocator: PageAllocator,
    pub normalized_map: Vec<MemoryDescriptor>,
    pub metadata_address: usize,
    pub metadata_size: usize,
}

/// Bytes of one entry of the block table: three machine words.
pub const BLOCK_ENTRY_BYTES: usize = 24;

/// Bytes of bootstrap metadata a map needs: the block table followed by the
/// page bitmap.
pub open spec fn required_metadata_bytes(map: Seq<MemoryDescriptor>) -> int {
    blocks_of(map).len() * BLOCK_ENTRY_BYTES + (map_pages_total(map) + 7) / 8
}

/// Bit `pos` tracks a page of one of the first `rn` records that is not
/// allocatable.
pub open spec fn reserved_regions_prefix(
    map: Seq<MemoryDescriptor>,
    rn: int,
    blocks: Seq<Block>,
    pos: int,
) -> bool {
    exists|r: int|
        0 <= r < rn && !(#[trigger] map[r]).memory_type.is_allocatable() && page_range_bit(
            blocks,
            map[r].physical_start as int,
            map[r].number_of_pages as int,
            pos,
        )
}

/// The pages bootstrap marks unavailable: every page of a non-allocatable
/// region, the pages holding the allocator's own metadata, and the null
/// page.
pub open spec fn initially_reserved(
    map: Seq<MemoryDescriptor>,
    blocks: Seq<Block>,
    meta_addr: int,
    meta_pages: int,
    pos: int,
) -> bool {
    ||| reserved_regions_prefix(map, map.len() as int, blocks, pos)
    ||| page_range_bit(blocks, meta_addr, meta_pages, pos)
    ||| (is_covered(blocks, 0) && pos == bit_pos(blocks, 0))
}

/// A byte of zeros has no bit set.
proof fn lemma_zero_byte(j: u8)
    requires
        j < 8,
    ensures
        0u8 & (1u8 << j) == 0,
{
    assert(0u8 & (1u8 << j) == 0) by (bit_vector);
}

/// Marks every page of every non-allocatable record of the sorted map.
fn mark_reserved_regions(allocator: &mut PageAllocator, sorted: &Vec<MemoryDescriptor>)
    requires
        old(allocator).wf(),
        map_regions_wf(sorted@),
    ensures
        final(allocator).wf(),
        final(allocator).blocks@ == old(allocator).blocks@,
        final(allocator).bitmap@.len() == old(allocator).bitmap@.len(),
        forall|pos: int|
            0 <= pos < 8 * final(allocator).bitmap@.len() ==> (#[trigger] bit_is_set(
                final(allocator).bitmap@,
                pos,
            )) == (bit_is_set(old(allocator).bitmap@, pos) || reserved_regions_prefix(
                sorted@,
                sorted@.len() as int,
                old(allocator).blocks@,
                pos,
            )),
{
    let n = sorted.len();
    let mut r: usize = 0;
    while r < n
        invariant
            allocator.wf(),
            allocator.blocks@ == old(allocator).blocks@,
            allocator.bitmap@.len() == old(allocator).bitmap@.len(),
            map_regions_wf(sorted@),
            n == sorted@.len(),
            0 <= r <= n,
            forall|pos: int|
                0 <= pos < 8 * allocator.bitmap@.len() ==> (#[trigger] bit_is_set(
                    allocator.bitmap@,
                    pos,
                )) == (bit_is_set(old(allocator).bitmap@, pos) || reserved_regions_prefix(
                    sorted@,
                    r as int,
                    old(allocator).blocks@,
                    pos,
                )),
        decreases n - r,
    {
        let rec = sorted[r];
        let kind = rec.memory_type.0;
        if !(kind == crate::efi::MEMORY_TYPE_CONVENTIONAL || kind
            == crate::efi::MEMORY_TYPE_BOOT_SERVICES_CODE || kind
            == crate::efi::MEMORY_TYPE_BOOT_SERVICES_DATA) {
            proof {
                lemma_mul_pages_le(rec.number_of_pages - 1, rec.number_of_pages as int);
            }
            allocator.mark_pages(rec.physical_start, rec.number_of_pages);
        }
        proof {
            lemma_reserved_regions_prefix_step(
                sorted@,
                r as int,
                old(allocator).blocks@,
                old(allocator).bitmap@,
                allocator.bitmap@,
            );
        }
        r = r + 1;
    }
}

/// Extending the marked prefix by one record adds exactly that record's
/// pages (when it is not allocatable) and nothing otherwise.
proof fn lemma_reserved_regions_prefix_step(
    map: Seq<MemoryDescriptor>,
    r: int,
    blocks: Seq<Block>,
    base_bm: Seq<u8>,
    bm: Seq<u8>,
)
    requires
        0 <= r < map.len(),
        bm.len() == base_bm.len(),
        forall|pos: int|
            0 <= pos < 8 * bm.len() ==> (#[trigger] bit_is_set(bm, pos)) == (bit_is_set(
                base_bm,
                pos,
            ) || reserved_regions_prefix(map, r, blocks, pos) || (!map[r].memory_type.is_allocatable()
                && page_range_bit(
                blocks,
                map[r].physical_start as int,
                map[r].number_of_pages as int,
                pos,
            ))),
    ensures
        forall|pos: int|
            0 <= pos < 8 * bm.len() ==> (#[trigger] bit_is_set(bm, pos)) == (bit_is_set(
                base_bm,
                pos,
            ) || reserved_regions_prefix(map, r + 1, blocks, pos)),
{
    assert forall|pos: int| 0 <= pos < 8 * bm.len() implies (#[trigger] bit_is_set(bm, pos)) == (
    bit_is_set(base_bm, pos) || reserved_regions_prefix(map, r + 1, blocks, pos)) by {
        if reserved_regions_prefix(map, r + 1, blocks, pos) {
            let rr = choose|rr: int|
                0 <= rr < r + 1 && !(#[trigger] map[rr]).memory_type.is_allocatable()
                    && page_range_bit(
                    blocks,
                    map[rr].physical_start as int,
                    map[rr].number_of_pages as int,
                    pos,
                );
            if rr < r {
                assert(reserved_regions_prefix(map, r, blocks, pos));
            }
        }
        if reserved_regions_prefix(map, r, blocks, pos) {
            let rr = choose|rr: int|
                0 <= rr < r && !(#[trigger] map[rr]).memory_type.is_allocatable()
                    && page_range_bit(
                    blocks,
                    map[rr].physical_start as int,
                    map[rr].number_of_pages as int,
                    pos,
                );
            assert(reserved_regions_prefix(map, r + 1, blocks, pos));
        }
    }
}

/// Builds the allocator state for a validated, sorted map whose block table,
/// page total, metadata requirement and metadata placement have been
/// computed: sizes the bitmap and marks every non-allocatable region, the
/// metadata pages and the null page as unavailable.
fn assemble_allocator(
    sorted: Vec<MemoryDescriptor>,
    blocks: Vec<Block>,
    total: usize,
    required: usize,
    metadata_address: usize,
) -> (outcome: BootstrapOutcome)
    requires
        sorted_by_start(sorted@),
        map_identity(sorted@),
        map_regions_wf(sorted@),
        total == map_pages_total(sorted@),
        8 * total <= usize::MAX,
        blocks@ == blocks_of(sorted@),
        blocks_wf(blocks@),
        total_pages_spec(blocks@) == total,
        required == required_metadata_bytes(sorted@),
        match meta_scan(sorted@, 0, 0, 0, required as int) {
            Some(a) => metadata_address == a,
            None => metadata_address == 0 && sorted@.len() == 0,
        },
        metadata_address + required <= usize::MAX,
    ensures
        outcome.normalized_map@ == sorted@,
        outcome.allocator.blocks@ == blocks@,
        outcome.metadata_address == metadata_address,
        outcome.metadata_size == required,
        outcome.allocator.wf(),
        forall|pos: int|
            0 <= pos < 8 * outcome.allocator.bitmap@.len() ==> (#[trigger] bit_is_set(
                outcome.allocator.bitmap@,
                pos,
            )) == initially_reserved(
                sorted@,
                blocks@,
                metadata_address as int,
                if required == 0 {
                    0int
                } else {
                    npages_spec(required as int)
                },
                pos,
            ),
{
    let bitmap_size = (total + 7) / 8;
    let bitmap: Vec<u8> = vec![0u8; bitmap_size];
    let mut allocator = PageAllocator { blocks, bitmap };
    proof {
        assert forall|pos: int|
            0 <= pos < 8 * allocator.bitmap@.len() implies !(#[trigger] bit_is_set(
            allocator.bitmap@,
            pos,
        )) by {
            lemma_zero_byte((pos % 8) as u8);
        }
        assert(allocator.wf());
    }

    // mark every page of the regions the firmware keeps for itself
    mark_reserved_regions(&mut allocator, &sorted);
    let ghost bits_regions = allocator.bitmap@;

    // mark the pages that hold the allocator's own metadata
    let meta_pages: usize;
    if required > 0 {
        meta_pages = pages_needed(required);
        proof {
            lemma_npages(required as int, meta_pages - 1);
            lemma_mul_pages_le(0, meta_pages - 1);
        }
        allocator.mark_pages(metadata_address, meta_pages);
    } else {
        meta_pages = 0;
    }
    let ghost bits_meta = allocator.bitmap@;

    // the null page is never handed out
    allocator.set_allocated(0, true);

    proof {
        let blocks_v = allocator.blocks@;
        let meta_count: int = if required == 0 {
            0int
        } else {
            npages_spec(required as int)
        };
        assert forall|pos: int| 0 <= pos < 8 * allocator.bitmap@.len() implies (
        #[trigger] bit_is_set(allocator.bitmap@, pos)) == initially_reserved(
            sorted@,
            blocks_v,
            metadata_address as int,
            meta_count,
            pos,
        ) by {
            if required == 0 {
                assert(!page_range_bit(blocks_v, metadata_address as int, meta_count, pos));
                assert(bit_is_set(bits_meta, pos) == bit_is_set(bits_regions, pos));
            }
        }
    }

    BootstrapOutcome {
        allocator,
        normalized_map: sorted,
        metadata_address,
        metadata_size: required,
    }
}

/// A non-empty validated map tracks at least one page.
proof fn lemma_nonempty_map_pages(map: Seq<MemoryDescriptor>)
    requires
        map_regions_wf(map),
        map.len() > 0,
    ensures
        map_pages_total(map) >= 1,
{
    assert(map_pages_prefix(map, 0) == 0);
    assert(map_pages_prefix(map, 1) == map[0].number_of_pages);
    assert(map[0].number_of_pages >= 1);
    crate::memory_map::lemma_map_pages_prefix_mono(map, 1, map.len() as int);
}

/// Bootstraps the page allocator from the firmware memory map: sorts and
/// validates the records, lays out the block table, sizes the bitmap,
/// chooses where the allocator's own metadata lives, and marks every
/// non-allocatable region, the metadata pages and the null page as
/// unavailable.
pub fn init_page_allocator(memory_map: Vec<MemoryDescriptor>) -> (result: Result<
    BootstrapOutcome,
    BootstrapError,
>)
    ensures
        match result {
            Ok(outcome) => {
                &&& outcome.normalized_map@ == crate::memory_map::sort_spec(memory_map@)
                &&& outcome.normalized_map@.to_multiset() == memory_map@.to_multiset()
                &&& sorted_by_start(outcome.normalized_map@)
                &&& map_identity(outcome.normalized_map@)
                &&& map_regions_wf(outcome.normalized_map@)
                &&& 8 * map_pages_total(outcome.normalized_map@) <= usize::MAX
                &&& outcome.allocator.wf()
                &&& outcome.allocator.blocks@ == blocks_of(outcome.normalized_map@)
                &&& total_pages_spec(outcome.allocator.blocks@) == map_pages_total(
                    outcome.normalized_map@,
                )
                &&& outcome.metadata_size == required_metadata_bytes(outcome.normalized_map@)
                &&& match meta_scan(
                    outcome.normalized_map@,
                    0,
                    0,
                    0,
                    outcome.metadata_size as int,
                ) {
                    Some(a) => outcome.metadata_address == a,
                    None => outcome.metadata_address == 0 && outcome.normalized_map@.len() == 0,
                }
                &&& outcome.metadata_address + outcome.metadata_size <= usize::MAX
                &&& forall|pos: int|
                    0 <= pos < 8 * outcome.allocator.bitmap@.len() ==> (#[trigger] bit_is_set(
                        outcome.allocator.bitmap@,
                        pos,
                    )) == initially_reserved(
                        outcome.normalized_map@,
                        outcome.allocator.blocks@,
                        outcome.metadata_address as int,
                        if outcome.metadata_size == 0 {
                            0int
                        } else {
                            npages_spec(outcome.metadata_size as int)
                        },
                        pos,
                    )
            },
            Err(e) => {
                &&& (e == BootstrapError::NonIdentityMapping <==> !map_identity(memory_map@))
                &&& e == BootstrapError::NoMetadataRegion ==> exists|sorted: Seq<MemoryDescriptor>|
                    {
                        &&& #[trigger] sorted.to_multiset() == memory_map@.to_multiset()
                        &&& sorted_by_start(sorted)
                        &&& map_regions_wf(sorted)
                        &&& required_metadata_bytes(sorted) > 0
                        &&& meta_scan(sorted, 0, 0, 0, required_metadata_bytes(sorted)) is None
                    }
                &&& e == BootstrapError::InvalidMemoryMap ==> exists|sorted: Seq<MemoryDescriptor>|
                    {
                        &&& #[trigger] sorted.to_multiset() == memory_map@.to_multiset()
                        &&& sorted_by_start(sorted)
                        &&& {
                            ||| !map_regions_wf(sorted)
                            ||| 8 * map_pages_total(sorted) > usize::MAX
                            ||| required_metadata_bytes(sorted) > usize::MAX
                            ||| (meta_scan(sorted, 0, 0, 0, required_metadata_bytes(sorted))
                                matches Some(a) && a + required_metadata_bytes(sorted)
                                > usize::MAX)
                        }
                    }
            },
        },
{
    let sorted = sort_memory_map(&memory_map);
    proof {
        lemma_identity_permutation(sorted@, memory_map@);
    }

    // the system runs under an identity mapping; reject a map that reports
    // anything else
    if !check_identity_mapping(&sorted) {
        return Err(BootstrapError::NonIdentityMapping);
    }

    if !check_regions(&sorted) {
        return Err(BootstrapError::InvalidMemoryMap);
    }

    let total = match count_total_pages(&sorted) {
        Some(total) => total,
        None => {
            return Err(BootstrapError::InvalidMemoryMap);
        },
    };

    let blocks = build_blocks(&sorted);
    let bitmap_size = (total + 7) / 8;
    let block_table_size = match blocks.len().checked_mul(BLOCK_ENTRY_BYTES) {
        Some(bytes) => bytes,
        None => {
            return Err(BootstrapError::InvalidMemoryMap);
        },
    };
    let required = match block_table_size.checked_add(bitmap_size) {
        Some(required) => required,
        None => {
            return Err(BootstrapError::InvalidMemoryMap);
        },
    };

    let metadata_address: usize;
    if required > 0 {
        metadata_address = match find_metadata_region(&sorted, required) {
            Some(a) => a,
            None => {
                return Err(BootstrapError::NoMetadataRegion);
            },
        };
        if metadata_address > usize::MAX - required {
            return Err(BootstrapError::InvalidMemoryMap);
        }
    } else {
        metadata_address = 0;
        proof {
            lemma_empty_required(sorted@, total as int);
        }
    }

    Ok(assemble_allocator(sorted, blocks, total, required, metadata_address))
}

/// Only the empty map needs no metadata at all; its scan finds nothing.
proof fn lemma_empty_required(map: Seq<MemoryDescriptor>, total: int)
    requires
        map_regions_wf(map),
        total == map_pages_total(map),
        required_metadata_bytes(map) == 0,
    ensures
        map.len() == 0,
        meta_scan(map, 0, 0, 0, 0) is None,
{
    assert(blocks_of(map).len() * BLOCK_ENTRY_BYTES >= 0) by (nonlinear_arith)
        requires
            blocks_of(map).len() >= 0,
            BLOCK_ENTRY_BYTES >= 1,
    ;
    if map.len() > 0 {
        lemma_nonempty_map_pages(map);
        assert((map_pages_total(map) + 7) / 8 >= 1);
        assert(required_metadata_bytes(map) >= 1);
    }
}

/// The identity-mapping property carries across a permutation of the
/// records.
proof fn lemma_identity_permutation(s1: Seq<MemoryDescriptor>, s2: Seq<MemoryDescriptor>)
    requires
        s1.to_multiset() == s2.to_multiset(),
    ensures
        map_identity(s1) == map_identity(s2),
{
    s1.to_multiset_ensures();
    s2.to_multiset_ensures();
    if !map_identity(s1) {
        let i = choose|i: int|
            0 <= i < s1.len() && (#[trigger] s1[i]).virtual_start != s1[i].physical_start;
        assert(s1.contains(s1[i]));
        assert(s2.to_multiset().count(s1[i]) > 0);
        assert(s2.contains(s1[i]));
        let j = choose|j: int| 0 <= j < s2.len() && s2[j] == s1[i];
        assert(!map_identity(s2));
    }
    if !map_identity(s2) {
        let i = choose|i: int|
            0 <= i < s2.len() && (#[trigger] s2[i]).virtual_start != s2[i].physical_start;
        assert(s2.contains(s2[i]));
        assert(s1.to_multiset().count(s2[i]) > 0);
        assert(s1.contains(s2[i]));
        let j = choose|j: int| 0 <= j < s1.len() && s1[j] == s2[i];
        assert(!map_identity(s1));
    }
}

/// The bitmap holds at least one bit per tracked page.
proof fn lemma_total_le_bits(pa: PageAllocator)
    requires
        pa.wf(),
    ensures
        total_pages_spec(pa.blocks@) <= 8 * pa.bitmap@.len(),
        total_pages_spec(pa.blocks@) >= 0,
{
    lemma_pages_before_nonneg(pa.blocks@, pa.blocks@.len() as int);
    vstd::arithmetic::div_mod::lemma_fundamental_div_mod(
        total_pages_spec(pa.blocks@) + 7,
        8,
    );
}

/// Allocate/free round trip, first half: immediately after a successful
/// allocation of `size > 0` bytes at `address`, the page at `address` is
/// reported allocated — `get_allocated(address)` yields `Some(true)`.
pub proof fn lemma_round_trip_allocated(
    pre: PageAllocator,
    post: PageAllocator,
    alignment: int,
    size: int,
    address: int,
)
    requires
        pre.wf(),
        post.wf(),
        size > 0,
        alignment >= 1,
        post.blocks@ == pre.blocks@,
        is_fit_addr(pre.blocks@, pre.bitmap@, alignment, npages_spec(size), address),
        bits_set_in_run(
            pre.bitmap@,
            post.bitmap@,
            bit_pos(pre.blocks@, address),
            npages_spec(size),
        ),
    ensures
        is_covered(post.blocks@, address),
        bit_is_set(post.bitmap@, bit_pos(post.blocks@, address)),
{
    let np = npages_spec(size);
    lemma_npages(size, 0);
    let (i, p) = choose|i: int, p: int|
        fits_at(pre.blocks@, pre.bitmap@, alignment, np, i, p) && address
            == pre.blocks@[i].start_address + p * PAGE_SIZE;
    lemma_page_addr(pre.blocks@, i, p);
    lemma_total_le_bits(pre);
    assert(0 <= bit_pos(pre.blocks@, address) < 8 * post.bitmap@.len());
}

/// Allocate/free round trip, second half: immediately after freeing a
/// covered address, the page at that address is reported free —
/// `get_allocated(address)` yields `Some(false)`.
#[verifier::rlimit(50)]
#[verifier::spinoff_prover]
pub proof fn lemma_round_trip_freed(
    mid: PageAllocator,
    post: PageAllocator,
    address: int,
    size: int,
)
    requires
        mid.wf(),
        post.wf(),
        size > 0,
        post.blocks@ == mid.blocks@,
        is_covered(mid.blocks@, address),
        forall|pos: int|
            0 <= pos < 8 * post.bitmap@.len() ==> (#[trigger] bit_is_set(post.bitmap@, pos)) == (
            bit_is_set(mid.bitmap@, pos) && !page_range_bit(
                mid.blocks@,
                address,
                npages_spec(size),
                pos,
            )),
    ensures
        is_covered(post.blocks@, address),
        !bit_is_set(post.bitmap@, bit_pos(post.blocks@, address)),
{
    lemma_npages(size, 0);
    let i = choose|i: int| covers(mid.blocks@, i, address);
    lemma_bit_pos_in_block(mid.blocks@, i, address);
    lemma_total_le_bits(mid);
    assert(is_covered(mid.blocks@, address + 0 * PAGE_SIZE));
    assert(page_range_bit(mid.blocks@, address, npages_spec(size), bit_pos(mid.blocks@, address)));
}

/// No overlap: two allocations made back to back, with no free in between,
/// occupy disjoint address ranges.
#[verifier::rlimit(50)]
pub proof fn lemma_no_overlap(
    s0: PageAllocator,
    s1: PageAllocator,
    align1: int,
    size1: int,
    a1: int,
    align2: int,
    size2: int,
    a2: int,
)
    requires
        s0.wf(),
        s1.wf(),
        size1 > 0,
        size2 > 0,
        s1.blocks@ == s0.blocks@,
        // the first allocation returned `a1` and set its run's bits
        is_fit_addr(s0.blocks@, s0.bitmap@, align1, npages_spec(size1), a1),
        bits_set_in_run(s0.bitmap@, s1.bitmap@, bit_pos(s0.blocks@, a1), npages_spec(size1)),
        // the second allocation, on the resulting state, returned `a2`
        is_fit_addr(s1.blocks@, s1.bitmap@, align2, npages_spec(size2), a2),
    ensures
        a1 + npages_spec(size1) * PAGE_SIZE <= a2 || a2 + npages_spec(size2) * PAGE_SIZE <= a1,
{
    let np1 = npages_spec(size1);
    let np2 = npages_spec(size2);
    lemma_npages(size1, 0);
    lemma_npages(size2, 0);
    let (i1, p1) = choose|i: int, p: int|
        fits_at(s0.blocks@, s0.bitmap@, align1, np1, i, p) && a1 == s0.blocks@[i].start_address
            + p * PAGE_SIZE;
    let (i2, p2) = choose|i: int, p: int|
        fits_at(s1.blocks@, s1.bitmap@, align2, np2, i, p) && a2 == s1.blocks@[i].start_address
            + p * PAGE_SIZE;
    let blocks = s0.blocks@;
    lemma_page_addr(blocks, i1, p1);
    lemma_page_addr(blocks, i2, p2);
    lemma_total_le_bits(s0);
    if i1 == i2 {
        if !(p1 + np1 <= p2 || p2 + np2 <= p1) {
            // the page runs would share a page; its bit is set by the first
            // allocation yet free for the second
            let j = if p1 >= p2 {
                p1
            } else {
                p2
            };
            assert(p1 <= j < p1 + np1 && p2 <= j < p2 + np2);
            lemma_block_bits_in_range(blocks, i1);
            assert(bit_is_set(s1.bitmap@, blocks[i1].bitmap_start + j));
            assert(!block_page_set(blocks, s1.bitmap@, i2, j));
        }
        if p1 + np1 <= p2 {
            lemma_mul_pages_le(p1 + np1, p2);
            lemma_mul_distrib_pages(p1 as int, np1 as int);
        } else {
            lemma_mul_pages_le(p2 + np2, p1);
            lemma_mul_distrib_pages(p2 as int, np2 as int);
        }
    } else if i1 < i2 {
        lemma_block_order(blocks, i1, i2);
        lemma_mul_pages_le(p1 + np1, blocks[i1].page_count as int);
        lemma_mul_distrib_pages(p1 as int, np1 as int);
        lemma_mul_pages_le(0, p2);
    } else {
        lemma_block_order(blocks, i2, i1);
        lemma_mul_pages_le(p2 + np2, blocks[i2].page_count as int);
        lemma_mul_distrib_pages(p2 as int, np2 as int);
        lemma_mul_pages_le(0, p1);
    }
}

/// Conservation: the allocated-page count plus the free-page count equals
/// the tracked page total, at every observation point and for every
/// well-formed allocator.
pub proof fn lemma_conservation(pa: PageAllocator)
    requires
        pa.wf(),
    ensures
        total_ones(pa.bitmap@) + (total_pages_spec(pa.blocks@) - total_ones(pa.bitmap@))
            == total_pages_spec(pa.blocks@),
        0 <= total_ones(pa.bitmap@) <= total_pages_spec(pa.blocks@),
{
    lemma_ones_le_total(&pa);
}

/// First-fit reuse safety: a successful allocation never hands out a range
/// containing any page that was already allocated, whatever frees and
/// allocations came before.
pub proof fn lemma_allocate_avoids_allocated(
    pa: PageAllocator,
    alignment: int,
    size: int,
    address: int,
    addr_used: int,
)
    requires
        pa.wf(),
        size > 0,
        is_fit_addr(pa.blocks@, pa.bitmap@, alignment, npages_spec(size), address),
        is_covered(pa.blocks@, addr_used),
        bit_is_set(pa.bitmap@, bit_pos(pa.blocks@, addr_used)),
    ensures
        !(address <= addr_used < address + npages_spec(size) * PAGE_SIZE),
{
    let np = npages_spec(size);
    lemma_npages(size, 0);
    let (i, p) = choose|i: int, p: int|
        fits_at(pa.blocks@, pa.bitmap@, alignment, np, i, p) && address
            == pa.blocks@[i].start_address + p * PAGE_SIZE;
    let blocks = pa.blocks@;
    lemma_page_addr(blocks, i, p);
    if address <= addr_used < address + np * PAGE_SIZE {
        let iu = choose|iu: int| covers(blocks, iu, addr_used);
        lemma_bit_pos_in_block(blocks, iu, addr_used);
        // the overlapping address lies inside block `i` too
        lemma_mul_distrib_pages(p as int, np as int);
        lemma_mul_pages_le(p + np, blocks[i].page_count as int);
        assert(covers(blocks, i, addr_used));
        lemma_covers_unique(blocks, i, iu, addr_used);
        let ju = (addr_used - blocks[i].start_address) / (PAGE_SIZE as int);
        assert(p <= ju < p + np) by (nonlinear_arith)
            requires
                ju == (addr_used - blocks[i].start_address) / (PAGE_SIZE as int),
                blocks[i].start_address + p * PAGE_SIZE <= addr_used < blocks[i].start_address + (
                p + np) * PAGE_SIZE,
                PAGE_SIZE == 4096,
        ;
        assert(!block_page_set(blocks, pa.bitmap@, i, ju));
        assert(bit_is_set(pa.bitmap@, blocks[i].bitmap_start + ju));
    }
}

/// Number of set bits among the first `n` bit positions.
pub open spec fn count_set(bitmap: Seq<u8>, n: int) -> int
    decreases n,
{
    if n <= 0 {
        0
    } else {
        count_set(bitmap, n - 1) + if bit_is_set(bitmap, n - 1) {
            1int
        } else {
            0int
        }
    }
}

/// Within byte `m`, position counting agrees with the byte's own bit count.
proof fn lemma_count_set_byte(bitmap: Seq<u8>, m: int, k: int)
    requires
        0 <= m,
        0 <= k <= 8,
    ensures
        count_set(bitmap, 8 * m + k) == count_set(bitmap, 8 * m) + ones_in_byte(bitmap[m], k),
    decreases k,
{
    if k > 0 {
        lemma_count_set_byte(bitmap, m, k - 1);
        let pos = 8 * m + (k - 1);
        vstd::arithmetic::div_mod::lemma_fundamental_div_mod(pos, 8);
        assert(pos / 8 == m && pos % 8 == k - 1);
    }
}

/// The byte-wise population count equals the position count: the bitmap's
/// two ways of counting set bits agree.
pub proof fn lemma_ones_prefix_count_set(bitmap: Seq<u8>, m: int)
    requires
        0 <= m,
    ensures
        ones_prefix(bitmap, m) == count_set(bitmap, 8 * m),
    decreases m,
{
    if m > 0 {
        lemma_ones_prefix_count_set(bitmap, m - 1);
        lemma_count_set_byte(bitmap, m - 1, 8);
    }
}

/// Position counting grows by at most one per position.
proof fn lemma_count_set_bounds(bitmap: Seq<u8>, a: int, b: int)
    requires
        a <= b,
    ensures
        count_set(bitmap, a) <= count_set(bitmap, b) <= count_set(bitmap, a) + (b - a),
    decreases b - a,
{
    if a < b {
        lemma_count_set_bounds(bitmap, a, b - 1);
    }
}

/// A range of clear positions contributes nothing to the count.
proof fn lemma_count_set_clear_range(bitmap: Seq<u8>, a: int, b: int)
    requires
        a <= b,
        forall|pos: int| a <= pos < b ==> !(#[trigger] bit_is_set(bitmap, pos)),
    ensures
        count_set(bitmap, b) == count_set(bitmap, a),
    decreases b - a,
{
    if a < b {
        lemma_count_set_clear_range(bitmap, a, b - 1);
    }
}

/// Setting exactly a clear run of `np` bits raises the count below `n` by
/// the part of the run below `n`.
proof fn lemma_count_set_run(
    old_bm: Seq<u8>,
    new_bm: Seq<u8>,
    rs: int,
    np: int,
    n: int,
)
    requires
        new_bm.len() == old_bm.len(),
        0 <= rs,
        np >= 0,
        rs + np <= 8 * old_bm.len(),
        forall|pos: int|
            0 <= pos < 8 * new_bm.len() ==> (#[trigger] bit_is_set(new_bm, pos)) == (rs <= pos < rs
                + np || bit_is_set(old_bm, pos)),
        forall|pos: int| rs <= pos < rs + np ==> !(#[trigger] bit_is_set(old_bm, pos)),
        0 <= n <= 8 * old_bm.len(),
    ensures
        count_set(new_bm, n) == count_set(old_bm, n) + if n <= rs {
            0int
        } else if n >= rs + np {
            np
        } else {
            n - rs
        },
    decreases n,
{
    if n > 0 {
        lemma_count_set_run(old_bm, new_bm, rs, np, n - 1);
    }
}

/// Exact accounting of a successful allocation: the set-bit count — the
/// allocated-page count — rises by exactly the pages the request takes.
/// Together with `lemma_exhaustion` this pins the exhaustion arithmetic: a
/// block of exactly `N` free pages serves `N / k` requests of `k` pages
/// before a same-size request is refused.
pub proof fn lemma_allocate_consumes_exact_pages(
    pre: PageAllocator,
    post: PageAllocator,
    alignment: int,
    size: int,
    address: int,
)
    requires
        pre.wf(),
        post.wf(),
        size > 0,
        alignment >= 1,
        post.blocks@ == pre.blocks@,
        is_fit_addr(pre.blocks@, pre.bitmap@, alignment, npages_spec(size), address),
        bits_set_in_run(
            pre.bitmap@,
            post.bitmap@,
            bit_pos(pre.blocks@, address),
            npages_spec(size),
        ),
    ensures
        total_ones(post.bitmap@) == total_ones(pre.bitmap@) + npages_spec(size),
{
    let np = npages_spec(size);
    lemma_npages(size, 0);
    let blocks = pre.blocks@;
    let (i, p) = choose|i: int, p: int|
        fits_at(blocks, pre.bitmap@, alignment, np, i, p) && address == blocks[i].start_address
            + p * PAGE_SIZE;
    lemma_page_addr(blocks, i, p);
    let rs = bit_pos(blocks, address);
    assert(rs == blocks[i].bitmap_start + p);
    lemma_block_bits_in_range(blocks, i);
    lemma_total_le_bits(pre);
    assert(rs + np <= 8 * pre.bitmap@.len());
    assert forall|pos: int| rs <= pos < rs + np implies !(#[trigger] bit_is_set(
        pre.bitmap@,
        pos,
    )) by {
        assert(!block_page_set(blocks, pre.bitmap@, i, p + (pos - rs)));
    }
    lemma_ones_prefix_count_set(pre.bitmap@, pre.bitmap@.len() as int);
    lemma_ones_prefix_count_set(post.bitmap@, post.bitmap@.len() as int);
    lemma_count_set_run(pre.bitmap@, post.bitmap@, rs, np, 8 * pre.bitmap@.len() as int);
}

/// Exhaustion: when fewer free pages remain than a request needs, no run
/// fits anywhere and `allocate` is bound to refuse it.
pub proof fn lemma_exhaustion(pa: PageAllocator, alignment: int, size: int)
    requires
        pa.wf(),
        size > 0,
        total_pages_spec(pa.blocks@) - total_ones(pa.bitmap@) < npages_spec(size),
    ensures
        forall|a: int|
            !is_fit_addr(pa.blocks@, pa.bitmap@, alignment, npages_spec(size), a),
{
    let np = npages_spec(size);
    lemma_npages(size, 0);
    let blocks = pa.blocks@;
    let bm = pa.bitmap@;
    let total = total_pages_spec(blocks);
    assert forall|a: int| !is_fit_addr(blocks, bm, alignment, np, a) by {
        if is_fit_addr(blocks, bm, alignment, np, a) {
            let (i, p) = choose|i: int, p: int|
                fits_at(blocks, bm, alignment, np, i, p) && a == blocks[i].start_address + p
                    * PAGE_SIZE;
            lemma_block_bits_in_range(blocks, i);
            let rs = blocks[i].bitmap_start + p;
            assert(0 <= rs && rs + np <= total);
            assert forall|pos: int| rs <= pos < rs + np implies !(#[trigger] bit_is_set(
                bm,
                pos,
            )) by {
                assert(!block_page_set(blocks, bm, i, p + (pos - rs)));
            }
            // counting the whole bitmap around the clear run bounds the set
            // bits by total - np, so at least np pages are free after all
            lemma_count_set_bounds(bm, 0, rs);
            lemma_count_set_clear_range(bm, rs, rs + np);
            lemma_count_set_bounds(bm, rs + np, total);
            lemma_pages_before_nonneg(blocks, blocks.len() as int);
            lemma_ones_prefix_count_set(bm, bm.len() as int);
            lemma_total_le_bits(pa);
            lemma_count_set_bounds(bm, total, 8 * bm.len() as int);
            assert(count_set(bm, total) <= total - np);
            // the padding positions are clear, so the full count is the
            // count below the total
            lemma_count_set_clear_range(bm, total, 8 * bm.len() as int);
            assert(total_ones(bm) <= total - np);
        }
    }
}

/// First-fit reuse, end to end: allocate two single pages, free the first,
/// then allocate two pages — whatever the third call returns cannot overlap
/// the still-allocated second page. That it may reuse the freed page only
/// when a contiguous aligned two-page run exists is the fit requirement in
/// `allocate`'s own postcondition.
#[verifier::rlimit(100)]
#[verifier::spinoff_prover]
pub proof fn lemma_first_fit_reuse(
    s0: PageAllocator,
    s1: PageAllocator,
    s2: PageAllocator,
    s3: PageAllocator,
    al1: int,
    a1: int,
    al2: int,
    a2: int,
    al3: int,
    a3: int,
)
    requires
        s0.wf(),
        s1.wf(),
        s2.wf(),
        s3.wf(),
        s1.blocks@ == s0.blocks@,
        s2.blocks@ == s0.blocks@,
        s3.blocks@ == s0.blocks@,
        al3 >= 1,
        // the first one-page allocation returned a1
        is_fit_addr(s0.blocks@, s0.bitmap@, al1, 1, a1),
        bits_set_in_run(s0.bitmap@, s1.bitmap@, bit_pos(s0.blocks@, a1), 1),
        // the second one-page allocation, on the resulting state, returned a2
        is_fit_addr(s0.blocks@, s1.bitmap@, al2, 1, a2),
        bits_set_in_run(s1.bitmap@, s2.bitmap@, bit_pos(s0.blocks@, a2), 1),
        // the first page was then freed
        forall|pos: int|
            0 <= pos < 8 * s3.bitmap@.len() ==> (#[trigger] bit_is_set(s3.bitmap@, pos)) == (
            bit_is_set(s2.bitmap@, pos) && !page_range_bit(s0.blocks@, a1, 1, pos)),
        // the two-page request on the result returned a3
        is_fit_addr(s0.blocks@, s3.bitmap@, al3, 2, a3),
    ensures
        a3 + 2 * PAGE_SIZE <= a2 || a2 + PAGE_SIZE <= a3,
{
    let blocks = s0.blocks@;
    let (i1, p1) = choose|i: int, p: int|
        fits_at(blocks, s0.bitmap@, al1, 1, i, p) && a1 == blocks[i].start_address + p
            * PAGE_SIZE;
    let (i2, p2) = choose|i: int, p: int|
        fits_at(blocks, s1.bitmap@, al2, 1, i, p) && a2 == blocks[i].start_address + p
            * PAGE_SIZE;
    let (i3, p3) = choose|i: int, p: int|
        fits_at(blocks, s3.bitmap@, al3, 2, i, p) && a3 == blocks[i].start_address + p
            * PAGE_SIZE;
    lemma_page_addr(blocks, i1, p1);
    lemma_page_addr(blocks, i2, p2);
    lemma_page_addr(blocks, i3, p3);
    lemma_total_le_bits(s0);
    let rs1 = bit_pos(blocks, a1);
    let rs2 = bit_pos(blocks, a2);

    // the second page's bit is set right after its allocation and the
    // second allocation found it clear, so the two bits differ
    assert(!block_page_set(blocks, s1.bitmap@, i2, p2));
    assert(bit_is_set(s1.bitmap@, rs1));
    assert(rs1 != rs2);
    assert(bit_is_set(s2.bitmap@, rs2));

    // freeing the first page leaves the second page's bit alone
    assert(!page_range_bit(blocks, a1, 1, rs2)) by {
        if page_range_bit(blocks, a1, 1, rs2) {
            let k = choose|k: int|
                0 <= k < 1 && #[trigger] is_covered(blocks, a1 + k * PAGE_SIZE) && rs2 == bit_pos(
                    blocks,
                    a1 + k * PAGE_SIZE,
                );
            assert(a1 + k * PAGE_SIZE == a1);
        }
    }
    assert(bit_is_set(s3.bitmap@, rs2));

    // so the third allocation's range avoids the second page
    lemma_npages(2 * PAGE_SIZE as int, 2);
    lemma_allocate_avoids_allocated(s3, al3, 2 * PAGE_SIZE as int, a3, a2);
    assert(!(a3 <= a2 < a3 + 2 * PAGE_SIZE));

    // page-granular addresses make near-misses impossible
    if a2 < a3 {
        if i3 == i2 {
            assert((p3 - p2) * PAGE_SIZE == a3 - a2) by (nonlinear_arith)
                requires
                    a3 == blocks[i3].start_address + p3 * PAGE_SIZE,
                    a2 == blocks[i2].start_address + p2 * PAGE_SIZE,
                    i3 == i2,
            ;
            assert(p3 > p2) by {
                if p3 <= p2 {
                    lemma_mul_pages_le(p3 - p2, 0);
                }
            }
            lemma_mul_pages_le(1, p3 - p2);
        } else if i3 > i2 {
            lemma_block_order(blocks, i2, i3);
            lemma_mul_pages_le(p2 + 1, blocks[i2].page_count as int);
            lemma_mul_distrib_pages(p2, 1);
            lemma_mul_pages_le(0, p3);
        } else {
            lemma_block_order(blocks, i3, i2);
            lemma_mul_pages_le(p3 + 2, blocks[i3].page_count as int);
            lemma_mul_distrib_pages(p3, 2);
            lemma_mul_pages_le(0, p2);
        }
    }
}

} // verus!
