//! The memory map normalizer.
//!
//! Firmware reports physical memory as an unordered list of typed region
//! records. Normalization sorts the records by ascending physical start,
//! validates them (identity mapping, non-empty regions, ranges that fit the
//! address space, no overlap), coalesces physically adjacent records into
//! maximal `Block`s, and locates the first run of conventional memory able to
//! host the allocator's own metadata.

use crate::efi::{MemoryDescriptor, MEMORY_TYPE_CONVENTIONAL};
use crate::page_allocator::{
    blocks_wf, pages_before, total_pages_spec, Block, PAGE_SIZE,
};
use vstd::prelude::*;

verus! {

/// Address one past the last byte of a region.
pub open spec fn region_end(rec: MemoryDescriptor) -> int {
    rec.physical_start + rec.number_of_pages * PAGE_SIZE
}

/// Records ordered by ascending physical start.
pub open spec fn sorted_by_start(map: Seq<MemoryDescriptor>) -> bool {
    forall|i: int, j: int|
        0 <= i < j < map.len() ==> (#[trigger] map[i]).physical_start
            <= (#[trigger] map[j]).physical_start
}

/// Every record reports the identity mapping the boot stage runs under.
pub open spec fn map_identity(map: Seq<MemoryDescriptor>) -> bool {
    forall|i: int|
        0 <= i < map.len() ==> (#[trigger] map[i]).virtual_start == map[i].physical_start
}

/// Structural soundness of a sorted map: regions are non-empty, stay within
/// the address space, and each ends at or before the next one starts.
pub open spec fn map_regions_wf(map: Seq<MemoryDescriptor>) -> bool {
    &&& forall|i: int| 0 <= i < map.len() ==> (#[trigger] map[i]).number_of_pages >= 1
    &&& forall|i: int| 0 <= i < map.len() ==> region_end(#[trigger] map[i]) <= usize::MAX
    &&& forall|i: int|
        0 <= i < map.len() - 1 ==> region_end(#[trigger] map[i]) <= map[i + 1].physical_start
}

/// Total pages of the first `n` records.
pub open spec fn map_pages_prefix(map: Seq<MemoryDescriptor>, n: int) -> int
    decreases n,
{
    if n <= 0 {
        0
    } else {
        map_pages_prefix(map, n - 1) + map[n - 1].number_of_pages
    }
}

/// Total pages over all records of the map.
pub open spec fn map_pages_total(map: Seq<MemoryDescriptor>) -> int {
    map_pages_prefix(map, map.len() as int)
}

pub proof fn lemma_map_pages_prefix_mono(map: Seq<MemoryDescriptor>, i: int, j: int)
    requires
        i <= j,
    ensures
        map_pages_prefix(map, i) <= map_pages_prefix(map, j),
    decreases j - i,
{
    if i < j {
        lemma_map_pages_prefix_mono(map, i, j - 1);
    }
}

pub proof fn lemma_map_pages_prefix_nonneg(map: Seq<MemoryDescriptor>, n: int)
    ensures
        map_pages_prefix(map, n) >= 0,
{
    lemma_map_pages_prefix_mono(map, 0, if n >= 0 {
        n
    } else {
        0int
    });
}

/// Inserting one record into a sorted sequence: it lands before the first
/// strictly larger start, after any record with an equal one.
pub open spec fn insert_sorted(rec: MemoryDescriptor, s: Seq<MemoryDescriptor>) -> Seq<
    MemoryDescriptor,
>
    decreases s.len(),
{
    if s.len() == 0 {
        seq![rec]
    } else if s.last().physical_start > rec.physical_start {
        insert_sorted(rec, s.drop_last()).push(s.last())
    } else {
        s.push(rec)
    }
}

/// Insertion sort of the records by ascending physical start. Records with
/// equal starts keep their relative order: the sort is stable.
pub open spec fn sort_spec(s: Seq<MemoryDescriptor>) -> Seq<MemoryDescriptor>
    decreases s.len(),
{
    if s.len() == 0 {
        Seq::empty()
    } else {
        insert_sorted(s.last(), sort_spec(s.drop_last()))
    }
}

/// Inserting at the position the backward scan finds is `insert_sorted`.
proof fn lemma_insert_sorted_at(s: Seq<MemoryDescriptor>, rec: MemoryDescriptor, j: int)
    requires
        0 <= j <= s.len(),
        forall|k: int| j <= k < s.len() ==> (#[trigger] s[k]).physical_start > rec.physical_start,
        j == 0 || s[j - 1].physical_start <= rec.physical_start,
    ensures
        insert_sorted(rec, s) == s.insert(j, rec),
    decreases s.len(),
{
    if s.len() == 0 {
        assert(insert_sorted(rec, s) =~= s.insert(0, rec));
    } else if s.last().physical_start > rec.physical_start {
        assert(j < s.len());
        lemma_insert_sorted_at(s.drop_last(), rec, j);
        assert(insert_sorted(rec, s) =~= s.insert(j, rec)) by {
            s.drop_last().insert_ensures(j, rec);
            s.insert_ensures(j, rec);
        }
    } else {
        assert(j == s.len());
        assert(insert_sorted(rec, s) =~= s.insert(j, rec)) by {
            s.insert_ensures(j, rec);
        }
    }
}

/// Stable sort of the memory map by ascending physical start, the first
/// normalization step.
pub fn sort_memory_map(memory_map: &Vec<MemoryDescriptor>) -> (result: Vec<MemoryDescriptor>)
    ensures
        result@ == sort_spec(memory_map@),
        sorted_by_start(result@),
        result@.to_multiset() == memory_map@.to_multiset(),
        result@.len() == memory_map@.len(),
{
    let n = memory_map.len();
    let mut sorted: Vec<MemoryDescriptor> = Vec::new();
    let mut i: usize = 0;
    proof {
        assert(memory_map@.take(0) =~= Seq::<MemoryDescriptor>::empty());
        assert(sorted@.to_multiset() =~= memory_map@.take(0).to_multiset());
    }
    while i < n
        invariant
            n == memory_map@.len(),
            0 <= i <= n,
            sorted@.len() == i,
            sorted_by_start(sorted@),
            sorted@ == sort_spec(memory_map@.take(i as int)),
            sorted@.to_multiset() == memory_map@.take(i as int).to_multiset(),
        decreases n - i,
    {
        let rec = memory_map[i];
        let mut j: usize = sorted.len();
        while j > 0 && sorted[j - 1].physical_start > rec.physical_start
            invariant
                0 <= j <= sorted@.len(),
                forall|k: int|
                    j <= k < sorted@.len() ==> (#[trigger] sorted@[k]).physical_start
                        > rec.physical_start,
            decreases j,
        {
            j = j - 1;
        }
        let ghost pre = sorted@;
        sorted.insert(j, rec);
        proof {
            pre.insert_ensures(j as int, rec);
            vstd::seq_lib::to_multiset_insert(pre, j as int, rec);
            vstd::seq_lib::to_multiset_build(memory_map@.take(i as int), rec);
            assert(memory_map@.take(i + 1) =~= memory_map@.take(i as int).push(rec));
            lemma_insert_sorted_at(pre, rec, j as int);
            assert(memory_map@.take(i + 1).drop_last() =~= memory_map@.take(i as int));
            assert(sorted@ == sort_spec(memory_map@.take(i + 1)));
            assert forall|a: int, b: int| 0 <= a < b < sorted@.len() implies (
            #[trigger] sorted@[a]).physical_start <= (#[trigger] sorted@[b]).physical_start by {
                if a < j && b < j {
                    assert(sorted@[a] == pre[a] && sorted@[b] == pre[b]);
                } else if a < j && b == j {
                    assert(sorted@[a] == pre[a]);
                } else if a < j && b > j {
                    assert(sorted@[a] == pre[a] && sorted@[b] == pre[b - 1]);
                } else if a == j {
                    assert(sorted@[b] == pre[b - 1]);
                } else {
                    assert(sorted@[a] == pre[a - 1] && sorted@[b] == pre[b - 1]);
                }
            }
        }
        i = i + 1;
    }
    proof {
        assert(memory_map@.take(n as int) =~= memory_map@);
    }
    sorted
}

/// Whether every record reports the identity mapping.
pub fn check_identity_mapping(map: &Vec<MemoryDescriptor>) -> (result: bool)
    ensures
        result == map_identity(map@),
{
    let n = map.len();
    let mut i: usize = 0;
    while i < n
        invariant
            n == map@.len(),
            0 <= i <= n,
            forall|k: int|
                0 <= k < i ==> (#[trigger] map@[k]).virtual_start == map@[k].physical_start,
        decreases n - i,
    {
        if map[i].virtual_start != map[i].physical_start {
            return false;
        }
        i = i + 1;
    }
    true
}

/// Whether a sorted map is structurally sound: non-empty regions that fit in
/// the address space and do not overlap.
pub fn check_regions(map: &Vec<MemoryDescriptor>) -> (result: bool)
    ensures
        result == map_regions_wf(map@),
{
    let n = map.len();
    let mut i: usize = 0;
    while i < n
        invariant
            n == map@.len(),
            0 <= i <= n,
            forall|k: int| 0 <= k < i ==> (#[trigger] map@[k]).number_of_pages >= 1,
            forall|k: int| 0 <= k < i ==> region_end(#[trigger] map@[k]) <= usize::MAX,
            forall|k: int|
                0 <= k < i && k < n - 1 ==> region_end(#[trigger] map@[k]) <= map@[k
                    + 1].physical_start,
        decreases n - i,
    {
        let rec = map[i];
        if rec.number_of_pages == 0 {
            return false;
        }
        let bytes = match rec.number_of_pages.checked_mul(PAGE_SIZE) {
            Some(bytes) => bytes,
            None => {
                return false;
            },
        };
        let end = match rec.physical_start.checked_add(bytes) {
            Some(end) => end,
            None => {
                return false;
            },
        };
        if i + 1 < n && end > map[i + 1].physical_start {
            return false;
        }
        i = i + 1;
    }
    true
}

/// The block table of a sorted map prefix: physically adjacent records merge
/// into one block, a gap starts a new block, and each block's bitmap range
/// begins where the previous block's pages end.
pub open spec fn blocks_of_prefix(map: Seq<MemoryDescriptor>, n: int) -> Seq<Block>
    decreases n,
{
    if n <= 0 {
        Seq::empty()
    } else {
        let prev = blocks_of_prefix(map, n - 1);
        let rec = map[n - 1];
        if prev.len() > 0 && prev.last().start_address + prev.last().page_count * PAGE_SIZE
            == rec.physical_start {
            prev.update(
                prev.len() - 1,
                Block {
                    start_address: prev.last().start_address,
                    page_count: (prev.last().page_count + rec.number_of_pages) as usize,
                    bitmap_start: prev.last().bitmap_start,
                },
            )
        } else {
            prev.push(
                Block {
                    start_address: rec.physical_start,
                    page_count: rec.number_of_pages,
                    bitmap_start: total_pages_spec(prev) as usize,
                },
            )
        }
    }
}

/// The block table of the whole sorted map.
pub open spec fn blocks_of(map: Seq<MemoryDescriptor>) -> Seq<Block> {
    blocks_of_prefix(map, map.len() as int)
}

/// Distributing the page size over a sum of page counts.
pub proof fn lemma_mul_distrib_pages(a: int, b: int)
    ensures
        (a + b) * PAGE_SIZE == a * PAGE_SIZE + b * PAGE_SIZE,
{
    assert((a + b) * PAGE_SIZE == a * PAGE_SIZE + b * PAGE_SIZE) by (nonlinear_arith);
}

/// A page count is no larger than its size in bytes.
pub proof fn lemma_le_self_mul(a: int)
    requires
        a >= 0,
    ensures
        a <= a * PAGE_SIZE,
{
    assert(a <= a * PAGE_SIZE) by (nonlinear_arith)
        requires
            a >= 0,
            PAGE_SIZE >= 1,
    ;
}

proof fn lemma_pages_before_agree(b1: Seq<Block>, b2: Seq<Block>, i: int)
    requires
        forall|k: int| 0 <= k < i ==> b1[k] == b2[k],
    ensures
        pages_before(b1, i) == pages_before(b2, i),
    decreases i,
{
    if i > 0 {
        lemma_pages_before_agree(b1, b2, i - 1);
    }
}

/// Structural soundness of the block layout of a well-formed sorted map
/// prefix: the blocks are well formed, they track exactly the prefix's
/// pages, and the last block ends where the prefix's last record ends.
pub proof fn lemma_blocks_of_props(map: Seq<MemoryDescriptor>, n: int)
    requires
        map_regions_wf(map),
        map_pages_total(map) <= usize::MAX,
        0 <= n <= map.len(),
    ensures
        blocks_wf(blocks_of_prefix(map, n)),
        total_pages_spec(blocks_of_prefix(map, n)) == map_pages_prefix(map, n),
        blocks_of_prefix(map, n).len() <= n,
        n >= 1 ==> blocks_of_prefix(map, n).len() >= 1,
        n >= 1 ==> blocks_of_prefix(map, n).last().start_address + blocks_of_prefix(
            map,
            n,
        ).last().page_count * PAGE_SIZE == region_end(map[n - 1]),
    decreases n,
{
    if n > 0 {
        lemma_blocks_of_props(map, n - 1);
        let prev = blocks_of_prefix(map, n - 1);
        let cur = blocks_of_prefix(map, n);
        let rec = map[n - 1];
        lemma_map_pages_prefix_mono(map, n, map.len() as int);
        lemma_map_pages_prefix_mono(map, n - 1, n);
        lemma_map_pages_prefix_nonneg(map, n - 1);
        assert(rec.number_of_pages >= 1);
        assert(region_end(rec) <= usize::MAX);
        if prev.len() > 0 && prev.last().start_address + prev.last().page_count * PAGE_SIZE
            == rec.physical_start {
            let last = prev.last();
            let merged_pages = last.page_count + rec.number_of_pages;
            // the merged block still ends inside the address space, so its
            // page count fits in a machine word
            lemma_mul_distrib_pages(last.page_count as int, rec.number_of_pages as int);
            assert(last.start_address + merged_pages * PAGE_SIZE == region_end(rec));
            lemma_le_self_mul(merged_pages);
            let b = Block {
                start_address: last.start_address,
                page_count: merged_pages as usize,
                bitmap_start: last.bitmap_start,
            };
            assert(cur == prev.update(prev.len() - 1, b));
            lemma_pages_before_agree(cur, prev, prev.len() - 1);
            assert forall|i: int| 0 <= i < cur.len() implies (#[trigger] cur[i]).bitmap_start
                == pages_before(cur, i) by {
                lemma_pages_before_agree(cur, prev, i);
            }
            assert(total_pages_spec(cur) == pages_before(cur, cur.len() - 1) + b.page_count);
        } else {
            lemma_map_pages_prefix_nonneg(map, n);
            let b = Block {
                start_address: rec.physical_start,
                page_count: rec.number_of_pages,
                bitmap_start: total_pages_spec(prev) as usize,
            };
            assert(cur == prev.push(b));
            lemma_pages_before_agree(cur, prev, prev.len() as int);
            assert forall|i: int| 0 <= i < cur.len() implies (#[trigger] cur[i]).bitmap_start
                == pages_before(cur, i) by {
                lemma_pages_before_agree(cur, prev, i);
            }
            if prev.len() > 0 {
                // a gap separates the previous block from the new one
                assert(region_end(map[n - 2]) <= map[n - 1].physical_start);
            }
            assert(total_pages_spec(cur) == pages_before(cur, cur.len() - 1) + b.page_count);
        }
    }
}

/// Builds the block table of a sorted, validated memory map.
/// One normalization step: folds record `i` of the map into the block
/// table, merging it into the last block when physically adjacent and
/// opening a new block otherwise.
#[verifier::rlimit(100)]
#[verifier::spinoff_prover]
fn build_step(
    blocks: &mut Vec<Block>,
    running_total: &mut usize,
    rec: MemoryDescriptor,
    Ghost(map): Ghost<Seq<MemoryDescriptor>>,
    Ghost(i): Ghost<int>,
)
    requires
        map_regions_wf(map),
        8 * map_pages_total(map) <= usize::MAX,
        0 <= i < map.len(),
        rec == map[i],
        old(blocks)@ == blocks_of_prefix(map, i),
        *old(running_total) == map_pages_prefix(map, i),
    ensures
        final(blocks)@ == blocks_of_prefix(map, i + 1),
        *final(running_total) == map_pages_prefix(map, i + 1),
{
    proof {
        lemma_blocks_of_props(map, i);
        lemma_blocks_of_props(map, i + 1);
        lemma_map_pages_prefix_mono(map, i + 1, map.len() as int);
        lemma_map_pages_prefix_nonneg(map, i);
    }
    let blocks_len = blocks.len();
    if blocks_len > 0 {
        let last = blocks[blocks_len - 1];
        if last.start_address + last.page_count * PAGE_SIZE == rec.physical_start {
            proof {
                lemma_mul_distrib_pages(last.page_count as int, rec.number_of_pages as int);
                lemma_le_self_mul(last.page_count + rec.number_of_pages);
            }
            let merged = Block {
                start_address: last.start_address,
                page_count: last.page_count + rec.number_of_pages,
                bitmap_start: last.bitmap_start,
            };
            blocks.set(blocks_len - 1, merged);
            *running_total = *running_total + rec.number_of_pages;
            return ;
        }
    }
    blocks.push(
        Block {
            start_address: rec.physical_start,
            page_count: rec.number_of_pages,
            bitmap_start: *running_total,
        },
    );
    *running_total = *running_total + rec.number_of_pages;
}

/// Builds the block table of a sorted, validated memory map.
#[verifier::rlimit(100)]
#[verifier::spinoff_prover]
pub fn build_blocks(map: &Vec<MemoryDescriptor>) -> (result: Vec<Block>)
    requires
        map_regions_wf(map@),
        8 * map_pages_total(map@) <= usize::MAX,
    ensures
        result@ == blocks_of(map@),
        blocks_wf(result@),
        total_pages_spec(result@) == map_pages_total(map@),
{
    let n = map.len();
    let mut blocks: Vec<Block> = Vec::new();
    let mut running_total: usize = 0;
    let mut i: usize = 0;
    proof {
        assert(blocks@ =~= blocks_of_prefix(map@, 0));
    }
    while i < n
        invariant
            map_regions_wf(map@),
            8 * map_pages_total(map@) <= usize::MAX,
            n == map@.len(),
            0 <= i <= n,
            blocks@ == blocks_of_prefix(map@, i as int),
            running_total == map_pages_prefix(map@, i as int),
        decreases n - i,
    {
        let rec = map[i];
        build_step(&mut blocks, &mut running_total, rec, Ghost(map@), Ghost(i as int));
        i = i + 1;
    }
    proof {
        lemma_blocks_of_props(map@, n as int);
    }
    blocks
}

/// The metadata placement scan over a sorted map: walking the records in
/// order, accumulate runs of physically adjacent conventional memory and
/// return the address of the first run whose cumulative size reaches
/// `required`. A run whose first record starts at address zero keeps the
/// null address until a later record of the same run supplies a non-null
/// one — the boot pointer arithmetic treats a null start as no start.
pub open spec fn meta_scan(
    map: Seq<MemoryDescriptor>,
    n: int,
    addr: int,
    size: int,
    required: int,
) -> Option<int>
    decreases map.len() - n,
{
    if n < 0 || n >= map.len() {
        None
    } else {
        let rec = map[n];
        if rec.memory_type.is_conventional() {
            let addr2 = if addr == 0 {
                rec.physical_start as int
            } else {
                addr
            };
            let size2 = size + rec.number_of_pages * PAGE_SIZE;
            if size2 >= required {
                Some(addr2)
            } else if n + 1 < map.len() && region_end(rec) == map[n + 1].physical_start {
                meta_scan(map, n + 1, addr2, size2, required)
            } else {
                meta_scan(map, n + 1, 0, 0, required)
            }
        } else {
            meta_scan(map, n + 1, 0, 0, required)
        }
    }
}

/// Finds the first run of conventional memory able to host `required` bytes
/// of allocator metadata.
pub fn find_metadata_region(map: &Vec<MemoryDescriptor>, required: usize) -> (result: Option<
    usize,
>)
    requires
        map_regions_wf(map@),
    ensures
        match result {
            Some(a) => meta_scan(map@, 0, 0, 0, required as int) == Some(a as int),
            None => meta_scan(map@, 0, 0, 0, required as int) is None,
        },
{
    let n = map.len();
    let mut addr: usize = 0;
    let mut size_so_far: usize = 0;
    let mut i: usize = 0;
    while i < n
        invariant
            map_regions_wf(map@),
            n == map@.len(),
            0 <= i <= n,
            meta_scan(map@, 0, 0, 0, required as int) == meta_scan(
                map@,
                i as int,
                addr as int,
                size_so_far as int,
                required as int,
            ),
            size_so_far > 0 ==> i >= 1 && size_so_far <= region_end(map@[i - 1]) && (i < n
                ==> region_end(map@[i - 1]) == map@[i as int].physical_start),
        decreases n - i,
    {
        let ghost g_i = i as int;
        let ghost g_addr = addr as int;
        let ghost g_size = size_so_far as int;
        let rec = map[i];
        let mut can_use = rec.memory_type.0 == MEMORY_TYPE_CONVENTIONAL;
        if can_use {
            if addr == 0 {
                addr = rec.physical_start;
            }
            size_so_far = size_so_far + rec.number_of_pages * PAGE_SIZE;
            if size_so_far >= required {
                proof {
                    assert(meta_scan(map@, g_i, g_addr, g_size, required as int) == Some(
                        addr as int,
                    ));
                }
                return Some(addr);
            }
        }
        if i + 1 < n && rec.physical_start + rec.number_of_pages * PAGE_SIZE != map[i
            + 1].physical_start {
            can_use = false;
        }
        if !can_use {
            addr = 0;
            size_so_far = 0;
        }
        proof {
            assert(meta_scan(map@, g_i, g_addr, g_size, required as int) == meta_scan(
                map@,
                g_i + 1,
                addr as int,
                size_so_far as int,
                required as int,
            ));
        }
        i = i + 1;
    }
    None
}

/// Sums the pages of all records, rejecting maps whose bitmap would not fit
/// in the machine word.
pub fn count_total_pages(map: &Vec<MemoryDescriptor>) -> (result: Option<usize>)
    ensures
        match result {
            Some(total) => total == map_pages_total(map@) && 8 * total <= usize::MAX,
            None => 8 * map_pages_total(map@) > usize::MAX,
        },
{
    let n = map.len();
    let mut total: usize = 0;
    let mut i: usize = 0;
    while i < n
        invariant
            n == map@.len(),
            0 <= i <= n,
            total == map_pages_prefix(map@, i as int),
            8 * total <= usize::MAX,
        decreases n - i,
    {
        proof {
            lemma_map_pages_prefix_mono(map@, i + 1, map@.len() as int);
        }
        let next = match total.checked_add(map[i].number_of_pages) {
            Some(next) => next,
            None => {
                proof {
                    lemma_map_pages_prefix_nonneg(map@, map@.len() as int);
                }
                return None;
            },
        };
        if next > usize::MAX / 8 {
            proof {
                vstd::arithmetic::div_mod::lemma_fundamental_div_mod(usize::MAX as int, 8);
            }
            return None;
        }
        total = next;
        i = i + 1;
    }
    Some(total)
}

} // verus!
