//! The guest heap: first-fit allocation of 8-byte aligned blocks between
//! the heap base and the memory-block pool, with a sorted, coalesced list
//! of freed blocks that are reused before the heap grows.
use vstd::prelude::*;

use std::collections::BTreeMap;

verus! {

broadcast use {vstd::laws_cmp::group_laws_cmp, vstd::std_specs::btree::group_btree_axioms};

/// First guest address of the heap.
pub const HEAP_BASE: u32 = 0x0500_0000;

/// First guest address past the heap: the start of the memory-block pool.
pub const MEMORY_BLOCK_POOL: u32 = 0x0540_0000;

/// The heap as plain values: how far it has grown, the live allocations
/// (start to size) and the freed blocks (start, size) in address order.
pub struct HeapView {
    pub cursor: u32,
    pub allocations: Map<u32, u32>,
    pub free_blocks: Seq<(u32, u32)>,
}

/// `a + b`, or `u32::MAX` when that overflows.
pub open spec fn spec_sat_add(a: u32, b: u32) -> u32 {
    if a + b > u32::MAX {
        u32::MAX
    } else {
        (a + b) as u32
    }
}

/// A request rounded up to a multiple of 8 bytes (saturating first).
pub open spec fn spec_align8(size: u32) -> u32 {
    (spec_sat_add(size, 7) / 8 * 8) as u32
}

/// The first freed block, from index `k` on, of at least `size` bytes.
pub open spec fn spec_first_fit_from(blocks: Seq<(u32, u32)>, size: u32, k: int) -> Option<int>
    decreases blocks.len() - k,
{
    if k < 0 || k >= blocks.len() {
        None
    } else if blocks[k].1 >= size {
        Some(k)
    } else {
        spec_first_fit_from(blocks, size, k + 1)
    }
}

/// The first freed block of at least `size` bytes.
pub open spec fn spec_first_fit(blocks: Seq<(u32, u32)>, size: u32) -> Option<int> {
    spec_first_fit_from(blocks, size, 0)
}

/// Allocate `size` bytes: nothing for a zero size; else the first freed
/// block large enough, split when larger; else the top of the heap when
/// the pool is not reached; else nothing. Returns the address, 0 for none.
pub open spec fn spec_allocate(h: HeapView, size: u32) -> (u32, HeapView) {
    if size == 0 {
        (0, h)
    } else {
        let aligned = spec_align8(size);
        match spec_first_fit(h.free_blocks, aligned) {
            Some(k) => {
                let (pointer, available) = h.free_blocks[k];
                let rest = if available > aligned {
                    h.free_blocks.update(k, ((pointer + aligned) as u32, (available - aligned) as u32))
                } else {
                    h.free_blocks.remove(k)
                };
                (
                    pointer,
                    HeapView { allocations: h.allocations.insert(pointer, aligned), free_blocks: rest, ..h },
                )
            },
            None => {
                let end = spec_sat_add(h.cursor, aligned);
                if end > MEMORY_BLOCK_POOL {
                    (0, h)
                } else {
                    (
                        h.cursor,
                        HeapView {
                            cursor: end,
                            allocations: h.allocations.insert(h.cursor, aligned),
                            ..h
                        },
                    )
                }
            },
        }
    }
}

/// `block` inserted into the address-ordered `blocks` before the first
/// block that starts after it.
pub open spec fn spec_insert_sorted(blocks: Seq<(u32, u32)>, block: (u32, u32)) -> Seq<(u32, u32)>
    decreases blocks.len(),
{
    if blocks.len() == 0 {
        seq![block]
    } else if block.0 < blocks[0].0 {
        seq![block] + blocks
    } else {
        seq![blocks[0]] + spec_insert_sorted(blocks.drop_first(), block)
    }
}

/// Merge, from index `k` on, each block with the next one when it ends
/// where the next one starts.
pub open spec fn spec_coalesce_from(blocks: Seq<(u32, u32)>, k: int) -> Seq<(u32, u32)>
    decreases blocks.len() - k,
{
    if k < 0 || k + 1 >= blocks.len() {
        blocks
    } else if spec_sat_add(blocks[k].0, blocks[k].1) == blocks[k + 1].0 {
        spec_coalesce_from(
            blocks.update(k, (blocks[k].0, spec_sat_add(blocks[k].1, blocks[k + 1].1))).remove(k + 1),
            k,
        )
    } else {
        spec_coalesce_from(blocks, k + 1)
    }
}

/// Free the allocation at `pointer`: its block joins the freed blocks in
/// address order and touching blocks are merged; an address that is not
/// the start of a live allocation changes nothing.
pub open spec fn spec_deallocate(h: HeapView, pointer: u32) -> HeapView {
    if !h.allocations.contains_key(pointer) {
        h
    } else {
        HeapView {
            allocations: h.allocations.remove(pointer),
            free_blocks: spec_coalesce_from(
                spec_insert_sorted(h.free_blocks, (pointer, h.allocations[pointer])),
                0,
            ),
            ..h
        }
    }
}

/// End of a block.
pub open spec fn spec_end(block: (u32, u32)) -> int {
    block.0 + block.1
}

/// Whether the blocks `[a, a + m)` and `[b, b + n)` share no byte.
pub open spec fn spec_disjoint(a: int, m: int, b: int, n: int) -> bool {
    a + m <= b || b + n <= a
}

/// The heap invariant: the heap has not grown past the pool; every live
/// allocation and every freed block is non-empty, 8-byte aligned in start
/// and size, and lies below the top of the heap; live allocations do not
/// overlap each other nor any freed block; and the freed blocks are in
/// address order with a gap between any two, so that no two of them could
/// be merged.
pub open spec fn spec_heap_wf(h: HeapView) -> bool {
    &&& HEAP_BASE <= h.cursor <= MEMORY_BLOCK_POOL
    &&& h.cursor % 8 == 0
    &&& forall|p: u32| h.allocations.contains_key(p) ==> p % 8 == 0 && h.allocations[p] % 8 == 0
    &&& spec_blocks_aligned(h.free_blocks)
    &&& h.allocations.dom().finite()
    &&& forall|p: u32|
        h.allocations.contains_key(p) ==> HEAP_BASE <= p && 0 < h.allocations[p] && p
            + h.allocations[p] <= h.cursor
    &&& forall|p: u32, q: u32|
        h.allocations.contains_key(p) && h.allocations.contains_key(q) && p != q ==> spec_disjoint(
            p as int,
            h.allocations[p] as int,
            q as int,
            h.allocations[q] as int,
        )
    &&& forall|k: int|
        0 <= k < h.free_blocks.len() ==> HEAP_BASE <= h.free_blocks[k].0 && 0
            < h.free_blocks[k].1 && spec_end(#[trigger] h.free_blocks[k]) <= h.cursor
    &&& forall|k: int, l: int|
        0 <= k < l < h.free_blocks.len() ==> spec_end(#[trigger] h.free_blocks[k])
            < (#[trigger] h.free_blocks[l]).0
    &&& forall|k: int, p: u32|
        #![trigger h.free_blocks[k], h.allocations[p]]
        0 <= k < h.free_blocks.len() && h.allocations.contains_key(p) ==> spec_disjoint(
            h.free_blocks[k].0 as int,
            h.free_blocks[k].1 as int,
            p as int,
            h.allocations[p] as int,
        )
}

/// Every block starts and ends on an 8-byte boundary.
pub open spec fn spec_blocks_aligned(blocks: Seq<(u32, u32)>) -> bool {
    forall|i: int| 0 <= i < blocks.len() ==> (#[trigger] blocks[i]).0 % 8 == 0 && blocks[i].1 % 8 == 0
}

/// The empty heap.
pub open spec fn spec_empty_heap() -> HeapView {
    HeapView { cursor: HEAP_BASE, allocations: Map::empty(), free_blocks: Seq::empty() }
}

/// The guest heap.
#[derive(Debug)]
pub struct GuestHeap {
    cursor: u32,
    allocations: BTreeMap<u32, u32>,
    free_blocks: Vec<(u32, u32)>,
}

impl View for GuestHeap {
    type V = HeapView;

    closed spec fn view(&self) -> HeapView {
        HeapView {
            cursor: self.cursor,
            allocations: self.allocations@,
            free_blocks: self.free_blocks@,
        }
    }
}

impl GuestHeap {
    /// An empty heap at the heap base.
    pub fn new() -> (res: Self)
        ensures
            res@ == spec_empty_heap(),
            spec_heap_wf(res@),
    {
        let heap = GuestHeap { cursor: HEAP_BASE, allocations: BTreeMap::new(), free_blocks: Vec::new() };
        assert(heap@.allocations =~= Map::<u32, u32>::empty());
        heap
    }

    /// How far the heap has grown.
    pub fn cursor(&self) -> (res: u32)
        ensures
            res == self@.cursor,
    {
        self.cursor
    }

    /// Allocate `size` bytes, 8-byte aligned; 0 when the request is empty
    /// or does not fit.
    pub fn allocate(&mut self, size: u32) -> (res: u32)
        requires
            spec_heap_wf(old(self)@),
        ensures
            (res, final(self)@) == spec_allocate(old(self)@, size),
            spec_heap_wf(final(self)@),
    {
        if size == 0 {
            return 0;
        }
        let padded = if size > u32::MAX - 7 {
            u32::MAX
        } else {
            size + 7
        };
        let aligned = padded / 8 * 8;
        assert(aligned == spec_align8(size));
        let mut index: usize = 0;
        while index < self.free_blocks.len() && self.free_blocks[index].1 < aligned
            invariant
                index <= self.free_blocks@.len(),
                self@ == old(self)@,
                aligned == spec_align8(size),
                spec_first_fit(self@.free_blocks, aligned) == spec_first_fit_from(
                    self@.free_blocks,
                    aligned,
                    index as int,
                ),
            decreases self.free_blocks@.len() - index,
        {
            index = index + 1;
        }
        if index < self.free_blocks.len() {
            let (pointer, available) = self.free_blocks[index];
            proof {
                assert(spec_end(self@.free_blocks[index as int]) <= self.cursor);
            }
            if available > aligned {
                self.free_blocks.set(index, (pointer + aligned, available - aligned));
            } else {
                self.free_blocks.remove(index);
            }
            self.allocations.insert(pointer, aligned);
            proof {
                lemma_allocate_from_free_keeps_wf(old(self)@, size);
            }
            return pointer;
        }
        let pointer = self.cursor;
        let end = if pointer > u32::MAX - aligned {
            u32::MAX
        } else {
            pointer + aligned
        };
        if end > MEMORY_BLOCK_POOL {
            0
        } else {
            self.cursor = end;
            self.allocations.insert(pointer, aligned);
            proof {
                lemma_allocate_from_top_keeps_wf(old(self)@, size);
            }
            pointer
        }
    }

    /// Free the allocation that starts at `pointer`; any other address is
    /// ignored.
    pub fn deallocate(&mut self, pointer: u32)
        requires
            spec_heap_wf(old(self)@),
        ensures
            final(self)@ == spec_deallocate(old(self)@, pointer),
            spec_heap_wf(final(self)@),
    {
        let ghost before = self@;
        let removed = self.allocations.remove(&pointer);
        assert(self.allocations@ == before.allocations.remove(pointer));
        let size = match removed {
            Some(size) => size,
            None => {
                assert(self@.allocations =~= before.allocations);
                return ;
            },
        };
        let mut k: usize = 0;
        while k < self.free_blocks.len() && self.free_blocks[k].0 <= pointer
            invariant
                k <= self.free_blocks@.len(),
                self.free_blocks@ == before.free_blocks,
                self.allocations@ == before.allocations.remove(pointer),
                self.cursor == before.cursor,
                forall|i: int| 0 <= i < k ==> self.free_blocks@[i].0 <= pointer,
            decreases self.free_blocks@.len() - k,
        {
            k = k + 1;
        }
        proof {
            assert(before.allocations.contains_key(pointer) && before.allocations[pointer] == size);
            lemma_insert_sorted_at(before.free_blocks, (pointer, size), k as int);
            lemma_inserted_block_fits(before, pointer, k as int);
        }
        self.free_blocks.insert(k, (pointer, size));
        let ghost inserted = self.free_blocks@;
        let mut index: usize = 0;
        while index < self.free_blocks.len() - 1
            invariant
                index < self.free_blocks@.len(),
                self.allocations@ == before.allocations.remove(pointer),
                self.cursor == before.cursor,
                spec_coalesce_from(self.free_blocks@, index as int) == spec_coalesce_from(inserted, 0),
            decreases self.free_blocks@.len() - index,
        {
            let (start, length) = self.free_blocks[index];
            let (next_start, next_length) = self.free_blocks[index + 1];
            let end = if start > u32::MAX - length {
                u32::MAX
            } else {
                start + length
            };
            if end == next_start {
                let merged = if length > u32::MAX - next_length {
                    u32::MAX
                } else {
                    length + next_length
                };
                self.free_blocks.set(index, (start, merged));
                self.free_blocks.remove(index + 1);
            } else {
                index = index + 1;
            }
        }
        proof {
            let rest = before.allocations.remove(pointer);
            assert(self@.allocations == rest);
            assert(size == before.allocations[pointer]);
            assert(inserted == spec_insert_sorted(before.free_blocks, (pointer, size)));
            assert(self.free_blocks@ == spec_coalesce_from(inserted, 0));
            lemma_coalesce(inserted, 0, rest, before.cursor);
            assert(self@ == spec_deallocate(before, pointer));
            assert forall|p: u32| rest.contains_key(p) implies HEAP_BASE <= p && 0 < rest[p] && p
                + rest[p] <= self@.cursor by {
                assert(before.allocations.contains_key(p));
            }
            assert forall|p: u32| rest.contains_key(p) implies p % 8 == 0 && rest[p] % 8 == 0 by {
                assert(before.allocations.contains_key(p));
            }
            assert forall|p: u32, q: u32|
                rest.contains_key(p) && rest.contains_key(q) && p != q implies spec_disjoint(
                p as int,
                rest[p] as int,
                q as int,
                rest[q] as int,
            ) by {
                assert(before.allocations.contains_key(p) && before.allocations.contains_key(q));
            }
        }
    }
}

/// Taking a block from the freed list keeps the invariant.
proof fn lemma_allocate_from_free_keeps_wf(h: HeapView, size: u32)
    requires
        spec_heap_wf(h),
        size != 0,
        spec_first_fit(h.free_blocks, spec_align8(size)) is Some,
    ensures
        spec_heap_wf(spec_allocate(h, size).1),
{
    let aligned = spec_align8(size);
    let k = spec_first_fit(h.free_blocks, aligned).unwrap();
    lemma_first_fit_found(h.free_blocks, aligned, 0);
    let (pointer, available) = h.free_blocks[k];
    let h2 = spec_allocate(h, size).1;
    assert(aligned >= 8);
    assert(!h.allocations.contains_key(pointer));
    assert forall|p: u32|
        h2.allocations.contains_key(p) implies HEAP_BASE <= p && 0 < h2.allocations[p] && p
            + h2.allocations[p] <= h2.cursor by {
        if p != pointer {
            assert(h.allocations.contains_key(p));
        }
    }
    assert forall|p: u32, q: u32|
        h2.allocations.contains_key(p) && h2.allocations.contains_key(q) && p != q implies spec_disjoint(
            p as int,
            h2.allocations[p] as int,
            q as int,
            h2.allocations[q] as int,
        ) by {
        if p == pointer {
            assert(spec_disjoint(
                (h.free_blocks[k]).0 as int,
                h.free_blocks[k].1 as int,
                q as int,
                h.allocations[q] as int,
            ));
        } else if q == pointer {
            assert(spec_disjoint(
                (h.free_blocks[k]).0 as int,
                h.free_blocks[k].1 as int,
                p as int,
                h.allocations[p] as int,
            ));
        }
    }
    let free = h.free_blocks;
    let free2 = h2.free_blocks;
    if available > aligned {
        assert forall|i: int| 0 <= i < free2.len() implies free2[i] == if i == k {
            ((pointer + aligned) as u32, (available - aligned) as u32)
        } else {
            free[i]
        } by {}
        assert forall|i: int|
            0 <= i < free2.len() implies HEAP_BASE <= free2[i].0 && 0 < free2[i].1 && spec_end(
                #[trigger] free2[i],
            ) <= h2.cursor by {
            assert(spec_end(free[i]) <= h.cursor);
        }
        assert forall|i: int, l: int|
            0 <= i < l < free2.len() implies spec_end(#[trigger] free2[i]) < (
            #[trigger] free2[l]).0 by {
            assert(spec_end(free[i]) < free[l].0);
        }
        assert forall|i: int, p: u32|
            #![trigger free2[i], h2.allocations[p]]
            0 <= i < free2.len() && h2.allocations.contains_key(p) implies spec_disjoint(
                free2[i].0 as int,
                free2[i].1 as int,
                p as int,
                h2.allocations[p] as int,
            ) by {
            if p == pointer {
                if i != k {
                    if i < k {
                        assert(spec_end(free[i]) < free[k].0);
                    } else {
                        assert(spec_end(free[k]) < free[i].0);
                    }
                }
            } else {
                assert(spec_disjoint(
                    free[i].0 as int,
                    free[i].1 as int,
                    p as int,
                    h.allocations[p] as int,
                ));
            }
        }
    } else {
        assert forall|i: int| 0 <= i < free2.len() implies free2[i] == if i < k {
            free[i]
        } else {
            free[i + 1]
        } by {}
        assert forall|i: int|
            0 <= i < free2.len() implies HEAP_BASE <= free2[i].0 && 0 < free2[i].1 && spec_end(
                #[trigger] free2[i],
            ) <= h2.cursor by {
            if i < k {
                assert(spec_end(free[i]) <= h.cursor);
            } else {
                assert(spec_end(free[i + 1]) <= h.cursor);
            }
        }
        assert forall|i: int, l: int|
            0 <= i < l < free2.len() implies spec_end(#[trigger] free2[i]) < (
            #[trigger] free2[l]).0 by {
            let a = if i < k { i } else { i + 1 };
            let b = if l < k { l } else { l + 1 };
            assert(spec_end(free[a]) < free[b].0);
        }
        assert forall|i: int, p: u32|
            #![trigger free2[i], h2.allocations[p]]
            0 <= i < free2.len() && h2.allocations.contains_key(p) implies spec_disjoint(
                free2[i].0 as int,
                free2[i].1 as int,
                p as int,
                h2.allocations[p] as int,
            ) by {
            let a = if i < k { i } else { i + 1 };
            if p == pointer {
                if a < k {
                    assert(spec_end(free[a]) < free[k].0);
                } else {
                    assert(spec_end(free[k]) < free[a].0);
                }
            } else {
                assert(spec_disjoint(
                    free[a].0 as int,
                    free[a].1 as int,
                    p as int,
                    h.allocations[p] as int,
                ));
            }
        }
    }
}

/// The first fit, when there is one, is a block large enough at or after
/// the starting index.
proof fn lemma_first_fit_found(blocks: Seq<(u32, u32)>, size: u32, k: int)
    requires
        0 <= k,
    ensures
        spec_first_fit_from(blocks, size, k) matches Some(i) ==> k <= i < blocks.len() && blocks[i].1
            >= size,
    decreases blocks.len() - k,
{
    if k < blocks.len() && blocks[k].1 < size {
        lemma_first_fit_found(blocks, size, k + 1);
    }
}

/// Growing the heap keeps the invariant.
proof fn lemma_allocate_from_top_keeps_wf(h: HeapView, size: u32)
    requires
        spec_heap_wf(h),
        size != 0,
        spec_first_fit(h.free_blocks, spec_align8(size)) is None,
        spec_sat_add(h.cursor, spec_align8(size)) <= MEMORY_BLOCK_POOL,
    ensures
        spec_heap_wf(spec_allocate(h, size).1),
{
    let aligned = spec_align8(size);
    let h2 = spec_allocate(h, size).1;
    assert(aligned >= 8);
    assert(!h.allocations.contains_key(h.cursor)) by {
        if h.allocations.contains_key(h.cursor) {
            assert(h.cursor + h.allocations[h.cursor] <= h.cursor);
        }
    }
    assert forall|p: u32|
        h2.allocations.contains_key(p) implies HEAP_BASE <= p && 0 < h2.allocations[p] && p
            + h2.allocations[p] <= h2.cursor by {
        if p != h.cursor {
            assert(h.allocations.contains_key(p));
        }
    }
    assert forall|p: u32, q: u32|
        h2.allocations.contains_key(p) && h2.allocations.contains_key(q) && p != q implies spec_disjoint(
            p as int,
            h2.allocations[p] as int,
            q as int,
            h2.allocations[q] as int,
        ) by {
        if p != h.cursor && q != h.cursor {
            assert(h.allocations.contains_key(p) && h.allocations.contains_key(q));
        } else if p == h.cursor {
            assert(h.allocations.contains_key(q));
        } else {
            assert(h.allocations.contains_key(p));
        }
    }
    assert forall|k: int, p: u32|
        #![trigger h2.free_blocks[k], h2.allocations[p]]
        0 <= k < h2.free_blocks.len() && h2.allocations.contains_key(p) implies spec_disjoint(
            h2.free_blocks[k].0 as int,
            h2.free_blocks[k].1 as int,
            p as int,
            h2.allocations[p] as int,
        ) by {
        assert(spec_end(h.free_blocks[k]) <= h.cursor);
        if p != h.cursor {
            assert(h.allocations.contains_key(p));
        }
    }
}

/// The blocks are in address order and do not overlap.
pub open spec fn spec_weakly_separated(blocks: Seq<(u32, u32)>) -> bool {
    forall|i: int, j: int|
        0 <= i < j < blocks.len() ==> spec_end(#[trigger] blocks[i]) <= (#[trigger] blocks[j]).0
}

/// Among the blocks up to index `k`, each ends before the next starts.
pub open spec fn spec_separated_upto(blocks: Seq<(u32, u32)>, k: int) -> bool {
    forall|i: int, j: int|
        0 <= i < j <= k && j < blocks.len() ==> spec_end(#[trigger] blocks[i]) < (
        #[trigger] blocks[j]).0
}

/// Every block is non-empty and lies in the heap below `cursor`.
pub open spec fn spec_blocks_in_heap(blocks: Seq<(u32, u32)>, cursor: u32) -> bool {
    forall|i: int|
        0 <= i < blocks.len() ==> HEAP_BASE <= blocks[i].0 && 0 < blocks[i].1 && spec_end(
            #[trigger] blocks[i],
        ) <= cursor
}

/// No block overlaps a live allocation.
pub open spec fn spec_blocks_clear_of(blocks: Seq<(u32, u32)>, allocations: Map<u32, u32>) -> bool {
    forall|i: int, p: u32|
        #![trigger blocks[i], allocations[p]]
        0 <= i < blocks.len() && allocations.contains_key(p) ==> spec_disjoint(
            blocks[i].0 as int,
            blocks[i].1 as int,
            p as int,
            allocations[p] as int,
        )
}

/// Inserting into address order where the scan stopped.
proof fn lemma_insert_sorted_at(blocks: Seq<(u32, u32)>, block: (u32, u32), k: int)
    requires
        0 <= k <= blocks.len(),
        forall|i: int| 0 <= i < k ==> blocks[i].0 <= block.0,
        k < blocks.len() ==> blocks[k].0 > block.0,
    ensures
        spec_insert_sorted(blocks, block) == blocks.insert(k, block),
    decreases blocks.len(),
{
    if blocks.len() == 0 {
        assert(blocks.insert(k, block) =~= seq![block]);
    } else if k == 0 {
        assert(blocks.insert(0, block) =~= seq![block] + blocks);
    } else {
        let rest = blocks.drop_first();
        assert forall|i: int| 0 <= i < k - 1 implies rest[i].0 <= block.0 by {
            assert(rest[i] == blocks[i + 1]);
        }
        lemma_insert_sorted_at(rest, block, k - 1);
        assert(blocks.insert(k, block) =~= seq![blocks[0]] + rest.insert(k - 1, block));
    }
}

/// The freed block, put at the scan position, leaves the list ordered and
/// clear of the remaining allocations.
proof fn lemma_inserted_block_fits(h: HeapView, pointer: u32, k: int)
    requires
        spec_heap_wf(h),
        h.allocations.contains_key(pointer),
        0 <= k <= h.free_blocks.len(),
        forall|i: int| 0 <= i < k ==> h.free_blocks[i].0 <= pointer,
        k < h.free_blocks.len() ==> h.free_blocks[k].0 > pointer,
    ensures
        ({
            let inserted = h.free_blocks.insert(k, (pointer, h.allocations[pointer]));
            &&& spec_weakly_separated(inserted)
            &&& spec_blocks_aligned(inserted)
            &&& spec_separated_upto(inserted, 0)
            &&& spec_blocks_in_heap(inserted, h.cursor)
            &&& spec_blocks_clear_of(inserted, h.allocations.remove(pointer))
        }),
{
    let size = h.allocations[pointer];
    let free = h.free_blocks;
    let inserted = free.insert(k, (pointer, size));
    let rest = h.allocations.remove(pointer);
    assert forall|i: int| 0 <= i < inserted.len() implies inserted[i] == if i < k {
        free[i]
    } else if i == k {
        (pointer, size)
    } else {
        free[i - 1]
    } by {}
    assert forall|i: int| 0 <= i < free.len() implies (i < k ==> spec_end(free[i]) <= pointer) && (
    i >= k ==> pointer + size <= free[i].0) by {
        assert(spec_disjoint(free[i].0 as int, free[i].1 as int, pointer as int, size as int));
    }
    assert forall|i: int, j: int|
        0 <= i < j < inserted.len() implies spec_end(#[trigger] inserted[i]) <= (
        #[trigger] inserted[j]).0 by {
        if i < k && j < k {
            assert(spec_end(free[i]) < free[j].0);
        } else if i < k && j > k {
            assert(spec_end(free[i]) < free[j - 1].0);
        } else if i > k && j > k {
            assert(spec_end(free[i - 1]) < free[j - 1].0);
        }
    }
    assert forall|i: int| 0 <= i < inserted.len() implies (#[trigger] inserted[i]).0 % 8 == 0
        && inserted[i].1 % 8 == 0 by {
        if i < k {
            assert(free[i].0 % 8 == 0 && free[i].1 % 8 == 0);
        } else if i > k {
            assert(free[i - 1].0 % 8 == 0 && free[i - 1].1 % 8 == 0);
        }
    }
    assert forall|i: int|
        0 <= i < inserted.len() implies HEAP_BASE <= inserted[i].0 && 0 < inserted[i].1 && spec_end(
            #[trigger] inserted[i],
        ) <= h.cursor by {
        if i < k {
            assert(spec_end(free[i]) <= h.cursor);
        } else if i > k {
            assert(spec_end(free[i - 1]) <= h.cursor);
        }
    }
    assert forall|i: int, p: u32|
        #![trigger inserted[i], rest[p]]
        0 <= i < inserted.len() && rest.contains_key(p) implies spec_disjoint(
            inserted[i].0 as int,
            inserted[i].1 as int,
            p as int,
            rest[p] as int,
        ) by {
        assert(h.allocations.contains_key(p) && p != pointer && rest[p] == h.allocations[p]);
        if i < k {
            assert(spec_disjoint(free[i].0 as int, free[i].1 as int, p as int, h.allocations[p] as int));
        } else if i > k {
            assert(spec_disjoint(
                free[i - 1].0 as int,
                free[i - 1].1 as int,
                p as int,
                h.allocations[p] as int,
            ));
        }
    }
}

/// Merging touching neighbours of an ordered, non-overlapping list leaves
/// every pair of blocks apart, keeps each block in the heap and keeps the
/// blocks clear of the allocations.
proof fn lemma_coalesce(blocks: Seq<(u32, u32)>, k: int, allocations: Map<u32, u32>, cursor: u32)
    requires
        0 <= k,
        k < blocks.len() || blocks.len() == 0,
        cursor <= MEMORY_BLOCK_POOL,
        forall|p: u32| allocations.contains_key(p) ==> 0 < allocations[p],
        spec_weakly_separated(blocks),
        spec_blocks_aligned(blocks),
        spec_separated_upto(blocks, k),
        spec_blocks_in_heap(blocks, cursor),
        spec_blocks_clear_of(blocks, allocations),
    ensures
        ({
            let result = spec_coalesce_from(blocks, k);
            &&& spec_separated_upto(result, result.len() as int)
            &&& spec_blocks_aligned(result)
            &&& spec_blocks_in_heap(result, cursor)
            &&& spec_blocks_clear_of(result, allocations)
        }),
    decreases blocks.len() - k,
{
    if k + 1 >= blocks.len() {
        assert forall|i: int, j: int|
            0 <= i < j <= blocks.len() && j < blocks.len() implies spec_end(#[trigger] blocks[i]) < (
            #[trigger] blocks[j]).0 by {
            assert(j <= k);
        }
    } else {
        let start = blocks[k].0;
        let length = blocks[k].1;
        let next = blocks[k + 1];
        assert(spec_end(blocks[k]) <= cursor && spec_end(next) <= cursor);
        if spec_sat_add(start, length) == next.0 {
            let merged = (start, spec_sat_add(length, next.1));
            let updated = blocks.update(k, merged);
            let shorter = updated.remove(k + 1);
            assert(spec_end(merged) == spec_end(next));
            assert forall|i: int| 0 <= i < shorter.len() implies shorter[i] == if i < k {
                blocks[i]
            } else if i == k {
                merged
            } else {
                blocks[i + 1]
            } by {}
            assert forall|i: int, j: int|
                0 <= i < j < shorter.len() implies spec_end(#[trigger] shorter[i]) <= (
                #[trigger] shorter[j]).0 by {
                let a = if i <= k { i } else { i + 1 };
                let b = if j <= k { j } else { j + 1 };
                if i == k {
                    assert(spec_end(blocks[k + 1]) <= blocks[b].0);
                } else if j == k {
                    assert(spec_end(blocks[a]) <= blocks[k].0);
                } else {
                    assert(spec_end(blocks[a]) <= blocks[b].0);
                }
            }
            assert forall|i: int, j: int|
                0 <= i < j <= k && j < shorter.len() implies spec_end(#[trigger] shorter[i]) < (
                #[trigger] shorter[j]).0 by {
                assert(spec_end(blocks[i]) < blocks[j].0);
            }
            assert forall|i: int|
                0 <= i < shorter.len() implies HEAP_BASE <= shorter[i].0 && 0 < shorter[i].1
                    && spec_end(#[trigger] shorter[i]) <= cursor by {
                if i < k {
                    assert(spec_end(blocks[i]) <= cursor);
                } else if i > k {
                    assert(spec_end(blocks[i + 1]) <= cursor);
                }
            }
            assert forall|i: int, p: u32|
                #![trigger shorter[i], allocations[p]]
                0 <= i < shorter.len() && allocations.contains_key(p) implies spec_disjoint(
                    shorter[i].0 as int,
                    shorter[i].1 as int,
                    p as int,
                    allocations[p] as int,
                ) by {
                if i < k {
                    assert(spec_disjoint(
                        blocks[i].0 as int,
                        blocks[i].1 as int,
                        p as int,
                        allocations[p] as int,
                    ));
                } else if i > k {
                    assert(spec_disjoint(
                        blocks[i + 1].0 as int,
                        blocks[i + 1].1 as int,
                        p as int,
                        allocations[p] as int,
                    ));
                } else {
                    assert(spec_disjoint(
                        blocks[k].0 as int,
                        blocks[k].1 as int,
                        p as int,
                        allocations[p] as int,
                    ));
                    assert(spec_disjoint(
                        blocks[k + 1].0 as int,
                        blocks[k + 1].1 as int,
                        p as int,
                        allocations[p] as int,
                    ));
                }
            }
            assert forall|i: int| 0 <= i < shorter.len() implies (#[trigger] shorter[i]).0 % 8 == 0
                && shorter[i].1 % 8 == 0 by {
                if i < k {
                    assert(blocks[i].0 % 8 == 0 && blocks[i].1 % 8 == 0);
                } else if i > k {
                    assert(blocks[i + 1].0 % 8 == 0 && blocks[i + 1].1 % 8 == 0);
                } else {
                    assert(blocks[k].1 % 8 == 0 && blocks[k + 1].1 % 8 == 0);
                }
            }
            lemma_coalesce(shorter, k, allocations, cursor);
        } else {
            assert(spec_end(blocks[k]) < next.0);
            assert forall|i: int, j: int|
                0 <= i < j <= k + 1 && j < blocks.len() implies spec_end(#[trigger] blocks[i]) < (
                #[trigger] blocks[j]).0 by {
                if j == k + 1 && i < k {
                    assert(spec_end(blocks[i]) < blocks[k].0);
                    assert(spec_end(blocks[k]) < blocks[k + 1].0);
                }
            }
            lemma_coalesce(blocks, k + 1, allocations, cursor);
        }
    }
}

/// A successful allocation is an 8-byte aligned block, at least as large
/// as the request, inside the heap, overlapping no live allocation, and it
/// becomes live; a failed allocation (address 0) changes nothing.
pub proof fn lemma_allocation_is_fresh(h: HeapView, size: u32)
    requires
        spec_heap_wf(h),
    ensures
        ({
            let (pointer, after) = spec_allocate(h, size);
            &&& pointer != 0 ==> {
                &&& pointer % 8 == 0
                &&& size <= spec_align8(size)
                &&& HEAP_BASE <= pointer
                &&& pointer + spec_align8(size) <= MEMORY_BLOCK_POOL
                &&& forall|q: u32|
                    h.allocations.contains_key(q) ==> spec_disjoint(
                        pointer as int,
                        spec_align8(size) as int,
                        q as int,
                        h.allocations[q] as int,
                    )
                &&& after.allocations == h.allocations.insert(pointer, spec_align8(size))
            }
            &&& pointer == 0 ==> after == h
        }),
{
    let (pointer, after) = spec_allocate(h, size);
    if size != 0 {
        let aligned = spec_align8(size);
        match spec_first_fit(h.free_blocks, aligned) {
            Some(k) => {
                lemma_first_fit_found(h.free_blocks, aligned, 0);
                lemma_allocate_from_free_keeps_wf(h, size);
                assert(spec_end(h.free_blocks[k]) <= h.cursor);
                assert(!h.allocations.contains_key(pointer));
                assert forall|q: u32| h.allocations.contains_key(q) implies spec_disjoint(
                    pointer as int,
                    aligned as int,
                    q as int,
                    h.allocations[q] as int,
                ) by {
                    assert(after.allocations.contains_key(q) && after.allocations.contains_key(pointer));
                    assert(after.allocations[q] == h.allocations[q]);
                }
            },
            None => {
                if spec_sat_add(h.cursor, aligned) <= MEMORY_BLOCK_POOL {
                    lemma_allocate_from_top_keeps_wf(h, size);
                    assert forall|q: u32| h.allocations.contains_key(q) implies spec_disjoint(
                        pointer as int,
                        aligned as int,
                        q as int,
                        h.allocations[q] as int,
                    ) by {
                        assert(h.allocations[q] + q <= h.cursor);
                    }
                }
            },
        }
    }
}

/// Freeing the block that an allocation just returned leaves the same live
/// allocations as before the allocation, with the heap invariant kept.
pub proof fn lemma_free_undoes_allocation(h: HeapView, size: u32)
    requires
        spec_heap_wf(h),
        spec_allocate(h, size).0 != 0,
    ensures
        ({
            let (pointer, after) = spec_allocate(h, size);
            &&& spec_deallocate(after, pointer).allocations == h.allocations
            &&& spec_heap_wf(spec_deallocate(after, pointer))
        }),
{
    let (pointer, after) = spec_allocate(h, size);
    lemma_allocation_is_fresh(h, size);
    assert(!h.allocations.contains_key(pointer)) by {
        if h.allocations.contains_key(pointer) {
            assert(spec_disjoint(
                pointer as int,
                spec_align8(size) as int,
                pointer as int,
                h.allocations[pointer] as int,
            ));
        }
    }
    assert(spec_deallocate(after, pointer).allocations =~= h.allocations);
    if spec_first_fit(h.free_blocks, spec_align8(size)) is Some {
        lemma_allocate_from_free_keeps_wf(h, size);
    } else {
        lemma_allocate_from_top_keeps_wf(h, size);
    }
    lemma_deallocate_keeps_wf(after, pointer);
}

/// The first index from `from` on whose block starts after `pointer`, or
/// the length when there is none.
spec fn spec_scan_position(blocks: Seq<(u32, u32)>, pointer: u32, from: int) -> int
    decreases blocks.len() - from,
{
    if from < 0 || from >= blocks.len() {
        blocks.len() as int
    } else if blocks[from].0 > pointer {
        from
    } else {
        spec_scan_position(blocks, pointer, from + 1)
    }
}

proof fn lemma_scan_position(blocks: Seq<(u32, u32)>, pointer: u32, from: int)
    requires
        0 <= from <= blocks.len(),
        forall|i: int| 0 <= i < from ==> blocks[i].0 <= pointer,
    ensures
        ({
            let k = spec_scan_position(blocks, pointer, from);
            &&& from <= k <= blocks.len()
            &&& forall|i: int| 0 <= i < k ==> blocks[i].0 <= pointer
            &&& k < blocks.len() ==> blocks[k].0 > pointer
        }),
    decreases blocks.len() - from,
{
    if from < blocks.len() && blocks[from].0 <= pointer {
        lemma_scan_position(blocks, pointer, from + 1);
    }
}

/// Freeing keeps the heap invariant.
pub proof fn lemma_deallocate_keeps_wf(h: HeapView, pointer: u32)
    requires
        spec_heap_wf(h),
    ensures
        spec_heap_wf(spec_deallocate(h, pointer)),
{
    if h.allocations.contains_key(pointer) {
        let size = h.allocations[pointer];
        let free = h.free_blocks;
        lemma_scan_position(free, pointer, 0);
        let k = spec_scan_position(free, pointer, 0);
        lemma_insert_sorted_at(free, (pointer, size), k);
        lemma_inserted_block_fits(h, pointer, k);
        let inserted = free.insert(k, (pointer, size));
        let rest = h.allocations.remove(pointer);
        lemma_coalesce(inserted, 0, rest, h.cursor);
        assert forall|p: u32| rest.contains_key(p) implies HEAP_BASE <= p && 0 < rest[p] && p
            + rest[p] <= h.cursor by {
            assert(h.allocations.contains_key(p));
        }
        assert forall|p: u32| rest.contains_key(p) implies p % 8 == 0 && rest[p] % 8 == 0 by {
            assert(h.allocations.contains_key(p));
        }
        assert forall|p: u32, q: u32|
            rest.contains_key(p) && rest.contains_key(q) && p != q implies spec_disjoint(
            p as int,
            rest[p] as int,
            q as int,
            rest[q] as int,
        ) by {
            assert(h.allocations.contains_key(p) && h.allocations.contains_key(q));
        }
    }
}

} // verus!
