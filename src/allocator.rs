//! A bump allocator over a fixed region: a cursor only moves forward, except
//! that freeing the most recent block moves it back to that block's start.

use vstd::prelude::*;

verus! {

/// Capacity in bytes of the kernel heap.
pub const HEAP_SIZE: usize = 4096;

/// Abstract state of a heap: the address of its first byte, its capacity,
/// and the offset of the first free byte.
pub struct HeapModel {
    pub base: nat,
    pub capacity: nat,
    pub cursor: nat,
}

impl HeapModel {
    pub open spec fn wf(self) -> bool {
        &&& self.cursor <= self.capacity
        &&& self.base + self.capacity <= usize::MAX
    }
}

/// Bytes to skip from `addr` to reach a multiple of `align`.
pub open spec fn padding(addr: nat, align: nat) -> nat
    recommends
        align > 0,
{
    if addr % align == 0 {
        0
    } else {
        (align - addr % align) as nat
    }
}

/// Offset at which a block aligned to `align` starts when the cursor is at `cursor`.
pub open spec fn aligned_start(base: nat, cursor: nat, align: nat) -> nat {
    cursor + padding(base + cursor, align)
}

/// Outcome of an allocation request of `size` bytes aligned to `align`:
/// the offset of the block, if any, and the new heap state.
pub open spec fn alloc_spec(m: HeapModel, size: nat, align: nat) -> (Option<nat>, HeapModel) {
    if align == 0 {
        (None, m)
    } else {
        let start = aligned_start(m.base, m.cursor, align);
        if start + size <= m.capacity {
            (Some(start), HeapModel { cursor: start + size, ..m })
        } else {
            (None, m)
        }
    }
}

/// Heap state after freeing the block of `size` bytes at offset `start`:
/// only the most recent block is reclaimed.
pub open spec fn dealloc_spec(m: HeapModel, start: nat, size: nat) -> HeapModel {
    if start + size == m.cursor {
        HeapModel { cursor: start, ..m }
    } else {
        m
    }
}

/// Results of serving the requests `reqs` (each a size and an alignment) in
/// order, starting from `m`.
pub open spec fn run_allocs(m: HeapModel, reqs: Seq<(nat, nat)>) -> Seq<Option<nat>>
    decreases reqs.len(),
{
    if reqs.len() == 0 {
        Seq::empty()
    } else {
        let (r, m2) = alloc_spec(m, reqs[0].0, reqs[0].1);
        seq![r] + run_allocs(m2, reqs.subrange(1, reqs.len() as int))
    }
}

/// Offset that the cursor reaches after serving `reqs` from `cursor`, each
/// block padded to its alignment, whatever the capacity.
pub open spec fn padded_end(base: nat, cursor: nat, reqs: Seq<(nat, nat)>) -> nat
    decreases reqs.len(),
{
    if reqs.len() == 0 {
        cursor
    } else {
        padded_end(
            base,
            aligned_start(base, cursor, reqs[0].1) + reqs[0].0,
            reqs.subrange(1, reqs.len() as int),
        )
    }
}

proof fn lemma_padded_end_grows(base: nat, cursor: nat, reqs: Seq<(nat, nat)>)
    ensures
        cursor <= padded_end(base, cursor, reqs),
    decreases reqs.len(),
{
    if reqs.len() > 0 {
        lemma_padded_end_grows(
            base,
            aligned_start(base, cursor, reqs[0].1) + reqs[0].0,
            reqs.subrange(1, reqs.len() as int),
        );
    }
}

proof fn lemma_aligned_start(addr: nat, align: nat)
    requires
        align > 0,
    ensures
        (addr + padding(addr, align)) % align == 0,
{
    if addr % align != 0 {
        let a = addr as int;
        let n = align as int;
        assert((a + (n - a % n)) % n == 0) by (nonlinear_arith)
            requires
                n > 0,
                a % n != 0,
        {
            assert(a == n * (a / n) + a % n);
            assert(a + (n - a % n) == n * (a / n + 1));
        }
    }
}

/// A sequence of requests whose padded total stays within the capacity is
/// served in full: every block is granted, aligned, inside the heap, and no
/// two blocks overlap.
pub proof fn lemma_allocs_within_capacity(m: HeapModel, reqs: Seq<(nat, nat)>)
    requires
        m.wf(),
        forall|i: int| 0 <= i < reqs.len() ==> #[trigger] reqs[i].1 > 0,
        padded_end(m.base, m.cursor, reqs) <= m.capacity,
    ensures
        run_allocs(m, reqs).len() == reqs.len(),
        forall|i: int|
            0 <= i < reqs.len() ==> {
                let r = #[trigger] run_allocs(m, reqs)[i];
                &&& r is Some
                &&& (m.base + r->0) % reqs[i].1 == 0
                &&& m.cursor <= r->0
                &&& r->0 + reqs[i].0 <= m.capacity
            },
        forall|i: int, j: int|
            0 <= i < j < reqs.len() ==> run_allocs(m, reqs)[i]->0 + reqs[i].0
                <= #[trigger] run_allocs(m, reqs)[j]->0,
    decreases reqs.len(),
{
    if reqs.len() > 0 {
        let (size, align) = reqs[0];
        let start = aligned_start(m.base, m.cursor, align);
        let rest = reqs.subrange(1, reqs.len() as int);
        lemma_padded_end_grows(m.base, start + size, rest);
        let m2 = HeapModel { cursor: start + size, ..m };
        assert(alloc_spec(m, size, align) == (Some(start), m2));
        assert forall|i: int| 0 <= i < rest.len() implies #[trigger] rest[i].1 > 0 by {
            assert(rest[i] == reqs[i + 1]);
        }
        lemma_allocs_within_capacity(m2, rest);
        lemma_aligned_start(m.base + m.cursor, align);
        let out = run_allocs(m, reqs);
        assert(out == seq![Some(start)] + run_allocs(m2, rest));
        assert forall|i: int| 0 <= i < reqs.len() implies {
            let r = #[trigger] out[i];
            &&& r is Some
            &&& (m.base + r->0) % reqs[i].1 == 0
            &&& m.cursor <= r->0
            &&& r->0 + reqs[i].0 <= m.capacity
        } by {
            if i > 0 {
                assert(out[i] == run_allocs(m2, rest)[i - 1]);
                assert(reqs[i] == rest[i - 1]);
            }
        }
        assert forall|i: int, j: int| 0 <= i < j < reqs.len() implies out[i]->0 + reqs[i].0
            <= #[trigger] out[j]->0 by {
            assert(out[j] == run_allocs(m2, rest)[j - 1]);
            if i > 0 {
                assert(out[i] == run_allocs(m2, rest)[i - 1]);
                assert(reqs[i] == rest[i - 1]);
                assert(reqs[j] == rest[j - 1]);
            }
        }
    }
}

/// Freeing a block right after it was granted, where no padding was needed,
/// puts the cursor back where it stood before the request.
pub proof fn lemma_alloc_then_free_restores(m: HeapModel, size: nat, align: nat)
    requires
        m.wf(),
        align > 0,
        (m.base + m.cursor) % align == 0,
        alloc_spec(m, size, align).0 is Some,
    ensures
        dealloc_spec(alloc_spec(m, size, align).1, alloc_spec(m, size, align).0->0, size) == m,
{
}

/// Freeing a block that does not end at the cursor leaves the heap unchanged.
pub proof fn lemma_free_not_topmost_keeps_cursor(m: HeapModel, start: nat, size: nat)
    requires
        start + size != m.cursor,
    ensures
        dealloc_spec(m, start, size) == m,
{
}

/// A request larger than the room left after the cursor gets the null result
/// and leaves the heap unchanged.
pub proof fn lemma_oversized_request_refused(m: HeapModel, size: nat, align: nat)
    requires
        m.wf(),
        size > m.capacity - m.cursor,
    ensures
        alloc_spec(m, size, align) == (None::<nat>, m),
{
}

/// One allocation decision from plain values: the offset of the block and the
/// cursor to install, or `None` where the request does not fit.
pub fn alloc_step(base: usize, capacity: usize, cursor: usize, size: usize, align: usize) -> (r:
    Option<(usize, usize)>)
    requires
        cursor <= capacity,
        base + capacity <= usize::MAX,
    ensures
        ({
            let m = HeapModel { base: base as nat, capacity: capacity as nat, cursor: cursor as nat };
            match alloc_spec(m, size as nat, align as nat) {
                (Some(s), m2) => r == Some((s as usize, m2.cursor as usize)),
                (None, _) => r is None,
            }
        }),
{
    if align == 0 {
        return None;
    }
    let addr = base + cursor;
    let rem = addr % align;
    let pad: usize = if rem == 0 { 0 } else { align - rem };
    if pad > capacity - cursor {
        return None;
    }
    let start = cursor + pad;
    if size > capacity - start {
        return None;
    }
    Some((start, start + size))
}

/// One deallocation decision: the cursor to install after freeing the block
/// of `size` bytes at offset `start`.
pub fn dealloc_step(cursor: usize, start: usize, size: usize) -> (r: usize)
    ensures
        r as nat == dealloc_spec(
            HeapModel { base: 0, capacity: 0, cursor: cursor as nat },
            start as nat,
            size as nat,
        ).cursor,
{
    if start <= cursor && size == cursor - start {
        start
    } else {
        cursor
    }
}

/// A bump heap over `capacity` bytes starting at address `base`.
pub struct BumpAllocator {
    base: usize,
    capacity: usize,
    cursor: usize,
}

impl View for BumpAllocator {
    type V = HeapModel;

    closed spec fn view(&self) -> HeapModel {
        HeapModel {
            base: self.base as nat,
            capacity: self.capacity as nat,
            cursor: self.cursor as nat,
        }
    }
}

impl BumpAllocator {
    /// An empty heap of `capacity` bytes at address `base`.
    pub fn new(base: usize, capacity: usize) -> (r: Self)
        requires
            base + capacity <= usize::MAX,
        ensures
            r@ == (HeapModel { base: base as nat, capacity: capacity as nat, cursor: 0 }),
            r@.wf(),
    {
        BumpAllocator { base, capacity, cursor: 0 }
    }

    /// Offset of the first free byte.
    pub fn cursor(&self) -> (r: usize)
        ensures
            r as nat == self@.cursor,
    {
        self.cursor
    }

    /// Reserves `size` bytes aligned to `align`; returns the block's offset
    /// from the heap start, or `None` (the null result) where it does not fit.
    pub fn allocate(&mut self, size: usize, align: usize) -> (r: Option<usize>)
        requires
            old(self)@.wf(),
        ensures
            final(self)@.wf(),
            ({
                let (res, m) = alloc_spec(old(self)@, size as nat, align as nat);
                &&& final(self)@ == m
                &&& match res {
                    Some(s) => r == Some(s as usize),
                    None => r is None,
                }
            }),
    {
        match alloc_step(self.base, self.capacity, self.cursor, size, align) {
            Some((start, next)) => {
                self.cursor = next;
                Some(start)
            },
            None => None,
        }
    }

    /// Frees the block of `size` bytes at offset `start`: reclaimed only where
    /// it is the most recent block, otherwise leaked.
    pub fn deallocate(&mut self, start: usize, size: usize)
        requires
            old(self)@.wf(),
        ensures
            final(self)@.wf(),
            final(self)@ == dealloc_spec(old(self)@, start as nat, size as nat),
    {
        self.cursor = dealloc_step(self.cursor, start, size);
    }
}

} // verus!
