//! What the frame allocator's calls do for their callers.
use crate::error::KernelError;
use crate::memory::address::{PhysMemoryRegion, PA};
use crate::memory::buddy::{
    block_pages, lemma_aligned_weaken, lemma_block_pages_step, lemma_buddy, pages_in, MAX_ORDER,
};
use crate::memory::frame::FrameState;
use crate::memory::inner::FrameAllocatorInner;
use crate::memory::laws::{
    law_alloc_is_fresh, law_alloc_takes_its_pages, law_alloc_then_free_restores,
    law_allocated_by_state, law_release_ends_allocation, law_release_keeps_others,
    law_release_returns_its_pages, law_share_then_free_restores, lemma_with_refs_wf,
};
use crate::memory::model::FrameModel;
use crate::memory::model_proofs::{
    lemma_after_alloc_at, lemma_after_release_at, lemma_source_block, lemma_source_order,
};
use crate::memory::page::PageFrame;
use crate::memory::page_alloc::{FrameAllocator, PageAllocation};
use vstd::arithmetic::power2::pow2;
use vstd::prelude::*;

verus! {

/// Whether a page is allocated is a matter of the state it is shown in.
pub proof fn law_is_allocated_is_shown(a: &FrameAllocator, q: PageFrame, b: bool, state: FrameState)
    requires
        a.wf(),
        a@.in_range(q.n as int),
        call_ensures(FrameAllocator::is_allocated, (a, q), b),
        call_ensures(FrameAllocator::frame_state, (a, q), state),
    ensures
        b == (state is AllocatedHead || state is AllocatedTail),
{
    law_allocated_by_state(a@, q.n as int);
}

/// What becomes of a page when a block is allocated.
pub proof fn lemma_allocated_after(m: FrameModel, r: nat, q: int)
    requires
        m.wf(),
        r <= MAX_ORDER,
        m.can_alloc(r),
    ensures
        m.after_alloc(r).allocated(q) <==> m.allocated(q) || m.source_block(r) <= q
            < m.source_block(r) + block_pages(r),
        m.source_block(r) <= q < m.source_block(r) + block_pages(r) ==> !m.allocated(q),
        m.after_alloc(r).is_head(m.source_block(r)),
        m.after_alloc(r).refs_at(m.source_block(r)) == 1,
        m.after_alloc(r).order_at(m.source_block(r)) == r,
{
    let n = m.after_alloc(r);
    let p = m.source_block(r);
    lemma_source_block(m, r);
    lemma_source_order(m, r);
    lemma_block_pages_step(r);
    assert(m.in_range(p));
    lemma_after_alloc_at(m, r, p);
    assert(n.is_head(p) && n.order_at(p) == r);
    law_alloc_is_fresh(m, r, q);
    law_alloc_takes_its_pages(m, r);
    if p <= q < p + block_pages(r) {
        assert(n.in_block_of(q, p));
    } else if n.allocated(q) {
        let h = choose|h: int| n.in_block_of(q, h);
        assert(n.is_head(h));
        lemma_after_alloc_at(m, r, h);
        assert(m.in_block_of(q, h));
    }
}

/// An allocation hands out exactly the pages that it takes. Its region is
/// `2^order` pages long and aligned to its size. The pages that the region
/// yields were not allocated before, all of them are allocated afterwards,
/// and no other page has become so.
pub proof fn law_region_is_what_was_allocated(
    a: &mut FrameAllocator,
    order: u8,
    allocation: PageAllocation,
    pages: Vec<PageFrame>,
    q: PageFrame,
    was: bool,
    is: bool,
)
    requires
        a.wf(),
        call_ensures(
            FrameAllocator::alloc_frames,
            (a, order),
            Ok::<PageAllocation, KernelError>(allocation),
        ),
        call_ensures(PhysMemoryRegion::iter_pfns, (&allocation.region,), pages),
        a@.in_range(q.n as int),
        call_ensures(FrameAllocator::is_allocated, (&*a, q), was),
        call_ensures(FrameAllocator::is_allocated, (&*final(a), q), is),
    ensures
        allocation.region.size == pow2(order as nat) * 4096,
        allocation.region.address.addr as nat % (pow2(order as nat) * 4096) == 0,
        pages@.len() == pow2(order as nat),
        forall|i: int|
            0 <= i < pages@.len() ==> (#[trigger] pages@[i]).n * 4096
                == allocation.region.address.addr + i * 4096,
        is <==> was || pages@.contains(q),
        !(was && pages@.contains(q)),
{
    let m = a@;
    let r = order as nat;
    let p = m.source_block(r);
    lemma_source_block(m, r);
    lemma_source_order(m, r);
    lemma_block_pages_step(r);
    lemma_allocated_after(m, r, q.n as int);
    let s = block_pages(r);
    assert(s == pow2(r));
    assert(m.block_fits(p, m.source_order(r)));
    lemma_aligned_weaken(p, r, m.source_order(r));
    assert((a.inner.base_page.n + a.inner.total_pages) * 4096 <= usize::MAX);
    assert((p * 4096) % (s * 4096) == 0) by (nonlinear_arith)
        requires
            p % s == 0,
            s > 0,
    {
        vstd::arithmetic::div_mod::lemma_fundamental_div_mod(p, s);
        let x = p / s;
        assert(p * 4096 == x * (s * 4096));
        vstd::arithmetic::div_mod::lemma_mod_multiples_basic(x, s * 4096);
    }
    if pages@.contains(q) {
        let i = choose|i: int| 0 <= i < pages@.len() && pages@[i] == q;
        assert(pages@[i].n == p + i);
    }
    if p <= q.n < p + s {
        assert(pages@[q.n - p] == q);
    }
}

/// An allocation succeeds exactly where a block of its order or a larger one
/// is free: some page is shown as the head of such a block.
pub proof fn law_alloc_succeeds_where_it_can(
    a: &mut FrameAllocator,
    order: u8,
    r: Result<PageAllocation, KernelError>,
)
    requires
        a.wf(),
        call_ensures(FrameAllocator::alloc_frames, (a, order), r),
    ensures
        order > 10 ==> r == Err::<PageAllocation, _>(KernelError::InvalidValue),
        order <= 10 ==> (r is Ok <==> exists|q: int|
            {
                &&& #[trigger] old(a)@.in_range(q)
                &&& old(a)@.at(q) matches FrameState::Free { order: k } && k >= order
            }),
        order <= 10 && r is Err ==> r == Err::<PageAllocation, _>(KernelError::NoMemory),
        r is Err ==> final(a)@ == old(a)@,
        final(a).wf(),
{
    let m = a@;
    if order <= 10 {
        if m.can_alloc(order as nat) {
            let k = choose|k: int| order <= k <= MAX_ORDER && (#[trigger] m.free[k]).len() > 0;
            let q = m.free[k][0];
            assert(m.is_free(q, k as nat));
            assert(m.in_range(q));
        }
        assert forall|q: int| #[trigger] m.in_range(q) && (m.at(q) matches FrameState::Free {
            order: k,
        } && k >= order) implies m.can_alloc(order as nat) by {
            let k = m.at(q)->Free_order;
            assert(m.block_fits(q, k as nat));
            assert(m.free[k as int].contains(q));
            assert(m.free[k as int].len() > 0);
        }
    }
}

/// An allocation takes as many pages from the free ones as it hands out. It
/// cuts its block from the smallest free block that serves, and leaves one
/// free block of each order in between; the other orders have as many free
/// blocks as before.
pub proof fn law_alloc_cuts_the_smallest_block(
    a: &mut FrameAllocator,
    order: u8,
    allocation: PageAllocation,
    free_before: usize,
    free_after: usize,
    j: usize,
    blocks_before: usize,
    blocks_after: usize,
)
    requires
        a.wf(),
        call_ensures(
            FrameAllocator::alloc_frames,
            (a, order),
            Ok::<PageAllocation, KernelError>(allocation),
        ),
        call_ensures(FrameAllocator::free_pages, (&*a,), free_before),
        call_ensures(FrameAllocator::free_pages, (&*final(a),), free_after),
        j <= 10,
        call_ensures(FrameAllocator::free_blocks, (&*a, j), blocks_before),
        call_ensures(FrameAllocator::free_blocks, (&*final(a), j), blocks_after),
    ensures
        free_after == free_before - pow2(order as nat),
        ({
            let served = exists|i: int| order <= i < j && (#[trigger] old(a)@.free[i]).len() > 0;
            blocks_after == (if j < order || served {
                blocks_before as int
            } else if blocks_before > 0 {
                blocks_before - 1
            } else {
                1
            })
        }),
        final(a)@.base == old(a)@.base,
        final(a)@.states.len() == old(a)@.states.len(),
{
    let m = a@;
    let r = order as nat;
    let k = m.source_order(r);
    law_alloc_takes_its_pages(m, r);
    lemma_source_order(m, r);
    assert(m.free[k as int].len() > 0);
    if order <= j && k < j {
        assert(order <= k < j && m.free[k as int].len() > 0);
    }
}

/// Sharing a block and letting go of it once leaves all as it was; letting go
/// of it once more puts back all of what the allocation took. A block that is
/// shared is allocated but not to one holder alone.
pub proof fn law_last_holder_gives_the_block_back(
    alloc: &mut FrameAllocator,
    order: u8,
    allocation: PageAllocation,
    share: &mut FrameAllocator,
    other: PageAllocation,
    first: &mut FrameAllocator,
    last: &mut FrameAllocator,
    q: PageFrame,
    exclusive: bool,
    shared: bool,
)
    requires
        alloc.wf(),
        call_ensures(
            FrameAllocator::alloc_frames,
            (alloc, order),
            Ok::<PageAllocation, KernelError>(allocation),
        ),
        *share == *final(alloc),
        call_ensures(FrameAllocator::clone_allocation, (share, &allocation), other),
        *first == *final(share),
        call_ensures(FrameAllocator::drop_allocation, (first, other), ()),
        *last == *final(first),
        call_ensures(FrameAllocator::drop_allocation, (last, allocation), ()),
        allocation.region.address.addr <= q.n * 4096 < allocation.region.address.addr
            + allocation.region.size,
        call_ensures(FrameAllocator::is_allocated_exclusive, (&*share, q), exclusive),
        call_ensures(FrameAllocator::is_allocated_exclusive, (&*first, q), shared),
    ensures
        other.region == allocation.region,
        final(first)@ == final(alloc)@,
        final(last)@ == old(alloc)@,
        exclusive,
        !shared,
        final(share)@.allocated(q.n as int),
        final(share)@.free_pages() == final(alloc)@.free_pages(),
{
    let m = alloc@;
    let r = order as nat;
    let p = m.source_block(r);
    let n = m.after_alloc(r);
    lemma_source_block(m, r);
    lemma_source_order(m, r);
    lemma_block_pages_step(r);
    assert((alloc.inner.base_page.n + alloc.inner.total_pages) * 4096 <= usize::MAX);
    assert(m.block_fits(p, m.source_order(r)));
    lemma_allocated_after(m, r, q.n as int);
    law_alloc_takes_its_pages(m, r);
    assert(allocation.region.address.addr as int / 4096 == p);
    assert(n.is_head(p));
    let t = n.with_refs(p, 2);
    law_share_then_free_restores(n, p);
    assert(first@ == t);
    assert(t.at(p) == t.states[p - t.base]);
    assert(t.is_head(p) && t.order_at(p) == r && t.refs_at(p) == 2);
    assert(n.in_block_of(p, p));
    assert(t.in_block_of(p, p));
    assert(t.in_block_of(q.n as int, p));
    assert(n.in_block_of(q.n as int, p));
    law_allocated_by_state(t, p);
    law_allocated_by_state(n, p);
    assert(n.block_fits(p, r));
    assert(t.block_fits(p, r));
    law_allocated_by_state(t, q.n as int);
    law_allocated_by_state(n, q.n as int);
    law_alloc_then_free_restores(m, r);
}

/// A holder that lets go of a block, by any of its pages, frees just that
/// block's pages and only where it was the last; no other page's allocation
/// changes. As many pages are free as before, and those of the block.
pub proof fn law_drop_frees_its_block_only(
    a: &mut FrameAllocator,
    allocation: PageAllocation,
    page: PageFrame,
    alone: bool,
    q: PageFrame,
    was: bool,
    is: bool,
    free_before: usize,
    free_after: usize,
)
    requires
        a.wf(),
        page.n == allocation.region.address.addr as int / 4096,
        a@.allocated(page.n as int),
        call_ensures(FrameAllocator::drop_allocation, (a, allocation), ()),
        call_ensures(FrameAllocator::is_allocated_exclusive, (&*a, page), alone),
        a@.in_range(q.n as int),
        call_ensures(FrameAllocator::is_allocated, (&*a, q), was),
        call_ensures(FrameAllocator::is_allocated, (&*final(a), q), is),
        call_ensures(FrameAllocator::free_pages, (&*a,), free_before),
        call_ensures(FrameAllocator::free_pages, (&*final(a),), free_after),
    ensures
        ({
            let head = old(a)@.head_of(page.n as int);
            let order = old(a)@.order_at(head);
            &&& is <==> was && !(alone && head <= q.n < head + pow2(order))
            &&& head <= page.n < head + pow2(order)
            &&& free_after == (if alone {
                free_before + pow2(order)
            } else {
                free_before as int
            })
        }),
{
    let m = a@;
    let h = m.head_of(page.n as int);
    let x = q.n as int;
    assert(m.in_block_of(page.n as int, h));
    assert(m.is_head(h));
    assert(m.block_fits(h, m.order_at(h)));
    let n = m.after_free(h);
    if m.refs_at(h) > 1 {
        lemma_with_refs_wf(m, h, (m.refs_at(h) - 1) as u32);
        law_allocated_by_state(m, x);
        law_allocated_by_state(n, x);
        assert(n.at(x) == n.states[x - n.base]);
        assert(m.at(x) == m.states[x - m.base]);
    } else {
        law_release_returns_its_pages(m, h);
        if m.in_block_of(x, h) {
            law_release_ends_allocation(m, h, x);
        } else {
            if m.allocated(x) {
                let g = m.head_of(x);
                assert(m.in_block_of(x, g));
                assert(m.is_head(g));
                law_release_keeps_others(m, h, g);
                assert(n.in_block_of(x, g));
            }
            if n.allocated(x) {
                let g = choose|g: int| n.in_block_of(x, g);
                assert(n.is_head(g));
                lemma_after_release_at(m, h, g);
                assert(m.in_block_of(x, g));
            }
        }
    }
}

/// Pages and addresses count alike: a page starts 4096 times its number into
/// memory, and the page of an address is the last that starts at or before it.
pub proof fn law_pages_are_4096_bytes(pa: PA, pfn: PageFrame, start: PA)
    requires
        call_ensures(PA::to_pfn, (pa,), pfn),
        call_ensures(PageFrame::pa, (pfn,), start),
    ensures
        start.addr == pfn.n * 4096,
        start.addr <= pa.addr < start.addr + 4096,
{
}

/// A region yields a page for each 4096 bytes of its size, one after the other
/// from the page of its first address on.
pub proof fn law_region_yields_its_pages(region: PhysMemoryRegion, pages: Vec<PageFrame>, q: PageFrame)
    requires
        region.wf(),
        region.address.addr % 4096 == 0,
        region.size % 4096 == 0,
        call_ensures(PhysMemoryRegion::iter_pfns, (&region,), pages),
    ensures
        pages@.len() * 4096 == region.size,
        pages@.contains(q) <==> region.address.addr <= q.n * 4096 < region.address.addr
            + region.size,
        forall|i: int, j: int|
            0 <= i < j < pages@.len() ==> (#[trigger] pages@[i]).n < (#[trigger] pages@[j]).n,
{
    let first = region.address.addr as int / 4096;
    if pages@.contains(q) {
        let i = choose|i: int| 0 <= i < pages@.len() && pages@[i] == q;
        assert(pages@[i].n == first + i);
    }
    if first <= q.n < first + pages@.len() {
        assert(pages@[q.n - first] == q);
    }
}

/// The buddy of a block is the other half of the block of the next order: it
/// lies a block's length away, and its buddy is the block itself.
pub proof fn law_buddies_are_halves(p: PageFrame, order: usize, buddy: PageFrame, back: PageFrame)
    requires
        order < 10,
        p.n as nat % pow2(order as nat) == 0,
        call_ensures(PageFrame::buddy, (p, order), buddy),
        call_ensures(PageFrame::buddy, (buddy, order), back),
    ensures
        back == p,
        buddy.n == p.n + pow2(order as nat) || buddy.n == p.n - pow2(order as nat),
        (if p.n < buddy.n {
            p.n
        } else {
            buddy.n
        }) as nat % pow2((order + 1) as nat) == 0,
{
    lemma_buddy(p.n as int, order as nat);
}

/// A block of an order holds that power of two of pages.
pub proof fn law_blocks_are_powers_of_two(order: usize, pages: usize)
    requires
        call_ensures(pages_in, (order,), pages),
    ensures
        pages == pow2(order as nat),
{
}

/// A claim that was given up for its region is had back from the region, and
/// letting go of it then frees what letting go of the claim would have.
pub proof fn law_leaked_claim_is_had_back(
    a: &FrameAllocator,
    allocation: PageAllocation,
    seen: &PhysMemoryRegion,
    region: PhysMemoryRegion,
    again: PageAllocation,
    first: &mut FrameAllocator,
    second: &mut FrameAllocator,
    inner: &mut FrameAllocatorInner,
)
    requires
        call_ensures(PageAllocation::region, (&allocation,), seen),
        call_ensures(PageAllocation::leak, (allocation,), region),
        call_ensures(FrameAllocator::alloc_from_region, (a, region), again),
        *first == *a,
        *second == *a,
        *inner == a.inner,
        call_ensures(FrameAllocator::drop_allocation, (first, allocation), ()),
        call_ensures(FrameAllocator::drop_allocation, (second, again), ()),
        call_ensures(FrameAllocatorInner::free_frames, (inner, region), ()),
    ensures
        *seen == allocation.region,
        region == allocation.region,
        again.region == allocation.region,
        final(first)@ == final(second)@,
        final(inner)@ == final(first)@,
{
}

} // verus!
