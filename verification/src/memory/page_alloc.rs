//! The frame allocator: blocks of `2^order` pages, split on demand, shared by
//! counting holders, and merged again when the last holder lets go.
use crate::error::KernelError;
use crate::memory::address::{PhysMemoryRegion, PA};
use crate::memory::buddy::{block_pages, lemma_block_pages_step, pages_in, MAX_ORDER};
use crate::memory::frame::{AllocatedInfo, FrameState, TailInfo};
use crate::memory::inner::FrameAllocatorInner;
use crate::memory::laws::{
    law_alloc_takes_its_pages, law_allocated_by_state, lemma_pages_below_nonneg,
    lemma_with_refs_wf,
};
use crate::memory::model::FrameModel;
use crate::memory::model_proofs::{lemma_source_block, lemma_source_order};
use crate::memory::page::{PageFrame, PAGE_SIZE};
use crate::memory::steps::{
    lemma_mark_step, lemma_source_order_is, lemma_split_done, lemma_split_start, lemma_split_step,
};
use vstd::prelude::*;

verus! {

/// Hands out blocks of physical pages.
pub struct FrameAllocator {
    pub inner: FrameAllocatorInner,
}

/// One holder's claim on an allocated block.
pub struct PageAllocation {
    pub region: PhysMemoryRegion,
}

/// The memory of the block of `order` that starts at page `pfn`.
pub open spec fn block_region(pfn: int, order: nat) -> PhysMemoryRegion {
    PhysMemoryRegion {
        address: PA { addr: (pfn * PAGE_SIZE) as usize },
        size: (block_pages(order) * PAGE_SIZE) as usize,
    }
}

impl View for FrameAllocator {
    type V = FrameModel;

    open spec fn view(&self) -> FrameModel {
        self.inner@
    }
}

impl FrameAllocator {
    /// The bookkeeping is consistent.
    pub open spec fn wf(&self) -> bool {
        self.inner.wf()
    }

    /// Allocates a physically contiguous block of `2^order` pages.
    pub fn alloc_frames(&mut self, order: u8) -> (r: Result<PageAllocation, KernelError>)
        requires
            old(self).wf(),
        ensures
            final(self).wf(),
            r == Err::<PageAllocation, _>(KernelError::InvalidValue) <==> order > MAX_ORDER,
            r == Err::<PageAllocation, _>(KernelError::NoMemory) <==> order <= MAX_ORDER && !old(
                self,
            )@.can_alloc(order as nat),
            r is Ok <==> order <= MAX_ORDER && old(self)@.can_alloc(order as nat),
            r is Err ==> final(self)@ == old(self)@,
            r matches Ok(allocation) ==> {
                &&& final(self)@ == old(self)@.after_alloc(order as nat)
                &&& allocation.region == block_region(
                    old(self)@.source_block(order as nat),
                    order as nat,
                )
                &&& allocation.region.wf()
            },
    {
        let requested_order: usize = order as usize;
        if requested_order > MAX_ORDER {
            return Err(KernelError::InvalidValue);
        }
        let ghost m = self@;
        let ghost r = order as nat;
        let mut current_order: usize = requested_order;
        while current_order <= MAX_ORDER && self.inner.free_lists[current_order].len() == 0
            invariant
                self.wf(),
                self@ == m,
                requested_order <= current_order <= MAX_ORDER + 1,
                forall|j: int|
                    requested_order <= j < current_order ==> (#[trigger] m.free[j]).len() == 0,
            decreases MAX_ORDER + 1 - current_order,
        {
            current_order += 1;
        }
        if current_order > MAX_ORDER {
            return Err(KernelError::NoMemory);
        }
        let ghost k = current_order as nat;
        proof {
            lemma_source_order_is(m, r, k);
            lemma_split_start(m, k, r);
            lemma_source_block(m, r);
            lemma_source_order(m, r);
            law_alloc_takes_its_pages(m, r);
            lemma_block_pages_step(r);
        }
        let block_pfn = self.inner.pop_free_list(current_order);
        self.inner.set_state(block_pfn, FrameState::Uninitialized);
        while current_order > requested_order
            invariant
                m.wf(),
                requested_order <= current_order <= k <= MAX_ORDER,
                r == requested_order,
                m.free[k as int].len() > 0,
                block_pfn.n == m.free[k as int][0],
                self.inner.tables_wf(),
                self.inner.same_shape(&old(self).inner),
                self@ == m.splitting(current_order as nat, k, r, 0),
            decreases current_order,
        {
            proof {
                lemma_split_step(m, current_order as nat, k, r);
            }
            current_order -= 1;
            let buddy = block_pfn.buddy(current_order);
            self.inner.set_state(buddy, FrameState::Free { order: current_order as u8 });
            self.inner.add_to_free_list(buddy, current_order);
        }
        let num_pages_in_block: usize = pages_in(requested_order);
        proof {
            lemma_mark_step(m, k, r, 0);
        }
        self.inner.set_state(
            block_pfn,
            FrameState::AllocatedHead(AllocatedInfo { ref_count: 1, order }),
        );
        let mut i: usize = 1;
        while i < num_pages_in_block
            invariant
                m.wf(),
                1 <= i <= num_pages_in_block,
                num_pages_in_block == block_pages(r),
                r <= k <= MAX_ORDER,
                m.free[k as int].len() > 0,
                block_pfn.n == m.free[k as int][0],
                self.inner.tables_wf(),
                self.inner.same_shape(&old(self).inner),
                self@ == m.splitting(r, k, r, i as int),
            decreases num_pages_in_block - i,
        {
            proof {
                lemma_mark_step(m, k, r, i as int);
            }
            self.inner.set_state(
                PageFrame { n: block_pfn.n + i },
                FrameState::AllocatedTail(TailInfo { head: block_pfn }),
            );
            i += 1;
        }
        proof {
            lemma_split_done(m, r);
            lemma_pages_below_nonneg(self@.free, (MAX_ORDER + 1) as nat);
        }
        self.inner.free_pages = self.inner.free_pages - num_pages_in_block;
        Ok(
            PageAllocation {
                region: PhysMemoryRegion::new(block_pfn.pa(), num_pages_in_block * PAGE_SIZE),
            },
        )
    }

    /// A claim on the block in `region`, which must have been given up with
    /// `PageAllocation::leak` before.
    pub fn alloc_from_region(&self, region: PhysMemoryRegion) -> (allocation: PageAllocation)
        ensures
            allocation.region == region,
    {
        PageAllocation { region }
    }

    /// One more holder for the block of an allocation.
    pub fn clone_allocation(&mut self, allocation: &PageAllocation) -> (r: PageAllocation)
        requires
            old(self).wf(),
            old(self)@.is_head(allocation.region.start() / PAGE_SIZE as int),
            old(self)@.refs_at(allocation.region.start() / PAGE_SIZE as int) < u32::MAX,
        ensures
            final(self).wf(),
            final(self)@ == old(self)@.with_refs(
                allocation.region.start() / PAGE_SIZE as int,
                (old(self)@.refs_at(allocation.region.start() / PAGE_SIZE as int) + 1) as u32,
            ),
            r.region == allocation.region,
    {
        let ghost m = self@;
        let head = allocation.region.start_address().to_pfn();
        let state = self.inner.get_frame(head).state;
        if let FrameState::AllocatedHead(info) = state {
            self.inner.set_state(
                head,
                FrameState::AllocatedHead(
                    AllocatedInfo { ref_count: info.ref_count + 1, order: info.order },
                ),
            );
            proof {
                lemma_with_refs_wf(m, head.n as int, (info.ref_count + 1) as u32);
            }
        }
        PageAllocation { region: allocation.region }
    }

    /// The holder of an allocation lets go of its block.
    pub fn drop_allocation(&mut self, allocation: PageAllocation)
        requires
            old(self).wf(),
            old(self)@.allocated(allocation.region.start() / PAGE_SIZE as int),
        ensures
            final(self).wf(),
            final(self)@ == old(self)@.after_free(
                old(self)@.head_of(allocation.region.start() / PAGE_SIZE as int),
            ),
    {
        self.inner.free_frames(allocation.region);
    }

    /// Whether the page is part of an allocated block.
    pub fn is_allocated(&self, pfn: PageFrame) -> (b: bool)
        requires
            self.wf(),
            self@.in_range(pfn.n as int),
        ensures
            b == self@.allocated(pfn.n as int),
    {
        proof {
            law_allocated_by_state(self@, pfn.n as int);
        }
        match self.inner.get_frame(pfn).state {
            FrameState::AllocatedHead(_) => true,
            FrameState::AllocatedTail(_) => true,
            _ => false,
        }
    }

    /// Whether the page is part of an allocated block that has one holder.
    pub fn is_allocated_exclusive(&self, pfn: PageFrame) -> (b: bool)
        requires
            self.wf(),
            self@.in_range(pfn.n as int),
        ensures
            b == (self@.allocated(pfn.n as int) && self@.refs_at(self@.head_of(pfn.n as int)) == 1),
    {
        proof {
            law_allocated_by_state(self@, pfn.n as int);
        }
        let head = match self.inner.get_frame(pfn).state {
            FrameState::AllocatedTail(TailInfo { head }) => head,
            _ => pfn,
        };
        match self.inner.get_frame(head).state {
            FrameState::AllocatedHead(info) => info.ref_count == 1,
            _ => false,
        }
    }

    /// The number of pages that the allocator manages.
    pub fn total_pages(&self) -> (n: usize)
        requires
            self.wf(),
        ensures
            n == self@.states.len(),
    {
        self.inner.total_pages
    }

    /// The number of pages that can be allocated.
    pub fn free_pages(&self) -> (n: usize)
        requires
            self.wf(),
        ensures
            n == self@.free_pages(),
    {
        self.inner.free_pages
    }

    /// The first page that the allocator manages.
    pub fn base_page(&self) -> (pfn: PageFrame)
        ensures
            pfn.n == self@.base,
    {
        self.inner.base_page
    }

    /// What the allocator knows of a page.
    pub fn frame_state(&self, pfn: PageFrame) -> (state: FrameState)
        requires
            self.wf(),
            self@.in_range(pfn.n as int),
        ensures
            state == self@.at(pfn.n as int),
    {
        self.inner.get_frame(pfn).state
    }

    /// The number of free blocks of an order.
    pub fn free_blocks(&self, order: usize) -> (n: usize)
        requires
            self.wf(),
            order <= MAX_ORDER,
        ensures
            n == self@.free[order as int].len(),
    {
        self.inner.free_lists[order].len()
    }
}

impl PageAllocation {
    /// Gives the claim up without letting go of the block.
    pub fn leak(self) -> (region: PhysMemoryRegion)
        ensures
            region == self.region,
    {
        self.region
    }

    /// The memory of the block.
    pub fn region(&self) -> (region: &PhysMemoryRegion)
        ensures
            *region == self.region,
    {
        &self.region
    }
}

} // verus!
