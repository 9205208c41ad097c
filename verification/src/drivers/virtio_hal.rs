//! Memory for virtio devices: whole blocks of the frame allocator, seen by
//! the device at their physical address and by the kernel through its direct
//! map.
use crate::error::KernelError;
use crate::memory::address::{PhysMemoryRegion, PA};
use crate::memory::buddy::{
    block_pages, lemma_block_pages_step, pages_in, MAX_ORDER,
};
use crate::memory::laws::{law_alloc_then_free_restores, law_allocated_by_state};
use crate::memory::model::FrameModel;
use crate::memory::model_proofs::{lemma_after_alloc_at, lemma_after_alloc_wf, lemma_source_block};
use crate::memory::page::PAGE_SIZE;
use crate::memory::page_alloc::FrameAllocator;
use vstd::arithmetic::power2::pow2;
use vstd::prelude::*;

verus! {

/// The kernel's side of virtio memory management.
pub struct VirtioHal;

/// Memory that a device and the kernel share.
#[derive(Clone, Copy, Debug, PartialEq, Eq, Structural)]
pub struct DmaBuffer {
    /// Where the device sees it.
    pub paddr: u64,
    /// Where the kernel sees it.
    pub vaddr: usize,
    /// How many bytes from its start on are to be cleared before use.
    pub clear: usize,
}

/// The smallest order whose blocks have at least `pages` pages, and at least
/// one.
pub open spec fn is_order_for(pages: int, order: nat) -> bool {
    &&& pages <= pow2(order)
    &&& order > 0 ==> pow2((order - 1) as nat) < pages
}

/// Where a direct map that begins at `page_offset` shows physical memory.
pub open spec fn direct_map_va(page_offset: int, paddr: int) -> int {
    page_offset + paddr
}

/// What physical memory a direct map that begins at `page_offset` shows.
pub open spec fn direct_map_pa(page_offset: int, vaddr: int) -> int {
    vaddr - page_offset
}

/// There is only one such order.
pub proof fn lemma_order_for_unique(pages: int, a: nat, b: nat)
    requires
        is_order_for(pages, a),
        is_order_for(pages, b),
    ensures
        a == b,
{
    if a < b {
        if a < b - 1 {
            vstd::arithmetic::power2::lemma_pow2_strictly_increases(a, (b - 1) as nat);
        }
    } else if b < a {
        if b < a - 1 {
            vstd::arithmetic::power2::lemma_pow2_strictly_increases(b, (a - 1) as nat);
        }
    }
}

impl VirtioHal {
    /// The order of the block that serves a request for `pages` pages.
    pub fn pages_to_order(pages: usize) -> (order: u8)
        requires
            pages <= usize::MAX / 2 + 1,
        ensures
            is_order_for(pages as int, order as nat),
            order < usize::BITS,
    {
        let mut order: u8 = 0;
        let mut size: usize = 1;
        proof {
            vstd::arithmetic::power2::lemma2_to64();
        }
        while size < pages
            invariant
                pages <= usize::MAX / 2 + 1,
                size == pow2(order as nat),
                order > 0 ==> pow2((order - 1) as nat) < pages,
                order < usize::BITS,
                usize::BITS == 32 || usize::BITS == 64,
                usize::MAX + 1 == pow2(usize::BITS as nat),
            decreases usize::BITS - order,
        {
            proof {
                vstd::arithmetic::power2::lemma_pow2_unfold((order + 1) as nat);
                vstd::arithmetic::power2::lemma_pow2_unfold(usize::BITS as nat);
                if order + 1 >= usize::BITS {
                    assert(order + 1 == usize::BITS);
                    assert(false);
                }
            }
            size = size * 2;
            order = order + 1;
        }
        order
    }

    /// Allocates `pages` pages for a device. `page_offset` is where the
    /// kernel's direct map begins.
    pub fn dma_alloc(frames: &mut FrameAllocator, page_offset: usize, pages: usize) -> (r: Result<
        DmaBuffer,
        KernelError,
    >)
        requires
            old(frames).wf(),
            pages <= usize::MAX / 2 + 1,
            page_offset > 0,
            page_offset + (old(frames)@.base + old(frames)@.states.len()) * PAGE_SIZE <= usize::MAX,
        ensures
            final(frames).wf(),
            r == Err::<DmaBuffer, _>(KernelError::InvalidValue) <==> pages > block_pages(
                MAX_ORDER as nat,
            ),
            r == Err::<DmaBuffer, _>(KernelError::NoMemory) <==> exists|order: nat| #[trigger]
                is_order_for(pages as int, order) && order <= MAX_ORDER && !old(frames)@.can_alloc(
                    order,
                ),
            r is Ok <==> exists|order: nat| #[trigger]
                is_order_for(pages as int, order) && order <= MAX_ORDER && old(frames)@.can_alloc(
                    order,
                ),
            r is Err ==> final(frames)@ == old(frames)@,
            r matches Ok(buffer) ==> forall|order: nat| #[trigger]
                is_order_for(pages as int, order) ==> {
                    &&& final(frames)@ == old(frames)@.after_alloc(order)
                    &&& buffer.paddr == old(frames)@.source_block(order) * PAGE_SIZE
                    &&& buffer.vaddr == direct_map_va(page_offset as int, buffer.paddr as int)
                    &&& buffer.clear == pages * PAGE_SIZE
                },
    {
        let ghost m = frames@;
        let order: u8 = Self::pages_to_order(pages);
        let ghost o = order as nat;
        proof {
            assert forall|other: nat| #[trigger] is_order_for(pages as int, other) implies other
                == o by {
                lemma_order_for_unique(pages as int, other, o);
            }
            lemma_order_bound(pages as int, o);
        }
        match frames.alloc_frames(order) {
            Err(e) => Err(e),
            Ok(allocation) => {
                proof {
                    lemma_source_block(m, o);
                    lemma_block_pages_step(o);
                }
                let region = allocation.leak();
                let start: usize = region.start_address().value();
                Ok(
                    DmaBuffer {
                        paddr: start as u64,
                        vaddr: page_offset + start,
                        clear: pages * PAGE_SIZE,
                    },
                )
            },
        }
    }

    /// Gives back what `dma_alloc` allocated for `pages` pages at `paddr`.
    pub fn dma_dealloc(frames: &mut FrameAllocator, paddr: u64, pages: usize) -> (r: i32)
        requires
            old(frames).wf(),
            paddr <= usize::MAX,
            old(frames)@.allocated(paddr as int / PAGE_SIZE as int),
            pages <= block_pages(MAX_ORDER as nat),
        ensures
            final(frames).wf(),
            final(frames)@ == old(frames)@.after_free(
                old(frames)@.head_of(paddr as int / PAGE_SIZE as int),
            ),
            r == 0,
    {
        proof {
            lemma_block_pages_step(MAX_ORDER as nat);
        }
        let order: u8 = Self::pages_to_order(pages);
        proof {
            lemma_order_bound(pages as int, order as nat);
        }
        let size: usize = pages_in(order as usize) * PAGE_SIZE;
        let region = PhysMemoryRegion::new(PA::from_value(paddr as usize), size);
        let allocation = frames.alloc_from_region(region);
        frames.drop_allocation(allocation);
        0
    }

    /// Where the kernel sees physical memory.
    pub fn mmio_phys_to_virt(page_offset: usize, paddr: u64) -> (vaddr: usize)
        requires
            0 < page_offset + paddr <= usize::MAX,
        ensures
            vaddr == direct_map_va(page_offset as int, paddr as int),
    {
        page_offset + paddr as usize
    }

    /// Where a device sees a buffer in the kernel's direct map.
    pub fn share(page_offset: usize, vaddr: usize) -> (paddr: u64)
        requires
            page_offset <= vaddr,
        ensures
            paddr == direct_map_pa(page_offset as int, vaddr as int),
    {
        (vaddr - page_offset) as u64
    }
}

/// A request is served by a block of the allocator if and only if it is no
/// larger than the largest block.
proof fn lemma_order_bound(pages: int, order: nat)
    requires
        is_order_for(pages, order),
    ensures
        order <= MAX_ORDER <==> pages <= block_pages(MAX_ORDER as nat),
{
    if order < MAX_ORDER {
        vstd::arithmetic::power2::lemma_pow2_strictly_increases(order, MAX_ORDER as nat);
    } else if order > MAX_ORDER + 1 {
        vstd::arithmetic::power2::lemma_pow2_strictly_increases(
            MAX_ORDER as nat,
            (order - 1) as nat,
        );
    }
}

/// Giving a device's memory back leaves the allocator exactly as it was
/// before the memory was allocated.
pub proof fn law_dma_dealloc_undoes_alloc(m: FrameModel, order: nat, paddr: int)
    requires
        m.wf(),
        order <= MAX_ORDER,
        m.can_alloc(order),
        paddr == m.source_block(order) * PAGE_SIZE,
    ensures
        m.after_alloc(order).allocated(paddr / PAGE_SIZE as int),
        m.after_alloc(order).after_free(
            m.after_alloc(order).head_of(paddr / PAGE_SIZE as int),
        ) == m,
{
    let n = m.after_alloc(order);
    let p = m.source_block(order);
    lemma_source_block(m, order);
    lemma_block_pages_step(order);
    assert(paddr / PAGE_SIZE as int == p);
    lemma_after_alloc_wf(m, order);
    lemma_after_alloc_at(m, order, p);
    law_allocated_by_state(n, p);
    law_alloc_then_free_restores(m, order);
}

/// A buffer that the kernel reaches through its direct map is shared at the
/// address it was mapped from, and the other way round.
pub proof fn law_share_inverts_mapping(page_offset: int, addr: int)
    ensures
        direct_map_pa(page_offset, direct_map_va(page_offset, addr)) == addr,
        direct_map_va(page_offset, direct_map_pa(page_offset, addr)) == addr,
{
}

} // verus!
