//! Bringing the frame allocator up from what the early allocator knows.
use crate::memory::address::{lemma_page_shift, PhysMemoryRegion, PA};
use crate::memory::buddy::{block_pages, lemma_block_pages, MAX_ORDER};
use crate::memory::frame::{Frame, FrameState};
use crate::memory::inner::FrameAllocatorInner;
use crate::memory::model::{allocated_below, pages_below, FrameModel};
use crate::memory::page::{PageFrame, PAGE_SHIFT, PAGE_SIZE};
use crate::memory::page_alloc::FrameAllocator;
use crate::memory::smalloc::{in_memory, unreserved, Smalloc};
use std::collections::VecDeque;
use vstd::prelude::*;

verus! {

/// Pages in a block of the largest order.
pub const MAX_BLOCK_PAGES: usize = 1024;

/// Bytes in a block of the largest order.
pub const MAX_BLOCK_SIZE: usize = 4194304;

/// A block of the largest order that starts at page `p` is memory, and none
/// of it is reserved.
pub open spec fn usable(
    memory: Seq<PhysMemoryRegion>,
    res: Seq<PhysMemoryRegion>,
    p: int,
) -> bool {
    &&& p >= 0
    &&& p % MAX_BLOCK_PAGES as int == 0
    &&& in_memory(memory, p * PAGE_SIZE, MAX_BLOCK_SIZE as int)
    &&& unreserved(res, p * PAGE_SIZE, MAX_BLOCK_SIZE as int)
}

/// One of the reservations covers the page.
pub open spec fn reserved_page(res: Seq<PhysMemoryRegion>, pfn: int) -> bool {
    exists|i: int| 0 <= i < res.len() && (#[trigger] res[i]).covers_pfn(pfn)
}

/// The first page of the first aligned block of the largest order that lies
/// at or past the address.
pub open spec fn first_block(addr: int) -> int {
    (addr + MAX_BLOCK_SIZE - 1) / MAX_BLOCK_SIZE as int * MAX_BLOCK_PAGES
}

impl Smalloc {
    /// The lowest address of memory.
    pub open spec fn lowest(&self) -> int {
        self.memory@[0].start()
    }

    /// The first address past all memory.
    pub open spec fn highest(&self) -> int {
        self.memory@[self.memory@.len() - 1].end()
    }

    /// How many pages a table over all memory describes.
    pub open spec fn page_count(&self) -> int {
        (self.highest() - self.lowest()) / PAGE_SIZE as int
    }

    /// The size of a table over all memory.
    pub open spec fn metadata_size(&self) -> int {
        self.page_count() * vstd::layout::size_of::<Frame>()
    }

    /// The table goes to this place: the lowest where it fits.
    pub open spec fn is_metadata(&self, metadata: PhysMemoryRegion) -> bool {
        &&& self.first_fit(
            metadata.start(),
            self.metadata_size(),
            vstd::layout::align_of::<Frame>() as int,
        )
        &&& metadata.size == self.metadata_size()
    }

    /// A table over all memory describes every page of every usable block.
    /// Where memory begins and ends within a page, it can be one page short.
    pub open spec fn table_suffices(&self, res: Seq<PhysMemoryRegion>) -> bool {
        forall|p: int| #[trigger]
            usable(self.memory@, res, p) ==> p + MAX_BLOCK_PAGES <= self.lowest() / PAGE_SIZE as int
                + self.page_count()
    }

    /// There is memory, the page table finds a place in it, and it describes
    /// every page that can be handed out.
    pub open spec fn can_init(&self) -> bool {
        &&& self.memory@.len() > 0
        &&& exists|a: int|
            self.fits(
                a,
                self.metadata_size(),
                vstd::layout::align_of::<Frame>() as int,
            )
        &&& forall|metadata: PhysMemoryRegion| #[trigger]
            self.is_metadata(metadata) ==> self.table_suffices(self.res@.push(metadata))
    }

    /// The table ends with the last whole page of memory, or one before it.
    proof fn lemma_page_count(&self)
        requires
            self.wf(),
            self.memory@.len() > 0,
        ensures
            0 <= self.lowest() < self.highest() <= usize::MAX,
            self.highest() / PAGE_SIZE as int - 1 <= self.lowest() / PAGE_SIZE as int
                + self.page_count() <= self.highest() / PAGE_SIZE as int,
    {
        let last = self.memory@.len() - 1;
        assert(self.memory@[0].wf());
        assert(self.memory@[last].wf());
        if 0 < last {
            assert(self.memory@[0].end() <= self.memory@[last].start());
        }
    }

    /// Some memory region holds all of the block of the largest order that
    /// starts at page `p`.
    fn block_in_memory(&self, p: usize) -> (r: bool)
        requires
            self.wf(),
            (p + MAX_BLOCK_PAGES) * PAGE_SIZE <= usize::MAX,
        ensures
            r == in_memory(self.memory@, p * PAGE_SIZE, MAX_BLOCK_SIZE as int),
    {
        let mut i: usize = 0;
        while i < self.memory.len()
            invariant
                self.wf(),
                i <= self.memory@.len(),
                (p + MAX_BLOCK_PAGES) * PAGE_SIZE <= usize::MAX,
                forall|j: int|
                    0 <= j < i ==> !(#[trigger] self.memory@[j]).holds(
                        p * PAGE_SIZE,
                        MAX_BLOCK_SIZE as int,
                    ),
            decreases self.memory@.len() - i,
        {
            assert(self.memory@[i as int].wf());
            let region = self.memory[i];
            if region.start_address().addr <= p * PAGE_SIZE && p * PAGE_SIZE + MAX_BLOCK_SIZE
                <= region.end_address().addr {
                assert(self.memory@[i as int].holds(p * PAGE_SIZE, MAX_BLOCK_SIZE as int));
                return true;
            }
            i += 1;
        }
        false
    }

    /// The frame allocator can be brought up from this.
    pub fn can_bring_up(&self) -> (r: bool)
        requires
            self.wf(),
        ensures
            r == self.can_init(),
    {
        if self.memory.len() == 0 {
            return false;
        }
        proof {
            self.lemma_page_count();
        }
        let lowest: usize = self.memory[0].start_address().addr;
        let highest: usize = self.memory[self.memory.len() - 1].end_address().addr;
        let total_pages: usize = (highest - lowest) / PAGE_SIZE;
        vstd::layout::layout_for_type_is_valid::<Frame>();
        let size: usize = core::mem::size_of::<Frame>();
        let align: usize = core::mem::align_of::<Frame>();
        let metadata_size: usize = match total_pages.checked_mul(size) {
            Some(metadata_size) => metadata_size,
            None => {
                proof {
                    if exists|a: int| self.fits(a, self.metadata_size(), align as int) {
                        let a = choose|a: int| self.fits(a, self.metadata_size(), align as int);
                        let i = choose|i: int|
                            0 <= i < self.memory@.len() && (#[trigger] self.memory@[i]).holds(
                                a,
                                self.metadata_size(),
                            );
                        assert(self.memory@[i].wf());
                    }
                }
                return false;
            },
        };
        let addr: usize = match self.find(metadata_size, align) {
            Some(addr) => addr,
            None => {
                return false;
            },
        };
        let metadata = PhysMemoryRegion { address: PA { addr }, size: metadata_size };
        let ghost res = self.res@.push(metadata);
        proof {
            let i = choose|i: int|
                0 <= i < self.memory@.len() && (#[trigger] self.memory@[i]).holds(
                    addr as int,
                    metadata_size as int,
                );
            assert(self.memory@[i].wf());
            assert(self.fits(addr as int, self.metadata_size(), align as int));
            assert(self.is_metadata(metadata));
            assert forall|other: PhysMemoryRegion| #[trigger]
                self.is_metadata(other) implies other == metadata by {
                assert(self.fits(other.start(), self.metadata_size(), align as int));
            }
            assert forall|p: int| #[trigger] usable(self.memory@, res, p) implies (p
                + MAX_BLOCK_PAGES) * PAGE_SIZE <= highest by {
                lemma_usable_in_range(self, res, p);
            }
        }
        let end: usize = highest / PAGE_SIZE;
        if lowest / PAGE_SIZE + total_pages == end || end < MAX_BLOCK_PAGES {
            return true;
        }
        // Only the last page of memory is missing, so only a block that ends
        // with it can be.
        let p: usize = end - MAX_BLOCK_PAGES;
        let start: usize = p * PAGE_SIZE;
        let clear = metadata_size == 0 || start >= addr + metadata_size || addr >= start
            + MAX_BLOCK_SIZE;
        let lost = p % MAX_BLOCK_PAGES == 0 && self.block_in_memory(p) && self.reservation_over(
            start,
            MAX_BLOCK_SIZE,
        ).is_none() && clear;
        proof {
            assert(clear == !metadata.overlaps(start as int, MAX_BLOCK_SIZE as int));
            assert(lost == usable(self.memory@, res, p as int)) by {
                assert(res[self.res@.len() as int] == metadata);
                assert forall|i: int| 0 <= i < self.res@.len() implies self.res@[i] == res[i] by {}
                if lost {
                    assert(unreserved(res, start as int, MAX_BLOCK_SIZE as int));
                }
                if usable(self.memory@, res, p as int) {
                    assert(!res[self.res@.len() as int].overlaps(
                        start as int,
                        MAX_BLOCK_SIZE as int,
                    ));
                    assert forall|i: int| 0 <= i < self.res@.len() implies !(
                    #[trigger] self.res@[i]).overlaps(start as int, MAX_BLOCK_SIZE as int) by {
                        assert(!res[i].overlaps(start as int, MAX_BLOCK_SIZE as int));
                    }
                }
            }
        }
        !lost
    }
}

/// The state of a page in a fresh allocator.
pub open spec fn initial_state(
    memory: Seq<PhysMemoryRegion>,
    res: Seq<PhysMemoryRegion>,
    pfn: int,
) -> FrameState {
    if usable(memory, res, pfn) {
        FrameState::Free { order: MAX_ORDER as u8 }
    } else if reserved_page(res, pfn) {
        FrameState::Kernel
    } else {
        FrameState::Uninitialized
    }
}

/// A fresh allocator: every usable block of the largest order is free, the
/// highest one first in line, and the pages that reservations cover belong
/// to the kernel.
pub open spec fn is_fresh(
    m: FrameModel,
    memory: Seq<PhysMemoryRegion>,
    res: Seq<PhysMemoryRegion>,
) -> bool {
    &&& forall|pfn: int| #[trigger]
        m.in_range(pfn) ==> m.at(pfn) == initial_state(memory, res, pfn)
    &&& m.free.len() == MAX_ORDER + 1
    &&& forall|k: int| 0 <= k < MAX_ORDER ==> (#[trigger] m.free[k]).len() == 0
    &&& forall|p: int| #[trigger]
        m.free[MAX_ORDER as int].contains(p) <==> usable(memory, res, p)
    &&& forall|i: int, j: int|
        0 <= i < j < m.free[MAX_ORDER as int].len() ==> (#[trigger] m.free[MAX_ORDER as int][i]) > (
        #[trigger] m.free[MAX_ORDER as int][j])
}

/// A page that a reservation covers is in no usable block.
proof fn lemma_reserved_not_usable(
    memory: Seq<PhysMemoryRegion>,
    res: Seq<PhysMemoryRegion>,
    p: int,
    pfn: int,
)
    requires
        usable(memory, res, p),
        p <= pfn < p + MAX_BLOCK_PAGES,
    ensures
        !reserved_page(res, pfn),
{
    if reserved_page(res, pfn) {
        let i = choose|i: int| 0 <= i < res.len() && (#[trigger] res[i]).covers_pfn(pfn);
        let r = res[i];
        assert(r.overlaps(p * PAGE_SIZE, MAX_BLOCK_SIZE as int));
    }
}

/// Usable blocks lie in the range that the table describes.
proof fn lemma_usable_in_range(s: &Smalloc, res: Seq<PhysMemoryRegion>, p: int)
    requires
        s.wf(),
        s.memory@.len() > 0,
        usable(s.memory@, res, p),
    ensures
        s.lowest() / PAGE_SIZE as int <= p,
        (p + MAX_BLOCK_PAGES) * PAGE_SIZE <= s.highest(),
{
    let i = choose|i: int|
        0 <= i < s.memory@.len() && (#[trigger] s.memory@[i]).holds(
            p * PAGE_SIZE,
            MAX_BLOCK_SIZE as int,
        );
    let last = s.memory@.len() - 1;
    assert(s.memory@[0].wf());
    assert(s.memory@[last].wf());
    if 0 < i {
        assert(s.memory@[0].end() <= s.memory@[i].start());
    }
    if i < last {
        assert(s.memory@[i].end() <= s.memory@[last].start());
    }
}

/// A fresh allocator's bookkeeping is consistent.
pub proof fn lemma_fresh_wf(m: FrameModel, s: &Smalloc, res: Seq<PhysMemoryRegion>)
    requires
        s.wf(),
        s.memory@.len() > 0,
        m.base == s.lowest() / PAGE_SIZE as int,
        m.states.len() == s.page_count(),
        s.table_suffices(res),
        is_fresh(m, s.memory@, res),
    ensures
        m.wf(),
        m.free_pages() == m.free[MAX_ORDER as int].len() * MAX_BLOCK_PAGES,
        m.allocated_pages() == 0,
{
    let memory = s.memory@;
    let top = m.free[MAX_ORDER as int];
    lemma_block_pages();
    assert(s.memory@[0].wf());
    assert(s.memory@[s.memory@.len() - 1].wf());
    assert forall|p: int| #[trigger] m.in_range(p) && m.at(p) is Free implies {
        let k = m.at(p)->Free_order as nat;
        &&& m.block_fits(p, k)
        &&& m.free[k as int].contains(p)
        &&& forall|q: int|
            #![trigger m.at(q)]
            p < q < p + block_pages(k) ==> m.at(q) is Uninitialized
    } by {
        assert(usable(memory, res, p));
        lemma_usable_in_range(s, res, p);
        assert forall|q: int|
            #![trigger m.at(q)]
            p < q < p + MAX_BLOCK_PAGES implies m.at(q) is Uninitialized by {
            assert(m.in_range(q));
            lemma_reserved_not_usable(memory, res, p, q);
        }
    }
    assert forall|k: int, i: int|
        #![trigger m.free[k][i]]
        0 <= k <= MAX_ORDER && 0 <= i < m.free[k].len() implies m.is_free(
        m.free[k][i],
        k as nat,
    ) by {
        let p = m.free[k][i];
        assert(top.contains(p));
        lemma_usable_in_range(s, res, p);
        assert(m.in_range(p));
    }
    assert forall|k: int| #![trigger m.free[k]] 0 <= k <= MAX_ORDER implies m.free[k].no_duplicates() by {
        if k == MAX_ORDER {
            assert forall|i: int, j: int|
                0 <= i < m.free[k].len() && 0 <= j < m.free[k].len() && i != j implies m.free[k][i]
                != m.free[k][j] by {
                if i < j {
                    assert(top[i] > top[j]);
                } else {
                    assert(top[j] > top[i]);
                }
            }
        }
    }
    assert forall|p: int| #[trigger] m.is_head(p) implies false by {
        assert(m.in_range(p));
    }
    assert forall|p: int, k: nat| #![trigger m.is_free(p, k)] k < MAX_ORDER implies !m.is_free(
        p,
        k,
    ) by {
        if m.is_free(p, k) {
            assert(m.in_range(p));
        }
    }
    lemma_pages_below_empty(m.free, MAX_ORDER as nat);
    lemma_none_allocated(m, m.states.len());
}

/// What a fresh allocator can hand out is what lies in whole blocks of memory
/// of which nothing is reserved.
pub proof fn law_fresh_usable_pages(
    m: FrameModel,
    s: &Smalloc,
    res: Seq<PhysMemoryRegion>,
    q: int,
)
    requires
        s.wf(),
        s.memory@.len() > 0,
        m.base == s.lowest() / PAGE_SIZE as int,
        m.states.len() == s.page_count(),
        s.table_suffices(res),
        is_fresh(m, s.memory@, res),
    ensures
        m.usable(q) <==> exists|p: int| #[trigger]
            usable(s.memory@, res, p) && p <= q < p + MAX_BLOCK_PAGES,
{
    lemma_block_pages();
    if m.allocated(q) {
        let h = choose|h: int| m.in_block_of(q, h);
        assert(m.in_range(h));
    }
    if m.in_free_block(q) {
        let (p, k) = choose|p: int, k: nat| #[trigger]
            m.is_free(p, k) && p <= q < p + block_pages(k);
        assert(m.in_range(p));
        assert(usable(s.memory@, res, p));
    }
    if exists|p: int| #[trigger]
        usable(s.memory@, res, p) && p <= q < p + MAX_BLOCK_PAGES {
        let p = choose|p: int| #[trigger]
            usable(s.memory@, res, p) && p <= q < p + MAX_BLOCK_PAGES;
        lemma_usable_in_range(s, res, p);
        assert(m.in_range(p));
        assert(m.is_free(p, MAX_ORDER as nat));
    }
}

/// Empty lists hold no pages.
pub proof fn lemma_pages_below_empty(free: Seq<Seq<int>>, n: nat)
    requires
        forall|k: int| 0 <= k < n ==> (#[trigger] free[k]).len() == 0,
    ensures
        pages_below(free, n) == 0,
    decreases n,
{
    if n > 0 {
        lemma_pages_below_empty(free, (n - 1) as nat);
        assert(free[n - 1].len() == 0);
    }
}

/// No page is allocated where no page's state says so.
proof fn lemma_none_allocated(m: FrameModel, n: nat)
    requires
        n <= m.states.len(),
        forall|pfn: int| #[trigger]
            m.in_range(pfn) ==> !(m.at(pfn) is AllocatedHead) && !(m.at(pfn) is AllocatedTail),
    ensures
        allocated_below(m.states, n) == 0,
    decreases n,
{
    if n > 0 {
        lemma_none_allocated(m, (n - 1) as nat);
        assert(m.in_range(m.base + n - 1));
    }
}

impl FrameAllocatorInner {
    /// Tables over `total_pages` pages from `base_page` on, all untouched.
    fn untouched(base_page: PageFrame, total_pages: usize) -> (inner: Self)
        requires
            (base_page.n + total_pages) * PAGE_SIZE <= usize::MAX,
        ensures
            inner.tables_wf(),
            inner.base_page == base_page,
            inner.total_pages == total_pages,
            inner.free_pages == 0,
            forall|i: int|
                0 <= i < total_pages ==> (#[trigger] inner@.states[i]) is Uninitialized,
            forall|k: int| 0 <= k <= MAX_ORDER ==> (#[trigger] inner@.free[k]).len() == 0,
    {
        let mut pages: Vec<Frame> = Vec::new();
        let mut i: usize = 0;
        while i < total_pages
            invariant
                (base_page.n + total_pages) * PAGE_SIZE <= usize::MAX,
                i <= total_pages,
                pages@.len() == i,
                forall|j: int|
                    0 <= j < i ==> (#[trigger] pages@[j]).pfn.n == base_page.n + j
                        && pages@[j].state is Uninitialized,
            decreases total_pages - i,
        {
            pages.push(Frame::new(PageFrame { n: base_page.n + i }));
            i += 1;
        }
        let mut free_lists: Vec<VecDeque<PageFrame>> = Vec::new();
        let mut k: usize = 0;
        while k <= MAX_ORDER
            invariant
                k <= MAX_ORDER + 1,
                free_lists@.len() == k,
                forall|j: int| 0 <= j < k ==> (#[trigger] free_lists@[j])@.len() == 0,
            decreases MAX_ORDER + 1 - k,
        {
            free_lists.push(VecDeque::new());
            k += 1;
        }
        FrameAllocatorInner { pages, base_page, total_pages, free_pages: 0, free_lists }
    }

    /// Marks the pages that reservations cover as the kernel's.
    fn mark_reserved(&mut self, res: &Vec<PhysMemoryRegion>)
        requires
            old(self).tables_wf(),
            forall|i: int|
                0 <= i < old(self).total_pages ==> (
                #[trigger] old(self)@.states[i]) is Uninitialized,
            forall|i: int| 0 <= i < res@.len() ==> (#[trigger] res@[i]).wf(),
        ensures
            final(self).tables_wf(),
            final(self).same_shape(old(self)),
            final(self)@.free == old(self)@.free,
            forall|pfn: int| #[trigger]
                final(self)@.in_range(pfn) ==> final(self)@.at(pfn) == (if reserved_page(
                    res@,
                    pfn,
                ) {
                    FrameState::Kernel
                } else {
                    FrameState::Uninitialized
                }),
    {
        let mut r: usize = 0;
        while r < res.len()
            invariant
                r <= res@.len(),
                forall|i: int| 0 <= i < res@.len() ==> (#[trigger] res@[i]).wf(),
                self.tables_wf(),
                self.same_shape(old(self)),
                self@.free == old(self)@.free,
                forall|pfn: int| #[trigger]
                    self@.in_range(pfn) ==> self@.at(pfn) == (if reserved_page(
                        res@.take(r as int),
                        pfn,
                    ) {
                        FrameState::Kernel
                    } else {
                        FrameState::Uninitialized
                    }),
            decreases res@.len() - r,
        {
            assert(res@[r as int].wf());
            let pfns = res[r].iter_pfns();
            let ghost first = res@[r as int].start() / PAGE_SIZE as int;
            let mut i: usize = 0;
            while i < pfns.len()
                invariant
                    r < res@.len(),
                    i <= pfns@.len(),
                    pfns@.len() == res@[r as int].size as int / PAGE_SIZE as int,
                    first == res@[r as int].start() / PAGE_SIZE as int,
                    forall|j: int| 0 <= j < pfns@.len() ==> (#[trigger] pfns@[j]).n == first + j,
                    self.tables_wf(),
                    self.same_shape(old(self)),
                    self@.free == old(self)@.free,
                    forall|pfn: int| #[trigger]
                        self@.in_range(pfn) ==> self@.at(pfn) == (if reserved_page(
                            res@.take(r as int),
                            pfn,
                        ) || first <= pfn < first + i {
                            FrameState::Kernel
                        } else {
                            FrameState::Uninitialized
                        }),
                decreases pfns@.len() - i,
            {
                let pfn = pfns[i];
                let ghost before = self@;
                if pfn.n >= self.base_page.n && pfn.n - self.base_page.n < self.total_pages {
                    self.set_state(pfn, FrameState::Kernel);
                }
                proof {
                    assert(pfn.n == first + i);
                    assert forall|q: int| #[trigger] self@.in_range(q) implies self@.at(q) == (
                    if reserved_page(res@.take(r as int), q) || first <= q < first + i + 1 {
                        FrameState::Kernel
                    } else {
                        FrameState::Uninitialized
                    }) by {
                        assert(before.in_range(q));
                    }
                }
                i += 1;
            }
            proof {
                let taken = res@.take(r as int);
                let next = res@.take(r + 1);
                assert forall|pfn: int| #[trigger] reserved_page(next, pfn) == (reserved_page(
                    taken,
                    pfn,
                ) || first <= pfn < first + pfns@.len()) by {
                    if reserved_page(taken, pfn) {
                        let j = choose|j: int|
                            0 <= j < taken.len() && (#[trigger] taken[j]).covers_pfn(pfn);
                        assert(next[j].covers_pfn(pfn));
                    }
                    if first <= pfn < first + pfns@.len() {
                        assert(next[r as int].covers_pfn(pfn));
                    }
                    if reserved_page(next, pfn) {
                        let j = choose|j: int|
                            0 <= j < next.len() && (#[trigger] next[j]).covers_pfn(pfn);
                        if j < r {
                            assert(taken[j].covers_pfn(pfn));
                        }
                    }
                }
            }
            r += 1;
        }
        assert(res@.take(res@.len() as int) =~= res@);
    }

    /// The next aligned block at `p` is taken up where it is usable.
    fn offer_block(&mut self, smalloc: &Smalloc, p: usize)
        requires
            old(self).tables_wf(),
            smalloc.wf(),
            p % MAX_BLOCK_PAGES == 0,
            (p + MAX_BLOCK_PAGES) * PAGE_SIZE <= usize::MAX,
            in_memory(smalloc.memory@, p * PAGE_SIZE, MAX_BLOCK_SIZE as int),
            old(self)@.in_range(p as int),
            old(self).free_pages + MAX_BLOCK_PAGES <= usize::MAX,
        ensures
            final(self).tables_wf(),
            final(self).base_page == old(self).base_page,
            final(self).total_pages == old(self).total_pages,
            usable(smalloc.memory@, smalloc.res@, p as int) ==> {
                &&& final(self).free_pages == old(self).free_pages + MAX_BLOCK_PAGES
                &&& final(self)@ == (FrameModel {
                    base: old(self)@.base,
                    states: old(self)@.states.update(
                        p - old(self)@.base,
                        FrameState::Free { order: MAX_ORDER as u8 },
                    ),
                    free: old(self)@.free.update(
                        MAX_ORDER as int,
                        seq![p as int] + old(self)@.free[MAX_ORDER as int],
                    ),
                })
            },
            !usable(smalloc.memory@, smalloc.res@, p as int) ==> {
                &&& final(self).free_pages == old(self).free_pages
                &&& final(self)@ == old(self)@
            },
    {
        if smalloc.reservation_over(p * PAGE_SIZE, MAX_BLOCK_SIZE).is_none() {
            self.set_state(PageFrame { n: p }, FrameState::Free { order: MAX_ORDER as u8 });
            self.add_to_free_list(PageFrame { n: p }, MAX_ORDER);
            self.free_pages = self.free_pages + MAX_BLOCK_PAGES;
        }
    }

    /// The blocks below page `p` have been taken up, and nothing else.
    spec fn offered(&self, smalloc: &Smalloc, p: int) -> bool {
        let top = self@.free[MAX_ORDER as int];
        let memory = smalloc.memory@;
        let res = smalloc.res@;
        &&& self.tables_wf()
        &&& forall|pfn: int| #[trigger]
            self@.in_range(pfn) ==> self@.at(pfn) == (if pfn < p {
                initial_state(memory, res, pfn)
            } else if reserved_page(res, pfn) {
                FrameState::Kernel
            } else {
                FrameState::Uninitialized
            })
        &&& forall|k: int| 0 <= k < MAX_ORDER ==> (#[trigger] self@.free[k]).len() == 0
        &&& forall|q: int| #[trigger] top.contains(q) <==> usable(memory, res, q) && q < p
        &&& forall|i: int, j: int|
            0 <= i < j < top.len() ==> (#[trigger] top[i]) > (#[trigger] top[j])
        &&& self.free_pages == top.len() * MAX_BLOCK_PAGES
        &&& top.len() > 0 ==> self.free_pages <= top[0] + MAX_BLOCK_PAGES - self.base_page.n
    }

    /// Blocks that are no memory can be passed over.
    proof fn lemma_offered_skip(&self, smalloc: &Smalloc, p: int, q: int)
        requires
            self.offered(smalloc, p),
            p <= q,
            forall|b: int| p <= b < q ==> !#[trigger] usable(smalloc.memory@, smalloc.res@, b),
        ensures
            self.offered(smalloc, q),
    {
        let top = self@.free[MAX_ORDER as int];
        assert forall|b: int| #[trigger] top.contains(b) <==> usable(
            smalloc.memory@,
            smalloc.res@,
            b,
        ) && b < q by {
            if usable(smalloc.memory@, smalloc.res@, b) && b < q {
                assert(b < p);
            }
        }
    }

    /// Taking up one more block.
    proof fn lemma_offered_step(&self, before: &Self, smalloc: &Smalloc, p: int)
        requires
            before.offered(smalloc, p),
            self.tables_wf(),
            self.base_page == before.base_page,
            self.total_pages == before.total_pages,
            before@.in_range(p),
            p % MAX_BLOCK_PAGES as int == 0,
            usable(smalloc.memory@, smalloc.res@, p) ==> {
                &&& self.free_pages == before.free_pages + MAX_BLOCK_PAGES
                &&& self@ == (FrameModel {
                    base: before@.base,
                    states: before@.states.update(
                        p - before@.base,
                        FrameState::Free { order: MAX_ORDER as u8 },
                    ),
                    free: before@.free.update(
                        MAX_ORDER as int,
                        seq![p] + before@.free[MAX_ORDER as int],
                    ),
                })
            },
            !usable(smalloc.memory@, smalloc.res@, p) ==> {
                &&& self.free_pages == before.free_pages
                &&& self@ == before@
            },
        ensures
            self.offered(smalloc, p + MAX_BLOCK_PAGES),
    {
        let memory = smalloc.memory@;
        let res = smalloc.res@;
        let old_top = before@.free[MAX_ORDER as int];
        let top = self@.free[MAX_ORDER as int];
        assert forall|pfn: int| #[trigger] self@.in_range(pfn) implies self@.at(pfn) == (if pfn < p
            + MAX_BLOCK_PAGES {
            initial_state(memory, res, pfn)
        } else if reserved_page(res, pfn) {
            FrameState::Kernel
        } else {
            FrameState::Uninitialized
        }) by {
            assert(before@.in_range(pfn));
            if p < pfn < p + MAX_BLOCK_PAGES {
                assert(!usable(memory, res, pfn));
            }
        }
        assert forall|q: int| #[trigger] top.contains(q) <==> usable(memory, res, q) && q < p
            + MAX_BLOCK_PAGES by {
            if usable(memory, res, p) {
                assert(top =~= seq![p] + old_top);
                if old_top.contains(q) {
                    let i = choose|i: int| 0 <= i < old_top.len() && old_top[i] == q;
                    assert(top[i + 1] == q);
                }
                if q == p {
                    assert(top[0] == q);
                }
                if top.contains(q) && q != p {
                    let i = choose|i: int| 0 <= i < top.len() && top[i] == q;
                    assert(old_top[i - 1] == q);
                }
            }
            if usable(memory, res, q) && p <= q < p + MAX_BLOCK_PAGES {
                assert(q == p);
            }
        }
        if usable(memory, res, p) {
            assert(top =~= seq![p] + old_top);
            assert forall|i: int, j: int| 0 <= i < j < top.len() implies (#[trigger] top[i]) > (
            #[trigger] top[j]) by {
                assert(old_top.contains(old_top[j - 1]));
                if i > 0 {
                    assert(old_top[i - 1] > old_top[j - 1]);
                }
            }
            if old_top.len() > 0 {
                assert(old_top.contains(old_top[0]));
            }
            assert(top.len() == old_top.len() + 1);
        }
    }

    /// Takes up every usable block of the largest order, from the lowest to
    /// the highest.
    fn add_usable(&mut self, smalloc: &Smalloc)
        requires
            old(self).offered(smalloc, old(self).base_page.n as int),
            smalloc.wf(),
            smalloc.memory@.len() > 0,
            old(self).base_page.n == smalloc.lowest() / PAGE_SIZE as int,
            old(self).total_pages == smalloc.page_count(),
            smalloc.table_suffices(smalloc.res@),
        ensures
            final(self).tables_wf(),
            final(self).base_page == old(self).base_page,
            final(self).total_pages == old(self).total_pages,
            is_fresh(final(self)@, smalloc.memory@, smalloc.res@),
            final(self).free_pages == final(self)@.free[MAX_ORDER as int].len() * MAX_BLOCK_PAGES,
            final(self).free_pages <= final(self).total_pages,
    {
        let ghost mut p = self.base_page.n as int;
        proof {
            smalloc.lemma_page_count();
        }
        let mut i: usize = 0;
        while i < smalloc.memory.len()
            invariant
                smalloc.wf(),
                smalloc.memory@.len() > 0,
                i <= smalloc.memory@.len(),
                self.base_page == old(self).base_page,
                self.total_pages == old(self).total_pages,
                self.base_page.n == smalloc.lowest() / PAGE_SIZE as int,
                smalloc.highest() / PAGE_SIZE as int <= self.base_page.n + self.total_pages + 1,
                self.offered(smalloc, p),
                p >= self.base_page.n,
                i < smalloc.memory@.len() ==> p <= first_block(smalloc.memory@[i as int].start()),
                forall|j: int|
                    0 <= j < i ==> (#[trigger] smalloc.memory@[j]).end() < (p + MAX_BLOCK_PAGES)
                        * PAGE_SIZE,
            decreases smalloc.memory@.len() - i,
        {
            let region = smalloc.memory[i];
            let ghost last = smalloc.memory@.len() - 1;
            proof {
                assert(smalloc.memory@[i as int].wf());
                assert(smalloc.memory@[0].wf());
                assert(smalloc.memory@[last].wf());
                if i < last {
                    assert(smalloc.memory@[i as int].end() <= smalloc.memory@[last].start());
                }
                if 0 < i {
                    assert(smalloc.memory@[0].end() <= smalloc.memory@[i as int].start());
                }
            }
            let start: usize = region.start_address().addr;
            let end_pfn: usize = region.end_address().to_pfn().n;
            let whole: usize = start / MAX_BLOCK_SIZE;
            let first: usize = if start % MAX_BLOCK_SIZE == 0 {
                whole * MAX_BLOCK_PAGES
            } else {
                (whole + 1) * MAX_BLOCK_PAGES
            };
            proof {
                assert(first == first_block(start as int));
                assert forall|b: int| p <= b < first implies !#[trigger] usable(
                    smalloc.memory@,
                    smalloc.res@,
                    b,
                ) by {
                    if usable(smalloc.memory@, smalloc.res@, b) {
                        let j = choose|j: int|
                            0 <= j < smalloc.memory@.len() && (
                            #[trigger] smalloc.memory@[j]).holds(
                                b * PAGE_SIZE,
                                MAX_BLOCK_SIZE as int,
                            );
                        if j > i {
                            assert(smalloc.memory@[i as int].end() <= smalloc.memory@[j].start());
                        }
                    }
                }
                self.lemma_offered_skip(smalloc, p, first as int);
            }
            let mut current: usize = first;
            while current <= end_pfn && end_pfn - current >= MAX_BLOCK_PAGES
                invariant
                    smalloc.wf(),
                    smalloc.memory@.len() > 0,
                    i < smalloc.memory@.len(),
                    region == smalloc.memory@[i as int],
                    region.wf(),
                    region.start() == start,
                    end_pfn == region.end() / PAGE_SIZE as int,
                    first <= current,
                    start <= first * PAGE_SIZE,
                    current == first || current <= end_pfn,
                    current % MAX_BLOCK_PAGES == 0,
                    self.base_page == old(self).base_page,
                    self.total_pages == old(self).total_pages,
                    self.base_page.n == smalloc.lowest() / PAGE_SIZE as int,
                    self.base_page.n <= first,
                    end_pfn <= self.base_page.n + self.total_pages + 1,
                    self.offered(smalloc, current as int),
                decreases end_pfn - current,
            {
                let ghost before = *self;
                proof {
                    assert(smalloc.memory@[i as int].holds(
                        current * PAGE_SIZE,
                        MAX_BLOCK_SIZE as int,
                    ));
                    let top = self@.free[MAX_ORDER as int];
                    if top.len() > 0 {
                        assert(top.contains(top[0]));
                    }
                }
                self.offer_block(smalloc, current);
                proof {
                    self.lemma_offered_step(&before, smalloc, current as int);
                }
                current += MAX_BLOCK_PAGES;
            }
            proof {
                p = current as int;
                assert(region.end() < (p + MAX_BLOCK_PAGES) * PAGE_SIZE);
                assert forall|j: int| 0 <= j < i + 1 implies (#[trigger] smalloc.memory@[j]).end()
                    < (p + MAX_BLOCK_PAGES) * PAGE_SIZE by {}
                if i + 1 < smalloc.memory@.len() {
                    assert(smalloc.memory@[i as int].end() <= smalloc.memory@[i + 1].start());
                }
            }
            i += 1;
        }
        proof {
            let memory = smalloc.memory@;
            let res = smalloc.res@;
            assert forall|b: int| p <= b implies !#[trigger] usable(memory, res, b) by {
                if usable(memory, res, b) {
                    let j = choose|j: int|
                        0 <= j < memory.len() && (#[trigger] memory[j]).holds(
                            b * PAGE_SIZE,
                            MAX_BLOCK_SIZE as int,
                        );
                }
            }
            let top = self@.free[MAX_ORDER as int];
            if top.len() > 0 {
                assert(top.contains(top[0]));
                lemma_usable_in_range(smalloc, res, top[0]);
            }
        }
    }
}

impl FrameAllocator {
    /// Brings the allocator up. Its page table is reserved at the lowest
    /// place where it fits; what the early allocator does not know to be
    /// taken is then free.
    pub fn init(smalloc: Smalloc) -> (r: Self)
        requires
            smalloc.wf(),
            smalloc.can_init(),
        ensures
            r.wf(),
            r@.base == smalloc.lowest() / PAGE_SIZE as int,
            r@.states.len() == smalloc.page_count(),
            exists|metadata: PhysMemoryRegion|
                smalloc.is_metadata(metadata) && #[trigger] is_fresh(
                    r@,
                    smalloc.memory@,
                    smalloc.res@.push(metadata),
                ),
            r@.free_pages() == r@.free[MAX_ORDER as int].len() * MAX_BLOCK_PAGES,
            r@.allocated_pages() == 0,
    {
        let mut smalloc = smalloc;
        let ghost given = smalloc;
        let last: usize = smalloc.memory.len() - 1;
        proof {
            assert(smalloc.memory@[0].wf());
            assert(smalloc.memory@[last as int].wf());
            if 0 < last {
                assert(smalloc.memory@[0].end() <= smalloc.memory@[last as int].start());
            }
        }
        let highest_addr = smalloc.memory[last].end_address();
        let lowest_addr = smalloc.memory[0].start_address();
        proof {
            lemma_page_shift((highest_addr.addr - lowest_addr.addr) as usize);
        }
        let total_pages: usize = (highest_addr.addr - lowest_addr.addr) >> PAGE_SHIFT;
        let base_page = lowest_addr.to_pfn();
        vstd::layout::layout_for_type_is_valid::<Frame>();
        let size: usize = core::mem::size_of::<Frame>();
        let align: usize = core::mem::align_of::<Frame>();
        proof {
            let a = choose|a: int| smalloc.fits(a, smalloc.metadata_size(), align as int);
            let i = choose|i: int|
                0 <= i < smalloc.memory@.len() && (#[trigger] smalloc.memory@[i]).holds(
                    a,
                    smalloc.metadata_size(),
                );
            assert(smalloc.memory@[i].wf());
            assert(total_pages * size <= usize::MAX);
        }
        let metadata_size: usize = total_pages * size;
        let reserved = smalloc.reserve_first_fit(metadata_size, align);
        proof {
            assert(reserved is Ok) by {
                let a = choose|a: int| given.fits(a, given.metadata_size(), align as int);
                assert(given.fits(a, metadata_size as int, align as int));
            }
            given.lemma_page_count();
            let metadata = PhysMemoryRegion { address: reserved->Ok_0, size: metadata_size };
            assert(given.is_metadata(metadata));
            assert(smalloc.table_suffices(given.res@.push(metadata)));
        }
        let mut inner = FrameAllocatorInner::untouched(base_page, total_pages);
        inner.mark_reserved(&smalloc.res);
        inner.add_usable(&smalloc);
        let r = FrameAllocator { inner };
        proof {
            lemma_fresh_wf(r@, &smalloc, smalloc.res@);
            let metadata = PhysMemoryRegion { address: reserved->Ok_0, size: metadata_size };
            assert(is_fresh(r@, given.memory@, given.res@.push(metadata)));
        }
        r
    }
}

} // verus!
