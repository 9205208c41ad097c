//! The frame allocator's tables: one entry per page and one free list per
//! order, with the steps that change them.
use crate::memory::address::PhysMemoryRegion;
use crate::memory::buddy::{block_pages, head_at, lemma_head_at_aligned, pages_in, MAX_ORDER};
use crate::memory::frame::{AllocatedInfo, Frame, FrameState, TailInfo};
use crate::memory::laws::{
    law_allocated_by_state, law_release_returns_its_pages, lemma_allocated_below_nonneg,
    lemma_with_refs_wf,
};
use crate::memory::model::FrameModel;
use crate::memory::model_proofs::lemma_remove_value;
use crate::memory::page::{PageFrame, PAGE_SIZE};
use crate::memory::steps::{
    lemma_clear_step, lemma_merge_done, lemma_merge_start, lemma_merge_step,
};
use std::collections::VecDeque;
use vstd::prelude::*;

verus! {

/// The pages that the allocator manages and the free blocks among them.
pub struct FrameAllocatorInner {
    pub pages: Vec<Frame>,
    pub base_page: PageFrame,
    pub total_pages: usize,
    pub free_pages: usize,
    pub free_lists: Vec<VecDeque<PageFrame>>,
}

/// The page numbers in a free list.
pub open spec fn list_view(list: VecDeque<PageFrame>) -> Seq<int> {
    list@.map_values(|p: PageFrame| p.n as int)
}

impl View for FrameAllocatorInner {
    type V = FrameModel;

    open spec fn view(&self) -> FrameModel {
        FrameModel {
            base: self.base_page.n as int,
            states: self.pages@.map_values(|f: Frame| f.state),
            free: self.free_lists@.map_values(|l: VecDeque<PageFrame>| list_view(l)),
        }
    }
}

impl FrameAllocatorInner {
    /// The tables have the sizes they should have, and every page's address
    /// is an address.
    pub open spec fn tables_wf(&self) -> bool {
        &&& self.pages@.len() == self.total_pages
        &&& self.free_lists@.len() == MAX_ORDER + 1
        &&& forall|i: int|
            0 <= i < self.pages@.len() ==> (#[trigger] self.pages@[i]).pfn.n == self.base_page.n + i
        &&& (self.base_page.n + self.total_pages) * PAGE_SIZE <= usize::MAX
    }

    /// The tables are consistent and the count of free pages is right.
    pub open spec fn wf(&self) -> bool {
        &&& self.tables_wf()
        &&& self@.wf()
        &&& self.free_pages == self@.free_pages()
        &&& self@.free_pages() + self@.allocated_pages() <= self.total_pages
    }

    /// Nothing but the table entries differs.
    pub open spec fn same_shape(&self, other: &Self) -> bool {
        &&& self.base_page == other.base_page
        &&& self.total_pages == other.total_pages
        &&& self.free_pages == other.free_pages
    }

    /// The index of a page in the table.
    pub fn pfn_to_slice_index(&self, pfn: PageFrame) -> (index: usize)
        requires
            self.tables_wf(),
            self@.in_range(pfn.n as int),
        ensures
            index == pfn.n - self.base_page.n,
            index < self.pages@.len(),
    {
        pfn.n - self.base_page.n
    }

    /// The table entry of a page.
    pub fn get_frame(&self, pfn: PageFrame) -> (frame: &Frame)
        requires
            self.tables_wf(),
            self@.in_range(pfn.n as int),
        ensures
            frame.state == self@.at(pfn.n as int),
            frame.pfn == pfn,
    {
        let index: usize = self.pfn_to_slice_index(pfn);
        assert(self.pages@[index as int].pfn.n == self.base_page.n + index);
        &self.pages[index]
    }

    /// Changes the state of a page.
    pub fn set_state(&mut self, pfn: PageFrame, state: FrameState)
        requires
            old(self).tables_wf(),
            old(self)@.in_range(pfn.n as int),
        ensures
            final(self).tables_wf(),
            final(self).same_shape(old(self)),
            final(self)@ == (FrameModel {
                states: old(self)@.states.update(pfn.n - old(self)@.base, state),
                ..old(self)@
            }),
    {
        let ghost before = self@;
        let index: usize = self.pfn_to_slice_index(pfn);
        let entry = self.pages[index].pfn;
        self.pages.set(index, Frame { state, pfn: entry });
        assert(self@.states =~= before.states.update(pfn.n - before.base, state));
    }

    /// Puts a block at the front of its free list.
    pub fn add_to_free_list(&mut self, pfn: PageFrame, order: usize)
        requires
            old(self).tables_wf(),
            order <= MAX_ORDER,
        ensures
            final(self).tables_wf(),
            final(self).same_shape(old(self)),
            final(self)@ == (FrameModel {
                free: old(self)@.free.update(
                    order as int,
                    seq![pfn.n as int] + old(self)@.free[order as int],
                ),
                ..old(self)@
            }),
    {
        let ghost before = self@;
        self.free_lists[order].push_front(pfn);
        proof {
            let after = seq![pfn.n as int] + before.free[order as int];
            assert(self@.free[order as int] =~= after);
            assert(self@.free =~= before.free.update(order as int, after));
        }
    }

    /// Takes the first block out of a free list.
    pub fn pop_free_list(&mut self, order: usize) -> (pfn: PageFrame)
        requires
            old(self).tables_wf(),
            order <= MAX_ORDER,
            old(self)@.free[order as int].len() > 0,
        ensures
            final(self).tables_wf(),
            final(self).same_shape(old(self)),
            pfn.n == old(self)@.free[order as int][0],
            final(self)@ == (FrameModel {
                free: old(self)@.free.update(
                    order as int,
                    old(self)@.free[order as int].drop_first(),
                ),
                ..old(self)@
            }),
    {
        let ghost before = self@;
        let popped = self.free_lists[order].pop_front();
        let pfn = popped.unwrap();
        proof {
            let after = before.free[order as int].drop_first();
            assert(self@.free[order as int] =~= after);
            assert(self@.free =~= before.free.update(order as int, after));
        }
        pfn
    }

    /// Takes a block out of its free list and clears its state.
    pub fn remove_from_free_list(&mut self, pfn: PageFrame, order: usize)
        requires
            old(self).tables_wf(),
            order <= MAX_ORDER,
            old(self)@.in_range(pfn.n as int),
            old(self)@.free[order as int].contains(pfn.n as int),
            old(self)@.free[order as int].no_duplicates(),
        ensures
            final(self).tables_wf(),
            final(self).same_shape(old(self)),
            final(self)@ == (FrameModel {
                base: old(self)@.base,
                states: old(self)@.states.update(
                    pfn.n - old(self)@.base,
                    FrameState::Uninitialized,
                ),
                free: old(self)@.free.update(
                    order as int,
                    old(self)@.free[order as int].remove_value(pfn.n as int),
                ),
            }),
    {
        let ghost before = self@;
        let ghost list = before.free[order as int];
        let len: usize = self.free_lists[order].len();
        let mut i: usize = 0;
        while self.free_lists[order][i].n != pfn.n
            invariant
                self.tables_wf(),
                self@ == before,
                self.same_shape(old(self)),
                order <= MAX_ORDER,
                list == before.free[order as int],
                list.contains(pfn.n as int),
                i < list.len(),
                len == list.len(),
                self.free_lists@[order as int]@.len() == list.len(),
                forall|j: int| 0 <= j < i ==> list[j] != pfn.n,
            decreases list.len() - i,
        {
            assert(list[i as int] == self.free_lists@[order as int]@[i as int].n);
            i += 1;
        }
        assert(list[i as int] == pfn.n);
        let _ = self.free_lists[order].remove(i);
        proof {
            lemma_remove_value(list, pfn.n as int);
            assert(self@.free[order as int] =~= list.remove(i as int));
            assert(self@.free =~= before.free.update(
                order as int,
                list.remove_value(pfn.n as int),
            ));
        }
        self.set_state(pfn, FrameState::Uninitialized);
    }

    /// One holder lets go of an allocated block. The region may start at any
    /// page of the block. When the last holder lets go, the block is merged
    /// with its free buddies and can be handed out again.
    pub fn free_frames(&mut self, region: PhysMemoryRegion)
        requires
            old(self).wf(),
            old(self)@.allocated(region.start() / PAGE_SIZE as int),
        ensures
            final(self).wf(),
            final(self)@ == old(self)@.after_free(
                old(self)@.head_of(region.start() / PAGE_SIZE as int),
            ),
            final(self).total_pages == old(self).total_pages,
    {
        let ghost m = self@;
        let page = region.start_address().to_pfn();
        proof {
            assert(m.in_block_of(page.n as int, m.head_of(page.n as int)));
            assert(m.block_fits(
                m.head_of(page.n as int),
                m.order_at(m.head_of(page.n as int)),
            ));
            law_allocated_by_state(m, page.n as int);
        }
        let head_pfn = match self.get_frame(page).state {
            FrameState::AllocatedTail(TailInfo { head }) => head,
            _ => page,
        };
        let ghost h = head_pfn.n as int;
        assert(h == m.head_of(page.n as int));
        assert(m.is_head(h));
        assert(m.block_fits(h, m.order_at(h)));
        let info = match self.get_frame(head_pfn).state {
            FrameState::AllocatedHead(info) => info,
            _ => AllocatedInfo { ref_count: 1, order: 0 },
        };
        assert(info == m.at(h)->AllocatedHead_0);
        if info.ref_count > 1 {
            self.set_state(
                head_pfn,
                FrameState::AllocatedHead(
                    AllocatedInfo { ref_count: info.ref_count - 1, order: info.order },
                ),
            );
            proof {
                lemma_with_refs_wf(m, h, (info.ref_count - 1) as u32);
            }
            return ;
        }
        let initial_order: usize = info.order as usize;
        let ghost o = initial_order as nat;
        let pages: usize = pages_in(initial_order);
        proof {
            lemma_merge_start(m, h);
            lemma_head_at_aligned(h, o);
            law_release_returns_its_pages(m, h);
        }
        let mut i: usize = 0;
        while i < pages
            invariant
                m.wf(),
                m.is_head(h),
                h == head_pfn.n,
                o == m.order_at(h),
                pages == block_pages(o),
                i <= pages,
                h + pages <= usize::MAX,
                self.tables_wf(),
                self.same_shape(old(self)),
                self@ == m.clearing(h, i as int),
            decreases pages - i,
        {
            proof {
                lemma_clear_step(m, h, i as int);
            }
            self.set_state(PageFrame { n: head_pfn.n + i }, FrameState::Uninitialized);
            i += 1;
        }
        let mut merged_order: usize = initial_order;
        let mut current_pfn = head_pfn;
        let mut growing: bool = true;
        while growing && merged_order < MAX_ORDER
            invariant
                m.wf(),
                m.is_head(h),
                o == m.order_at(h),
                o <= merged_order <= MAX_ORDER,
                current_pfn.n == head_at(h, merged_order as nat),
                forall|i: nat| o <= i < merged_order ==> m.merges(h, i),
                !growing ==> !m.merges(h, merged_order as nat),
                self.tables_wf(),
                self.same_shape(old(self)),
                self@ == m.merging(h, o, merged_order as nat),
            decreases MAX_ORDER - merged_order, (if growing { 1int } else { 0int }),
        {
            proof {
                lemma_merge_step(m, h, merged_order as nat);
            }
            let buddy_pfn = current_pfn.buddy(merged_order);
            if buddy_pfn.n < self.base_page.n || buddy_pfn.n - self.base_page.n
                >= self.total_pages {
                growing = false;
            } else {
                let buddy_order: Option<u8> = match self.get_frame(buddy_pfn).state {
                    FrameState::Free { order } => Some(order),
                    _ => None,
                };
                if buddy_order == Some(merged_order as u8) {
                    assert(m.merges(h, merged_order as nat));
                    self.remove_from_free_list(buddy_pfn, merged_order);
                    if buddy_pfn.n < current_pfn.n {
                        current_pfn = buddy_pfn;
                    }
                    merged_order += 1;
                } else {
                    growing = false;
                }
            }
        }
        proof {
            lemma_merge_done(m, h, merged_order as nat);
            lemma_allocated_below_nonneg(m.after_release(h).states, m.after_release(h).states.len());
        }
        self.set_state(current_pfn, FrameState::Free { order: merged_order as u8 });
        self.add_to_free_list(current_pfn, merged_order);
        self.free_pages = self.free_pages + pages;
    }
}

} // verus!
