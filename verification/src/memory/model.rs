//! What the frame allocator's bookkeeping means, and what each of its
//! operations does to it.
use crate::memory::buddy::{aligned, block_pages, buddy_of, head_at, MAX_ORDER};
use crate::memory::frame::{AllocatedInfo, FrameState, TailInfo};
use crate::memory::page::PageFrame;
use vstd::prelude::*;

verus! {

/// The allocator's state: the state of each page from `base` on, and for each
/// order the heads of the free blocks, the next one to be handed out first.
#[verifier::ext_equal]
pub struct FrameModel {
    pub base: int,
    pub states: Seq<FrameState>,
    pub free: Seq<Seq<int>>,
}

/// Pages in the free blocks of the orders below `n`.
pub open spec fn pages_below(free: Seq<Seq<int>>, n: nat) -> int
    decreases n,
{
    if n == 0 {
        0
    } else {
        pages_below(free, (n - 1) as nat) + free[n - 1].len() * block_pages((n - 1) as nat)
    }
}

/// A page with this state is part of an allocated block.
pub open spec fn is_allocated_state(state: FrameState) -> bool {
    state is AllocatedHead || state is AllocatedTail
}

/// How many of the first `n` pages are part of an allocated block.
pub open spec fn allocated_below(states: Seq<FrameState>, n: nat) -> int
    decreases n,
{
    if n == 0 {
        0
    } else {
        allocated_below(states, (n - 1) as nat) + if is_allocated_state(states[n - 1]) {
            1int
        } else {
            0
        }
    }
}

impl FrameModel {
    /// The allocator manages this page.
    pub open spec fn in_range(self, pfn: int) -> bool {
        self.base <= pfn < self.base + self.states.len()
    }

    /// The state of a managed page.
    pub open spec fn at(self, pfn: int) -> FrameState {
        self.states[pfn - self.base]
    }

    /// A free block of `order` starts at `pfn`.
    pub open spec fn is_free(self, pfn: int, order: nat) -> bool {
        &&& self.in_range(pfn)
        &&& order <= MAX_ORDER
        &&& self.at(pfn) == (FrameState::Free { order: order as u8 })
    }

    /// An allocated block starts at `pfn`.
    pub open spec fn is_head(self, pfn: int) -> bool {
        self.in_range(pfn) && self.at(pfn) is AllocatedHead
    }

    /// The order of the allocated block that starts at `pfn`.
    pub open spec fn order_at(self, pfn: int) -> nat {
        self.at(pfn)->AllocatedHead_0.order as nat
    }

    /// The number of holders of the allocated block that starts at `pfn`.
    pub open spec fn refs_at(self, pfn: int) -> nat {
        self.at(pfn)->AllocatedHead_0.ref_count as nat
    }

    /// `pfn` lies in the allocated block that starts at `head`.
    pub open spec fn in_block_of(self, pfn: int, head: int) -> bool {
        self.is_head(head) && head <= pfn < head + block_pages(self.order_at(head))
    }

    /// `pfn` is part of an allocated block.
    pub open spec fn allocated(self, pfn: int) -> bool {
        exists|head: int| self.in_block_of(pfn, head)
    }

    /// The head of the allocated block that `pfn` is part of.
    pub open spec fn head_of(self, pfn: int) -> int {
        choose|head: int| self.in_block_of(pfn, head)
    }

    /// `pfn` is part of a free block.
    pub open spec fn in_free_block(self, pfn: int) -> bool {
        exists|p: int, k: nat| #[trigger]
            self.is_free(p, k) && p <= pfn < p + block_pages(k)
    }

    /// `pfn` is memory that the allocator can hand out or has handed out.
    pub open spec fn usable(self, pfn: int) -> bool {
        self.allocated(pfn) || self.in_free_block(pfn)
    }

    /// Pages in free blocks.
    pub open spec fn free_pages(self) -> int {
        pages_below(self.free, (MAX_ORDER + 1) as nat)
    }

    /// Pages in allocated blocks.
    pub open spec fn allocated_pages(self) -> int {
        allocated_below(self.states, self.states.len())
    }

    /// A block is aligned to its size and lies in the managed range.
    pub open spec fn block_fits(self, pfn: int, order: nat) -> bool {
        &&& order <= MAX_ORDER
        &&& aligned(pfn, order)
        &&& self.base <= pfn
        &&& pfn + block_pages(order) <= self.base + self.states.len()
    }

    /// Each list holds free blocks of its order, none of them twice.
    pub open spec fn lists_hold_free(self) -> bool {
        &&& forall|k: int, i: int|
            #![trigger self.free[k][i]]
            0 <= k <= MAX_ORDER && 0 <= i < self.free[k].len() ==> self.is_free(
                self.free[k][i],
                k as nat,
            )
        &&& forall|k: int|
            #![trigger self.free[k]]
            0 <= k <= MAX_ORDER ==> self.free[k].no_duplicates()
    }

    /// A free block is in its list, fits, and no page in it heads a block.
    pub open spec fn free_blocks_wf(self) -> bool {
        forall|p: int| #[trigger]
            self.in_range(p) && self.at(p) is Free ==> {
                let k = self.at(p)->Free_order as nat;
                &&& self.block_fits(p, k)
                &&& self.free[k as int].contains(p)
                &&& forall|q: int|
                    #![trigger self.at(q)]
                    p < q < p + block_pages(k) ==> self.at(q) is Uninitialized
            }
    }

    /// An allocated block fits, has a holder, and its other pages point to
    /// its head.
    pub open spec fn heads_wf(self) -> bool {
        forall|p: int| #[trigger]
            self.is_head(p) ==> {
                &&& self.block_fits(p, self.order_at(p))
                &&& self.refs_at(p) >= 1
                &&& forall|q: int|
                    #![trigger self.at(q)]
                    p < q < p + block_pages(self.order_at(p)) ==> self.at(q)
                        == FrameState::AllocatedTail(TailInfo { head: PageFrame { n: p as usize } })
            }
    }

    /// A tail page lies in the allocated block of the head it points to.
    pub open spec fn tails_wf(self) -> bool {
        forall|q: int| #[trigger]
            self.in_range(q) && self.at(q) is AllocatedTail ==> self.in_block_of(
                q,
                self.at(q)->AllocatedTail_0.head.n as int,
            ) && self.at(q)->AllocatedTail_0.head.n < q
    }

    /// No two free buddies are left unmerged.
    pub open spec fn merged(self) -> bool {
        forall|p: int, k: nat|
            #![trigger self.is_free(p, k)]
            k < MAX_ORDER && self.is_free(p, k) ==> !self.is_free(buddy_of(p, k), k)
    }

    /// The bookkeeping is consistent.
    pub open spec fn wf(self) -> bool {
        &&& 0 <= self.base
        &&& self.base + self.states.len() <= usize::MAX
        &&& self.free.len() == MAX_ORDER + 1
        &&& self.lists_hold_free()
        &&& self.free_blocks_wf()
        &&& self.heads_wf()
        &&& self.tails_wf()
        &&& self.merged()
    }

    /// A block of at least `order` is free.
    pub open spec fn can_alloc(self, order: nat) -> bool {
        exists|k: int| order <= k <= MAX_ORDER && (#[trigger] self.free[k]).len() > 0
    }

    /// The smallest order from `order` on that has a free block.
    pub open spec fn source_order(self, order: nat) -> nat
        decreases MAX_ORDER - order,
    {
        if order >= MAX_ORDER || self.free[order as int].len() > 0 {
            order
        } else {
            self.source_order(order + 1)
        }
    }

    /// The block that an allocation of `order` is cut from.
    pub open spec fn source_block(self, order: nat) -> int {
        self.free[self.source_order(order) as int][0]
    }

    /// `pfn` heads a part of order `j` that splitting the block of order `k`
    /// at `p` down to order `r` leaves over.
    pub open spec fn left_over(p: int, r: nat, k: nat, pfn: int, j: nat) -> bool {
        r <= j < k && pfn == p + block_pages(j)
    }

    /// A page's state once the block of order `k` at `p` was split down to
    /// order `r`, apart from the block itself.
    pub open spec fn split_state(self, p: int, r: nat, k: nat, pfn: int) -> FrameState {
        if exists|j: nat| Self::left_over(p, r, k, pfn, j) {
            FrameState::Free { order: (choose|j: nat| Self::left_over(p, r, k, pfn, j)) as u8 }
        } else {
            self.at(pfn)
        }
    }

    /// The free lists once the first block of order `k` was split down to
    /// order `r` and taken out.
    pub open spec fn split_free(self, r: nat, k: nat) -> Seq<Seq<int>> {
        let p = self.free[k as int][0];
        Seq::new(
            self.free.len(),
            |j: int|
                if j == k {
                    self.free[j].drop_first()
                } else if r <= j < k {
                    seq![p + block_pages(j as nat)] + self.free[j]
                } else {
                    self.free[j]
                },
        )
    }

    /// The state of a page of an allocated block with one holder.
    pub open spec fn fresh_state(p: int, order: nat, pfn: int) -> FrameState {
        if pfn == p {
            FrameState::AllocatedHead(AllocatedInfo { ref_count: 1, order: order as u8 })
        } else {
            FrameState::AllocatedTail(TailInfo { head: PageFrame { n: p as usize } })
        }
    }

    /// After an allocation of `order`: the first free block of the smallest
    /// order that serves is split, its lowest part is allocated to one holder
    /// and the rest is free, one block of each order between.
    pub open spec fn after_alloc(self, order: nat) -> FrameModel {
        let k = self.source_order(order);
        let p = self.source_block(order);
        FrameModel {
            base: self.base,
            states: Seq::new(
                self.states.len(),
                |i: int|
                    {
                        let pfn = self.base + i;
                        if p <= pfn < p + block_pages(order) {
                            Self::fresh_state(p, order, pfn)
                        } else {
                            self.split_state(p, order, k, pfn)
                        }
                    },
            ),
            free: self.split_free(order, k),
        }
    }

    /// The block at `head` has one more holder, or one fewer.
    pub open spec fn with_refs(self, head: int, ref_count: u32) -> FrameModel {
        FrameModel {
            states: self.states.update(
                head - self.base,
                FrameState::AllocatedHead(
                    AllocatedInfo { ref_count, order: self.order_at(head) as u8 },
                ),
            ),
            ..self
        }
    }

    /// When the aligned block of order `j` around `head` is free as a whole,
    /// its buddy is free as well, so the two merge.
    pub open spec fn merges(self, head: int, j: nat) -> bool {
        j < MAX_ORDER && self.is_free(buddy_of(head_at(head, j), j), j)
    }

    /// The order to which a block of order `j` at `head` grows when freed.
    pub open spec fn merged_order(self, head: int, j: nat) -> nat
        decreases MAX_ORDER - j,
    {
        if self.merges(head, j) {
            self.merged_order(head, j + 1)
        } else {
            j
        }
    }

    /// `pfn` heads the buddy of order `j` that is absorbed when the block of
    /// order `from` at `head` grows to order `to`.
    pub open spec fn absorbed(head: int, from: nat, to: nat, pfn: int, j: nat) -> bool {
        from <= j < to && pfn == buddy_of(head_at(head, j), j)
    }

    /// A page's state once the block of order `from` at `head` was given up
    /// and grew to order `to`, apart from the head of what it grew to.
    pub open spec fn cleared_state(self, head: int, from: nat, to: nat, pfn: int) -> FrameState {
        if head <= pfn < head + block_pages(from) || exists|j: nat|
            Self::absorbed(head, from, to, pfn, j) {
            FrameState::Uninitialized
        } else {
            self.at(pfn)
        }
    }

    /// The free lists once the buddies of the orders `from` up to `to` were
    /// absorbed.
    pub open spec fn absorbed_free(self, head: int, from: nat, to: nat) -> Seq<Seq<int>> {
        Seq::new(
            self.free.len(),
            |j: int|
                if from <= j < to {
                    self.free[j].remove_value(buddy_of(head_at(head, j as nat), j as nat))
                } else {
                    self.free[j]
                },
        )
    }

    /// After the last holder of the block at `head` has gone: the block has
    /// merged with every free buddy up to the largest order possible, and the
    /// merged block is the next one of its order to be handed out.
    pub open spec fn after_release(self, head: int) -> FrameModel {
        let from = self.order_at(head);
        let to = self.merged_order(head, from);
        let p = head_at(head, to);
        let free = self.absorbed_free(head, from, to);
        FrameModel {
            base: self.base,
            states: Seq::new(
                self.states.len(),
                |i: int|
                    {
                        let pfn = self.base + i;
                        if pfn == p {
                            FrameState::Free { order: to as u8 }
                        } else {
                            self.cleared_state(head, from, to, pfn)
                        }
                    },
            ),
            free: free.update(to as int, seq![p] + free[to as int]),
        }
    }

    /// After one holder of the block at `head` has let go.
    pub open spec fn after_free(self, head: int) -> FrameModel {
        if self.refs_at(head) > 1 {
            self.with_refs(head, (self.refs_at(head) - 1) as u32)
        } else {
            self.after_release(head)
        }
    }
}

} // verus!
