//! The states that the allocator's tables pass through while a block is being
//! split or merged.
use crate::memory::buddy::{
    block_pages, buddy_of, head_at, lemma_aligned_weaken,
    lemma_block_pages_grows, lemma_block_pages_step, lemma_buddy, lemma_head_at_step,
    MAX_ORDER,
};
use crate::memory::frame::FrameState;
use crate::memory::model::FrameModel;
use crate::memory::model_proofs::{
    lemma_absorbed_inside, lemma_grown_block, lemma_left_over, lemma_merged_order_is,
    lemma_source_block, lemma_source_order,
};
use vstd::prelude::*;

verus! {

impl FrameModel {
    /// The first free block of order `k` is out of its list and split down
    /// to order `c`; the first `done` pages of what remains are marked as
    /// allocated with order `r`.
    pub open spec fn splitting(self, c: nat, k: nat, r: nat, done: int) -> FrameModel {
        let p = self.free[k as int][0];
        FrameModel {
            base: self.base,
            states: Seq::new(
                self.states.len(),
                |i: int|
                    {
                        let pfn = self.base + i;
                        if p <= pfn < p + done {
                            Self::fresh_state(p, r, pfn)
                        } else if pfn == p {
                            FrameState::Uninitialized
                        } else {
                            self.split_state(p, c, k, pfn)
                        }
                    },
            ),
            free: self.split_free(c, k),
        }
    }
}

/// The smallest order with a free block is the source order.
pub proof fn lemma_source_order_is(m: FrameModel, r: nat, k: nat)
    requires
        r <= k <= MAX_ORDER,
        forall|j: int| r <= j < k ==> (#[trigger] m.free[j]).len() == 0,
        m.free[k as int].len() > 0,
    ensures
        m.source_order(r) == k,
        m.can_alloc(r),
    decreases k - r,
{
    if r < k {
        lemma_source_order_is(m, r + 1, k);
    }
}

/// A block that was just taken out of its list is split down to its own
/// order.
pub proof fn lemma_split_start(m: FrameModel, k: nat, r: nat)
    requires
        m.wf(),
        k <= MAX_ORDER,
        m.free[k as int].len() > 0,
    ensures
        (FrameModel {
            base: m.base,
            states: m.states.update(m.free[k as int][0] - m.base, FrameState::Uninitialized),
            free: m.free.update(k as int, m.free[k as int].drop_first()),
        }) == m.splitting(k, k, r, 0),
{
    let p = m.free[k as int][0];
    assert(m.is_free(m.free[k as int][0], k));
    let a = m.states.update(p - m.base, FrameState::Uninitialized);
    let b = m.splitting(k, k, r, 0);
    assert forall|i: int| 0 <= i < m.states.len() implies a[i] == b.states[i] by {
        let pfn = m.base + i;
        assert(pfn - m.base == i);
        assert(m.at(pfn) == m.states[i]);
    }
    assert(a =~= b.states);
    assert(m.free.update(k as int, m.free[k as int].drop_first()) =~= b.free);
}

/// Cutting the block in half once more.
pub proof fn lemma_split_step(m: FrameModel, c: nat, k: nat, r: nat)
    requires
        m.wf(),
        0 < c <= k <= MAX_ORDER,
        m.free[k as int].len() > 0,
    ensures
        ({
            let p = m.free[k as int][0];
            let s = m.splitting(c, k, r, 0);
            let d = (c - 1) as nat;
            let b = buddy_of(p, d);
            &&& b == p + block_pages(d)
            &&& m.in_range(b)
            &&& m.splitting(d, k, r, 0) == (FrameModel {
                base: m.base,
                states: s.states.update(b - m.base, FrameState::Free { order: d as u8 }),
                free: s.free.update(d as int, seq![b] + s.free[d as int]),
            })
        }),
{
    let p = m.free[k as int][0];
    let s = m.splitting(c, k, r, 0);
    let d = (c - 1) as nat;
    let b = buddy_of(p, d);
    assert(m.is_free(m.free[k as int][0], k));
    assert(m.in_range(p));
    assert(m.block_fits(p, k));
    lemma_aligned_weaken(p, d, k);
    lemma_aligned_weaken(p, c, k);
    lemma_buddy(p, d);
    lemma_block_pages_step(d);
    if c < k {
        lemma_block_pages_grows(c, k);
    }
    let t = m.splitting(d, k, r, 0);
    let u = s.states.update(b - m.base, FrameState::Free { order: d as u8 });
    assert forall|i: int| 0 <= i < m.states.len() implies t.states[i] == u[i] by {
        let pfn = m.base + i;
        assert(pfn - m.base == i);
        assert(t.states[i] == (if pfn == p {
            FrameState::Uninitialized
        } else {
            m.split_state(p, d, k, pfn)
        }));
        assert(s.states[i] == (if pfn == p {
            FrameState::Uninitialized
        } else {
            m.split_state(p, c, k, pfn)
        }));
        if pfn == b {
            assert(FrameModel::left_over(p, d, k, pfn, d));
            lemma_left_over(p, d, k, pfn, d);
        } else {
            if exists|j: nat| FrameModel::left_over(p, d, k, pfn, j) {
                let j = choose|j: nat| FrameModel::left_over(p, d, k, pfn, j);
                assert(j != d);
                assert(FrameModel::left_over(p, c, k, pfn, j));
                lemma_left_over(p, d, k, pfn, j);
                lemma_left_over(p, c, k, pfn, j);
            }
            if exists|j: nat| FrameModel::left_over(p, c, k, pfn, j) {
                let j = choose|j: nat| FrameModel::left_over(p, c, k, pfn, j);
                assert(FrameModel::left_over(p, d, k, pfn, j));
                lemma_left_over(p, d, k, pfn, j);
            }
        }
    }
    assert(t.states =~= u);
    assert(t.free =~= s.free.update(d as int, seq![b] + s.free[d as int]));
}

/// Marking one more page of the block.
pub proof fn lemma_mark_step(m: FrameModel, k: nat, r: nat, done: int)
    requires
        m.wf(),
        r <= k <= MAX_ORDER,
        m.free[k as int].len() > 0,
        0 <= done < block_pages(r),
    ensures
        ({
            let p = m.free[k as int][0];
            let s = m.splitting(r, k, r, done);
            &&& m.in_range(p + done)
            &&& m.splitting(r, k, r, done + 1) == (FrameModel {
                states: s.states.update(
                    p + done - m.base,
                    FrameModel::fresh_state(p, r, p + done),
                ),
                ..s
            })
        }),
{
    let p = m.free[k as int][0];
    assert(m.is_free(m.free[k as int][0], k));
    assert(m.in_range(p));
    assert(m.block_fits(p, k));
    if r < k {
        lemma_block_pages_grows(r, k);
    }
    let s = m.splitting(r, k, r, done);
    let t = m.splitting(r, k, r, done + 1);
    let u = s.states.update(p + done - m.base, FrameModel::fresh_state(p, r, p + done));
    assert(t.states =~= u);
}

/// Once the whole block is marked, the allocation is done.
pub proof fn lemma_split_done(m: FrameModel, r: nat)
    requires
        m.wf(),
        r <= MAX_ORDER,
        m.can_alloc(r),
    ensures
        m.splitting(r, m.source_order(r), r, block_pages(r)) == m.after_alloc(r),
{
    let k = m.source_order(r);
    lemma_source_block(m, r);
    lemma_source_order(m, r);
    lemma_block_pages_step(r);
    let p = m.source_block(r);
    let s = m.splitting(r, k, r, block_pages(r));
    assert(s.states =~= m.after_alloc(r).states);
}

impl FrameModel {
    /// The first `done` pages of the block at `head` are cleared.
    pub open spec fn clearing(self, head: int, done: int) -> FrameModel {
        FrameModel {
            states: Seq::new(
                self.states.len(),
                |i: int|
                    if head <= self.base + i < head + done {
                        FrameState::Uninitialized
                    } else {
                        self.states[i]
                    },
            ),
            ..self
        }
    }

    /// The block of order `from` at `head` is given up and has absorbed its
    /// buddies up to order `to`.
    pub open spec fn merging(self, head: int, from: nat, to: nat) -> FrameModel {
        FrameModel {
            base: self.base,
            states: Seq::new(
                self.states.len(),
                |i: int| self.cleared_state(head, from, to, self.base + i),
            ),
            free: self.absorbed_free(head, from, to),
        }
    }
}

/// Clearing one more page of the block.
pub proof fn lemma_clear_step(m: FrameModel, h: int, done: int)
    requires
        m.wf(),
        m.is_head(h),
        0 <= done < block_pages(m.order_at(h)),
    ensures
        m.in_range(h + done),
        m.clearing(h, done + 1) == (FrameModel {
            states: m.clearing(h, done).states.update(
                h + done - m.base,
                FrameState::Uninitialized,
            ),
            ..m.clearing(h, done)
        }),
{
    assert(m.block_fits(h, m.order_at(h)));
    let a = m.clearing(h, done + 1).states;
    let b = m.clearing(h, done).states.update(h + done - m.base, FrameState::Uninitialized);
    assert(a =~= b);
}

/// A block of which every page is cleared has absorbed nothing yet.
pub proof fn lemma_merge_start(m: FrameModel, h: int)
    requires
        m.wf(),
        m.is_head(h),
    ensures
        m.clearing(h, 0) == m,
        m.clearing(h, block_pages(m.order_at(h))) == m.merging(h, m.order_at(h), m.order_at(h)),
{
    let o = m.order_at(h);
    let a = m.clearing(h, block_pages(o));
    let b = m.merging(h, o, o);
    assert(m.clearing(h, 0).states =~= m.states);
    assert forall|i: int| 0 <= i < m.states.len() implies a.states[i] == b.states[i] by {
        let pfn = m.base + i;
        assert(pfn - m.base == i);
        assert(m.at(pfn) == m.states[i]);
    }
    assert(a.states =~= b.states);
    assert(a.free =~= b.free);
}

/// Absorbing one more buddy.
pub proof fn lemma_merge_step(m: FrameModel, h: int, j: nat)
    requires
        m.wf(),
        m.is_head(h),
        m.order_at(h) <= j < MAX_ORDER,
    ensures
        ({
            let o = m.order_at(h);
            let p = head_at(h, j);
            let b = buddy_of(p, j);
            let s = m.merging(h, o, j);
            &&& m.in_range(b) ==> s.at(b) == m.at(b)
            &&& head_at(h, j + 1) == if p <= b { p } else { b }
            &&& m.merges(h, j) ==> {
                &&& s.free[j as int].contains(b)
                &&& s.free[j as int].no_duplicates()
                &&& m.merging(h, o, j + 1) == (FrameModel {
                    base: m.base,
                    states: s.states.update(b - m.base, FrameState::Uninitialized),
                    free: s.free.update(j as int, s.free[j as int].remove_value(b)),
                })
            }
        }),
{
    let o = m.order_at(h);
    let p = head_at(h, j);
    let b = buddy_of(p, j);
    let s = m.merging(h, o, j);
    let t = m.merging(h, o, j + 1);
    assert(m.block_fits(h, o));
    lemma_absorbed_inside(h, o, j);
    lemma_head_at_step(h, j);
    lemma_buddy(p, j);
    lemma_block_pages_step(j);
    if m.in_range(b) {
        let i = b - m.base;
        assert(m.base + i == b);
        assert(s.at(b) == s.states[i]);
        assert(s.states[i] == m.cleared_state(h, o, j, b));
        if exists|x: nat| FrameModel::absorbed(h, o, j, b, x) {
            let x = choose|x: nat| FrameModel::absorbed(h, o, j, b, x);
            lemma_block_pages_step(x);
        }
    }
    if m.merges(h, j) {
        assert(m.in_range(b));
        assert(m.free[j as int].contains(b));
        assert(m.free[j as int].no_duplicates());
        let u = s.states.update(b - m.base, FrameState::Uninitialized);
        assert forall|i: int| 0 <= i < m.states.len() implies t.states[i] == u[i] by {
            let pfn = m.base + i;
            let next = (j + 1) as nat;
            assert(pfn - m.base == i);
            assert(t.states[i] == m.cleared_state(h, o, next, pfn));
            assert(s.states[i] == m.cleared_state(h, o, j, pfn));
            if pfn == b {
                assert(FrameModel::absorbed(h, o, next, pfn, j));
            } else {
                if exists|x: nat| FrameModel::absorbed(h, o, next, pfn, x) {
                    let x = choose|x: nat| FrameModel::absorbed(h, o, next, pfn, x);
                    assert(FrameModel::absorbed(h, o, j, pfn, x));
                }
                if exists|x: nat| FrameModel::absorbed(h, o, j, pfn, x) {
                    let x = choose|x: nat| FrameModel::absorbed(h, o, j, pfn, x);
                    assert(FrameModel::absorbed(h, o, next, pfn, x));
                }
            }
        }
        assert(t.states =~= u);
        assert(t.free =~= s.free.update(j as int, s.free[j as int].remove_value(b)));
    }
}

/// Once no buddy is left to absorb, the merged block becomes free.
pub proof fn lemma_merge_done(m: FrameModel, h: int, t: nat)
    requires
        m.wf(),
        m.is_head(h),
        m.order_at(h) <= t <= MAX_ORDER,
        forall|i: nat| m.order_at(h) <= i < t ==> m.merges(h, i),
        !m.merges(h, t),
    ensures
        ({
            let o = m.order_at(h);
            let s = m.merging(h, o, t);
            let p = head_at(h, t);
            &&& m.in_range(p)
            &&& m.after_release(h) == (FrameModel {
                base: m.base,
                states: s.states.update(p - m.base, FrameState::Free { order: t as u8 }),
                free: s.free.update(t as int, seq![p] + s.free[t as int]),
            })
        }),
{
    let o = m.order_at(h);
    let s = m.merging(h, o, t);
    let p = head_at(h, t);
    lemma_merged_order_is(m, h, o, t);
    lemma_grown_block(m, h, t);
    lemma_block_pages_step(t);
    let u = s.states.update(p - m.base, FrameState::Free { order: t as u8 });
    assert(m.after_release(h).states =~= u);
}

} // verus!
