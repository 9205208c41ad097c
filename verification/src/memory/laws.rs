//! What holds of the frame allocator as a whole.
use crate::memory::buddy::{
    block_pages, buddy_of, head_at, lemma_aligned_weaken, lemma_block_pages_grows,
    lemma_block_pages_step, lemma_buddy, lemma_head_at_aligned, MAX_ORDER,
};
use crate::memory::frame::FrameState;
use crate::memory::model::{allocated_below, is_allocated_state, pages_below, FrameModel};
use crate::memory::model_proofs::{
    lemma_absorbed_inside, lemma_after_alloc_at, lemma_after_alloc_wf, lemma_after_release_at,
    lemma_after_release_free, lemma_after_release_wf, lemma_free_outside,
    lemma_grown_block_content, lemma_left_over, lemma_merged_order, lemma_merged_order_is,
    lemma_remove_value, lemma_source_block, lemma_source_order,
};
use vstd::prelude::*;

verus! {

/// A page is part of an allocated block exactly when its state says so, and
/// then of one block only: the one it heads or points back to.
pub proof fn law_allocated_by_state(m: FrameModel, q: int)
    requires
        m.wf(),
        m.in_range(q),
    ensures
        m.allocated(q) <==> (m.at(q) is AllocatedHead || m.at(q) is AllocatedTail),
        m.allocated(q) ==> m.in_block_of(q, m.head_of(q)),
        m.at(q) is AllocatedHead ==> m.head_of(q) == q,
        m.at(q) is AllocatedTail ==> m.head_of(q) == m.at(q)->AllocatedTail_0.head.n,
        forall|h: int| m.in_block_of(q, h) ==> h == m.head_of(q),
{
    if m.at(q) is AllocatedHead {
        assert(m.is_head(q));
        assert(m.block_fits(q, m.order_at(q)));
        lemma_block_pages_step(m.order_at(q));
        assert(m.in_block_of(q, q));
    }
    if m.at(q) is AllocatedTail {
        assert(m.in_block_of(q, m.at(q)->AllocatedTail_0.head.n as int));
    }
    assert forall|h: int| m.in_block_of(q, h) implies h == (if m.at(q) is AllocatedHead {
        q
    } else {
        m.at(q)->AllocatedTail_0.head.n as int
    }) && (m.at(q) is AllocatedHead || m.at(q) is AllocatedTail) by {
        assert(m.is_head(h));
        assert(m.block_fits(h, m.order_at(h)));
        let _ = m.at(q);
    }
}

/// Blocks never overlap: neither two allocated ones, nor two free ones, nor
/// a free one and an allocated one.
pub proof fn law_blocks_disjoint(m: FrameModel, a: int, b: int, q: int)
    requires
        m.wf(),
        a != b,
    ensures
        !(m.in_block_of(q, a) && m.in_block_of(q, b)),
        !(m.in_block_of(q, a) && m.in_range(b) && m.at(b) is Free && b <= q < b + block_pages(
            m.at(b)->Free_order as nat,
        )),
        !(m.in_range(a) && m.at(a) is Free && a <= q < a + block_pages(m.at(a)->Free_order as nat)
            && m.in_range(b) && m.at(b) is Free && b <= q < b + block_pages(
            m.at(b)->Free_order as nat,
        )),
{
    if m.in_block_of(q, a) {
        assert(m.is_head(a));
        assert(m.block_fits(a, m.order_at(a)));
        assert(m.in_range(q));
        law_allocated_by_state(m, q);
        let _ = m.at(q);
        assert(m.in_range(b) ==> m.in_range(q));
    }
    if m.in_range(a) && m.at(a) is Free && m.in_range(b) && m.at(b) is Free {
        let _ = (m.at(a), m.at(b), m.at(q));
    }
}

proof fn lemma_pages_below_alloc(m: FrameModel, r: nat, i: nat)
    requires
        m.wf(),
        r <= MAX_ORDER,
        m.can_alloc(r),
        i <= MAX_ORDER + 1,
    ensures
        pages_below(m.after_alloc(r).free, i) - pages_below(m.free, i) == if i <= r {
            0
        } else if i <= m.source_order(r) {
            block_pages(i) - block_pages(r)
        } else {
            -block_pages(r)
        },
    decreases i,
{
    lemma_source_order(m, r);
    if i > 0 {
        let j = (i - 1) as nat;
        lemma_pages_below_alloc(m, r, j);
        lemma_block_pages_step(j);
        let n = m.after_alloc(r).free;
        let k = m.source_order(r);
        if r <= j <= k {
            let d: int = if j == k { -1 } else { 1 };
            assert(n[j as int].len() == m.free[j as int].len() + d);
            assert(n[j as int].len() * block_pages(j) == m.free[j as int].len() * block_pages(j) + d
                * block_pages(j)) by (nonlinear_arith)
                requires
                    n[j as int].len() == m.free[j as int].len() + d,
            ;
        }
    }
}

proof fn lemma_pages_below_release(m: FrameModel, h: int, i: nat)
    requires
        m.wf(),
        m.is_head(h),
        i <= MAX_ORDER + 1,
    ensures
        pages_below(m.after_release(h).free, i) - pages_below(m.free, i) == if i <= m.order_at(h) {
            0
        } else if i <= m.merged_order(h, m.order_at(h)) {
            block_pages(m.order_at(h)) - block_pages(i)
        } else {
            block_pages(m.order_at(h))
        },
    decreases i,
{
    let o = m.order_at(h);
    let t = m.merged_order(h, o);
    assert(m.block_fits(h, o));
    lemma_merged_order(m, h, o);
    if i > 0 {
        let j = (i - 1) as nat;
        lemma_pages_below_release(m, h, j);
        lemma_block_pages_step(j);
        lemma_after_release_free(m, h, j);
        let n = m.after_release(h).free;
        if o <= j <= t {
            let d: int = if j == t { 1 } else { -1 };
            if j < t {
                lemma_remove_value(m.free[j as int], buddy_of(head_at(h, j), j));
            }
            assert(n[j as int].len() == m.free[j as int].len() + d);
            assert(n[j as int].len() * block_pages(j) == m.free[j as int].len() * block_pages(j) + d
                * block_pages(j)) by (nonlinear_arith)
                requires
                    n[j as int].len() == m.free[j as int].len() + d,
            ;
        }
    }
}

proof fn lemma_allocated_below(s: Seq<FrameState>, t: Seq<FrameState>, a: int, b: int, n: nat)
    requires
        s.len() == t.len(),
        0 <= a <= b,
        n <= s.len(),
        forall|i: int|
            0 <= i < s.len() && !(a <= i < b) ==> (#[trigger] is_allocated_state(s[i])
                <==> is_allocated_state(t[i])),
        forall|i: int| a <= i < b && i < s.len() ==> !is_allocated_state(#[trigger] s[i]),
        forall|i: int| a <= i < b && i < t.len() ==> is_allocated_state(#[trigger] t[i]),
    ensures
        allocated_below(t, n) - allocated_below(s, n) == if n <= a {
            0
        } else if n <= b {
            n - a
        } else {
            b - a
        },
    decreases n,
{
    if n > 0 {
        lemma_allocated_below(s, t, a, b, (n - 1) as nat);
        assert(is_allocated_state(s[n - 1]) == is_allocated_state(s[n - 1]));
        let _ = (s[n - 1], t[n - 1]);
    }
}

/// An allocation takes exactly its pages out of the free ones and adds them
/// to the allocated ones.
pub proof fn law_alloc_takes_its_pages(m: FrameModel, r: nat)
    requires
        m.wf(),
        r <= MAX_ORDER,
        m.can_alloc(r),
    ensures
        m.after_alloc(r).wf(),
        m.after_alloc(r).free_pages() == m.free_pages() - block_pages(r),
        m.after_alloc(r).allocated_pages() == m.allocated_pages() + block_pages(r),
{
    let n = m.after_alloc(r);
    let p = m.source_block(r);
    let k = m.source_order(r);
    lemma_after_alloc_wf(m, r);
    lemma_pages_below_alloc(m, r, (MAX_ORDER + 1) as nat);
    lemma_source_order(m, r);
    lemma_source_block(m, r);
    lemma_block_pages_step(r);
    if r < k {
        lemma_block_pages_grows(r, k);
    }
    let a = p - m.base;
    let b = a + block_pages(r);
    assert forall|i: int| 0 <= i < m.states.len() implies {
        &&& !(a <= i < b) ==> (is_allocated_state(m.states[i]) <==> is_allocated_state(n.states[i]))
        &&& a <= i < b ==> !is_allocated_state(m.states[i]) && is_allocated_state(n.states[i])
    } by {
        let q = m.base + i;
        assert(m.in_range(q));
        lemma_after_alloc_at(m, r, q);
        assert(m.at(q) == m.states[i]);
        assert(n.at(q) == n.states[i]);
        if exists|j: nat| FrameModel::left_over(p, r, k, q, j) {
            let j = choose|j: nat| FrameModel::left_over(p, r, k, q, j);
            lemma_left_over(p, r, k, q, j);
        }
    }
    lemma_allocated_below(m.states, n.states, a, b, m.states.len());
}

/// When the last holder of a block lets go, exactly its pages become free
/// and cease to be allocated.
pub proof fn law_release_returns_its_pages(m: FrameModel, h: int)
    requires
        m.wf(),
        m.is_head(h),
    ensures
        m.after_release(h).wf(),
        m.after_release(h).free_pages() == m.free_pages() + block_pages(m.order_at(h)),
        m.after_release(h).allocated_pages() == m.allocated_pages() - block_pages(m.order_at(h)),
{
    let n = m.after_release(h);
    let o = m.order_at(h);
    let t = m.merged_order(h, o);
    assert(m.block_fits(h, o));
    lemma_after_release_wf(m, h);
    lemma_merged_order(m, h, o);
    lemma_pages_below_release(m, h, (MAX_ORDER + 1) as nat);
    lemma_absorbed_inside(h, o, t);
    lemma_block_pages_step(o);
    let a = h - m.base;
    let b = a + block_pages(o);
    assert forall|i: int| 0 <= i < m.states.len() implies {
        &&& !(a <= i < b) ==> (is_allocated_state(m.states[i]) <==> is_allocated_state(n.states[i]))
        &&& a <= i < b ==> is_allocated_state(m.states[i]) && !is_allocated_state(n.states[i])
    } by {
        let q = m.base + i;
        assert(m.in_range(q));
        assert(m.at(q) == m.states[i]);
        assert(n.at(q) == n.states[i]);
        lemma_after_release_at(m, h, q);
        if a <= i < b {
            assert(m.in_block_of(q, h));
            law_allocated_by_state(m, q);
        } else if head_at(h, t) <= q < head_at(h, t) + block_pages(t) {
            lemma_grown_block_content(m, h, q);
            if m.at(q) is AllocatedTail {
                assert(m.in_block_of(q, h));
            }
        }
    }
    lemma_allocated_below(n.states, m.states, a, b, m.states.len());
}

/// What an allocation returns was free before: it is part of no block that
/// was allocated, and every block that was allocated stays as it was.
pub proof fn law_alloc_is_fresh(m: FrameModel, r: nat, q: int)
    requires
        m.wf(),
        r <= MAX_ORDER,
        m.can_alloc(r),
    ensures
        m.after_alloc(r).in_block_of(q, m.source_block(r)) ==> !m.allocated(q),
        m.is_head(q) ==> m.after_alloc(r).is_head(q) && m.after_alloc(r).at(q) == m.at(q),
        m.allocated(q) ==> m.after_alloc(r).allocated(q),
{
    let n = m.after_alloc(r);
    let p = m.source_block(r);
    let k = m.source_order(r);
    lemma_source_block(m, r);
    lemma_source_order(m, r);
    lemma_block_pages_step(r);
    if r < k {
        lemma_block_pages_grows(r, k);
    }
    assert(m.in_range(p));
    lemma_after_alloc_at(m, r, p);
    if n.in_block_of(q, p) {
        assert(m.in_range(q));
        law_allocated_by_state(m, q);
        let _ = m.at(q);
    }
    if m.is_head(q) {
        lemma_free_outside(m, p, k, q);
        lemma_after_alloc_at(m, r, q);
    }
    if m.allocated(q) {
        let h = m.head_of(q);
        assert(m.in_block_of(q, h));
        lemma_free_outside(m, p, k, h);
        lemma_after_alloc_at(m, r, h);
        assert(n.in_block_of(q, h));
    }
}

/// Freeing one block leaves every other allocated block as it was.
pub proof fn law_release_keeps_others(m: FrameModel, h: int, g: int)
    requires
        m.wf(),
        m.is_head(h),
        m.is_head(g),
        g != h,
    ensures
        m.after_release(h).is_head(g),
        m.after_release(h).at(g) == m.at(g),
{
    let o = m.order_at(h);
    let t = m.merged_order(h, o);
    lemma_after_release_at(m, h, g);
    if head_at(h, t) <= g < head_at(h, t) + block_pages(t) {
        lemma_grown_block_content(m, h, g);
    }
}

/// Once its last holder has let go, no page of a block is allocated any more.
pub proof fn law_release_ends_allocation(m: FrameModel, h: int, q: int)
    requires
        m.wf(),
        m.is_head(h),
        m.in_block_of(q, h),
    ensures
        !m.after_release(h).allocated(q),
{
    let o = m.order_at(h);
    let t = m.merged_order(h, o);
    assert(m.block_fits(h, o));
    lemma_merged_order(m, h, o);
    lemma_absorbed_inside(h, o, t);
    assert(m.in_range(q));
    lemma_after_release_at(m, h, q);
    lemma_after_release_wf(m, h);
    law_allocated_by_state(m.after_release(h), q);
}

/// Freeing what was just allocated puts everything back: every page, every
/// list and the order in which blocks will be handed out.
pub proof fn law_alloc_then_free_restores(m: FrameModel, r: nat)
    requires
        m.wf(),
        r <= MAX_ORDER,
        m.can_alloc(r),
    ensures
        m.after_alloc(r).after_free(m.source_block(r)) == m,
{
    let n = m.after_alloc(r);
    let p = m.source_block(r);
    let k = m.source_order(r);
    lemma_source_block(m, r);
    lemma_source_order(m, r);
    lemma_after_alloc_wf(m, r);
    lemma_block_pages_step(r);
    if r < k {
        lemma_block_pages_grows(r, k);
    }
    assert(m.in_range(p));
    lemma_after_alloc_at(m, r, p);
    assert(n.is_head(p) && n.order_at(p) == r && n.refs_at(p) == 1);
    assert forall|j: nat| r <= j < k implies n.merges(p, j) by {
        lemma_aligned_weaken(p, j, k);
        lemma_aligned_weaken(p, j + 1, k);
        lemma_head_at_aligned(p, j);
        lemma_buddy(p, j);
        let b = p + block_pages(j);
        assert(FrameModel::left_over(p, r, k, b, j));
        lemma_left_over(p, r, k, b, j);
        assert(m.in_range(b));
        lemma_after_alloc_at(m, r, b);
    }
    lemma_head_at_aligned(p, k);
    if n.merges(p, k) {
        lemma_buddy(p, k);
        let b = buddy_of(p, k);
        assert(m.in_range(b));
        lemma_after_alloc_at(m, r, b);
        assert(m.is_free(b, k));
        assert(m.is_free(p, k));
    }
    lemma_merged_order_is(n, p, r, k);
    let f = n.after_release(p);
    assert(f.states =~= m.states) by {
        assert forall|i: int| 0 <= i < m.states.len() implies f.states[i] == m.states[i] by {
            let q = m.base + i;
            assert(m.in_range(q));
            lemma_after_alloc_at(m, r, q);
            lemma_after_release_at(n, p, q);
            assert(m.at(q) == m.states[i]);
            assert(f.at(q) == f.states[i]);
        }
    }
    assert(f.free =~= m.free) by {
        assert forall|i: int| 0 <= i < m.free.len() implies f.free[i] == m.free[i] by {
            lemma_after_release_free(n, p, i as nat);
            if r <= i < k {
                let b = buddy_of(head_at(p, i as nat), i as nat);
                lemma_remove_value(n.free[i], b);
                assert(m.free[i].len() == 0);
                assert(f.free[i] =~= m.free[i]);
            } else if i == k {
                assert(f.free[i] =~= m.free[i]);
            }
        }
    }
}

/// A holder more and a holder fewer is no change.
pub proof fn law_share_then_free_restores(m: FrameModel, h: int)
    requires
        m.wf(),
        m.is_head(h),
        m.refs_at(h) < u32::MAX,
    ensures
        m.with_refs(h, (m.refs_at(h) + 1) as u32).wf(),
        m.with_refs(h, (m.refs_at(h) + 1) as u32).after_free(h) == m,
{
    let n = m.with_refs(h, (m.refs_at(h) + 1) as u32);
    lemma_with_refs_wf(m, h, (m.refs_at(h) + 1) as u32);
    assert(n.at(h) == n.states[h - m.base]);
    assert(n.after_free(h).states =~= m.states);
}

/// No page is lost and none is made up: what is free and what is allocated
/// stay the same number of pages together.
pub proof fn law_pages_are_conserved(m: FrameModel, r: nat, h: int)
    requires
        m.wf(),
    ensures
        r <= MAX_ORDER && m.can_alloc(r) ==> m.after_alloc(r).free_pages() + m.after_alloc(
            r,
        ).allocated_pages() == m.free_pages() + m.allocated_pages(),
        m.is_head(h) ==> m.after_free(h).free_pages() + m.after_free(h).allocated_pages()
            == m.free_pages() + m.allocated_pages(),
{
    if r <= MAX_ORDER && m.can_alloc(r) {
        law_alloc_takes_its_pages(m, r);
    }
    if m.is_head(h) {
        assert(m.block_fits(h, m.order_at(h)));
        if m.refs_at(h) > 1 {
            lemma_with_refs_wf(m, h, (m.refs_at(h) - 1) as u32);
        } else {
            law_release_returns_its_pages(m, h);
        }
    }
}

/// Counts of pages are not negative.
pub proof fn lemma_pages_below_nonneg(free: Seq<Seq<int>>, n: nat)
    requires
        n <= MAX_ORDER + 1,
    ensures
        pages_below(free, n) >= 0,
    decreases n,
{
    if n > 0 {
        lemma_pages_below_nonneg(free, (n - 1) as nat);
        lemma_block_pages_step((n - 1) as nat);
        let len = free[n - 1].len();
        let size = block_pages((n - 1) as nat);
        assert(len * size >= 0) by (nonlinear_arith)
            requires
                len >= 0,
                size >= 0,
        ;
    }
}

/// A count of pages is not negative.
pub proof fn lemma_allocated_below_nonneg(states: Seq<FrameState>, n: nat)
    ensures
        allocated_below(states, n) >= 0,
    decreases n,
{
    if n > 0 {
        lemma_allocated_below_nonneg(states, (n - 1) as nat);
    }
}

/// Changing the number of holders keeps the bookkeeping consistent.
pub proof fn lemma_with_refs_wf(m: FrameModel, h: int, ref_count: u32)
    requires
        m.wf(),
        m.is_head(h),
        ref_count >= 1,
    ensures
        m.with_refs(h, ref_count).wf(),
        m.with_refs(h, ref_count).free_pages() == m.free_pages(),
        m.with_refs(h, ref_count).allocated_pages() == m.allocated_pages(),
        m.with_refs(h, ref_count).is_head(h),
        m.with_refs(h, ref_count).order_at(h) == m.order_at(h),
        m.with_refs(h, ref_count).refs_at(h) == ref_count,
        forall|q: int| q != h && m.in_range(q) ==> #[trigger] m.with_refs(h, ref_count).at(q) == m.at(q),
{
    let n = m.with_refs(h, ref_count);
    assert(n.at(h) == n.states[h - m.base]);
    assert(m.at(h) == m.states[h - m.base]);
    lemma_allocated_below(m.states, n.states, 0, 0, m.states.len());
    assert forall|q: int| q != h && m.in_range(q) implies #[trigger] n.at(q) == m.at(q) by {}
    assert forall|q: int| #[trigger] n.in_range(q) == m.in_range(q) by {}
    assert forall|p: int, k: nat| #[trigger] n.is_free(p, k) == m.is_free(p, k) by {
        assert(n.in_range(p) == m.in_range(p));
    }
    assert forall|p: int| #[trigger] n.is_head(p) == m.is_head(p) by {
        assert(n.in_range(p) == m.in_range(p));
    }
    assert(n.lists_hold_free());
    assert forall|p: int| #[trigger] n.in_range(p) && n.at(p) is Free implies {
        let k = n.at(p)->Free_order as nat;
        &&& n.block_fits(p, k)
        &&& n.free[k as int].contains(p)
        &&& forall|q: int| #![trigger n.at(q)] p < q < p + block_pages(k) ==> n.at(q) is Uninitialized
    } by {
        assert(m.in_range(p));
        let k = m.at(p)->Free_order as nat;
        assert forall|q: int| #![trigger n.at(q)] p < q < p + block_pages(k) implies n.at(
            q,
        ) is Uninitialized by {
            assert(m.in_range(q));
            assert(m.at(q) is Uninitialized);
        }
    }
    assert forall|p: int| #[trigger] n.is_head(p) implies {
        &&& n.block_fits(p, n.order_at(p))
        &&& n.refs_at(p) >= 1
        &&& forall|q: int|
            #![trigger n.at(q)]
            p < q < p + block_pages(n.order_at(p)) ==> n.at(q) == FrameModel::fresh_state(p, 0, q)
    } by {
        assert(m.is_head(p));
        assert forall|q: int| #![trigger n.at(q)] p < q < p + block_pages(n.order_at(p)) implies n.at(q)
            == FrameModel::fresh_state(p, 0, q) by {
            assert(m.in_range(q));
            assert(m.at(q) is AllocatedTail);
        }
    }
    assert(n.heads_wf());
    assert forall|q: int| #[trigger] n.in_range(q) && n.at(q) is AllocatedTail implies n.in_block_of(
        q,
        n.at(q)->AllocatedTail_0.head.n as int,
    ) && n.at(q)->AllocatedTail_0.head.n < q by {
        assert(m.in_range(q));
        assert(m.at(q) is AllocatedTail);
        let g = m.at(q)->AllocatedTail_0.head.n as int;
        assert(m.in_block_of(q, g));
        assert(m.is_head(g));
        assert(n.is_head(g));
    }
    assert(n.merged()) by {
        assert forall|p: int, k: nat|
            #![trigger n.is_free(p, k)]
            k < MAX_ORDER && n.is_free(p, k) implies !n.is_free(buddy_of(p, k), k) by {
            assert(m.is_free(p, k));
        }
    }
}

} // verus!
