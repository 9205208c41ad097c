//! What the frame allocator does not touch.
use crate::memory::buddy::{
    block_pages, buddy_of, head_at, lemma_block_pages_grows, lemma_block_pages_step, lemma_buddy,
    lemma_head_at_aligned, lemma_head_at_step, MAX_ORDER,
};
use crate::memory::laws::{law_alloc_is_fresh, lemma_with_refs_wf};
use crate::memory::model::FrameModel;
use crate::memory::model_proofs::{
    lemma_absorbed_inside, lemma_after_alloc_at, lemma_after_release_at, lemma_free_outside,
    lemma_grown_block, lemma_grown_block_content, lemma_merged_order, lemma_source_block,
    lemma_source_order,
};
use vstd::prelude::*;

verus! {

/// A page past the lowest part of a split block lies in one of the parts that
/// are left over. The result is that part's order.
proof fn lemma_left_over_holds(p: int, r: nat, k: nat, q: int) -> (j: nat)
    requires
        r <= k <= MAX_ORDER,
        p + block_pages(r) <= q < p + block_pages(k),
    ensures
        r <= j < k,
        p + block_pages(j) <= q < p + block_pages(j) + block_pages(j),
    decreases k - r,
{
    lemma_block_pages_step(r);
    if q < p + 2 * block_pages(r) {
        r
    } else {
        lemma_left_over_holds(p, r + 1, k, q)
    }
}

/// A page of the block that a freed block grows to lies in the freed block or
/// in a buddy that was absorbed. The result is the order of that buddy, or
/// the order that was grown to.
proof fn lemma_grown_block_holds(m: FrameModel, h: int, t: nat, q: int) -> (j: nat)
    requires
        m.wf(),
        m.is_head(h),
        m.order_at(h) <= t <= MAX_ORDER,
        forall|i: nat| m.order_at(h) <= i < t ==> m.merges(h, i),
        head_at(h, t) <= q < head_at(h, t) + block_pages(t),
    ensures
        m.order_at(h) <= j <= t,
        j == t ==> m.in_block_of(q, h),
        j < t ==> {
            let b = buddy_of(head_at(h, j), j);
            &&& m.is_free(b, j)
            &&& b <= q < b + block_pages(j)
        },
    decreases t,
{
    let o = m.order_at(h);
    assert(m.block_fits(h, o));
    lemma_head_at_aligned(h, o);
    if o == t {
        t
    } else {
        let u = (t - 1) as nat;
        lemma_head_at_step(h, u);
        lemma_buddy(head_at(h, u), u);
        lemma_block_pages_step(u);
        assert(m.merges(h, u));
        if head_at(h, u) <= q < head_at(h, u) + block_pages(u) {
            let j = lemma_grown_block_holds(m, h, u, q);
            if j == u {
                t
            } else {
                j
            }
        } else {
            u
        }
    }
}

/// What the allocator can hand out or has handed out stays the same memory:
/// an allocation neither adds to it nor takes from it.
pub proof fn law_alloc_keeps_usable_pages(m: FrameModel, r: nat, q: int)
    requires
        m.wf(),
        r <= MAX_ORDER,
        m.can_alloc(r),
    ensures
        m.after_alloc(r).usable(q) <==> m.usable(q),
{
    let n = m.after_alloc(r);
    let k = m.source_order(r);
    let p = m.source_block(r);
    lemma_source_block(m, r);
    lemma_source_order(m, r);
    lemma_block_pages_step(r);
    lemma_block_pages_step(k);
    if r < k {
        lemma_block_pages_grows(r, k);
    }
    if m.allocated(q) {
        law_alloc_is_fresh(m, r, q);
    }
    if p <= q < p + block_pages(k) {
        assert(m.is_free(p, k));
        if q < p + block_pages(r) {
            lemma_after_alloc_at(m, r, p);
            assert(n.in_block_of(q, p));
        } else {
            let j = lemma_left_over_holds(p, r, k, q);
            lemma_block_pages_grows(j, k);
            lemma_block_pages_step(j);
            assert(FrameModel::left_over(p, r, k, p + block_pages(j), j));
            lemma_after_alloc_at(m, r, p + block_pages(j));
            assert(n.is_free(p + block_pages(j), j));
        }
    } else {
        if m.in_free_block(q) {
            let (a, b) = choose|a: int, b: nat| #[trigger]
                m.is_free(a, b) && a <= q < a + block_pages(b);
            if a != p {
                lemma_free_outside(m, p, k, a);
            }
            lemma_after_alloc_at(m, r, a);
            assert(n.is_free(a, b));
        }
        if n.allocated(q) {
            let a = choose|a: int| n.in_block_of(q, a);
            lemma_after_alloc_at(m, r, a);
            assert(m.in_block_of(q, a));
        }
        if n.in_free_block(q) {
            let (a, b) = choose|a: int, b: nat| #[trigger]
                n.is_free(a, b) && a <= q < a + block_pages(b);
            lemma_after_alloc_at(m, r, a);
            if p <= a < p + block_pages(k) {
                let j = choose|j: nat| FrameModel::left_over(p, r, k, a, j);
                lemma_block_pages_grows(j, k);
            } else {
                assert(m.is_free(a, b));
            }
        }
    }
}

/// What the allocator can hand out or has handed out stays the same memory
/// when a holder lets go of a block.
pub proof fn law_free_keeps_usable_pages(m: FrameModel, h: int, q: int)
    requires
        m.wf(),
        m.is_head(h),
    ensures
        m.after_free(h).usable(q) <==> m.usable(q),
{
    if m.refs_at(h) > 1 {
        lemma_refs_keep_usable_pages(m, h, (m.refs_at(h) - 1) as u32, q);
    } else {
        lemma_release_keeps_usable_pages(m, h, q);
    }
}

/// Changing the number of holders moves no page.
proof fn lemma_refs_keep_usable_pages(m: FrameModel, h: int, refs: u32, q: int)
    requires
        m.wf(),
        m.is_head(h),
        refs >= 1,
    ensures
        m.with_refs(h, refs).usable(q) <==> m.usable(q),
{
    let n = m.with_refs(h, refs);
    lemma_with_refs_wf(m, h, refs);
    if m.allocated(q) {
        let a = choose|a: int| m.in_block_of(q, a);
        assert(n.in_block_of(q, a));
    }
    if n.allocated(q) {
        let a = choose|a: int| n.in_block_of(q, a);
        assert(m.in_range(a));
        assert(m.in_block_of(q, a));
    }
    if m.in_free_block(q) {
        let (a, b) = choose|a: int, b: nat| #[trigger]
            m.is_free(a, b) && a <= q < a + block_pages(b);
        assert(n.is_free(a, b));
    }
    if n.in_free_block(q) {
        let (a, b) = choose|a: int, b: nat| #[trigger]
            n.is_free(a, b) && a <= q < a + block_pages(b);
        assert(m.in_range(a));
        assert(m.is_free(a, b));
    }
}

/// Merging a block moves no page.
proof fn lemma_release_keeps_usable_pages(m: FrameModel, h: int, q: int)
    requires
        m.wf(),
        m.is_head(h),
    ensures
        m.after_release(h).usable(q) <==> m.usable(q),
{
    let n = m.after_release(h);
    let o = m.order_at(h);
    let t = m.merged_order(h, o);
    let p = head_at(h, t);
    assert(m.block_fits(h, o));
    lemma_merged_order(m, h, o);
    lemma_grown_block(m, h, t);
    lemma_absorbed_inside(h, o, t);
    lemma_block_pages_step(t);
    if p <= q < p + block_pages(t) {
        lemma_after_release_at(m, h, p);
        assert(n.is_free(p, t));
        let j = lemma_grown_block_holds(m, h, t, q);
        if j < t {
            assert(m.is_free(buddy_of(head_at(h, j), j), j));
        }
    } else {
        if m.allocated(q) {
            let a = choose|a: int| m.in_block_of(q, a);
            lemma_after_release_at(m, h, a);
            if p <= a < p + block_pages(t) {
                lemma_grown_block_content(m, h, a);
            }
            assert(n.in_block_of(q, a));
        }
        if m.in_free_block(q) {
            let (a, b) = choose|a: int, b: nat| #[trigger]
                m.is_free(a, b) && a <= q < a + block_pages(b);
            lemma_after_release_at(m, h, a);
            if p <= a < p + block_pages(t) {
                lemma_grown_block_content(m, h, a);
            }
            assert(n.is_free(a, b));
        }
        if n.allocated(q) {
            let a = choose|a: int| n.in_block_of(q, a);
            lemma_after_release_at(m, h, a);
            assert(m.in_block_of(q, a));
        }
        if n.in_free_block(q) {
            let (a, b) = choose|a: int, b: nat| #[trigger]
                n.is_free(a, b) && a <= q < a + block_pages(b);
            lemma_after_release_at(m, h, a);
            assert(m.is_free(a, b));
        }
    }
}

/// Pages that belong to the kernel or to the hardware are never touched.
pub proof fn law_reserved_pages_are_untouched(m: FrameModel, r: nat, h: int, q: int)
    requires
        m.wf(),
        m.in_range(q),
        m.at(q) is Kernel || m.at(q) is Reserved,
    ensures
        r <= MAX_ORDER && m.can_alloc(r) ==> m.after_alloc(r).at(q) == m.at(q),
        m.is_head(h) ==> m.after_free(h).at(q) == m.at(q),
{
    if r <= MAX_ORDER && m.can_alloc(r) {
        lemma_source_block(m, r);
        lemma_source_order(m, r);
        lemma_after_alloc_at(m, r, q);
    }
    if m.is_head(h) {
        let o = m.order_at(h);
        let t = m.merged_order(h, o);
        assert(m.block_fits(h, o));
        if m.refs_at(h) > 1 {
            lemma_with_refs_wf(m, h, (m.refs_at(h) - 1) as u32);
        } else {
            lemma_merged_order(m, h, o);
            lemma_after_release_at(m, h, q);
            if head_at(h, t) <= q < head_at(h, t) + block_pages(t) {
                let j = lemma_grown_block_holds(m, h, t, q);
                if j < t {
                    let b = buddy_of(head_at(h, j), j);
                    assert(m.in_range(b));
                    assert(m.at(b) is Free);
                }
            }
        }
    }
}

} // verus!
