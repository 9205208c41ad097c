//! Why the frame allocator's operations keep its bookkeeping consistent.
use crate::memory::buddy::{
    aligned, block_pages, buddy_of, head_at, lemma_aligned_weaken, lemma_block_pages_grows,
    lemma_block_pages_injective, lemma_block_pages_step, lemma_buddy, lemma_head_at_aligned,
    lemma_head_at_step, MAX_ORDER,
};
use crate::memory::frame::FrameState;
use crate::memory::model::FrameModel;
use vstd::prelude::*;

verus! {

/// The source order of an allocation has a free block whenever any order
/// that serves has one, and no order before it has.
pub proof fn lemma_source_order(m: FrameModel, r: nat)
    requires
        m.wf(),
        r <= MAX_ORDER,
    ensures
        r <= m.source_order(r) <= MAX_ORDER,
        m.can_alloc(r) <==> m.free[m.source_order(r) as int].len() > 0,
        forall|j: int| r <= j < m.source_order(r) ==> (#[trigger] m.free[j]).len() == 0,
    decreases MAX_ORDER - r,
{
    if r < MAX_ORDER && m.free[r as int].len() == 0 {
        lemma_source_order(m, r + 1);
        if m.can_alloc(r) {
            let k = choose|k: int| r <= k <= MAX_ORDER && (#[trigger] m.free[k]).len() > 0;
            assert(r + 1 <= k);
        }
    } else if m.free[r as int].len() > 0 {
    } else {
        assert(r == MAX_ORDER);
    }
}

/// The part of order `j` that is left over by a split names its order.
pub proof fn lemma_left_over(p: int, r: nat, k: nat, q: int, j: nat)
    requires
        k <= MAX_ORDER,
        FrameModel::left_over(p, r, k, q, j),
    ensures
        forall|i: nat| FrameModel::left_over(p, r, k, q, i) ==> i == j,
        (choose|i: nat| FrameModel::left_over(p, r, k, q, i)) == j,
        block_pages(r) <= q - p,
        2 * (q - p) <= block_pages(k),
{
    assert forall|i: nat| FrameModel::left_over(p, r, k, q, i) implies i == j by {
        lemma_block_pages_injective(i, j);
    }
    if r < j {
        lemma_block_pages_grows(r, j);
        lemma_block_pages_step(r);
    }
    lemma_block_pages_grows(j, k);
}

/// The block that an allocation is cut from is free and fits.
pub proof fn lemma_source_block(m: FrameModel, r: nat)
    requires
        m.wf(),
        r <= MAX_ORDER,
        m.can_alloc(r),
    ensures
        m.is_free(m.source_block(r), m.source_order(r)),
        m.block_fits(m.source_block(r), m.source_order(r)),
        m.block_fits(m.source_block(r), r),
        forall|q: int|
            #![trigger m.at(q)]
            m.source_block(r) < q < m.source_block(r) + block_pages(m.source_order(r)) ==> m.at(
                q,
            ) is Uninitialized,
{
    lemma_source_order(m, r);
    let k = m.source_order(r);
    let p = m.source_block(r);
    assert(m.is_free(m.free[k as int][0], k));
    assert(m.in_range(p));
    lemma_aligned_weaken(p, r, k);
    lemma_block_pages_step(r);
    if r < k {
        lemma_block_pages_grows(r, k);
    }
}

/// The states that an allocation leaves behind, page by page.
pub proof fn lemma_after_alloc_at(m: FrameModel, r: nat, q: int)
    requires
        m.wf(),
        r <= MAX_ORDER,
        m.can_alloc(r),
        m.in_range(q),
    ensures
        ({
            let n = m.after_alloc(r);
            let k = m.source_order(r);
            let p = m.source_block(r);
            &&& n.in_range(q)
            &&& p <= q < p + block_pages(r) ==> n.at(q) == FrameModel::fresh_state(p, r, q)
            &&& !(p <= q < p + block_pages(k)) ==> n.at(q) == m.at(q)
            &&& p + block_pages(r) <= q < p + block_pages(k) ==> n.at(q) is Uninitialized
                || exists|j: nat| FrameModel::left_over(p, r, k, q, j)
            &&& forall|j: nat|
                FrameModel::left_over(p, r, k, q, j) ==> n.at(q) == (FrameState::Free {
                    order: j as u8,
                })
        }),
{
    let k = m.source_order(r);
    let p = m.source_block(r);
    lemma_source_block(m, r);
    lemma_source_order(m, r);
    lemma_block_pages_step(k);
    lemma_block_pages_step(r);
    let n = m.after_alloc(r);
    let _ = m.at(q);
    assert(m.base + (q - m.base) == q);
    assert forall|j: nat| FrameModel::left_over(p, r, k, q, j) implies m.after_alloc(r).at(q) == (
    FrameState::Free { order: j as u8 }) by {
        lemma_left_over(p, r, k, q, j);
    }
    if exists|j: nat| FrameModel::left_over(p, r, k, q, j) {
        let j = choose|j: nat| FrameModel::left_over(p, r, k, q, j);
        lemma_left_over(p, r, k, q, j);
    }
    if r < k {
        lemma_block_pages_grows(r, k);
    }
}

/// Free blocks other than the one an allocation takes lie outside of it.
pub proof fn lemma_free_outside(m: FrameModel, p: int, k: nat, q: int)
    requires
        m.wf(),
        m.is_free(p, k),
        m.in_range(q),
        !(m.at(q) is Uninitialized),
        q != p,
    ensures
        !(p <= q < p + block_pages(k)),
{
    assert(m.in_range(p));
}

/// An allocation keeps the bookkeeping consistent.
pub proof fn lemma_after_alloc_wf(m: FrameModel, r: nat)
    requires
        m.wf(),
        r <= MAX_ORDER,
        m.can_alloc(r),
    ensures
        m.after_alloc(r).wf(),
{
    let n = m.after_alloc(r);
    let k = m.source_order(r);
    let p = m.source_block(r);
    lemma_source_block(m, r);
    lemma_source_order(m, r);
    lemma_block_pages_step(k);
    lemma_block_pages_step(r);
    if r < k {
        lemma_block_pages_grows(r, k);
    }
    assert(m.in_range(p));
    lemma_after_alloc_at(m, r, p);
    assert forall|j: int, i: int|
        #![trigger n.free[j][i]]
        0 <= j <= MAX_ORDER && 0 <= i < n.free[j].len() implies n.is_free(n.free[j][i], j as nat) by {
        let e = n.free[j][i];
        if r <= j < k {
            assert(m.free[j].len() == 0);
            assert(i == 0);
            assert(e == p + block_pages(j as nat));
            assert(FrameModel::left_over(p, r, k, e, j as nat));
            lemma_left_over(p, r, k, e, j as nat);
            lemma_after_alloc_at(m, r, e);
        } else if j == k {
            assert(e == m.free[j][i + 1]);
            assert(m.is_free(m.free[j][i + 1], k));
            assert(m.free[j].no_duplicates());
            assert(e != m.free[j][0]);
            lemma_free_outside(m, p, k, e);
            lemma_after_alloc_at(m, r, e);
        } else {
            assert(e == m.free[j][i]);
            assert(m.is_free(m.free[j][i], j as nat));
            assert(m.in_range(e));
            if e == p {
                assert(j as u8 == k as u8);
            }
            lemma_free_outside(m, p, k, e);
            lemma_after_alloc_at(m, r, e);
        }
    }
    assert forall|j: int| #![trigger n.free[j]] 0 <= j <= MAX_ORDER implies n.free[j].no_duplicates() by {
        assert(m.free[j].no_duplicates());
        if r <= j < k {
            assert(m.free[j].len() == 0);
        }
    }
    assert(n.lists_hold_free());
    assert forall|q: int| #[trigger] n.in_range(q) && n.at(q) is Free implies {
        let kq = n.at(q)->Free_order as nat;
        &&& n.block_fits(q, kq)
        &&& n.free[kq as int].contains(q)
        &&& forall|x: int| #![trigger n.at(x)] q < x < q + block_pages(kq) ==> n.at(x) is Uninitialized
    } by {
        assert(m.in_range(q));
        lemma_after_alloc_at(m, r, q);
        if exists|j: nat| FrameModel::left_over(p, r, k, q, j) {
            let j = choose|j: nat| FrameModel::left_over(p, r, k, q, j);
            lemma_left_over(p, r, k, q, j);
            lemma_aligned_weaken(p, j, k);
            assert(n.free[j as int][0] == q);
            assert forall|x: int| #![trigger n.at(x)] q < x < q + block_pages(j) implies n.at(
                x,
            ) is Uninitialized by {
                assert(m.in_range(x));
                lemma_after_alloc_at(m, r, x);
                if exists|i: nat| FrameModel::left_over(p, r, k, x, i) {
                    let i = choose|i: nat| FrameModel::left_over(p, r, k, x, i);
                    lemma_left_over(p, r, k, x, i);
                    if i < j {
                        lemma_block_pages_grows(i, j);
                        lemma_block_pages_step(i);
                    } else if j < i {
                        lemma_block_pages_grows(j, i);
                    }
                }
            }
        } else {
            assert(n.at(q) == m.at(q));
            assert(!(p <= q < p + block_pages(k)));
            let kq = m.at(q)->Free_order as nat;
            assert(m.free[kq as int].contains(q));
            let i = choose|i: int| 0 <= i < m.free[kq as int].len() && m.free[kq as int][i] == q;
            if kq == k {
                assert(i != 0);
                assert(n.free[kq as int][i - 1] == q);
            } else if r <= kq < k {
                assert(m.free[kq as int].len() == 0);
            } else {
                assert(n.free[kq as int][i] == q);
            }
            assert forall|x: int| #![trigger n.at(x)] q < x < q + block_pages(kq) implies n.at(
                x,
            ) is Uninitialized by {
                assert(m.block_fits(q, kq));
                assert(m.in_range(x));
                assert(m.at(x) is Uninitialized);
                if p <= x < p + block_pages(k) {
                    assert(q < p);
                    assert(m.at(p) is Uninitialized);
                }
                lemma_after_alloc_at(m, r, x);
            }
        }
    }
    assert(n.free_blocks_wf());
    assert forall|q: int| #[trigger] n.is_head(q) implies {
        &&& n.block_fits(q, n.order_at(q))
        &&& n.refs_at(q) >= 1
        &&& forall|x: int|
            #![trigger n.at(x)]
            q < x < q + block_pages(n.order_at(q)) ==> n.at(x) == FrameModel::fresh_state(q, 0, x)
    } by {
        assert(m.in_range(q));
        lemma_after_alloc_at(m, r, q);
        if p <= q < p + block_pages(k) {
            assert(q == p);
            assert forall|x: int| #![trigger n.at(x)] q < x < q + block_pages(r) implies n.at(x)
                == FrameModel::fresh_state(q, 0, x) by {
                assert(m.in_range(x));
                lemma_after_alloc_at(m, r, x);
            }
        } else {
            assert(m.is_head(q));
            assert forall|x: int|
                #![trigger n.at(x)]
                q < x < q + block_pages(n.order_at(q)) implies n.at(x) == FrameModel::fresh_state(
                q,
                0,
                x,
            ) by {
                assert(m.in_range(x));
                assert(m.at(x) is AllocatedTail);
                lemma_free_outside(m, p, k, x);
                lemma_after_alloc_at(m, r, x);
            }
        }
    }
    assert(n.heads_wf());
    assert forall|q: int| #[trigger] n.in_range(q) && n.at(q) is AllocatedTail implies n.in_block_of(
        q,
        n.at(q)->AllocatedTail_0.head.n as int,
    ) && n.at(q)->AllocatedTail_0.head.n < q by {
        assert(m.in_range(q));
        lemma_after_alloc_at(m, r, q);
        if p <= q < p + block_pages(k) {
            assert(q < p + block_pages(r));
            assert(q != p);
        } else {
            let h = m.at(q)->AllocatedTail_0.head.n as int;
            assert(m.in_block_of(q, h));
            lemma_free_outside(m, p, k, h);
            lemma_after_alloc_at(m, r, h);
        }
    }
    assert(n.tails_wf());
    assert forall|q: int, j: nat|
        #![trigger n.is_free(q, j)]
        j < MAX_ORDER && n.is_free(q, j) implies !n.is_free(buddy_of(q, j), j) by {
        let b = buddy_of(q, j);
        assert(m.in_range(q));
        assert(n.in_range(q));
        lemma_buddy(q, j);
        if n.is_free(b, j) {
            assert(m.in_range(b));
            lemma_after_alloc_at(m, r, q);
            lemma_after_alloc_at(m, r, b);
            lemma_left_over_buddy(m, r, q, j);
            lemma_left_over_buddy(m, r, b, j);
            assert(m.is_free(q, j));
        }
    }
    assert(n.merged());
}

/// What an allocation leaves over of a block has the allocated part, or what
/// was split further, as its buddy.
proof fn lemma_left_over_buddy(m: FrameModel, r: nat, q: int, j: nat)
    requires
        m.wf(),
        r <= MAX_ORDER,
        m.can_alloc(r),
        j < MAX_ORDER,
        m.in_range(q),
        m.after_alloc(r).is_free(q, j),
    ensures
        m.is_free(q, j) || buddy_of(q, j) == m.source_block(r),
{
    let k = m.source_order(r);
    let p = m.source_block(r);
    lemma_source_block(m, r);
    lemma_source_order(m, r);
    lemma_after_alloc_at(m, r, q);
    if exists|i: nat| FrameModel::left_over(p, r, k, q, i) {
        let i = choose|i: nat| FrameModel::left_over(p, r, k, q, i);
        lemma_left_over(p, r, k, q, i);
        assert(i == j);
        lemma_aligned_weaken(p, j, k);
        lemma_aligned_weaken(p, j + 1, k);
        lemma_buddy(p, j);
        lemma_buddy(q, j);
    }
}

/// Taking a value out of a list that holds it once.
pub proof fn lemma_remove_value(s: Seq<int>, v: int)
    requires
        s.no_duplicates(),
        s.contains(v),
    ensures
        s.remove_value(v).len() == s.len() - 1,
        s.remove_value(v).no_duplicates(),
        forall|e: int| #[trigger] s.remove_value(v).contains(e) <==> s.contains(e) && e != v,
        forall|i: int| 0 <= i < s.len() && s[i] == v ==> s.remove_value(v) == #[trigger] s.remove(i),
{
    s.index_of_first_ensures(v);
    let i = s.index_of_first(v)->0;
    let t = s.remove(i);
    assert(s.remove_value(v) == t);
    assert forall|e: int| t.contains(e) implies s.contains(e) && e != v by {
        let j = choose|j: int| 0 <= j < t.len() && t[j] == e;
        if j < i {
            assert(s[j] == e);
        } else {
            assert(s[j + 1] == e);
        }
    }
    assert forall|e: int| s.contains(e) && e != v implies t.contains(e) by {
        let j = choose|j: int| 0 <= j < s.len() && s[j] == e;
        if j < i {
            assert(t[j] == e);
        } else {
            assert(t[j - 1] == e);
        }
    }
}

/// The order that a freed block grows to, and why it stops there.
pub proof fn lemma_merged_order(m: FrameModel, h: int, j: nat)
    requires
        j <= MAX_ORDER,
    ensures
        j <= m.merged_order(h, j) <= MAX_ORDER,
        forall|i: nat| j <= i < m.merged_order(h, j) ==> m.merges(h, i),
        !m.merges(h, m.merged_order(h, j)),
    decreases MAX_ORDER - j,
{
    if m.merges(h, j) {
        lemma_merged_order(m, h, j + 1);
    }
}

/// Growth stops at the first order that does not merge.
pub proof fn lemma_merged_order_is(m: FrameModel, h: int, j: nat, k: nat)
    requires
        j <= k <= MAX_ORDER,
        forall|i: nat| j <= i < k ==> m.merges(h, i),
        !m.merges(h, k),
    ensures
        m.merged_order(h, j) == k,
    decreases k - j,
{
    if j < k {
        assert(m.merges(h, j));
        lemma_merged_order_is(m, h, j + 1, k);
    }
}

/// The aligned blocks around a page contain one another, and the buddies
/// that complete them.
pub proof fn lemma_absorbed_inside(h: int, o: nat, t: nat)
    requires
        o <= t <= MAX_ORDER,
        h >= 0,
        aligned(h, o),
    ensures
        head_at(h, t) <= h,
        h + block_pages(o) <= head_at(h, t) + block_pages(t),
        aligned(head_at(h, t), t),
        head_at(h, t) >= 0,
        forall|q: int, j: nat|
            FrameModel::absorbed(h, o, t, q, j) ==> head_at(h, t) <= q && q + block_pages(j)
                <= head_at(h, t) + block_pages(t),
    decreases t,
{
    lemma_head_at_aligned(h, o);
    if o < t {
        let u = (t - 1) as nat;
        lemma_absorbed_inside(h, o, u);
        lemma_head_at_step(h, u);
        lemma_buddy(head_at(h, u), u);
        lemma_block_pages_step(u);
        assert forall|q: int, j: nat|
            FrameModel::absorbed(h, o, t, q, j) implies head_at(h, t) <= q && q + block_pages(j)
            <= head_at(h, t) + block_pages(t) by {
            if j < u {
                assert(FrameModel::absorbed(h, o, u, q, j));
            }
        }
    }
}

/// What lies in the block that a freed block grows to.
pub proof fn lemma_grown_block(m: FrameModel, h: int, t: nat)
    requires
        m.wf(),
        m.is_head(h),
        m.order_at(h) <= t <= MAX_ORDER,
        forall|i: nat| m.order_at(h) <= i < t ==> m.merges(h, i),
    ensures
        m.block_fits(head_at(h, t), t),
        head_at(h, t) == h || exists|j: nat|
            FrameModel::absorbed(h, m.order_at(h), t, head_at(h, t), j),
        forall|q: int|
            #![trigger m.at(q)]
            head_at(h, t) <= q < head_at(h, t) + block_pages(t) ==> {
                ||| h <= q < h + block_pages(m.order_at(h))
                ||| exists|j: nat| FrameModel::absorbed(h, m.order_at(h), t, q, j)
                ||| m.at(q) is Uninitialized
            },
    decreases t,
{
    let o = m.order_at(h);
    assert(m.block_fits(h, o));
    lemma_head_at_aligned(h, o);
    lemma_absorbed_inside(h, o, t);
    if o < t {
        let u = (t - 1) as nat;
        lemma_grown_block(m, h, u);
        lemma_absorbed_inside(h, o, u);
        lemma_head_at_step(h, u);
        lemma_buddy(head_at(h, u), u);
        lemma_block_pages_step(u);
        assert(m.merges(h, u));
        let b = buddy_of(head_at(h, u), u);
        assert(FrameModel::absorbed(h, o, t, b, u));
        assert(m.in_range(b));
        assert(m.block_fits(b, u));
        if head_at(h, t) == head_at(h, u) && head_at(h, t) != h {
            let j = choose|j: nat| FrameModel::absorbed(h, o, u, head_at(h, u), j);
            assert(FrameModel::absorbed(h, o, t, head_at(h, t), j));
        }
        assert forall|q: int|
            #![trigger m.at(q)]
            head_at(h, t) <= q < head_at(h, t) + block_pages(t) implies {
            ||| h <= q < h + block_pages(o)
            ||| exists|j: nat| FrameModel::absorbed(h, o, t, q, j)
            ||| m.at(q) is Uninitialized
        } by {
            if head_at(h, u) <= q < head_at(h, u) + block_pages(u) {
                if exists|j: nat| FrameModel::absorbed(h, o, u, q, j) {
                    let j = choose|j: nat| FrameModel::absorbed(h, o, u, q, j);
                    assert(FrameModel::absorbed(h, o, t, q, j));
                }
            }
        }
    }
}

/// The states that a release leaves behind: a free block, and around it
/// everything as it was.
pub proof fn lemma_after_release_at(m: FrameModel, h: int, q: int)
    requires
        m.wf(),
        m.is_head(h),
        m.in_range(q),
    ensures
        ({
            let n = m.after_release(h);
            let t = m.merged_order(h, m.order_at(h));
            let p = head_at(h, t);
            &&& n.in_range(q)
            &&& q == p ==> n.at(q) == (FrameState::Free { order: t as u8 })
            &&& p < q < p + block_pages(t) ==> n.at(q) is Uninitialized
            &&& !(p <= q < p + block_pages(t)) ==> n.at(q) == m.at(q)
        }),
{
    let o = m.order_at(h);
    let t = m.merged_order(h, o);
    assert(m.block_fits(h, o));
    lemma_merged_order(m, h, o);
    lemma_grown_block(m, h, t);
    lemma_absorbed_inside(h, o, t);
    assert(m.base + (q - m.base) == q);
    let _ = m.at(q);
    if exists|j: nat| FrameModel::absorbed(h, o, t, q, j) {
        let j = choose|j: nat| FrameModel::absorbed(h, o, t, q, j);
        lemma_block_pages_step(j);
    }
    lemma_block_pages_step(t);
    let p = head_at(h, t);
    assert(m.after_release(h).at(q) == (if q == p {
        FrameState::Free { order: t as u8 }
    } else {
        m.cleared_state(h, o, t, q)
    }));
}

/// What is in use inside the block that a freed block grows to belongs to
/// the freed block or is absorbed.
pub proof fn lemma_grown_block_content(m: FrameModel, h: int, q: int)
    requires
        m.wf(),
        m.is_head(h),
        m.in_range(q),
        head_at(h, m.merged_order(h, m.order_at(h))) <= q < head_at(
            h,
            m.merged_order(h, m.order_at(h)),
        ) + block_pages(m.merged_order(h, m.order_at(h))),
    ensures
        m.at(q) is AllocatedHead ==> q == h,
        m.at(q) is AllocatedTail ==> m.at(q)->AllocatedTail_0.head.n == h,
        m.at(q) is Free ==> FrameModel::absorbed(
            h,
            m.order_at(h),
            m.merged_order(h, m.order_at(h)),
            q,
            m.at(q)->Free_order as nat,
        ),
{
    let o = m.order_at(h);
    let t = m.merged_order(h, o);
    assert(m.block_fits(h, o));
    lemma_merged_order(m, h, o);
    lemma_grown_block(m, h, t);
    let _ = m.at(q);
    if h <= q < h + block_pages(o) {
    } else if exists|j: nat| FrameModel::absorbed(h, o, t, q, j) {
        let j = choose|j: nat| FrameModel::absorbed(h, o, t, q, j);
        assert(m.merges(h, j));
    }
}

/// The free lists that a release leaves behind.
pub proof fn lemma_after_release_free(m: FrameModel, h: int, j: nat)
    requires
        m.wf(),
        m.is_head(h),
        j <= MAX_ORDER,
    ensures
        ({
            let n = m.after_release(h);
            let o = m.order_at(h);
            let t = m.merged_order(h, o);
            let b = buddy_of(head_at(h, j), j);
            &&& n.free.len() == m.free.len()
            &&& o <= j < t ==> {
                &&& n.free[j as int] == m.free[j as int].remove_value(b)
                &&& m.free[j as int].no_duplicates()
                &&& m.free[j as int].contains(b)
            }
            &&& j == t ==> n.free[j as int] == seq![head_at(h, t)] + m.free[j as int]
            &&& !(o <= j <= t) ==> n.free[j as int] == m.free[j as int]
        }),
{
    let o = m.order_at(h);
    let t = m.merged_order(h, o);
    assert(m.block_fits(h, o));
    lemma_merged_order(m, h, o);
    assert(m.free[j as int].no_duplicates());
    if o <= j < t {
        assert(m.merges(h, j));
        assert(m.in_range(buddy_of(head_at(h, j), j)));
    }
}

/// Letting the last holder of a block go keeps the bookkeeping consistent.
pub proof fn lemma_after_release_wf(m: FrameModel, h: int)
    requires
        m.wf(),
        m.is_head(h),
    ensures
        m.after_release(h).wf(),
{
    let n = m.after_release(h);
    let o = m.order_at(h);
    let t = m.merged_order(h, o);
    let p = head_at(h, t);
    assert(m.block_fits(h, o));
    lemma_merged_order(m, h, o);
    lemma_grown_block(m, h, t);
    lemma_absorbed_inside(h, o, t);
    lemma_block_pages_step(t);
    assert(m.in_range(p));
    lemma_after_release_at(m, h, p);
    assert(!(m.at(p) is Uninitialized)) by {
        if p != h {
            let j = choose|j: nat| FrameModel::absorbed(h, o, t, p, j);
            assert(m.merges(h, j));
        }
    }
    assert forall|j: int, i: int|
        #![trigger n.free[j][i]]
        0 <= j <= MAX_ORDER && 0 <= i < n.free[j].len() implies n.is_free(n.free[j][i], j as nat) by {
        let e = n.free[j][i];
        lemma_after_release_free(m, h, j as nat);
        if j == t && i == 0 {
        } else {
            if o <= j < t {
                lemma_remove_value(m.free[j], buddy_of(head_at(h, j as nat), j as nat));
                assert(n.free[j].contains(e));
            } else if j == t {
                assert(e == m.free[j][i - 1]);
            }
            assert(m.free[j].contains(e));
            let x = choose|x: int| 0 <= x < m.free[j].len() && m.free[j][x] == e;
            assert(m.is_free(m.free[j][x], j as nat));
            lemma_after_release_at(m, h, e);
            if p <= e < p + block_pages(t) {
                lemma_grown_block_content(m, h, e);
                assert(FrameModel::absorbed(h, o, t, e, j as nat));
            }
        }
    }
    assert forall|j: int| #![trigger n.free[j]] 0 <= j <= MAX_ORDER implies n.free[j].no_duplicates() by {
        lemma_after_release_free(m, h, j as nat);
        assert(m.free[j].no_duplicates());
        if o <= j < t {
            lemma_remove_value(m.free[j], buddy_of(head_at(h, j as nat), j as nat));
        } else if j == t {
            assert forall|x: int| 0 <= x < m.free[j].len() implies m.free[j][x] != p by {
                assert(m.is_free(m.free[j][x], j as nat));
                if m.free[j][x] == p {
                    lemma_grown_block_content(m, h, p);
                }
            }
        }
    }
    assert(n.lists_hold_free());
    assert forall|q: int| #[trigger] n.in_range(q) && n.at(q) is Free implies {
        let kq = n.at(q)->Free_order as nat;
        &&& n.block_fits(q, kq)
        &&& n.free[kq as int].contains(q)
        &&& forall|x: int| #![trigger n.at(x)] q < x < q + block_pages(kq) ==> n.at(x) is Uninitialized
    } by {
        assert(m.in_range(q));
        lemma_after_release_at(m, h, q);
        if q == p {
            lemma_after_release_free(m, h, t);
            assert(n.free[t as int][0] == p);
            assert forall|x: int| #![trigger n.at(x)] q < x < q + block_pages(t) implies n.at(
                x,
            ) is Uninitialized by {
                assert(m.in_range(x));
                lemma_after_release_at(m, h, x);
            }
        } else {
            assert(!(p <= q < p + block_pages(t)));
            let kq = m.at(q)->Free_order as nat;
            assert(m.block_fits(q, kq));
            assert(m.free[kq as int].contains(q));
            lemma_after_release_free(m, h, kq);
            if o <= kq < t {
                let b = buddy_of(head_at(h, kq), kq);
                lemma_remove_value(m.free[kq as int], b);
                if q == b {
                    assert(FrameModel::absorbed(h, o, t, q, kq));
                    lemma_block_pages_step(kq);
                }
            } else if kq == t {
                let i = choose|i: int| 0 <= i < m.free[kq as int].len() && m.free[kq as int][i] == q;
                assert(n.free[kq as int][i + 1] == q);
            }
            assert forall|x: int| #![trigger n.at(x)] q < x < q + block_pages(kq) implies n.at(
                x,
            ) is Uninitialized by {
                assert(m.in_range(x));
                assert(m.at(x) is Uninitialized);
                lemma_after_release_at(m, h, x);
                let _ = m.at(p);
            }
        }
    }
    assert(n.free_blocks_wf());
    assert forall|q: int| #[trigger] n.is_head(q) implies {
        &&& n.block_fits(q, n.order_at(q))
        &&& n.refs_at(q) >= 1
        &&& forall|x: int|
            #![trigger n.at(x)]
            q < x < q + block_pages(n.order_at(q)) ==> n.at(x) == FrameModel::fresh_state(q, 0, x)
    } by {
        assert(m.in_range(q));
        lemma_after_release_at(m, h, q);
        assert(m.is_head(q));
        assert(q != h);
        assert forall|x: int|
            #![trigger n.at(x)]
            q < x < q + block_pages(n.order_at(q)) implies n.at(x) == FrameModel::fresh_state(
            q,
            0,
            x,
        ) by {
            assert(m.in_range(x));
            assert(m.at(x) is AllocatedTail);
            lemma_after_release_at(m, h, x);
            if p <= x < p + block_pages(t) {
                lemma_grown_block_content(m, h, x);
            }
        }
    }
    assert(n.heads_wf());
    assert forall|q: int| #[trigger] n.in_range(q) && n.at(q) is AllocatedTail implies n.in_block_of(
        q,
        n.at(q)->AllocatedTail_0.head.n as int,
    ) && n.at(q)->AllocatedTail_0.head.n < q by {
        assert(m.in_range(q));
        lemma_after_release_at(m, h, q);
        let g = m.at(q)->AllocatedTail_0.head.n as int;
        assert(m.in_block_of(q, g));
        lemma_after_release_at(m, h, g);
        if p <= g < p + block_pages(t) {
            lemma_grown_block_content(m, h, g);
        }
    }
    assert(n.tails_wf());
    assert forall|q: int, j: nat|
        #![trigger n.is_free(q, j)]
        j < MAX_ORDER && n.is_free(q, j) implies !n.is_free(buddy_of(q, j), j) by {
        let b = buddy_of(q, j);
        assert(n.in_range(q));
        assert(m.in_range(q));
        lemma_buddy(q, j);
        lemma_after_release_at(m, h, q);
        if n.is_free(b, j) {
            assert(m.in_range(b));
            lemma_after_release_at(m, h, b);
            if q == p {
                assert(m.is_free(b, j));
                assert(m.merges(h, t));
            } else if b == p {
                assert(m.is_free(q, j));
                assert(m.merges(h, t));
            } else {
                assert(m.is_free(q, j));
            }
        }
    }
    assert(n.merged());
}

} // verus!
