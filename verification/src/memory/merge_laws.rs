//! That nothing stays in pieces: once everything was given back, the free
//! blocks are those of a fresh allocator.
use crate::memory::address::PhysMemoryRegion;
use crate::memory::buddy::{
    aligned, block_pages, buddy_of, head_at, lemma_block_pages,
    lemma_block_pages_step, lemma_buddy, MAX_ORDER,
};
use crate::memory::init::{is_fresh, lemma_fresh_wf, lemma_pages_below_empty};
use crate::memory::laws::law_blocks_disjoint;
use crate::memory::model::FrameModel;
use crate::memory::model_proofs::lemma_absorbed_inside;
use crate::memory::page::PAGE_SIZE;
use crate::memory::smalloc::Smalloc;
use vstd::prelude::*;

verus! {

/// Two aligned blocks of one order that share a page are one block.
proof fn lemma_same_block(a: int, b: int, k: nat, q: int)
    requires
        k <= MAX_ORDER,
        aligned(a, k),
        aligned(b, k),
        a <= q < a + block_pages(k),
        b <= q < b + block_pages(k),
    ensures
        a == b,
{
    lemma_block_pages_step(k);
    let s = block_pages(k);
    vstd::arithmetic::div_mod::lemma_fundamental_div_mod(a, s);
    vstd::arithmetic::div_mod::lemma_fundamental_div_mod(b, s);
    let x = a / s;
    let y = b / s;
    assert(x == y) by (nonlinear_arith)
        requires
            a == s * x,
            b == s * y,
            -s < a - b < s,
            s > 0,
    ;
}

/// Where every page of an aligned block of the largest order is free, no
/// smaller block is free in it.
proof fn lemma_no_pieces(m: FrameModel, whole: int, p: int, k: nat)
    requires
        m.wf(),
        aligned(whole, MAX_ORDER as nat),
        forall|q: int| whole <= q < whole + block_pages(MAX_ORDER as nat) ==> #[trigger]
            m.in_free_block(q),
        whole <= p < whole + block_pages(MAX_ORDER as nat),
        k < MAX_ORDER,
    ensures
        !m.is_free(p, k),
    decreases k,
{
    if m.is_free(p, k) {
        let top = MAX_ORDER as nat;
        let b = buddy_of(p, k);
        assert(m.block_fits(p, k));
        lemma_buddy(p, k);
        lemma_block_pages_step(k);
        // The two buddies lie in the whole block.
        let pair = head_at(p, k + 1);
        assert(aligned(pair, k + 1));
        lemma_absorbed_inside(pair, k + 1, top);
        lemma_block_pages_step(k + 1);
        let around = head_at(pair, top);
        assert(aligned(around, top));
        lemma_same_block(whole, around, top, p);
        assert(m.in_free_block(b));
        let (h, j) = choose|h: int, j: nat| #[trigger]
            m.is_free(h, j) && h <= b < h + block_pages(j);
        assert(m.block_fits(h, j));
        if j < k {
            lemma_absorbed_inside(h, j, top);
            assert(aligned(head_at(h, top), top));
            lemma_same_block(whole, head_at(h, top), top, b);
            lemma_no_pieces(m, whole, h, j);
        } else if j == k {
            lemma_same_block(h, b, k, b);
        } else {
            lemma_absorbed_inside(pair, k + 1, j);
            assert(aligned(head_at(pair, j), j));
            lemma_same_block(h, head_at(pair, j), j, b);
            law_blocks_disjoint(m, h, p, p);
        }
    }
}

/// What one allocator has as a free block of the largest order, another that
/// has no page allocated, and no others to hand out, has too.
proof fn lemma_whole_is_free(m: FrameModel, fresh: FrameModel, whole: int)
    requires
        m.wf(),
        fresh.wf(),
        fresh.is_free(whole, MAX_ORDER as nat),
        forall|q: int| !#[trigger] m.allocated(q),
        forall|q: int| #[trigger] m.usable(q) <==> fresh.usable(q),
    ensures
        m.is_free(whole, MAX_ORDER as nat),
        forall|p: int, k: nat|
            whole <= p < whole + block_pages(MAX_ORDER as nat) && #[trigger] m.is_free(p, k)
                ==> p == whole && k == MAX_ORDER,
{
    let top = MAX_ORDER as nat;
    assert(fresh.block_fits(whole, top));
    lemma_block_pages();
    assert forall|q: int| whole <= q < whole + block_pages(top) implies #[trigger] m.in_free_block(
        q,
    ) by {
        assert(fresh.in_free_block(q));
        assert(fresh.usable(q));
        assert(m.usable(q));
        assert(!m.allocated(q));
    }
    assert forall|p: int, k: nat|
        whole <= p < whole + block_pages(top) && #[trigger] m.is_free(p, k) implies p == whole && k
        == MAX_ORDER by {
        if k < MAX_ORDER {
            lemma_no_pieces(m, whole, p, k);
        }
        assert(m.block_fits(p, k));
        lemma_same_block(whole, p, top, p);
    }
    assert(m.in_free_block(whole));
    let (h, j) = choose|h: int, j: nat| #[trigger]
        m.is_free(h, j) && h <= whole < h + block_pages(j);
    assert(m.block_fits(h, j));
    lemma_absorbed_inside(h, j, top);
    lemma_same_block(whole, head_at(h, top), top, whole);
}

/// Nothing stays in pieces. Once no page is allocated any more, the free
/// blocks are those that the allocator had when it was brought up, whatever
/// was allocated and given back in between and in whatever order; none is
/// smaller than the largest order.
pub proof fn law_all_given_back_is_whole(
    m: FrameModel,
    fresh: FrameModel,
    s: &Smalloc,
    res: Seq<PhysMemoryRegion>,
)
    requires
        s.wf(),
        s.memory@.len() > 0,
        fresh.base == s.lowest() / PAGE_SIZE as int,
        fresh.states.len() == s.page_count(),
        s.table_suffices(res),
        is_fresh(fresh, s.memory@, res),
        m.wf(),
        forall|q: int| !#[trigger] m.allocated(q),
        forall|q: int| #[trigger] m.usable(q) <==> fresh.usable(q),
    ensures
        forall|p: int, k: nat| #[trigger] m.is_free(p, k) <==> fresh.is_free(p, k),
        forall|k: int| 0 <= k < MAX_ORDER ==> (#[trigger] m.free[k]).len() == 0,
        forall|p: int| #[trigger]
            m.free[MAX_ORDER as int].contains(p) <==> fresh.free[MAX_ORDER as int].contains(p),
        m.free_pages() == fresh.free_pages(),
{
    let top = MAX_ORDER as nat;
    lemma_fresh_wf(fresh, s, res);
    lemma_block_pages();
    assert forall|p: int, k: nat| #[trigger] m.is_free(p, k) <==> fresh.is_free(p, k) by {
        if fresh.is_free(p, k) {
            assert(fresh.in_range(p));
            lemma_whole_is_free(m, fresh, p);
        }
        if m.is_free(p, k) {
            lemma_block_pages_step(k);
            assert(m.in_free_block(p));
            assert(m.usable(p));
            assert(fresh.usable(p));
            if fresh.allocated(p) {
                let h = choose|h: int| fresh.in_block_of(p, h);
                assert(fresh.in_range(h));
            }
            let (h, j) = choose|h: int, j: nat| #[trigger]
                fresh.is_free(h, j) && h <= p < h + block_pages(j);
            assert(fresh.in_range(h));
            lemma_whole_is_free(m, fresh, h);
        }
    }
    assert forall|k: int| 0 <= k < MAX_ORDER implies (#[trigger] m.free[k]).len() == 0 by {
        if m.free[k].len() > 0 {
            let p = m.free[k][0];
            assert(m.is_free(p, k as nat));
            assert(fresh.in_range(p));
        }
    }
    let mine = m.free[MAX_ORDER as int];
    let theirs = fresh.free[MAX_ORDER as int];
    assert forall|p: int| #[trigger] mine.contains(p) <==> theirs.contains(p) by {
        if mine.contains(p) {
            let i = choose|i: int| 0 <= i < mine.len() && mine[i] == p;
            assert(m.is_free(m.free[MAX_ORDER as int][i], top));
            assert(fresh.in_range(p));
        }
        if theirs.contains(p) {
            let i = choose|i: int| 0 <= i < theirs.len() && theirs[i] == p;
            assert(fresh.is_free(fresh.free[MAX_ORDER as int][i], top));
            assert(m.is_free(p, top));
            assert(m.in_range(p));
        }
    }
    assert(mine.to_set() =~= theirs.to_set());
    mine.unique_seq_to_set();
    theirs.unique_seq_to_set();
    lemma_pages_below_empty(m.free, top);
    lemma_pages_below_empty(fresh.free, top);
}

} // verus!
