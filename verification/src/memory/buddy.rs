//! Arithmetic of naturally aligned power-of-two blocks and their buddies.
use vstd::arithmetic::power2::pow2;
use vstd::prelude::*;

verus! {

/// The largest order a block can have: `2^MAX_ORDER` pages.
pub const MAX_ORDER: usize = 10;

/// The number of pages in a block of the given order.
pub open spec fn block_pages(order: nat) -> int {
    pow2(order) as int
}

/// `pfn` is a multiple of the block size of `order`.
pub open spec fn aligned(pfn: int, order: nat) -> bool {
    pfn % block_pages(order) == 0
}

/// The first page of the naturally aligned block of `order` that holds `pfn`.
pub open spec fn head_at(pfn: int, order: nat) -> int {
    pfn - pfn % block_pages(order)
}

/// The neighbour with which the block of `order` at `pfn` forms a block of
/// the next order.
pub open spec fn buddy_of(pfn: int, order: nat) -> int {
    if (pfn / block_pages(order)) % 2 == 0 {
        pfn + block_pages(order)
    } else {
        pfn - block_pages(order)
    }
}

/// The block sizes of all orders in use.
pub proof fn lemma_block_pages()
    ensures
        block_pages(0) == 1,
        block_pages(1) == 2,
        block_pages(2) == 4,
        block_pages(3) == 8,
        block_pages(4) == 16,
        block_pages(5) == 32,
        block_pages(6) == 64,
        block_pages(7) == 128,
        block_pages(8) == 256,
        block_pages(9) == 512,
        block_pages(10) == 1024,
{
    vstd::arithmetic::power2::lemma2_to64();
}

/// A block of order `k + 1` is two blocks of order `k`, and sizes lie between
/// one page and the largest block.
pub proof fn lemma_block_pages_step(k: nat)
    requires
        k <= MAX_ORDER,
    ensures
        1 <= block_pages(k) <= 1024,
        k < MAX_ORDER ==> block_pages(k + 1) == 2 * block_pages(k),
{
    lemma_block_pages();
    if k == 0 {
    } else if k == 1 {
    } else if k == 2 {
    } else if k == 3 {
    } else if k == 4 {
    } else if k == 5 {
    } else if k == 6 {
    } else if k == 7 {
    } else if k == 8 {
    } else if k == 9 {
    } else {
    }
}

/// Block sizes grow strictly with the order.
pub proof fn lemma_block_pages_grows(j: nat, k: nat)
    requires
        j < k <= MAX_ORDER,
    ensures
        2 * block_pages(j) <= block_pages(k),
    decreases k - j,
{
    lemma_block_pages_step(j);
    if j + 1 < k {
        lemma_block_pages_grows(j + 1, k);
        lemma_block_pages_step(j + 1);
    }
}

/// Two orders with blocks of one size are one order.
pub proof fn lemma_block_pages_injective(j: nat, k: nat)
    requires
        j <= MAX_ORDER,
        k <= MAX_ORDER,
        block_pages(j) == block_pages(k),
    ensures
        j == k,
{
    if j < k {
        lemma_block_pages_grows(j, k);
        lemma_block_pages_step(j);
    } else if k < j {
        lemma_block_pages_grows(k, j);
        lemma_block_pages_step(k);
    }
}

/// Remainders of `q` whole blocks of `s` pages plus `r` more.
proof fn lemma_blocks_plus(q: int, s: int, r: int)
    requires
        0 <= r < s,
    ensures
        (q * s + r) % s == r,
        (q * s + r) / s == q,
{
    vstd::arithmetic::div_mod::lemma_fundamental_div_mod_converse(q * s + r, s, q, r);
}

/// How a block lies to its buddy: next to it, of the same size, equally
/// aligned, and with it exactly the block of the next order.
pub proof fn lemma_buddy(pfn: int, k: nat)
    requires
        k < MAX_ORDER,
        pfn >= 0,
        aligned(pfn, k),
    ensures
        aligned(buddy_of(pfn, k), k),
        buddy_of(pfn, k) >= 0,
        buddy_of(buddy_of(pfn, k), k) == pfn,
        buddy_of(pfn, k) == pfn + block_pages(k) || buddy_of(pfn, k) == pfn - block_pages(k),
        buddy_of(pfn, k) == pfn + block_pages(k) <==> aligned(pfn, k + 1),
        buddy_of(pfn, k) == pfn - block_pages(k) <==> aligned(buddy_of(pfn, k), k + 1),
        head_at(pfn, k + 1) == (if pfn <= buddy_of(pfn, k) {
            pfn
        } else {
            buddy_of(pfn, k)
        }),
{
    lemma_block_pages_step(k);
    let s = block_pages(k);
    let q = pfn / s;
    vstd::arithmetic::div_mod::lemma_fundamental_div_mod(pfn, s);
    assert(pfn == q * s) by (nonlinear_arith)
        requires
            pfn == s * q + 0,
    ;
    let t = q / 2;
    let b = buddy_of(pfn, k);
    if q % 2 == 0 {
        assert(pfn == t * (2 * s) + 0) by (nonlinear_arith)
            requires
                pfn == q * s,
                q == 2 * t,
        ;
        assert(b == (q + 1) * s + 0) by (nonlinear_arith)
            requires
                pfn == q * s,
                b == pfn + s,
        ;
        lemma_blocks_plus(t, 2 * s, 0);
        lemma_blocks_plus(t, 2 * s, s);
        lemma_blocks_plus(q + 1, s, 0);
    } else {
        assert(pfn == t * (2 * s) + s) by (nonlinear_arith)
            requires
                pfn == q * s,
                q == 2 * t + 1,
        ;
        assert(b == (q - 1) * s + 0) by (nonlinear_arith)
            requires
                pfn == q * s,
                b == pfn - s,
        ;
        assert(b >= 0) by (nonlinear_arith)
            requires
                b == (q - 1) * s + 0,
                q == 2 * t + 1,
                pfn == q * s,
                pfn >= 0,
                s > 0,
        ;
        lemma_blocks_plus(t, 2 * s, 0);
        lemma_blocks_plus(t, 2 * s, s);
        lemma_blocks_plus(q - 1, s, 0);
    }
}

/// Alignment to a larger order is alignment to every smaller one, also of
/// the page one smaller block further on.
pub proof fn lemma_aligned_weaken(pfn: int, j: nat, k: nat)
    requires
        j <= k <= MAX_ORDER,
        aligned(pfn, k),
    ensures
        aligned(pfn, j),
        aligned(pfn + block_pages(j), j),
    decreases k - j,
{
    lemma_block_pages_step(j);
    if j < k {
        let h = (k - 1) as nat;
        lemma_block_pages_step(h);
        let s = block_pages(h);
        let q = pfn / (2 * s);
        vstd::arithmetic::div_mod::lemma_fundamental_div_mod(pfn, 2 * s);
        assert(pfn == (2 * q) * s + 0) by (nonlinear_arith)
            requires
                pfn == (2 * s) * q + 0,
        ;
        lemma_blocks_plus(2 * q, s, 0);
        lemma_aligned_weaken(pfn, j, h);
    } else {
        vstd::arithmetic::div_mod::lemma_mod_add_multiples_vanish(pfn, block_pages(j));
    }
}

/// The aligned block around a page, one order up, is found through the
/// smaller block around it.
pub proof fn lemma_head_at_step(pfn: int, k: nat)
    requires
        k < MAX_ORDER,
        pfn >= 0,
    ensures
        head_at(head_at(pfn, k), k + 1) == head_at(pfn, k + 1),
        aligned(head_at(pfn, k), k),
        head_at(pfn, k) >= 0,
        head_at(pfn, k + 1) <= head_at(pfn, k) <= pfn < head_at(pfn, k) + block_pages(k) <= head_at(
            pfn,
            k + 1,
        ) + block_pages(k + 1),
{
    lemma_block_pages_step(k);
    let s = block_pages(k);
    let q = pfn / s;
    let r = pfn % s;
    let t = q / 2;
    vstd::arithmetic::div_mod::lemma_fundamental_div_mod(pfn, s);
    assert(pfn - r == q * s + 0) by (nonlinear_arith)
        requires
            pfn == s * q + r,
    ;
    assert(q * s >= 0) by (nonlinear_arith)
        requires
            pfn - r == q * s + 0,
            pfn >= 0,
            0 <= r < s,
    ;
    lemma_blocks_plus(q, s, 0);
    if q % 2 == 0 {
        assert(q * s == t * (2 * s) + 0) by (nonlinear_arith)
            requires
                q == 2 * t,
        ;
        lemma_blocks_plus(t, 2 * s, 0);
        lemma_blocks_plus(t, 2 * s, r);
    } else {
        assert(q * s == t * (2 * s) + s) by (nonlinear_arith)
            requires
                q == 2 * t + 1,
        ;
        lemma_blocks_plus(t, 2 * s, s);
        lemma_blocks_plus(t, 2 * s, s + r);
    }
}

/// An aligned page is the head of its own block.
pub proof fn lemma_head_at_aligned(pfn: int, k: nat)
    requires
        k <= MAX_ORDER,
        aligned(pfn, k),
    ensures
        head_at(pfn, k) == pfn,
{
}

/// Flipping one bit moves to the buddy.
pub proof fn lemma_flip_is_buddy(pfn: usize, order: usize)
    requires
        order < MAX_ORDER,
    ensures
        pfn ^ (1usize << order) == buddy_of(pfn as int, order as nat),
{
    let bit: usize = 1usize << order;
    let above: usize = pfn >> order;
    assert((pfn & bit == 0 ==> pfn ^ bit == pfn + bit) && (pfn & bit != 0 ==> pfn ^ bit == pfn - bit)
        && (pfn & bit == 0 <==> above % 2 == 0)) by (bit_vector)
        requires
            bit == 1usize << order,
            above == pfn >> order,
            order < 10,
    ;
    vstd::bits::lemma_usize_shr_is_div(pfn, order);
    lemma_pages_shift(order);
}

/// A one shifted by the order counts the pages of a block.
pub proof fn lemma_pages_shift(order: usize)
    requires
        order <= MAX_ORDER,
    ensures
        1usize << order == block_pages(order as nat),
{
    lemma_block_pages();
    assert(order <= 10 ==> {
        &&& order == 0 ==> 1usize << order == 1
        &&& order == 1 ==> 1usize << order == 2
        &&& order == 2 ==> 1usize << order == 4
        &&& order == 3 ==> 1usize << order == 8
        &&& order == 4 ==> 1usize << order == 16
        &&& order == 5 ==> 1usize << order == 32
        &&& order == 6 ==> 1usize << order == 64
        &&& order == 7 ==> 1usize << order == 128
        &&& order == 8 ==> 1usize << order == 256
        &&& order == 9 ==> 1usize << order == 512
        &&& order == 10 ==> 1usize << order == 1024
    }) by (bit_vector);
}

/// The number of pages in a block of the given order.
pub fn pages_in(order: usize) -> (pages: usize)
    requires
        order <= MAX_ORDER,
    ensures
        pages == block_pages(order as nat),
        1 <= pages <= 1024,
{
    proof {
        lemma_pages_shift(order);
        lemma_block_pages_step(order as nat);
    }
    1usize << order
}

} // verus!
