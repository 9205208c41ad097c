//! What the early allocator's calls do, and what the frame allocator makes of
//! it when it is brought up.
use crate::error::KernelError;
use crate::memory::address::{PhysMemoryRegion, PA};
use crate::memory::frame::{Frame, FrameState};
use crate::memory::init::{is_fresh, usable};
use crate::memory::laws::law_allocated_by_state;
use crate::memory::page::PageFrame;
use crate::memory::page_alloc::FrameAllocator;
use crate::memory::smalloc::Smalloc;
use vstd::prelude::*;

verus! {

/// The addresses from `from` up to `to` lie in one of the regions.
pub open spec fn lies_in(regions: Seq<PhysMemoryRegion>, from: int, to: int) -> bool {
    exists|i: int|
        0 <= i < regions.len() && (#[trigger] regions[i]).address.addr <= from && to
            <= regions[i].address.addr + regions[i].size
}

/// None of the regions holds an address from `from` up to `to`.
pub open spec fn clear_of(regions: Seq<PhysMemoryRegion>, from: int, to: int) -> bool {
    forall|i: int|
        0 <= i < regions.len() ==> {
            ||| (#[trigger] regions[i]).size == 0
            ||| to <= regions[i].address.addr
            ||| regions[i].address.addr + regions[i].size <= from
        }
}

/// Each region ends before the next begins.
pub open spec fn in_order(regions: Seq<PhysMemoryRegion>) -> bool {
    forall|i: int, j: int|
        0 <= i < j < regions.len() ==> (#[trigger] regions[i]).address.addr + regions[i].size <= (
        #[trigger] regions[j]).address.addr
}

/// `size` bytes can be placed at `a`.
pub open spec fn can_stand(s: Smalloc, a: int, size: int, align: int) -> bool {
    &&& a >= 0
    &&& a % align == 0
    &&& lies_in(s.memory@, a, a + size)
    &&& clear_of(s.res@, a, a + size)
}

/// A place that fits, in plain terms.
proof fn lemma_can_stand(s: Smalloc, a: int, size: int, align: int)
    ensures
        s.fits(a, size, align) <==> can_stand(s, a, size, align),
{
    if s.fits(a, size, align) {
        let i = choose|i: int|
            0 <= i < s.memory@.len() && (#[trigger] s.memory@[i]).holds(a, size);
        assert(s.memory@[i].address.addr <= a);
        assert forall|i: int| 0 <= i < s.res@.len() implies {
            ||| (#[trigger] s.res@[i]).size == 0
            ||| a + size <= s.res@[i].address.addr
            ||| s.res@[i].address.addr + s.res@[i].size <= a
        } by {
            assert(!s.res@[i].overlaps(a, size));
        }
    }
    if can_stand(s, a, size, align) {
        let i = choose|i: int|
            0 <= i < s.memory@.len() && (#[trigger] s.memory@[i]).address.addr <= a && a + size
                <= s.memory@[i].address.addr + s.memory@[i].size;
        assert(s.memory@[i].holds(a, size));
        assert forall|i: int| 0 <= i < s.res@.len() implies !(#[trigger] s.res@[i]).overlaps(
            a,
            size,
        ) by {
            assert(s.res@[i].size == 0 || a + size <= s.res@[i].address.addr
                || s.res@[i].address.addr + s.res@[i].size <= a);
        }
    }
}

/// What is found is a place in memory that nothing reserved touches, aligned
/// as asked, and the lowest such place; where none is found there is none.
pub proof fn law_find_gives_the_lowest_place(
    s: &Smalloc,
    size: usize,
    align: usize,
    r: Option<usize>,
    a: int,
)
    requires
        s.wf(),
        align > 0,
        call_ensures(Smalloc::find, (s, size, align), r),
    ensures
        r matches Some(place) ==> can_stand(*s, place as int, size as int, align as int),
        can_stand(*s, a, size as int, align as int) ==> (r matches Some(place) && place <= a),
{
    lemma_can_stand(*s, a, size as int, align as int);
    assert(r is None ==> !s.fits(a, size as int, align as int));
    if let Some(place) = r {
        lemma_can_stand(*s, place as int, size as int, align as int);
    }
}

/// What was reserved is not reserved again: two reservations of some size
/// never share an address, and memory stays the same.
pub proof fn law_reservations_do_not_overlap(
    first: &mut Smalloc,
    size: usize,
    align: usize,
    a: PA,
    second: &mut Smalloc,
    other_size: usize,
    other_align: usize,
    b: PA,
)
    requires
        first.wf(),
        align > 0,
        other_align > 0,
        size > 0,
        other_size > 0,
        call_ensures(
            Smalloc::reserve_first_fit,
            (first, size, align),
            Ok::<PA, KernelError>(a),
        ),
        *second == *final(first),
        call_ensures(
            Smalloc::reserve_first_fit,
            (second, other_size, other_align),
            Ok::<PA, KernelError>(b),
        ),
    ensures
        a.addr + size <= b.addr || b.addr + other_size <= a.addr,
        a.addr as int % align as int == 0,
        b.addr as int % other_align as int == 0,
        final(second).memory@ == old(first).memory@,
        can_stand(*old(first), a.addr as int, size as int, align as int),
{
    let s = *second;
    lemma_can_stand(s, b.addr as int, other_size as int, other_align as int);
    lemma_can_stand(*first, a.addr as int, size as int, align as int);
    let n = first.res@.len() as int;
    assert(s.res@[n] == PhysMemoryRegion { address: a, size });
}

/// Reserving fails only where there is no place, and then changes nothing.
pub proof fn law_reserving_fails_only_without_a_place(
    s: &mut Smalloc,
    size: usize,
    align: usize,
    e: KernelError,
    a: int,
)
    requires
        s.wf(),
        align > 0,
        call_ensures(Smalloc::reserve_first_fit, (s, size, align), Err::<PA, KernelError>(e)),
    ensures
        e == KernelError::NoMemory,
        !can_stand(*old(s), a, size as int, align as int),
        final(s).memory@ == old(s).memory@,
        final(s).res@ == old(s).res@,
{
    lemma_can_stand(*s, a, size as int, align as int);
    assert(!s.fits(a, size as int, align as int));
}

/// What is reserved stays clear of every place that is found later.
pub proof fn law_reserved_memory_is_not_found(
    s: &mut Smalloc,
    region: PhysMemoryRegion,
    after: &Smalloc,
    size: usize,
    align: usize,
    place: usize,
)
    requires
        s.wf(),
        region.wf(),
        region.size > 0,
        call_ensures(Smalloc::add_reservation, (s, region), ()),
        *after == *final(s),
        size > 0,
        align > 0,
        call_ensures(Smalloc::find, (after, size, align), Some(place)),
    ensures
        place + size <= region.address.addr || region.address.addr + region.size <= place,
{
    law_find_gives_the_lowest_place(after, size, align, Some(place), 0);
    let n = s.res@.len() as int;
    assert(after.res@[n] == region);
}

/// Memory is accepted where it is some and shares no address with what is
/// known, and is then known beside what was known before.
pub proof fn law_memory_is_added_once(
    s: &mut Smalloc,
    region: PhysMemoryRegion,
    r: Result<(), KernelError>,
)
    requires
        s.wf(),
        region.wf(),
        call_ensures(Smalloc::add_memory, (s, region), r),
    ensures
        r is Ok <==> region.size > 0 && clear_of(
            old(s).memory@,
            region.address.addr as int,
            region.address.addr + region.size,
        ),
        r is Ok ==> final(s).memory@.to_multiset() == old(s).memory@.to_multiset().insert(region),
        r is Err ==> final(s).memory@ == old(s).memory@,
        final(s).res@ == old(s).res@,
        in_order(final(s).memory@),
{
    let known = s.memory@;
    if region.size > 0 {
        assert(clear_of(known, region.address.addr as int, region.address.addr + region.size)
            <==> forall|i: int|
            0 <= i < known.len() ==> !(#[trigger] known[i]).overlaps(
                region.start(),
                region.size as int,
            )) by {
            if clear_of(known, region.address.addr as int, region.address.addr + region.size) {
                assert forall|i: int| 0 <= i < known.len() implies !(
                #[trigger] known[i]).overlaps(region.start(), region.size as int) by {
                    assert(known[i].size == 0 || region.address.addr + region.size
                        <= known[i].address.addr || known[i].address.addr + known[i].size
                        <= region.address.addr);
                }
            }
            if forall|i: int|
                0 <= i < known.len() ==> !(#[trigger] known[i]).overlaps(
                    region.start(),
                    region.size as int,
                ) {
                assert forall|i: int| 0 <= i < known.len() implies {
                    ||| (#[trigger] known[i]).size == 0
                    ||| region.address.addr + region.size <= known[i].address.addr
                    ||| known[i].address.addr + known[i].size <= region.address.addr
                } by {
                    assert(!known[i].overlaps(region.start(), region.size as int));
                }
            }
        }
    }
    if r is Ok {
        let at = choose|at: int|
            0 <= at <= known.len() && final(s).memory@ == known.insert(at, region);
        vstd::seq_lib::to_multiset_insert(known, at, region);
    }
    let now = final(s).memory@;
    assert forall|i: int, j: int| 0 <= i < j < now.len() implies (#[trigger] now[i]).address.addr
        + now[i].size <= (#[trigger] now[j]).address.addr by {
        assert(now[i].end() <= now[j].start());
    }
}

/// The size of a table with an entry for each page of memory.
pub open spec fn table_size(s: Smalloc) -> int {
    (s.memory@.last().address.addr + s.memory@.last().size - s.memory@[0].address.addr) / 4096
        * vstd::layout::size_of::<Frame>()
}

/// What a fresh allocator shows. It manages the pages from that of the lowest
/// address on, as many as memory has from its lowest to its highest address.
/// No page is allocated. Pages that a reservation covers are the kernel's.
/// What is free are blocks of 1024 pages, each aligned, all in memory and
/// clear of reservations; there is no such block that is not free but those
/// that the page table takes a place in.
pub proof fn law_what_is_free_at_first(s: Smalloc, a: FrameAllocator, q: PageFrame, state: FrameState)
    requires
        s.wf(),
        s.can_init(),
        call_ensures(FrameAllocator::init, (s,), a),
        a@.in_range(q.n as int),
        call_ensures(FrameAllocator::frame_state, (&a, q), state),
    ensures
        ({
            let lowest = s.memory@[0].address.addr as int;
            let highest = s.memory@.last().address.addr + s.memory@.last().size;
            let block = q.n * 4096;
            let is_block = q.n % 1024 == 0 && lies_in(s.memory@, block, block + 0x40_0000)
                && clear_of(s.res@, block, block + 0x40_0000);
            &&& a@.base == lowest / 4096
            &&& a@.states.len() == (highest - lowest) / 4096
            &&& state is Free || state is Kernel || state is Uninitialized
            &&& (exists|i: int|
                {
                    &&& 0 <= i < s.res@.len()
                    &&& (#[trigger] s.res@[i]).address.addr as int / 4096 <= q.n
                    &&& q.n < s.res@[i].address.addr as int / 4096 + s.res@[i].size as int / 4096
                }) ==> state is Kernel
            &&& state is Free ==> state == (FrameState::Free { order: 10 }) && is_block
            &&& is_block && !(state is Free) ==> exists|place: int|
                {
                    &&& #[trigger] can_stand(
                        s,
                        place,
                        table_size(s),
                        vstd::layout::align_of::<Frame>() as int,
                    )
                    &&& place < block + 0x40_0000
                    &&& block < place + table_size(s)
                }
        }),
{
    let metadata = choose|metadata: PhysMemoryRegion|
        s.is_metadata(metadata) && #[trigger] is_fresh(a@, s.memory@, s.res@.push(metadata));
    let res = s.res@.push(metadata);
    let n = s.res@.len() as int;
    let p = q.n as int;
    let block = p * 4096;
    assert(res[n] == metadata);
    assert forall|i: int| 0 <= i < n implies res[i] == s.res@[i] by {}
    lemma_block(s.memory@, res, p);
    if exists|i: int|
        {
            &&& 0 <= i < s.res@.len()
            &&& (#[trigger] s.res@[i]).address.addr as int / 4096 <= p
            &&& p < s.res@[i].address.addr as int / 4096 + s.res@[i].size as int / 4096
        } {
        let i = choose|i: int|
            {
                &&& 0 <= i < s.res@.len()
                &&& (#[trigger] s.res@[i]).address.addr as int / 4096 <= p
                &&& p < s.res@[i].address.addr as int / 4096 + s.res@[i].size as int / 4096
            };
        assert(res[i].covers_pfn(p));
        if usable(s.memory@, res, p) {
            assert(!res[i].overlaps(block, 0x40_0000));
        }
    }
    lemma_can_stand(
        s,
        metadata.start(),
        s.metadata_size(),
        vstd::layout::align_of::<Frame>() as int,
    );
    assert(s.metadata_size() == table_size(s));
    assert(can_stand(s, metadata.start(), table_size(s), vstd::layout::align_of::<Frame>() as int));
    if clear_of(res, block, block + 0x40_0000) {
        assert forall|i: int| 0 <= i < n implies {
            ||| (#[trigger] s.res@[i]).size == 0
            ||| block + 0x40_0000 <= s.res@[i].address.addr
            ||| s.res@[i].address.addr + s.res@[i].size <= block
        } by {
            let r = res[i];
            assert(r.size == 0 || block + 0x40_0000 <= r.address.addr || r.address.addr + r.size
                <= block);
        }
    } else if clear_of(s.res@, block, block + 0x40_0000) {
        let i = choose|i: int|
            0 <= i < res.len() && !((#[trigger] res[i]).size == 0 || block + 0x40_0000
                <= res[i].address.addr || res[i].address.addr + res[i].size <= block);
        if i < n {
            assert(s.res@[i].size == 0 || block + 0x40_0000 <= s.res@[i].address.addr
                || s.res@[i].address.addr + s.res@[i].size <= block);
        }
    }
}

/// A usable block in plain terms.
proof fn lemma_block(memory: Seq<PhysMemoryRegion>, res: Seq<PhysMemoryRegion>, p: int)
    requires
        p >= 0,
    ensures
        usable(memory, res, p) <==> p % 1024 == 0 && lies_in(
            memory,
            p * 4096,
            p * 4096 + 0x40_0000,
        ) && clear_of(res, p * 4096, p * 4096 + 0x40_0000),
{
    let a = p * 4096;
    if usable(memory, res, p) {
        let i = choose|i: int|
            0 <= i < memory.len() && (#[trigger] memory[i]).holds(a, 0x40_0000);
        assert(memory[i].address.addr <= a);
        assert forall|i: int| 0 <= i < res.len() implies {
            ||| (#[trigger] res[i]).size == 0
            ||| a + 0x40_0000 <= res[i].address.addr
            ||| res[i].address.addr + res[i].size <= a
        } by {
            assert(!res[i].overlaps(a, 0x40_0000));
        }
    }
    if lies_in(memory, a, a + 0x40_0000) && clear_of(res, a, a + 0x40_0000) {
        let i = choose|i: int|
            0 <= i < memory.len() && (#[trigger] memory[i]).address.addr <= a && a + 0x40_0000
                <= memory[i].address.addr + memory[i].size;
        assert(memory[i].holds(a, 0x40_0000));
        assert forall|i: int| 0 <= i < res.len() implies !(#[trigger] res[i]).overlaps(
            a,
            0x40_0000,
        ) by {
            assert(res[i].size == 0 || a + 0x40_0000 <= res[i].address.addr || res[i].address.addr
                + res[i].size <= a);
        }
    }
}

/// A reservation is told of exactly where one shares an address with what is
/// asked about.
pub proof fn law_reservations_are_told_of(
    s: &Smalloc,
    start: usize,
    size: usize,
    r: Option<PhysMemoryRegion>,
)
    requires
        s.wf(),
        start + size <= usize::MAX,
        call_ensures(Smalloc::reservation_over, (s, start, size), r),
    ensures
        r is None <==> clear_of(s.res@, start as int, start + size),
        r matches Some(region) ==> s.res@.contains(region) && region.address.addr < start + size
            && start < region.address.addr + region.size,
{
    if let Some(region) = r {
        let i = choose|i: int| 0 <= i < s.res@.len() && s.res@[i] == region;
        assert(s.res@[i].overlaps(start as int, size as int));
        assert(!(s.res@[i].size == 0 || start + size <= s.res@[i].address.addr
            || s.res@[i].address.addr + s.res@[i].size <= start));
    } else {
        assert forall|i: int| 0 <= i < s.res@.len() implies {
            ||| (#[trigger] s.res@[i]).size == 0
            ||| start + size <= s.res@[i].address.addr
            ||| s.res@[i].address.addr + s.res@[i].size <= start
        } by {
            assert(!s.res@[i].overlaps(start as int, size as int));
        }
    }
}

/// The frame allocator can be brought up where there is memory, there is a
/// place for its table, and the table has an entry for each page of what it
/// leaves free.
pub proof fn law_bringing_up_needs_a_table(s: &Smalloc, r: bool)
    requires
        s.wf(),
        call_ensures(Smalloc::can_bring_up, (s,), r),
    ensures
        r ==> s.memory@.len() > 0 && exists|place: int| #[trigger]
            can_stand(*s, place, table_size(*s), vstd::layout::align_of::<Frame>() as int),
        !r && s.memory@.len() > 0 && (exists|place: int| #[trigger]
            can_stand(*s, place, table_size(*s), vstd::layout::align_of::<Frame>() as int))
            ==> exists|p: int|
            {
                &&& p % 1024 == 0
                &&& #[trigger] lies_in(s.memory@, p * 4096, p * 4096 + 0x40_0000)
                &&& clear_of(s.res@, p * 4096, p * 4096 + 0x40_0000)
                &&& p + 1024 > s.memory@[0].address.addr as int / 4096 + (
                s.memory@.last().address.addr + s.memory@.last().size
                    - s.memory@[0].address.addr) / 4096
            },
{
    let align = vstd::layout::align_of::<Frame>() as int;
    if s.memory@.len() > 0 {
        assert(s.metadata_size() == table_size(*s));
        if r {
            let a = choose|a: int| s.fits(a, s.metadata_size(), align);
            lemma_can_stand(*s, a, s.metadata_size(), align);
        } else if exists|place: int| #[trigger] can_stand(*s, place, table_size(*s), align) {
            let place = choose|place: int| #[trigger] can_stand(*s, place, table_size(*s), align);
            lemma_can_stand(*s, place, s.metadata_size(), align);
            let metadata = choose|metadata: PhysMemoryRegion| #[trigger]
                s.is_metadata(metadata) && !s.table_suffices(s.res@.push(metadata));
            let res = s.res@.push(metadata);
            let p = choose|p: int| #[trigger]
                usable(s.memory@, res, p) && !(p + 1024 <= s.lowest() / 4096 + s.page_count());
            lemma_block(s.memory@, res, p);
            assert forall|i: int| 0 <= i < s.res@.len() implies {
                ||| (#[trigger] s.res@[i]).size == 0
                ||| p * 4096 + 0x40_0000 <= s.res@[i].address.addr
                ||| s.res@[i].address.addr + s.res@[i].size <= p * 4096
            } by {
                let region = res[i];
                assert(region.size == 0 || p * 4096 + 0x40_0000 <= region.address.addr
                    || region.address.addr + region.size <= p * 4096);
            }
            assert(lies_in(s.memory@, p * 4096, p * 4096 + 0x40_0000));
        }
    }
}

/// A fresh allocator has free blocks of 1024 pages only, and counts their
/// pages as free; the pages that it manages are those from the lowest address
/// of memory to the highest.
pub proof fn law_what_is_counted_at_first(
    s: Smalloc,
    a: FrameAllocator,
    order: usize,
    blocks: usize,
    largest: usize,
    free: usize,
    total: usize,
    base: PageFrame,
    q: PageFrame,
    allocated: bool,
)
    requires
        s.wf(),
        s.can_init(),
        call_ensures(FrameAllocator::init, (s,), a),
        order < 10,
        call_ensures(FrameAllocator::free_blocks, (&a, order), blocks),
        call_ensures(FrameAllocator::free_blocks, (&a, 10usize), largest),
        call_ensures(FrameAllocator::free_pages, (&a,), free),
        call_ensures(FrameAllocator::total_pages, (&a,), total),
        call_ensures(FrameAllocator::base_page, (&a,), base),
        a@.in_range(q.n as int),
        call_ensures(FrameAllocator::is_allocated, (&a, q), allocated),
    ensures
        blocks == 0,
        free == largest * 1024,
        total == (s.memory@.last().address.addr + s.memory@.last().size
            - s.memory@[0].address.addr) / 4096,
        base.n == s.memory@[0].address.addr as int / 4096,
        !allocated,
{
    let metadata = choose|metadata: PhysMemoryRegion|
        s.is_metadata(metadata) && #[trigger] is_fresh(a@, s.memory@, s.res@.push(metadata));
    law_allocated_by_state(a@, q.n as int);
}

/// A region begins at its address and ends past its last byte.
pub proof fn law_regions_begin_and_end(
    address: PA,
    size: usize,
    region: PhysMemoryRegion,
    start: PA,
    end: PA,
)
    requires
        address.addr + size <= usize::MAX,
        call_ensures(PhysMemoryRegion::new, (address, size), region),
        call_ensures(PhysMemoryRegion::start_address, (&region,), start),
        call_ensures(PhysMemoryRegion::end_address, (&region,), end),
    ensures
        start == address,
        end.addr == address.addr + size,
{
}

} // verus!
