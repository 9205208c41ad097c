//! What tearing page tables down gives up, call by call.
use crate::error::KernelError;
use crate::memory::address::PA;
use crate::memory::paging::arena::PageTableArena;
use crate::memory::paging::laws::{in_lower_half, law_frees_the_lower_half};
use crate::memory::paging::table::{Descriptor, PageTableMapper, Tables, WalkContext};
use crate::memory::paging::tear_down::{
    tear_down_entries, walk_entries, walk_entry, walk_table, RecursiveTeardownWalker,
};
use crate::memory::paging::x86_64::{
    address_space_walk, mapped_frames, tear_down_address_space, PDPTable, PDTable, PTable,
};
use vstd::prelude::*;

verus! {

/// Walking one entry more.
proof fn lemma_one_more_entry<N: RecursiveTeardownWalker>(
    tables: Tables,
    entries: Seq<Descriptor>,
    from: int,
    to: int,
)
    requires
        from <= to,
    ensures
        ({
            let first = walk_entries::<N>(tables, entries, from, to);
            let next = walk_entry::<N>(tables, entries[to]);
            let all = walk_entries::<N>(tables, entries, from, to + 1);
            if first.error is Some {
                all == first
            } else {
                all.freed == first.freed + next.freed && all.error == next.error
            }
        }),
    decreases to - from,
{
    let next = walk_entry::<N>(tables, entries[to]);
    if from == to {
        let none = walk_entries::<N>(tables, entries, to + 1, to + 1);
        assert(next.freed + none.freed =~= next.freed);
        assert(walk_entries::<N>(tables, entries, from, to).freed + next.freed =~= next.freed);
    } else {
        lemma_one_more_entry::<N>(tables, entries, from + 1, to);
        let head = walk_entry::<N>(tables, entries[from]);
        let first = walk_entries::<N>(tables, entries, from + 1, to);
        let all = walk_entries::<N>(tables, entries, from + 1, to + 1);
        if head.error is None && first.error is None {
            assert(head.freed + (first.freed + next.freed) =~= (head.freed + first.freed)
                + next.freed);
        }
    }
}

/// Tables are given up entry by entry, and each after everything below it. One
/// entry more gives up, after what the entries before it give up, everything
/// below the table that the entry refers to and then that table, and nothing
/// where it refers to none. An error ends the walk, with what was given up
/// until then.
pub proof fn law_table_goes_after_what_is_below<N: RecursiveTeardownWalker, PM: PageTableMapper>(
    table: PA,
    n: usize,
    ctx: &WalkContext<PM>,
    entry: Descriptor,
    first: &mut Vec<PA>,
    first_result: Result<(), KernelError>,
    below: &mut Vec<PA>,
    below_result: Result<(), KernelError>,
    all: &mut Vec<PA>,
    result: Result<(), KernelError>,
)
    requires
        ctx.mapper.wf(),
        0 < n < 512,
        call_ensures(tear_down_entries::<N, PM>, (table, n, ctx, first), first_result),
        first_result is Ok,
        (ctx.mapper.tables())(table) matches Ok(entries) && entry == entries[n as int],
        *below == *final(first),
        entry matches Descriptor::Table(child) ==> call_ensures(
            N::tear_down::<PM>,
            (child, ctx, below),
            below_result,
        ),
        all@ == first@,
        call_ensures(tear_down_entries::<N, PM>, (table, (n + 1) as usize, ctx, all), result),
    ensures
        !(entry is Table) ==> result is Ok && final(all)@ == final(first)@,
        entry matches Descriptor::Table(child) ==> result == below_result && final(all)@ == (
        if below_result is Ok {
            final(below)@.push(child)
        } else {
            final(below)@
        }),
{
    let tables = ctx.mapper.tables();
    let entries = tables(table)->Ok_0;
    lemma_one_more_entry::<N>(tables, entries, 0, n as int);
    let start = first@;
    let before = walk_entries::<N>(tables, entries, 0, n as int).freed;
    let next = walk_entry::<N>(tables, entry).freed;
    assert(start + (before + next) =~= (start + before) + next);
    if let Descriptor::Table(child) = entry {
        let under = N::walk(tables, child).freed;
        assert((start + before) + under.push(child) =~= ((start + before) + under).push(child));
    } else {
        assert((start + before) + next =~= start + before);
    }
}

/// The first entry gives up what lies below the table that it refers to, and
/// then that table.
pub proof fn law_first_entry_is_given_up<N: RecursiveTeardownWalker, PM: PageTableMapper>(
    table: PA,
    ctx: &WalkContext<PM>,
    entry: Descriptor,
    below: &mut Vec<PA>,
    below_result: Result<(), KernelError>,
    all: &mut Vec<PA>,
    result: Result<(), KernelError>,
)
    requires
        ctx.mapper.wf(),
        (ctx.mapper.tables())(table) matches Ok(entries) && entry == entries[0],
        entry matches Descriptor::Table(child) ==> call_ensures(
            N::tear_down::<PM>,
            (child, ctx, below),
            below_result,
        ),
        all@ == below@,
        call_ensures(tear_down_entries::<N, PM>, (table, 1usize, ctx, all), result),
    ensures
        !(entry is Table) ==> result is Ok && final(all)@ == old(all)@,
        entry matches Descriptor::Table(child) ==> result == below_result && final(all)@ == (
        if below_result is Ok {
            final(below)@.push(child)
        } else {
            final(below)@
        }),
{
    let tables = ctx.mapper.tables();
    let entries = tables(table)->Ok_0;
    let start = all@;
    lemma_one_more_entry::<N>(tables, entries, 0, 0);
    let none = walk_entries::<N>(tables, entries, 0, 0).freed;
    let next = walk_entry::<N>(tables, entry).freed;
    assert(none + next =~= next);
    if let Descriptor::Table(child) = entry {
        let under = N::walk(tables, child).freed;
        assert(start + under.push(child) =~= (start + under).push(child));
    } else {
        assert(start + next =~= start);
    }
}

/// The frames that entries map.
pub open spec fn pages_of(entries: Seq<Descriptor>) -> Seq<PA> {
    entries.filter(|entry: Descriptor| entry is Page).map_values(
        |entry: Descriptor| entry->Page_0,
    )
}

/// The mapped frames are those of the entries that map one.
proof fn lemma_pages_of(entries: Seq<Descriptor>, n: nat)
    requires
        n <= entries.len(),
    ensures
        mapped_frames(entries, n) == pages_of(entries.take(n as int)),
    decreases n,
{
    reveal(Seq::filter);
    if n > 0 {
        lemma_pages_of(entries, (n - 1) as nat);
        assert(entries.take(n as int).drop_last() =~= entries.take(n - 1));
    }
    assert(mapped_frames(entries, n) =~= pages_of(entries.take(n as int)));
}

/// A table of the last level gives up the frames that its 512 entries map, in
/// their order, and nothing else.
pub proof fn law_last_level_gives_up_its_pages<PM: PageTableMapper>(
    table: PA,
    ctx: &WalkContext<PM>,
    freed: &mut Vec<PA>,
    result: Result<(), KernelError>,
)
    requires
        ctx.mapper.wf(),
        (ctx.mapper.tables())(table) matches Ok(entries) ==> entries.len() >= 512,
        call_ensures(PTable::tear_down::<PM>, (table, ctx, freed), result),
    ensures
        (ctx.mapper.tables())(table) matches Ok(entries) ==> result is Ok && final(freed)@ == old(
            freed)@ + pages_of(entries.take(512)),
        (ctx.mapper.tables())(table) matches Err(e) ==> result == Err::<(), KernelError>(e)
            && final(freed)@ == old(freed)@,
{
    match (ctx.mapper.tables())(table) {
        Ok(entries) => {
            lemma_pages_of(entries, 512);
        },
        Err(_) => {
            assert(freed@ + Seq::<PA>::empty() =~= freed@);
        },
    }
}

/// The levels above the last give up what all their 512 entries refer to, and
/// an address space what the lower 256 entries of its root refer to, and then
/// the root.
pub proof fn law_levels_of_tables<PM: PageTableMapper>(
    table: PA,
    ctx: &WalkContext<PM>,
    pd: &mut Vec<PA>,
    pd_result: Result<(), KernelError>,
    pd_entries: &mut Vec<PA>,
    pd_entries_result: Result<(), KernelError>,
    pdp: &mut Vec<PA>,
    pdp_result: Result<(), KernelError>,
    pdp_entries: &mut Vec<PA>,
    pdp_entries_result: Result<(), KernelError>,
    space: &mut Vec<PA>,
    space_result: Result<(), KernelError>,
    space_entries: &mut Vec<PA>,
    space_entries_result: Result<(), KernelError>,
)
    requires
        ctx.mapper.wf(),
        pd@ == pd_entries@,
        call_ensures(PDTable::tear_down::<PM>, (table, ctx, pd), pd_result),
        call_ensures(
            tear_down_entries::<PTable, PM>,
            (table, 512usize, ctx, pd_entries),
            pd_entries_result,
        ),
        pdp@ == pdp_entries@,
        call_ensures(PDPTable::tear_down::<PM>, (table, ctx, pdp), pdp_result),
        call_ensures(
            tear_down_entries::<PDTable, PM>,
            (table, 512usize, ctx, pdp_entries),
            pdp_entries_result,
        ),
        space@ == space_entries@,
        call_ensures(tear_down_address_space::<PM>, (table, ctx, space), space_result),
        call_ensures(
            tear_down_entries::<PDPTable, PM>,
            (table, 256usize, ctx, space_entries),
            space_entries_result,
        ),
    ensures
        final(pd)@ == final(pd_entries)@ && pd_result == pd_entries_result,
        final(pdp)@ == final(pdp_entries)@ && pdp_result == pdp_entries_result,
        space_result == space_entries_result,
        final(space)@ == (if space_result is Ok {
            final(space_entries)@.push(table)
        } else {
            final(space_entries)@
        }),
{
    let below = walk_table::<PDPTable>(ctx.mapper.tables(), table, 256).freed;
    assert(space@ + below.push(table) =~= (space@ + below).push(table));
}

/// An address space that is torn down in full gives up its root and all of its
/// lower half, and nothing else.
pub proof fn law_lower_half_is_given_up<PM: PageTableMapper>(
    root: PA,
    ctx: &WalkContext<PM>,
    freed: &mut Vec<PA>,
    pa: PA,
)
    requires
        ctx.mapper.wf(),
        freed@.len() == 0,
        call_ensures(
            tear_down_address_space::<PM>,
            (root, ctx, freed),
            Ok::<(), KernelError>(()),
        ),
    ensures
        final(freed)@.contains(pa) <==> pa == root || in_lower_half(ctx.mapper.tables(), root, pa),
        final(freed)@.last() == root,
{
    law_frees_the_lower_half(ctx.mapper.tables(), root, pa);
    let walk = address_space_walk(ctx.mapper.tables(), root);
    assert(freed@ + walk.freed =~= walk.freed);
}

/// A table that was put into memory is empty, the entry that was set in it is
/// had back, and the other entries and tables stay.
pub proof fn law_stored_entries_are_had_back(
    arena: &mut PageTableArena,
    pa: PA,
    set: &mut PageTableArena,
    idx: usize,
    desc: Descriptor,
    other: PA,
    at: usize,
    before: Result<Descriptor, KernelError>,
    empty: Result<Descriptor, KernelError>,
    after: Result<Descriptor, KernelError>,
)
    requires
        arena.wf(),
        call_ensures(PageTableArena::add_table, (arena, pa), ()),
        *set == *final(arena),
        idx < 512,
        at < 512,
        call_ensures(
            PageTableArena::set_entry,
            (set, (final(arena).stored@.len() - 1) as usize, idx, desc),
            (),
        ),
        call_ensures(PageTableArena::entry, (&*arena, other, at), before),
        call_ensures(PageTableArena::entry, (&*set, other, at), empty),
        call_ensures(PageTableArena::entry, (&*final(set), other, at), after),
    ensures
        other == pa ==> empty == Ok::<Descriptor, KernelError>(Descriptor::Invalid),
        other == pa && at == idx ==> after == Ok::<Descriptor, KernelError>(desc),
        other == pa && at != idx ==> after == empty,
        other != pa ==> empty == before && after == before,
{
    let a = arena.stored@;
    let b = set.stored@;
    let c = final(set).stored@;
    assert(b.drop_last() == a);
    assert(b.len() == set.stored.len());
    assert(c.drop_last() =~= a) by {
        assert forall|i: int| 0 <= i < a.len() implies c[i] == a[i] by {
            assert(b[i] == b.drop_last()[i]);
        }
    }
    assert(c.last().pa == pa);
}

/// An entry refers to a table, maps a frame, or does neither.
pub proof fn law_entries_refer_to_one_thing(
    entry: Descriptor,
    table: Option<PA>,
    frame: Option<PA>,
)
    requires
        call_ensures(Descriptor::next_table_address, (&entry,), table),
        call_ensures(Descriptor::mapped_address, (&entry,), frame),
    ensures
        table matches Some(pa) ==> entry == Descriptor::Table(pa),
        frame matches Some(pa) ==> entry == Descriptor::Page(pa),
        table is None && frame is None <==> entry is Invalid,
{
}

} // verus!
