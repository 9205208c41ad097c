//! The four levels of x86-64 page tables, and tearing an address space down.
use crate::error::KernelError;
use crate::memory::address::PA;
use crate::memory::paging::table::{
    Descriptor, PageTableMapper, Tables, WalkContext, DESCRIPTORS_PER_PAGE,
};
use crate::memory::paging::tear_down::{
    tear_down_entries, unshared_table, walk_result, walk_table, RecursiveTeardownWalker,
    TableMapperTable, Walk,
};
use vstd::prelude::*;

verus! {

/// Entries of the root table that map the lower half of the address space.
pub const USER_ENTRIES: usize = 256;

/// The last level: its entries map pages.
pub struct PTable;

/// The level above `PTable`.
pub struct PDTable;

/// The level above `PDTable`.
pub struct PDPTable;

/// The root.
pub struct PML4Table;

impl TableMapperTable for PDTable {
    type NextLevel = PTable;
}

impl TableMapperTable for PDPTable {
    type NextLevel = PDTable;
}

impl TableMapperTable for PML4Table {
    type NextLevel = PDPTable;
}

/// The frames that the first `n` entries map, in order.
pub open spec fn mapped_frames(entries: Seq<Descriptor>, n: nat) -> Seq<PA>
    decreases n,
{
    if n == 0 {
        Seq::empty()
    } else {
        let before = mapped_frames(entries, (n - 1) as nat);
        match entries[n - 1] {
            Descriptor::Page(pa) => before.push(pa),
            _ => before,
        }
    }
}

/// A frame is among the mapped ones if and only if an entry maps it.
pub proof fn lemma_mapped_frames(entries: Seq<Descriptor>, n: nat, pa: PA)
    ensures
        mapped_frames(entries, n).contains(pa) <==> exists|i: int|
            0 <= i < n && #[trigger] entries[i] == Descriptor::Page(pa),
    decreases n,
{
    if n > 0 {
        let before = mapped_frames(entries, (n - 1) as nat);
        let all = mapped_frames(entries, n);
        lemma_mapped_frames(entries, (n - 1) as nat, pa);
        if before.contains(pa) {
            let i = choose|i: int| 0 <= i < before.len() && before[i] == pa;
            assert(all[i] == pa);
        }
        if entries[n - 1] == Descriptor::Page(pa) {
            assert(all.last() == pa);
            assert(all[all.len() - 1] == pa);
        }
        if all.contains(pa) && entries[n - 1] != Descriptor::Page(pa) {
            let i = choose|i: int| 0 <= i < all.len() && all[i] == pa;
            assert(before[i] == pa);
        }
    }
}

/// Entries that map different frames give no frame twice.
proof fn lemma_mapped_once(entries: Seq<Descriptor>, n: nat)
    requires
        forall|i: int, j: int|
            0 <= i < j < n && (#[trigger] entries[i]) is Page ==> entries[i] != #[trigger] entries[j],
    ensures
        mapped_frames(entries, n).no_duplicates(),
    decreases n,
{
    if n > 0 {
        lemma_mapped_once(entries, (n - 1) as nat);
        if let Descriptor::Page(pa) = entries[n - 1] {
            lemma_mapped_frames(entries, (n - 1) as nat, pa);
        }
    }
}

impl RecursiveTeardownWalker for PTable {
    open spec fn walk(tables: Tables, table_pa: PA) -> Walk {
        match tables(table_pa) {
            Err(e) => Walk { freed: Seq::empty(), error: Some(e) },
            Ok(entries) => Walk {
                freed: mapped_frames(entries, DESCRIPTORS_PER_PAGE as nat),
                error: None,
            },
        }
    }

    open spec fn unshared(tables: Tables, table_pa: PA) -> bool {
        tables(table_pa) matches Ok(entries) ==> forall|i: int, j: int|
            0 <= i < j < DESCRIPTORS_PER_PAGE && (#[trigger] entries[i]) is Page ==> entries[i]
                != #[trigger] entries[j]
    }

    fn tear_down<PM: PageTableMapper>(
        table_pa: PA,
        ctx: &WalkContext<PM>,
        freed: &mut Vec<PA>,
    ) -> (r: Result<(), KernelError>) {
        let ghost before = freed@;
        let mut idx: usize = 0;
        while idx < DESCRIPTORS_PER_PAGE
            invariant
                ctx.mapper.wf(),
                idx <= DESCRIPTORS_PER_PAGE,
                before == old(freed)@,
                idx == 0 ==> freed@ == before,
                idx > 0 ==> (ctx.mapper.tables())(table_pa) is Ok,
                (ctx.mapper.tables())(table_pa) matches Ok(entries) ==> freed@ == before
                    + mapped_frames(entries, idx as nat),
            decreases DESCRIPTORS_PER_PAGE - idx,
        {
            let desc = match ctx.mapper.entry(table_pa, idx) {
                Ok(desc) => desc,
                Err(e) => {
                    assert(freed@ =~= before + Seq::<PA>::empty());
                    return Err(e);
                },
            };
            if let Some(addr) = desc.mapped_address() {
                freed.push(addr);
            }
            idx += 1;
        }
        Ok(())
    }

    proof fn lemma_freed_once(tables: Tables, table_pa: PA) {
        if let Ok(entries) = tables(table_pa) {
            lemma_mapped_once(entries, DESCRIPTORS_PER_PAGE as nat);
        }
    }
}

/// What tearing down the address space of the root table at `pml4_table`
/// gives up: everything below its lower half, then the root itself.
pub open spec fn address_space_walk(tables: Tables, pml4_table: PA) -> Walk {
    let below = walk_table::<PDPTable>(tables, pml4_table, USER_ENTRIES as int);
    if below.error is Some {
        below
    } else {
        Walk { freed: below.freed.push(pml4_table), error: None }
    }
}

/// Appends to `freed` every frame of the address space whose root table is at
/// `pml4_table`: the mapped frames and all tables of the lower half, and the
/// root. What the upper half refers to belongs to the kernel and stays.
pub fn tear_down_address_space<PM: PageTableMapper>(
    pml4_table: PA,
    ctx: &WalkContext<PM>,
    freed: &mut Vec<PA>,
) -> (r: Result<(), KernelError>)
    requires
        ctx.mapper.wf(),
    ensures
        final(freed)@ == old(freed)@ + address_space_walk(ctx.mapper.tables(), pml4_table).freed,
        r == walk_result(address_space_walk(ctx.mapper.tables(), pml4_table)),
{
    let ghost before = freed@;
    let ghost below = walk_table::<PDPTable>(
        ctx.mapper.tables(),
        pml4_table,
        USER_ENTRIES as int,
    );
    match tear_down_entries::<PDPTable, PM>(pml4_table, USER_ENTRIES, ctx, freed) {
        Ok(()) => {
            freed.push(pml4_table);
            assert(freed@ =~= before + below.freed.push(pml4_table));
            Ok(())
        },
        Err(e) => Err(e),
    }
}

/// No frame of the lower half is referred to twice, and the root is not
/// referred to at all.
pub open spec fn unshared_address_space(tables: Tables, pml4_table: PA) -> bool {
    &&& unshared_table::<PDPTable>(tables, pml4_table, USER_ENTRIES as int)
    &&& !walk_table::<PDPTable>(tables, pml4_table, USER_ENTRIES as int).freed.contains(pml4_table)
}

} // verus!
