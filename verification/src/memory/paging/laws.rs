//! What holds of every address space that is torn down.
use crate::memory::address::PA;
use crate::memory::paging::table::{Descriptor, Tables, DESCRIPTORS_PER_PAGE};
use crate::memory::paging::tear_down::{
    lemma_table_gives_up, lemma_walk_entries_once, walk_table, RecursiveTeardownWalker,
};
use crate::memory::paging::x86_64::{
    address_space_walk, lemma_mapped_frames, unshared_address_space, PDPTable, PDTable, PTable,
    USER_ENTRIES,
};
use vstd::prelude::*;

verus! {

/// No frame is given up twice, unless something refers to it twice.
pub proof fn law_no_double_free(tables: Tables, pml4_table: PA)
    requires
        unshared_address_space(tables, pml4_table),
    ensures
        address_space_walk(tables, pml4_table).freed.no_duplicates(),
{
    if tables(pml4_table) is Ok {
        lemma_walk_entries_once::<PDPTable>(tables, pml4_table, 0, USER_ENTRIES as int);
    }
}

/// The table at `table` refers to a table `child` in one of its first `n`
/// entries.
pub open spec fn refers_to(tables: Tables, table: PA, n: int, child: PA) -> bool {
    tables(table) matches Ok(entries) && exists|i: int|
        0 <= i < n && #[trigger] entries[i] == Descriptor::Table(child)
}

/// The last-level table at `table` maps the frame `pa`.
pub open spec fn maps(tables: Tables, table: PA, pa: PA) -> bool {
    tables(table) matches Ok(entries) && exists|i: int|
        0 <= i < 512 && #[trigger] entries[i] == Descriptor::Page(pa)
}

/// `pa` is a last-level table below the table at `pd`, or mapped by one.
pub open spec fn below_pd(tables: Tables, pd: PA, pa: PA) -> bool {
    exists|pt: PA|
        #[trigger] refers_to(tables, pd, 512, pt) && (pa == pt || maps(
            tables,
            pt,
            pa,
        ))
}

/// `pa` is a table one level below the one at `pdp`, or lies below one.
pub open spec fn below_pdp(tables: Tables, pdp: PA, pa: PA) -> bool {
    exists|pd: PA|
        #[trigger] refers_to(tables, pdp, 512, pd) && (pa == pd
            || below_pd(tables, pd, pa))
}

/// `pa` belongs to the lower half of the address space: it is a table that
/// the first half of the root's entries leads to, or a frame mapped there.
pub open spec fn in_lower_half(tables: Tables, pml4_table: PA, pa: PA) -> bool {
    exists|pdp: PA|
        #[trigger] refers_to(tables, pml4_table, 256, pdp) && (pa == pdp
            || below_pdp(tables, pdp, pa))
}

/// What is given up below a table of the level above the last.
proof fn lemma_below_pd(tables: Tables, pd: PA, pa: PA)
    requires
        PDTable::walk(tables, pd).error is None,
    ensures
        PDTable::walk(tables, pd).freed.contains(pa) <==> below_pd(tables, pd, pa),
{
    let n = DESCRIPTORS_PER_PAGE as int;
    lemma_table_gives_up::<PTable>(tables, pd, n, pa);
    let entries = tables(pd)->Ok_0;
    if PDTable::walk(tables, pd).freed.contains(pa) {
        let i = choose|i: int|
            0 <= i < n && (#[trigger] entries[i] matches Descriptor::Table(pt) && (pa == pt
                || PTable::walk(tables, pt).freed.contains(pa)));
        let pt = entries[i]->Table_0;
        assert(refers_to(tables, pd, n, pt));
        lemma_mapped_frames(tables(pt)->Ok_0, DESCRIPTORS_PER_PAGE as nat, pa);
    }
    if below_pd(tables, pd, pa) {
        let pt = choose|pt: PA|
            #[trigger] refers_to(tables, pd, n, pt) && (pa == pt || maps(tables, pt, pa));
        let i = choose|i: int| 0 <= i < n && #[trigger] entries[i] == Descriptor::Table(pt);
        lemma_mapped_frames(tables(pt)->Ok_0, DESCRIPTORS_PER_PAGE as nat, pa);
        assert(entries[i] == Descriptor::Table(pt));
    }
}

/// What is given up two levels above the last.
proof fn lemma_below_pdp(tables: Tables, pdp: PA, pa: PA)
    requires
        PDPTable::walk(tables, pdp).error is None,
    ensures
        PDPTable::walk(tables, pdp).freed.contains(pa) <==> below_pdp(tables, pdp, pa),
{
    let n = DESCRIPTORS_PER_PAGE as int;
    lemma_table_gives_up::<PDTable>(tables, pdp, n, pa);
    let entries = tables(pdp)->Ok_0;
    if PDPTable::walk(tables, pdp).freed.contains(pa) {
        let i = choose|i: int|
            0 <= i < n && (#[trigger] entries[i] matches Descriptor::Table(pd) && (pa == pd
                || PDTable::walk(tables, pd).freed.contains(pa)));
        let pd = entries[i]->Table_0;
        assert(refers_to(tables, pdp, n, pd));
        lemma_below_pd(tables, pd, pa);
    }
    if below_pdp(tables, pdp, pa) {
        let pd = choose|pd: PA|
            #[trigger] refers_to(tables, pdp, n, pd) && (pa == pd || below_pd(tables, pd, pa));
        let i = choose|i: int| 0 <= i < n && #[trigger] entries[i] == Descriptor::Table(pd);
        lemma_below_pd(tables, pd, pa);
        assert(entries[i] == Descriptor::Table(pd));
    }
}

/// A walk that succeeds gives up exactly the lower half of the address space,
/// tables and mapped frames alike, and the root. Nothing that only the upper
/// half leads to is given up.
pub proof fn law_frees_the_lower_half(tables: Tables, pml4_table: PA, pa: PA)
    requires
        address_space_walk(tables, pml4_table).error is None,
    ensures
        address_space_walk(tables, pml4_table).freed.contains(pa) <==> (pa == pml4_table
            || in_lower_half(tables, pml4_table, pa)),
{
    let n = USER_ENTRIES as int;
    let below = walk_table::<PDPTable>(tables, pml4_table, n).freed;
    let all = below.push(pml4_table);
    lemma_table_gives_up::<PDPTable>(tables, pml4_table, n, pa);
    let entries = tables(pml4_table)->Ok_0;
    if below.contains(pa) {
        let x = choose|x: int| 0 <= x < below.len() && below[x] == pa;
        assert(all[x] == pa);
        let i = choose|i: int|
            0 <= i < n && (#[trigger] entries[i] matches Descriptor::Table(pdp) && (pa == pdp
                || PDPTable::walk(tables, pdp).freed.contains(pa)));
        let pdp = entries[i]->Table_0;
        assert(refers_to(tables, pml4_table, n, pdp));
        lemma_below_pdp(tables, pdp, pa);
    }
    if in_lower_half(tables, pml4_table, pa) {
        let pdp = choose|pdp: PA|
            #[trigger] refers_to(tables, pml4_table, n, pdp) && (pa == pdp || below_pdp(
                tables,
                pdp,
                pa,
            ));
        let i = choose|i: int| 0 <= i < n && #[trigger] entries[i] == Descriptor::Table(pdp);
        lemma_below_pdp(tables, pdp, pa);
        assert(entries[i] == Descriptor::Table(pdp));
    }
    if all.contains(pa) && pa != pml4_table {
        let x = choose|x: int| 0 <= x < all.len() && all[x] == pa;
        assert(below[x] == pa);
    }
    assert(all[all.len() - 1] == pml4_table);
}

/// The root is given up last, and only once everything else was.
pub proof fn law_root_goes_last(tables: Tables, pml4_table: PA)
    ensures
        address_space_walk(tables, pml4_table).error is None ==> address_space_walk(
            tables,
            pml4_table,
        ).freed.len() > 0 && address_space_walk(tables, pml4_table).freed.last() == pml4_table,
        address_space_walk(tables, pml4_table).error is Some ==> address_space_walk(
            tables,
            pml4_table,
        ) == walk_table::<PDPTable>(tables, pml4_table, USER_ENTRIES as int),
{
}

} // verus!
