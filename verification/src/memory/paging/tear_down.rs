//! Giving up a hierarchy of page tables from the bottom up.
use crate::error::KernelError;
use crate::memory::address::PA;
use crate::memory::paging::table::{
    Descriptor, PageTableMapper, Tables, WalkContext, DESCRIPTORS_PER_PAGE,
};
use vstd::prelude::*;

verus! {

/// How far a walk came: the frames it gave up, in order, and the error that
/// stopped it, if one did.
#[verifier::ext_equal]
pub struct Walk {
    pub freed: Seq<PA>,
    pub error: Option<KernelError>,
}

/// The outcome of a walk as a function's result.
pub open spec fn walk_result(walk: Walk) -> Result<(), KernelError> {
    match walk.error {
        None => Ok(()),
        Some(e) => Err(e),
    }
}

/// A level of the page table hierarchy that can be torn down.
pub trait RecursiveTeardownWalker: Sized {
    /// What is given up below the table at `table_pa`, the table itself not
    /// included.
    spec fn walk(tables: Tables, table_pa: PA) -> Walk;

    /// No frame below the table at `table_pa` is referred to twice.
    spec fn unshared(tables: Tables, table_pa: PA) -> bool;

    /// Appends to `freed` every frame below the table at `table_pa`, each
    /// table after everything it refers to.
    fn tear_down<PM: PageTableMapper>(
        table_pa: PA,
        ctx: &WalkContext<PM>,
        freed: &mut Vec<PA>,
    ) -> (r: Result<(), KernelError>)
        requires
            ctx.mapper.wf(),
        ensures
            final(freed)@ == old(freed)@ + Self::walk(ctx.mapper.tables(), table_pa).freed,
            r == walk_result(Self::walk(ctx.mapper.tables(), table_pa)),
    ;

    /// What is referred to once is given up once.
    proof fn lemma_freed_once(tables: Tables, table_pa: PA)
        requires
            Self::unshared(tables, table_pa),
        ensures
            Self::walk(tables, table_pa).freed.no_duplicates(),
    ;
}

/// A level whose entries refer to tables of a next level.
pub trait TableMapperTable: Sized {
    type NextLevel: RecursiveTeardownWalker;
}

/// What is given up for one entry of a table: everything below the table
/// that it refers to, then that table.
pub open spec fn walk_entry<N: RecursiveTeardownWalker>(
    tables: Tables,
    entry: Descriptor,
) -> Walk {
    match entry {
        Descriptor::Table(child) => {
            let below = N::walk(tables, child);
            if below.error is Some {
                below
            } else {
                Walk { freed: below.freed.push(child), error: None }
            }
        },
        _ => Walk { freed: Seq::empty(), error: None },
    }
}

/// What is given up for the entries from `from` up to `to`, one after
/// another until one fails.
pub open spec fn walk_entries<N: RecursiveTeardownWalker>(
    tables: Tables,
    entries: Seq<Descriptor>,
    from: int,
    to: int,
) -> Walk
    decreases to - from,
{
    if from >= to {
        Walk { freed: Seq::empty(), error: None }
    } else {
        let first = walk_entry::<N>(tables, entries[from]);
        if first.error is Some {
            first
        } else {
            let rest = walk_entries::<N>(tables, entries, from + 1, to);
            Walk { freed: first.freed + rest.freed, error: rest.error }
        }
    }
}

/// What is given up for the first `to` entries of the table at `table_pa`.
pub open spec fn walk_table<N: RecursiveTeardownWalker>(
    tables: Tables,
    table_pa: PA,
    to: int,
) -> Walk {
    match tables(table_pa) {
        Err(e) => Walk { freed: Seq::empty(), error: Some(e) },
        Ok(entries) => walk_entries::<N>(tables, entries, 0, to),
    }
}

/// No frame below the first `to` entries of the table at `table_pa` is
/// referred to twice.
pub open spec fn unshared_table<N: RecursiveTeardownWalker>(
    tables: Tables,
    table_pa: PA,
    to: int,
) -> bool {
    match tables(table_pa) {
        Err(_) => true,
        Ok(entries) => {
            &&& forall|i: int|
                0 <= i < to ==> (#[trigger] entries[i] matches Descriptor::Table(child) ==> {
                    &&& N::unshared(tables, child)
                    &&& !N::walk(tables, child).freed.contains(child)
                })
            &&& forall|i: int, j: int, pa: PA|
                #![trigger walk_entry::<N>(tables, entries[i]).freed.contains(pa),
                    walk_entry::<N>(tables, entries[j])]
                0 <= i < j < to && walk_entry::<N>(tables, entries[i]).freed.contains(pa)
                    ==> !walk_entry::<N>(tables, entries[j]).freed.contains(pa)
        },
    }
}

/// What is given up for some entries is given up for one of them.
pub proof fn lemma_walk_entries_contains<N: RecursiveTeardownWalker>(
    tables: Tables,
    entries: Seq<Descriptor>,
    from: int,
    to: int,
    pa: PA,
)
    requires
        0 <= from <= to,
        walk_entries::<N>(tables, entries, from, to).freed.contains(pa),
    ensures
        exists|i: int|
            from <= i < to && (#[trigger] walk_entry::<N>(tables, entries[i])).freed.contains(
                pa,
            ),
    decreases to - from,
{
    if from < to {
        let first = walk_entry::<N>(tables, entries[from]);
        let rest = walk_entries::<N>(tables, entries, from + 1, to);
        if !first.freed.contains(pa) {
            let all = first.freed + rest.freed;
            let i = choose|i: int| 0 <= i < all.len() && all[i] == pa;
            if i < first.freed.len() {
                assert(first.freed[i] == pa);
            } else {
                assert(rest.freed[i - first.freed.len()] == pa);
            }
            lemma_walk_entries_contains::<N>(tables, entries, from + 1, to, pa);
        }
    }
}

/// What is given up for one entry is given up for all of them together,
/// where no entry fails.
pub proof fn lemma_walk_entries_covers<N: RecursiveTeardownWalker>(
    tables: Tables,
    entries: Seq<Descriptor>,
    from: int,
    to: int,
    i: int,
    pa: PA,
)
    requires
        0 <= from <= i < to,
        walk_entries::<N>(tables, entries, from, to).error is None,
        walk_entry::<N>(tables, entries[i]).freed.contains(pa),
    ensures
        walk_entries::<N>(tables, entries, from, to).freed.contains(pa),
    decreases to - from,
{
    let first = walk_entry::<N>(tables, entries[from]);
    let rest = walk_entries::<N>(tables, entries, from + 1, to);
    let all = first.freed + rest.freed;
    if i == from {
        let x = choose|x: int| 0 <= x < first.freed.len() && first.freed[x] == pa;
        assert(all[x] == pa);
    } else {
        lemma_walk_entries_covers::<N>(tables, entries, from + 1, to, i, pa);
        let x = choose|x: int| 0 <= x < rest.freed.len() && rest.freed[x] == pa;
        assert(all[x + first.freed.len()] == pa);
    }
}

/// Where a walk over entries succeeds, it succeeds for each of them.
pub proof fn lemma_entries_succeed<N: RecursiveTeardownWalker>(
    tables: Tables,
    entries: Seq<Descriptor>,
    from: int,
    to: int,
    i: int,
)
    requires
        from <= i < to,
        walk_entries::<N>(tables, entries, from, to).error is None,
    ensures
        walk_entry::<N>(tables, entries[i]).error is None,
    decreases to - from,
{
    if from < i {
        lemma_entries_succeed::<N>(tables, entries, from + 1, to, i);
    }
}

/// A walk over a table that succeeds gives up exactly the tables that the
/// entries refer to and what lies below those.
pub proof fn lemma_table_gives_up<N: RecursiveTeardownWalker>(
    tables: Tables,
    table_pa: PA,
    to: int,
    pa: PA,
)
    requires
        to >= 0,
        walk_table::<N>(tables, table_pa, to).error is None,
    ensures
        tables(table_pa) is Ok,
        walk_table::<N>(tables, table_pa, to).freed.contains(pa) <==> exists|i: int|
            0 <= i < to && (#[trigger] (tables(table_pa)->Ok_0)[i] matches Descriptor::Table(
                child,
            ) && (pa == child || N::walk(tables, child).freed.contains(pa))),
        forall|i: int|
            0 <= i < to ==> (#[trigger] (tables(table_pa)->Ok_0)[i] matches Descriptor::Table(
                child,
            ) ==> N::walk(tables, child).error is None),
{
    let entries = tables(table_pa)->Ok_0;
    let all = walk_table::<N>(tables, table_pa, to).freed;
    if all.contains(pa) {
        lemma_walk_entries_contains::<N>(tables, entries, 0, to, pa);
        let i = choose|i: int|
            0 <= i < to && (#[trigger] walk_entry::<N>(tables, entries[i])).freed.contains(pa);
        lemma_entries_succeed::<N>(tables, entries, 0, to, i);
        let w = walk_entry::<N>(tables, entries[i]).freed;
        let y = choose|y: int| 0 <= y < w.len() && w[y] == pa;
        if let Descriptor::Table(child) = entries[i] {
            if y < N::walk(tables, child).freed.len() {
                assert(N::walk(tables, child).freed[y] == pa);
            }
        }
    }
    assert forall|i: int|
        0 <= i < to && (#[trigger] entries[i] matches Descriptor::Table(child) && (pa == child
            || N::walk(tables, child).freed.contains(pa))) implies all.contains(pa) by {
        let child = entries[i]->Table_0;
        lemma_entries_succeed::<N>(tables, entries, 0, to, i);
        let w = walk_entry::<N>(tables, entries[i]).freed;
        let under = N::walk(tables, child).freed;
        if pa == child {
            assert(w[w.len() - 1] == pa);
        } else {
            let y = choose|y: int| 0 <= y < under.len() && under[y] == pa;
            assert(w[y] == pa);
        }
        lemma_walk_entries_covers::<N>(tables, entries, 0, to, i, pa);
    }
    assert forall|i: int| 0 <= i < to implies (
    #[trigger] entries[i] matches Descriptor::Table(child) ==> N::walk(
        tables,
        child,
    ).error is None) by {
        lemma_entries_succeed::<N>(tables, entries, 0, to, i);
    }
}

/// Entries that share nothing give up nothing twice.
pub proof fn lemma_walk_entries_once<N: RecursiveTeardownWalker>(
    tables: Tables,
    table_pa: PA,
    from: int,
    to: int,
)
    requires
        0 <= from <= to,
        unshared_table::<N>(tables, table_pa, to),
        tables(table_pa) is Ok,
    ensures
        walk_entries::<N>(
            tables,
            tables(table_pa)->Ok_0,
            from,
            to,
        ).freed.no_duplicates(),
    decreases to - from,
{
    let entries = tables(table_pa)->Ok_0;
    if from < to {
        let first = walk_entry::<N>(tables, entries[from]);
        let rest = walk_entries::<N>(tables, entries, from + 1, to);
        lemma_walk_entries_once::<N>(tables, table_pa, from + 1, to);
        if let Descriptor::Table(child) = entries[from] {
            N::lemma_freed_once(tables, child);
        }
        assert(first.freed.no_duplicates());
        let all = first.freed + rest.freed;
        assert forall|x: int, y: int|
            0 <= x < all.len() && 0 <= y < all.len() && x != y implies all[x] != all[y] by {
            let n = first.freed.len() as int;
            if x < n && y >= n || x >= n && y < n {
                let (a, b) = if x < n {
                    (x, y)
                } else {
                    (y, x)
                };
                if all[a] == all[b] {
                    let pa = all[a];
                    assert(first.freed[a] == pa);
                    assert(first.freed.contains(pa));
                    assert(rest.freed[b - n] == pa);
                    assert(rest.freed.contains(pa));
                    lemma_walk_entries_contains::<N>(tables, entries, from + 1, to, pa);
                    let j = choose|j: int|
                        from + 1 <= j < to && (#[trigger] walk_entry::<N>(
                            tables,
                            entries[j],
                        )).freed.contains(pa);
                    assert(walk_entry::<N>(tables, entries[from]).freed.contains(pa));
                    assert(!walk_entry::<N>(tables, entries[j]).freed.contains(pa));
                }
            }
        }
    }
}

/// Appends to `freed` what the first `to` entries of the table at `table_pa`
/// refer to, each child table after everything below it.
pub fn tear_down_entries<N: RecursiveTeardownWalker, PM: PageTableMapper>(
    table_pa: PA,
    to: usize,
    ctx: &WalkContext<PM>,
    freed: &mut Vec<PA>,
) -> (r: Result<(), KernelError>)
    requires
        ctx.mapper.wf(),
        0 < to <= DESCRIPTORS_PER_PAGE,
    ensures
        final(freed)@ == old(freed)@ + walk_table::<N>(ctx.mapper.tables(), table_pa, to as int).freed,
        r == walk_result(walk_table::<N>(ctx.mapper.tables(), table_pa, to as int)),
{
    let ghost before = freed@;
    let ghost whole = walk_table::<N>(ctx.mapper.tables(), table_pa, to as int);
    let mut cursor: usize = 0;
    while cursor < to
        invariant
            ctx.mapper.wf(),
            cursor <= to <= DESCRIPTORS_PER_PAGE,
            0 < to,
            cursor > 0 ==> (ctx.mapper.tables())(table_pa) is Ok,
            before == old(freed)@,
            whole == walk_table::<N>(ctx.mapper.tables(), table_pa, to as int),
            cursor == 0 ==> freed@ == before,
            (ctx.mapper.tables())(table_pa) matches Ok(entries) ==> {
                let rest = walk_entries::<N>(ctx.mapper.tables(), entries, cursor as int, to as int);
                &&& before + whole.freed == freed@ + rest.freed
                &&& whole.error == rest.error
            },
        decreases to - cursor,
    {
        let ghost so_far = freed@;
        let desc = match ctx.mapper.entry(table_pa, cursor) {
            Ok(desc) => desc,
            Err(e) => {
                assert(freed@ =~= before + whole.freed);
                return Err(e);
            },
        };
        let ghost entries = (ctx.mapper.tables())(table_pa)->Ok_0;
        let ghost first = walk_entry::<N>(ctx.mapper.tables(), entries[cursor as int]);
        let ghost rest = walk_entries::<N>(ctx.mapper.tables(), entries, cursor + 1, to as int);
        if let Some(child) = desc.next_table_address() {
            match N::tear_down(child, ctx, freed) {
                Ok(()) => {},
                Err(e) => {
                    return Err(e);
                },
            }
            freed.push(child);
        }
        assert(freed@ =~= so_far + first.freed);
        assert(so_far + (first.freed + rest.freed) =~= (so_far + first.freed) + rest.freed);
        cursor += 1;
    }
    assert(freed@ =~= before + whole.freed);
    Ok(())
}

impl<T> RecursiveTeardownWalker for T where T: TableMapperTable {
    open spec fn walk(tables: Tables, table_pa: PA) -> Walk {
        walk_table::<T::NextLevel>(tables, table_pa, DESCRIPTORS_PER_PAGE as int)
    }

    open spec fn unshared(tables: Tables, table_pa: PA) -> bool {
        unshared_table::<T::NextLevel>(tables, table_pa, DESCRIPTORS_PER_PAGE as int)
    }

    fn tear_down<PM: PageTableMapper>(
        table_pa: PA,
        ctx: &WalkContext<PM>,
        freed: &mut Vec<PA>,
    ) -> (r: Result<(), KernelError>) {
        tear_down_entries::<T::NextLevel, PM>(table_pa, DESCRIPTORS_PER_PAGE, ctx, freed)
    }

    proof fn lemma_freed_once(tables: Tables, table_pa: PA) {
        if tables(table_pa) is Ok {
            lemma_walk_entries_once::<T::NextLevel>(
                tables,
                table_pa,
                0,
                DESCRIPTORS_PER_PAGE as int,
            );
        }
    }
}

} // verus!
