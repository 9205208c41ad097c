//! Page tables held in memory, reached by their physical address.
use crate::error::KernelError;
use crate::memory::address::PA;
use crate::memory::paging::table::{
    Descriptor, PageTableMapper, Tables, DESCRIPTORS_PER_PAGE,
};
use vstd::prelude::*;

verus! {

/// A page table and where it lives.
pub struct StoredTable {
    pub pa: PA,
    pub entries: Vec<Descriptor>,
}

/// A collection of page tables.
pub struct PageTableArena {
    pub stored: Vec<StoredTable>,
}

/// The entries of the table that was put at `pa` last.
pub open spec fn stored_at(
    stored: Seq<StoredTable>,
    pa: PA,
) -> Result<Seq<Descriptor>, KernelError>
    decreases stored.len(),
{
    if stored.len() == 0 {
        Err(KernelError::InvalidValue)
    } else if stored.last().pa == pa {
        Ok(stored.last().entries@)
    } else {
        stored_at(stored.drop_last(), pa)
    }
}

impl PageTableMapper for PageTableArena {
    open spec fn wf(&self) -> bool {
        forall|i: int|
            0 <= i < self.stored@.len() ==> (#[trigger] self.stored@[i]).entries@.len()
                == DESCRIPTORS_PER_PAGE
    }

    open spec fn tables(&self) -> Tables {
        |pa: PA| stored_at(self.stored@, pa)
    }

    fn entry(&self, pa: PA, idx: usize) -> (r: Result<Descriptor, KernelError>) {
        let mut n: usize = self.stored.len();
        assert(self.stored@.take(n as int) =~= self.stored@);
        while n > 0
            invariant
                self.wf(),
                idx < DESCRIPTORS_PER_PAGE,
                n <= self.stored@.len(),
                stored_at(self.stored@, pa) == stored_at(self.stored@.take(n as int), pa),
            decreases n,
        {
            let last = &self.stored[n - 1];
            assert(self.stored@.take(n as int).drop_last() =~= self.stored@.take(n - 1));
            if last.pa.addr == pa.addr {
                assert(self.stored@.take(n as int).last() == self.stored@[n - 1]);
                return Ok(last.entries[idx]);
            }
            n -= 1;
        }
        Err(KernelError::InvalidValue)
    }
}

impl PageTableArena {
    /// No tables.
    pub fn new() -> (arena: Self)
        ensures
            arena.wf(),
            arena.stored@.len() == 0,
    {
        PageTableArena { stored: Vec::new() }
    }

    /// Puts an empty table at `pa`.
    pub fn add_table(&mut self, pa: PA)
        requires
            old(self).wf(),
        ensures
            final(self).wf(),
            final(self).stored@.len() == old(self).stored@.len() + 1,
            final(self).stored@.drop_last() == old(self).stored@,
            final(self).stored@.last().pa == pa,
            forall|i: int|
                0 <= i < DESCRIPTORS_PER_PAGE ==> (
                #[trigger] final(self).stored@.last().entries@[i]) == Descriptor::Invalid,
    {
        let mut entries: Vec<Descriptor> = Vec::new();
        let mut i: usize = 0;
        while i < DESCRIPTORS_PER_PAGE
            invariant
                i <= DESCRIPTORS_PER_PAGE,
                entries@.len() == i,
                forall|j: int| 0 <= j < i ==> (#[trigger] entries@[j]) == Descriptor::Invalid,
            decreases DESCRIPTORS_PER_PAGE - i,
        {
            entries.push(Descriptor::Invalid);
            i += 1;
        }
        let ghost before = self.stored@;
        self.stored.push(StoredTable { pa, entries });
        assert(self.stored@.drop_last() =~= before);
    }

    /// Changes one entry of the `table`-th table.
    pub fn set_entry(&mut self, table: usize, idx: usize, desc: Descriptor)
        requires
            old(self).wf(),
            table < old(self).stored@.len(),
            idx < DESCRIPTORS_PER_PAGE,
        ensures
            final(self).wf(),
            final(self).stored@.len() == old(self).stored@.len(),
            forall|i: int|
                0 <= i < old(self).stored@.len() && i != table ==> (
                #[trigger] final(self).stored@[i]) == old(self).stored@[i],
            final(self).stored@[table as int].pa == old(self).stored@[table as int].pa,
            final(self).stored@[table as int].entries@ == old(
                self,
            ).stored@[table as int].entries@.update(idx as int, desc),
    {
        self.stored[table].entries.set(idx, desc);
    }
}

} // verus!
