//! Page table entries and access to the tables.
use crate::error::KernelError;
use crate::memory::address::PA;
use vstd::prelude::*;

verus! {

/// Entries in a page table.
pub const DESCRIPTORS_PER_PAGE: usize = 512;

/// What an entry of a page table refers to.
#[derive(Clone, Copy, Debug, PartialEq, Eq, Structural)]
pub enum Descriptor {
    /// Nothing.
    Invalid,
    /// A table of the next level.
    Table(PA),
    /// A frame of mapped memory.
    Page(PA),
}

impl Descriptor {
    /// The table of the next level that the entry refers to.
    pub fn next_table_address(&self) -> (pa: Option<PA>)
        ensures
            pa == (match *self {
                Descriptor::Table(pa) => Some(pa),
                _ => None,
            }),
    {
        match self {
            Descriptor::Table(pa) => Some(*pa),
            _ => None,
        }
    }

    /// The frame that the entry maps.
    pub fn mapped_address(&self) -> (pa: Option<PA>)
        ensures
            pa == (match *self {
                Descriptor::Page(pa) => Some(pa),
                _ => None,
            }),
    {
        match self {
            Descriptor::Page(pa) => Some(*pa),
            _ => None,
        }
    }
}

/// Page tables by their physical address: the entries of each, or why it
/// cannot be reached.
pub type Tables = spec_fn(PA) -> Result<Seq<Descriptor>, KernelError>;

/// Access to page tables by their physical address.
pub trait PageTableMapper {
    /// The mapper can be used.
    spec fn wf(&self) -> bool;

    /// For each address the entries of the table there, or why it cannot be
    /// reached.
    spec fn tables(&self) -> Tables;

    /// Reads one entry of the table at `pa`.
    fn entry(&self, pa: PA, idx: usize) -> (r: Result<Descriptor, KernelError>)
        requires
            self.wf(),
            idx < DESCRIPTORS_PER_PAGE,
        ensures
            r == (match (self.tables())(pa) {
                Ok(entries) => Ok(entries[idx as int]),
                Err(e) => Err(e),
            }),
    ;
}

/// What a walk over page tables needs.
pub struct WalkContext<PM> {
    pub mapper: PM,
}

} // verus!
