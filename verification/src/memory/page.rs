//! Page frames: physical memory counted in pages.
use crate::memory::buddy::{buddy_of, lemma_flip_is_buddy, MAX_ORDER};
use vstd::prelude::*;

verus! {

/// log2 of the page size.
pub const PAGE_SHIFT: usize = 12;

/// Bytes in a page.
pub const PAGE_SIZE: usize = 4096;

/// The number of a physical page.
#[derive(Clone, Copy, Debug, PartialEq, Eq, PartialOrd, Ord, Structural)]
pub struct PageFrame {
    pub n: usize,
}

impl PageFrame {
    /// The page with the given number.
    pub fn from_pfn(n: usize) -> (pfn: Self)
        ensures
            pfn.n == n,
    {
        PageFrame { n }
    }

    /// The number of the page.
    pub fn value(&self) -> (n: usize)
        ensures
            n == self.n,
    {
        self.n
    }

    /// The buddy of the block of `order` that starts at this page.
    pub fn buddy(self, order: usize) -> (other: PageFrame)
        requires
            order < MAX_ORDER,
        ensures
            other.n == buddy_of(self.n as int, order as nat),
    {
        proof {
            lemma_flip_is_buddy(self.n, order);
        }
        PageFrame { n: self.n ^ (1usize << order) }
    }
}

} // verus!
