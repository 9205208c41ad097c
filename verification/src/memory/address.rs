//! Physical addresses and contiguous ranges of them.
use crate::memory::page::{PageFrame, PAGE_SHIFT, PAGE_SIZE};
use vstd::prelude::*;

verus! {

/// A physical address.
#[derive(Clone, Copy, Debug, PartialEq, Eq, PartialOrd, Ord, Structural)]
pub struct PA {
    pub addr: usize,
}

impl PA {
    /// The address with the given value.
    pub fn from_value(addr: usize) -> (pa: Self)
        ensures
            pa.addr == addr,
    {
        PA { addr }
    }

    /// The value of the address.
    pub fn value(self) -> (addr: usize)
        ensures
            addr == self.addr,
    {
        self.addr
    }

    /// The page that holds the address.
    pub fn to_pfn(self) -> (pfn: PageFrame)
        ensures
            pfn.n == self.addr as int / PAGE_SIZE as int,
    {
        proof {
            lemma_page_shift(self.addr);
        }
        PageFrame { n: self.addr >> PAGE_SHIFT }
    }
}

/// Shifting by the page shift divides by the page size.
pub proof fn lemma_page_shift(x: usize)
    ensures
        x >> PAGE_SHIFT == x as int / PAGE_SIZE as int,
{
    vstd::bits::lemma_usize_shr_is_div(x, PAGE_SHIFT);
    vstd::arithmetic::power2::lemma2_to64();
}

impl PageFrame {
    /// The address of the first byte of the page.
    pub fn pa(self) -> (pa: PA)
        requires
            self.n * PAGE_SIZE <= usize::MAX,
        ensures
            pa.addr == self.n * PAGE_SIZE,
    {
        PA { addr: self.n * PAGE_SIZE }
    }
}

/// A contiguous range of physical memory.
#[derive(Clone, Copy, Debug, PartialEq, Eq, Structural)]
pub struct PhysMemoryRegion {
    pub address: PA,
    pub size: usize,
}

impl PhysMemoryRegion {
    /// The first address of the region.
    pub open spec fn start(self) -> int {
        self.address.addr as int
    }

    /// The first address past the region.
    pub open spec fn end(self) -> int {
        self.address.addr + self.size
    }

    /// The end of the region is an address.
    pub open spec fn wf(self) -> bool {
        self.end() <= usize::MAX
    }

    /// The region shares an address with the `size` bytes from `start` on.
    pub open spec fn overlaps(self, start: int, size: int) -> bool {
        self.size > 0 && start < self.end() && self.start() < start + size
    }

    /// The region holds all of the `size` bytes from `start` on.
    pub open spec fn holds(self, start: int, size: int) -> bool {
        self.start() <= start && start + size <= self.end()
    }

    /// Every page that `iter_pfns` yields.
    pub open spec fn covers_pfn(self, pfn: int) -> bool {
        self.start() / PAGE_SIZE as int <= pfn < self.start() / PAGE_SIZE as int + self.size as int
            / PAGE_SIZE as int
    }

    /// The region of `size` bytes from `address` on.
    pub fn new(address: PA, size: usize) -> (region: Self)
        ensures
            region.address == address,
            region.size == size,
    {
        PhysMemoryRegion { address, size }
    }

    /// The first address of the region.
    pub fn start_address(&self) -> (pa: PA)
        ensures
            pa.addr == self.start(),
    {
        self.address
    }

    /// The first address past the region.
    pub fn end_address(&self) -> (pa: PA)
        requires
            self.wf(),
        ensures
            pa.addr == self.end(),
    {
        PA { addr: self.address.addr + self.size }
    }

    /// The pages of the region, as many as its size has whole pages, from the
    /// page of its first address on.
    pub fn iter_pfns(&self) -> (pfns: Vec<PageFrame>)
        requires
            self.wf(),
        ensures
            pfns@.len() == self.size as int / PAGE_SIZE as int,
            forall|i: int|
                0 <= i < pfns@.len() ==> (#[trigger] pfns@[i]).n == self.start() / PAGE_SIZE as int
                    + i,
    {
        let first: usize = self.address.to_pfn().n;
        proof {
            lemma_page_shift(self.size);
        }
        let count: usize = self.size >> PAGE_SHIFT;
        let mut pfns: Vec<PageFrame> = Vec::new();
        let mut i: usize = 0;
        while i < count
            invariant
                i <= count,
                pfns@.len() == i,
                first == self.start() / PAGE_SIZE as int,
                count == self.size as int / PAGE_SIZE as int,
                first + count <= usize::MAX,
                forall|j: int| 0 <= j < i ==> (#[trigger] pfns@[j]).n == first + j,
            decreases count - i,
        {
            pfns.push(PageFrame { n: first + i });
            i += 1;
        }
        pfns
    }
}

} // verus!
