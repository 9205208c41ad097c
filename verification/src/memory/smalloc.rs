//! The allocator used before the frame allocator is up: lists of what memory
//! there is and what of it is taken.
use crate::error::KernelError;
use crate::memory::address::{PhysMemoryRegion, PA};
use vstd::prelude::*;

verus! {

/// The memory of the machine and the reservations in it.
pub struct Smalloc {
    pub memory: Vec<PhysMemoryRegion>,
    pub res: Vec<PhysMemoryRegion>,
}

/// None of the reservations shares an address with the `size` bytes from
/// `start` on.
pub open spec fn unreserved(res: Seq<PhysMemoryRegion>, start: int, size: int) -> bool {
    forall|i: int| 0 <= i < res.len() ==> !(#[trigger] res[i]).overlaps(start, size)
}

/// Some memory region holds all of the `size` bytes from `start` on.
pub open spec fn in_memory(memory: Seq<PhysMemoryRegion>, start: int, size: int) -> bool {
    exists|i: int| 0 <= i < memory.len() && (#[trigger] memory[i]).holds(start, size)
}

impl Smalloc {
    /// Memory regions are not empty, come in ascending order and do not
    /// overlap.
    pub open spec fn wf(&self) -> bool {
        &&& forall|i: int|
            0 <= i < self.memory@.len() ==> (#[trigger] self.memory@[i]).wf() && self.memory@[i].size
                > 0
        &&& forall|i: int, j: int|
            0 <= i < j < self.memory@.len() ==> (#[trigger] self.memory@[i]).end() <= (
            #[trigger] self.memory@[j]).start()
        &&& forall|i: int| 0 <= i < self.res@.len() ==> (#[trigger] self.res@[i]).wf()
    }

    /// `size` bytes can be placed at `start`.
    pub open spec fn fits(&self, start: int, size: int, align: int) -> bool {
        &&& start >= 0
        &&& start % align == 0
        &&& in_memory(self.memory@, start, size)
        &&& unreserved(self.res@, start, size)
    }

    /// `start` is the lowest place for `size` bytes.
    pub open spec fn first_fit(&self, start: int, size: int, align: int) -> bool {
        &&& self.fits(start, size, align)
        &&& forall|a: int| #[trigger] self.fits(a, size, align) ==> start <= a
    }

    /// There is no place for `size` bytes.
    pub open spec fn no_place(&self, size: int, align: int) -> bool {
        forall|a: int| !#[trigger] self.fits(a, size, align)
    }

    /// Nothing is known yet.
    pub fn new() -> (s: Self)
        ensures
            s.wf(),
            s.memory@.len() == 0,
            s.res@.len() == 0,
    {
        Smalloc { memory: Vec::new(), res: Vec::new() }
    }

    /// Adds memory, which must not be empty nor overlap what is known already.
    pub fn add_memory(&mut self, region: PhysMemoryRegion) -> (r: Result<(), KernelError>)
        requires
            old(self).wf(),
            region.wf(),
        ensures
            final(self).wf(),
            final(self).res@ == old(self).res@,
            r is Ok <==> region.size > 0 && forall|i: int|
                0 <= i < old(self).memory@.len() ==> !(#[trigger] old(self).memory@[i]).overlaps(
                    region.start(),
                    region.size as int,
                ),
            r is Ok ==> exists|at: int|
                0 <= at <= old(self).memory@.len() && final(self).memory@ == old(
                    self,
                ).memory@.insert(at, region),
            r is Err ==> r == Err::<(), _>(KernelError::InvalidValue) && final(self).memory@ == old(
                self,
            ).memory@,
    {
        if region.size == 0 {
            return Err(KernelError::InvalidValue);
        }
        let mut at: usize = 0;
        while at < self.memory.len() && self.memory[at].start_address().addr
            < region.start_address().addr
            invariant
                self.wf(),
                at <= self.memory@.len(),
                forall|i: int| 0 <= i < at ==> (#[trigger] self.memory@[i]).start() < region.start(),
            decreases self.memory@.len() - at,
        {
            at += 1;
        }
        if at > 0 && self.memory[at - 1].end_address().addr > region.start_address().addr {
            proof {
                assert(self.memory@[at - 1].overlaps(region.start(), region.size as int));
            }
            return Err(KernelError::InvalidValue);
        }
        if at < self.memory.len() && self.memory[at].start_address().addr
            < region.end_address().addr {
            proof {
                assert(self.memory@[at as int].overlaps(region.start(), region.size as int));
            }
            return Err(KernelError::InvalidValue);
        }
        let ghost before = self.memory@;
        proof {
            assert forall|i: int| 0 <= i < before.len() implies !(#[trigger] before[i]).overlaps(
                region.start(),
                region.size as int,
            ) by {
                if i < at {
                    if i < at - 1 {
                        assert(before[i].end() <= before[at - 1].start());
                    }
                } else {
                    if i > at {
                        assert(before[at as int].end() <= before[i].start());
                    }
                }
            }
        }
        self.memory.insert(at, region);
        proof {
            let after = self.memory@;
            assert forall|i: int, j: int| 0 <= i < j < after.len() implies (#[trigger] after[i]).end()
                <= (#[trigger] after[j]).start() by {
                let bi = if i < at { i } else { i - 1 };
                let bj = if j < at { j } else { j - 1 };
                if i == at {
                    if bj > at {
                        assert(before[at as int].end() <= before[bj].start());
                    }
                } else if j == at {
                    if bi < at - 1 {
                        assert(before[bi].end() <= before[at - 1].start());
                    }
                } else {
                    assert(before[bi].end() <= before[bj].start());
                }
            }
            assert forall|i: int| 0 <= i < after.len() implies (#[trigger] after[i]).wf()
                && after[i].size > 0 by {
                if i < at {
                    assert(before[i].wf());
                } else if i > at {
                    assert(before[i - 1].wf());
                }
            }
        }
        Ok(())
    }

    /// Takes memory out of what may be handed out.
    pub fn add_reservation(&mut self, region: PhysMemoryRegion)
        requires
            old(self).wf(),
            region.wf(),
        ensures
            final(self).wf(),
            final(self).memory@ == old(self).memory@,
            final(self).res@ == old(self).res@.push(region),
    {
        self.res.push(region);
    }

    /// A reservation that shares an address with the `size` bytes from
    /// `start` on, if there is one.
    pub fn reservation_over(&self, start: usize, size: usize) -> (r: Option<PhysMemoryRegion>)
        requires
            self.wf(),
            start + size <= usize::MAX,
        ensures
            r is None <==> unreserved(self.res@, start as int, size as int),
            r is Some ==> self.res@.contains(r->0) && r->0.overlaps(start as int, size as int),
    {
        let mut i: usize = 0;
        while i < self.res.len()
            invariant
                self.wf(),
                i <= self.res@.len(),
                start + size <= usize::MAX,
                forall|j: int|
                    0 <= j < i ==> !(#[trigger] self.res@[j]).overlaps(start as int, size as int),
            decreases self.res@.len() - i,
        {
            let r = self.res[i];
            proof {
                assert(self.res@[i as int].wf());
            }
            if r.size > 0 && start < r.end_address().addr && r.start_address().addr < start + size {
                assert(self.res@[i as int].overlaps(start as int, size as int));
                return Some(r);
            }
            i += 1;
        }
        None
    }

    /// Finds the lowest place for `size` bytes.
    pub fn find(&self, size: usize, align: usize) -> (r: Option<usize>)
        requires
            self.wf(),
            align > 0,
        ensures
            r is Some ==> self.first_fit(r->0 as int, size as int, align as int),
            r is None ==> forall|a: int| !#[trigger] self.fits(a, size as int, align as int),
            r is None ==> self.no_place(size as int, align as int),
    {
        let mut i: usize = 0;
        while i < self.memory.len()
            invariant
                self.wf(),
                align > 0,
                i <= self.memory@.len(),
                forall|a: int, j: int|
                    0 <= j < i && #[trigger] self.memory@[j].holds(a, size as int) ==> !self.fits(
                        a,
                        size as int,
                        align as int,
                    ),
            decreases self.memory@.len() - i,
        {
            let region = self.memory[i];
            proof {
                assert(self.memory@[i as int].wf());
            }
            let end: usize = region.end_address().addr;
            let mut from: usize = region.start_address().addr;
            let mut searching: bool = true;
            while searching
                invariant
                    self.wf(),
                    align > 0,
                    i < self.memory@.len(),
                    region == self.memory@[i as int],
                    end == region.end(),
                    region.start() <= from,
                    forall|a: int, j: int|
                        0 <= j < i && #[trigger] self.memory@[j].holds(a, size as int)
                            ==> !self.fits(a, size as int, align as int),
                    forall|a: int|
                        region.start() <= a < from ==> !#[trigger] self.fits(
                            a,
                            size as int,
                            align as int,
                        ),
                    !searching ==> forall|a: int|
                        region.holds(a, size as int) ==> !#[trigger] self.fits(
                            a,
                            size as int,
                            align as int,
                        ),
                decreases (if searching { 1int } else { 0int }), usize::MAX - from,
            {
                let over: usize = from % align;
                let pad: usize = if over == 0 {
                    0
                } else {
                    align - over
                };
                proof {
                    lemma_next_multiple(from as int, align as int);
                }
                if pad > usize::MAX - from || size > usize::MAX - (from + pad) || from + pad + size > end {
                    proof {
                        assert forall|a: int| region.holds(a, size as int) implies !#[trigger] self.fits(
                            a,
                            size as int,
                            align as int,
                        ) by {}
                    }
                    searching = false;
                } else {
                    let start: usize = from + pad;
                    match self.reservation_over(start, size) {
                        None => {
                            proof {
                                assert(self.memory@[i as int].holds(start as int, size as int));
                                assert forall|a: int| #[trigger]
                                    self.fits(a, size as int, align as int) implies start <= a by {
                                    let j = choose|j: int|
                                        0 <= j < self.memory@.len() && (
                                        #[trigger] self.memory@[j]).holds(a, size as int);
                                    if j > i {
                                        assert(self.memory@[i as int].end()
                                            <= self.memory@[j].start());
                                    }
                                    assert(self.memory@[j].holds(a, size as int));
                                }
                            }
                            return Some(start);
                        },
                        Some(r) => {
                            proof {
                                let k = choose|k: int|
                                    0 <= k < self.res@.len() && self.res@[k] == r;
                                assert(self.res@[k].wf());
                                assert forall|a: int|
                                    region.start() <= a < r.end() implies !#[trigger] self.fits(
                                    a,
                                    size as int,
                                    align as int,
                                ) by {
                                    if a >= start {
                                        assert(self.res@[k].overlaps(a, size as int));
                                    }
                                }
                            }
                            from = r.end_address().addr;
                        },
                    }
                }
            }
            proof {
                assert forall|a: int, j: int|
                    0 <= j < i + 1 && #[trigger] self.memory@[j].holds(a, size as int) implies !self.fits(
                    a,
                    size as int,
                    align as int,
                ) by {}
            }
            i += 1;
        }
        proof {
            assert forall|a: int| !#[trigger] self.fits(a, size as int, align as int) by {
                if self.fits(a, size as int, align as int) {
                    let j = choose|j: int|
                        0 <= j < self.memory@.len() && (#[trigger] self.memory@[j]).holds(
                            a,
                            size as int,
                        );
                    assert(self.memory@[j].holds(a, size as int));
                }
            }
        }
        None
    }

    /// Reserves `size` bytes at the lowest place where they fit.
    pub fn reserve_first_fit(&mut self, size: usize, align: usize) -> (r: Result<PA, KernelError>)
        requires
            old(self).wf(),
            align > 0,
        ensures
            final(self).wf(),
            final(self).memory@ == old(self).memory@,
            r matches Ok(pa) ==> {
                &&& old(self).first_fit(pa.addr as int, size as int, align as int)
                &&& final(self).res@ == old(self).res@.push(PhysMemoryRegion { address: pa, size })
            },
            r matches Err(e) ==> {
                &&& e == KernelError::NoMemory
                &&& final(self).res@ == old(self).res@
                &&& forall|a: int| !#[trigger] old(self).fits(a, size as int, align as int)
                &&& old(self).no_place(size as int, align as int)
            },
    {
        match self.find(size, align) {
            None => Err(KernelError::NoMemory),
            Some(addr) => {
                let region = PhysMemoryRegion { address: PA { addr }, size };
                proof {
                    let j = choose|j: int|
                        0 <= j < self.memory@.len() && (#[trigger] self.memory@[j]).holds(
                            addr as int,
                            size as int,
                        );
                    assert(self.memory@[j].wf());
                }
                self.add_reservation(region);
                Ok(PA { addr })
            },
        }
    }
}

/// The next multiple of `align` from `x` on, and that none lies before it.
proof fn lemma_next_multiple(x: int, align: int)
    requires
        x >= 0,
        align > 0,
    ensures
        ({
            let pad = if x % align == 0 { 0 } else { align - x % align };
            &&& (x + pad) % align == 0
            &&& forall|a: int| x <= a < x + pad ==> #[trigger] (a % align) != 0
        }),
{
    let pad = if x % align == 0 { 0 } else { align - x % align };
    let q = x / align;
    let r = x % align;
    vstd::arithmetic::div_mod::lemma_fundamental_div_mod(x, align);
    if r != 0 {
        assert(x + pad == (q + 1) * align + 0) by (nonlinear_arith)
            requires
                x == align * q + r,
                pad == align - r,
        ;
        vstd::arithmetic::div_mod::lemma_fundamental_div_mod_converse(x + pad, align, q + 1, 0);
        assert forall|a: int| x <= a < x + pad implies #[trigger] (a % align) != 0 by {
            let d = r + (a - x);
            assert(a == q * align + d) by (nonlinear_arith)
                requires
                    x == align * q + r,
                    d == r + (a - x),
            ;
            vstd::arithmetic::div_mod::lemma_fundamental_div_mod_converse(a, align, q, d);
        }
    }
}

} // verus!
