//! Signals and sets of them.
use vstd::prelude::*;

verus! {

/// The number of the signal that tells of a child's change of state.
pub const SIGCHLD: u8 = 17;

/// How many signals there are.
pub const SIGNALS: u8 = 64;

/// A signal, by the number user space knows it by.
#[derive(Clone, Copy, Debug, PartialEq, Eq, Structural)]
pub struct SigId {
    pub id: u8,
}

impl SigId {
    /// Signals are counted from one.
    pub open spec fn wf(self) -> bool {
        1 <= self.id <= SIGNALS
    }

    /// The signal that user space knows by this number.
    pub fn from_user_id(id: u8) -> (r: Option<SigId>)
        ensures
            r is Some <==> 1 <= id <= SIGNALS,
            r matches Some(sig) ==> sig.wf() && sig.id == id,
    {
        if 1 <= id && id <= SIGNALS {
            Some(SigId { id })
        } else {
            None
        }
    }

    /// The number user space knows the signal by.
    pub fn user_id(self) -> (id: u8)
        ensures
            id == self.id,
    {
        self.id
    }
}

/// A set of signals, one bit for each.
#[derive(Clone, Copy, Debug, PartialEq, Eq, Structural)]
pub struct SigSet {
    pub bits: u64,
}

impl SigSet {
    /// The signal is in the set.
    pub open spec fn has(self, sig: SigId) -> bool {
        (self.bits >> ((sig.id - 1) as u64)) & 1 == 1
    }

    /// The set holds `sig` and what `before` holds, and nothing else.
    pub open spec fn is_with(self, before: SigSet, sig: SigId) -> bool {
        forall|other: SigId|
            other.wf() ==> #[trigger] self.has(other) == (other == sig || before.has(other))
    }

    /// No signals.
    pub fn empty() -> (set: Self)
        ensures
            forall|sig: SigId| sig.wf() ==> !#[trigger] set.has(sig),
            set.bits == 0,
    {
        let set = SigSet { bits: 0 };
        proof {
            assert forall|sig: SigId| sig.wf() implies !#[trigger] set.has(sig) by {
                let shift = (sig.id - 1) as u64;
                assert((0u64 >> shift) & 1 == 0) by (bit_vector);
            }
        }
        set
    }

    /// Whether the signal is in the set.
    pub fn contains(&self, sig: SigId) -> (b: bool)
        requires
            sig.wf(),
        ensures
            b == self.has(sig),
    {
        let shift: u64 = (sig.id - 1) as u64;
        (self.bits >> shift) & 1 == 1
    }

    /// Puts a signal into the set.
    pub fn insert(&mut self, sig: SigId)
        requires
            sig.wf(),
        ensures
            forall|other: SigId|
                other.wf() ==> #[trigger] final(self).has(other) == (other == sig || old(self).has(
                    other,
                )),
            final(self).is_with(*old(self), sig),
    {
        let ghost before = *self;
        let shift: u64 = (sig.id - 1) as u64;
        self.bits = self.bits | (1u64 << shift);
        proof {
            assert forall|other: SigId| other.wf() implies #[trigger] self.has(other) == (other
                == sig || before.has(other)) by {
                let bits = before.bits;
                let at = (other.id - 1) as u64;
                assert(((bits | (1u64 << shift)) >> at) & 1 == 1 <==> (at == shift || (bits >> at)
                    & 1 == 1)) by (bit_vector)
                    requires
                        shift < 64,
                        at < 64,
                ;
            }
        }
    }
}

} // verus!
