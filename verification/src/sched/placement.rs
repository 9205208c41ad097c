//! Finding the processor with the least to do. Each processor publishes its
//! load in one shared word; the word holds the processor that had the least
//! when it was last changed.
use std::sync::atomic::{AtomicU64, Ordering};
use vstd::prelude::*;

verus! {

/// Where in the word the load stands. The processor stands below it.
pub const WEIGHT_SHIFT: u32 = 16;

/// How many times a processor tries to publish its load before it gives up.
pub const MAX_RETRIES: usize = 8;

/// How long a processor waits until it publishes its load again, in
/// nanoseconds.
pub const MIN_COOLDOWN: u64 = 16_000_000;

/// The processor in a word.
pub open spec fn cpu_in(info: u64) -> int {
    info as int % 0x1_0000
}

/// The load in a word.
pub open spec fn weight_in(info: u64) -> int {
    info as int / 0x1_0000
}

/// The word for a processor and its load, as far as they fit.
pub open spec fn packed(cpu_id: u64, weight: u64) -> int {
    cpu_id as int % 0x1_0000 + weight as int % 0x1_0000_0000_0000 * 0x1_0000
}

/// The word for a processor and its load, as the processors write it.
pub open spec fn word_for(cpu_id: u64, weight: u64) -> u64 {
    packed(cpu_id, weight) as u64
}

/// The word for a processor and its load.
pub fn pack_info(cpu_id: u64, weight: u64) -> (info: u64)
    ensures
        info == packed(cpu_id, weight),
{
    proof {
        assert((cpu_id & 0xffff) | ((weight & 0xffff_ffff_ffff) << 16) == (cpu_id & 0xffff) + (weight
            & 0xffff_ffff_ffff) * 0x1_0000) by (bit_vector);
        assert(cpu_id & 0xffff == cpu_id % 0x1_0000) by (bit_vector);
        assert(weight & 0xffff_ffff_ffff == weight % 0x1_0000_0000_0000) by (bit_vector);
    }
    (cpu_id & 0xffff) | ((weight & 0xffff_ffff_ffff) << WEIGHT_SHIFT)
}

/// The processor in a word.
pub fn cpu_of(info: u64) -> (cpu: u64)
    ensures
        cpu == cpu_in(info),
{
    proof {
        assert(info & 0xffff == info % 0x1_0000) by (bit_vector);
    }
    info & 0xffff
}

/// The load in a word.
pub fn weight_of(info: u64) -> (weight: u64)
    ensures
        weight == weight_in(info),
{
    proof {
        assert(info >> 16 == info / 0x1_0000) by (bit_vector);
    }
    info >> WEIGHT_SHIFT
}

/// The processor that a word says has the least to do.
pub fn best_cpu(info: u64) -> (cpu: usize)
    ensures
        cpu == cpu_in(info),
{
    cpu_of(info) as usize
}

/// An acquiring load of the shared word can give `info`.
pub open spec fn can_load(word: &AtomicU64, info: u64) -> bool {
    call_ensures(AtomicU64::load, (word, Ordering::Acquire), info)
}

/// Putting `new` in place of `current` in the shared word can end as `r`: done,
/// or refused with the word that stands there.
pub open spec fn can_swap(word: &AtomicU64, current: u64, new: u64, r: Result<u64, u64>) -> bool {
    call_ensures(
        AtomicU64::compare_exchange,
        (word, current, new, Ordering::AcqRel, Ordering::Acquire),
        r,
    )
}

/// Nobody but this processor writes the word, which is `was`: that is what
/// loads give, and an attempt to replace the word succeeds from it and is
/// refused with it from anything else.
pub open spec fn undisturbed(word: &AtomicU64, was: u64) -> bool {
    &&& forall|info: u64| #[trigger] can_load(word, info) ==> info == was
    &&& forall|current: u64, new: u64, r: Result<u64, u64>| #[trigger]
        can_swap(word, current, new, r) ==> match r {
            Ok(_) => current == was,
            Err(info) => current != was && info == was,
        }
}

/// The processor with the least to do, as the shared word has it at the
/// moment it is read.
pub fn get_best_cpu(word: &AtomicU64) -> (cpu: usize)
    ensures
        exists|info: u64| #[trigger] can_load(word, info) && cpu == cpu_in(info),
        cpu < 0x1_0000,
{
    let info: u64 = word.load(Ordering::Acquire);
    assert(can_load(word, info));
    best_cpu(info)
}

/// A processor should replace the word: it is its own and has changed, or the
/// processor has less to do.
pub open spec fn replaces(cpu_id: u64, weight: u64, info: u64) -> bool {
    (cpu_id == cpu_in(info) && info != packed(cpu_id, weight)) || weight < weight_in(info)
}

/// It is too early to publish again.
pub open spec fn too_early(last: Option<u64>, now: Option<u64>) -> bool {
    last is Some && now is Some && now->0 - last->0 < MIN_COOLDOWN
}

/// A processor's load on its way into the shared word. The word may change
/// while the processor looks at it, so each attempt starts from the word as
/// it was last seen.
#[derive(Clone, Copy, Debug, PartialEq, Eq, Structural)]
pub struct Publication {
    pub cpu_id: u64,
    pub weight: u64,
    pub tries_left: usize,
}

impl Publication {
    /// A load to be published.
    pub fn new(cpu_id: u64, weight: u64) -> (p: Self)
        ensures
            p == (Publication { cpu_id, weight, tries_left: MAX_RETRIES }),
    {
        Publication { cpu_id, weight, tries_left: MAX_RETRIES }
    }

    /// What to put in place of the word `seen`, if anything. The word is to
    /// be replaced only if it still is `seen`; if it is not, the next attempt
    /// starts from what it is. Nothing is left to do once this gives nothing.
    pub fn attempt(&mut self, seen: u64) -> (new_info: Option<u64>)
        ensures
            new_info is Some <==> old(self).tries_left > 0 && replaces(
                old(self).cpu_id,
                old(self).weight,
                seen,
            ),
            new_info matches Some(info) ==> info == packed(old(self).cpu_id, old(self).weight),
            final(self).cpu_id == old(self).cpu_id,
            final(self).weight == old(self).weight,
            new_info is Some ==> final(self).tries_left == old(self).tries_left - 1,
            new_info is None ==> final(self).tries_left == 0,
    {
        let new_info: u64 = pack_info(self.cpu_id, self.weight);
        if self.tries_left > 0 && ((self.cpu_id == cpu_of(seen) && seen != new_info) || self.weight
            < weight_of(seen)) {
            self.tries_left = self.tries_left - 1;
            Some(new_info)
        } else {
            self.tries_left = 0;
            None
        }
    }

    /// Puts the load into the shared word, unless what is there should stay.
    /// Others may change the word meanwhile; the processor gives up after
    /// some attempts.
    pub fn publish(&mut self, word: &AtomicU64) -> (end: PublishEnd)
        ensures
            old(self).may_end_as(end),
            old(self).ended_on(word, end),
            final(self).cpu_id == old(self).cpu_id,
            final(self).weight == old(self).weight,
            final(self).tries_left == (if end.replaced {
                old(self).tries_left - end.exchanges
            } else {
                0
            }),
    {
        let ghost start = *self;
        let seen: u64 = word.load(Ordering::Acquire);
        let mut end = PublishEnd { seen, replaced: false, exchanges: 0 };
        let mut trying: bool = true;
        let ghost mut words = seq![seen];
        assert(can_load(word, seen));
        while trying
            invariant
                self.cpu_id == start.cpu_id,
                self.weight == start.weight,
                trying ==> end.exchanges + self.tries_left == start.tries_left && !end.replaced,
                !trying ==> start.may_end_as(end) && self.tries_left == (if end.replaced {
                    start.tries_left - end.exchanges
                } else {
                    0
                }),
                start.chain(word, words),
                words.len() == end.refusals() + 1,
                words.last() == end.seen,
                end.replaced ==> exists|got: u64| #[trigger]
                    can_swap(word, end.seen, word_for(start.cpu_id, start.weight), Ok(got)),
            decreases (if trying { self.tries_left + 1 } else { 0 }),
        {
            match self.attempt(end.seen) {
                None => {
                    trying = false;
                },
                Some(new_info) => {
                    assert(new_info == word_for(start.cpu_id, start.weight));
                    end.exchanges = end.exchanges + 1;
                    match word.compare_exchange(
                        end.seen,
                        new_info,
                        Ordering::AcqRel,
                        Ordering::Acquire,
                    ) {
                        Ok(got) => {
                            assert(can_swap(word, end.seen, new_info, Ok(got)));
                            end.replaced = true;
                            trying = false;
                        },
                        Err(now) => {
                            proof {
                                assert(start.refused(word, words.last(), now));
                                words = words.push(now);
                            }
                            end.seen = now;
                        },
                    }
                },
            }
        }
        end
    }

    /// How publishing can end, whatever others do to the word: it is replaced
    /// only where it should be, and it is left as it is only where it should
    /// stay or no tries are left.
    pub open spec fn may_end_as(self, end: PublishEnd) -> bool {
        &&& end.exchanges <= self.tries_left
        &&& end.replaced ==> end.exchanges > 0 && replaces(self.cpu_id, self.weight, end.seen)
        &&& !end.replaced ==> end.exchanges == self.tries_left || !replaces(
            self.cpu_id,
            self.weight,
            end.seen,
        )
    }

    /// The load was to go in place of `before`, and the word was `seen`
    /// instead.
    pub open spec fn refused(self, word: &AtomicU64, before: u64, seen: u64) -> bool {
        &&& replaces(self.cpu_id, self.weight, before)
        &&& can_swap(word, before, word_for(self.cpu_id, self.weight), Err(seen))
    }

    /// The words that were seen one after the other: the first was loaded,
    /// and each of the others was given back when the load was to go in place
    /// of the one before it.
    pub open spec fn chain(self, word: &AtomicU64, words: Seq<u64>) -> bool {
        &&& words.len() > 0
        &&& can_load(word, words[0])
        &&& forall|i: int|
            #![trigger words[i]]
            0 < i < words.len() ==> self.refused(word, words[i - 1], words[i])
    }

    /// What was done to the word: it was loaded, each attempt tried to put the
    /// processor's load in place of what was seen last, and what an attempt
    /// that was refused gave back was seen next.
    pub open spec fn ended_on(self, word: &AtomicU64, end: PublishEnd) -> bool {
        &&& exists|words: Seq<u64>| #[trigger]
            self.chain(word, words) && words.len() == end.refusals() + 1 && words.last()
                == end.seen
        &&& end.replaced ==> exists|got: u64| #[trigger]
            can_swap(word, end.seen, word_for(self.cpu_id, self.weight), Ok(got))
    }
}

/// How publishing a load ended.
#[derive(Clone, Copy, Debug, PartialEq, Eq, Structural)]
pub struct PublishEnd {
    /// The word as it was last seen.
    pub seen: u64,
    /// The load is in the word, in place of what was seen.
    pub replaced: bool,
    /// How often the processor tried to replace the word.
    pub exchanges: usize,
}

impl PublishEnd {
    /// The word that the processor left behind: its load where it put that in
    /// place of what it saw, else what it saw.
    pub open spec fn left(self, load: Publication) -> u64 {
        if self.replaced {
            word_for(load.cpu_id, load.weight)
        } else {
            self.seen
        }
    }

    /// How often the word had changed when the processor tried to replace it.
    pub open spec fn refusals(self) -> int {
        if self.replaced {
            self.exchanges - 1
        } else {
            self.exchanges - 0
        }
    }
}

} // verus!
