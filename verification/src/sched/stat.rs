//! What the processors have spent their time on.
use std::sync::atomic::{AtomicUsize, Ordering};
use vstd::prelude::*;

verus! {

/// Counts of ticks, by what a processor did.
#[derive(Debug, Default)]
pub struct CpuStat<T> {
    pub user: T,
    pub nice: T,
    pub system: T,
    pub idle: T,
    pub iowait: T,
    pub irq: T,
    pub softirq: T,
    pub steal: T,
    pub guest: T,
    pub guest_nice: T,
}

impl CpuStat<usize> {
    /// The counts in the order in which they are usually shown.
    pub open spec fn listed(self) -> Seq<usize> {
        seq![
            self.user,
            self.nice,
            self.system,
            self.idle,
            self.iowait,
            self.irq,
            self.softirq,
            self.steal,
            self.guest,
            self.guest_nice,
        ]
    }

    /// The counts, given in the order in which they are usually shown.
    pub fn from_counts(counts: [usize; 10]) -> (stat: Self)
        ensures
            stat.listed() == counts@,
    {
        let stat = CpuStat {
            user: counts[0],
            nice: counts[1],
            system: counts[2],
            idle: counts[3],
            iowait: counts[4],
            irq: counts[5],
            softirq: counts[6],
            steal: counts[7],
            guest: counts[8],
            guest_nice: counts[9],
        };
        assert(stat.listed() =~= counts@);
        stat
    }
}

/// A relaxed load of the counter can give `n`.
pub open spec fn can_read(counter: &AtomicUsize, n: usize) -> bool {
    call_ensures(AtomicUsize::load, (counter, Ordering::Relaxed), n)
}

impl CpuStat<AtomicUsize> {
    /// Each count in `stat` comes from a load of the counter of the same
    /// name.
    pub open spec fn can_show(&self, stat: CpuStat<usize>) -> bool {
        &&& can_read(&self.user, stat.user)
        &&& can_read(&self.nice, stat.nice)
        &&& can_read(&self.system, stat.system)
        &&& can_read(&self.idle, stat.idle)
        &&& can_read(&self.iowait, stat.iowait)
        &&& can_read(&self.irq, stat.irq)
        &&& can_read(&self.softirq, stat.softirq)
        &&& can_read(&self.steal, stat.steal)
        &&& can_read(&self.guest, stat.guest)
        &&& can_read(&self.guest_nice, stat.guest_nice)
    }

    /// Reads the counts, each from its own counter. The processor goes on
    /// counting meanwhile, so nothing is said of which numbers come out.
    pub fn to_usize(&self) -> (stat: CpuStat<usize>)
        ensures
            self.can_show(stat),
    {
        let counts: [usize; 10] = [
            self.user.load(Ordering::Relaxed),
            self.nice.load(Ordering::Relaxed),
            self.system.load(Ordering::Relaxed),
            self.idle.load(Ordering::Relaxed),
            self.iowait.load(Ordering::Relaxed),
            self.irq.load(Ordering::Relaxed),
            self.softirq.load(Ordering::Relaxed),
            self.steal.load(Ordering::Relaxed),
            self.guest.load(Ordering::Relaxed),
            self.guest_nice.load(Ordering::Relaxed),
        ];
        let stat = CpuStat::from_counts(counts);
        proof {
            let listed = stat.listed();
            assert(listed[0] == counts@[0] && listed[1] == counts@[1] && listed[2] == counts@[2]);
            assert(listed[3] == counts@[3] && listed[4] == counts@[4] && listed[5] == counts@[5]);
            assert(listed[6] == counts@[6] && listed[7] == counts@[7] && listed[8] == counts@[8]);
            assert(listed[9] == counts@[9]);
        }
        stat
    }
}

/// Reads what a processor has spent its time on so far, from the counters of
/// that processor. Nothing is said of which numbers come out, since they go
/// on changing.
pub fn get_cpu_stat(stats: &Vec<CpuStat<AtomicUsize>>, cpu_id: usize) -> (stat: CpuStat<usize>)
    requires
        cpu_id < stats@.len(),
    ensures
        stats@[cpu_id as int].can_show(stat),
{
    stats[cpu_id].to_usize()
}

} // verus!
