//! What the scheduler's smaller parts do: the running task as its own code
//! reaches it, the counts of what processors did, and single attempts to
//! publish a load.
use crate::process::task::TaskDescriptor;
use crate::sched::current::{
    current_task, current_task_shared, spawn_kernel_work, CallSite, CurrentTaskGuard,
    CurrentTaskPtr, OwnedTask,
};
use crate::sched::placement::{
    can_load, can_swap, pack_info, undisturbed, Publication, PublishEnd,
};
use crate::sched::placement_laws::{law_undisturbed_load_is_published, law_word_reads_back};
use crate::sched::runqueue::Work;
use crate::sched::stat::{can_read, get_cpu_stat, CpuStat};
use std::sync::atomic::{AtomicU64, AtomicUsize};
use std::sync::Arc;
use vstd::prelude::*;

verus! {

/// The running task is lent to one user at a time and had back as that user
/// left it: while it is lent it cannot be lent again, and who has it is known.
pub proof fn law_running_task_is_lent_and_returned<T>(
    new: CurrentTaskPtr<T>,
    first: &mut CurrentTaskPtr<T>,
    task: T,
    lend: &mut CurrentTaskPtr<T>,
    caller: CallSite,
    guard: CurrentTaskGuard<T>,
    returned: CurrentTaskGuard<T>,
    back: &mut CurrentTaskPtr<T>,
)
    requires
        call_ensures(CurrentTaskPtr::<T>::new, (), new),
        *first == new,
        call_ensures(CurrentTaskPtr::<T>::set_current, (first, task), ()),
        *lend == *final(first),
        call_ensures(current_task::<T>, (lend, caller), guard),
        *back == *final(lend),
        call_ensures(CurrentTaskPtr::<T>::release, (back, returned), ()),
    ensures
        !new.available(),
        final(first).available(),
        guard.task == task,
        !final(lend).available(),
        final(lend).location == Some(caller),
        final(back).available(),
        final(back).task == Some(returned.task),
        final(back).location is None,
{
}

/// What the running task shares is had without changing the task, and kernel
/// work that is left for it is all that changes; the task can be lent after
/// either.
pub proof fn law_running_task_keeps_what_it_shares<S, W>(
    look: &mut CurrentTaskPtr<OwnedTask<S, W>>,
    caller: CallSite,
    shared: Arc<S>,
    leave: &mut CurrentTaskPtr<OwnedTask<S, W>>,
    work: W,
)
    requires
        look.task is Some,
        !look.borrowed,
        call_ensures(current_task_shared::<S, W>, (look, caller), shared),
        *leave == *final(look),
        call_ensures(spawn_kernel_work::<S, W>, (leave, caller, work), ()),
    ensures
        shared == old(look).task->0.t_shared,
        final(look).task == old(look).task,
        final(look).available(),
        final(leave).available(),
        final(leave).task->0.kernel_work == Some(work),
        final(leave).task->0.t_shared == shared,
{
}

/// Counts are taken in the order: user, nice, system, idle, waiting for input
/// and output, interrupts, soft interrupts, stolen, guests and nice guests.
pub proof fn law_counts_are_in_order(counts: [usize; 10], stat: CpuStat<usize>)
    requires
        call_ensures(CpuStat::<usize>::from_counts, (counts,), stat),
    ensures
        stat.user == counts@[0],
        stat.nice == counts@[1],
        stat.system == counts@[2],
        stat.idle == counts@[3],
        stat.iowait == counts@[4],
        stat.irq == counts@[5],
        stat.softirq == counts@[6],
        stat.steal == counts@[7],
        stat.guest == counts@[8],
        stat.guest_nice == counts@[9],
{
    let listed = stat.listed();
    assert(listed[0] == counts@[0] && listed[1] == counts@[1] && listed[2] == counts@[2]);
    assert(listed[3] == counts@[3] && listed[4] == counts@[4] && listed[5] == counts@[5]);
    assert(listed[6] == counts@[6] && listed[7] == counts@[7] && listed[8] == counts@[8]);
    assert(listed[9] == counts@[9]);
}

/// The counter stands still at `n`.
pub open spec fn stands_at(counter: &AtomicUsize, n: usize) -> bool {
    forall|other: usize| #[trigger] can_read(counter, other) ==> other == n
}

/// What is read of a processor are that processor's own counts, each under the
/// name of its counter.
pub proof fn law_counts_are_those_of_the_processor(
    stats: &Vec<CpuStat<AtomicUsize>>,
    cpu_id: usize,
    shown: CpuStat<usize>,
    stat: CpuStat<usize>,
)
    requires
        cpu_id < stats@.len(),
        ({
            let counters = stats@[cpu_id as int];
            &&& stands_at(&counters.user, shown.user)
            &&& stands_at(&counters.nice, shown.nice)
            &&& stands_at(&counters.system, shown.system)
            &&& stands_at(&counters.idle, shown.idle)
            &&& stands_at(&counters.iowait, shown.iowait)
            &&& stands_at(&counters.irq, shown.irq)
            &&& stands_at(&counters.softirq, shown.softirq)
            &&& stands_at(&counters.steal, shown.steal)
            &&& stands_at(&counters.guest, shown.guest)
            &&& stands_at(&counters.guest_nice, shown.guest_nice)
        }),
        call_ensures(get_cpu_stat, (stats, cpu_id), stat),
    ensures
        stat == shown,
{
}

/// An attempt to publish puts forward the word for the processor and its load,
/// where the word that was seen is the processor's own and another one, or
/// names a larger load; each attempt uses up a try, and without tries there
/// are no attempts.
pub proof fn law_attempt_puts_the_load_forward(
    cpu_id: u64,
    weight: u64,
    new: Publication,
    load: &mut Publication,
    seen: u64,
    info: u64,
    r: Option<u64>,
)
    requires
        call_ensures(Publication::new, (cpu_id, weight), new),
        load.cpu_id == new.cpu_id,
        load.weight == new.weight,
        call_ensures(pack_info, (cpu_id, weight), info),
        call_ensures(Publication::attempt, (load, seen), r),
    ensures
        new.tries_left == 8,
        r is Some <==> old(load).tries_left > 0 && ((seen as int % 0x1_0000 == cpu_id && seen
            != info) || weight < seen as int / 0x1_0000),
        r matches Some(word) ==> word == info && final(load).tries_left == old(load).tries_left - 1,
        r is None ==> final(load).tries_left == 0,
        final(load).cpu_id == cpu_id,
        final(load).weight == weight,
{
    law_word_reads_back(cpu_id, weight);
}

/// Time that is counted is what has passed since it was last counted, as far
/// as the count goes, and counting leaves everything else; a new task has run
/// for no time and waits to be run.
pub proof fn law_time_since_the_last_count(
    desc: TaskDescriptor,
    priority: i8,
    new: Work,
    work: &mut Work,
    now: u64,
    reset: &mut Work,
)
    requires
        call_ensures(Work::new, (desc, priority), new),
        call_ensures(Work::update_accounting, (work, now), ()),
        *reset == *final(work),
        call_ensures(Work::reset_last_account, (reset, now), ()),
    ensures
        new.desc == desc,
        new.priority == priority,
        new.state is Runnable,
        new.run_time == 0,
        new.last_account is None,
        old(work).last_account is None ==> final(work).run_time == old(work).run_time,
        old(work).last_account matches Some(last) ==> {
            &&& now <= last ==> final(work).run_time == old(work).run_time
            &&& now > last && old(work).run_time + (now - last) <= u64::MAX ==> final(
                work).run_time == old(work).run_time + (now - last)
            &&& now > last && old(work).run_time + (now - last) > u64::MAX ==> final(work).run_time
                == u64::MAX
        },
        final(reset).last_account == Some(now),
        final(reset).run_time == final(work).run_time,
        final(reset).desc == old(work).desc,
        final(reset).priority == old(work).priority,
        final(reset).state == old(work).state,
{
}

/// Where nobody else writes the shared word, a load that is published takes
/// its place exactly where it should, at the first attempt.
pub proof fn law_load_takes_its_place(
    load: &mut Publication,
    word: &AtomicU64,
    was: u64,
    info: u64,
    end: PublishEnd,
)
    requires
        undisturbed(word, was),
        load.tries_left > 0,
        call_ensures(pack_info, (load.cpu_id, load.weight), info),
        call_ensures(Publication::publish, (load, word), end),
    ensures
        end.seen == was,
        end.replaced <==> (was as int % 0x1_0000 == old(load).cpu_id && was != info) || old(
            load).weight < was as int / 0x1_0000,
        end.replaced ==> end.left(*old(load)) == info && end.exchanges == 1,
        !end.replaced ==> end.exchanges == 0,
{
    law_undisturbed_load_is_published(*load, word, was, end);
    law_word_reads_back(load.cpu_id, load.weight);
}

/// The words that publishing saw, one after the other: the first was loaded,
/// and each of the others came back when `info` was to take the place of the
/// one before it.
pub open spec fn were_seen(word: &AtomicU64, info: u64, words: Seq<u64>) -> bool {
    &&& words.len() > 0
    &&& can_load(word, words[0])
    &&& forall|i: int|
        #![trigger words[i]]
        0 < i < words.len() ==> can_swap(word, words[i - 1], info, Err(words[i]))
}

/// A processor gives up publishing only where the word that it saw last should
/// stay, or where it has used up its tries; each try starts from the word that
/// it saw last, and what it replaces should be replaced.
pub proof fn law_publishing_is_tried_again(
    load: &mut Publication,
    word: &AtomicU64,
    info: u64,
    end: PublishEnd,
)
    requires
        call_ensures(pack_info, (load.cpu_id, load.weight), info),
        call_ensures(Publication::publish, (load, word), end),
    ensures
        ({
            let should = (end.seen as int % 0x1_0000 == old(load).cpu_id && end.seen != info)
                || old(load).weight < end.seen as int / 0x1_0000;
            let refused = if end.replaced {
                end.exchanges - 1
            } else {
                end.exchanges as int
            };
            &&& end.exchanges <= old(load).tries_left
            &&& end.replaced ==> should && end.exchanges > 0
            &&& !end.replaced && should ==> end.exchanges == old(load).tries_left
            &&& end.replaced ==> exists|got: u64| #[trigger]
                can_swap(word, end.seen, info, Ok(got))
            &&& exists|words: Seq<u64>| #[trigger]
                were_seen(word, info, words) && words.len() == refused + 1 && words.last()
                    == end.seen
        }),
{
    law_word_reads_back(load.cpu_id, load.weight);
    let words = choose|words: Seq<u64>| #[trigger]
        load.chain(word, words) && words.len() == end.refusals() + 1 && words.last() == end.seen;
    assert forall|i: int|
        #![trigger words[i]]
        0 < i < words.len() implies can_swap(word, words[i - 1], info, Err(words[i])) by {
        assert(load.refused(word, words[i - 1], words[i]));
    }
    assert(were_seen(word, info, words));
}

} // verus!
