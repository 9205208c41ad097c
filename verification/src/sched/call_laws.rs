//! What the scheduler's calls do for their callers.
use crate::error::KernelError;
use crate::process::task::{TaskDescriptor, TaskState, Tid};
use crate::process::task_list::TaskList;
use crate::process::thread_group::id::Tgid;
use crate::sched::laws::law_highest_priority_is_picked;
use crate::sched::placement::{
    best_cpu, cpu_of, get_best_cpu, pack_info, undisturbed, weight_of, PublishEnd,
};
use crate::sched::placement_laws::{law_undisturbed_word, law_word_reads_back};
use crate::sched::runqueue::{is_pick, total_weight, QueueModel, RunQueue, Work, MAX_WORK};
use crate::sched::state::{
    current_work, current_work_waker, init_work, insert_task_cross_cpu, insert_work, place_task, publication,
    sched_init, sched_init_secondary, schedule, sys_sched_yield, with_init, SchedCell, SchedState,
    ScheduleOutcome, WorkWaker,
};
use std::sync::atomic::AtomicU64;
use vstd::prelude::*;

verus! {

/// The weight of the first tasks depends on these tasks only.
proof fn lemma_weight_of_prefix(a: Seq<Work>, b: Seq<Work>, n: nat)
    requires
        n <= a.len(),
        n <= b.len(),
        forall|i: int| 0 <= i < n ==> (#[trigger] a[i]).priority == b[i].priority,
    ensures
        total_weight(a, n) == total_weight(b, n),
    decreases n,
{
    if n > 0 {
        lemma_weight_of_prefix(a, b, (n - 1) as nat);
        assert(a[n - 1].priority == b[n - 1].priority);
    }
}

/// A task that is taken out takes its weight with it.
proof fn lemma_weight_without(works: Seq<Work>, i: int, n: nat)
    requires
        0 <= i < n <= works.len(),
    ensures
        total_weight(works, n) == total_weight(works.remove(i), (n - 1) as nat) + 1024
            + works[i].priority,
    decreases n,
{
    if i == n - 1 {
        lemma_weight_of_prefix(works, works.remove(i), (n - 1) as nat);
    } else {
        lemma_weight_without(works, i, (n - 1) as nat);
        assert(works.remove(i)[n - 2] == works[n - 1]);
    }
}

/// An empty queue weighs nothing.
pub proof fn law_empty_queue_weighs_nothing(queue: RunQueue, weight: u64)
    requires
        call_ensures(RunQueue::new, (), queue),
        call_ensures(RunQueue::weight, (&queue,), weight),
    ensures
        weight == 0,
{
}

/// A task that is added raises the weight of the queue by 1024 and the task's
/// priority.
pub proof fn law_added_task_counts(queue: &mut RunQueue, work: Work, before: u64, after: u64)
    requires
        queue@.wf(),
        call_ensures(RunQueue::weight, (&*queue,), before),
        call_ensures(RunQueue::add_work, (queue, work), ()),
        call_ensures(RunQueue::weight, (&*final(queue),), after),
    ensures
        after == before + 1024 + work.priority,
{
    lemma_weight_of_prefix(queue@.works, final(queue)@.works, queue@.works.len());
}

/// Every task counts, wherever it stands in the queue: without it the queue
/// weighs less by 1024 and the task's priority.
pub proof fn law_every_task_counts(
    queue: &RunQueue,
    without: &RunQueue,
    i: int,
    weight: u64,
    less: u64,
)
    requires
        0 <= i < queue@.works.len(),
        without@.works == queue@.works.remove(i),
        call_ensures(RunQueue::weight, (queue,), weight),
        call_ensures(RunQueue::weight, (without,), less),
    ensures
        weight == less + 1024 + queue@.works[i].priority,
{
    lemma_weight_without(queue@.works, i, queue@.works.len());
}

/// The task could run.
pub open spec fn could_run(work: Work) -> bool {
    work.state == TaskState::Running || work.state == TaskState::Runnable
}

/// `next` is to run: the first of the tasks of the highest priority among
/// those that could, or the idle task where none could.
pub open spec fn is_to_run(works: Seq<Work>, next: Option<usize>) -> bool {
    match next {
        Some(i) => {
            &&& i < works.len()
            &&& could_run(works[i as int])
            &&& forall|j: int|
                0 <= j < works.len() && could_run(#[trigger] works[j]) ==> works[j].priority
                    <= works[i as int].priority && (j < i ==> works[j].priority
                    < works[i as int].priority)
        },
        None => forall|j: int| 0 <= j < works.len() ==> !could_run(#[trigger] works[j]),
    }
}

/// The pick of a queue is the task that is to run.
proof fn lemma_pick_is_to_run(m: QueueModel)
    requires
        m.wf(),
    ensures
        is_to_run(m.works, m.pick()),
{
    law_highest_priority_is_picked(m);
    match m.pick() {
        Some(i) => {
            assert(is_pick(m.works, i as int));
            assert forall|j: int|
                0 <= j < m.works.len() && could_run(#[trigger] m.works[j]) implies m.works[j].priority
                <= m.works[i as int].priority && (j < i ==> m.works[j].priority
                < m.works[i as int].priority) by {
                assert(m.works[j].is_ready());
            }
        },
        None => {
            assert forall|j: int| 0 <= j < m.works.len() implies !could_run(
                #[trigger] m.works[j],
            ) by {
                assert(!m.works[j].is_ready());
            }
        },
    }
}

/// What a task is after a switch at `now`, where it `runs` afterwards or not
/// and `ran` before or not. Who it is, its priority and the time it has run
/// never change.
pub open spec fn switched_as(before: Work, after: Work, ran: bool, runs: bool, now: u64) -> bool {
    &&& after.desc == before.desc
    &&& after.priority == before.priority
    &&& after.run_time == before.run_time
    &&& ran == runs ==> after == before
    &&& runs && !ran ==> after.state == TaskState::Running && after.last_account == Some(now)
    &&& ran && !runs ==> after.last_account == before.last_account && after.state == (
    if before.state == TaskState::Running {
        TaskState::Runnable
    } else {
        before.state
    })
}

/// `after` is `before` with the switch to `next` at `now`.
pub open spec fn queue_switched(
    before: QueueModel,
    after: QueueModel,
    next: Option<usize>,
    now: u64,
) -> bool {
    &&& after.running == next
    &&& after.works.len() == before.works.len()
    &&& switched_as(before.idle, after.idle, before.running is None, next is None, now)
    &&& forall|i: int|
        #![trigger after.works[i]]
        0 <= i < before.works.len() ==> switched_as(
            before.works[i],
            after.works[i],
            before.running == Some(i as usize),
            next == Some(i as usize),
            now,
        )
}

/// The pick is the task that is to run.
pub proof fn law_pick_is_to_run(queue: &RunQueue, next: Option<usize>)
    requires
        queue@.wf(),
        call_ensures(RunQueue::pick, (queue,), next),
    ensures
        is_to_run(queue@.works, next),
{
    lemma_pick_is_to_run(queue@);
}

/// The scheduler switches to the task that is to run, and says whether that is
/// another one than before. Nothing else changes.
pub proof fn law_schedule_switches_to_the_pick(queue: &mut RunQueue, now: u64, switch: bool)
    requires
        queue@.wf(),
        call_ensures(RunQueue::schedule, (queue, now), switch),
    ensures
        is_to_run(old(queue)@.works, final(queue)@.running),
        queue_switched(old(queue)@, final(queue)@, final(queue)@.running, now),
        switch == (final(queue)@.running != old(queue)@.running),
        !switch ==> final(queue)@ == old(queue)@,
        final(queue)@.wf(),
{
    lemma_pick_is_to_run(queue@);
}

/// `after` is `before` with the time up to `now` counted: what has passed
/// since it was last counted is added, as far as the count goes.
pub open spec fn counted_up_to(before: Work, after: Work, now: u64) -> bool {
    &&& after.desc == before.desc
    &&& after.priority == before.priority
    &&& after.state == before.state
    &&& after.last_account == Some(now)
    &&& match before.last_account {
        Some(last) => after.run_time == (if now < last {
            before.run_time as int
        } else if before.run_time + now - last > u64::MAX {
            u64::MAX as int
        } else {
            before.run_time + now - last
        }),
        None => after.run_time == before.run_time,
    }
}

/// `after` is `before` with the running task's time up to `now` counted.
pub open spec fn queue_counted(before: QueueModel, after: QueueModel, now: u64) -> bool {
    &&& after.running == before.running
    &&& after.works.len() == before.works.len()
    &&& if before.running is None {
        counted_up_to(before.idle, after.idle, now)
    } else {
        after.idle == before.idle
    }
    &&& forall|i: int|
        #![trigger after.works[i]]
        0 <= i < before.works.len() ==> if before.running == Some(i as usize) {
            counted_up_to(before.works[i], after.works[i], now)
        } else {
            after.works[i] == before.works[i]
        }
}

/// The time that passes is charged to the running task and to no other.
pub proof fn law_running_task_is_charged(queue: &mut RunQueue, now: u64)
    requires
        queue@.wf(),
        call_ensures(RunQueue::account_current, (queue, now), ()),
    ensures
        queue_counted(old(queue)@, final(queue)@, now),
{
}

/// A run of the scheduler charges the task that was running, then switches to
/// the task that is to run.
pub proof fn law_do_schedule(
    state: &mut SchedState,
    now: u64,
    cpu_id: u64,
    word: &AtomicU64,
    end: Option<PublishEnd>,
)
    requires
        state.run_q@.wf(),
        call_ensures(SchedState::do_schedule, (state, now, cpu_id, word), end),
    ensures
        queue_ran(old(state).run_q@, final(state).run_q@, now),
        end is None <==> (old(state).last_update matches Some(last) && now - last < 16_000_000),
        final(state).last_update == (if end is None {
            old(state).last_update
        } else {
            Some(now)
        }),
{
    lemma_queue_ran(state.run_q@, now);
}

/// What publishing leaves in the shared word where nobody else writes it. The
/// word names this processor and what its queue weighs, where it named this
/// processor before or a larger weight, and publishing was not done less than
/// 16 milliseconds ago; else it stays. The queue stays in any case.
pub proof fn law_published_word(
    state: &mut SchedState,
    now: Option<u64>,
    cpu_id: u64,
    word: &AtomicU64,
    was: u64,
    weight: u64,
    end: Option<PublishEnd>,
)
    requires
        state.run_q@.wf(),
        cpu_id <= 0xffff,
        undisturbed(word, was),
        call_ensures(RunQueue::weight, (&state.run_q,), weight),
        call_ensures(
            SchedState::update_global_least_tasked_cpu_info,
            (state, now, cpu_id, word),
            end,
        ),
    ensures
        ({
            let throttled = old(state).last_update is Some && now is Some && now->0 - old(state).last_update->0 < 16_000_000;
            let own = was as int % 0x1_0000 == cpu_id;
            let less = weight < was as int / 0x1_0000;
            let left = match end {
                Some(end) => end.left(publication(old(state).run_q@, cpu_id)),
                None => was,
            };
            &&& end is None <==> throttled
            &&& left == (if !throttled && (own || less) {
                cpu_id + weight * 0x1_0000
            } else {
                was as int
            })
            &&& end matches Some(end) ==> (end.replaced <==> left != was)
            &&& final(state).run_q == old(state).run_q
            &&& final(state).last_update == (if throttled {
                old(state).last_update
            } else {
                now
            })
        }),
{
    law_undisturbed_word(state.run_q@, state.last_update, now, cpu_id, word, was, end);
}

/// A word tells the processor and the load that it was made from.
pub proof fn law_words_are_read_back(
    cpu_id: u64,
    weight: u64,
    info: u64,
    cpu: u64,
    load: u64,
    best: usize,
)
    requires
        cpu_id < 0x1_0000,
        weight < 0x1_0000_0000_0000,
        call_ensures(pack_info, (cpu_id, weight), info),
        call_ensures(cpu_of, (info,), cpu),
        call_ensures(weight_of, (info,), load),
        call_ensures(best_cpu, (info,), best),
    ensures
        cpu == cpu_id,
        best == cpu_id,
        load == weight,
        info == cpu_id + weight * 0x1_0000,
{
    law_word_reads_back(cpu_id, weight);
}

/// The processor with the least to do is the one that the shared word names.
pub proof fn law_best_cpu_is_named(word: &AtomicU64, was: u64, cpu: usize)
    requires
        undisturbed(word, was),
        call_ensures(get_best_cpu, (word,), cpu),
    ensures
        cpu == was as int % 0x1_0000,
{
}

/// A task goes to the processor that it is for: it is queued last where that
/// is this processor, and handed back to be sent there where it is not. It is
/// never both nor neither.
pub proof fn law_task_is_placed_once(
    cell: &mut SchedCell,
    cpu: usize,
    this_cpu: usize,
    task: Work,
    r: Option<(usize, Work)>,
)
    requires
        call_ensures(place_task, (cell, cpu, this_cpu, task), r),
    ensures
        r is None <==> cpu == this_cpu,
        r matches Some((to, sent)) ==> to == cpu && sent == task && final(cell).state.run_q@ == old(cell).state.run_q@,
        r is None ==> {
            &&& final(cell).state.run_q@.works.drop_last() == old(cell).state.run_q@.works
            &&& final(cell).state.run_q@.works.len() > 0
            &&& final(cell).state.run_q@.works.last() == task
            &&& final(cell).state.run_q@.running == old(cell).state.run_q@.running
            &&& final(cell).state.run_q@.idle == old(cell).state.run_q@.idle
        },
{
    if r is None {
        let works = cell.state.run_q@.works;
        assert(works.push(task).drop_last() =~= works);
    }
}

/// A new task goes to the processor that the shared word names.
pub proof fn law_new_task_goes_where_the_word_says(
    cell: &mut SchedCell,
    word: &AtomicU64,
    was: u64,
    this_cpu: usize,
    task: Work,
    r: Option<(usize, Work)>,
)
    requires
        undisturbed(word, was),
        call_ensures(insert_task_cross_cpu, (cell, word, this_cpu, task), r),
    ensures
        r is None <==> was as int % 0x1_0000 == this_cpu,
        r matches Some((to, sent)) ==> to == was as int % 0x1_0000 && sent == task && final(cell).state.run_q@ == old(cell).state.run_q@,
        r is None ==> final(cell).state.run_q@.works.to_multiset() == old(cell).state.run_q@.works.to_multiset().insert(task),
{
    if r is None {
        vstd::seq_lib::to_multiset_build(cell.state.run_q@.works, task);
    }
}

/// `after` is `before` with one run of the scheduler at `now`.
pub open spec fn queue_ran(before: QueueModel, after: QueueModel, now: u64) -> bool {
    exists|charged: QueueModel| #[trigger]
        queue_counted(before, charged, now) && is_to_run(charged.works, after.running)
            && queue_switched(charged, after, after.running, now)
}

/// What the scheduler does to a queue, in plain terms.
proof fn lemma_queue_ran(m: QueueModel, now: u64)
    requires
        m.wf(),
    ensures
        queue_ran(m, m.accounted(now).scheduled(now), now),
{
    let charged = m.accounted(now);
    assert(charged.wf());
    lemma_pick_is_to_run(charged);
    assert(queue_counted(m, charged, now));
}

/// The scheduler does nothing where it is running already, and runs once
/// where it is not.
pub proof fn law_scheduler_does_not_reenter(
    cell: &mut SchedCell,
    now: u64,
    cpu_id: u64,
    word: &AtomicU64,
    r: ScheduleOutcome,
)
    requires
        cell.state.run_q@.wf(),
        call_ensures(schedule, (cell, now, cpu_id, word), r),
    ensures
        r is Reentered <==> old(cell).borrowed,
        final(cell).borrowed == old(cell).borrowed,
        old(cell).borrowed ==> final(cell).state == old(cell).state,
        !old(cell).borrowed ==> queue_ran(old(cell).state.run_q@, final(cell).state.run_q@, now),
{
    lemma_queue_ran(cell.state.run_q@, now);
}

/// Yielding always succeeds with zero, and runs the scheduler as any other
/// call of it does.
pub proof fn law_yield_runs_the_scheduler(
    cell: &mut SchedCell,
    now: u64,
    cpu_id: u64,
    word: &AtomicU64,
    r: (Result<usize, KernelError>, ScheduleOutcome),
)
    requires
        cell.state.run_q@.wf(),
        call_ensures(sys_sched_yield, (cell, now, cpu_id, word), r),
    ensures
        r.0 == Ok::<usize, KernelError>(0),
        r.1 is Reentered <==> old(cell).borrowed,
        old(cell).borrowed ==> final(cell).state == old(cell).state,
        !old(cell).borrowed ==> queue_ran(old(cell).state.run_q@, final(cell).state.run_q@, now),
{
    lemma_queue_ran(cell.state.run_q@, now);
}

/// Another processor that starts runs the scheduler once.
pub proof fn law_secondary_runs_the_scheduler(
    cell: &mut SchedCell,
    started: Option<u64>,
    now: u64,
    cpu_id: u64,
    word: &AtomicU64,
    r: (Option<PublishEnd>, ScheduleOutcome),
)
    requires
        !cell.borrowed,
        cell.state.run_q@.wf(),
        call_ensures(sched_init_secondary, (cell, started, now, cpu_id, word), r),
    ensures
        r.1 is Done,
        !final(cell).borrowed,
        queue_ran(old(cell).state.run_q@, final(cell).state.run_q@, now),
{
    lemma_queue_ran(cell.state.run_q@, now);
}

/// The task that runs is the one that the queue says is running, the idle task
/// where it says none; what wakes it names the same task.
pub proof fn law_current_work_is_running(cell: &SchedCell, work: Work, waker: WorkWaker)
    requires
        cell.state.run_q@.wf(),
        call_ensures(current_work, (cell,), work),
        call_ensures(current_work_waker, (cell,), waker),
    ensures
        cell.state.run_q@.running matches Some(i) ==> work == cell.state.run_q@.works[i as int],
        cell.state.run_q@.running is None ==> work == cell.state.run_q@.idle,
        waker.desc == work.desc,
{
}

/// The first processor starts with the first user task, which is thread 1 of
/// thread group 1 at priority 0. It is found in the list of tasks, the others
/// in it stay, and it is queued behind what is queued already before the
/// scheduler runs. On a fresh processor it is what runs then.
pub proof fn law_first_task_is_started<T>(
    cell: &mut SchedCell,
    tasks: &mut TaskList<T>,
    init_task: T,
    now: u64,
    cpu_id: u64,
    word: &AtomicU64,
    r: ScheduleOutcome,
    other: TaskDescriptor,
    found_before: Option<&T>,
    found: Option<&T>,
)
    requires
        !cell.borrowed,
        cell.state.run_q@.wf(),
        cell.state.run_q@.works.len() < MAX_WORK,
        tasks.wf(),
        call_ensures(sched_init::<T>, (cell, tasks, init_task, now, cpu_id, word), r),
        call_ensures(TaskList::<T>::find_task_by_descriptor, (&*tasks, &other), found_before),
        call_ensures(TaskList::<T>::find_task_by_descriptor, (&*final(tasks), &other), found),
    ensures
        r is Done,
        other.tid.0 == 1 && other.tgid.0 == 1 ==> found == Some(&init_task),
        !(other.tid.0 == 1 && other.tgid.0 == 1) ==> found == found_before,
        exists|queued: QueueModel| #[trigger]
            queue_ran(queued, final(cell).state.run_q@, now) && queued.works.drop_last() == old(
                cell,
            ).state.run_q@.works && queued.works.last().desc.tid.0 == 1
                && queued.works.last().desc.tgid.0 == 1 && queued.works.last().priority == 0,
        old(cell).state.run_q@.works.len() == 0 ==> final(cell).state.run_q@.running == Some(
            0usize,
        ),
{
    let before = cell.state.run_q@;
    let queued = with_init(before);
    assert(queued.wf());
    lemma_queue_ran(queued, now);
    assert(queued.works.drop_last() =~= before.works);
    assert(init_work().desc == TaskDescriptor { tid: Tid(1), tgid: Tgid(1) });
    if before.works.len() == 0 {
        let charged = queued.accounted(now);
        lemma_pick_is_to_run(charged);
        assert(could_run(charged.works[0]));
    }
}

/// A processor that was not started has no tasks and has published nothing;
/// the idle task runs, at the lowest priority, and has run for no time.
pub proof fn law_new_processor_is_idle(state: SchedState, queue: RunQueue, work: Work)
    requires
        call_ensures(SchedState::new, (), state),
        call_ensures(RunQueue::new, (), queue),
        call_ensures(RunQueue::current, (&queue,), work),
    ensures
        state.last_update is None,
        state.run_q@ == queue@,
        queue@.works.len() == 0,
        queue@.running is None,
        work == queue@.idle,
        work.desc.tid.0 == 0,
        work.desc.tgid.0 == 0,
        work.priority == -128,
        work.state == TaskState::Running,
        work.run_time == 0,
        work.last_account is None,
        queue@.wf(),
{
}

/// A task that is queued comes after those that are queued already, and does
/// not run before the scheduler has.
pub proof fn law_queued_task_comes_last(cell: &mut SchedCell, work: Work)
    requires
        !cell.borrowed,
        cell.state.run_q@.wf(),
        call_ensures(insert_work, (cell, work), ()),
    ensures
        final(cell).state.run_q@.works.len() == old(cell).state.run_q@.works.len() + 1,
        final(cell).state.run_q@.works.drop_last() == old(cell).state.run_q@.works,
        final(cell).state.run_q@.works.last() == work,
        final(cell).state.run_q@.running == old(cell).state.run_q@.running,
        final(cell).state.run_q@.idle == old(cell).state.run_q@.idle,
        final(cell).state.last_update == old(cell).state.last_update,
        !final(cell).borrowed,
{
    let works = cell.state.run_q@.works;
    assert(works.push(work).drop_last() =~= works);
}

/// The word that `end` leaves behind, where the shared word `was` this and
/// nobody else writes it: this processor with what its queue weighed, where it
/// was this processor's own or named a larger weight and it was not too early;
/// else what it was.
pub open spec fn left_right(
    before: QueueModel,
    weight: u64,
    last_update: Option<u64>,
    now: Option<u64>,
    cpu_id: u64,
    was: u64,
    end: Option<PublishEnd>,
) -> bool {
    let throttled = last_update is Some && now is Some && now->0 - last_update->0 < 16_000_000;
    let left = match end {
        Some(end) => end.left(publication(before, cpu_id)),
        None => was,
    };
    &&& end is None <==> throttled
    &&& left == (if !throttled && (was as int % 0x1_0000 == cpu_id || weight < was as int
        / 0x1_0000) {
        cpu_id + weight * 0x1_0000
    } else {
        was as int
    })
}

/// Whenever the scheduler runs, the load that is published is what the queue
/// weighed before.
pub proof fn law_scheduler_publishes_the_load(
    state: &mut SchedState,
    cell: &mut SchedCell,
    now: u64,
    cpu_id: u64,
    word: &AtomicU64,
    was: u64,
    weight: u64,
    end: Option<PublishEnd>,
    outcome: ScheduleOutcome,
)
    requires
        state.run_q@.wf(),
        cell.state == *state,
        !cell.borrowed,
        cpu_id <= 0xffff,
        undisturbed(word, was),
        call_ensures(RunQueue::weight, (&state.run_q,), weight),
        call_ensures(SchedState::do_schedule, (state, now, cpu_id, word), end),
        call_ensures(schedule, (cell, now, cpu_id, word), outcome),
    ensures
        left_right(
            old(state).run_q@,
            weight,
            old(state).last_update,
            Some(now),
            cpu_id,
            was,
            end,
        ),
        outcome matches ScheduleOutcome::Done(published) && left_right(
            old(state).run_q@,
            weight,
            old(state).last_update,
            Some(now),
            cpu_id,
            was,
            published,
        ),
        final(cell).state.run_q@ == final(state).run_q@,
        final(cell).state.last_update == final(state).last_update,
{
    law_undisturbed_word(state.run_q@, state.last_update, Some(now), cpu_id, word, was, end);
    if let ScheduleOutcome::Done(published) = outcome {
        law_undisturbed_word(
            state.run_q@,
            state.last_update,
            Some(now),
            cpu_id,
            word,
            was,
            published,
        );
    }
}

/// A processor that starts publishes its load first, as it would at any other
/// time.
pub proof fn law_secondary_publishes_first(
    cell: &mut SchedCell,
    started: Option<u64>,
    now: u64,
    cpu_id: u64,
    word: &AtomicU64,
    was: u64,
    weight: u64,
    r: (Option<PublishEnd>, ScheduleOutcome),
)
    requires
        !cell.borrowed,
        cell.state.run_q@.wf(),
        cpu_id <= 0xffff,
        undisturbed(word, was),
        call_ensures(RunQueue::weight, (&cell.state.run_q,), weight),
        call_ensures(sched_init_secondary, (cell, started, now, cpu_id, word), r),
    ensures
        left_right(
            old(cell).state.run_q@,
            weight,
            old(cell).state.last_update,
            started,
            cpu_id,
            was,
            r.0,
        ),
{
    law_undisturbed_word(
        cell.state.run_q@,
        cell.state.last_update,
        started,
        cpu_id,
        word,
        was,
        r.0,
    );
}

} // verus!
