//! The scheduler's state on one processor, and the calls that use it.
use crate::error::KernelError;
use crate::process::task::{TaskDescriptor, TaskState, Tid};
use crate::process::task_list::TaskList;
use crate::process::thread_group::id::Tgid;
use crate::sched::placement::{
    can_load, cpu_in, get_best_cpu, too_early, Publication, PublishEnd, MAX_RETRIES, MIN_COOLDOWN,
};
use crate::sched::runqueue::{total_weight, QueueModel, RunQueue, Work, MAX_WORK};
use std::sync::atomic::AtomicU64;
use vstd::prelude::*;

verus! {

/// The time that a task may run before another gets its turn, in nanoseconds.
pub const DEFAULT_TIME_SLICE: u64 = 4_000_000;

/// Fraction bits of a point in virtual time.
pub const VT_FIXED_SHIFT: u32 = 63;

/// One in virtual time.
pub const VT_ONE: u128 = 0x8000_0000_0000_0000;

/// Points in virtual time that are no further apart than this are the same.
pub const VCLOCK_EPSILON: u128 = 0x8000_0000_0000_0000;

/// The scheduler's state on one processor. Times are in nanoseconds.
pub struct SchedState {
    pub run_q: RunQueue,
    /// When the processor last published its load.
    pub last_update: Option<u64>,
}

/// The load that a processor publishes for a run queue.
pub open spec fn publication(queue: QueueModel, cpu_id: u64) -> Publication {
    Publication {
        cpu_id,
        weight: total_weight(queue.works, queue.works.len()) as u64,
        tries_left: MAX_RETRIES,
    }
}

/// What can come of publishing at `now` in the shared word: nothing when it
/// was done a moment ago.
pub open spec fn may_publish_as(
    queue: QueueModel,
    last_update: Option<u64>,
    now: Option<u64>,
    cpu_id: u64,
    word: &AtomicU64,
    end: Option<PublishEnd>,
) -> bool {
    match end {
        None => too_early(last_update, now),
        Some(end) => {
            &&& !too_early(last_update, now)
            &&& publication(queue, cpu_id).may_end_as(end)
            &&& publication(queue, cpu_id).ended_on(word, end)
        },
    }
}

/// When the load was last published, after the scheduler has run at `now`.
pub open spec fn update_time(last_update: Option<u64>, now: u64) -> Option<u64> {
    if too_early(last_update, Some(now)) {
        last_update
    } else {
        Some(now)
    }
}

impl SchedState {
    /// Nothing to run but the idle task.
    pub fn new() -> (state: Self)
        ensures
            state.run_q@.wf(),
            state.run_q@ == (QueueModel {
                idle: Work {
                    desc: TaskDescriptor { tid: Tid(0), tgid: Tgid(0) },
                    priority: i8::MIN,
                    state: TaskState::Running,
                    last_account: None,
                    run_time: 0,
                },
                works: Seq::empty(),
                running: None,
            }),
            state.last_update is None,
    {
        SchedState { run_q: RunQueue::new(), last_update: None }
    }

    /// Publishes the load in the word that the processors share, unless that
    /// was done a moment ago. `now` is unknown until there is a timer.
    pub fn update_global_least_tasked_cpu_info(
        &mut self,
        now: Option<u64>,
        cpu_id: u64,
        word: &AtomicU64,
    ) -> (end: Option<PublishEnd>)
        requires
            old(self).run_q@.wf(),
        ensures
            final(self).run_q == old(self).run_q,
            may_publish_as(old(self).run_q@, old(self).last_update, now, cpu_id, word, end),
            final(self).last_update == (if end is Some {
                now
            } else {
                old(self).last_update
            }),
    {
        if let Some(last) = self.last_update {
            if let Some(time) = now {
                if time < last || time - last < MIN_COOLDOWN {
                    return None;
                }
            }
        }
        self.last_update = now;
        let weight: u64 = self.run_q.weight();
        let mut load = Publication::new(cpu_id, weight);
        Some(load.publish(word))
    }

    /// Runs the scheduler: the load is published, the time that the running
    /// task has run is counted, and the next task is picked.
    pub fn do_schedule(&mut self, now: u64, cpu_id: u64, word: &AtomicU64) -> (end: Option<
        PublishEnd,
    >)
        requires
            old(self).run_q@.wf(),
        ensures
            final(self).run_q@.wf(),
            final(self).run_q@ == old(self).run_q@.accounted(now).scheduled(now),
            may_publish_as(old(self).run_q@, old(self).last_update, Some(now), cpu_id, word, end),
            final(self).last_update == update_time(old(self).last_update, now),
    {
        let end = self.update_global_least_tasked_cpu_info(Some(now), cpu_id, word);
        self.run_q.account_current(now);
        self.run_q.schedule(now);
        end
    }
}

/// The scheduler's state and whether somebody is using it.
pub struct SchedCell {
    pub state: SchedState,
    pub borrowed: bool,
}

/// What became of a call to the scheduler.
#[derive(Clone, Copy, Debug, PartialEq, Eq, Structural)]
pub enum ScheduleOutcome {
    /// The scheduler was running already, so nothing was done.
    Reentered,
    /// The scheduler has run, and this came of publishing the load.
    Done(Option<PublishEnd>),
}

impl SchedCell {
    /// Nobody is using the state, and there is room for another task.
    pub open spec fn can_take_work(&self) -> bool {
        &&& !self.borrowed
        &&& self.state.run_q@.works.len() < MAX_WORK
    }

    /// `after` is the state after a call to the scheduler.
    pub open spec fn after_schedule(&self, after: &Self, now: u64) -> bool {
        &&& after.borrowed == self.borrowed
        &&& after.state.run_q@.wf()
        &&& self.borrowed ==> after.state == self.state
        &&& !self.borrowed ==> {
            &&& after.state.run_q@ == self.state.run_q@.accounted(now).scheduled(now)
            &&& after.state.last_update == update_time(self.state.last_update, now)
        }
    }

    /// What can become of a call to the scheduler.
    pub open spec fn may_come_out(
        &self,
        now: u64,
        cpu_id: u64,
        word: &AtomicU64,
        outcome: ScheduleOutcome,
    ) -> bool {
        match outcome {
            ScheduleOutcome::Reentered => self.borrowed,
            ScheduleOutcome::Done(end) => !self.borrowed && may_publish_as(
                self.state.run_q@,
                self.state.last_update,
                Some(now),
                cpu_id,
                word,
                end,
            ),
        }
    }
}

/// Runs the scheduler, unless it is running already.
pub fn schedule(cell: &mut SchedCell, now: u64, cpu_id: u64, word: &AtomicU64) -> (r:
    ScheduleOutcome)
    requires
        old(cell).state.run_q@.wf(),
    ensures
        old(cell).after_schedule(final(cell), now),
        old(cell).may_come_out(now, cpu_id, word, r),
{
    if cell.borrowed {
        return ScheduleOutcome::Reentered;
    }
    ScheduleOutcome::Done(cell.state.do_schedule(now, cpu_id, word))
}

/// Puts a task on this processor's run queue.
pub fn insert_work(cell: &mut SchedCell, work: Work)
    requires
        !old(cell).borrowed,
        old(cell).state.run_q@.wf(),
        old(cell).state.run_q@.works.len() < MAX_WORK,
    ensures
        final(cell).borrowed == old(cell).borrowed,
        final(cell).state.last_update == old(cell).state.last_update,
        final(cell).state.run_q@.wf(),
        final(cell).state.run_q@ == (QueueModel {
            works: old(cell).state.run_q@.works.push(work),
            ..old(cell).state.run_q@
        }),
{
    cell.state.run_q.add_work(work);
}

/// Puts a task on the run queue of the processor `cpu`. Where that is another
/// processor than this one, the task is to be sent there.
pub fn place_task(cell: &mut SchedCell, cpu: usize, this_cpu: usize, task: Work) -> (r: Option<
    (usize, Work),
>)
    requires
        old(cell).state.run_q@.wf(),
        cpu == this_cpu ==> old(cell).can_take_work(),
    ensures
        r == (if cpu == this_cpu {
            None
        } else {
            Some((cpu, task))
        }),
        final(cell).borrowed == old(cell).borrowed,
        final(cell).state.last_update == old(cell).state.last_update,
        final(cell).state.run_q@.wf(),
        final(cell).state.run_q@ == (if cpu == this_cpu {
            QueueModel {
                works: old(cell).state.run_q@.works.push(task),
                ..old(cell).state.run_q@
            }
        } else {
            old(cell).state.run_q@
        }),
{
    if cpu == this_cpu {
        cell.state.run_q.add_work(task);
        None
    } else {
        Some((cpu, task))
    }
}

/// Where a task is to be sent once the shared word was `info`: nowhere if it
/// stays on this processor.
pub open spec fn destination(info: u64, this_cpu: usize, task: Work) -> Option<(usize, Work)> {
    if cpu_in(info) == this_cpu {
        None
    } else {
        Some((cpu_in(info) as usize, task))
    }
}

/// Puts a task on the run queue of the processor that has the least to do,
/// which the shared word tells. Where that is another processor than this
/// one, the task is to be sent there.
pub fn insert_task_cross_cpu(
    cell: &mut SchedCell,
    word: &AtomicU64,
    this_cpu: usize,
    task: Work,
) -> (r: Option<(usize, Work)>)
    requires
        old(cell).state.run_q@.wf(),
        (exists|info: u64| #[trigger] can_load(word, info) && cpu_in(info) == this_cpu) ==> old(
            cell,
        ).can_take_work(),
    ensures
        exists|info: u64| #[trigger]
            can_load(word, info) && r == destination(info, this_cpu, task),
        r matches Some((cpu, sent)) ==> {
            &&& cpu != this_cpu
            &&& cpu < 0x1_0000
            &&& sent == task
            &&& final(cell).state.run_q@ == old(cell).state.run_q@
        },
        r is None ==> this_cpu < 0x1_0000 && final(cell).state.run_q@ == (QueueModel {
            works: old(cell).state.run_q@.works.push(task),
            ..old(cell).state.run_q@
        }),
        final(cell).borrowed == old(cell).borrowed,
        final(cell).state.last_update == old(cell).state.last_update,
        final(cell).state.run_q@.wf(),
{
    let cpu: usize = get_best_cpu(word);
    place_task(cell, cpu, this_cpu, task)
}

/// The first user task as the scheduler sees it.
pub open spec fn init_work() -> Work {
    Work {
        desc: TaskDescriptor { tid: Tid(1), tgid: Tgid(1) },
        priority: 0,
        state: TaskState::Runnable,
        last_account: None,
        run_time: 0,
    }
}

/// The run queue once the first user task was put there.
pub open spec fn with_init(queue: QueueModel) -> QueueModel {
    QueueModel { works: queue.works.push(init_work()), ..queue }
}

/// Starts the first processor: the first user task is listed and queued, and
/// the scheduler runs.
pub fn sched_init<T>(
    cell: &mut SchedCell,
    tasks: &mut TaskList<T>,
    init_task: T,
    now: u64,
    cpu_id: u64,
    word: &AtomicU64,
) -> (r: ScheduleOutcome)
    requires
        !old(cell).borrowed,
        old(cell).state.run_q@.wf(),
        old(cell).state.run_q@.works.len() < MAX_WORK,
        old(tasks).wf(),
    ensures
        final(tasks).wf(),
        final(tasks).task_at(init_work().desc) == Some(init_task),
        forall|other: TaskDescriptor|
            other != init_work().desc ==> #[trigger] final(tasks).task_at(other) == old(
                tasks,
            ).task_at(other),
        !final(cell).borrowed,
        final(cell).state.run_q@.wf(),
        final(cell).state.run_q@ == with_init(old(cell).state.run_q@).accounted(now).scheduled(now),
        final(cell).state.last_update == update_time(old(cell).state.last_update, now),
        r matches ScheduleOutcome::Done(end) && may_publish_as(
            with_init(old(cell).state.run_q@),
            old(cell).state.last_update,
            Some(now),
            cpu_id,
            word,
            end,
        ),
{
    let desc = TaskDescriptor::from_tgid_tid(Tgid::init(), Tid(1));
    let work = Work::new(desc, 0);
    tasks.insert(desc, Some(init_task));
    insert_work(cell, work);
    schedule(cell, now, cpu_id, word)
}

/// Starts another processor: its load is published at `started`, and the
/// scheduler runs at `now`. The first result is what came of publishing before
/// the scheduler ran.
pub fn sched_init_secondary(
    cell: &mut SchedCell,
    started: Option<u64>,
    now: u64,
    cpu_id: u64,
    word: &AtomicU64,
) -> (r: (Option<PublishEnd>, ScheduleOutcome))
    requires
        !old(cell).borrowed,
        old(cell).state.run_q@.wf(),
    ensures
        may_publish_as(
            old(cell).state.run_q@,
            old(cell).state.last_update,
            started,
            cpu_id,
            word,
            r.0,
        ),
        r.1 matches ScheduleOutcome::Done(end) && may_publish_as(
            old(cell).state.run_q@,
            if r.0 is Some {
                started
            } else {
                old(cell).state.last_update
            },
            Some(now),
            cpu_id,
            word,
            end,
        ),
        !final(cell).borrowed,
        final(cell).state.run_q@.wf(),
        final(cell).state.run_q@ == old(cell).state.run_q@.accounted(now).scheduled(now),
        final(cell).state.last_update == update_time(
            if r.0 is Some {
                started
            } else {
                old(cell).state.last_update
            },
            now,
        ),
{
    let end = cell.state.update_global_least_tasked_cpu_info(started, cpu_id, word);
    let outcome = schedule(cell, now, cpu_id, word);
    (end, outcome)
}

/// Gives other tasks a chance to run.
pub fn sys_sched_yield(cell: &mut SchedCell, now: u64, cpu_id: u64, word: &AtomicU64) -> (r: (
    Result<usize, KernelError>,
    ScheduleOutcome,
))
    requires
        old(cell).state.run_q@.wf(),
    ensures
        r.0 == Ok::<usize, KernelError>(0),
        old(cell).may_come_out(now, cpu_id, word, r.1),
        old(cell).after_schedule(final(cell), now),
{
    let outcome = schedule(cell, now, cpu_id, word);
    (Ok(0), outcome)
}

/// The task that is running on this processor.
pub fn current_work(cell: &SchedCell) -> (work: Work)
    requires
        cell.state.run_q@.wf(),
    ensures
        work == cell.state.run_q@.current(),
{
    cell.state.run_q.current()
}

/// Wakes a task.
#[derive(Clone, Copy, Debug, PartialEq, Eq, Structural)]
pub struct WorkWaker {
    pub desc: TaskDescriptor,
}

/// What wakes the task that is running on this processor.
pub fn current_work_waker(cell: &SchedCell) -> (waker: WorkWaker)
    requires
        cell.state.run_q@.wf(),
    ensures
        waker.desc == cell.state.run_q@.current().desc,
{
    WorkWaker { desc: current_work(cell).desc }
}

} // verus!
