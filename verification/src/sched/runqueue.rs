//! The tasks that a processor can run.
use crate::process::task::{TaskDescriptor, TaskState, Tid};
use crate::process::thread_group::id::Tgid;
use vstd::prelude::*;

verus! {

/// Added to a task's priority to give its weight, so that every task has
/// some.
pub const SCHED_WEIGHT_BASE: i32 = 1024;

/// How many tasks a run queue can hold.
pub const MAX_WORK: usize = 0xffff_ffff;

/// A task as the scheduler sees it. Times are in nanoseconds.
#[derive(Clone, Copy, Debug, PartialEq, Eq, Structural)]
pub struct Work {
    pub desc: TaskDescriptor,
    pub priority: i8,
    pub state: TaskState,
    /// Up to when the time the task has run is counted; when it was switched
    /// to, if that came later. None before it first runs.
    pub last_account: Option<u64>,
    /// The time that the task has run.
    pub run_time: u64,
}

impl Work {
    /// The share of the processor that the task is to have.
    pub open spec fn weight(self) -> int {
        SCHED_WEIGHT_BASE + self.priority
    }

    /// The task is running or could be.
    pub open spec fn is_ready(self) -> bool {
        self.state is Running || self.state is Runnable
    }

    /// The task with the time up to `now` counted.
    pub open spec fn accounted(self, now: u64) -> Work {
        Work {
            last_account: Some(now),
            run_time: match self.last_account {
                Some(last) => if last <= now && self.run_time + (now - last) <= u64::MAX {
                    (self.run_time + (now - last)) as u64
                } else if last <= now {
                    u64::MAX
                } else {
                    self.run_time
                },
                None => self.run_time,
            },
            ..self
        }
    }

    /// A task that can be run and has not been yet.
    pub fn new(desc: TaskDescriptor, priority: i8) -> (work: Self)
        ensures
            work == (Work {
                desc,
                priority,
                state: TaskState::Runnable,
                last_account: None,
                run_time: 0,
            }),
    {
        Work { desc, priority, state: TaskState::Runnable, last_account: None, run_time: 0 }
    }

    /// Adds the time since it was last counted.
    pub fn update_accounting(&mut self, now: u64)
        ensures
            *final(self) == (Work {
                run_time: old(self).accounted(now).run_time,
                ..*old(self)
            }),
    {
        if let Some(last) = self.last_account {
            if last <= now {
                self.run_time = self.run_time.saturating_add(now - last);
            }
        }
    }

    /// Counts from now on.
    pub fn reset_last_account(&mut self, now: u64)
        ensures
            *final(self) == (Work { last_account: Some(now), ..*old(self) }),
    {
        self.last_account = Some(now);
    }
}

/// The tasks that a processor can run, and the one it is running.
pub struct RunQueue {
    /// Runs when nothing else can.
    pub idle: Work,
    pub works: Vec<Work>,
    /// Which of `works` is running; the idle task where none is.
    pub running: Option<usize>,
}

/// A run queue: the idle task, the other tasks in order, and which of these
/// is running.
#[verifier::ext_equal]
pub struct QueueModel {
    pub idle: Work,
    pub works: Seq<Work>,
    pub running: Option<usize>,
}

impl View for RunQueue {
    type V = QueueModel;

    open spec fn view(&self) -> QueueModel {
        QueueModel { idle: self.idle, works: self.works@, running: self.running }
    }
}

impl QueueModel {
    /// The queue is not too long, and what it says is running is in it.
    pub open spec fn wf(self) -> bool {
        &&& self.works.len() <= MAX_WORK
        &&& self.running matches Some(i) ==> i < self.works.len()
    }

    /// The task that is running.
    pub open spec fn current(self) -> Work {
        match self.running {
            Some(i) => self.works[i as int],
            None => self.idle,
        }
    }

    /// The time that all tasks have run together, the idle task with them.
    pub open spec fn total_time(self) -> int {
        self.idle.run_time + time_of(self.works, self.works.len())
    }

    /// The time that the running task has run is counted up to `now`.
    pub open spec fn accounted(self, now: u64) -> QueueModel {
        match self.running {
            Some(i) => QueueModel {
                works: self.works.update(i as int, self.works[i as int].accounted(now)),
                ..self
            },
            None => QueueModel { idle: self.idle.accounted(now), ..self },
        }
    }

    /// The task that is to run next, none for the idle task.
    pub open spec fn pick(self) -> Option<usize> {
        if none_ready(self.works) {
            None
        } else {
            Some(choose|i: usize| is_pick(self.works, i as int))
        }
    }

    /// After a switch to `next`: the task that was running can be run again,
    /// unless it has gone to sleep or ended, and `next` is running from `now`
    /// on.
    pub open spec fn switched(self, next: Option<usize>, now: u64) -> QueueModel {
        if next == self.running {
            self
        } else {
            QueueModel {
                idle: if next is None {
                    started(self.idle, now)
                } else if self.running is None {
                    stopped(self.idle)
                } else {
                    self.idle
                },
                works: Seq::new(
                    self.works.len(),
                    |j: int|
                        if next == Some(j as usize) {
                            started(self.works[j], now)
                        } else if self.running == Some(j as usize) {
                            stopped(self.works[j])
                        } else {
                            self.works[j]
                        },
                ),
                running: next,
            }
        }
    }

    /// After the scheduler has picked a task at `now`.
    pub open spec fn scheduled(self, now: u64) -> QueueModel {
        self.switched(self.pick(), now)
    }
}

/// There is only one task to pick.
pub proof fn lemma_pick(m: QueueModel, i: usize)
    requires
        is_pick(m.works, i as int),
    ensures
        m.pick() == Some(i),
{
    let other = choose|other: usize| is_pick(m.works, other as int);
    assert(is_pick(m.works, other as int));
    assert(m.works[i as int].is_ready());
}

/// The weight of the first `n` tasks together.
pub open spec fn total_weight(works: Seq<Work>, n: nat) -> int
    decreases n,
{
    if n == 0 {
        0
    } else {
        total_weight(works, (n - 1) as nat) + works[n - 1].weight()
    }
}

/// The time that the first `n` tasks have run together.
pub open spec fn time_of(works: Seq<Work>, n: nat) -> int
    decreases n,
{
    if n == 0 {
        0
    } else {
        time_of(works, (n - 1) as nat) + works[n - 1].run_time
    }
}

/// Of the first `n` tasks that are ready, the one with the highest priority,
/// the first where several have it.
pub open spec fn is_best(works: Seq<Work>, n: int, i: int) -> bool {
    &&& 0 <= i < n
    &&& works[i].is_ready()
    &&& forall|j: int|
        0 <= j < n && (#[trigger] works[j]).is_ready() ==> works[j].priority < works[i].priority
            || (works[j].priority == works[i].priority && i <= j)
}

/// The task that is to run next: of those that are ready the one with the
/// highest priority, the first in the queue where several have it.
pub open spec fn is_pick(works: Seq<Work>, i: int) -> bool {
    is_best(works, works.len() as int, i)
}

/// No task is ready.
pub open spec fn none_ready(works: Seq<Work>) -> bool {
    forall|j: int| 0 <= j < works.len() ==> !(#[trigger] works[j]).is_ready()
}

/// A task that stops running can be run again, unless it has gone to sleep or
/// ended.
pub open spec fn stopped(work: Work) -> Work {
    if work.state is Running {
        Work { state: TaskState::Runnable, ..work }
    } else {
        work
    }
}

/// A task that runs from `now` on: its time is counted from there.
pub open spec fn started(work: Work, now: u64) -> Work {
    Work { state: TaskState::Running, last_account: Some(now), ..work }
}

impl RunQueue {
    /// An empty queue, with the idle task running.
    pub fn new() -> (queue: Self)
        ensures
            queue@.wf(),
            queue@ == (QueueModel {
                idle: Work {
                    desc: TaskDescriptor { tid: Tid(0), tgid: Tgid(0) },
                    priority: i8::MIN,
                    state: TaskState::Running,
                    last_account: None,
                    run_time: 0,
                },
                works: Seq::empty(),
                running: None,
            }),
    {
        RunQueue {
            idle: Work {
                desc: TaskDescriptor::this_cpus_idle(),
                priority: i8::MIN,
                state: TaskState::Running,
                last_account: None,
                run_time: 0,
            },
            works: Vec::new(),
            running: None,
        }
    }

    /// Puts a task at the end of the queue.
    pub fn add_work(&mut self, work: Work)
        requires
            old(self)@.wf(),
            old(self)@.works.len() < MAX_WORK,
        ensures
            final(self)@.wf(),
            final(self)@ == (QueueModel { works: old(self)@.works.push(work), ..old(self)@ }),
    {
        self.works.push(work);
    }

    /// The weight of the tasks in the queue together.
    pub fn weight(&self) -> (weight: u64)
        requires
            self@.wf(),
        ensures
            weight == total_weight(self@.works, self@.works.len()),
    {
        let mut sum: u64 = 0;
        let mut i: usize = 0;
        while i < self.works.len()
            invariant
                self@.wf(),
                i <= self.works@.len(),
                sum == total_weight(self.works@, i as nat),
                sum <= i * 1151,
            decreases self.works@.len() - i,
        {
            let weight: i32 = SCHED_WEIGHT_BASE + self.works[i].priority as i32;
            sum = sum + weight as u64;
            i += 1;
        }
        sum
    }

    /// The task that is running.
    pub fn current(&self) -> (work: Work)
        requires
            self@.wf(),
        ensures
            work == self@.current(),
    {
        match self.running {
            Some(i) => self.works[i],
            None => self.idle,
        }
    }

    /// Counts the time that the running task has run, up to `now`, and counts
    /// from there on.
    pub fn account_current(&mut self, now: u64)
        requires
            old(self)@.wf(),
        ensures
            final(self)@.wf(),
            final(self)@ == old(self)@.accounted(now),
    {
        match self.running {
            Some(i) => {
                let mut work = self.works[i];
                work.update_accounting(now);
                work.reset_last_account(now);
                self.works.set(i, work);
            },
            None => {
                self.idle.update_accounting(now);
                self.idle.reset_last_account(now);
            },
        }
    }

    /// The task that is to run next, none for the idle task.
    pub fn pick(&self) -> (next: Option<usize>)
        ensures
            next == self@.pick(),
            next is None <==> none_ready(self@.works),
            next matches Some(i) ==> is_pick(self@.works, i as int),
    {
        let mut best: Option<usize> = None;
        let mut i: usize = 0;
        while i < self.works.len()
            invariant
                i <= self.works@.len(),
                best is None <==> forall|j: int|
                    0 <= j < i ==> !(#[trigger] self.works@[j]).is_ready(),
                best matches Some(b) ==> {
                    &&& b < i
                    &&& self.works@[b as int].is_ready()
                    &&& forall|j: int|
                        0 <= j < i && (#[trigger] self.works@[j]).is_ready()
                            ==> self.works@[j].priority < self.works@[b as int].priority || (
                        self.works@[j].priority == self.works@[b as int].priority && b <= j)
                },
            decreases self.works@.len() - i,
        {
            let ready = match self.works[i].state {
                TaskState::Running => true,
                TaskState::Runnable => true,
                _ => false,
            };
            if ready {
                match best {
                    None => {
                        best = Some(i);
                    },
                    Some(b) => {
                        if self.works[i].priority > self.works[b].priority {
                            best = Some(i);
                        }
                    },
                }
                assert(self.works@[i as int].is_ready());
            }
            i += 1;
        }
        proof {
            if let Some(b) = best {
                lemma_pick(self@, b);
            }
        }
        best
    }

    /// Decides which task runs next and switches to it: the ready task with
    /// the highest priority, or the idle task where none is ready. Nothing
    /// changes where that task is running already. The time of a task that is
    /// switched to is counted from `now` on.
    pub fn schedule(&mut self, now: u64) -> (switch: bool)
        requires
            old(self)@.wf(),
        ensures
            final(self)@.wf(),
            final(self)@ == old(self)@.scheduled(now),
            switch == (old(self)@.pick() != old(self)@.running),
    {
        let ghost m = self@;
        let next = self.pick();
        let same = match (next, self.running) {
            (None, None) => true,
            (Some(a), Some(b)) => a == b,
            _ => false,
        };
        if same {
            return false;
        }
        match self.running {
            Some(i) => {
                let mut work = self.works[i];
                if let TaskState::Running = work.state {
                    work.state = TaskState::Runnable;
                }
                self.works.set(i, work);
            },
            None => {
                if let TaskState::Running = self.idle.state {
                    self.idle.state = TaskState::Runnable;
                }
            },
        }
        match next {
            Some(i) => {
                let mut work = self.works[i];
                work.state = TaskState::Running;
                work.reset_last_account(now);
                self.works.set(i, work);
            },
            None => {
                self.idle.state = TaskState::Running;
                self.idle.reset_last_account(now);
            },
        }
        self.running = next;
        assert(self@.works =~= m.switched(next, now).works);
        true
    }
}

} // verus!
