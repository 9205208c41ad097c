//! What holds of every scheduler.
use crate::sched::runqueue::{
    is_best, is_pick, lemma_pick, none_ready, time_of, QueueModel, Work,
};
use vstd::prelude::*;

verus! {

/// Every task has some weight, whatever its priority.
pub proof fn law_weight_is_positive(work: Work)
    ensures
        work.weight() > 0,
{
}

/// Counting again at the same moment adds nothing.
pub proof fn law_counting_again_adds_nothing(m: QueueModel, now: u64)
    requires
        m.wf(),
    ensures
        m.accounted(now).accounted(now) == m.accounted(now),
{
    assert(m.accounted(now).accounted(now).works =~= m.accounted(now).works);
}

/// Counting in two steps counts the same time as counting in one.
pub proof fn law_time_adds_up(work: Work, from: u64, middle: u64, to: u64)
    requires
        work.last_account == Some(from),
        from <= middle <= to,
        work.run_time + (to - from) <= u64::MAX,
    ensures
        work.accounted(middle).accounted(to) == work.accounted(to),
        work.accounted(to).run_time == work.run_time + (to - from),
{
}

/// The time together changes by what it changes for one task.
proof fn lemma_time_of_update(works: Seq<Work>, i: int, work: Work, n: nat)
    requires
        0 <= i < works.len(),
        n <= works.len(),
    ensures
        time_of(works.update(i, work), n) == time_of(works, n) + (if i < n {
            work.run_time - works[i].run_time
        } else {
            0
        }),
    decreases n,
{
    if n > 0 {
        lemma_time_of_update(works, i, work, (n - 1) as nat);
    }
}

/// The time together is that of the single tasks, whatever else differs.
proof fn lemma_time_of_same(a: Seq<Work>, b: Seq<Work>, n: nat)
    requires
        n <= a.len() == b.len(),
        forall|j: int| 0 <= j < n ==> (#[trigger] a[j]).run_time == b[j].run_time,
    ensures
        time_of(a, n) == time_of(b, n),
    decreases n,
{
    if n > 0 {
        lemma_time_of_same(a, b, (n - 1) as nat);
        assert(a[n - 1].run_time == b[n - 1].run_time);
    }
}

/// No time is counted twice, and none that a task did not run. When the
/// scheduler runs, the time that all tasks have run together grows by no more
/// than what has passed since the running task's time was last counted, and by
/// just that where the count does not reach its limit. From then on the time
/// of the task that runs is counted from this moment.
pub proof fn law_time_is_counted_once(m: QueueModel, now: u64)
    requires
        m.wf(),
    ensures
        ({
            let n = m.accounted(now).scheduled(now);
            &&& n.current().last_account == Some(now)
            &&& n.total_time() >= m.total_time()
            &&& match m.current().last_account {
                Some(last) => if last <= now {
                    &&& n.total_time() <= m.total_time() + (now - last)
                    &&& m.current().run_time + (now - last) <= u64::MAX ==> n.total_time()
                        == m.total_time() + (now - last)
                } else {
                    n.total_time() == m.total_time()
                },
                None => n.total_time() == m.total_time(),
            }
        }),
{
    let a = m.accounted(now);
    let n = a.scheduled(now);
    assert(a.wf());
    law_highest_priority_is_picked(a);
    if let Some(i) = m.running {
        lemma_time_of_update(
            m.works,
            i as int,
            m.works[i as int].accounted(now),
            m.works.len(),
        );
    }
    lemma_time_of_same(a.works, n.works, a.works.len());
}

/// The queue after the scheduler has run at each of these times.
pub open spec fn after_runs(m: QueueModel, times: Seq<u64>) -> QueueModel
    decreases times.len(),
{
    if times.len() == 0 {
        m
    } else {
        after_runs(m, times.drop_last()).accounted(times.last()).scheduled(times.last())
    }
}

/// However often the scheduler runs and whichever tasks it switches to, all
/// tasks together are charged no more than the time that passes.
pub proof fn law_no_more_than_passes_is_charged(m: QueueModel, from: u64, times: Seq<u64>)
    requires
        m.wf(),
        m.current().last_account == Some(from),
        times.len() > 0,
        from <= times[0],
        forall|i: int, j: int| 0 <= i <= j < times.len() ==> times[i] <= times[j],
    ensures
        after_runs(m, times).wf(),
        after_runs(m, times).current().last_account == Some(times.last()),
        after_runs(m, times).total_time() - m.total_time() <= times.last() - from,
    decreases times.len(),
{
    let first = times.drop_last();
    let before = after_runs(m, first);
    if first.len() > 0 {
        assert(first[0] == times[0]);
        law_no_more_than_passes_is_charged(m, from, first);
        assert(first.last() <= times.last());
    }
    law_time_is_counted_once(before, times.last());
    law_highest_priority_is_picked(before.accounted(times.last()));
}

/// Among tasks of which one is ready, one is best. The result is that one.
proof fn lemma_best_exists(works: Seq<Work>, n: int, ready: int) -> (i: int)
    requires
        0 <= ready < n <= works.len(),
        works[ready].is_ready(),
    ensures
        is_best(works, n, i),
    decreases n,
{
    let last = n - 1;
    if ready < last {
        let i = lemma_best_exists(works, last, ready);
        if works[last].is_ready() && works[last].priority > works[i].priority {
            last
        } else {
            i
        }
    } else if exists|j: int| 0 <= j < last && (#[trigger] works[j]).is_ready() {
        let other = choose|j: int| 0 <= j < last && (#[trigger] works[j]).is_ready();
        let i = lemma_best_exists(works, last, other);
        if works[last].priority > works[i].priority {
            last
        } else {
            i
        }
    } else {
        last
    }
}

/// The pick is the first ready task of the highest priority, and there is one
/// unless no task is ready.
pub proof fn law_highest_priority_is_picked(m: QueueModel)
    requires
        m.wf(),
    ensures
        m.pick() is None <==> none_ready(m.works),
        m.pick() matches Some(i) ==> is_pick(m.works, i as int),
{
    if !none_ready(m.works) {
        let ready = choose|j: int| 0 <= j < m.works.len() && (#[trigger] m.works[j]).is_ready();
        let i = lemma_best_exists(m.works, m.works.len() as int, ready);
        lemma_pick(m, i as usize);
    }
}

/// Picking a task again, at the same moment or later, changes nothing.
pub proof fn law_scheduling_settles(m: QueueModel, now: u64, later: u64)
    requires
        m.wf(),
    ensures
        m.scheduled(now).wf(),
        m.scheduled(now).scheduled(later) == m.scheduled(now),
{
    law_highest_priority_is_picked(m);
    let n = m.scheduled(now);
    if m.pick() != m.running {
        assert forall|j: int| 0 <= j < m.works.len() implies (#[trigger] n.works[j]).is_ready()
            == m.works[j].is_ready() && n.works[j].priority == m.works[j].priority by {}
        match m.pick() {
            Some(i) => {
                assert(m.works[i as int].is_ready());
                assert(is_pick(n.works, i as int)) by {
                    assert(n.works[i as int].is_ready());
                    assert forall|j: int|
                        0 <= j < n.works.len() && (
                        #[trigger] n.works[j]).is_ready() implies n.works[j].priority
                        < n.works[i as int].priority || (n.works[j].priority
                        == n.works[i as int].priority && i <= j) by {
                        assert(m.works[j].is_ready());
                    }
                }
                lemma_pick(n, i);
            },
            None => {
                assert forall|j: int| 0 <= j < n.works.len() implies !(
                #[trigger] n.works[j]).is_ready() by {
                    assert(!m.works[j].is_ready());
                }
            },
        }
    }
}

/// Of a processor's tasks only the one that it is running is marked so.
pub open spec fn one_running(m: QueueModel) -> bool {
    &&& forall|j: int|
        0 <= j < m.works.len() && (#[trigger] m.works[j]).state is Running ==> m.running == Some(
            j as usize,
        )
    &&& m.idle.state is Running ==> m.running is None
}

/// At most one task is marked as running, before and after the scheduler has
/// run, and what runs after it was ready.
pub proof fn law_one_task_runs(m: QueueModel, now: u64)
    requires
        m.wf(),
        one_running(m),
    ensures
        one_running(m.accounted(now)),
        one_running(m.accounted(now).scheduled(now)),
        m.scheduled(now).running matches Some(i) ==> m.works[i as int].is_ready(),
{
    law_highest_priority_is_picked(m);
    let a = m.accounted(now);
    assert(a.wf());
    assert forall|j: int|
        0 <= j < a.works.len() && (#[trigger] a.works[j]).state is Running implies a.running
        == Some(j as usize) by {
        assert(m.works[j].state is Running);
    }
    let n = a.scheduled(now);
    assert forall|j: int|
        0 <= j < n.works.len() && (#[trigger] n.works[j]).state is Running implies n.running
        == Some(j as usize) by {
        assert(a.works[j].state is Running || a.pick() == Some(j as usize));
    }
    if let Some(i) = m.scheduled(now).running {
        if m.pick() == m.running {
            assert(m.works[i as int].is_ready());
        }
    }
}

} // verus!
