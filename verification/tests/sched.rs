//! The scheduler.
use moss_kernel::process::task::{TaskDescriptor, TaskState, Tid};
use moss_kernel::process::task_list::TaskList;
use moss_kernel::process::thread_group::id::Tgid;
use moss_kernel::sched::current::{
    current_task, current_task_shared, spawn_kernel_work, CallSite, CurrentTaskPtr, OwnedTask,
};
use moss_kernel::sched::placement::{
    best_cpu, get_best_cpu, pack_info, weight_of, Publication, PublishEnd, MAX_RETRIES,
};
use moss_kernel::sched::runqueue::{RunQueue, Work};
use moss_kernel::sched::stat::{get_cpu_stat, CpuStat};
use moss_kernel::sched::state::{
    current_work, current_work_waker, insert_task_cross_cpu, insert_work, place_task, sched_init,
    sched_init_secondary, schedule, sys_sched_yield, SchedCell, SchedState, ScheduleOutcome,
    VT_FIXED_SHIFT, VT_ONE,
};
use std::sync::atomic::{AtomicU64, AtomicUsize, Ordering};
use std::sync::Arc;

const MS: u64 = 1_000_000;

fn desc(n: u32) -> TaskDescriptor {
    TaskDescriptor::from_tgid_tid(Tgid(n), Tid(n))
}

fn cell() -> SchedCell {
    SchedCell {
        state: SchedState::new(),
        borrowed: false,
    }
}

fn word() -> AtomicU64 {
    AtomicU64::new(0)
}

fn at(line: u32) -> CallSite {
    CallSite { line, column: 1 }
}

#[test]
fn idle_runs_when_nothing_else_can() {
    let mut cell = cell();
    assert_eq!(current_work(&cell).desc, TaskDescriptor::this_cpus_idle());
    schedule(&mut cell, 5 * MS, 0, &word());
    assert_eq!(current_work(&cell).desc, TaskDescriptor::this_cpus_idle());
    assert_eq!(current_work(&cell).state, TaskState::Running);
}

#[test]
fn the_highest_priority_runs_first() {
    let mut cell = cell();
    insert_work(&mut cell, Work::new(desc(2), 1));
    insert_work(&mut cell, Work::new(desc(3), 4));
    insert_work(&mut cell, Work::new(desc(4), 4));
    schedule(&mut cell, 5 * MS, 0, &word());
    assert_eq!(current_work(&cell).desc, desc(3));
    assert_eq!(current_work_waker(&cell).desc, desc(3));
    assert_eq!(cell.state.run_q.idle.state, TaskState::Runnable);
    // It goes to sleep.
    cell.state.run_q.works[1].state = TaskState::Sleeping;
    schedule(&mut cell, 6 * MS, 0, &word());
    assert_eq!(current_work(&cell).desc, desc(4));
    assert_eq!(cell.state.run_q.works[1].state, TaskState::Sleeping);
    // Everything ends.
    for work in cell.state.run_q.works.iter_mut() {
        work.state = TaskState::Finished;
    }
    schedule(&mut cell, 7 * MS, 0, &word());
    assert_eq!(current_work(&cell).desc, TaskDescriptor::this_cpus_idle());
}

#[test]
fn switching_changes_both_states() {
    let mut queue = RunQueue::new();
    queue.add_work(Work::new(desc(2), 1));
    assert!(queue.schedule(5));
    assert_eq!(queue.current().state, TaskState::Running);
    assert_eq!(queue.current().last_account, Some(5));
    assert!(!queue.schedule(6));
    assert_eq!(queue.current().last_account, Some(5));
    queue.add_work(Work::new(desc(3), 9));
    assert!(queue.schedule(7));
    assert_eq!(queue.works[0].state, TaskState::Runnable);
    assert_eq!(queue.works[1].state, TaskState::Running);
    assert_eq!(queue.running, Some(1));
}

#[test]
fn time_is_counted_once() {
    let mut cell = cell();
    insert_work(&mut cell, Work::new(desc(2), 1));
    schedule(&mut cell, 10, 0, &word());
    schedule(&mut cell, 30, 0, &word());
    schedule(&mut cell, 30, 0, &word());
    schedule(&mut cell, 45, 0, &word());
    // The first of these is when the task was switched to.
    assert_eq!(current_work(&cell).run_time, 35);
    assert_eq!(current_work(&cell).last_account, Some(45));
}

#[test]
fn each_moment_is_charged_to_one_task() {
    let mut cell = cell();
    insert_work(&mut cell, Work::new(desc(2), 1));
    schedule(&mut cell, 10, 0, &word());
    // Another task comes first from here on.
    insert_work(&mut cell, Work::new(desc(3), 5));
    schedule(&mut cell, 25, 0, &word());
    schedule(&mut cell, 40, 0, &word());
    // It sleeps, so the first has its turn again.
    cell.state.run_q.works[1].state = TaskState::Sleeping;
    schedule(&mut cell, 50, 0, &word());
    schedule(&mut cell, 53, 0, &word());
    // Now the processor is idle.
    cell.state.run_q.works[0].state = TaskState::Sleeping;
    schedule(&mut cell, 60, 0, &word());
    schedule(&mut cell, 75, 0, &word());
    let queue = &cell.state.run_q;
    assert_eq!(queue.works[0].run_time, 15 + 10);
    assert_eq!(queue.works[1].run_time, 25);
    assert_eq!(queue.idle.run_time, 15);
    assert_eq!(15 + 10 + 25 + 15, 75 - 10);
}

#[test]
fn weights_add_up_and_are_positive() {
    let mut queue = RunQueue::new();
    assert_eq!(queue.weight(), 0);
    queue.add_work(Work::new(desc(2), i8::MIN));
    assert_eq!(queue.weight(), 896);
    queue.add_work(Work::new(desc(3), 10));
    assert_eq!(queue.weight(), 896 + 1034);
}

#[test]
fn the_scheduler_does_not_reenter() {
    let mut cell = cell();
    insert_work(&mut cell, Work::new(desc(2), 1));
    cell.borrowed = true;
    assert_eq!(schedule(&mut cell, 5 * MS, 0, &word()), ScheduleOutcome::Reentered);
    let (r, outcome) = sys_sched_yield(&mut cell, 5 * MS, 0, &word());
    assert_eq!(r, Ok(0));
    assert_eq!(outcome, ScheduleOutcome::Reentered);
    assert_eq!(current_work(&cell).desc, TaskDescriptor::this_cpus_idle());
    cell.borrowed = false;
    let (r, outcome) = sys_sched_yield(&mut cell, 5 * MS, 0, &word());
    assert_eq!(r, Ok(0));
    assert!(matches!(outcome, ScheduleOutcome::Done(Some(_))));
    assert_eq!(current_work(&cell).desc, desc(2));
}

#[test]
fn the_first_task_is_listed_and_run() {
    let mut cell = cell();
    let mut tasks: TaskList<&str> = TaskList::new();
    sched_init(&mut cell, &mut tasks, "init", MS, 0, &word());
    assert_eq!(tasks.find_task_by_descriptor(&desc(1)), Some(&"init"));
    assert_eq!(current_work(&cell).desc, desc(1));
    assert_eq!(current_work(&cell).priority, 0);
}

#[test]
fn other_processors_publish_before_they_run() {
    let mut cell = cell();
    let word = AtomicU64::new(pack_info(1, 1024));
    let (end, outcome) = sched_init_secondary(&mut cell, Some(MS), MS + 1, 3, &word);
    assert_eq!(
        end,
        Some(PublishEnd {
            seen: pack_info(1, 1024),
            replaced: true,
            exchanges: 1
        })
    );
    assert_eq!(outcome, ScheduleOutcome::Done(None));
    assert_eq!(word.load(Ordering::Relaxed), pack_info(3, 0));
    assert_eq!(cell.state.last_update, Some(MS));
    assert_eq!(current_work(&cell).last_account, Some(MS + 1));
    // Without a clock the load is published again when the scheduler runs.
    let (end, outcome) = sched_init_secondary(&mut cell, None, MS, 3, &word);
    assert!(end.is_some());
    assert!(matches!(outcome, ScheduleOutcome::Done(Some(_))));
    assert_eq!(cell.state.last_update, Some(MS));
}

#[test]
fn loads_are_published_at_intervals() {
    let mut state = SchedState::new();
    state.run_q.add_work(Work::new(desc(2), 0));
    let word = AtomicU64::new(0);
    let mut publish = |now| {
        state
            .update_global_least_tasked_cpu_info(now, 0, &word)
            .is_some()
    };
    assert!(publish(None));
    assert!(publish(Some(MS)));
    assert!(!publish(Some(17 * MS - 1)));
    assert!(publish(Some(17 * MS)));
    assert!(!publish(Some(16 * MS)));
    assert_eq!(state.last_update, Some(17 * MS));
    assert_eq!(word.load(Ordering::Relaxed), pack_info(0, 1024));
}

#[test]
fn the_word_becomes_the_load_where_it_should() {
    let weight = 1024 + 3;
    for (was, cpu, becomes) in [
        // Another processor's record gives way to less only.
        (pack_info(1, weight + 1), 2, pack_info(2, weight)),
        (pack_info(1, weight), 2, pack_info(1, weight)),
        (pack_info(1, weight - 1), 2, pack_info(1, weight - 1)),
        // The processor's own record is brought up to date.
        (pack_info(2, weight - 1), 2, pack_info(2, weight)),
        (pack_info(2, weight + 1), 2, pack_info(2, weight)),
        (pack_info(2, weight), 2, pack_info(2, weight)),
        (u64::MAX, 0xffff, pack_info(0xffff, weight)),
    ] {
        let mut state = SchedState::new();
        state.run_q.add_work(Work::new(desc(2), 3));
        let word = AtomicU64::new(was);
        let end = state
            .update_global_least_tasked_cpu_info(Some(MS), cpu, &word)
            .unwrap();
        assert_eq!(word.load(Ordering::Relaxed), becomes);
        assert_eq!(end.seen, was);
        assert_eq!(end.replaced, was != becomes);
        assert_eq!(end.exchanges, usize::from(was != becomes));
        // A moment later nothing is published.
        word.store(u64::MAX, Ordering::Relaxed);
        assert_eq!(
            state.update_global_least_tasked_cpu_info(Some(2 * MS), cpu, &word),
            None
        );
        assert_eq!(word.load(Ordering::Relaxed), u64::MAX);
    }
}

#[test]
fn the_idle_task_runs_at_the_lowest_priority() {
    let state = SchedState::new();
    assert_eq!(state.run_q.idle.priority, i8::MIN);
    assert_eq!(state.run_q.idle.state, TaskState::Running);
    assert_eq!(state.run_q.idle.last_account, None);
    assert_eq!(state.run_q.idle.run_time, 0);
    assert_eq!(state.run_q.running, None);
}

#[test]
fn words_hold_a_processor_and_its_load() {
    let word = pack_info(0x1_0005, 0xff_0000_0000_0007);
    assert_eq!(word, 0x0000_0000_0007_0005);
    assert_eq!(best_cpu(word), 5);
    assert_eq!(weight_of(word), 7);
    assert_eq!(best_cpu(pack_info(0xffff, 0xffff_ffff_ffff)), 0xffff);
}

#[test]
fn less_to_do_replaces_more() {
    let word = AtomicU64::new(pack_info(1, 2048));
    let now = |word: &AtomicU64| (get_best_cpu(word), weight_of(word.load(Ordering::Relaxed)));
    assert!(!Publication::new(2, 3000).publish(&word).replaced);
    assert_eq!(now(&word), (1, 2048));
    assert!(Publication::new(2, 1024).publish(&word).replaced);
    assert_eq!(now(&word), (2, 1024));
    // A processor corrects its own load, upwards too.
    assert!(Publication::new(2, 4096).publish(&word).replaced);
    assert_eq!(now(&word), (2, 4096));
    assert!(Publication::new(1, 4095).publish(&word).replaced);
    assert_eq!(now(&word), (1, 4095));
    let end = Publication::new(1, 4095).publish(&word);
    assert_eq!((end.replaced, end.exchanges), (false, 0));
}

#[test]
fn attempts_are_bounded() {
    let mut p = Publication::new(2, 1);
    let mut attempts = 0;
    // The word keeps changing under the processor.
    while p.attempt(pack_info(1, 100 + attempts)).is_some() {
        attempts += 1;
    }
    assert_eq!(attempts, MAX_RETRIES as u64);
    let mut p = Publication::new(2, 100);
    assert_eq!(p.attempt(pack_info(1, 50)), None);
    assert_eq!(p.attempt(pack_info(1, 200)), None);
}

#[test]
fn work_goes_to_the_least_tasked_processor() {
    let mut cell = cell();
    let work = Work::new(desc(6), 0);
    let word = AtomicU64::new(pack_info(3, 0));
    assert_eq!(
        insert_task_cross_cpu(&mut cell, &word, 0, work),
        Some((3, work))
    );
    assert_eq!(cell.state.run_q.works.len(), 0);
    assert_eq!(insert_task_cross_cpu(&mut cell, &word, 3, work), None);
    assert_eq!(cell.state.run_q.works.len(), 1);
    assert_eq!(place_task(&mut cell, 5, 3, work), Some((5, work)));
    // A queue that is in use does not hinder sending a task elsewhere.
    cell.borrowed = true;
    assert_eq!(place_task(&mut cell, 5, 3, work), Some((5, work)));
    assert_eq!(cell.state.run_q.works.len(), 1);
}

#[test]
fn statistics_are_per_processor() {
    let mut stats: Vec<CpuStat<AtomicUsize>> = vec![CpuStat::default(), CpuStat::default()];
    let second = &mut stats[1];
    let fields = [
        &mut second.user,
        &mut second.nice,
        &mut second.system,
        &mut second.idle,
        &mut second.iowait,
        &mut second.irq,
        &mut second.softirq,
        &mut second.steal,
        &mut second.guest,
        &mut second.guest_nice,
    ];
    for (i, field) in fields.into_iter().enumerate() {
        field.fetch_add(i + 1, Ordering::Relaxed);
    }
    let stat = get_cpu_stat(&stats, 1);
    assert_eq!((stat.user, stat.nice, stat.system, stat.idle), (1, 2, 3, 4));
    assert_eq!((stat.iowait, stat.irq, stat.softirq), (5, 6, 7));
    assert_eq!((stat.steal, stat.guest, stat.guest_nice), (8, 9, 10));
    assert_eq!(get_cpu_stat(&stats, 0).idle, 0);
    assert_eq!(CpuStat::from_counts([9; 10]).guest, 9);
}

#[test]
fn the_current_task_is_lent_and_returned() {
    let mut ptr = CurrentTaskPtr::new();
    assert!(!ptr.borrowed);
    let shared = Arc::new("shared");
    ptr.set_current(OwnedTask {
        t_shared: shared.clone(),
        kernel_work: None,
    });
    let guard = current_task(&mut ptr, at(10));
    assert!(ptr.borrowed);
    assert_eq!(ptr.location, Some(at(10)));
    ptr.release(guard);
    assert!(!ptr.borrowed);
    assert_eq!(ptr.location, None);
    assert!(Arc::ptr_eq(&current_task_shared(&mut ptr, at(11)), &shared));
    assert!(!ptr.borrowed);
    spawn_kernel_work(&mut ptr, at(12), "work");
    assert_eq!(ptr.task.as_ref().unwrap().kernel_work, Some("work"));
}

#[test]
fn virtual_time_has_fraction_bits() {
    assert_eq!(VT_ONE, 1u128 << VT_FIXED_SHIFT);
}
