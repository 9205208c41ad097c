//! Tasks, the list of them, and the calls on threads.
use moss_kernel::error::KernelError;
use moss_kernel::process::task::{SignalState, Task, TaskDescriptor, TaskState, Tid};
use moss_kernel::process::task_list::TaskList;
use moss_kernel::process::thread_group::id::Tgid;
use moss_kernel::process::thread_group::signal::SigId;
use moss_kernel::process::threading::{
    sys_set_robust_list, sys_set_tid_address, RobustListHead, ROBUST_LIST_HEAD_SIZE,
};

fn desc(tgid: u32, tid: u32) -> TaskDescriptor {
    TaskDescriptor::from_tgid_tid(Tgid(tgid), Tid(tid))
}

#[test]
fn descriptors_fit_a_pointer() {
    assert_eq!(desc(0x89ab_cdef, 0x0123_4567).to_ptr(), 0x0123_4567_89ab_cdef);
    for (tgid, tid) in [(0, 0), (1, 2), (u32::MAX, 0), (0, u32::MAX), (7, 9)] {
        let d = desc(tgid, tid);
        assert_eq!(TaskDescriptor::from_ptr(d.to_ptr()), d);
    }
    assert_eq!(TaskDescriptor::from_ptr(0x5_0000_0003).to_ptr(), 0x5_0000_0003);
}

#[test]
fn descriptors_are_ordered_as_their_pointers() {
    let mut all = vec![desc(5, 1), desc(1, 5), desc(2, 1), desc(9, 0)];
    all.sort();
    let ptrs: Vec<u64> = all.iter().map(|d| d.to_ptr()).collect();
    let mut sorted = ptrs.clone();
    sorted.sort();
    assert_eq!(ptrs, sorted);
}

#[test]
fn descriptors_are_ordered_by_thread_first() {
    assert!(desc(9, 1) < desc(2, 3));
    assert!(desc(2, 3) > desc(9, 1));
    assert!(desc(2, 3) < desc(4, 3));
    assert!(!(desc(4, 3) < desc(4, 3)));
    assert_eq!(desc(4, 3), desc(4, 3));
    assert_ne!(desc(4, 3), desc(3, 4));
    let all = [desc(0, 0), desc(1, 0), desc(0, 1), desc(7, 7), desc(u32::MAX, 2)];
    for a in all {
        for b in all {
            assert_eq!(a.partial_cmp(&b), Some(a.cmp(&b)));
        }
    }
}

#[test]
fn idle_is_thread_group_zero() {
    assert!(TaskDescriptor::this_cpus_idle().is_idle());
    assert!(!desc(1, 0).is_idle());
    assert_eq!(Tid::from_tgid(Tgid(12)).value(), 12);
    assert_eq!(Tgid::from_pid_t(8), Tgid(8));
}

#[test]
fn only_finished_tasks_are_finished() {
    assert!(TaskState::Finished.is_finished());
    assert!(!TaskState::Running.is_finished());
    assert!(!TaskState::Runnable.is_finished());
    assert!(!TaskState::Sleeping.is_finished());
}

#[test]
fn first_tasks_differ() {
    let idle = Task::create_idle_task("vm", "registers");
    assert!(idle.is_idle_task());
    assert_eq!(idle.priority(), i8::MIN);
    assert_eq!(idle.process.signals, SignalState::Ignore);
    assert_eq!(idle.descriptor(), TaskDescriptor::this_cpus_idle());
    assert_eq!((idle.vm, idle.ctx), ("vm", "registers"));

    let mut init = Task::create_init_task((), ());
    assert!(!init.is_idle_task());
    assert_eq!(init.priority(), 0);
    assert_eq!(init.pgid(), Tgid(1));
    assert_eq!(init.tid(), Tid(1));
    assert_eq!(init.process.signals, SignalState::Default);
    assert_eq!(init.state, TaskState::Runnable);
    init.set_priority(-3);
    assert_eq!(init.priority(), -3);
}

#[test]
fn raised_signals_are_pending() {
    let mut task = Task::create_init_task((), ());
    let term = SigId::from_user_id(15).unwrap();
    let kill = SigId::from_user_id(9).unwrap();
    task.raise_task_signal(term);
    assert!(task.pending_signals.contains(term));
    assert!(!task.pending_signals.contains(kill));
    task.raise_task_signal(kill);
    assert!(task.pending_signals.contains(term));
    assert!(task.pending_signals.contains(kill));
}

#[test]
fn thread_calls() {
    let mut task = Task::create_init_task((), ());
    assert_eq!(sys_set_tid_address(&task, 0xdead), Ok(1));
    assert_eq!(std::mem::size_of::<RobustListHead>(), ROBUST_LIST_HEAD_SIZE);
    assert_eq!(
        sys_set_robust_list(&mut task, 0x1000, 23),
        Err(KernelError::InvalidValue)
    );
    assert_eq!(task.robust_list, None);
    assert_eq!(sys_set_robust_list(&mut task, 0x1000, 24), Ok(0));
    assert_eq!(task.robust_list, Some(0x1000));
}

#[test]
fn tasks_are_listed_in_order() {
    let mut list: TaskList<&str> = TaskList::new();
    list.insert(desc(3, 4), Some("c"));
    list.insert(desc(1, 1), Some("a"));
    list.insert(desc(3, 3), Some("b"));
    list.insert(desc(9, 9), None);
    list.insert(desc(3, 3), Some("b2"));
    let order: Vec<TaskDescriptor> = list.entries.iter().map(|e| e.desc).collect();
    assert_eq!(order, vec![desc(1, 1), desc(3, 3), desc(3, 4), desc(9, 9)]);
    assert_eq!(list.find_task_by_descriptor(&desc(3, 3)), Some(&"b2"));
    assert_eq!(list.find_task_by_descriptor(&desc(9, 9)), None);
    assert_eq!(list.find_task_by_descriptor(&desc(2, 2)), None);
    assert_eq!(list.find_by_tgid(3), Some(desc(3, 3)));
    assert_eq!(list.find_by_tgid(9), Some(desc(9, 9)));
    assert_eq!(list.find_by_tgid(4), None);
    assert_eq!(list.find_by_tid(Tid(4)), Some(desc(3, 4)));
    assert_eq!(list.find_by_tid(Tid(5)), None);
}
