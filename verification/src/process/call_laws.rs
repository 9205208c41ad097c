//! What the calls on tasks and on the list of them do for their callers.
use crate::error::KernelError;
use crate::process::task::{Task, TaskDescriptor, TaskState, Tid};
use crate::process::task_list::{descriptors, first_of_group, first_with_tid, TaskList};
use crate::process::thread_group::id::{PidT, Tgid};
use crate::process::thread_group::signal::{SigId, SigSet};
use crate::process::threading::{sys_set_robust_list, sys_set_tid_address};
use vstd::prelude::*;

verus! {

/// A new list has no tasks.
pub proof fn law_new_list_is_empty<T>(
    list: TaskList<T>,
    desc: TaskDescriptor,
    tid: Tid,
    tgid: u32,
    found: Option<&T>,
    thread: Option<TaskDescriptor>,
    group: Option<TaskDescriptor>,
)
    requires
        call_ensures(TaskList::<T>::new, (), list),
        call_ensures(TaskList::<T>::find_task_by_descriptor, (&list, &desc), found),
        call_ensures(TaskList::<T>::find_by_tid, (&list, tid), thread),
        call_ensures(TaskList::<T>::find_by_tgid, (&list, tgid), group),
    ensures
        found is None,
        thread is None,
        group is None,
{
    assert(descriptors(list.entries@).len() == 0);
}

/// A task that is put into the list is found there by its descriptor, and what
/// is found by any other descriptor stays.
pub proof fn law_inserted_task_is_found<T>(
    list: &mut TaskList<T>,
    desc: TaskDescriptor,
    task: Option<T>,
    other: TaskDescriptor,
    before: Option<&T>,
    after: Option<&T>,
)
    requires
        list.wf(),
        call_ensures(TaskList::<T>::insert, (list, desc, task), ()),
        call_ensures(TaskList::<T>::find_task_by_descriptor, (&*list, &other), before),
        call_ensures(TaskList::<T>::find_task_by_descriptor, (&*final(list), &other), after),
    ensures
        final(list).wf(),
        other.tid.0 == desc.tid.0 && other.tgid.0 == desc.tgid.0 ==> match after {
            Some(t) => task == Some(*t),
            None => task is None,
        },
        !(other.tid.0 == desc.tid.0 && other.tgid.0 == desc.tgid.0) ==> after == before,
{
    if other.tid.0 == desc.tid.0 && other.tgid.0 == desc.tgid.0 {
        assert(other == desc);
    }
}

/// Where the first of the tasks with a property stands, there is none before
/// it.
proof fn lemma_first_with_tid(all: Seq<TaskDescriptor>, tid: Tid)
    ensures
        first_with_tid(all, tid) is None ==> forall|i: int|
            0 <= i < all.len() ==> (#[trigger] all[i]).tid != tid,
        first_with_tid(all, tid) matches Some(desc) ==> exists|i: int|
            0 <= i < all.len() && (#[trigger] all[i]) == desc && desc.tid == tid && forall|j: int|
                0 <= j < i ==> (#[trigger] all[j]).tid != tid,
    decreases all.len(),
{
    if all.len() > 0 {
        if all[0].tid == tid {
            assert(all[0] == first_with_tid(all, tid)->0);
        } else {
            let rest = all.drop_first();
            lemma_first_with_tid(rest, tid);
            assert forall|i: int| 0 < i < all.len() implies #[trigger] all[i] == rest[i - 1] by {}
            if let Some(desc) = first_with_tid(rest, tid) {
                let i = choose|i: int|
                    0 <= i < rest.len() && (#[trigger] rest[i]) == desc && desc.tid == tid
                        && forall|j: int| 0 <= j < i ==> (#[trigger] rest[j]).tid != tid;
                assert(all[i + 1] == desc);
                assert forall|j: int| 0 <= j < i + 1 implies (#[trigger] all[j]).tid != tid by {
                    if j > 0 {
                        assert(rest[j - 1].tid != tid);
                    }
                }
            }
        }
    }
}

/// The first task of a thread group has none of the group before it.
proof fn lemma_first_of_group_is_first(all: Seq<TaskDescriptor>, tgid: u32)
    ensures
        first_of_group(all, tgid) is None ==> forall|i: int|
            0 <= i < all.len() ==> (#[trigger] all[i]).tgid.0 != tgid,
        first_of_group(all, tgid) matches Some(desc) ==> exists|i: int|
            0 <= i < all.len() && (#[trigger] all[i]) == desc && desc.tgid.0 == tgid && forall|
                j: int,
            | 0 <= j < i ==> (#[trigger] all[j]).tgid.0 != tgid,
    decreases all.len(),
{
    if all.len() > 0 {
        if all[0].tgid.0 == tgid {
            assert(all[0] == first_of_group(all, tgid)->0);
        } else {
            let rest = all.drop_first();
            lemma_first_of_group_is_first(rest, tgid);
            assert forall|i: int| 0 < i < all.len() implies #[trigger] all[i] == rest[i - 1] by {}
            if let Some(desc) = first_of_group(rest, tgid) {
                let i = choose|i: int|
                    0 <= i < rest.len() && (#[trigger] rest[i]) == desc && desc.tgid.0 == tgid
                        && forall|j: int| 0 <= j < i ==> (#[trigger] rest[j]).tgid.0 != tgid;
                assert(all[i + 1] == desc);
                assert forall|j: int| 0 <= j < i + 1 implies (#[trigger] all[j]).tgid.0 != tgid by {
                    if j > 0 {
                        assert(rest[j - 1].tgid.0 != tgid);
                    }
                }
            }
        }
    }
}

/// A thread number finds the first listed task that has it, and nothing only
/// where none has.
pub proof fn law_thread_number_finds_its_task<T>(
    list: &TaskList<T>,
    tid: Tid,
    found: Option<TaskDescriptor>,
)
    requires
        call_ensures(TaskList::<T>::find_by_tid, (list, tid), found),
    ensures
        found is None ==> forall|i: int|
            0 <= i < list.entries@.len() ==> (#[trigger] list.entries@[i]).desc.tid != tid,
        found matches Some(desc) ==> exists|i: int|
            {
                &&& 0 <= i < list.entries@.len()
                &&& (#[trigger] list.entries@[i]).desc == desc
                &&& desc.tid == tid
                &&& forall|j: int| 0 <= j < i ==> (#[trigger] list.entries@[j]).desc.tid != tid
            },
{
    let all = descriptors(list.entries@);
    lemma_first_with_tid(all, tid);
    assert forall|i: int| 0 <= i < all.len() implies (#[trigger] list.entries@[i]).desc == all[i] by {}
    if let Some(desc) = found {
        let i = choose|i: int|
            0 <= i < all.len() && (#[trigger] all[i]) == desc && desc.tid == tid && forall|j: int|
                0 <= j < i ==> (#[trigger] all[j]).tid != tid;
        assert(list.entries@[i].desc == desc);
        assert forall|j: int| 0 <= j < i implies (#[trigger] list.entries@[j]).desc.tid != tid by {
            assert(all[j].tid != tid);
        }
    } else {
        assert forall|i: int| 0 <= i < list.entries@.len() implies (
        #[trigger] list.entries@[i]).desc.tid != tid by {
            assert(all[i].tid != tid);
        }
    }
}

/// A thread group's number finds the first listed task of that group, and
/// nothing only where the group has none.
pub proof fn law_group_number_finds_its_first_task<T>(
    list: &TaskList<T>,
    tgid: u32,
    found: Option<TaskDescriptor>,
)
    requires
        call_ensures(TaskList::<T>::find_by_tgid, (list, tgid), found),
    ensures
        found is None ==> forall|i: int|
            0 <= i < list.entries@.len() ==> (#[trigger] list.entries@[i]).desc.tgid.0 != tgid,
        found matches Some(desc) ==> exists|i: int|
            {
                &&& 0 <= i < list.entries@.len()
                &&& (#[trigger] list.entries@[i]).desc == desc
                &&& desc.tgid.0 == tgid
                &&& forall|j: int| 0 <= j < i ==> (#[trigger] list.entries@[j]).desc.tgid.0 != tgid
            },
{
    let all = descriptors(list.entries@);
    lemma_first_of_group_is_first(all, tgid);
    assert forall|i: int| 0 <= i < all.len() implies (#[trigger] list.entries@[i]).desc == all[i] by {}
    if let Some(desc) = found {
        let i = choose|i: int|
            0 <= i < all.len() && (#[trigger] all[i]) == desc && desc.tgid.0 == tgid && forall|
                j: int,
            | 0 <= j < i ==> (#[trigger] all[j]).tgid.0 != tgid;
        assert(list.entries@[i].desc == desc);
        assert forall|j: int| 0 <= j < i implies (#[trigger] list.entries@[j]).desc.tgid.0
            != tgid by {
            assert(all[j].tgid.0 != tgid);
        }
    } else {
        assert forall|i: int| 0 <= i < list.entries@.len() implies (
        #[trigger] list.entries@[i]).desc.tgid.0 != tgid by {
            assert(all[i].tgid.0 != tgid);
        }
    }
}

/// A descriptor is made of its thread and its thread group, and can be had
/// back from the one number that encodes it.
pub proof fn law_descriptor_survives_encoding(
    tgid: Tgid,
    tid: Tid,
    desc: TaskDescriptor,
    value: u64,
    back: TaskDescriptor,
    its_tid: Tid,
    its_tgid: Tgid,
)
    requires
        call_ensures(TaskDescriptor::from_tgid_tid, (tgid, tid), desc),
        call_ensures(TaskDescriptor::to_ptr, (desc,), value),
        call_ensures(TaskDescriptor::from_ptr, (value,), back),
        call_ensures(TaskDescriptor::tid, (&back,), its_tid),
        call_ensures(TaskDescriptor::tgid, (&back,), its_tgid),
    ensures
        value == tid.0 * 0x1_0000_0000 + tgid.0,
        back == desc,
        its_tid == tid,
        its_tgid == tgid,
{
}

/// The idle task and the first user task are told apart: by their descriptors
/// and their priorities, and by what they do with signals. Both can be run,
/// belong to the superuser, and have nothing open and nothing pending.
pub proof fn law_first_tasks<V, C>(
    vm: V,
    ctx: C,
    idle: Task<V, C>,
    init: Task<V, C>,
    idle_desc: TaskDescriptor,
    init_desc: TaskDescriptor,
    idle_is_idle: bool,
    init_is_idle: bool,
)
    requires
        call_ensures(Task::<V, C>::create_idle_task, (vm, ctx), idle),
        call_ensures(Task::<V, C>::create_init_task, (vm, ctx), init),
        call_ensures(Task::<V, C>::descriptor, (&idle,), idle_desc),
        call_ensures(Task::<V, C>::descriptor, (&init,), init_desc),
        call_ensures(Task::<V, C>::is_idle_task, (&idle,), idle_is_idle),
        call_ensures(Task::<V, C>::is_idle_task, (&init,), init_is_idle),
    ensures
        idle_desc.tid.0 == 0 && idle_desc.tgid.0 == 0,
        init_desc.tid.0 == 1 && init_desc.tgid.0 == 1,
        idle_is_idle && !init_is_idle,
        idle.priority == -128 && init.priority == 0,
        idle.process.signals is Ignore && init.process.signals is Default,
        idle.vm == vm && init.vm == vm && idle.ctx == ctx && init.ctx == ctx,
        idle.state == TaskState::Runnable && init.state == TaskState::Runnable,
        idle.creds.uid == 0 && idle.creds.gid == 0 && init.creds.uid == 0 && init.creds.gid == 0,
        idle.fd_table.entries@.len() == 0 && init.fd_table.entries@.len() == 0,
        idle.pending_signals.bits == 0 && init.pending_signals.bits == 0,
        idle.sig_mask.bits == 0 && init.sig_mask.bits == 0,
{
}

/// A priority that was set is the one that is had back, and setting it changes
/// nothing else.
pub proof fn law_priority_is_kept<V, C>(
    task: &mut Task<V, C>,
    priority: i8,
    got: i8,
    before: TaskDescriptor,
    after: TaskDescriptor,
)
    requires
        call_ensures(Task::<V, C>::set_priority, (task, priority), ()),
        call_ensures(Task::<V, C>::priority, (&*final(task),), got),
        call_ensures(Task::<V, C>::descriptor, (&*task,), before),
        call_ensures(Task::<V, C>::descriptor, (&*final(task),), after),
    ensures
        got == priority,
        after == before,
        final(task).state == old(task).state,
        final(task).pending_signals == old(task).pending_signals,
{
}

/// A signal that is put into a set is in it, the others are in it exactly
/// where they were before, and none is in the empty set.
pub proof fn law_signal_set_holds_what_was_put_in(
    empty: SigSet,
    set: &mut SigSet,
    sig: SigId,
    other: SigId,
    none: bool,
    before: bool,
    after: bool,
)
    requires
        1 <= sig.id <= 64,
        1 <= other.id <= 64,
        call_ensures(SigSet::empty, (), empty),
        call_ensures(SigSet::contains, (&empty, other), none),
        call_ensures(SigSet::insert, (set, sig), ()),
        call_ensures(SigSet::contains, (&*set, other), before),
        call_ensures(SigSet::contains, (&*final(set), other), after),
    ensures
        !none,
        after == (before || other.id == sig.id),
{
    assert(other.wf());
    assert(final(set).has(other) == (other == sig || set.has(other)));
}

/// A signal that was raised is pending, beside those that were.
pub proof fn law_raised_signal_is_pending<V, C>(
    task: &mut Task<V, C>,
    sig: SigId,
    other: SigId,
    before: bool,
    after: bool,
)
    requires
        1 <= sig.id <= 64,
        1 <= other.id <= 64,
        call_ensures(Task::<V, C>::raise_task_signal, (task, sig), ()),
        call_ensures(SigSet::contains, (&task.pending_signals, other), before),
        call_ensures(SigSet::contains, (&final(task).pending_signals, other), after),
    ensures
        after == (before || other.id == sig.id),
        final(task).sig_mask == old(task).sig_mask,
        final(task).priority == old(task).priority,
        final(task).state == old(task).state,
{
    assert(other.wf());
}

/// User space's numbers for signals are 1 to 64 and are had back as given.
pub proof fn law_signal_numbers(id: u8, sig: Option<SigId>, back: u8)
    requires
        call_ensures(SigId::from_user_id, (id,), sig),
        sig matches Some(s) ==> call_ensures(SigId::user_id, (s,), back),
    ensures
        sig is Some <==> 1 <= id <= 64,
        sig is Some ==> back == id,
{
}

/// The list of robust futexes is noted where user space has the layout of 24
/// bytes in mind, and refused otherwise; nothing else of the task changes.
pub proof fn law_robust_list_is_noted<V, C>(
    task: &mut Task<V, C>,
    head: usize,
    len: usize,
    r: Result<usize, KernelError>,
)
    requires
        call_ensures(sys_set_robust_list::<V, C>, (task, head, len), r),
    ensures
        len == 24 ==> r == Ok::<usize, KernelError>(0) && final(task).robust_list == Some(head),
        len != 24 ==> r == Err::<usize, KernelError>(KernelError::InvalidValue) && final(
            task).robust_list == old(task).robust_list,
        final(task).tid == old(task).tid,
        final(task).process == old(task).process,
        final(task).pending_signals == old(task).pending_signals,
{
}

/// Setting the thread's address answers with the thread's number, whatever the
/// address is.
pub proof fn law_thread_number_is_answered<V, C>(
    task: &Task<V, C>,
    address: usize,
    r: Result<usize, KernelError>,
    tid: Tid,
)
    requires
        call_ensures(sys_set_tid_address::<V, C>, (task, address), r),
        call_ensures(Task::<V, C>::tid, (task,), tid),
    ensures
        r == Ok::<usize, KernelError>(tid.0 as usize),
        tid == task.tid,
{
}

/// Process numbers name thread groups, of which zero is the idle task's and
/// one the first user task's.
pub proof fn law_thread_group_numbers(
    pid: PidT,
    tgid: Tgid,
    n: u32,
    is_idle: bool,
    idle: Tgid,
    init: Tgid,
    tid: Tid,
)
    requires
        pid >= 0,
        call_ensures(Tgid::from_pid_t, (pid,), tgid),
        call_ensures(Tgid::value, (tgid,), n),
        call_ensures(Tgid::is_idle, (tgid,), is_idle),
        call_ensures(Tgid::idle, (), idle),
        call_ensures(Tgid::init, (), init),
        call_ensures(Tid::from_tgid, (tgid,), tid),
    ensures
        n == pid,
        is_idle <==> pid == 0,
        idle.0 == 0,
        init.0 == 1,
        tid.0 == n,
{
}

/// The idle task's descriptor is that of thread 0 in thread group 0, and is
/// told by its thread group.
pub proof fn law_idle_descriptor(
    idle: TaskDescriptor,
    desc: TaskDescriptor,
    is_idle: bool,
)
    requires
        call_ensures(TaskDescriptor::this_cpus_idle, (), idle),
        call_ensures(TaskDescriptor::is_idle, (&desc,), is_idle),
    ensures
        idle.tid.0 == 0,
        idle.tgid.0 == 0,
        is_idle <==> desc.tgid.0 == 0,
{
}

/// A task is known by its thread and its thread group, and has ended where its
/// state says so.
pub proof fn law_task_tells_who_it_is<V, C>(
    task: &Task<V, C>,
    tid: Tid,
    tgid: Tgid,
    desc: TaskDescriptor,
    finished: bool,
)
    requires
        call_ensures(Task::<V, C>::tid, (task,), tid),
        call_ensures(Task::<V, C>::pgid, (task,), tgid),
        call_ensures(Task::<V, C>::descriptor, (task,), desc),
        call_ensures(TaskState::is_finished, (task.state,), finished),
    ensures
        tid == task.tid,
        tgid == task.process.tgid,
        desc.tid == tid,
        desc.tgid == tgid,
        finished <==> task.state == TaskState::Finished,
{
}

} // verus!
