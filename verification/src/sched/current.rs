//! The task that is running on this processor, as its own code reaches it.
//! One caller at a time may use it.
use std::sync::Arc;
use vstd::prelude::*;

verus! {

/// Where in the source something is called.
#[derive(Clone, Copy, Debug, PartialEq, Eq, Structural)]
pub struct CallSite {
    pub line: u32,
    pub column: u32,
}

/// What a task keeps to itself, beside what it shares with others. `S` is
/// what it shares, `W` the kernel work that is left for it.
pub struct OwnedTask<S, W> {
    pub t_shared: Arc<S>,
    pub kernel_work: Option<W>,
}

impl<S, W> OwnedTask<S, W> {
    /// Leaves kernel work for the task.
    pub fn put_kernel_work(&mut self, work: W)
        ensures
            *final(self) == (OwnedTask { kernel_work: Some(work), ..*old(self) }),
    {
        self.kernel_work = Some(work);
    }
}

/// The running task, with a note of who is using it.
pub struct CurrentTaskPtr<T> {
    /// The task. It is absent before the first task runs, and while it is in
    /// use.
    pub task: Option<T>,
    pub borrowed: bool,
    /// Who is using the task.
    pub location: Option<CallSite>,
}

/// The running task while it is in use.
pub struct CurrentTaskGuard<T> {
    pub task: T,
}

impl<T> CurrentTaskPtr<T> {
    /// Nobody is using the task, and there is one.
    pub open spec fn available(&self) -> bool {
        !self.borrowed && self.task is Some
    }

    /// No task yet.
    pub fn new() -> (ptr: Self)
        ensures
            ptr.task is None,
            !ptr.borrowed,
            ptr.location is None,
    {
        CurrentTaskPtr { task: None, borrowed: false, location: None }
    }

    /// Takes the task into use.
    pub fn current(&mut self, caller: CallSite) -> (guard: CurrentTaskGuard<T>)
        requires
            old(self).available(),
        ensures
            old(self).task == Some(guard.task),
            final(self).task is None,
            final(self).borrowed,
            final(self).location == Some(caller),
    {
        self.borrowed = true;
        self.location = Some(caller);
        let task = self.task.take().unwrap();
        CurrentTaskGuard { task }
    }

    /// Ends the use of the task.
    pub fn release(&mut self, guard: CurrentTaskGuard<T>)
        requires
            old(self).borrowed,
        ensures
            final(self).task == Some(guard.task),
            !final(self).borrowed,
            final(self).location is None,
    {
        self.task = Some(guard.task);
        self.borrowed = false;
        self.location = None;
    }

    /// Makes another task the running one.
    pub fn set_current(&mut self, task: T)
        requires
            !old(self).borrowed,
        ensures
            *final(self) == (CurrentTaskPtr { task: Some(task), ..*old(self) }),
    {
        self.task = Some(task);
    }
}

/// Takes the running task into use. It must not be in use already.
pub fn current_task<T>(ptr: &mut CurrentTaskPtr<T>, caller: CallSite) -> (guard: CurrentTaskGuard<T>)
    requires
        old(ptr).available(),
    ensures
        old(ptr).task == Some(guard.task),
        final(ptr).task is None,
        final(ptr).borrowed,
        final(ptr).location == Some(caller),
{
    ptr.current(caller)
}

/// What the running task shares with others. The task is in use only while
/// this is looked up.
pub fn current_task_shared<S, W>(
    ptr: &mut CurrentTaskPtr<OwnedTask<S, W>>,
    caller: CallSite,
) -> (shared: Arc<S>)
    requires
        old(ptr).available(),
    ensures
        shared == old(ptr).task->0.t_shared,
        final(ptr).task == old(ptr).task,
        !final(ptr).borrowed,
        final(ptr).location is None,
{
    let guard = current_task(ptr, caller);
    let shared = guard.task.t_shared.clone();
    ptr.release(guard);
    shared
}

/// Leaves kernel work for the running task.
pub fn spawn_kernel_work<S, W>(
    ptr: &mut CurrentTaskPtr<OwnedTask<S, W>>,
    caller: CallSite,
    work: W,
)
    requires
        old(ptr).available(),
    ensures
        final(ptr).task == Some(
            OwnedTask { kernel_work: Some(work), ..old(ptr).task->0 },
        ),
        !final(ptr).borrowed,
        final(ptr).location is None,
{
    let mut guard = current_task(ptr, caller);
    guard.task.put_kernel_work(work);
    ptr.release(guard);
}

} // verus!
