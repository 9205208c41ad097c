//! System calls about threads.
use crate::error::KernelError;
use crate::process::task::Task;
use vstd::prelude::*;

verus! {

/// A link in the list of robust futexes, as user space lays it out.
#[derive(Clone, Copy, Debug, PartialEq, Eq, Structural)]
pub struct RobustList {
    /// Where the next link is.
    pub next: u64,
}

/// The head of the list of robust futexes, as user space lays it out.
#[derive(Clone, Copy, Debug, PartialEq, Eq, Structural)]
pub struct RobustListHead {
    pub list: RobustList,
    pub futex_offset: i64,
    pub list_op_pending: RobustList,
}

/// Bytes in a `RobustListHead`.
pub const ROBUST_LIST_HEAD_SIZE: usize = 24;

/// Answers with the number of the thread; the address is not used.
pub fn sys_set_tid_address<V, C>(task: &Task<V, C>, _tidptr: usize) -> (r: Result<
    usize,
    KernelError,
>)
    ensures
        r == Ok::<usize, KernelError>(task.tid.0 as usize),
{
    Ok(task.tid.value() as usize)
}

/// Notes where the list of robust futexes begins. The length tells which
/// layout user space has in mind; only one is known.
pub fn sys_set_robust_list<V, C>(task: &mut Task<V, C>, head: usize, len: usize) -> (r: Result<
    usize,
    KernelError,
>)
    ensures
        len == ROBUST_LIST_HEAD_SIZE ==> r == Ok::<usize, KernelError>(0) && *final(task) == (Task {
            robust_list: Some(head),
            ..*old(task)
        }),
        len != ROBUST_LIST_HEAD_SIZE ==> r == Err::<usize, KernelError>(KernelError::InvalidValue)
            && *final(task) == *old(task),
{
    if len != ROBUST_LIST_HEAD_SIZE {
        return Err(KernelError::InvalidValue);
    }
    task.robust_list = Some(head);
    Ok(0)
}

} // verus!
