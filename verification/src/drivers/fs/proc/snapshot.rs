//! What the process file system reports of a task.
use crate::process::fd_table::FileDescriptorTable;
use vstd::prelude::*;

verus! {

/// A thread in a thread group. It stays listed for a while after it has gone.
#[derive(Clone, Copy, Debug, PartialEq, Eq, Structural)]
pub struct ThreadEntry {
    pub tid: u32,
    pub alive: bool,
}

/// A task as it is at one moment.
pub struct TaskSnapshot {
    pub tid: u32,
    /// The name of the program.
    pub name: String,
    /// Where the task stands with the scheduler, as it is shown.
    pub state: String,
    pub tgid: u32,
    pub sid: u32,
    pub utime: u64,
    pub stime: u64,
    pub priority: i8,
    pub fd_table: FileDescriptorTable,
    /// The threads of the task's thread group, by number.
    pub threads: Vec<ThreadEntry>,
    /// The working directory.
    pub cwd: String,
}

} // verus!
