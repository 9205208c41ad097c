//! The numbers by which thread groups are known.
use vstd::prelude::*;

verus! {

/// A process number as system calls take it.
pub type PidT = i32;

/// The number of a thread group.
#[derive(Debug, Clone, Copy, PartialEq, Eq, PartialOrd, Ord, Structural)]
pub struct Tgid(pub u32);

/// The number of a process group.
#[derive(Debug, Clone, Copy, PartialEq, Eq, PartialOrd, Ord, Structural)]
pub struct Pgid(pub u32);

impl Tgid {
    /// The number itself.
    pub fn value(self) -> (n: u32)
        ensures
            n == self.0,
    {
        self.0
    }

    /// The thread group of the idle task.
    pub fn idle() -> (tgid: Self)
        ensures
            tgid == Tgid(0),
    {
        Tgid(0)
    }

    /// The thread group of the first user task.
    pub fn init() -> (tgid: Self)
        ensures
            tgid == Tgid(1),
    {
        Tgid(1)
    }

    /// Whether this is the thread group of the idle task.
    pub fn is_idle(self) -> (b: bool)
        ensures
            b == (self == Tgid(0)),
    {
        self.0 == 0
    }

    /// The thread group that a process number names.
    pub fn from_pid_t(pid: PidT) -> (tgid: Self)
        requires
            pid >= 0,
        ensures
            tgid.0 == pid,
    {
        Tgid(pid as u32)
    }
}

} // verus!
