//! Tasks and the numbers by which they are known.
use crate::process::fd_table::FileDescriptorTable;
use crate::process::thread_group::id::Tgid;
use crate::process::thread_group::signal::{SigId, SigSet};
use std::cmp::Ordering;
use vstd::prelude::*;
use vstd::std_specs::cmp::PartialOrdSpec;

verus! {

/// The number of a thread.
#[derive(Debug, Clone, Copy, PartialEq, Eq, PartialOrd, Ord, Structural)]
pub struct Tid(pub u32);

impl Tid {
    /// The number itself.
    pub fn value(self) -> (n: u32)
        ensures
            n == self.0,
    {
        self.0
    }

    /// The first thread of a thread group.
    pub fn from_tgid(tgid: Tgid) -> (tid: Self)
        ensures
            tid.0 == tgid.0,
    {
        Tid(tgid.0)
    }
}

/// A unique identifier for any task in the system.
#[derive(Debug, Clone, Copy, PartialEq, Eq, Ord, Structural)]
pub struct TaskDescriptor {
    pub tid: Tid,
    pub tgid: Tgid,
}

impl PartialOrd for TaskDescriptor {
    fn partial_cmp(&self, other: &Self) -> (r: Option<Ordering>) {
        if self.tid.0 < other.tid.0 {
            Some(Ordering::Less)
        } else if self.tid.0 > other.tid.0 {
            Some(Ordering::Greater)
        } else if self.tgid.0 < other.tgid.0 {
            Some(Ordering::Less)
        } else if self.tgid.0 > other.tgid.0 {
            Some(Ordering::Greater)
        } else {
            Some(Ordering::Equal)
        }
    }
}

impl vstd::std_specs::cmp::PartialOrdSpecImpl for TaskDescriptor {
    open spec fn obeys_partial_cmp_spec() -> bool {
        true
    }

    open spec fn partial_cmp_spec(&self, other: &Self) -> Option<Ordering> {
        if self.as_ptr() < other.as_ptr() {
            Some(Ordering::Less)
        } else if self.as_ptr() > other.as_ptr() {
            Some(Ordering::Greater)
        } else {
            Some(Ordering::Equal)
        }
    }
}

impl TaskDescriptor {
    /// The descriptor as one number: the thread in the upper half, the thread
    /// group in the lower. Descriptors are ordered as these numbers are.
    pub open spec fn as_ptr(self) -> int {
        self.tid.0 * 0x1_0000_0000 + self.tgid.0
    }

    /// The task of a thread in a thread group.
    pub fn from_tgid_tid(tgid: Tgid, tid: Tid) -> (desc: Self)
        ensures
            desc.tgid == tgid,
            desc.tid == tid,
    {
        TaskDescriptor { tid, tgid }
    }

    /// The idle task.
    pub fn this_cpus_idle() -> (desc: Self)
        ensures
            desc.tgid == Tgid(0),
            desc.tid == Tid(0),
    {
        TaskDescriptor { tgid: Tgid(0), tid: Tid(0) }
    }

    /// The thread.
    pub fn tid(&self) -> (tid: Tid)
        ensures
            tid == self.tid,
    {
        self.tid
    }

    /// The thread group.
    pub fn tgid(&self) -> (tgid: Tgid)
        ensures
            tgid == self.tgid,
    {
        self.tgid
    }

    /// Encodes the descriptor in a single pointer-sized value.
    pub fn to_ptr(self) -> (value: u64)
        ensures
            value == self.as_ptr(),
    {
        let low: u64 = self.tgid.value() as u64;
        let high: u64 = self.tid.value() as u64;
        proof {
            assert(low <= 0xffff_ffff && high <= 0xffff_ffff ==> low | (high << 32) == high
                * 0x1_0000_0000 + low) by (bit_vector);
        }
        low | (high << 32)
    }

    /// Decodes a descriptor from a single pointer-sized value. This is the
    /// inverse of `to_ptr`.
    pub fn from_ptr(value: u64) -> (desc: Self)
        ensures
            desc.as_ptr() == value,
    {
        let low: u64 = value & 0xffff_ffff;
        let high: u64 = value >> 32;
        proof {
            assert(value & 0xffff_ffff <= 0xffff_ffff && value >> 32 <= 0xffff_ffff && value == (
            value >> 32) * 0x1_0000_0000 + (value & 0xffff_ffff)) by (bit_vector);
        }
        TaskDescriptor { tgid: Tgid(low as u32), tid: Tid(high as u32) }
    }

    /// Whether this is an idle task.
    pub fn is_idle(&self) -> (b: bool)
        ensures
            b == (self.tgid == Tgid(0)),
    {
        self.tgid.is_idle()
    }
}

/// A descriptor and the number that encodes it determine each other, so
/// decoding undoes encoding and encoding undoes decoding.
pub proof fn law_ptr_round_trip(a: TaskDescriptor, b: TaskDescriptor)
    ensures
        a.as_ptr() == b.as_ptr() <==> a == b,
        0 <= a.as_ptr() <= u64::MAX,
{
}

/// Descriptors are ordered by the thread first and by the thread group second,
/// and are equal only where both are.
pub proof fn law_descriptor_order(a: TaskDescriptor, b: TaskDescriptor)
    ensures
        a == b <==> a.tgid == b.tgid && a.tid == b.tid,
        a.partial_cmp_spec(&b) == Some(Ordering::Less) <==> a.tid.0 < b.tid.0 || (a.tid == b.tid
            && a.tgid.0 < b.tgid.0),
        a.partial_cmp_spec(&b) == Some(Ordering::Equal) <==> a == b,
        a.partial_cmp_spec(&b) == Some(Ordering::Greater) <==> b.partial_cmp_spec(&a) == Some(
            Ordering::Less,
        ),
{
}

/// Where a task stands with the scheduler.
#[derive(Debug, Clone, Copy, PartialEq, Eq, Structural)]
pub enum TaskState {
    Running,
    Runnable,
    Sleeping,
    Finished,
}

impl TaskState {
    /// Whether the task has ended.
    pub fn is_finished(self) -> (b: bool)
        ensures
            b == (self is Finished),
    {
        matches!(self, TaskState::Finished)
    }
}

/// What a thread group does with signals nobody has set a handler for.
#[derive(Debug, Clone, Copy, PartialEq, Eq, Structural)]
pub enum SignalState {
    Default,
    Ignore,
}

/// The thread group of a task.
#[derive(Debug, Clone, Copy, PartialEq, Eq, Structural)]
pub struct ThreadGroup {
    pub tgid: Tgid,
    pub signals: SignalState,
}

/// Who a task acts for.
#[derive(Debug, Clone, Copy, PartialEq, Eq, Structural)]
pub struct Credentials {
    pub uid: u32,
    pub gid: u32,
}

impl Credentials {
    /// The superuser.
    pub fn new_root() -> (creds: Self)
        ensures
            creds == (Credentials { uid: 0, gid: 0 }),
    {
        Credentials { uid: 0, gid: 0 }
    }
}

/// A task. `V` is its address space and `C` its saved registers.
pub struct Task<V, C> {
    pub tid: Tid,
    pub process: ThreadGroup,
    pub vm: V,
    pub cwd: String,
    pub creds: Credentials,
    pub fd_table: FileDescriptorTable,
    pub ctx: C,
    pub sig_mask: SigSet,
    pub pending_signals: SigSet,
    pub priority: i8,
    /// When the task was last on a processor, in nanoseconds.
    pub last_run: Option<u64>,
    pub state: TaskState,
    /// Where in user space the list of robust futexes begins.
    pub robust_list: Option<usize>,
}

impl<V, C> Task<V, C> {
    /// A task as it is before it first runs: the superuser's, runnable, with
    /// no working directory, no open files and no signals.
    pub open spec fn is_pristine(&self) -> bool {
        &&& self.creds == (Credentials { uid: 0, gid: 0 })
        &&& self.state is Runnable
        &&& self.cwd@.len() == 0
        &&& self.fd_table.entries@.len() == 0
        &&& self.sig_mask.bits == 0
        &&& self.pending_signals.bits == 0
        &&& self.last_run is None
        &&& self.robust_list is None
    }

    /// The task that runs when nothing else can. It ignores signals and has
    /// the lowest priority.
    pub fn create_idle_task(vm: V, ctx: C) -> (task: Self)
        ensures
            task.is_pristine(),
            task.tid == Tid(0),
            task.process == (ThreadGroup { tgid: Tgid(0), signals: SignalState::Ignore }),
            task.priority == i8::MIN,
            task.vm == vm,
            task.ctx == ctx,
    {
        Task {
            tid: Tid(0),
            process: ThreadGroup { tgid: Tgid::idle(), signals: SignalState::Ignore },
            state: TaskState::Runnable,
            priority: i8::MIN,
            cwd: String::new(),
            creds: Credentials::new_root(),
            ctx,
            vm,
            sig_mask: SigSet::empty(),
            pending_signals: SigSet::empty(),
            fd_table: FileDescriptorTable::new(),
            last_run: None,
            robust_list: None,
        }
    }

    /// The first user task.
    pub fn create_init_task(vm: V, ctx: C) -> (task: Self)
        ensures
            task.is_pristine(),
            task.tid == Tid(1),
            task.process == (ThreadGroup { tgid: Tgid(1), signals: SignalState::Default }),
            task.priority == 0,
            task.vm == vm,
            task.ctx == ctx,
    {
        Task {
            tid: Tid(1),
            process: ThreadGroup { tgid: Tgid::init(), signals: SignalState::Default },
            state: TaskState::Runnable,
            cwd: String::new(),
            creds: Credentials::new_root(),
            vm,
            fd_table: FileDescriptorTable::new(),
            pending_signals: SigSet::empty(),
            sig_mask: SigSet::empty(),
            priority: 0,
            ctx,
            last_run: None,
            robust_list: None,
        }
    }

    /// Whether this is an idle task.
    pub fn is_idle_task(&self) -> (b: bool)
        ensures
            b == (self.process.tgid == Tgid(0)),
    {
        self.process.tgid.is_idle()
    }

    /// The priority.
    pub fn priority(&self) -> (priority: i8)
        ensures
            priority == self.priority,
    {
        self.priority
    }

    /// Changes the priority.
    pub fn set_priority(&mut self, priority: i8)
        ensures
            *final(self) == (Task { priority, ..*old(self) }),
    {
        self.priority = priority;
    }

    /// The thread group.
    pub fn pgid(&self) -> (tgid: Tgid)
        ensures
            tgid == self.process.tgid,
    {
        self.process.tgid
    }

    /// The thread.
    pub fn tid(&self) -> (tid: Tid)
        ensures
            tid == self.tid,
    {
        self.tid
    }

    /// The descriptor by which the system knows the thread.
    pub fn descriptor(&self) -> (desc: TaskDescriptor)
        ensures
            desc == (TaskDescriptor { tid: self.tid, tgid: self.process.tgid }),
    {
        TaskDescriptor::from_tgid_tid(self.process.tgid, self.tid)
    }

    /// Leaves a signal for the task.
    pub fn raise_task_signal(&mut self, signal: SigId)
        requires
            signal.wf(),
        ensures
            forall|other: SigId|
                other.wf() ==> #[trigger] final(self).pending_signals.has(other) == (other
                    == signal || old(self).pending_signals.has(other)),
            *final(self) == (Task { pending_signals: final(self).pending_signals, ..*old(self) }),
    {
        self.pending_signals.insert(signal);
    }
}

} // verus!
