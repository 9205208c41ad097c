//! Waiting for children: what they report, who is told, and how it is
//! encoded for user space.
use crate::clock::timespec::TimeSpec;
use crate::ordered::{are_sorted_keys, discard, lookup, sorted_keys, store};
use crate::process::thread_group::id::{PidT, Tgid};
use crate::process::thread_group::signal::{SigId, SIGCHLD};
use std::collections::BTreeMap;
use vstd::prelude::*;

verus! {

/// Resources that a process has used.
#[derive(Debug, Clone, Copy, PartialEq, Eq, Structural)]
pub struct RUsage {
    /// User time.
    pub ru_utime: TimeSpec,
    /// System time.
    pub ru_stime: TimeSpec,
    /// Maximum resident set size.
    pub ru_maxrss: i64,
    /// Integral shared memory size.
    pub ru_ixrss: i64,
    /// Integral unshared data size.
    pub ru_idrss: i64,
    /// Integral unshared stack size.
    pub ru_isrss: i64,
    /// Page reclaims.
    pub ru_minflt: i64,
    /// Page faults.
    pub ru_majflt: i64,
    /// Swaps.
    pub ru_nswap: i64,
    /// Block input operations.
    pub ru_inblock: i64,
    /// Block output operations.
    pub ru_oublock: i64,
    /// Messages sent.
    pub ru_msgsnd: i64,
    /// Messages received.
    pub ru_msgrcv: i64,
    /// Signals received.
    pub ru_nsignals: i64,
    /// Voluntary context switches.
    pub ru_nvcsw: i64,
    /// Involuntary context switches.
    pub ru_nivcsw: i64,
}

/// Return at once when there is nothing to report.
pub const WNOHANG: u32 = 0x00000001;

/// Report children that stopped.
pub const WSTOPPED: u32 = 0x00000002;

/// Report children that terminated.
pub const WEXITED: u32 = 0x00000004;

/// Report children that continued.
pub const WCONTINUED: u32 = 0x00000008;

/// Leave what is reported to be reported again.
pub const WNOWAIT: u32 = 0x10000000;

/// Not for children of other threads.
pub const WNOTHREAD: u32 = 0x20000000;

/// For children of every kind.
pub const WALL: u32 = 0x40000000;

/// For clone children only.
pub const WCLONE: u32 = 0x80000000;

/// Every option there is.
pub const WAIT_FLAGS: u32 = 0xf000000f;

/// The options that `wait4` takes.
pub const WAIT4_FLAGS: u32 = 0xe000000b;

/// The options that `waitid` takes.
pub const WAITID_FLAGS: u32 = 0x1000000f;

/// Options of a wait.
#[derive(Clone, Copy, Debug, PartialEq, Eq, Structural)]
pub struct WaitFlags {
    pub bits: u32,
}

impl WaitFlags {
    /// All options in `mask` are set.
    pub open spec fn has(self, mask: u32) -> bool {
        self.bits & mask == mask
    }

    /// Nothing but options in `mask` is set.
    pub open spec fn only(self, mask: u32) -> bool {
        self.bits & !mask == 0
    }

    /// The options in `bits`, unknown ones included.
    pub fn from_bits_retain(bits: u32) -> (flags: Self)
        ensures
            flags.bits == bits,
    {
        WaitFlags { bits }
    }

    /// Whether all options in `mask` are set.
    pub fn contains(&self, mask: u32) -> (b: bool)
        ensures
            b == self.has(mask),
    {
        self.bits & mask == mask
    }

    /// Whether an option is set that is none.
    pub fn contains_unknown_bits(&self) -> (b: bool)
        ensures
            b == !self.only(WAIT_FLAGS),
    {
        self.bits & !WAIT_FLAGS != 0
    }

    /// The options that are not in `mask`.
    pub fn difference(&self, mask: u32) -> (flags: Self)
        ensures
            flags.bits == self.bits & !mask,
    {
        WaitFlags { bits: self.bits & !mask }
    }

    /// Whether no option is set.
    pub fn is_empty(&self) -> (b: bool)
        ensures
            b == (self.bits == 0),
    {
        self.bits == 0
    }

    /// Sets the options in `mask`.
    pub fn insert(&mut self, mask: u32)
        ensures
            final(self).bits == old(self).bits | mask,
    {
        self.bits = self.bits | mask;
    }
}

/// What is told about a child through `waitid`.
#[derive(Clone, Copy, Debug, PartialEq, Eq, Structural)]
pub struct SigInfo {
    pub signo: i32,
    pub code: i32,
    pub errno: i32,
}

/// The child exited.
pub const CLD_EXITED: i32 = 1;

/// The child was killed by a signal.
pub const CLD_KILLED: i32 = 2;

/// The child was killed by a signal and dumped core.
pub const CLD_DUMPED: i32 = 3;

/// The child stopped.
pub const CLD_STOPPED: i32 = 4;

/// The child trapped.
pub const CLD_TRAPPED: i32 = 5;

/// The child continued.
pub const CLD_CONTINUED: i32 = 6;

/// What a child last reported.
#[derive(Clone, Copy, Debug, PartialEq, Eq, Structural)]
pub enum ChildState {
    NormalExit { code: u32 },
    SignalExit { signal: SigId, core: bool },
    Stop { signal: SigId },
    TraceTrap { signal: SigId, mask: i32 },
    Continue,
}

impl ChildState {
    /// A wait with these options asks for this state. Trace traps are always
    /// asked for.
    pub open spec fn asked_for(self, flags: WaitFlags) -> bool {
        match self {
            ChildState::NormalExit { .. } => flags.has(WEXITED),
            ChildState::SignalExit { .. } => flags.has(WEXITED),
            ChildState::Stop { .. } => flags.has(WSTOPPED),
            ChildState::TraceTrap { .. } => true,
            ChildState::Continue => flags.has(WCONTINUED),
        }
    }

    /// Whether a wait with these options asks for this state.
    pub fn matches_wait_flags(&self, flags: WaitFlags) -> (b: bool)
        ensures
            b == self.asked_for(flags),
    {
        match self {
            ChildState::NormalExit { .. } => flags.contains(WEXITED),
            ChildState::SignalExit { .. } => flags.contains(WEXITED),
            ChildState::Stop { .. } => flags.contains(WSTOPPED),
            ChildState::TraceTrap { .. } => true,
            ChildState::Continue => flags.contains(WCONTINUED),
        }
    }

    /// The status word of `wait4`: the exit code in the second byte, a
    /// terminating signal in the first with the core bit above it, or the
    /// marks of a stop or of a continuation.
    pub open spec fn status_word(self) -> i32 {
        match self {
            ChildState::NormalExit { code } => (code as int % 256 * 256) as i32,
            ChildState::SignalExit { signal, core } => (signal.id as i32) | if core {
                0x80i32
            } else {
                0i32
            },
            ChildState::Stop { signal } => (signal.id * 256 + 0x7f) as i32,
            ChildState::TraceTrap { signal, mask } => ((signal.id * 256 + 0x7f) as i32) | (mask
                << 8),
            ChildState::Continue => 0xffff,
        }
    }

    /// Encodes the state for `wait4`.
    pub fn wait_status(&self) -> (status: i32)
        ensures
            status == self.status_word(),
    {
        match *self {
            ChildState::NormalExit { code } => {
                let low: i32 = (code & 0xff) as i32;
                proof {
                    assert((code & 0xff) == code % 256) by (bit_vector);
                    assert(0 <= low < 256 ==> low << 8 == low * 256) by (bit_vector);
                }
                low << 8
            },
            ChildState::SignalExit { signal, core } => {
                let id: i32 = signal.user_id() as i32;
                if core {
                    id | 0x80
                } else {
                    id | 0
                }
            },
            ChildState::Stop { signal } => {
                let id: i32 = signal.user_id() as i32;
                proof {
                    assert(0 <= id < 256 ==> (id << 8) | 0x7f == id * 256 + 0x7f) by (bit_vector);
                }
                (id << 8) | 0x7f
            },
            ChildState::TraceTrap { signal, mask } => {
                let id: i32 = signal.user_id() as i32;
                proof {
                    assert(0 <= id < 256 ==> (id << 8) | 0x7f == id * 256 + 0x7f) by (bit_vector);
                }
                (id << 8) | 0x7f | (mask << 8)
            },
            ChildState::Continue => 0xffff,
        }
    }

    /// What `waitid` tells: why the child changed state, and its exit code or
    /// the signal.
    pub open spec fn info(self) -> SigInfo {
        let (code, errno) = match self {
            ChildState::NormalExit { code } => (CLD_EXITED, code as i32),
            ChildState::SignalExit { signal, core } => (
                if core {
                    CLD_DUMPED
                } else {
                    CLD_KILLED
                },
                signal.id as i32,
            ),
            ChildState::Stop { signal } => (CLD_STOPPED, signal.id as i32),
            ChildState::TraceTrap { signal, .. } => (CLD_TRAPPED, signal.id as i32),
            ChildState::Continue => (CLD_CONTINUED, 0i32),
        };
        SigInfo { signo: SIGCHLD as i32, code, errno }
    }

    /// Encodes the state for `waitid`.
    pub fn siginfo(&self) -> (info: SigInfo)
        ensures
            info == self.info(),
    {
        let mut siginfo = SigInfo { signo: SIGCHLD as i32, code: 0, errno: 0 };
        match *self {
            ChildState::NormalExit { code } => {
                siginfo.code = CLD_EXITED;
                siginfo.errno = code as i32;
            },
            ChildState::SignalExit { signal, core } => {
                siginfo.code = if core {
                    CLD_DUMPED
                } else {
                    CLD_KILLED
                };
                siginfo.errno = signal.user_id() as i32;
            },
            ChildState::Stop { signal } => {
                siginfo.code = CLD_STOPPED;
                siginfo.errno = signal.user_id() as i32;
            },
            ChildState::TraceTrap { signal, .. } => {
                siginfo.code = CLD_TRAPPED;
                siginfo.errno = signal.user_id() as i32;
            },
            ChildState::Continue => {
                siginfo.code = CLD_CONTINUED;
            },
        }
        siginfo
    }
}

/// What the children of a process have reported and nobody has collected,
/// by the number of their thread group.
pub struct ChildNotifiers {
    pub inner: BTreeMap<u32, ChildState>,
}

impl View for ChildNotifiers {
    type V = Map<u32, ChildState>;

    open spec fn view(&self) -> Map<u32, ChildState> {
        self.inner@
    }
}

impl Default for ChildNotifiers {
    fn default() -> (r: Self)
        ensures
            r@ == Map::<u32, ChildState>::empty(),
    {
        Self::new()
    }
}

impl ChildNotifiers {
    /// Nothing has been reported.
    pub fn new() -> (r: Self)
        ensures
            r@ == Map::<u32, ChildState>::empty(),
    {
        ChildNotifiers { inner: BTreeMap::new() }
    }

    /// A child reports a new state, which takes the place of what it reported
    /// before.
    pub fn child_update(&mut self, tgid: Tgid, new_state: ChildState)
        ensures
            final(self)@ == old(self)@.insert(tgid.0, new_state),
    {
            store(&mut self.inner, tgid.0, new_state);
    }
}

/// A wait on `pid` is a wait on the child `tgid`: any child for -1, a child
/// in the process group for smaller numbers, else the child of that number.
/// `groups` holds the process group of each live thread group.
pub open spec fn selects(pid: PidT, groups: Map<u32, u32>, tgid: u32) -> bool {
    if pid == -1 {
        true
    } else if pid < -1 {
        groups.contains_key(tgid) && groups[tgid] == -pid
    } else {
        tgid == pid
    }
}

/// The child has reported something that the wait asks for.
pub open spec fn waitable(
    state: Map<u32, ChildState>,
    groups: Map<u32, u32>,
    pid: PidT,
    flags: WaitFlags,
    tgid: u32,
) -> bool {
    state.contains_key(tgid) && state[tgid].asked_for(flags) && selects(pid, groups, tgid)
}

/// The child is the one with the smallest number that has reported something
/// that the wait asks for.
pub open spec fn is_next(
    state: Map<u32, ChildState>,
    groups: Map<u32, u32>,
    pid: PidT,
    flags: WaitFlags,
    tgid: u32,
) -> bool {
    &&& waitable(state, groups, pid, flags, tgid)
    &&& forall|other: u32| #[trigger] waitable(state, groups, pid, flags, other) ==> tgid <= other
}

/// The child that a wait finds, and what it reported.
pub open spec fn found(
    state: Map<u32, ChildState>,
    groups: Map<u32, u32>,
    pid: PidT,
    flags: WaitFlags,
) -> Option<(Tgid, ChildState)> {
    if exists|tgid: u32| is_next(state, groups, pid, flags, tgid) {
        let tgid = choose|tgid: u32| is_next(state, groups, pid, flags, tgid);
        Some((Tgid(tgid), state[tgid]))
    } else {
        None
    }
}

/// What is left to report once the child was told of.
pub open spec fn without(
    state: Map<u32, ChildState>,
    child: Option<(Tgid, ChildState)>,
) -> Map<u32, ChildState> {
    match child {
        Some((tgid, _)) => state.remove(tgid.0),
        None => state,
    }
}

/// The child that is next is the one that is found.
pub proof fn lemma_found(
    state: Map<u32, ChildState>,
    groups: Map<u32, u32>,
    pid: PidT,
    flags: WaitFlags,
    tgid: u32,
)
    requires
        is_next(state, groups, pid, flags, tgid),
    ensures
        found(state, groups, pid, flags) == Some((Tgid(tgid), state[tgid])),
{
    let other = choose|other: u32| is_next(state, groups, pid, flags, other);
    assert(waitable(state, groups, pid, flags, other));
    assert(waitable(state, groups, pid, flags, tgid));
}

/// Whether a wait on `pid` is a wait on the child `tgid`.
fn selected(pid: PidT, groups: &BTreeMap<u32, u32>, tgid: u32) -> (b: bool)
    ensures
        b == selects(pid, groups@, tgid),
{
    if pid == -1 {
        true
    } else if pid < -1 {
        match lookup(groups, tgid) {
            Some(pgid) => *pgid as i64 == -(pid as i64),
            None => false,
        }
    } else {
        tgid as i64 == pid as i64
    }
}

/// Finds the child that a wait is to be told of, and leaves its report to be
/// told again.
pub fn find_waitable(
    state: &BTreeMap<u32, ChildState>,
    groups: &BTreeMap<u32, u32>,
    pid: PidT,
    flags: WaitFlags,
) -> (r: Option<(Tgid, ChildState)>)
    ensures
        r == found(state@, groups@, pid, flags),
        r is None <==> forall|tgid: u32| !#[trigger] waitable(state@, groups@, pid, flags, tgid),
{
    let keys = sorted_keys(state);
    let mut i: usize = 0;
    while i < keys.len()
        invariant
            i <= keys@.len(),
            are_sorted_keys(state@, keys@),
            forall|j: int|
                0 <= j < i ==> !waitable(state@, groups@, pid, flags, #[trigger] keys@[j]),
        decreases keys@.len() - i,
    {
        let tgid: u32 = keys[i];
        assert(state@.contains_key(keys@[i as int]));
        let reported = *lookup(state, tgid).unwrap();
        if reported.matches_wait_flags(flags) && selected(pid, groups, tgid) {
            proof {
                assert forall|other: u32| #[trigger]
                    waitable(state@, groups@, pid, flags, other) implies tgid <= other by {
                    assert(keys@.contains(other));
                    let j = choose|j: int| 0 <= j < keys@.len() && keys@[j] == other;
                    if j < i {
                        assert(!waitable(state@, groups@, pid, flags, keys@[j]));
                    } else if j > i {
                        assert(keys@[i as int] < keys@[j]);
                    }
                }
                assert(waitable(state@, groups@, pid, flags, tgid));
                lemma_found(state@, groups@, pid, flags, tgid);
            }
            return Some((Tgid(tgid), reported));
        }
        i += 1;
    }
    proof {
        assert forall|tgid: u32| !#[trigger] waitable(state@, groups@, pid, flags, tgid) by {
            if waitable(state@, groups@, pid, flags, tgid) {
                assert(keys@.contains(tgid));
                let j = choose|j: int| 0 <= j < keys@.len() && keys@[j] == tgid;
                assert(!waitable(state@, groups@, pid, flags, keys@[j]));
            }
        }
        assert forall|tgid: u32| !#[trigger] is_next(state@, groups@, pid, flags, tgid) by {
            assert(!waitable(state@, groups@, pid, flags, tgid));
        }
    }
    None
}

/// Finds the child that a wait is to be told of, and takes its report out.
pub fn do_wait(
    state: &mut BTreeMap<u32, ChildState>,
    groups: &BTreeMap<u32, u32>,
    pid: PidT,
    flags: WaitFlags,
) -> (r: Option<(Tgid, ChildState)>)
    ensures
        r == found(old(state)@, groups@, pid, flags),
        r is None <==> forall|tgid: u32| !#[trigger]
            waitable(old(state)@, groups@, pid, flags, tgid),
        final(state)@ == without(old(state)@, r),
{
    match find_waitable(&*state, groups, pid, flags) {
        None => None,
        Some((tgid, child)) => {
            discard(state, tgid.0);
            Some((tgid, child))
        },
    }
}

} // verus!
