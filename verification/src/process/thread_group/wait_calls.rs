//! The wait system calls, one attempt at a time: each attempt returns, fails
//! or sleeps until a child reports something, and is then made again.
use crate::error::KernelError;
use crate::process::thread_group::id::{PidT, Tgid};
use crate::process::thread_group::wait::{
    do_wait, find_waitable, found, without, ChildNotifiers, ChildState, SigInfo, WaitFlags,
    WAIT4_FLAGS, WAITID_FLAGS, WEXITED, WNOHANG, WNOWAIT,
};
use std::collections::BTreeMap;
use vstd::prelude::*;

verus! {

/// What comes of an attempt to wait.
#[derive(Debug, PartialEq, Eq, Structural)]
pub enum WaitOutcome<T> {
    /// The call returns `ret`, after `copy_out` was handed to user space.
    Done { ret: usize, copy_out: Option<T> },
    /// The call fails.
    Failed(KernelError),
    /// Nothing to report yet. The call sleeps until a child reports
    /// something; a signal ends the sleep with `KernelError::Interrupted`
    /// where `interruptible` is set.
    Sleep { interruptible: bool },
}

/// The options with which `wait4` waits: it always asks for children that
/// terminated.
pub open spec fn wait4_flags(flags: u32) -> WaitFlags {
    WaitFlags { bits: flags | WEXITED }
}

/// The options and arguments that `wait4` accepts.
pub open spec fn wait4_refusal(flags: u32, rusage_is_null: bool) -> Option<KernelError> {
    if flags & !WAIT4_FLAGS != 0 {
        Some(KernelError::InvalidValue)
    } else if !rusage_is_null {
        Some(KernelError::NotSupported)
    } else {
        None
    }
}

/// What an attempt of `wait4` finds.
pub open spec fn wait4_found(
    state: Map<u32, ChildState>,
    groups: Map<u32, u32>,
    pid: PidT,
    flags: u32,
    rusage_is_null: bool,
) -> Option<(Tgid, ChildState)> {
    if wait4_refusal(flags, rusage_is_null) is Some {
        None
    } else {
        found(state, groups, pid, wait4_flags(flags))
    }
}

/// What comes of an attempt of `wait4`.
pub open spec fn wait4_outcome(
    state: Map<u32, ChildState>,
    groups: Map<u32, u32>,
    child_count: nat,
    pid: PidT,
    stat_is_null: bool,
    flags: u32,
    rusage_is_null: bool,
) -> WaitOutcome<i32> {
    match wait4_refusal(flags, rusage_is_null) {
        Some(e) => WaitOutcome::Failed(e),
        None => match wait4_found(state, groups, pid, flags, rusage_is_null) {
            Some((tgid, child)) => WaitOutcome::Done {
                ret: tgid.0 as usize,
                copy_out: if stat_is_null {
                    None
                } else {
                    Some(child.status_word())
                },
            },
            None => if child_count == 0 {
                WaitOutcome::Failed(KernelError::NoChildProcess)
            } else if wait4_flags(flags).has(WNOHANG) {
                WaitOutcome::Done { ret: 0, copy_out: None }
            } else {
                WaitOutcome::Sleep { interruptible: true }
            },
        },
    }
}

/// Waits for a child and collects what it reported. `child_count` is how many
/// children there were when the call was made; it stays the same when the
/// attempt is made again after a sleep.
pub fn sys_wait4(
    notifiers: &mut ChildNotifiers,
    groups: &BTreeMap<u32, u32>,
    child_count: usize,
    pid: PidT,
    stat_is_null: bool,
    flags: u32,
    rusage_is_null: bool,
) -> (r: WaitOutcome<i32>)
    ensures
        r == wait4_outcome(
            old(notifiers)@,
            groups@,
            child_count as nat,
            pid,
            stat_is_null,
            flags,
            rusage_is_null,
        ),
        final(notifiers)@ == without(
            old(notifiers)@,
            wait4_found(old(notifiers)@, groups@, pid, flags, rusage_is_null),
        ),
{
    let mut options = WaitFlags::from_bits_retain(flags);
    if options.contains_unknown_bits() {
        proof {
            assert(flags & !0xf000000fu32 != 0 ==> flags & !0xe000000bu32 != 0) by (bit_vector);
        }
        return WaitOutcome::Failed(KernelError::InvalidValue);
    }
    if !options.difference(WAIT4_FLAGS).is_empty() {
        return WaitOutcome::Failed(KernelError::InvalidValue);
    }
    options.insert(WEXITED);
    if !rusage_is_null {
        return WaitOutcome::Failed(KernelError::NotSupported);
    }
    match do_wait(&mut notifiers.inner, groups, pid, options) {
        Some((tgid, child)) => WaitOutcome::Done {
            ret: tgid.value() as usize,
            copy_out: if stat_is_null {
                None
            } else {
                Some(child.wait_status())
            },
        },
        None => if child_count == 0 {
            WaitOutcome::Failed(KernelError::NoChildProcess)
        } else if options.contains(WNOHANG) {
            WaitOutcome::Done { ret: 0, copy_out: None }
        } else {
            WaitOutcome::Sleep { interruptible: true }
        },
    }
}

/// How `waitid` is told which children to wait for.
#[derive(Clone, Copy, Debug, PartialEq, Eq, Structural)]
#[allow(non_camel_case_types)]
pub enum IdType {
    /// Any child.
    P_ALL,
    /// The child with a number.
    P_PID,
    /// The children of the process group with a number, the sign of which does
    /// not matter. Group 1 cannot be told from any child, nor group 0 from the
    /// child with the number 0.
    P_PGID,
}

impl IdType {
    /// The way that a number stands for.
    pub open spec fn of(idtype: i32) -> Option<IdType> {
        if idtype == 0 {
            Some(IdType::P_ALL)
        } else if idtype == 1 {
            Some(IdType::P_PID)
        } else if idtype == 2 {
            Some(IdType::P_PGID)
        } else {
            None
        }
    }

    /// The way that a number stands for.
    pub fn from_raw(idtype: i32) -> (r: Option<IdType>)
        ensures
            r == IdType::of(idtype),
    {
        match idtype {
            0 => Some(IdType::P_ALL),
            1 => Some(IdType::P_PID),
            2 => Some(IdType::P_PGID),
            _ => None,
        }
    }

    /// The process number by which a wait selects these children: below -1 for
    /// a process group, -1 for any child. A group is given by its number with
    /// a minus sign, so that 1 and -1 select any child, and 0 the child with
    /// the number 0.
    pub open spec fn selection(self, id: PidT) -> PidT {
        match self {
            IdType::P_ALL => (-1) as PidT,
            IdType::P_PID => id,
            IdType::P_PGID => if id < 0 {
                id
            } else {
                (-id) as PidT
            },
        }
    }

    /// The process number by which a wait selects these children.
    pub fn select(self, id: PidT) -> (pid: PidT)
        ensures
            pid == self.selection(id),
    {
        match self {
            IdType::P_ALL => -1,
            IdType::P_PID => id,
            IdType::P_PGID => if id < 0 {
                id
            } else {
                -id
            },
        }
    }
}

/// The arguments that `waitid` accepts.
pub open spec fn waitid_valid(idtype: i32, options: u32) -> bool {
    IdType::of(idtype) is Some && options & !WAITID_FLAGS == 0
}

/// Whether `waitid` accepts the arguments.
pub fn waitid_accepts(idtype: i32, options: u32) -> (b: bool)
    ensures
        b == waitid_valid(idtype, options),
{
    let flags = WaitFlags::from_bits_retain(options);
    if flags.contains_unknown_bits() {
        proof {
            assert(options & !0xf000000fu32 != 0 ==> options & !0x1000000fu32 != 0) by (bit_vector);
        }
        return false;
    }
    IdType::from_raw(idtype).is_some() && flags.difference(WAITID_FLAGS).is_empty()
}

/// What an attempt of `waitid` finds.
pub open spec fn waitid_found(
    state: Map<u32, ChildState>,
    groups: Map<u32, u32>,
    idtype: i32,
    id: PidT,
    options: u32,
) -> Option<(Tgid, ChildState)> {
    if !waitid_valid(idtype, options) {
        None
    } else {
        found(
            state,
            groups,
            IdType::of(idtype)->0.selection(id),
            WaitFlags { bits: options },
        )
    }
}

/// What comes of an attempt of `waitid`.
pub open spec fn waitid_outcome(
    state: Map<u32, ChildState>,
    groups: Map<u32, u32>,
    child_count: nat,
    idtype: i32,
    id: PidT,
    info_is_null: bool,
    options: u32,
) -> WaitOutcome<SigInfo> {
    if !waitid_valid(idtype, options) {
        WaitOutcome::Failed(KernelError::InvalidValue)
    } else {
        match waitid_found(state, groups, idtype, id, options) {
            Some((_, child)) => WaitOutcome::Done {
                ret: 0,
                copy_out: if info_is_null {
                    None
                } else {
                    Some(child.info())
                },
            },
            None => if child_count == 0 {
                WaitOutcome::Failed(KernelError::NoChildProcess)
            } else if (WaitFlags { bits: options }).has(WNOHANG) {
                WaitOutcome::Done { ret: 0, copy_out: None }
            } else {
                WaitOutcome::Sleep { interruptible: false }
            },
        }
    }
}

/// What is left to report after an attempt of `waitid`.
pub open spec fn waitid_left(
    state: Map<u32, ChildState>,
    groups: Map<u32, u32>,
    idtype: i32,
    id: PidT,
    options: u32,
) -> Map<u32, ChildState> {
    if (WaitFlags { bits: options }).has(WNOWAIT) {
        state
    } else {
        without(state, waitid_found(state, groups, idtype, id, options))
    }
}

/// Waits for a child and tells what it reported, collecting it unless
/// `WNOWAIT` is set. `child_count` is how many children there were when the
/// call was made; it stays the same when the attempt is made again after a
/// sleep. Valid calls must not ask for resource usage.
pub fn sys_waitid(
    notifiers: &mut ChildNotifiers,
    groups: &BTreeMap<u32, u32>,
    child_count: usize,
    idtype: i32,
    id: PidT,
    info_is_null: bool,
    options: u32,
    rusage_is_null: bool,
) -> (r: WaitOutcome<SigInfo>)
    requires
        waitid_valid(idtype, options) ==> rusage_is_null,
    ensures
        r == waitid_outcome(
            old(notifiers)@,
            groups@,
            child_count as nat,
            idtype,
            id,
            info_is_null,
            options,
        ),
        final(notifiers)@ == waitid_left(old(notifiers)@, groups@, idtype, id, options),
{
    if !waitid_accepts(idtype, options) {
        return WaitOutcome::Failed(KernelError::InvalidValue);
    }
    let flags = WaitFlags::from_bits_retain(options);
    let sel_pid: PidT = match IdType::from_raw(idtype) {
        Some(which) => which.select(id),
        None => -1,
    };
    let told = if flags.contains(WNOWAIT) {
        find_waitable(&notifiers.inner, groups, sel_pid, flags)
    } else {
        do_wait(&mut notifiers.inner, groups, sel_pid, flags)
    };
    match told {
        Some((_, child)) => WaitOutcome::Done {
            ret: 0,
            copy_out: if info_is_null {
                None
            } else {
                Some(child.siginfo())
            },
        },
        None => if child_count == 0 {
            WaitOutcome::Failed(KernelError::NoChildProcess)
        } else if flags.contains(WNOHANG) {
            WaitOutcome::Done { ret: 0, copy_out: None }
        } else {
            WaitOutcome::Sleep { interruptible: false }
        },
    }
}

} // verus!
