//! What holds of every wait.
use crate::process::thread_group::id::{PidT, Tgid};
use crate::process::thread_group::wait::{
    found, is_next, lemma_found, selects, waitable, without, ChildState, WaitFlags, WNOWAIT,
};
use crate::process::thread_group::wait_calls::{
    wait4_flags, wait4_found, wait4_outcome, waitid_found, waitid_left, waitid_outcome, IdType,
    WaitOutcome,
};
use vstd::prelude::*;

verus! {

/// A wait on a child by its number finds what the child last reported, and
/// collecting it leaves the reports of the other children as they were.
pub proof fn law_wait_finds_the_update(
    state: Map<u32, ChildState>,
    groups: Map<u32, u32>,
    pid: PidT,
    flags: WaitFlags,
    child: ChildState,
)
    requires
        pid >= 0,
        child.asked_for(flags),
    ensures
        found(state.insert(pid as u32, child), groups, pid, flags) == Some(
            (Tgid(pid as u32), child),
        ),
        without(
            state.insert(pid as u32, child),
            found(state.insert(pid as u32, child), groups, pid, flags),
        ) == state.remove(pid as u32),
{
    let after = state.insert(pid as u32, child);
    assert forall|other: u32| #[trigger] waitable(after, groups, pid, flags, other) implies pid as u32
        <= other by {
        assert(selects(pid, groups, other));
    }
    assert(waitable(after, groups, pid, flags, pid as u32));
    lemma_found(after, groups, pid, flags, pid as u32);
    assert(after.remove(pid as u32) =~= state.remove(pid as u32));
}

/// A wait finds the child with the smallest number among those that have
/// reported something it asks for.
pub proof fn law_smallest_number_first(
    state: Map<u32, ChildState>,
    groups: Map<u32, u32>,
    pid: PidT,
    flags: WaitFlags,
    other: u32,
)
    ensures
        found(state, groups, pid, flags) matches Some((tgid, child)) ==> {
            &&& waitable(state, groups, pid, flags, tgid.0)
            &&& child == state[tgid.0]
            &&& waitable(state, groups, pid, flags, other) ==> tgid.0 <= other
        },
{
    if found(state, groups, pid, flags) is Some {
        let tgid = choose|tgid: u32| is_next(state, groups, pid, flags, tgid);
        assert(is_next(state, groups, pid, flags, tgid));
    }
}

/// What was collected is not found again, whoever waits for whatever.
pub proof fn law_collected_once(
    state: Map<u32, ChildState>,
    groups: Map<u32, u32>,
    pid: PidT,
    flags: WaitFlags,
    later_pid: PidT,
    later_flags: WaitFlags,
)
    ensures
        found(state, groups, pid, flags) matches Some((tgid, _)) ==> (found(
            without(state, found(state, groups, pid, flags)),
            groups,
            later_pid,
            later_flags,
        ) matches Some((later, _)) ==> later != tgid),
{
    let left = without(state, found(state, groups, pid, flags));
    if found(left, groups, later_pid, later_flags) is Some {
        let tgid = choose|tgid: u32| is_next(left, groups, later_pid, later_flags, tgid);
        assert(waitable(left, groups, later_pid, later_flags, tgid));
    }
}

/// With `WNOWAIT` a call can be made again and comes out the same.
pub proof fn law_nowait_repeats(
    state: Map<u32, ChildState>,
    groups: Map<u32, u32>,
    child_count: nat,
    idtype: i32,
    id: PidT,
    info_is_null: bool,
    options: u32,
)
    requires
        (WaitFlags { bits: options }).has(WNOWAIT),
    ensures
        waitid_left(state, groups, idtype, id, options) == state,
        waitid_outcome(
            waitid_left(state, groups, idtype, id, options),
            groups,
            child_count,
            idtype,
            id,
            info_is_null,
            options,
        ) == waitid_outcome(state, groups, child_count, idtype, id, info_is_null, options),
{
}

/// A call that fails or sleeps collects nothing.
pub proof fn law_failure_collects_nothing(
    state: Map<u32, ChildState>,
    groups: Map<u32, u32>,
    child_count: nat,
    pid: PidT,
    null: bool,
    flags: u32,
    rusage_is_null: bool,
    idtype: i32,
)
    ensures
        !(wait4_outcome(
            state,
            groups,
            child_count,
            pid,
            null,
            flags,
            rusage_is_null,
        ) is Done) ==> without(state, wait4_found(state, groups, pid, flags, rusage_is_null))
            == state,
        !(waitid_outcome(state, groups, child_count, idtype, pid, null, flags) is Done)
            ==> waitid_left(state, groups, idtype, pid, flags) == state,
{
}

/// Where any child can be told of, one is next.
pub proof fn lemma_next_exists(
    state: Map<u32, ChildState>,
    groups: Map<u32, u32>,
    pid: PidT,
    flags: WaitFlags,
    tgid: u32,
)
    requires
        waitable(state, groups, pid, flags, tgid),
    ensures
        found(state, groups, pid, flags) is Some,
    decreases tgid,
{
    if is_next(state, groups, pid, flags, tgid) {
        lemma_found(state, groups, pid, flags, tgid);
    } else {
        let other = choose|other: u32| #[trigger]
            waitable(state, groups, pid, flags, other) && other < tgid;
        lemma_next_exists(state, groups, pid, flags, other);
    }
}

/// Where nothing could be reported before, a new report that is asked for is
/// what is found.
proof fn lemma_new_report_is_found(
    state: Map<u32, ChildState>,
    groups: Map<u32, u32>,
    pid: PidT,
    flags: WaitFlags,
    tgid: u32,
    child: ChildState,
)
    requires
        found(state, groups, pid, flags) is None,
        child.asked_for(flags),
        selects(pid, groups, tgid),
    ensures
        found(state.insert(tgid, child), groups, pid, flags) == Some((Tgid(tgid), child)),
{
    let after = state.insert(tgid, child);
    assert(waitable(after, groups, pid, flags, tgid));
    lemma_next_exists(after, groups, pid, flags, tgid);
    assert forall|other: u32| #[trigger] waitable(after, groups, pid, flags, other) implies other
        == tgid by {
        if other != tgid {
            assert(waitable(state, groups, pid, flags, other));
            lemma_next_exists(state, groups, pid, flags, other);
        }
    }
    assert(is_next(after, groups, pid, flags, tgid));
    lemma_found(after, groups, pid, flags, tgid);
}

/// A `wait4` that sleeps is over as soon as a child it is for reports
/// something it asks for: the next attempt returns that child.
pub proof fn law_report_ends_wait4(
    state: Map<u32, ChildState>,
    groups: Map<u32, u32>,
    child_count: nat,
    pid: PidT,
    stat_is_null: bool,
    flags: u32,
    tgid: u32,
    child: ChildState,
)
    requires
        wait4_outcome(state, groups, child_count, pid, stat_is_null, flags, true) is Sleep,
        child.asked_for(wait4_flags(flags)),
        selects(pid, groups, tgid),
    ensures
        wait4_outcome(
            state.insert(tgid, child),
            groups,
            child_count,
            pid,
            stat_is_null,
            flags,
            true,
        ) is Done,
        found(state.insert(tgid, child), groups, pid, wait4_flags(flags)) == Some(
            (Tgid(tgid), child),
        ),
{
    lemma_new_report_is_found(state, groups, pid, wait4_flags(flags), tgid, child);
}

/// A `waitid` that sleeps is over as soon as a child it is for reports
/// something it asks for: the next attempt tells what that child reported.
pub proof fn law_report_ends_waitid(
    state: Map<u32, ChildState>,
    groups: Map<u32, u32>,
    child_count: nat,
    idtype: i32,
    id: PidT,
    info_is_null: bool,
    options: u32,
    tgid: u32,
    child: ChildState,
)
    requires
        waitid_outcome(state, groups, child_count, idtype, id, info_is_null, options) is Sleep,
        child.asked_for(WaitFlags { bits: options }),
        selects(IdType::of(idtype)->0.selection(id), groups, tgid),
    ensures
        waitid_outcome(
            state.insert(tgid, child),
            groups,
            child_count,
            idtype,
            id,
            info_is_null,
            options,
        ) == (WaitOutcome::Done {
            ret: 0,
            copy_out: if info_is_null {
                None
            } else {
                Some(child.info())
            },
        }),
        waitid_found(state.insert(tgid, child), groups, idtype, id, options) == Some(
            (Tgid(tgid), child),
        ),
{
    lemma_new_report_is_found(
        state,
        groups,
        IdType::of(idtype)->0.selection(id),
        WaitFlags { bits: options },
        tgid,
        child,
    );
}

/// `wait4` asks for every child that terminated, whatever its options.
pub proof fn law_wait4_asks_for_exits(flags: u32, child: ChildState)
    requires
        child is NormalExit || child is SignalExit,
    ensures
        child.asked_for(wait4_flags(flags)),
{
    assert((flags | 0x4u32) & 0x4u32 == 0x4u32) by (bit_vector);
}

/// A trace trap is asked for by every wait on the child.
pub proof fn law_trace_traps_are_always_asked_for(child: ChildState, flags: WaitFlags)
    requires
        child is TraceTrap,
    ensures
        child.asked_for(flags),
{
}

/// User space can read every status word back: an exit by its code, a
/// terminating signal with its core bit, a stop by its signal, and a
/// continuation.
pub proof fn law_status_reads_back(child: ChildState)
    ensures
        child matches ChildState::NormalExit { code } ==> {
            &&& child.status_word() & 0x7f == 0
            &&& (child.status_word() >> 8) & 0xff == code % 256
        },
        child matches ChildState::SignalExit { signal, core } ==> signal.wf() ==> {
            &&& child.status_word() & 0x7f == signal.id
            &&& (child.status_word() & 0x80 != 0) == core
            &&& child.status_word() >> 8 == 0
        },
        child matches ChildState::Stop { signal } ==> signal.wf() ==> {
            &&& child.status_word() & 0xff == 0x7f
            &&& (child.status_word() >> 8) & 0xff == signal.id
        },
        child is Continue ==> child.status_word() == 0xffff,
{
    let word = child.status_word();
    match child {
        ChildState::NormalExit { code } => {
            let low = (code % 256) as i32;
            assert(0 <= low < 256 ==> (low * 256) as i32 & 0x7f == 0 && ((low * 256) as i32 >> 8)
                & 0xff == low) by (bit_vector);
        },
        ChildState::SignalExit { signal, core } => {
            let id = signal.id as i32;
            assert(1 <= id <= 64 ==> {
                &&& (id | 0x80) & 0x7f == id
                &&& (id | 0x80) & 0x80 != 0
                &&& (id | 0x80) >> 8 == 0
                &&& (id | 0) & 0x7f == id
                &&& (id | 0) & 0x80 == 0
                &&& (id | 0) >> 8 == 0
            }) by (bit_vector);
        },
        ChildState::Stop { signal } => {
            let id = signal.id as i32;
            assert(1 <= id <= 64 ==> {
                &&& (id * 256 + 0x7f) as i32 & 0xff == 0x7f
                &&& ((id * 256 + 0x7f) as i32 >> 8) & 0xff == id
            }) by (bit_vector);
        },
        _ => {},
    }
}

} // verus!
