//! What the wait calls tell and collect, in terms of their arguments and
//! results.
use crate::error::KernelError;
use crate::process::thread_group::id::{PidT, Tgid};
use crate::process::thread_group::wait::{
    do_wait, find_waitable, found, waitable, ChildNotifiers, ChildState, SigInfo, WaitFlags,
};
use crate::process::thread_group::wait_calls::{
    sys_wait4, sys_waitid, wait4_flags, wait4_found, waitid_found, waitid_accepts, waitid_valid, IdType,
    WaitOutcome,
};
use crate::process::thread_group::wait_laws::{
    law_smallest_number_first, law_status_reads_back, lemma_next_exists,
};
use std::collections::BTreeMap;
use vstd::prelude::*;

verus! {

/// What user space asks for with the bits of its options: stops, exits and
/// continuations each by a bit of its own. Trace traps need none.
pub open spec fn wants(bits: u32, child: ChildState) -> bool {
    match child {
        ChildState::Stop { .. } => bits & 2 != 0,
        ChildState::NormalExit { .. } | ChildState::SignalExit { .. } => bits & 4 != 0,
        ChildState::Continue => bits & 8 != 0,
        ChildState::TraceTrap { .. } => true,
    }
}

/// A stop is asked for if and only if its option is set, and so is an exit and
/// so is a continuation, whatever the other options are.
pub proof fn law_each_option_asks_for_its_change(child: ChildState, flags: WaitFlags, b: bool)
    requires
        call_ensures(ChildState::matches_wait_flags, (&child, flags), b),
    ensures
        b == wants(flags.bits, child),
{
    lemma_asked_for(child, flags);
}

/// What is asked for, in terms of the bits.
proof fn lemma_asked_for(child: ChildState, flags: WaitFlags)
    ensures
        child.asked_for(flags) == wants(flags.bits, child),
{
    let bits = flags.bits;
    assert((bits & 2u32 == 2u32 <==> bits & 2u32 != 0) && (bits & 4u32 == 4u32 <==> bits & 4u32 != 0)
        && (bits & 8u32 == 8u32 <==> bits & 8u32 != 0)) by (bit_vector);
}

/// An option for another kind of change makes no difference to what is asked
/// for.
pub proof fn law_other_options_make_no_difference(
    child: ChildState,
    flags: WaitFlags,
    more: WaitFlags,
    b: bool,
    c: bool,
)
    requires
        call_ensures(ChildState::matches_wait_flags, (&child, flags), b),
        call_ensures(ChildState::matches_wait_flags, (&child, more), c),
        child is Stop ==> flags.bits & 2 == more.bits & 2,
        child is NormalExit || child is SignalExit ==> flags.bits & 4 == more.bits & 4,
        child is Continue ==> flags.bits & 8 == more.bits & 8,
    ensures
        b == c,
{
    law_each_option_asks_for_its_change(child, flags, b);
    law_each_option_asks_for_its_change(child, more, c);
}

/// What user space reads from a status word: nothing but the exit code in the
/// second byte, the signal with the core bit in the first, or the mark of a
/// stop with the signal above it.
pub open spec fn status_tells(status: i32, child: ChildState) -> bool {
    match child {
        ChildState::NormalExit { code } => status & 0xff == 0 && status >> 8 == code % 256,
        ChildState::SignalExit { signal, core } => signal.wf() ==> status & 0x7f == signal.id && (
        status & 0x80 != 0) == core && status >> 8 == 0,
        ChildState::Stop { signal } => signal.wf() ==> status & 0xff == 0x7f && status >> 8
            == signal.id,
        ChildState::TraceTrap { signal, mask } => signal.wf() ==> status & 0xff == 0x7f && (status
            >> 8) & 0xff_ffff == (signal.id as i32 | mask) & 0xff_ffff,
        ChildState::Continue => status == 0xffff,
    }
}

/// A status word tells what it is made from.
proof fn lemma_status_word_tells(child: ChildState)
    ensures
        status_tells(child.status_word(), child),
{
    match child {
        ChildState::NormalExit { code } => {
            let low = (code % 256) as i32;
            assert(0 <= low < 256 ==> (low * 256) as i32 & 0xff == 0 && (low * 256) as i32 >> 8
                == low) by (bit_vector);
        },
        ChildState::SignalExit { .. } => {
            law_status_reads_back(child);
        },
        ChildState::Stop { signal } => {
            let id = signal.id as i32;
            assert(1 <= id <= 64 ==> {
                &&& (id * 256 + 0x7f) as i32 & 0xff == 0x7f
                &&& (id * 256 + 0x7f) as i32 >> 8 == id
            }) by (bit_vector);
        },
        ChildState::TraceTrap { signal, mask } => {
            let id = signal.id as i32;
            assert(1 <= id <= 64 ==> {
                let word = ((id * 256 + 0x7f) as i32) | (mask << 8);
                &&& word & 0xff == 0x7f
                &&& (word >> 8) & 0xff_ffff == (id | mask) & 0xff_ffff
            }) by (bit_vector);
        },
        ChildState::Continue => {},
    }
}

/// A status word tells all of what it is made from.
pub proof fn law_status_tells_the_change(child: ChildState, status: i32)
    requires
        call_ensures(ChildState::wait_status, (&child,), status),
    ensures
        status_tells(status, child),
{
    lemma_status_word_tells(child);
}

/// What user space reads from the information on a child: the signal that
/// children send, the kind of change, and the whole exit code or the signal
/// that was the cause.
pub open spec fn info_tells(info: SigInfo, child: ChildState) -> bool {
    &&& info.signo == 17
    &&& match child {
        ChildState::NormalExit { code } => info.code == 1 && info.errno as u32 == code,
        ChildState::SignalExit { signal, core } => info.code == (if core {
            3i32
        } else {
            2i32
        }) && info.errno == signal.id,
        ChildState::Stop { signal } => info.code == 4 && info.errno == signal.id,
        ChildState::TraceTrap { signal, .. } => info.code == 5 && info.errno == signal.id,
        ChildState::Continue => info.code == 6 && info.errno == 0,
    }
}

/// The information on a child tells what it is made from.
proof fn lemma_info_tells(child: ChildState)
    ensures
        info_tells(child.info(), child),
{
    if let ChildState::NormalExit { code } = child {
        assert((code as i32) as u32 == code) by (bit_vector);
    }
}

/// The information on a child can be read back.
pub proof fn law_info_tells_the_change(child: ChildState, info: SigInfo)
    requires
        call_ensures(ChildState::siginfo, (&child,), info),
    ensures
        info_tells(info, child),
        child matches ChildState::NormalExit { code } ==> (code <= i32::MAX ==> info.errno == code),
{
    lemma_info_tells(child);
}

/// The two ways to tell of a child agree: on the low eight bits of an exit
/// code, and on the signal.
pub proof fn law_status_and_info_agree(child: ChildState, status: i32, info: SigInfo)
    requires
        call_ensures(ChildState::wait_status, (&child,), status),
        call_ensures(ChildState::siginfo, (&child,), info),
    ensures
        child is NormalExit ==> status >> 8 == (info.errno as u32) % 256,
        child matches ChildState::SignalExit { signal, .. } ==> (signal.wf() ==> status & 0x7f
            == info.errno),
        child matches ChildState::Stop { signal } ==> (signal.wf() ==> status >> 8 == info.errno),
{
    law_status_tells_the_change(child, status);
    law_info_tells_the_change(child, info);
}

/// A wait on `pid` can be told of the child `tgid`.
pub open spec fn may_be_told_of(
    state: Map<u32, ChildState>,
    groups: Map<u32, u32>,
    pid: PidT,
    bits: u32,
    tgid: u32,
) -> bool {
    &&& state.contains_key(tgid)
    &&& wants(bits, state[tgid])
    &&& pid >= 0 ==> tgid == pid
    &&& pid < -1 ==> groups.contains_key(tgid) && groups[tgid] + pid == 0
}

/// Whom a wait can be told of, in terms of the bits.
proof fn lemma_may_be_told_of(
    state: Map<u32, ChildState>,
    groups: Map<u32, u32>,
    pid: PidT,
    flags: WaitFlags,
    tgid: u32,
)
    ensures
        waitable(state, groups, pid, flags, tgid) == may_be_told_of(
            state,
            groups,
            pid,
            flags.bits,
            tgid,
        ),
{
    lemma_asked_for(state[tgid], flags);
}

/// `told` is what a wait is to be told: of the children it can be told of, the
/// one with the smallest number, and what that last reported.
pub open spec fn is_right_to_tell(
    state: Map<u32, ChildState>,
    groups: Map<u32, u32>,
    pid: PidT,
    bits: u32,
    told: Option<(Tgid, ChildState)>,
) -> bool {
    match told {
        Some((tgid, child)) => {
            &&& may_be_told_of(state, groups, pid, bits, tgid.0)
            &&& child == state[tgid.0]
            &&& forall|other: u32| #[trigger]
                may_be_told_of(state, groups, pid, bits, other) ==> tgid.0 <= other
        },
        None => forall|other: u32| !#[trigger] may_be_told_of(state, groups, pid, bits, other),
    }
}

/// What is found is what is to be told.
proof fn lemma_found_is_right(
    state: Map<u32, ChildState>,
    groups: Map<u32, u32>,
    pid: PidT,
    flags: WaitFlags,
)
    ensures
        is_right_to_tell(state, groups, pid, flags.bits, found(state, groups, pid, flags)),
{
    let told = found(state, groups, pid, flags);
    if let Some((tgid, _)) = told {
        lemma_may_be_told_of(state, groups, pid, flags, tgid.0);
        law_smallest_number_first(state, groups, pid, flags, tgid.0);
    }
    assert forall|other: u32| #[trigger]
        may_be_told_of(state, groups, pid, flags.bits, other) implies (told matches Some((tgid, _))
        && tgid.0 <= other) by {
        lemma_may_be_told_of(state, groups, pid, flags, other);
        lemma_next_exists(state, groups, pid, flags, other);
        law_smallest_number_first(state, groups, pid, flags, other);
    }
}

/// Looking for a child tells of the right one.
pub proof fn law_find_waitable_tells_of_the_right_child(
    state: &BTreeMap<u32, ChildState>,
    groups: &BTreeMap<u32, u32>,
    pid: PidT,
    flags: WaitFlags,
    told: Option<(Tgid, ChildState)>,
)
    requires
        call_ensures(find_waitable, (state, groups, pid, flags), told),
    ensures
        is_right_to_tell(state@, groups@, pid, flags.bits, told),
{
    lemma_found_is_right(state@, groups@, pid, flags);
}

/// Collecting a report tells of the right child, and takes out that report and
/// no other.
pub proof fn law_do_wait_collects_what_it_tells(
    state: &mut BTreeMap<u32, ChildState>,
    groups: &BTreeMap<u32, u32>,
    pid: PidT,
    flags: WaitFlags,
    told: Option<(Tgid, ChildState)>,
)
    requires
        call_ensures(do_wait, (state, groups, pid, flags), told),
    ensures
        is_right_to_tell(old(state)@, groups@, pid, flags.bits, told),
        told is None ==> final(state)@ == old(state)@,
        told matches Some((tgid, _)) ==> final(state)@ == old(state)@.remove(tgid.0),
{
    lemma_found_is_right(state@, groups@, pid, flags);
}

/// What `wait4` does, whatever it is asked. It refuses options that it does
/// not know and to report resources. Else it returns the number of the child
/// that is to be told of, with a status that tells what the child reported,
/// and collects that report and no other; exits are always asked for. Where
/// there is no such child it collects nothing, and fails without children,
/// returns nothing where it is not to hang, and sleeps otherwise.
pub proof fn law_wait4(
    notifiers: &mut ChildNotifiers,
    groups: &BTreeMap<u32, u32>,
    child_count: usize,
    pid: PidT,
    stat_is_null: bool,
    flags: u32,
    rusage_is_null: bool,
    r: WaitOutcome<i32>,
)
    requires
        call_ensures(
            sys_wait4,
            (notifiers, groups, child_count, pid, stat_is_null, flags, rusage_is_null),
            r,
        ),
    ensures
        ({
            let known = flags & 0x1ffffff4 == 0;
            let bits = flags | 4;
            let old_state = old(notifiers)@;
            let new_state = final(notifiers)@;
            &&& !known ==> r == WaitOutcome::<i32>::Failed(KernelError::InvalidValue) && new_state
                == old_state
            &&& known && !rusage_is_null ==> r == WaitOutcome::<i32>::Failed(
                KernelError::NotSupported,
            ) && new_state == old_state
            &&& known && rusage_is_null ==> {
                ||| exists|tgid: u32|
                    {
                        &&& #[trigger] may_be_told_of(old_state, groups@, pid, bits, tgid)
                        &&& is_right_to_tell(
                            old_state,
                            groups@,
                            pid,
                            bits,
                            Some((Tgid(tgid), old_state[tgid])),
                        )
                        &&& new_state == old_state.remove(tgid)
                        &&& r matches WaitOutcome::Done { ret, copy_out } && ret == tgid && (
                        copy_out is None <==> stat_is_null) && (copy_out matches Some(status)
                            ==> status_tells(status, old_state[tgid]))
                    }
                ||| {
                    &&& is_right_to_tell(old_state, groups@, pid, bits, None)
                    &&& new_state == old_state
                    &&& child_count == 0 ==> r == WaitOutcome::<i32>::Failed(
                        KernelError::NoChildProcess,
                    )
                    &&& child_count > 0 && flags & 1 != 0 ==> r == (WaitOutcome::<i32>::Done {
                        ret: 0,
                        copy_out: None,
                    })
                    &&& child_count > 0 && flags & 1 == 0 ==> r == (WaitOutcome::<i32>::Sleep {
                        interruptible: true,
                    })
                }
            }
        }),
{
    let state = notifiers@;
    assert(!0xe000000bu32 == 0x1ffffff4u32) by (bit_vector);
    assert((flags | 4u32) & 1u32 == flags & 1u32 && (flags & 1u32 == 1u32 <==> flags & 1u32 != 0))
        by (bit_vector);
    lemma_found_is_right(state, groups@, pid, wait4_flags(flags));
    if let Some((tgid, child)) = wait4_found(state, groups@, pid, flags, rusage_is_null) {
        lemma_status_word_tells(child);
        assert(may_be_told_of(state, groups@, pid, flags | 4, tgid.0));
    }
}

/// What a wait is for where `waitid` chooses all children, one by its number,
/// or those of a process group.
pub open spec fn chosen(idtype: i32, id: PidT) -> PidT {
    if idtype == 0 {
        (-1) as PidT
    } else if idtype == 1 || id < 0 {
        id
    } else {
        (0 - id) as PidT
    }
}

/// What `waitid` does, whatever it is asked. It refuses options that it does
/// not know, and ways to choose children other than all, one by its number
/// and a process group. Else it tells what the child that is to be told of
/// reported, and collects that report and no other, or none at all where it
/// is to be left. Where there is no such child it collects nothing, and fails
/// without children, returns nothing where it is not to hang, and sleeps
/// otherwise.
pub proof fn law_waitid(
    notifiers: &mut ChildNotifiers,
    groups: &BTreeMap<u32, u32>,
    child_count: usize,
    idtype: i32,
    id: PidT,
    info_is_null: bool,
    options: u32,
    rusage_is_null: bool,
    r: WaitOutcome<SigInfo>,
)
    requires
        call_ensures(
            sys_waitid,
            (notifiers, groups, child_count, idtype, id, info_is_null, options, rusage_is_null),
            r,
        ),
    ensures
        ({
            let known = options & 0xeffffff0 == 0 && 0 <= idtype <= 2;
            let pid = chosen(idtype, id);
            let old_state = old(notifiers)@;
            let new_state = final(notifiers)@;
            &&& !known ==> r == WaitOutcome::<SigInfo>::Failed(KernelError::InvalidValue)
                && new_state == old_state
            &&& known ==> {
                ||| exists|tgid: u32|
                    {
                        &&& #[trigger] may_be_told_of(old_state, groups@, pid, options, tgid)
                        &&& is_right_to_tell(
                            old_state,
                            groups@,
                            pid,
                            options,
                            Some((Tgid(tgid), old_state[tgid])),
                        )
                        &&& new_state == (if options & 0x1000_0000 != 0 {
                            old_state
                        } else {
                            old_state.remove(tgid)
                        })
                        &&& r matches WaitOutcome::Done { ret, copy_out } && ret == 0 && (
                        copy_out is None <==> info_is_null) && (copy_out matches Some(info)
                            ==> info_tells(info, old_state[tgid]))
                    }
                ||| {
                    &&& is_right_to_tell(old_state, groups@, pid, options, None)
                    &&& new_state == old_state
                    &&& child_count == 0 ==> r == WaitOutcome::<SigInfo>::Failed(
                        KernelError::NoChildProcess,
                    )
                    &&& child_count > 0 && options & 1 != 0 ==> r == (WaitOutcome::<
                        SigInfo,
                    >::Done { ret: 0, copy_out: None })
                    &&& child_count > 0 && options & 1 == 0 ==> r == (WaitOutcome::<
                        SigInfo,
                    >::Sleep { interruptible: false })
                }
            }
        }),
{
    let state = notifiers@;
    assert(!0x1000000fu32 == 0xeffffff0u32) by (bit_vector);
    assert((options & 1u32 == 1u32 <==> options & 1u32 != 0) && (options & 0x1000_0000u32
        == 0x1000_0000u32 <==> options & 0x1000_0000u32 != 0)) by (bit_vector);
    if waitid_valid(idtype, options) {
        let pid = chosen(idtype, id);
        assert(pid == IdType::of(idtype)->0.selection(id));
        lemma_found_is_right(state, groups@, pid, WaitFlags { bits: options });
        if let Some((tgid, child)) = waitid_found(state, groups@, idtype, id, options) {
            lemma_info_tells(child);
            assert(may_be_told_of(state, groups@, pid, options, tgid.0));
        }
    }
}

/// A child that reports is told of with what it reported last, and the other
/// children's reports stay: a wait for that child by its number, which asks
/// for the change, returns it.
pub proof fn law_last_report_is_told(
    before: &mut ChildNotifiers,
    tgid: Tgid,
    child: ChildState,
    after: &mut ChildNotifiers,
    groups: &BTreeMap<u32, u32>,
    child_count: usize,
    flags: u32,
    r: WaitOutcome<i32>,
)
    requires
        call_ensures(ChildNotifiers::child_update, (before, tgid, child), ()),
        *after == *final(before),
        tgid.0 <= i32::MAX,
        flags & 0x1ffffff4 == 0,
        wants(flags | 4, child),
        call_ensures(
            sys_wait4,
            (after, groups, child_count, tgid.0 as PidT, false, flags, true),
            r,
        ),
    ensures
        r matches WaitOutcome::Done { ret, copy_out } && ret == tgid.0 && (copy_out matches Some(
            status,
        ) && status_tells(status, child)),
        final(after)@ == old(before)@.remove(tgid.0),
{
    law_wait4(after, groups, child_count, tgid.0 as PidT, false, flags, true, r);
    assert(may_be_told_of(after@, groups@, tgid.0 as PidT, flags | 4, tgid.0));
    assert(before@.insert(tgid.0, child).remove(tgid.0) =~= before@.remove(tgid.0));
}

/// Nothing has been reported at first, so nothing is told of.
pub proof fn law_nothing_is_told_at_first(
    new: ChildNotifiers,
    groups: &BTreeMap<u32, u32>,
    pid: PidT,
    flags: WaitFlags,
    told: Option<(Tgid, ChildState)>,
)
    requires
        call_ensures(ChildNotifiers::new, (), new),
        call_ensures(find_waitable, (&new.inner, groups, pid, flags), told),
    ensures
        told is None,
{
    law_find_waitable_tells_of_the_right_child(&new.inner, groups, pid, flags, told);
    if let Some((tgid, _)) = told {
        assert(may_be_told_of(new.inner@, groups@, pid, flags.bits, tgid.0));
    }
}

/// How `waitid` chooses children: 0 stands for all, 1 for one by its number, 2
/// for a process group by its number, whatever its sign; and which options it
/// takes.
pub proof fn law_ways_to_choose_children(
    idtype: i32,
    options: u32,
    way: Option<IdType>,
    id: PidT,
    pid: PidT,
    accepted: bool,
)
    requires
        call_ensures(IdType::from_raw, (idtype,), way),
        way matches Some(w) ==> call_ensures(IdType::select, (w, id), pid),
        call_ensures(waitid_accepts, (idtype, options), accepted),
    ensures
        way is Some <==> 0 <= idtype <= 2,
        way is Some ==> pid == chosen(idtype, id),
        accepted <==> way is Some && options & 0xeffffff0 == 0,
{
    assert(!0x1000000fu32 == 0xeffffff0u32) by (bit_vector);
}

/// Options are sets of bits: all that are asked about must be set, those that
/// are taken away or added are gone or there, and the others stay.
pub proof fn law_options_are_sets(
    bits: u32,
    flags: WaitFlags,
    mask: u32,
    contains: bool,
    without: WaitFlags,
    empty: bool,
    with: &mut WaitFlags,
    unknown: bool,
)
    requires
        call_ensures(WaitFlags::from_bits_retain, (bits,), flags),
        call_ensures(WaitFlags::contains, (&flags, mask), contains),
        call_ensures(WaitFlags::difference, (&flags, mask), without),
        call_ensures(WaitFlags::is_empty, (&without,), empty),
        *with == flags,
        call_ensures(WaitFlags::insert, (with, mask), ()),
        call_ensures(WaitFlags::contains_unknown_bits, (&flags,), unknown),
    ensures
        flags.bits == bits,
        contains <==> mask & !bits == 0,
        without.bits & mask == 0,
        without.bits | (bits & mask) == bits,
        empty <==> bits & !mask == 0,
        final(with).bits & mask == mask,
        final(with).bits & !mask == bits & !mask,
        unknown <==> bits & 0x0fff_fff0 != 0,
{
    assert((bits & mask == mask <==> mask & !bits == 0) && (bits & !mask) & mask == 0 && (bits
        & !mask) | (bits & mask) == bits && (bits | mask) & mask == mask && (bits | mask) & !mask
        == bits & !mask && !0xf000000fu32 == 0x0fff_fff0u32) by (bit_vector);
}

} // verus!
