//! The clocks that user space can name.
use vstd::prelude::*;

verus! {

/// A clock.
#[derive(Clone, Copy, Debug, PartialEq, Eq, Structural)]
pub enum ClockId {
    Monotonic,
    Realtime,
    ProcessCpuTimeId,
    ThreadCpuTimeId,
    MonotonicRaw,
    RealtimeCoarse,
    MonotonicCoarse,
    BootTime,
    RealtimeAlarm,
    BootTimeAlarm,
    Tai,
}

impl ClockId {
    /// The number of the clock.
    pub open spec fn number(self) -> i32 {
        match self {
            ClockId::Monotonic => 0,
            ClockId::Realtime => 1,
            ClockId::ProcessCpuTimeId => 2,
            ClockId::ThreadCpuTimeId => 3,
            ClockId::MonotonicRaw => 4,
            ClockId::RealtimeCoarse => 5,
            ClockId::MonotonicCoarse => 6,
            ClockId::BootTime => 7,
            ClockId::RealtimeAlarm => 8,
            ClockId::BootTimeAlarm => 9,
            ClockId::Tai => 11,
        }
    }

    /// Some clock has this number.
    pub open spec fn is_number(value: i32) -> bool {
        0 <= value <= 9 || value == 11
    }

    /// The clock with this number, if one has it.
    pub open spec fn with_number(value: i32) -> Result<ClockId, ()> {
        if ClockId::is_number(value) {
            Ok(choose|id: ClockId| #[trigger] id.number() == value)
        } else {
            Err(())
        }
    }

    /// The number of the clock.
    pub fn as_i32(self) -> (value: i32)
        ensures
            value == self.number(),
    {
        match self {
            ClockId::Monotonic => 0,
            ClockId::Realtime => 1,
            ClockId::ProcessCpuTimeId => 2,
            ClockId::ThreadCpuTimeId => 3,
            ClockId::MonotonicRaw => 4,
            ClockId::RealtimeCoarse => 5,
            ClockId::MonotonicCoarse => 6,
            ClockId::BootTime => 7,
            ClockId::RealtimeAlarm => 8,
            ClockId::BootTimeAlarm => 9,
            ClockId::Tai => 11,
        }
    }
}

/// Each clock is the one with its number, and every number that stands for a
/// clock stands for one.
pub proof fn law_numbers_name_clocks(id: ClockId, value: i32)
    ensures
        ClockId::with_number(id.number()) == Ok::<ClockId, ()>(id),
        ClockId::with_number(value) matches Ok(found) ==> found.number() == value,
        ClockId::with_number(value) is Err <==> forall|other: ClockId| #[trigger]
            other.number() != value,
{
    assert(ClockId::Monotonic.number() == 0);
    assert(ClockId::Realtime.number() == 1);
    assert(ClockId::ProcessCpuTimeId.number() == 2);
    assert(ClockId::ThreadCpuTimeId.number() == 3);
    assert(ClockId::MonotonicRaw.number() == 4);
    assert(ClockId::RealtimeCoarse.number() == 5);
    assert(ClockId::MonotonicCoarse.number() == 6);
    assert(ClockId::BootTime.number() == 7);
    assert(ClockId::RealtimeAlarm.number() == 8);
    assert(ClockId::BootTimeAlarm.number() == 9);
    assert(ClockId::Tai.number() == 11);
}

impl TryFrom<i32> for ClockId {
    type Error = ();

    fn try_from(value: i32) -> (r: Result<Self, ()>) {
        let r = match value {
            0 => Ok(ClockId::Monotonic),
            1 => Ok(ClockId::Realtime),
            2 => Ok(ClockId::ProcessCpuTimeId),
            3 => Ok(ClockId::ThreadCpuTimeId),
            4 => Ok(ClockId::MonotonicRaw),
            5 => Ok(ClockId::RealtimeCoarse),
            6 => Ok(ClockId::MonotonicCoarse),
            7 => Ok(ClockId::BootTime),
            8 => Ok(ClockId::RealtimeAlarm),
            9 => Ok(ClockId::BootTimeAlarm),
            11 => Ok(ClockId::Tai),
            _ => Err(()),
        };
        proof {
            if let Ok(id) = r {
                law_numbers_name_clocks(id, value);
            }
        }
        r
    }
}

impl vstd::std_specs::convert::TryFromSpecImpl<i32> for ClockId {
    open spec fn obeys_try_from_spec() -> bool {
        true
    }

    open spec fn try_from_spec(v: i32) -> Result<Self, ()> {
        ClockId::with_number(v)
    }
}

} // verus!
