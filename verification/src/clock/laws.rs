//! What reading a clock gives.
use crate::clock::gettime::{clock_source, sys_clock_gettime, ClockSource};
use crate::clock::id::ClockId;
use crate::clock::timespec::TimeSpec;
use crate::error::KernelError;
use vstd::prelude::*;

verus! {

/// Clock 0 shows the time since the system started and clock 1 the time of
/// day, whatever these are; no other clock can be read.
pub proof fn law_two_clocks_can_be_read(
    clockid: i32,
    uptime: TimeSpec,
    date: TimeSpec,
    r: Result<TimeSpec, KernelError>,
    source: Result<ClockSource, KernelError>,
)
    requires
        call_ensures(sys_clock_gettime, (clockid, uptime, date), r),
        call_ensures(clock_source, (clockid,), source),
    ensures
        clockid == 0 ==> r == Ok::<TimeSpec, KernelError>(uptime) && source matches Ok(
            ClockSource::Uptime,
        ),
        clockid == 1 ==> r == Ok::<TimeSpec, KernelError>(date) && source matches Ok(
            ClockSource::Date,
        ),
        clockid != 0 && clockid != 1 ==> r == Err::<TimeSpec, KernelError>(
            KernelError::InvalidValue,
        ) && source == Err::<ClockSource, KernelError>(KernelError::InvalidValue),
{
}

/// The numbers of the clocks, as user space knows them.
pub proof fn law_clock_numbers(id: ClockId, value: i32, other: ClockId, other_value: i32)
    requires
        call_ensures(ClockId::as_i32, (id,), value),
        call_ensures(ClockId::as_i32, (other,), other_value),
    ensures
        value == other_value ==> id == other,
        0 <= value <= 9 || value == 11,
        id is Monotonic <==> value == 0,
        id is Realtime <==> value == 1,
        id is ProcessCpuTimeId <==> value == 2,
        id is ThreadCpuTimeId <==> value == 3,
        id is MonotonicRaw <==> value == 4,
        id is RealtimeCoarse <==> value == 5,
        id is MonotonicCoarse <==> value == 6,
        id is BootTime <==> value == 7,
        id is RealtimeAlarm <==> value == 8,
        id is BootTimeAlarm <==> value == 9,
        id is Tai <==> value == 11,
{
}

} // verus!
