//! Reading clocks.
use crate::clock::id::{law_numbers_name_clocks, ClockId};
use crate::clock::timespec::TimeSpec;
use crate::error::KernelError;
use vstd::prelude::*;

verus! {

/// What a readable clock shows.
#[derive(Clone, Copy, Debug, PartialEq, Eq, Structural)]
pub enum ClockSource {
    /// The time since the system started.
    Uptime,
    /// The time of day.
    Date,
}

/// What the clock with a number shows. Only the monotonic and the realtime
/// clock can be read.
pub open spec fn source_of(clockid: i32) -> Result<ClockSource, KernelError> {
    if clockid == ClockId::Monotonic.number() {
        Ok(ClockSource::Uptime)
    } else if clockid == ClockId::Realtime.number() {
        Ok(ClockSource::Date)
    } else {
        Err(KernelError::InvalidValue)
    }
}

/// What the clock with a number shows.
pub fn clock_source(clockid: i32) -> (r: Result<ClockSource, KernelError>)
    ensures
        r == source_of(clockid),
{
    let found = ClockId::try_from(clockid);
    proof {
        law_numbers_name_clocks(ClockId::Monotonic, clockid);
        law_numbers_name_clocks(ClockId::Realtime, clockid);
    }
    match found {
        Ok(ClockId::Monotonic) => Ok(ClockSource::Uptime),
        Ok(ClockId::Realtime) => Ok(ClockSource::Date),
        _ => Err(KernelError::InvalidValue),
    }
}

/// The time that the clock with a number shows, given the readings of the
/// clocks that there are.
pub fn sys_clock_gettime(clockid: i32, uptime: TimeSpec, date: TimeSpec) -> (r: Result<
    TimeSpec,
    KernelError,
>)
    ensures
        r == (match source_of(clockid) {
            Ok(ClockSource::Uptime) => Ok(uptime),
            Ok(ClockSource::Date) => Ok(date),
            Err(e) => Err(e),
        }),
{
    match clock_source(clockid) {
        Ok(ClockSource::Uptime) => Ok(uptime),
        Ok(ClockSource::Date) => Ok(date),
        Err(e) => Err(e),
    }
}

} // verus!
