//! Points in time as user space sees them.
use vstd::prelude::*;

verus! {

/// Seconds and nanoseconds.
#[derive(Debug, Clone, Copy, PartialEq, Eq, Structural)]
pub struct TimeSpec {
    pub tv_sec: i64,
    pub tv_nsec: i64,
}

} // verus!
