//! Thread groups: how they are named, signalled and waited for.

pub mod id;
pub mod signal;
pub mod wait;
pub mod wait_call_laws;
pub mod wait_calls;
pub mod wait_laws;
