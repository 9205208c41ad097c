//! Clocks and the times they show.

pub mod gettime;
pub mod id;
pub mod laws;
pub mod timespec;
