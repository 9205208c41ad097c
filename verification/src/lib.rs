//! The verified core of a small Unix-like kernel: physical memory, page-table
//! teardown, child waiting, scheduling decisions and the process filesystem.

pub mod clock;
pub mod drivers;
pub mod error;
pub mod fs;
pub mod memory;
pub mod ordered;
pub mod ordered_laws;
pub mod process;
pub mod sched;
pub mod text;
pub mod text_laws;
