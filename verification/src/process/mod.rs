//! Tasks, thread groups and what they wait for.

pub mod call_laws;
pub mod fd_table;
pub mod task;
pub mod task_list;
pub mod thread_group;
pub mod threading;
