//! The process file system: a directory for each task, with what is known of
//! the task in files.

pub mod content_laws;
pub mod dir_laws;
pub mod fd;
pub mod laws;
pub mod number;
pub mod root;
pub mod snapshot;
pub mod task;
pub mod task_file;
pub mod thread_dir;
