//! File systems that the kernel makes up.

pub mod cgroup;
pub mod inode_id;
pub mod proc;
