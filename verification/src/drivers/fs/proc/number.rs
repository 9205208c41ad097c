//! Inode numbers in the process file system.
use crate::drivers::fs::inode_id::{
    checked_inode_id, id_of_digest, path_digest, segment_views,
};
use crate::fs::attr::InodeId;
use vstd::prelude::*;

verus! {

/// The number of the process file system.
pub const PROCFS_ID: u64 = 2;

/// The inode number of a path in the process file system, unless the path
/// has none.
pub open spec fn proc_number(segments: Seq<Seq<char>>) -> Option<u64> {
    id_of_digest(path_digest("procfs"@, segments))
}

/// The inode with a number in the process file system.
pub open spec fn proc_inode(number: u64) -> InodeId {
    InodeId { fs_id: PROCFS_ID, inode_id: number }
}

/// The inode number of a path of one segment.
pub fn number_of_one(a: &str) -> (n: Option<u64>)
    ensures
        n == proc_number(seq![a@]),
{
    let mut segments: Vec<&str> = Vec::new();
    segments.push(a);
    assert(segment_views(segments@) =~= seq![a@]);
    checked_inode_id("procfs", segments.as_slice())
}

/// The inode number of a path of two segments.
pub fn number_of_two(a: &str, b: &str) -> (n: Option<u64>)
    ensures
        n == proc_number(seq![a@, b@]),
{
    let mut segments: Vec<&str> = Vec::new();
    segments.push(a);
    segments.push(b);
    assert(segment_views(segments@) =~= seq![a@, b@]);
    checked_inode_id("procfs", segments.as_slice())
}

/// The inode number of a path of three segments.
pub fn number_of_three(a: &str, b: &str, c: &str) -> (n: Option<u64>)
    ensures
        n == proc_number(seq![a@, b@, c@]),
{
    let mut segments: Vec<&str> = Vec::new();
    segments.push(a);
    segments.push(b);
    segments.push(c);
    assert(segment_views(segments@) =~= seq![a@, b@, c@]);
    checked_inode_id("procfs", segments.as_slice())
}

} // verus!
