//! Attributes of files.
use vstd::prelude::*;

verus! {

/// The kind of a file.
#[derive(Clone, Copy, Debug, PartialEq, Eq, Structural)]
pub enum FileType {
    File,
    Directory,
    Symlink,
}

/// The attributes of a file.
#[derive(Clone, Copy, Debug, PartialEq, Eq, Structural)]
pub struct FileAttr {
    pub file_type: FileType,
    /// The permission bits.
    pub mode: u16,
    pub size: u64,
}

impl Default for FileAttr {
    fn default() -> (attr: Self)
        ensures
            attr == (FileAttr { file_type: FileType::File, mode: 0, size: 0 }),
    {
        FileAttr { file_type: FileType::File, mode: 0, size: 0 }
    }
}

/// The number of an inode, and of the file system it is in.
#[derive(Clone, Copy, Debug, PartialEq, Eq, Structural)]
pub struct InodeId {
    pub fs_id: u64,
    pub inode_id: u64,
}

impl InodeId {
    /// The inode with a number in a file system.
    pub fn from_fsid_and_inodeid(fs_id: u64, inode_id: u64) -> (id: Self)
        ensures
            id == (InodeId { fs_id, inode_id }),
    {
        InodeId { fs_id, inode_id }
    }

    /// The file system.
    pub fn fs_id(&self) -> (fs_id: u64)
        ensures
            fs_id == self.fs_id,
    {
        self.fs_id
    }
}

} // verus!
