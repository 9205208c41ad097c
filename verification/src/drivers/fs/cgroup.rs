//! The control group file system: for now an empty directory.
use crate::drivers::fs::inode_id::{
    checked_inode_id, id_of_digest, path_digest, segment_views,
};
use crate::error::{FsError, KernelError};
use crate::fs::attr::{FileAttr, FileType, InodeId};
use crate::fs::dir::{Dirent, SimpleDirStream};
use std::sync::Arc;
use vstd::prelude::*;

verus! {

/// The number of the control group file system.
pub const CGROUPFS_ID: u64 = 4;

/// The root directory.
#[derive(Clone, Copy, Debug, PartialEq, Eq, Structural)]
pub struct RootInode {
    pub id: InodeId,
    pub attr: FileAttr,
}

impl RootInode {
    /// The root directory as an inode.
    pub open spec fn with_id(id: InodeId) -> RootInode {
        RootInode { id, attr: FileAttr { file_type: FileType::Directory, mode: 0, size: 0 } }
    }

    /// The root directory as an inode.
    pub fn new(id: InodeId) -> (root: Self)
        ensures
            root == RootInode::with_id(id),
    {
        let attr = FileAttr { file_type: FileType::Directory, ..FileAttr::default() };
        RootInode { id, attr }
    }

    /// The number of entries.
    pub fn num_entries() -> (n: usize)
        ensures
            n == 0,
    {
        0
    }

    /// The inode.
    pub fn id(&self) -> (id: InodeId)
        ensures
            id == self.id,
    {
        self.id
    }

    /// The attributes.
    pub fn getattr(&self) -> (attr: FileAttr)
        ensures
            attr == self.attr,
    {
        self.attr
    }

    /// Finds nothing: the directory is empty.
    pub fn lookup(&self, _name: &str) -> (r: Result<InodeId, KernelError>)
        ensures
            r == Err::<InodeId, KernelError>(KernelError::Fs(FsError::NotFound)),
    {
        Err(KernelError::Fs(FsError::NotFound))
    }

    /// Lists nothing: the directory is empty.
    pub fn readdir(&self, start_offset: u64) -> (stream: SimpleDirStream)
        ensures
            stream.entries@.len() == 0,
            stream.next == start_offset,
    {
        let entries: Vec<Dirent> = Vec::with_capacity(Self::num_entries());
        SimpleDirStream::new(entries, start_offset)
    }
}

/// The control group file system.
pub struct CgroupFs {
    pub root: Arc<RootInode>,
}

impl CgroupFs {
    /// The file system whose root directory has the inode number `n`.
    pub open spec fn with_root_number(n: u64) -> CgroupFs {
        CgroupFs {
            root: Arc::new(RootInode::with_id(InodeId { fs_id: CGROUPFS_ID, inode_id: n })),
        }
    }

    /// The inode number of the root directory: that of the empty path.
    pub open spec fn root_number() -> Option<u64> {
        id_of_digest(path_digest("cgroupfs"@, Seq::empty()))
    }

    /// The file system whose root directory has the inode number `n`.
    pub fn from_root_number(n: u64) -> (fs: Arc<Self>)
        ensures
            *fs == CgroupFs::with_root_number(n),
    {
        Arc::new(
            CgroupFs {
                root: Arc::new(RootInode::new(InodeId::from_fsid_and_inodeid(CGROUPFS_ID, n))),
            },
        )
    }

    /// The file system, or nothing where the path of its root has no inode
    /// number.
    pub fn new() -> (fs: Option<Arc<Self>>)
        ensures
            fs is Some <==> CgroupFs::root_number() is Some,
            fs matches Some(fs) ==> *fs == CgroupFs::with_root_number(
                CgroupFs::root_number()->0,
            ),
    {
        let segments: Vec<&str> = Vec::new();
        proof {
            assert(segment_views(segments@) =~= Seq::<Seq<char>>::empty());
        }
        match checked_inode_id("cgroupfs", segments.as_slice()) {
            Some(n) => Some(Self::from_root_number(n)),
            None => None,
        }
    }

    /// The root directory.
    pub fn root_inode(&self) -> (root: Arc<RootInode>)
        ensures
            root == self.root,
    {
        self.root.clone()
    }

    /// The number of the file system.
    pub fn id(&self) -> (id: u64)
        ensures
            id == CGROUPFS_ID,
    {
        CGROUPFS_ID
    }
}

/// Makes the one control group file system when it is first asked for, and
/// gives out that one ever after.
pub fn cgroupfs(instance: &mut Option<Arc<CgroupFs>>) -> (fs: Option<Arc<CgroupFs>>)
    ensures
        fs == *final(instance),
        *old(instance) is Some ==> *final(instance) == *old(instance),
        *old(instance) is None ==> (fs is Some <==> CgroupFs::root_number() is Some) && (
        fs matches Some(fs) ==> *fs == CgroupFs::with_root_number(CgroupFs::root_number()->0)),
{
    if instance.is_none() {
        *instance = CgroupFs::new();
    }
    match &*instance {
        Some(fs) => Some(fs.clone()),
        None => None,
    }
}

/// The driver that gives out the control group file system.
#[derive(Clone, Copy, Debug, PartialEq, Eq, Structural)]
pub struct CgroupFsDriver;

impl CgroupFsDriver {
    /// The driver.
    #[must_use]
    pub fn new() -> (driver: Self)
        ensures
            driver == CgroupFsDriver,
    {
        CgroupFsDriver
    }

    /// The name of the driver.
    pub fn name(&self) -> (name: &'static str)
        ensures
            name@ == "cgroupfs"@,
    {
        "cgroupfs"
    }

    /// Gives out the file system. It lives on no device, so being given one
    /// is an error.
    pub fn construct(&self, _fs_id: u64, has_device: bool, instance: &mut Option<Arc<CgroupFs>>) -> (r:
        Result<Option<Arc<CgroupFs>>, KernelError>)
        ensures
            r is Err <==> has_device,
            r matches Err(e) ==> e == KernelError::InvalidValue && *final(instance) == *old(
                instance,
            ),
            r matches Ok(fs) ==> {
                &&& fs == *final(instance)
                &&& *old(instance) is Some ==> fs == *old(instance)
                &&& *old(instance) is None ==> (fs is Some <==> CgroupFs::root_number() is Some)
                &&& *old(instance) is None ==> (fs matches Some(fs) ==> *fs
                    == CgroupFs::with_root_number(CgroupFs::root_number()->0))
            },
    {
        if has_device {
            return Err(KernelError::InvalidValue);
        }
        Ok(cgroupfs(instance))
    }
}

} // verus!
