//! What changing permissions does to a file.
use crate::error::KernelError;
use crate::fs::attr::{FileAttr, InodeId};
use crate::fs::chmod::{check_fchmodat_flags, sys_fchmodat};
use vstd::prelude::*;

verus! {

/// Changing permissions changes the mode and nothing else. It is refused for a
/// symbolic link itself, whether it was found or not, and a file that was not
/// found is told of as it was; no other flag makes a difference.
pub proof fn law_only_the_mode_changes(
    flags: i32,
    found: Result<FileAttr, KernelError>,
    mode: u16,
    r: Result<FileAttr, KernelError>,
    checked: Result<(), KernelError>,
)
    requires
        call_ensures(sys_fchmodat, (flags, found, mode), r),
        call_ensures(check_fchmodat_flags, (flags,), checked),
    ensures
        flags & 0x100 != 0 ==> r == Err::<FileAttr, _>(KernelError::NotSupported) && checked
            == Err::<(), _>(KernelError::NotSupported),
        flags & 0x100 == 0 ==> checked == Ok::<(), KernelError>(()),
        flags & 0x100 == 0 ==> match found {
            Ok(before) => r matches Ok(after) && after.mode == mode && after.size == before.size
                && after.file_type == before.file_type,
            Err(e) => r == Err::<FileAttr, _>(e),
        },
{
    assert(flags & 0x100i32 == 0x100i32 <==> flags & 0x100i32 != 0) by (bit_vector);
}

/// An inode is told by its file system and its number there. A file has no
/// permissions and no size until they are set.
pub proof fn law_inodes_and_attributes(
    fs_id: u64,
    inode_id: u64,
    id: InodeId,
    its_fs: u64,
    attr: FileAttr,
)
    requires
        call_ensures(InodeId::from_fsid_and_inodeid, (fs_id, inode_id), id),
        call_ensures(InodeId::fs_id, (&id,), its_fs),
        call_ensures(<FileAttr as Default>::default, (), attr),
    ensures
        its_fs == fs_id,
        id.fs_id == fs_id,
        id.inode_id == inode_id,
        attr.file_type is File,
        attr.mode == 0,
        attr.size == 0,
{
}

} // verus!
