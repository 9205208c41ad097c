//! Changing the permissions of a file.
use crate::error::KernelError;
use crate::fs::attr::FileAttr;
use vstd::prelude::*;

verus! {

/// Act on a symbolic link itself.
pub const AT_SYMLINK_NOFOLLOW: i32 = 0x100;

/// The change asks for a symbolic link itself to be changed.
pub open spec fn nofollow(flags: i32) -> bool {
    flags & AT_SYMLINK_NOFOLLOW == AT_SYMLINK_NOFOLLOW
}

/// Whether permissions can be changed with these flags. The permissions of a
/// symbolic link itself cannot.
pub fn check_fchmodat_flags(flags: i32) -> (r: Result<(), KernelError>)
    ensures
        r == (if nofollow(flags) {
            Err(KernelError::NotSupported)
        } else {
            Ok(())
        }),
{
    if flags & AT_SYMLINK_NOFOLLOW == AT_SYMLINK_NOFOLLOW {
        Err(KernelError::NotSupported)
    } else {
        Ok(())
    }
}

/// The attributes that a file gets when its permissions become `mode`.
/// `found` are the attributes it has, or why it was not found.
pub fn sys_fchmodat(flags: i32, found: Result<FileAttr, KernelError>, mode: u16) -> (r: Result<
    FileAttr,
    KernelError,
>)
    ensures
        r == (if nofollow(flags) {
            Err(KernelError::NotSupported)
        } else {
            match found {
                Ok(attr) => Ok(FileAttr { mode, ..attr }),
                Err(e) => Err(e),
            }
        }),
{
    match check_fchmodat_flags(flags) {
        Err(e) => Err(e),
        Ok(()) => match found {
            Ok(attr) => Ok(FileAttr { mode, ..attr }),
            Err(e) => Err(e),
        },
    }
}

} // verus!
