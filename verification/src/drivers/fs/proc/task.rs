//! The directory of a task.
use crate::drivers::fs::proc::fd::ProcFdInode;
use crate::drivers::fs::proc::number::{number_of_two, proc_inode, proc_number, PROCFS_ID};
use crate::drivers::fs::proc::task_file::{ProcTaskFileInode, TaskFileType};
use crate::drivers::fs::proc::thread_dir::ProcTaskDirInode;
use crate::error::{FsError, KernelError};
use crate::fs::attr::{FileAttr, FileType, InodeId};
use crate::fs::dir::{Dirent, DirentView, SimpleDirStream};
use crate::process::task::TaskDescriptor;
use crate::text::{decimal, decimal_string, same_text};
use vstd::prelude::*;

verus! {

/// The directory of a task.
#[derive(Clone, Copy, Debug, PartialEq, Eq, Structural)]
pub struct ProcTaskInode {
    pub id: InodeId,
    pub attr: FileAttr,
    pub desc: TaskDescriptor,
}

/// What is found in a task's directory.
#[derive(Clone, Copy, Debug, PartialEq, Eq, Structural)]
pub enum ProcTaskChild {
    Fd(ProcFdInode),
    Threads(ProcTaskDirInode),
    File(ProcTaskFileInode),
}

impl ProcTaskChild {
    /// The inode.
    pub open spec fn inode(self) -> InodeId {
        match self {
            ProcTaskChild::Fd(inode) => inode.id,
            ProcTaskChild::Threads(inode) => inode.id,
            ProcTaskChild::File(inode) => inode.id,
        }
    }

    /// The kind of file.
    pub open spec fn kind(self) -> FileType {
        match self {
            ProcTaskChild::Fd(inode) => inode.attr.file_type,
            ProcTaskChild::Threads(inode) => inode.attr.file_type,
            ProcTaskChild::File(inode) => inode.attr.file_type,
        }
    }
}

/// The task is the first of its thread group.
pub open spec fn is_leader(desc: TaskDescriptor) -> bool {
    desc.tid.0 == desc.tgid.0
}

/// What a name in a task's directory stands for, with the inode `id`. Only
/// the directory of a thread group's first task has one of its threads.
pub open spec fn child_named(desc: TaskDescriptor, name: Seq<char>, id: InodeId) -> Result<
    ProcTaskChild,
    KernelError,
> {
    if name == "fdinfo"@ {
        Ok(ProcTaskChild::Fd(ProcFdInode::with_id(desc, true, id)))
    } else if name == "fd"@ {
        Ok(ProcTaskChild::Fd(ProcFdInode::with_id(desc, false, id)))
    } else if name == "task"@ && is_leader(desc) {
        Ok(ProcTaskChild::Threads(ProcTaskDirInode::with_id(desc.tgid, id)))
    } else {
        match TaskFileType::with_name(name) {
            Ok(file_type) => Ok(
                ProcTaskChild::File(ProcTaskFileInode::with_id(desc.tid, file_type, id)),
            ),
            Err(_) => Err(KernelError::Fs(FsError::NotFound)),
        }
    }
}

/// The inode number of what has a name in a task's directory.
pub open spec fn child_number(desc: TaskDescriptor, name: Seq<char>) -> Option<u64> {
    proc_number(seq![decimal(desc.tid.0 as nat), name])
}

/// How many entries a task's directory has.
pub open spec fn child_count(desc: TaskDescriptor) -> nat {
    if is_leader(desc) {
        8
    } else {
        7
    }
}

/// The names in a task's directory and what kind of file each is, in order.
pub open spec fn listed_child(i: int) -> (Seq<char>, FileType) {
    if i == 0 {
        ("status"@, FileType::File)
    } else if i == 1 {
        ("comm"@, FileType::File)
    } else if i == 2 {
        ("state"@, FileType::File)
    } else if i == 3 {
        ("cwd"@, FileType::Symlink)
    } else if i == 4 {
        ("stat"@, FileType::File)
    } else if i == 5 {
        ("fd"@, FileType::Directory)
    } else if i == 6 {
        ("fdinfo"@, FileType::Directory)
    } else {
        ("task"@, FileType::Directory)
    }
}

/// The entry at a place in the directory, whose inode has the number
/// `number`.
pub open spec fn child_entry(i: int, number: u64) -> DirentView {
    DirentView {
        id: proc_inode(number),
        name: listed_child(i).0,
        file_type: listed_child(i).1,
        offset: (i + 1) as u64,
    }
}

/// The names in a task's directory and what kind of file each is, in order.
fn listed(i: usize) -> (r: (&'static str, FileType))
    ensures
        r.0@ == listed_child(i as int).0,
        r.1 == listed_child(i as int).1,
{
    match i {
        0 => ("status", FileType::File),
        1 => ("comm", FileType::File),
        2 => ("state", FileType::File),
        3 => ("cwd", FileType::Symlink),
        4 => ("stat", FileType::File),
        5 => ("fd", FileType::Directory),
        6 => ("fdinfo", FileType::Directory),
        _ => ("task", FileType::Directory),
    }
}

impl ProcTaskInode {
    /// The directory of a task.
    pub open spec fn with_id(desc: TaskDescriptor, id: InodeId) -> ProcTaskInode {
        ProcTaskInode {
            id,
            attr: FileAttr { file_type: FileType::Directory, mode: 0o555, size: 0 },
            desc,
        }
    }

    /// The directory of a task.
    pub fn new(desc: TaskDescriptor, inode_id: InodeId) -> (inode: Self)
        ensures
            inode == ProcTaskInode::with_id(desc, inode_id),
    {
        ProcTaskInode {
            id: inode_id,
            attr: FileAttr { file_type: FileType::Directory, mode: 0o555, ..FileAttr::default() },
            desc,
        }
    }

    /// The inode.
    pub fn id(&self) -> (id: InodeId)
        ensures
            id == self.id,
    {
        self.id
    }

    /// The attributes.
    pub fn getattr(&self) -> (attr: FileAttr)
        ensures
            attr == self.attr,
    {
        self.attr
    }

    /// What a name stands for, with the inode `inode_id`.
    pub fn child(&self, name: &str, inode_id: InodeId) -> (r: Result<ProcTaskChild, KernelError>)
        ensures
            r == child_named(self.desc, name@, inode_id),
    {
        if same_text(name, "fdinfo") {
            return Ok(ProcTaskChild::Fd(ProcFdInode::new(self.desc, true, inode_id)));
        } else if same_text(name, "fd") {
            return Ok(ProcTaskChild::Fd(ProcFdInode::new(self.desc, false, inode_id)));
        } else if same_text(name, "task") && self.desc.tid().value() == self.desc.tgid().value() {
            return Ok(ProcTaskChild::Threads(ProcTaskDirInode::new(self.desc.tgid(), inode_id)));
        }
        match TaskFileType::try_from(name) {
            Ok(file_type) => Ok(
                ProcTaskChild::File(ProcTaskFileInode::new(self.desc.tid(), file_type, inode_id)),
            ),
            Err(_) => Err(KernelError::Fs(FsError::NotFound)),
        }
    }

    /// Finds what has a name. A name whose path has no inode number gives
    /// nothing, whether it stands for anything or not.
    pub fn lookup(&self, name: &str) -> (r: Result<Option<ProcTaskChild>, KernelError>)
        ensures
            r == (match child_number(self.desc, name@) {
                None => Ok(None),
                Some(n) => match child_named(self.desc, name@, proc_inode(n)) {
                    Ok(child) => Ok(Some(child)),
                    Err(e) => Err(e),
                },
            }),
    {
        let tid = decimal_string(self.desc.tid().value() as u64);
        match number_of_two(tid.as_str(), name) {
            None => Ok(None),
            Some(n) => match self.child(name, InodeId::from_fsid_and_inodeid(PROCFS_ID, n)) {
                Ok(child) => Ok(Some(child)),
                Err(e) => Err(e),
            },
        }
    }

    /// Lists the directory. There is no listing where one of the paths has no
    /// inode number.
    pub fn readdir(&self, start_offset: u64) -> (r: Option<SimpleDirStream>)
        ensures
            r is Some <==> forall|i: int|
                0 <= i < child_count(self.desc) ==> child_number(
                    self.desc,
                    (#[trigger] listed_child(i)).0,
                ) is Some,
            r matches Some(stream) ==> {
                &&& stream.next == start_offset
                &&& stream.entries@.len() == child_count(self.desc)
                &&& forall|i: int|
                    0 <= i < child_count(self.desc) ==> (#[trigger] stream.entries@[i])@
                        == child_entry(i, child_number(self.desc, listed_child(i).0)->0)
            },
    {
        let tid = decimal_string(self.desc.tid().value() as u64);
        let count: usize = if self.desc.tid().value() == self.desc.tgid().value() {
            8
        } else {
            7
        };
        let mut entries: Vec<Dirent> = Vec::new();
        let mut i: usize = 0;
        while i < count
            invariant
                i <= count,
                count == child_count(self.desc),
                tid@ == decimal(self.desc.tid.0 as nat),
                entries@.len() == i,
                forall|j: int|
                    0 <= j < i ==> child_number(self.desc, (#[trigger] listed_child(j)).0) is Some,
                forall|j: int|
                    0 <= j < i ==> (#[trigger] entries@[j])@ == child_entry(
                        j,
                        child_number(self.desc, listed_child(j).0)->0,
                    ),
            decreases count - i,
        {
            let (name, file_type) = listed(i);
            let number: u64 = match number_of_two(tid.as_str(), name) {
                Some(number) => number,
                None => {
                    assert(child_number(self.desc, listed_child(i as int).0) is None);
                    return None;
                },
            };
            entries.push(
                Dirent::new(
                    name.to_owned(),
                    InodeId::from_fsid_and_inodeid(PROCFS_ID, number),
                    file_type,
                    (i as u64) + 1,
                ),
            );
            i += 1;
        }
        Some(SimpleDirStream::new(entries, start_offset))
    }
}

} // verus!
