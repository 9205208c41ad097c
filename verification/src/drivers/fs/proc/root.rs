//! The root of the process file system.
use crate::drivers::fs::proc::number::{number_of_one, proc_inode, proc_number, PROCFS_ID};
use crate::drivers::fs::proc::task::ProcTaskInode;
use crate::error::{FsError, KernelError};
use crate::fs::attr::{FileAttr, FileType, InodeId};
use crate::fs::dir::{dirents, Dirent, DirentView, SimpleDirStream};
use crate::process::task::{TaskDescriptor, Tid};
use crate::process::task_list::{descriptors, first_of_group, TaskEntry, TaskList};
use crate::text::{decimal, decimal_string, parse_u32, same_text, unsigned_value};
use vstd::prelude::*;
use vstd::string::StringSliceAdditionalSpecFns;

verus! {

/// The root of the process file system.
#[derive(Clone, Copy, Debug, PartialEq, Eq, Structural)]
pub struct ProcRootInode {
    pub id: InodeId,
    pub attr: FileAttr,
}

/// The task that a name in the root stands for: the first of the asking
/// task's thread group, the asking task itself, or the first listed task of
/// the thread group with that number.
pub open spec fn task_named(
    name: Seq<char>,
    bytes: Seq<u8>,
    current: TaskDescriptor,
    all: Seq<TaskDescriptor>,
) -> Option<TaskDescriptor> {
    if name == "self"@ {
        Some(TaskDescriptor { tid: Tid(current.tgid.0), tgid: current.tgid })
    } else if name == "thread-self"@ {
        Some(current)
    } else {
        match unsigned_value(bytes) {
            Some(pid) => if pid <= u32::MAX {
                first_of_group(all, pid as u32)
            } else {
                None
            },
            None => None,
        }
    }
}

/// The thread groups of the live tasks among the first `n`, one for each
/// task.
pub open spec fn live_groups<T>(entries: Seq<TaskEntry<T>>, n: nat) -> Seq<u32>
    decreases n,
{
    if n == 0 {
        Seq::empty()
    } else if entries[n - 1].task is Some {
        live_groups(entries, (n - 1) as nat).push(entries[n - 1].desc.tgid.0)
    } else {
        live_groups(entries, (n - 1) as nat)
    }
}

/// The digest of a thread group's number as a path.
pub open spec fn group_number(tgid: u32) -> Option<u64> {
    proc_number(seq![decimal(tgid as nat)])
}

/// The entry of a thread group. Its inode is numbered from the thread
/// group, its place is `offset`.
pub open spec fn group_entry(tgid: u32, offset: u64) -> DirentView {
    DirentView {
        id: proc_inode(((tgid + 1) * 100) as u64),
        name: decimal(tgid as nat),
        file_type: FileType::Directory,
        offset,
    }
}

/// The entry of the asking task, whose inode has the number `number`, after
/// `count` others.
pub open spec fn self_entry(number: u64, count: nat) -> DirentView {
    DirentView {
        id: proc_inode(number),
        name: "self"@,
        file_type: FileType::Directory,
        offset: (count + 1) as u64,
    }
}

/// The whole listing, given that every path has an inode number.
pub open spec fn root_listing<T>(
    entries: Seq<TaskEntry<T>>,
    current: TaskDescriptor,
) -> Seq<DirentView> {
    let groups = live_groups(entries, entries.len());
    groups.map_values(|tgid: u32| group_entry(tgid, group_number(tgid)->0)).push(
        self_entry(group_number(current.tgid.0)->0, groups.len()),
    )
}

impl ProcRootInode {
    /// The root of the process file system.
    pub fn new() -> (inode: Self)
        ensures
            inode == (ProcRootInode {
                id: proc_inode(0),
                attr: FileAttr { file_type: FileType::Directory, mode: 0o555, size: 0 },
            }),
    {
        ProcRootInode {
            id: InodeId::from_fsid_and_inodeid(PROCFS_ID, 0),
            attr: FileAttr { file_type: FileType::Directory, mode: 0o555, ..FileAttr::default() },
        }
    }

    /// The inode.
    pub fn id(&self) -> (id: InodeId)
        ensures
            id == self.id,
    {
        self.id
    }

    /// The attributes.
    pub fn getattr(&self) -> (attr: FileAttr)
        ensures
            attr == self.attr,
    {
        self.attr
    }

    /// The task that a name stands for.
    pub fn find_task<T>(&self, name: &str, current: TaskDescriptor, tasks: &TaskList<T>) -> (r: Result<
        TaskDescriptor,
        KernelError,
    >)
        ensures
            r == (match task_named(
                name@,
                name.spec_bytes(),
                current,
                descriptors(tasks.entries@),
            ) {
                Some(desc) => Ok(desc),
                None => Err(KernelError::Fs(FsError::NotFound)),
            }),
    {
        if same_text(name, "self") {
            Ok(TaskDescriptor::from_tgid_tid(current.tgid(), Tid::from_tgid(current.tgid())))
        } else if same_text(name, "thread-self") {
            Ok(current)
        } else {
            let pid: u32 = match parse_u32(name) {
                Some(pid) => pid,
                None => {
                    return Err(KernelError::Fs(FsError::NotFound));
                },
            };
            match tasks.find_by_tgid(pid) {
                Some(desc) => Ok(desc),
                None => Err(KernelError::Fs(FsError::NotFound)),
            }
        }
    }

    /// Finds the directory of a task. A name that has no inode number gives
    /// nothing.
    pub fn lookup<T>(&self, name: &str, current: TaskDescriptor, tasks: &TaskList<T>) -> (r: Result<
        Option<ProcTaskInode>,
        KernelError,
    >)
        ensures
            r == (match task_named(
                name@,
                name.spec_bytes(),
                current,
                descriptors(tasks.entries@),
            ) {
                None => Err(KernelError::Fs(FsError::NotFound)),
                Some(desc) => match proc_number(seq![name@]) {
                    None => Ok(None),
                    Some(n) => Ok(
                        Some(
                            ProcTaskInode::with_id(
                                desc,
                                InodeId { fs_id: self.id.fs_id, inode_id: n },
                            ),
                        ),
                    ),
                },
            }),
    {
        let desc = match self.find_task(name, current, tasks) {
            Ok(desc) => desc,
            Err(e) => {
                return Err(e);
            },
        };
        match number_of_one(name) {
            None => Ok(None),
            Some(n) => Ok(
                Some(
                    ProcTaskInode::new(desc, InodeId::from_fsid_and_inodeid(self.id.fs_id(), n)),
                ),
            ),
        }
    }

    /// Lists a directory for each live task, named for its thread group, and
    /// one for the asking task. There is no listing where one of the paths
    /// has no inode number.
    pub fn readdir<T>(&self, start_offset: u64, current: TaskDescriptor, tasks: &TaskList<T>) -> (r:
        Option<SimpleDirStream>)
        requires
            tasks.entries@.len() < usize::MAX,
            forall|i: int|
                0 <= i < tasks.entries@.len() && (#[trigger] tasks.entries@[i]).task is Some ==> (
                tasks.entries@[i].desc.tgid.0 + 1) * 100 <= u32::MAX,
        ensures
            r is Some <==> {
                let groups = live_groups(tasks.entries@, tasks.entries@.len());
                &&& group_number(current.tgid.0) is Some
                &&& forall|i: int| 0 <= i < groups.len() ==> group_number(#[trigger] groups[i]) is Some
            },
            r matches Some(stream) ==> {
                &&& stream.next == start_offset
                &&& dirents(stream.entries@) == root_listing(tasks.entries@, current)
            },
    {
        let ghost all = tasks.entries@;
        let ghost entry_of = |tgid: u32| group_entry(tgid, group_number(tgid)->0);
        let mut entries: Vec<Dirent> = Vec::new();
        let mut missing: bool = false;
        let mut i: usize = 0;
        assert(dirents(entries@) =~= live_groups(all, 0).map_values(entry_of));
        while i < tasks.entries.len()
            invariant
                i <= all.len(),
                all == tasks.entries@,
                entries@.len() <= i,
                forall|j: int|
                    0 <= j < all.len() && (#[trigger] all[j]).task is Some ==> (all[j].desc.tgid.0
                        + 1) * 100 <= u32::MAX,
                entry_of == (|tgid: u32| group_entry(tgid, group_number(tgid)->0)),
                missing <==> exists|x: int|
                    0 <= x < live_groups(all, i as nat).len() && group_number(
                        #[trigger] live_groups(all, i as nat)[x],
                    ) is None,
                !missing ==> dirents(entries@) == live_groups(all, i as nat).map_values(entry_of),
            decreases all.len() - i,
        {
            let ghost before = live_groups(all, i as nat);
            let ghost after = live_groups(all, (i + 1) as nat);
            if tasks.entries[i].task.is_some() {
                let tgid: u32 = tasks.entries[i].desc.tgid().value();
                let name = decimal_string(tgid as u64);
                match number_of_one(name.as_str()) {
                    None => {
                        assert(after[after.len() - 1] == tgid);
                        missing = true;
                    },
                    Some(n) => {
                        let ghost old_entries = entries@;
                        assert((all[i as int].desc.tgid.0 + 1) * 100 <= u32::MAX);
                        entries.push(
                            Dirent::new(
                                name,
                                InodeId::from_fsid_and_inodeid(
                                    PROCFS_ID,
                                    ((tgid + 1) * 100) as u64,
                                ),
                                FileType::Directory,
                                n,
                            ),
                        );
                        assert(dirents(entries@) =~= dirents(old_entries).push(entry_of(tgid)));
                        assert(after.map_values(entry_of) =~= before.map_values(entry_of).push(
                            entry_of(tgid),
                        ));
                    },
                }
            }
            proof {
                if exists|x: int|
                    0 <= x < before.len() && group_number(#[trigger] before[x]) is None {
                    let x = choose|x: int|
                        0 <= x < before.len() && group_number(#[trigger] before[x]) is None;
                    assert(after[x] == before[x]);
                }
                if exists|x: int|
                    0 <= x < after.len() && group_number(#[trigger] after[x]) is None {
                    let x = choose|x: int|
                        0 <= x < after.len() && group_number(#[trigger] after[x]) is None;
                    if x < before.len() {
                        assert(before[x] == after[x]);
                    }
                }
            }
            i += 1;
        }
        let own = decimal_string(current.tgid().value() as u64);
        match number_of_one(own.as_str()) {
            None => None,
            Some(n) => {
                if missing {
                    None
                } else {
                    let ghost old_entries = entries@;
                    let offset: u64 = (entries.len() + 1) as u64;
                    entries.push(
                        Dirent::new(
                            "self".to_owned(),
                            InodeId::from_fsid_and_inodeid(PROCFS_ID, n),
                            FileType::Directory,
                            offset,
                        ),
                    );
                    proof {
                        let groups = live_groups(all, all.len());
                        assert(dirents(old_entries).len() == groups.len());
                        assert(dirents(entries@) =~= dirents(old_entries).push(
                            self_entry(n, groups.len()),
                        ));
                    }
                    Some(SimpleDirStream::new(entries, start_offset))
                }
            },
        }
    }
}

} // verus!
