//! The directory of a thread group's threads.
use crate::drivers::fs::proc::number::{number_of_two, proc_inode, proc_number, PROCFS_ID};
use crate::drivers::fs::proc::snapshot::{TaskSnapshot, ThreadEntry};
use crate::drivers::fs::proc::task::ProcTaskInode;
use crate::error::{FsError, KernelError};
use crate::fs::attr::{FileAttr, FileType, InodeId};
use crate::fs::dir::{dirents, Dirent, DirentView, SimpleDirStream};
use crate::process::task::{TaskDescriptor, Tid};
use crate::process::task_list::TaskList;
use crate::process::thread_group::id::Tgid;
use crate::text::{decimal, decimal_string, parse_u32, unsigned_value};
use vstd::prelude::*;
use vstd::string::StringSliceAdditionalSpecFns;

verus! {

/// The directory of a thread group's threads.
#[derive(Clone, Copy, Debug, PartialEq, Eq, Structural)]
pub struct ProcTaskDirInode {
    pub id: InodeId,
    pub attr: FileAttr,
    pub tgid: Tgid,
}

/// The inode number of a thread's directory.
pub open spec fn thread_number(tgid: Tgid, tid: u32) -> Option<u64> {
    proc_number(seq![decimal(tgid.0 as nat), decimal(tid as nat)])
}

/// The entry of the thread at `index`, whose inode has the number `number`.
pub open spec fn thread_entry(tid: u32, index: int, number: u64) -> DirentView {
    DirentView {
        id: proc_inode(number),
        name: decimal(tid as nat),
        file_type: FileType::Directory,
        offset: (index + 1) as u64,
    }
}

/// Where in the list the live threads from `from` up to `to` stand.
pub open spec fn live_threads(threads: Seq<ThreadEntry>, from: int, to: int) -> Seq<int>
    decreases to - from,
{
    if to <= from {
        Seq::empty()
    } else if threads[to - 1].alive {
        live_threads(threads, from, to - 1).push(to - 1)
    } else {
        live_threads(threads, from, to - 1)
    }
}

/// The first thread of the thread group.
pub open spec fn leader(tgid: Tgid) -> TaskDescriptor {
    TaskDescriptor { tid: Tid(tgid.0), tgid }
}

impl ProcTaskDirInode {
    /// The directory of a thread group's threads.
    pub open spec fn with_id(tgid: Tgid, id: InodeId) -> ProcTaskDirInode {
        ProcTaskDirInode {
            id,
            attr: FileAttr { file_type: FileType::Directory, mode: 0, size: 0 },
            tgid,
        }
    }

    /// The directory of a thread group's threads.
    pub fn new(tgid: Tgid, inode_id: InodeId) -> (inode: Self)
        ensures
            inode == ProcTaskDirInode::with_id(tgid, inode_id),
    {
        ProcTaskDirInode {
            id: inode_id,
            attr: FileAttr { file_type: FileType::Directory, ..FileAttr::default() },
            tgid,
        }
    }

    /// The inode.
    pub fn id(&self) -> (id: InodeId)
        ensures
            id == self.id,
    {
        self.id
    }

    /// The attributes.
    pub fn getattr(&self) -> (attr: FileAttr)
        ensures
            attr == self.attr,
    {
        self.attr
    }

    /// The thread that a name stands for.
    pub open spec fn thread_named(&self, name: &str) -> Option<TaskDescriptor> {
        match unsigned_value(name.spec_bytes()) {
            Some(n) => if n <= u32::MAX {
                Some(TaskDescriptor { tid: Tid(n as u32), tgid: self.tgid })
            } else {
                None
            },
            None => None,
        }
    }

    /// Finds the directory of a live thread by the thread's number. A number
    /// whose path has no inode number gives nothing.
    pub fn lookup(&self, name: &str, tasks: &TaskList<TaskSnapshot>) -> (r: Result<
        Option<ProcTaskInode>,
        KernelError,
    >)
        requires
            tasks.wf(),
        ensures
            r == (match self.thread_named(name) {
                None => Err(KernelError::Fs(FsError::NotFound)),
                Some(desc) => match thread_number(self.tgid, desc.tid.0) {
                    None => Ok(None),
                    Some(n) => if tasks.task_at(desc) is Some {
                        Ok(Some(ProcTaskInode::with_id(desc, proc_inode(n))))
                    } else {
                        Err(KernelError::Fs(FsError::NotFound))
                    },
                },
            }),
    {
        let tid = match parse_u32(name) {
            Some(tid) => Tid(tid),
            None => {
                return Err(KernelError::Fs(FsError::NotFound));
            },
        };
        let tgid_str = decimal_string(self.tgid.value() as u64);
        let tid_str = decimal_string(tid.value() as u64);
        let number: u64 = match number_of_two(tgid_str.as_str(), tid_str.as_str()) {
            Some(number) => number,
            None => {
                return Ok(None);
            },
        };
        let inode_id = InodeId::from_fsid_and_inodeid(PROCFS_ID, number);
        let desc = TaskDescriptor::from_tgid_tid(self.tgid, tid);
        if tasks.find_task_by_descriptor(&desc).is_none() {
            return Err(KernelError::Fs(FsError::NotFound));
        }
        Ok(Some(ProcTaskInode::new(desc, inode_id)))
    }

    /// Lists the live threads from the one at `start_offset` on, as the first
    /// thread of the thread group knows them. There is no listing where one
    /// of the paths has no inode number.
    pub fn readdir(&self, start_offset: u64, tasks: &TaskList<TaskSnapshot>) -> (r: Result<
        Option<SimpleDirStream>,
        KernelError,
    >)
        requires
            tasks.wf(),
        ensures
            r is Err <==> tasks.task_at(leader(self.tgid)) is None,
            r matches Err(e) ==> e == KernelError::Fs(FsError::NotFound),
            r matches Ok(stream) ==> {
                let threads = tasks.task_at(leader(self.tgid))->0.threads@;
                let live = live_threads(threads, start_offset as int, threads.len() as int);
                &&& stream is Some <==> forall|i: int|
                    0 <= i < live.len() ==> thread_number(
                        self.tgid,
                        threads[#[trigger] live[i]].tid,
                    ) is Some
                &&& stream matches Some(s) ==> {
                    &&& s.next == start_offset
                    &&& dirents(s.entries@) == live.map_values(
                        |at: int|
                            thread_entry(
                                threads[at].tid,
                                at,
                                thread_number(self.tgid, threads[at].tid)->0,
                            ),
                    )
                }
            },
    {
        let desc = TaskDescriptor::from_tgid_tid(self.tgid, Tid::from_tgid(self.tgid));
        let task = match tasks.find_task_by_descriptor(&desc) {
            Some(task) => task,
            None => {
                return Err(KernelError::Fs(FsError::NotFound));
            },
        };
        let ghost threads = task.threads@;
        let ghost from = start_offset as int;
        let ghost entry_of = |at: int|
            thread_entry(threads[at].tid, at, thread_number(self.tgid, threads[at].tid)->0);
        let tgid_str = decimal_string(self.tgid.value() as u64);
        let mut entries: Vec<Dirent> = Vec::new();
        let mut missing: bool = false;
        if start_offset >= task.threads.len() as u64 {
            assert(dirents(entries@) =~= live_threads(threads, from, threads.len() as int).map_values(
                entry_of,
            ));
            return Ok(Some(SimpleDirStream::new(entries, start_offset)));
        }
        let mut i: usize = start_offset as usize;
        assert(dirents(entries@) =~= live_threads(threads, from, i as int).map_values(entry_of));
        while i < task.threads.len()
            invariant
                from <= i <= threads.len(),
                0 <= from,
                threads == task.threads@,
                tgid_str@ == decimal(self.tgid.0 as nat),
                entry_of == (|at: int|
                    thread_entry(threads[at].tid, at, thread_number(self.tgid, threads[at].tid)->0)),
                missing <==> exists|x: int|
                    0 <= x < live_threads(threads, from, i as int).len() && thread_number(
                        self.tgid,
                        threads[#[trigger] live_threads(threads, from, i as int)[x]].tid,
                    ) is None,
                !missing ==> dirents(entries@) == live_threads(threads, from, i as int).map_values(
                    entry_of,
                ),
            decreases threads.len() - i,
        {
            let ghost before = live_threads(threads, from, i as int);
            let ghost after = live_threads(threads, from, i + 1);
            let thread = task.threads[i];
            if thread.alive {
                let tid_str = decimal_string(thread.tid as u64);
                match number_of_two(tgid_str.as_str(), tid_str.as_str()) {
                    None => {
                        assert(after[after.len() - 1] == i);
                        missing = true;
                    },
                    Some(n) => {
                        let ghost old_entries = entries@;
                        entries.push(
                            Dirent::new(
                                tid_str,
                                InodeId::from_fsid_and_inodeid(PROCFS_ID, n),
                                FileType::Directory,
                                (i as u64) + 1,
                            ),
                        );
                        assert(dirents(entries@) =~= dirents(old_entries).push(entry_of(i as int)));
                        assert(after.map_values(entry_of) =~= before.map_values(entry_of).push(
                            entry_of(i as int),
                        ));
                    },
                }
            }
            proof {
                if exists|x: int|
                    0 <= x < before.len() && thread_number(
                        self.tgid,
                        threads[#[trigger] before[x]].tid,
                    ) is None {
                    let x = choose|x: int|
                        0 <= x < before.len() && thread_number(
                            self.tgid,
                            threads[#[trigger] before[x]].tid,
                        ) is None;
                    assert(after[x] == before[x]);
                }
                if exists|x: int|
                    0 <= x < after.len() && thread_number(
                        self.tgid,
                        threads[#[trigger] after[x]].tid,
                    ) is None {
                    let x = choose|x: int|
                        0 <= x < after.len() && thread_number(
                            self.tgid,
                            threads[#[trigger] after[x]].tid,
                        ) is None;
                    if x < before.len() {
                        assert(before[x] == after[x]);
                    }
                }
            }
            i += 1;
        }
        if missing {
            Ok(None)
        } else {
            Ok(Some(SimpleDirStream::new(entries, start_offset)))
        }
    }
}

} // verus!
