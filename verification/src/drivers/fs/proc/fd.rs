//! The directories of a task's open files.
use crate::drivers::fs::proc::number::{number_of_three, proc_inode, proc_number, PROCFS_ID};
use crate::error::{FsError, KernelError};
use crate::fs::attr::{FileAttr, FileType, InodeId};
use crate::fs::dir::{dirents, Dirent, DirentView, SimpleDirStream};
use crate::process::fd_table::{FdEntry, FileDescriptorTable};
use crate::process::task::TaskDescriptor;
use crate::text::{decimal, decimal_string, parse_i32, signed_value};
use vstd::prelude::*;
use vstd::string::{StrSliceExecFns, StringExecFns, StringSliceAdditionalSpecFns};

verus! {

/// The directory of a task's open files, or of what is known of them.
#[derive(Clone, Copy, Debug, PartialEq, Eq, Structural)]
pub struct ProcFdInode {
    pub id: InodeId,
    pub attr: FileAttr,
    pub desc: TaskDescriptor,
    pub fd_info: bool,
}

/// The path of an open file's entry: the thread, the directory and the
/// descriptor as it is written.
pub open spec fn fd_path(desc: TaskDescriptor, fd_info: bool, fd: Seq<char>) -> Seq<Seq<char>> {
    seq![decimal(desc.tid.0 as nat), fd_dir_name(fd_info), fd]
}

/// The name of the directory.
pub open spec fn fd_dir_name(fd_info: bool) -> Seq<char> {
    if fd_info {
        "fdinfo"@
    } else {
        "fd"@
    }
}

/// The open files among the first `n` descriptors.
pub open spec fn open_fds(table: FileDescriptorTable, n: nat) -> Seq<int>
    decreases n,
{
    if n == 0 {
        Seq::empty()
    } else if table.entries@[n - 1] is Some {
        open_fds(table, (n - 1) as nat).push(n - 1)
    } else {
        open_fds(table, (n - 1) as nat)
    }
}

/// The entry of an open file, whose inode has the number `number`.
pub open spec fn fd_entry(fs_id: u64, fd: int, number: u64) -> DirentView {
    DirentView {
        id: InodeId { fs_id, inode_id: number },
        name: decimal(fd as nat),
        file_type: FileType::File,
        offset: fd as u64,
    }
}

/// The inode number of an open file's entry.
pub open spec fn fd_number(desc: TaskDescriptor, fd_info: bool, fd: int) -> Option<u64> {
    proc_number(fd_path(desc, fd_info, decimal(fd as nat)))
}

/// The file that a name in the directory stands for, in the table of the
/// task that asks.
pub open spec fn fd_named(name: &str, table: FileDescriptorTable) -> Option<int> {
    match signed_value(name.spec_bytes()) {
        Some(fd) => if i32::MIN <= fd <= i32::MAX && table.at(fd) is Some {
            Some(fd)
        } else {
            None
        },
        None => None,
    }
}

impl ProcFdInode {
    /// The directory of a task's open files.
    pub open spec fn with_id(desc: TaskDescriptor, fd_info: bool, id: InodeId) -> ProcFdInode {
        ProcFdInode {
            id,
            attr: FileAttr { file_type: FileType::Directory, mode: 0, size: 0 },
            desc,
            fd_info,
        }
    }

    /// The directory of a task's open files.
    pub fn new(desc: TaskDescriptor, fd_info: bool, inode_id: InodeId) -> (inode: Self)
        ensures
            inode == ProcFdInode::with_id(desc, fd_info, inode_id),
    {
        ProcFdInode {
            id: inode_id,
            attr: FileAttr { file_type: FileType::Directory, ..FileAttr::default() },
            desc,
            fd_info,
        }
    }

    /// The name of the directory.
    pub fn dir_name(&self) -> (name: &str)
        ensures
            name@ == fd_dir_name(self.fd_info),
    {
        if self.fd_info {
            "fdinfo"
        } else {
            "fd"
        }
    }

    /// The inode.
    pub fn id(&self) -> (id: InodeId)
        ensures
            id == self.id,
    {
        self.id
    }

    /// The attributes.
    pub fn getattr(&self) -> (attr: FileAttr)
        ensures
            attr == self.attr,
    {
        self.attr
    }

    /// The descriptor that a name stands for, where it is open in the table
    /// of the task that asks.
    pub fn find_fd(&self, name: &str, current: &FileDescriptorTable) -> (r: Result<i32, KernelError>)
        ensures
            r is Ok <==> fd_named(name, *current) is Some,
            r matches Ok(fd) ==> fd_named(name, *current) == Some(fd as int),
            r matches Err(e) ==> e == KernelError::Fs(FsError::NotFound),
    {
        let fd: i32 = match parse_i32(name) {
            Some(fd) => fd,
            None => {
                return Err(KernelError::Fs(FsError::NotFound));
            },
        };
        if current.get(fd).is_none() {
            return Err(KernelError::Fs(FsError::NotFound));
        }
        Ok(fd)
    }

    /// Finds an open file by its descriptor, in the table of the task that
    /// asks. Nothing is found where the path of the file has no inode number.
    pub fn lookup(&self, name: &str, current: &FileDescriptorTable) -> (r: Result<
        Option<ProcFdFile>,
        KernelError,
    >)
        ensures
            r is Err <==> fd_named(name, *current) is None,
            r matches Err(e) ==> e == KernelError::Fs(FsError::NotFound),
            r matches Ok(file) ==> file == (match proc_number(
                fd_path(self.desc, self.fd_info, name@),
            ) {
                Some(n) => Some(
                    ProcFdFile::with_id(
                        self.desc,
                        self.fd_info,
                        fd_named(name, *current)->0 as i32,
                        proc_inode(n),
                    ),
                ),
                None => None,
            }),
    {
        let fd: i32 = match self.find_fd(name, current) {
            Ok(fd) => fd,
            Err(e) => {
                return Err(e);
            },
        };
        let tid = decimal_string(self.desc.tid().value() as u64);
        match number_of_three(tid.as_str(), self.dir_name(), name) {
            Some(n) => Ok(
                Some(
                    ProcFdFile::new(
                        self.desc,
                        self.fd_info,
                        fd,
                        InodeId::from_fsid_and_inodeid(PROCFS_ID, n),
                    ),
                ),
            ),
            None => Ok(None),
        }
    }

    /// Lists the open files of the task, whose table is `table` unless it has
    /// gone. There is no listing where one of the paths has no inode number.
    pub fn readdir(&self, start_offset: u64, table: Option<&FileDescriptorTable>) -> (r: Result<
        Option<SimpleDirStream>,
        KernelError,
    >)
        requires
            table matches Some(t) ==> t.entries@.len() <= i32::MAX,
        ensures
            r is Err <==> table is None,
            r matches Err(e) ==> e == KernelError::Fs(FsError::NotFound),
            r matches Ok(stream) ==> {
                let fds = open_fds(*table->0, table->0.entries@.len());
                &&& stream is Some <==> forall|i: int|
                    0 <= i < fds.len() ==> fd_number(
                        self.desc,
                        self.fd_info,
                        #[trigger] fds[i],
                    ) is Some
                &&& stream matches Some(s) ==> {
                    &&& s.next == start_offset
                    &&& dirents(s.entries@) == fds.map_values(
                        |fd: int|
                            fd_entry(
                                self.id.fs_id,
                                fd,
                                fd_number(self.desc, self.fd_info, fd)->0,
                            ),
                    )
                }
            },
    {
        let table = match table {
            Some(table) => table,
            None => {
                return Err(KernelError::Fs(FsError::NotFound));
            },
        };
        let ghost entry_of = |fd: int|
            fd_entry(self.id.fs_id, fd, fd_number(self.desc, self.fd_info, fd)->0);
        let tid = decimal_string(self.desc.tid().value() as u64);
        let mut entries: Vec<Dirent> = Vec::new();
        let mut missing: bool = false;
        let mut fd: usize = 0;
        assert(dirents(entries@) =~= open_fds(*table, 0).map_values(entry_of));
        while fd < table.len()
            invariant
                table.entries@.len() <= i32::MAX,
                fd <= table.entries@.len(),
                tid@ == decimal(self.desc.tid.0 as nat),
                entry_of == (|fd: int|
                    fd_entry(self.id.fs_id, fd, fd_number(self.desc, self.fd_info, fd)->0)),
                missing <==> exists|i: int|
                    0 <= i < open_fds(*table, fd as nat).len() && fd_number(
                        self.desc,
                        self.fd_info,
                        #[trigger] open_fds(*table, fd as nat)[i],
                    ) is None,
                !missing ==> dirents(entries@) == open_fds(*table, fd as nat).map_values(entry_of),
            decreases table.entries@.len() - fd,
        {
            let ghost before = open_fds(*table, fd as nat);
            let ghost after = open_fds(*table, (fd + 1) as nat);
            if table.get(fd as i32).is_some() {
                let fd_str = decimal_string(fd as u64);
                match number_of_three(tid.as_str(), self.dir_name(), fd_str.as_str()) {
                    None => {
                        assert(after[after.len() - 1] == fd);
                        missing = true;
                    },
                    Some(n) => {
                        let ghost old_entries = entries@;
                        entries.push(
                            Dirent::new(
                                fd_str,
                                InodeId::from_fsid_and_inodeid(self.id.fs_id(), n),
                                FileType::File,
                                fd as u64,
                            ),
                        );
                        assert(dirents(entries@) =~= dirents(old_entries).push(entry_of(fd as int)));
                        assert(after.map_values(entry_of) =~= before.map_values(entry_of).push(
                            entry_of(fd as int),
                        ));
                    },
                }
            }
            proof {
                if exists|i: int|
                    0 <= i < before.len() && fd_number(
                        self.desc,
                        self.fd_info,
                        #[trigger] before[i],
                    ) is None {
                    let i = choose|i: int|
                        0 <= i < before.len() && fd_number(
                            self.desc,
                            self.fd_info,
                            #[trigger] before[i],
                        ) is None;
                    assert(after[i] == before[i]);
                }
                if exists|i: int|
                    0 <= i < after.len() && fd_number(
                        self.desc,
                        self.fd_info,
                        #[trigger] after[i],
                    ) is None {
                    let i = choose|i: int|
                        0 <= i < after.len() && fd_number(
                            self.desc,
                            self.fd_info,
                            #[trigger] after[i],
                        ) is None;
                    if i < before.len() {
                        assert(before[i] == after[i]);
                    }
                }
            }
            fd += 1;
        }
        if missing {
            Ok(None)
        } else {
            Ok(Some(SimpleDirStream::new(entries, start_offset)))
        }
    }
}

/// An open file of a task, or what is known of it.
#[derive(Clone, Copy, Debug, PartialEq, Eq, Structural)]
pub struct ProcFdFile {
    pub id: InodeId,
    pub attr: FileAttr,
    pub desc: TaskDescriptor,
    pub fd_info: bool,
    pub fd: i32,
}

/// What is known of an open file.
pub open spec fn fd_info_text(entry: FdEntry) -> Seq<char> {
    "pos: "@ + decimal(entry.pos as nat) + "\nflags: "@ + decimal(entry.flags as nat)
}

impl ProcFdFile {
    /// An open file of a task.
    pub open spec fn with_id(desc: TaskDescriptor, fd_info: bool, fd: i32, id: InodeId) -> ProcFdFile {
        ProcFdFile {
            id,
            attr: FileAttr { file_type: FileType::File, mode: 0, size: 0 },
            desc,
            fd_info,
            fd,
        }
    }

    /// An open file of a task.
    pub fn new(desc: TaskDescriptor, fd_info: bool, fd: i32, inode_id: InodeId) -> (file: Self)
        ensures
            file == ProcFdFile::with_id(desc, fd_info, fd, inode_id),
    {
        ProcFdFile {
            id: inode_id,
            attr: FileAttr { file_type: FileType::File, ..FileAttr::default() },
            desc,
            fd_info,
            fd,
        }
    }

    /// The inode.
    pub fn id(&self) -> (id: InodeId)
        ensures
            id == self.id,
    {
        self.id
    }

    /// The attributes.
    pub fn getattr(&self) -> (attr: FileAttr)
        ensures
            attr == self.attr,
    {
        self.attr
    }

    /// Reads what is known of the file, from the table of the task unless it
    /// has gone. The file itself cannot be read through its entry.
    pub fn read(&self, table: Option<&FileDescriptorTable>) -> (r: Result<Vec<u8>, KernelError>)
        ensures
            r matches Ok(bytes) ==> {
                &&& self.fd_info
                &&& table is Some
                &&& table->0.at(self.fd as int) is Some
                &&& bytes@ == vstd::utf8::encode_utf8(
                    fd_info_text(table->0.at(self.fd as int)->0),
                )
            },
            r matches Err(e) ==> {
                let gone = table is None || table->0.at(self.fd as int) is None;
                &&& gone ==> e == KernelError::Fs(FsError::NotFound)
                &&& !gone ==> !self.fd_info && e == KernelError::NotSupported
            },
    {
        let table = match table {
            Some(table) => table,
            None => {
                return Err(KernelError::Fs(FsError::NotFound));
            },
        };
        let entry = match table.get(self.fd) {
            Some(entry) => entry,
            None => {
                return Err(KernelError::Fs(FsError::NotFound));
            },
        };
        let mut info = "pos: ".to_owned();
        let pos = decimal_string(entry.pos);
        info.append(pos.as_str());
        info.append("\nflags: ");
        let flags = decimal_string(entry.flags as u64);
        info.append(flags.as_str());
        if self.fd_info {
            Ok(info.as_str().as_bytes_vec())
        } else {
            Err(KernelError::NotSupported)
        }
    }
}

} // verus!
