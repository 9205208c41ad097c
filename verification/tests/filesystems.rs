//! The file systems that the kernel makes up.
use moss_kernel::drivers::fs::cgroup::{cgroupfs, CgroupFsDriver, CGROUPFS_ID};
use moss_kernel::drivers::fs::inode_id::{checked_inode_id, get_inode_id};
use moss_kernel::drivers::fs::proc::fd::{ProcFdFile, ProcFdInode};
use moss_kernel::drivers::fs::proc::number::PROCFS_ID;
use moss_kernel::drivers::fs::proc::root::ProcRootInode;
use moss_kernel::drivers::fs::proc::snapshot::{TaskSnapshot, ThreadEntry};
use moss_kernel::drivers::fs::proc::task::{ProcTaskChild, ProcTaskInode};
use moss_kernel::drivers::fs::proc::task_file::{ProcTaskFileInode, TaskFileType};
use moss_kernel::drivers::fs::proc::thread_dir::ProcTaskDirInode;
use moss_kernel::error::{FsError, KernelError};
use moss_kernel::fs::attr::{FileType, InodeId};
use moss_kernel::fs::dir::SimpleDirStream;
use moss_kernel::process::fd_table::{FdEntry, FileDescriptorTable};
use moss_kernel::process::task::{TaskDescriptor, Tid};
use moss_kernel::process::task_list::TaskList;
use moss_kernel::process::thread_group::id::Tgid;
use rustc_hash::FxHasher;
use std::hash::Hasher;
use std::sync::Arc;

const NOT_FOUND: KernelError = KernelError::Fs(FsError::NotFound);

fn desc(tgid: u32, tid: u32) -> TaskDescriptor {
    TaskDescriptor::from_tgid_tid(Tgid(tgid), Tid(tid))
}

fn hash(tag: &str, segments: &[&str]) -> u64 {
    let mut hasher = FxHasher::default();
    hasher.write(tag.as_bytes());
    for segment in segments {
        hasher.write(segment.as_bytes());
    }
    hasher.finish()
}

fn inode(n: u64) -> InodeId {
    InodeId::from_fsid_and_inodeid(PROCFS_ID, n)
}

fn names(stream: &SimpleDirStream) -> Vec<&str> {
    stream.entries.iter().map(|e| e.name.as_str()).collect()
}

fn table() -> FileDescriptorTable {
    FileDescriptorTable {
        entries: vec![
            Some(FdEntry { pos: 0, flags: 2 }),
            None,
            Some(FdEntry {
                pos: 12345,
                flags: 0o2000,
            }),
        ],
    }
}

fn snapshot(tgid: u32, tid: u32) -> TaskSnapshot {
    TaskSnapshot {
        tid,
        name: "sh".to_string(),
        state: "R (running)".to_string(),
        tgid,
        sid: 70,
        utime: 1000,
        stime: 20,
        priority: -5,
        fd_table: table(),
        threads: vec![
            ThreadEntry {
                tid: 7,
                alive: true,
            },
            ThreadEntry {
                tid: 8,
                alive: false,
            },
            ThreadEntry {
                tid: 9,
                alive: true,
            },
        ],
        cwd: "/home".to_string(),
    }
}

fn tasks() -> TaskList<TaskSnapshot> {
    let mut list = TaskList::new();
    list.insert(desc(7, 9), Some(snapshot(7, 9)));
    list.insert(desc(7, 7), Some(snapshot(7, 7)));
    list.insert(desc(7, 8), None);
    list.insert(desc(1, 1), Some(snapshot(1, 1)));
    list
}

#[test]
fn inode_numbers_are_digests_of_paths() {
    assert_eq!(get_inode_id("procfs", &["7", "stat"]), hash("procfs", &["7", "stat"]));
    assert_eq!(
        checked_inode_id("procfs", &["7", "stat"]),
        Some(hash("procfs", &["7", "stat"]))
    );
    assert_ne!(get_inode_id("procfs", &["a"]), get_inode_id("cgroupfs", &["a"]));
    assert_ne!(
        get_inode_id("procfs", &["ab", "c"]),
        get_inode_id("procfs", &["a", "bc"])
    );
    assert_eq!(get_inode_id("procfs", &[]), get_inode_id("procfs", &[]));
}

#[test]
fn the_control_group_file_system_is_made_once() {
    let mut instance = None;
    let first = cgroupfs(&mut instance).unwrap();
    let second = cgroupfs(&mut instance).unwrap();
    assert!(Arc::ptr_eq(&first, &second));
    assert_eq!(first.id(), CGROUPFS_ID);
    let root = first.root_inode();
    assert_eq!(root.id().fs_id(), CGROUPFS_ID);
    assert_eq!(root.id().inode_id, hash("cgroupfs", &[]));
    assert_eq!(root.getattr().file_type, FileType::Directory);
    assert_eq!(root.lookup("cpu"), Err(NOT_FOUND));
    let mut listing = root.readdir(0);
    assert!(listing.next_entry().is_none());
}

#[test]
fn the_control_group_driver_takes_no_device() {
    let driver = CgroupFsDriver::new();
    assert_eq!(driver.name(), "cgroupfs");
    let mut instance = None;
    assert!(matches!(
        driver.construct(0, true, &mut instance),
        Err(KernelError::InvalidValue)
    ));
    assert!(instance.is_none());
    let fs = driver.construct(0, false, &mut instance).ok().unwrap().unwrap();
    assert!(Arc::ptr_eq(&fs, instance.as_ref().unwrap()));
}

#[test]
fn the_root_finds_tasks_by_name() {
    let root = ProcRootInode::new();
    assert_eq!(root.id(), inode(0));
    assert_eq!(root.getattr().mode, 0o555);
    let list = tasks();
    let current = desc(7, 9);
    let found = |name: &str| root.lookup(name, current, &list).map(|i| i.unwrap());
    assert_eq!(found("self").unwrap().desc, desc(7, 7));
    assert_eq!(found("thread-self").unwrap().desc, desc(7, 9));
    assert_eq!(found("7").unwrap().desc, desc(7, 7));
    assert_eq!(found("+007").unwrap().desc, desc(7, 7));
    assert_eq!(found("1").unwrap().desc, desc(1, 1));
    assert_eq!(found("1").unwrap().id(), inode(hash("procfs", &["1"])));
    assert_eq!(found("1").unwrap().getattr().mode, 0o555);
    for name in ["9", "", "+", "-1", "seven", "4294967303", "7 "] {
        assert_eq!(found(name), Err(NOT_FOUND));
    }
}

#[test]
fn the_root_lists_live_tasks() {
    let root = ProcRootInode::new();
    let stream = root.readdir(0, desc(7, 9), &tasks()).unwrap();
    assert_eq!(names(&stream), vec!["1", "7", "7", "self"]);
    assert_eq!(stream.entries[0].id, inode(200));
    assert_eq!(stream.entries[1].id, inode(800));
    assert_eq!(stream.entries[1].offset, hash("procfs", &["7"]));
    assert_eq!(stream.entries[3].id, inode(hash("procfs", &["7"])));
    assert_eq!(stream.entries[3].offset, 4);
    for entry in &stream.entries {
        assert_eq!(entry.file_type, FileType::Directory);
    }
}

#[test]
fn listings_are_read_entry_by_entry() {
    let root = ProcRootInode::new();
    let mut stream = root.readdir(2, desc(7, 9), &tasks()).unwrap();
    assert_eq!(stream.next_entry().unwrap().name, "7");
    assert_eq!(stream.next_entry().unwrap().name, "self");
    assert!(stream.next_entry().is_none());
    assert!(stream.next_entry().is_none());
    let mut past = root.readdir(u64::MAX, desc(7, 9), &tasks()).unwrap();
    assert!(past.next_entry().is_none());
}

#[test]
fn a_task_directory_lists_what_it_finds() {
    for (d, count) in [(desc(7, 7), 8), (desc(7, 9), 7)] {
        let dir = ProcTaskInode::new(d, inode(1));
        let stream = dir.readdir(0).unwrap();
        assert_eq!(stream.entries.len(), count);
        for (i, entry) in stream.entries.iter().enumerate() {
            assert_eq!(entry.offset, i as u64 + 1);
            let tid = d.tid().value().to_string();
            assert_eq!(entry.id, inode(hash("procfs", &[&tid, &entry.name])));
            let (id, file_type) = match dir.lookup(&entry.name).unwrap().unwrap() {
                ProcTaskChild::Fd(c) => (c.id(), c.getattr().file_type),
                ProcTaskChild::Threads(c) => (c.id(), c.getattr().file_type),
                ProcTaskChild::File(c) => (c.id(), c.getattr().file_type),
            };
            assert_eq!(id, entry.id);
            assert_eq!(file_type, entry.file_type);
        }
    }
    let dir = ProcTaskInode::new(desc(7, 7), inode(1));
    assert_eq!(
        names(&dir.readdir(0).unwrap()),
        vec!["status", "comm", "state", "cwd", "stat", "fd", "fdinfo", "task"]
    );
    assert_eq!(dir.lookup("maps"), Err(NOT_FOUND));
    assert_eq!(
        ProcTaskInode::new(desc(7, 9), inode(1)).lookup("task"),
        Err(NOT_FOUND)
    );
}

#[test]
fn task_files_are_told_apart_by_name() {
    assert_eq!(TaskFileType::try_from("status"), Ok(TaskFileType::Status));
    assert_eq!(TaskFileType::try_from("comm"), Ok(TaskFileType::Comm));
    assert_eq!(TaskFileType::try_from("state"), Ok(TaskFileType::State));
    assert_eq!(TaskFileType::try_from("stat"), Ok(TaskFileType::Stat));
    assert_eq!(TaskFileType::try_from("cwd"), Ok(TaskFileType::Cwd));
    assert_eq!(TaskFileType::try_from("stats"), Err(()));
    assert_eq!(TaskFileType::try_from(""), Err(()));
}

fn read(tid: u32, file_type: TaskFileType) -> String {
    let file = ProcTaskFileInode::new(Tid(tid), file_type, inode(1));
    String::from_utf8(file.read(&tasks())).unwrap()
}

#[test]
fn task_files_describe_the_task() {
    assert_eq!(
        read(9, TaskFileType::Status),
        "Name:\tsh\nState:\tR (running)\nTgid:\t7\nFDSize:\t3\nPid:\t9\nThreads:\t3\n"
    );
    assert_eq!(read(9, TaskFileType::Comm), "sh\n");
    assert_eq!(read(9, TaskFileType::State), "R (running)\n");
    assert_eq!(read(9, TaskFileType::Cwd), "/home");
    let zeros = |n: usize| "0 ".repeat(n);
    let stat = format!(
        "7 (sh) R (running) {}70 {}1000 20 {}-5 {}\n",
        zeros(2),
        zeros(7),
        zeros(2),
        zeros(34)
    );
    assert_eq!(read(9, TaskFileType::Stat), stat);
}

#[test]
fn files_of_tasks_that_have_gone_say_so() {
    for tid in [8, 55] {
        for file_type in [
            TaskFileType::Status,
            TaskFileType::Comm,
            TaskFileType::State,
            TaskFileType::Stat,
            TaskFileType::Cwd,
        ] {
            assert_eq!(read(tid, file_type), "State:\tGone\n");
        }
    }
}

#[test]
fn only_the_working_directory_is_a_link() {
    let link = ProcTaskFileInode::new(Tid(9), TaskFileType::Cwd, inode(1));
    assert_eq!(link.getattr().file_type, FileType::Symlink);
    assert_eq!(link.getattr().mode, 0o444);
    assert_eq!(link.readlink(&tasks()), Ok("/home".to_string()));
    let gone = ProcTaskFileInode::new(Tid(8), TaskFileType::Cwd, inode(1));
    assert_eq!(gone.readlink(&tasks()), Err(NOT_FOUND));
    let file = ProcTaskFileInode::new(Tid(9), TaskFileType::Stat, inode(1));
    assert_eq!(file.getattr().file_type, FileType::File);
    assert_eq!(file.readlink(&tasks()), Err(KernelError::NotSupported));
}

#[test]
fn open_files_are_listed_and_found() {
    let dir = ProcFdInode::new(desc(7, 9), true, inode(1));
    let stream = dir.readdir(0, Some(&table())).ok().unwrap().unwrap();
    assert_eq!(names(&stream), vec!["0", "2"]);
    for entry in &stream.entries {
        assert_eq!(entry.id, inode(hash("procfs", &["9", "fdinfo", &entry.name])));
        assert_eq!(entry.file_type, FileType::File);
        assert_eq!(entry.offset.to_string(), entry.name);
        let file = dir.lookup(&entry.name, &table()).unwrap().unwrap();
        assert_eq!(file.id(), entry.id);
        assert_eq!(file.fd as u64, entry.offset);
    }
    for name in ["1", "3", "-1", "x", "", "99999999999"] {
        assert_eq!(dir.lookup(name, &table()), Err(NOT_FOUND));
    }
    assert!(matches!(dir.readdir(0, None), Err(NOT_FOUND)));
    let plain = ProcFdInode::new(desc(7, 9), false, inode(1));
    assert_eq!(plain.dir_name(), "fd");
    assert_eq!(
        plain.lookup("2", &table()).unwrap().unwrap().id(),
        inode(hash("procfs", &["9", "fd", "2"]))
    );
}

#[test]
fn open_files_are_described() {
    let read = |fd_info, fd, table: Option<&FileDescriptorTable>| {
        ProcFdFile::new(desc(7, 9), fd_info, fd, inode(1)).read(table)
    };
    assert_eq!(
        read(true, 2, Some(&table())),
        Ok(b"pos: 12345\nflags: 1024".to_vec())
    );
    assert_eq!(read(true, 1, Some(&table())), Err(NOT_FOUND));
    assert_eq!(read(true, 2, None), Err(NOT_FOUND));
    assert_eq!(read(false, 2, Some(&table())), Err(KernelError::NotSupported));
    assert_eq!(read(false, 1, Some(&table())), Err(NOT_FOUND));
}

#[test]
fn threads_are_listed_and_found() {
    let dir = ProcTaskDirInode::new(Tgid(7), inode(1));
    let stream = dir.readdir(0, &tasks()).ok().unwrap().unwrap();
    assert_eq!(names(&stream), vec!["7", "9"]);
    assert_eq!(stream.entries[0].offset, 1);
    assert_eq!(stream.entries[1].offset, 3);
    for entry in &stream.entries {
        assert_eq!(entry.id, inode(hash("procfs", &["7", &entry.name])));
        let found = dir.lookup(&entry.name, &tasks()).unwrap().unwrap();
        assert_eq!(found.id(), entry.id);
        assert_eq!(found.desc.tid().value().to_string(), entry.name);
        assert_eq!(found.desc.tgid(), Tgid(7));
    }
    for name in ["8", "1", "x", ""] {
        assert_eq!(dir.lookup(name, &tasks()), Err(NOT_FOUND));
    }
    let later = dir.readdir(1, &tasks()).ok().unwrap().unwrap();
    assert_eq!(names(&later), vec!["9"]);
    let none = ProcTaskDirInode::new(Tgid(12), inode(1));
    assert!(matches!(none.readdir(0, &tasks()), Err(NOT_FOUND)));
}
