//! What the directories of the process file system list and find.
use crate::drivers::fs::inode_id::fx_digest;
use crate::drivers::fs::proc::fd::{open_fds, ProcFdFile, ProcFdInode};
use crate::drivers::fs::proc::laws::lemma_names_differ;
use crate::drivers::fs::proc::number::{number_of_one, number_of_three, number_of_two};
use crate::drivers::fs::proc::root::{live_groups, ProcRootInode};
use crate::drivers::fs::proc::snapshot::{TaskSnapshot, ThreadEntry};
use crate::drivers::fs::proc::task::{ProcTaskChild, ProcTaskInode};
use crate::drivers::fs::proc::task_file::{ProcTaskFileInode, TaskFileType};
use crate::drivers::fs::proc::thread_dir::{live_threads, ProcTaskDirInode};
use crate::error::{FsError, KernelError};
use crate::fs::attr::{FileAttr, InodeId};
use crate::fs::dir::{dirents, SimpleDirStream};
use crate::process::fd_table::{FdEntry, FileDescriptorTable};
use crate::process::task::{TaskDescriptor, Tid};
use crate::process::task_list::{TaskEntry, TaskList};
use crate::text::{decimal, law_decimal_reads_back, parse_i32, parse_u32};
use crate::text_laws::{lemma_decimal_reads, lemma_same_number, reads_as};
use vstd::prelude::*;
use vstd::utf8::encode_utf8;

verus! {

/// The name of a file in a task's directory and which file that is.
pub open spec fn names_file(name: Seq<char>, file_type: TaskFileType) -> bool {
    match file_type {
        TaskFileType::Status => name == "status"@,
        TaskFileType::Comm => name == "comm"@,
        TaskFileType::State => name == "state"@,
        TaskFileType::Stat => name == "stat"@,
        TaskFileType::Cwd => name == "cwd"@,
    }
}

/// What is found in a task's directory is what the name says, of that task:
/// one of five files, the open files, what is known of them, or the threads,
/// which only the first thread of a group has. Nothing else is found.
pub proof fn law_names_in_a_task_directory(
    dir: &ProcTaskInode,
    name: &str,
    id: InodeId,
    r: Result<ProcTaskChild, KernelError>,
)
    requires
        call_ensures(ProcTaskInode::child, (dir, name, id), r),
    ensures
        r matches Ok(ProcTaskChild::File(file)) ==> {
            &&& names_file(name@, file.file_type)
            &&& file.tid == dir.desc.tid
            &&& file.id == id
            &&& file.attr.mode == 0o444
            &&& file.attr.file_type is Symlink <==> file.file_type is Cwd
            &&& !(file.attr.file_type is Directory)
        },
        r matches Ok(ProcTaskChild::Fd(fds)) ==> {
            &&& name@ == (if fds.fd_info {
                "fdinfo"@
            } else {
                "fd"@
            })
            &&& fds.desc == dir.desc
            &&& fds.id == id
            &&& fds.attr.file_type is Directory
        },
        r matches Ok(ProcTaskChild::Threads(threads)) ==> {
            &&& name@ == "task"@
            &&& dir.desc.tid.0 == dir.desc.tgid.0
            &&& threads.tgid == dir.desc.tgid
            &&& threads.id == id
            &&& threads.attr.file_type is Directory
        },
        r matches Err(e) ==> e == KernelError::Fs(FsError::NotFound),
        r is Err <==> !{
            ||| exists|file_type: TaskFileType| names_file(name@, file_type)
            ||| name@ == "fd"@
            ||| name@ == "fdinfo"@
            ||| name@ == "task"@ && dir.desc.tid.0 == dir.desc.tgid.0
        },
{
    lemma_names_differ();
    if name@ == "status"@ {
        assert(names_file(name@, TaskFileType::Status));
    } else if name@ == "comm"@ {
        assert(names_file(name@, TaskFileType::Comm));
    } else if name@ == "state"@ {
        assert(names_file(name@, TaskFileType::State));
    } else if name@ == "stat"@ {
        assert(names_file(name@, TaskFileType::Stat));
    } else if name@ == "cwd"@ {
        assert(names_file(name@, TaskFileType::Cwd));
    }
}

/// A listing of a task's directory agrees with what is found there: each entry
/// is found under its name, with the inode and of the kind that the listing
/// shows. Entries are numbered from one on, their names all differ, and there
/// is one more for the first thread of a group.
pub proof fn law_task_directory_lists_what_it_finds(
    dir: &ProcTaskInode,
    start: u64,
    stream: SimpleDirStream,
    i: int,
    j: int,
    name: &str,
    r: Result<Option<ProcTaskChild>, KernelError>,
)
    requires
        call_ensures(ProcTaskInode::readdir, (dir, start), Some(stream)),
        0 <= i < stream.entries@.len(),
        0 <= j < stream.entries@.len(),
        name@ == stream.entries@[i].name@,
        call_ensures(ProcTaskInode::lookup, (dir, name), r),
    ensures
        stream.next == start,
        stream.entries@.len() == (if dir.desc.tid.0 == dir.desc.tgid.0 {
            8int
        } else {
            7
        }),
        stream.entries@[i].offset == i + 1,
        stream.entries@[i].name@ == stream.entries@[j].name@ ==> i == j,
        r matches Ok(Some(child)) && child.inode() == stream.entries@[i].id && child.kind()
            == stream.entries@[i].file_type,
{
    lemma_names_differ();
    let a = stream.entries@[i]@;
    let b = stream.entries@[j]@;
    assert(a.name == name@);
}

/// Inode numbers are digests of the file system's name and the names on the
/// path, in order, where these are not zero.
pub proof fn law_numbers_are_digests_of_the_path(
    a: &str,
    b: &str,
    c: &str,
    one: Option<u64>,
    two: Option<u64>,
    three: Option<u64>,
)
    requires
        call_ensures(number_of_one, (a,), one),
        call_ensures(number_of_two, (a, b), two),
        call_ensures(number_of_three, (a, b, c), three),
    ensures
        ({
            let tag = encode_utf8("procfs"@);
            let x = encode_utf8(a@);
            let y = encode_utf8(b@);
            let z = encode_utf8(c@);
            let first = fx_digest(seq![tag, x], usize::BITS);
            let second = fx_digest(seq![tag, x, y], usize::BITS);
            let third = fx_digest(seq![tag, x, y, z], usize::BITS);
            &&& one is None <==> first == 0
            &&& two is None <==> second == 0
            &&& three is None <==> third == 0
            &&& one matches Some(n) ==> n == first
            &&& two matches Some(n) ==> n == second
            &&& three matches Some(n) ==> n == third
        }),
{
    let tag = "procfs"@;
    let f = |s: Seq<char>| encode_utf8(s);
    assert(seq![encode_utf8(tag)] + seq![a@].map_values(f) =~= seq![encode_utf8(tag), encode_utf8(
        a@,
    )]);
    assert(seq![encode_utf8(tag)] + seq![a@, b@].map_values(f) =~= seq![
        encode_utf8(tag),
        encode_utf8(a@),
        encode_utf8(b@),
    ]);
    assert(seq![encode_utf8(tag)] + seq![a@, b@, c@].map_values(f) =~= seq![
        encode_utf8(tag),
        encode_utf8(a@),
        encode_utf8(b@),
        encode_utf8(c@),
    ]);
}

/// In the root, `self` is the asking task's thread group by its first thread,
/// `thread-self` the asking task, and a number the first listed task of the
/// thread group with that number. Nothing else is found.
pub proof fn law_names_in_the_root<T>(
    root: &ProcRootInode,
    name: &str,
    current: TaskDescriptor,
    tasks: &TaskList<T>,
    number: Option<u32>,
    listed: Option<TaskDescriptor>,
    r: Result<TaskDescriptor, KernelError>,
)
    requires
        call_ensures(parse_u32, (name,), number),
        number matches Some(n) ==> call_ensures(TaskList::<T>::find_by_tgid, (tasks, n), listed),
        number is None ==> listed is None,
        call_ensures(ProcRootInode::find_task::<T>, (root, name, current, tasks), r),
    ensures
        name@ == "self"@ ==> (r matches Ok(desc) && desc.tid.0 == current.tgid.0 && desc.tgid
            == current.tgid),
        name@ == "thread-self"@ ==> r == Ok::<TaskDescriptor, KernelError>(current),
        name@ != "self"@ && name@ != "thread-self"@ ==> match listed {
            Some(desc) => r == Ok::<TaskDescriptor, KernelError>(desc),
            None => r == Err::<TaskDescriptor, KernelError>(KernelError::Fs(FsError::NotFound)),
        },
{
    reveal_strlit("self");
    reveal_strlit("thread-self");
    assert("self"@.len() == 4 && "thread-self"@.len() == 11);
}

/// The tasks that are live.
pub open spec fn live<T>(entries: Seq<TaskEntry<T>>) -> Seq<TaskEntry<T>> {
    entries.filter(|entry: TaskEntry<T>| entry.task is Some)
}

/// The thread groups of the live tasks are listed in the order of the tasks.
proof fn lemma_live_groups<T>(entries: Seq<TaskEntry<T>>, n: nat)
    requires
        n <= entries.len(),
    ensures
        live_groups(entries, n) == live(entries.take(n as int)).map_values(
            |entry: TaskEntry<T>| entry.desc.tgid.0,
        ),
    decreases n,
{
    reveal(Seq::filter);
    let group = |entry: TaskEntry<T>| entry.desc.tgid.0;
    if n > 0 {
        lemma_live_groups(entries, (n - 1) as nat);
        assert(entries.take(n as int).drop_last() =~= entries.take(n - 1));
        assert(live_groups(entries, n) =~= live(entries.take(n as int)).map_values(group));
    } else {
        assert(live_groups(entries, n) =~= live(entries.take(n as int)).map_values(group));
    }
}

/// The root lists a directory for each live task, in the order of the tasks,
/// each named by the number of its thread group, and then one for the asking
/// task.
pub proof fn law_root_lists_the_live_tasks<T>(
    root: &ProcRootInode,
    start: u64,
    current: TaskDescriptor,
    tasks: &TaskList<T>,
    stream: SimpleDirStream,
    i: int,
)
    requires
        call_ensures(ProcRootInode::readdir::<T>, (root, start, current, tasks), Some(stream)),
        0 <= i < stream.entries@.len(),
    ensures
        stream.next == start,
        stream.entries@.len() == live(tasks.entries@).len() + 1,
        stream.entries@[i].file_type is Directory,
        i < live(tasks.entries@).len() ==> reads_as(
            stream.entries@[i].name@,
            live(tasks.entries@)[i].desc.tgid.0 as int,
        ),
        i == live(tasks.entries@).len() ==> stream.entries@[i].name@ == "self"@,
{
    let entries = tasks.entries@;
    lemma_live_groups(entries, entries.len());
    assert(entries.take(entries.len() as int) =~= entries);
    assert(dirents(stream.entries@).len() == stream.entries@.len());
    assert(dirents(stream.entries@)[i] == stream.entries@[i]@);
    if i < live(entries).len() {
        lemma_decimal_reads(live(entries)[i].desc.tgid.0 as nat);
    }
}

/// In the directory of a group's threads a number is the thread of that number
/// in the group, which is found while it is listed and live.
pub proof fn law_threads_are_found_by_number(
    dir: &ProcTaskDirInode,
    name: &str,
    tasks: &TaskList<TaskSnapshot>,
    number: Option<u32>,
    desc: TaskDescriptor,
    task: Option<&TaskSnapshot>,
    r: Result<Option<ProcTaskInode>, KernelError>,
)
    requires
        tasks.wf(),
        call_ensures(parse_u32, (name,), number),
        number matches Some(n) ==> desc.tid.0 == n && desc.tgid == dir.tgid,
        call_ensures(TaskList::<TaskSnapshot>::find_task_by_descriptor, (tasks, &desc), task),
        call_ensures(ProcTaskDirInode::lookup, (dir, name, tasks), r),
    ensures
        number is None ==> r == Err::<Option<ProcTaskInode>, _>(KernelError::Fs(FsError::NotFound)),
        r matches Ok(Some(found)) ==> number is Some && task is Some && found.desc == desc,
        r matches Err(e) ==> e == KernelError::Fs(FsError::NotFound) && (number is None || task is None),
        number is Some && task is None ==> !(r matches Ok(Some(_))),
{
}

/// The places of the live threads are those of threads that live, in order.
proof fn lemma_live_threads(threads: Seq<ThreadEntry>, from: int, to: int, at: int)
    requires
        0 <= from,
        to <= threads.len(),
    ensures
        live_threads(threads, from, to).contains(at) <==> from <= at < to && threads[at].alive,
        forall|x: int, y: int|
            0 <= x < y < live_threads(threads, from, to).len() ==> (#[trigger] live_threads(
                threads,
                from,
                to,
            )[x]) < (#[trigger] live_threads(threads, from, to)[y]),
        forall|x: int|
            0 <= x < live_threads(threads, from, to).len() ==> from <= (#[trigger] live_threads(
                threads,
                from,
                to,
            )[x]) < to && threads[live_threads(threads, from, to)[x]].alive,
    decreases to - from,
{
    if from < to {
        lemma_live_threads(threads, from, to - 1, at);
        let before = live_threads(threads, from, to - 1);
        let all = live_threads(threads, from, to);
        if threads[to - 1].alive {
            assert(all == before.push(to - 1));
            if before.contains(at) {
                let x = choose|x: int| 0 <= x < before.len() && before[x] == at;
                assert(all[x] == at);
            }
            if at == to - 1 {
                assert(all[before.len() as int] == at);
            }
            if all.contains(at) && at != to - 1 {
                let x = choose|x: int| 0 <= x < all.len() && all[x] == at;
                assert(before[x] == at);
            }
        }
    }
}

/// The directory of a group's threads lists those that are live, from the one
/// at the start on, in their order: each named by its number and followed by
/// the next place, and none that is not live.
pub proof fn law_live_threads_are_listed(
    dir: &ProcTaskDirInode,
    start: u64,
    tasks: &TaskList<TaskSnapshot>,
    first: TaskDescriptor,
    task: &TaskSnapshot,
    stream: SimpleDirStream,
    at: int,
)
    requires
        tasks.wf(),
        first.tgid == dir.tgid,
        first.tid.0 == dir.tgid.0,
        call_ensures(
            TaskList::<TaskSnapshot>::find_task_by_descriptor,
            (tasks, &first),
            Some(task),
        ),
        call_ensures(
            ProcTaskDirInode::readdir,
            (dir, start, tasks),
            Ok::<Option<SimpleDirStream>, KernelError>(Some(stream)),
        ),
    ensures
        stream.next == start,
        start <= at < task.threads@.len() && task.threads@[at].alive <==> exists|x: int|
            0 <= x < stream.entries@.len() && (#[trigger] stream.entries@[x]).offset == at + 1,
        forall|x: int|
            0 <= x < stream.entries@.len() ==> {
                let entry = #[trigger] stream.entries@[x];
                &&& entry.file_type is Directory
                &&& start < entry.offset <= task.threads@.len()
                &&& reads_as(entry.name@, task.threads@[entry.offset - 1].tid as int)
            },
        forall|x: int, y: int|
            0 <= x < y < stream.entries@.len() ==> (#[trigger] stream.entries@[x]).offset < (
            #[trigger] stream.entries@[y]).offset,
{
    let threads = task.threads@;
    let places = live_threads(threads, start as int, threads.len() as int);
    lemma_live_threads(threads, start as int, threads.len() as int, at);
    assert(threads.len() == task.threads.len());
    assert(dirents(stream.entries@).len() == stream.entries@.len());
    assert forall|x: int| 0 <= x < stream.entries@.len() implies {
        let entry = #[trigger] stream.entries@[x];
        &&& entry.file_type is Directory
        &&& entry.offset == places[x] + 1
        &&& start <= places[x] < threads.len()
        &&& reads_as(entry.name@, threads[entry.offset - 1].tid as int)
    } by {
        assert(dirents(stream.entries@)[x] == stream.entries@[x]@);
        lemma_decimal_reads(threads[places[x]].tid as nat);
    }
    if places.contains(at) {
        let x = choose|x: int| 0 <= x < places.len() && places[x] == at;
        assert(stream.entries@[x].offset == at + 1);
    }
    if exists|x: int|
        0 <= x < stream.entries@.len() && (#[trigger] stream.entries@[x]).offset == at + 1 {
        let x = choose|x: int|
            0 <= x < stream.entries@.len() && (#[trigger] stream.entries@[x]).offset == at + 1;
        assert(places[x] == at);
    }
}

/// A thread that is listed is found under the name it is listed by, with the
/// inode that the listing shows, where it is found at all.
pub proof fn law_listed_thread_has_its_inode(
    dir: &ProcTaskDirInode,
    start: u64,
    tasks: &TaskList<TaskSnapshot>,
    stream: SimpleDirStream,
    x: int,
    name: &str,
    found: ProcTaskInode,
)
    requires
        tasks.wf(),
        call_ensures(
            ProcTaskDirInode::readdir,
            (dir, start, tasks),
            Ok::<Option<SimpleDirStream>, KernelError>(Some(stream)),
        ),
        0 <= x < stream.entries@.len(),
        name@ == stream.entries@[x].name@,
        call_ensures(
            ProcTaskDirInode::lookup,
            (dir, name, tasks),
            Ok::<Option<ProcTaskInode>, KernelError>(Some(found)),
        ),
    ensures
        found.id == stream.entries@[x].id,
        found.attr.file_type == stream.entries@[x].file_type,
        reads_as(name@, found.desc.tid.0 as int),
        found.desc.tgid == dir.tgid,
{
    assert(dirents(stream.entries@).len() == stream.entries@.len());
    assert(dirents(stream.entries@)[x] == stream.entries@[x]@);
    let first = TaskDescriptor { tid: Tid(dir.tgid.0), tgid: dir.tgid };
    let threads = tasks.task_at(first)->0.threads@;
    let places = live_threads(threads, start as int, threads.len() as int);
    let tid = threads[places[x]].tid;
    assert(name@ == decimal(tid as nat));
    law_decimal_reads_back(tid as nat);
    lemma_decimal_reads(tid as nat);
}

/// The open files are those that are open, in order.
proof fn lemma_open_fds(table: FileDescriptorTable, n: nat, fd: int)
    requires
        n <= table.entries@.len(),
    ensures
        open_fds(table, n).contains(fd) <==> 0 <= fd < n && table.entries@[fd] is Some,
        forall|x: int, y: int|
            0 <= x < y < open_fds(table, n).len() ==> (#[trigger] open_fds(table, n)[x]) < (
            #[trigger] open_fds(table, n)[y]),
        forall|x: int|
            0 <= x < open_fds(table, n).len() ==> 0 <= (#[trigger] open_fds(table, n)[x]) < n,
    decreases n,
{
    if n > 0 {
        lemma_open_fds(table, (n - 1) as nat, fd);
        let before = open_fds(table, (n - 1) as nat);
        let all = open_fds(table, n);
        if table.entries@[n - 1] is Some {
            assert(all == before.push(n - 1));
            if before.contains(fd) {
                let x = choose|x: int| 0 <= x < before.len() && before[x] == fd;
                assert(all[x] == fd);
            }
            if fd == n - 1 {
                assert(all[before.len() as int] == fd);
            }
            if all.contains(fd) && fd != n - 1 {
                let x = choose|x: int| 0 <= x < all.len() && all[x] == fd;
                assert(before[x] == fd);
            }
        }
    }
}

/// The directory of a task's open files lists each file that is open, once and
/// in the order of the descriptors, named by its descriptor, and nothing else.
pub proof fn law_open_files_are_listed(
    dir: &ProcFdInode,
    start: u64,
    table: &FileDescriptorTable,
    stream: SimpleDirStream,
    fd: i32,
    entry: Option<FdEntry>,
)
    requires
        table.entries@.len() <= 0x7fff_ffff,
        call_ensures(FileDescriptorTable::get, (table, fd), entry),
        call_ensures(
            ProcFdInode::readdir,
            (dir, start, Some(table)),
            Ok::<Option<SimpleDirStream>, KernelError>(Some(stream)),
        ),
    ensures
        stream.next == start,
        entry is Some <==> exists|x: int|
            0 <= x < stream.entries@.len() && (#[trigger] stream.entries@[x]).offset == fd,
        forall|x: int|
            0 <= x < stream.entries@.len() ==> {
                let e = #[trigger] stream.entries@[x];
                &&& e.file_type is File
                &&& reads_as(e.name@, e.offset as int)
            },
        forall|x: int, y: int|
            0 <= x < y < stream.entries@.len() ==> (#[trigger] stream.entries@[x]).offset < (
            #[trigger] stream.entries@[y]).offset,
{
    let fds = open_fds(*table, table.entries@.len());
    lemma_open_fds(*table, table.entries@.len(), fd as int);
    assert(dirents(stream.entries@).len() == stream.entries@.len());
    assert forall|x: int| 0 <= x < stream.entries@.len() implies {
        let e = #[trigger] stream.entries@[x];
        &&& e.file_type is File
        &&& e.offset == fds[x]
        &&& reads_as(e.name@, e.offset as int)
    } by {
        assert(dirents(stream.entries@)[x] == stream.entries@[x]@);
        lemma_decimal_reads(fds[x] as nat);
    }
    if fds.contains(fd as int) {
        let x = choose|x: int| 0 <= x < fds.len() && fds[x] == fd;
        assert(stream.entries@[x].offset == fd);
    }
    if exists|x: int|
        0 <= x < stream.entries@.len() && (#[trigger] stream.entries@[x]).offset == fd {
        let x = choose|x: int|
            0 <= x < stream.entries@.len() && (#[trigger] stream.entries@[x]).offset == fd;
        assert(fds[x] == fd);
    }
}

/// A name finds the open file of the descriptor that it reads as, where that
/// is open in the table of the task that asks; what is found is in the
/// directory that was asked.
pub proof fn law_open_files_are_found_by_descriptor(
    dir: &ProcFdInode,
    name: &str,
    table: &FileDescriptorTable,
    number: Option<i32>,
    entry: Option<FdEntry>,
    r: Result<Option<ProcFdFile>, KernelError>,
)
    requires
        call_ensures(parse_i32, (name,), number),
        number matches Some(fd) ==> call_ensures(FileDescriptorTable::get, (table, fd), entry),
        number is None ==> entry is None,
        call_ensures(ProcFdInode::lookup, (dir, name, table), r),
    ensures
        r is Err <==> entry is None,
        r matches Err(e) ==> e == KernelError::Fs(FsError::NotFound),
        r matches Ok(Some(file)) ==> Some(file.fd) == number && file.desc == dir.desc
            && file.fd_info == dir.fd_info && file.attr.file_type is File,
{
}

/// An open file that is listed is found under the name it is listed by, with
/// the inode that the listing shows where both are in one file system.
pub proof fn law_listed_file_has_its_inode(
    dir: &ProcFdInode,
    start: u64,
    table: &FileDescriptorTable,
    stream: SimpleDirStream,
    x: int,
    name: &str,
    file: ProcFdFile,
)
    requires
        table.entries@.len() <= 0x7fff_ffff,
        call_ensures(
            ProcFdInode::readdir,
            (dir, start, Some(table)),
            Ok::<Option<SimpleDirStream>, KernelError>(Some(stream)),
        ),
        0 <= x < stream.entries@.len(),
        name@ == stream.entries@[x].name@,
        call_ensures(
            ProcFdInode::lookup,
            (dir, name, table),
            Ok::<Option<ProcFdFile>, KernelError>(Some(file)),
        ),
    ensures
        file.id.inode_id == stream.entries@[x].id.inode_id,
        file.id.fs_id == 2,
        stream.entries@[x].id.fs_id == dir.id.fs_id,
        file.fd == stream.entries@[x].offset,
{
    assert(dirents(stream.entries@).len() == stream.entries@.len());
    assert(dirents(stream.entries@)[x] == stream.entries@[x]@);
    let fds = open_fds(*table, table.entries@.len());
    lemma_open_fds(*table, table.entries@.len(), 0);
    let fd = fds[x];
    assert(name@ == decimal(fd as nat));
    law_decimal_reads_back(fd as nat);
}

/// The directory of what is known of the open files is told by its name from
/// that of the files.
pub proof fn law_fd_directories_have_names(dir: &ProcFdInode, name: &str)
    requires
        call_ensures(ProcFdInode::dir_name, (dir,), name),
    ensures
        name@ == (if dir.fd_info {
            "fdinfo"@
        } else {
            "fd"@
        }),
{
}

/// The root is a directory that everybody may list and nobody may change.
pub proof fn law_root_is_a_directory(root: ProcRootInode, id: InodeId, attr: FileAttr)
    requires
        call_ensures(ProcRootInode::new, (), root),
        call_ensures(ProcRootInode::id, (&root,), id),
        call_ensures(ProcRootInode::getattr, (&root,), attr),
    ensures
        id.fs_id == 2,
        id.inode_id == 0,
        attr.file_type is Directory,
        attr.mode == 0o555,
{
}

/// A task that is found in the root keeps the file system, and its inode is
/// numbered from the name it was asked for by.
pub proof fn law_found_task_has_its_inode<T>(
    root: &ProcRootInode,
    name: &str,
    current: TaskDescriptor,
    tasks: &TaskList<T>,
    named: Result<TaskDescriptor, KernelError>,
    number: Option<u64>,
    r: Result<Option<ProcTaskInode>, KernelError>,
)
    requires
        call_ensures(ProcRootInode::find_task::<T>, (root, name, current, tasks), named),
        call_ensures(number_of_one, (name,), number),
        call_ensures(ProcRootInode::lookup::<T>, (root, name, current, tasks), r),
    ensures
        named is Err ==> r is Err,
        named matches Ok(desc) ==> match number {
            Some(n) => r matches Ok(Some(dir)) && dir.desc == desc && dir.id.inode_id == n
                && dir.id.fs_id == root.id.fs_id && dir.attr.file_type is Directory
                && dir.attr.mode == 0o555,
            None => r == Ok::<Option<ProcTaskInode>, KernelError>(None),
        },
{
}

/// What is found in a task's directory has an inode that is numbered from the
/// thread's number and the name.
pub proof fn law_task_children_are_numbered(
    dir: &ProcTaskInode,
    name: &str,
    thread: &str,
    number: Option<u64>,
    r: Result<Option<ProcTaskChild>, KernelError>,
)
    requires
        reads_as(thread@, dir.desc.tid.0 as int),
        call_ensures(number_of_two, (thread, name), number),
        call_ensures(ProcTaskInode::lookup, (dir, name), r),
    ensures
        number is None ==> r == Ok::<Option<ProcTaskChild>, KernelError>(None),
        r matches Ok(Some(child)) ==> number is Some && child.inode().inode_id == number->0
            && child.inode().fs_id == 2,
{
    lemma_decimal_reads(dir.desc.tid.0 as nat);
    lemma_same_number(thread@, decimal(dir.desc.tid.0 as nat), dir.desc.tid.0 as int);
}

/// A thread that is found has an inode that is numbered from the thread
/// group's number and its own.
pub proof fn law_threads_are_numbered(
    dir: &ProcTaskDirInode,
    name: &str,
    tasks: &TaskList<TaskSnapshot>,
    group: &str,
    thread: &str,
    number: Option<u64>,
    found: ProcTaskInode,
)
    requires
        tasks.wf(),
        call_ensures(
            ProcTaskDirInode::lookup,
            (dir, name, tasks),
            Ok::<Option<ProcTaskInode>, KernelError>(Some(found)),
        ),
        reads_as(group@, dir.tgid.0 as int),
        reads_as(thread@, found.desc.tid.0 as int),
        call_ensures(number_of_two, (group, thread), number),
    ensures
        number == Some(found.id.inode_id),
        found.id.fs_id == 2,
{
    lemma_decimal_reads(dir.tgid.0 as nat);
    lemma_decimal_reads(found.desc.tid.0 as nat);
    lemma_same_number(group@, decimal(dir.tgid.0 as nat), dir.tgid.0 as int);
    lemma_same_number(thread@, decimal(found.desc.tid.0 as nat), found.desc.tid.0 as int);
}

/// An open file that is found has an inode that is numbered from the thread's
/// number, the directory and the name.
pub proof fn law_open_files_are_numbered(
    dir: &ProcFdInode,
    name: &str,
    table: &FileDescriptorTable,
    thread: &str,
    dir_name: &str,
    number: Option<u64>,
    file: ProcFdFile,
)
    requires
        call_ensures(
            ProcFdInode::lookup,
            (dir, name, table),
            Ok::<Option<ProcFdFile>, KernelError>(Some(file)),
        ),
        reads_as(thread@, dir.desc.tid.0 as int),
        dir_name@ == (if dir.fd_info {
            "fdinfo"@
        } else {
            "fd"@
        }),
        call_ensures(number_of_three, (thread, dir_name, name), number),
    ensures
        number == Some(file.id.inode_id),
        file.id.fs_id == 2,
{
    lemma_decimal_reads(dir.desc.tid.0 as nat);
    lemma_same_number(thread@, decimal(dir.desc.tid.0 as nat), dir.desc.tid.0 as int);
}

/// The entries of the root have their inodes and places: that of a thread
/// group is numbered from the group, that of the asking task from its group's
/// number as a path, and its place is after all others.
pub proof fn law_root_entries_are_numbered<T>(
    root: &ProcRootInode,
    start: u64,
    current: TaskDescriptor,
    tasks: &TaskList<T>,
    stream: SimpleDirStream,
    i: int,
    name: &str,
    number: Option<u64>,
)
    requires
        forall|j: int|
            0 <= j < live(tasks.entries@).len() ==> (#[trigger] live(
                tasks.entries@,
            )[j]).desc.tgid.0 <= 0x28f_5c27,
        tasks.entries@.len() < usize::MAX,
        call_ensures(ProcRootInode::readdir::<T>, (root, start, current, tasks), Some(stream)),
        0 <= i < stream.entries@.len(),
        reads_as(
            name@,
            if i < live(tasks.entries@).len() {
                live(tasks.entries@)[i].desc.tgid.0 as int
            } else {
                current.tgid.0 as int
            },
        ),
        call_ensures(number_of_one, (name,), number),
    ensures
        stream.entries@[i].id.fs_id == 2,
        i < live(tasks.entries@).len() ==> {
            &&& stream.entries@[i].id.inode_id == (live(tasks.entries@)[i].desc.tgid.0 + 1) * 100
            &&& Some(stream.entries@[i].offset) == number
        },
        i == live(tasks.entries@).len() ==> {
            &&& Some(stream.entries@[i].id.inode_id) == number
            &&& stream.entries@[i].offset == i + 1
        },
{
    let entries = tasks.entries@;
    lemma_live_groups(entries, entries.len());
    assert(entries.take(entries.len() as int) =~= entries);
    assert(dirents(stream.entries@).len() == stream.entries@.len());
    assert(dirents(stream.entries@)[i] == stream.entries@[i]@);
    assert(stream.entries@.len() == stream.entries.len());
    let tgid = if i < live(entries).len() {
        live(entries)[i].desc.tgid.0
    } else {
        current.tgid.0
    };
    lemma_decimal_reads(tgid as nat);
    lemma_same_number(name@, decimal(tgid as nat), tgid as int);
}

/// The files and directories tell the inode and the attributes that they have.
pub proof fn law_inodes_tell_what_they_are(
    file: &ProcTaskFileInode,
    file_id: InodeId,
    file_attr: FileAttr,
    dir: &ProcTaskInode,
    dir_id: InodeId,
    dir_attr: FileAttr,
    fds: &ProcFdInode,
    fds_id: InodeId,
    fds_attr: FileAttr,
    fd: &ProcFdFile,
    fd_id: InodeId,
    fd_attr: FileAttr,
    threads: &ProcTaskDirInode,
    threads_id: InodeId,
    threads_attr: FileAttr,
)
    requires
        call_ensures(ProcTaskFileInode::id, (file,), file_id),
        call_ensures(ProcTaskFileInode::getattr, (file,), file_attr),
        call_ensures(ProcTaskInode::id, (dir,), dir_id),
        call_ensures(ProcTaskInode::getattr, (dir,), dir_attr),
        call_ensures(ProcFdInode::id, (fds,), fds_id),
        call_ensures(ProcFdInode::getattr, (fds,), fds_attr),
        call_ensures(ProcFdFile::id, (fd,), fd_id),
        call_ensures(ProcFdFile::getattr, (fd,), fd_attr),
        call_ensures(ProcTaskDirInode::id, (threads,), threads_id),
        call_ensures(ProcTaskDirInode::getattr, (threads,), threads_attr),
    ensures
        file_id == file.id && file_attr == file.attr,
        dir_id == dir.id && dir_attr == dir.attr,
        fds_id == fds.id && fds_attr == fds.attr,
        fd_id == fd.id && fd_attr == fd.attr,
        threads_id == threads.id && threads_attr == threads.attr,
{
}

/// A name stands for the descriptor that it reads as, where that is open.
pub proof fn law_names_of_open_files(
    dir: &ProcFdInode,
    name: &str,
    table: &FileDescriptorTable,
    number: Option<i32>,
    entry: Option<FdEntry>,
    r: Result<i32, KernelError>,
)
    requires
        call_ensures(parse_i32, (name,), number),
        number matches Some(fd) ==> call_ensures(FileDescriptorTable::get, (table, fd), entry),
        number is None ==> entry is None,
        call_ensures(ProcFdInode::find_fd, (dir, name, table), r),
    ensures
        entry is None ==> r == Err::<i32, _>(KernelError::Fs(FsError::NotFound)),
        entry is Some ==> r is Ok && Some(r->Ok_0) == number,
{
}

/// What is made for a task tells of that task: the files can be read by
/// everybody and changed by nobody, the working directory is a link, and what
/// has entries is a directory.
pub proof fn law_new_inodes(
    desc: TaskDescriptor,
    file_type: TaskFileType,
    fd_info: bool,
    number: i32,
    id: InodeId,
    file: ProcTaskFileInode,
    dir: ProcTaskInode,
    threads: ProcTaskDirInode,
    fds: ProcFdInode,
    fd: ProcFdFile,
)
    requires
        call_ensures(ProcTaskFileInode::new, (desc.tid, file_type, id), file),
        call_ensures(ProcTaskInode::new, (desc, id), dir),
        call_ensures(ProcTaskDirInode::new, (desc.tgid, id), threads),
        call_ensures(ProcFdInode::new, (desc, fd_info, id), fds),
        call_ensures(ProcFdFile::new, (desc, fd_info, number, id), fd),
    ensures
        file.tid == desc.tid && file.file_type == file_type && file.attr.mode == 0o444,
        file.attr.file_type is Symlink <==> file_type is Cwd,
        file.attr.file_type is File <==> !(file_type is Cwd),
        dir.desc == desc && dir.attr.file_type is Directory && dir.attr.mode == 0o555,
        threads.tgid == desc.tgid && threads.attr.file_type is Directory,
        fds.desc == desc && fds.fd_info == fd_info && fds.attr.file_type is Directory,
        fd.desc == desc && fd.fd_info == fd_info && fd.fd == number && fd.attr.file_type is File,
        file.id == id && dir.id == id && threads.id == id && fds.id == id && fd.id == id,
{
}

} // verus!
