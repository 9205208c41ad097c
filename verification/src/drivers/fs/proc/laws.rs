//! What holds of the process file system as a whole.
use crate::drivers::fs::proc::fd::{fd_named, fd_number, fd_path, open_fds};
use crate::drivers::fs::proc::number::{proc_inode, proc_number};
use crate::drivers::fs::proc::root::{live_groups, task_named};
use crate::drivers::fs::proc::task::{
    child_count, child_entry, child_named, child_number, is_leader, listed_child,
};
use crate::drivers::fs::proc::task_file::TaskFileType;
use crate::fs::attr::InodeId;
use crate::process::fd_table::FileDescriptorTable;
use crate::process::task::TaskDescriptor;
use crate::process::task_list::{descriptors, lemma_first_of_group, TaskEntry};
use crate::text::{decimal, law_decimal_reads_back};
use vstd::prelude::*;
use vstd::string::StringSliceAdditionalSpecFns;

verus! {

/// The names in a task's directory are all different.
pub proof fn lemma_names_differ()
    ensures
        "status"@ != "comm"@,
        "status"@ != "state"@,
        "status"@ != "stat"@,
        "status"@ != "cwd"@,
        "status"@ != "fd"@,
        "status"@ != "fdinfo"@,
        "status"@ != "task"@,
        "comm"@ != "state"@,
        "comm"@ != "stat"@,
        "comm"@ != "cwd"@,
        "comm"@ != "fd"@,
        "comm"@ != "fdinfo"@,
        "comm"@ != "task"@,
        "state"@ != "stat"@,
        "state"@ != "cwd"@,
        "state"@ != "fd"@,
        "state"@ != "fdinfo"@,
        "state"@ != "task"@,
        "stat"@ != "cwd"@,
        "stat"@ != "fd"@,
        "stat"@ != "fdinfo"@,
        "stat"@ != "task"@,
        "cwd"@ != "fd"@,
        "cwd"@ != "fdinfo"@,
        "cwd"@ != "task"@,
        "fd"@ != "fdinfo"@,
        "fd"@ != "task"@,
        "fdinfo"@ != "task"@,
{
    reveal_strlit("status");
    reveal_strlit("comm");
    reveal_strlit("state");
    reveal_strlit("stat");
    reveal_strlit("cwd");
    reveal_strlit("fd");
    reveal_strlit("fdinfo");
    reveal_strlit("task");
    assert("comm"@[0] == 'c' && "stat"@[0] == 's' && "task"@[0] == 't');
    assert("status"@[0] == 's' && "fdinfo"@[0] == 'f');
    assert("status"@.len() == 6 && "fdinfo"@.len() == 6 && "state"@.len() == 5);
    assert("comm"@.len() == 4 && "stat"@.len() == 4 && "task"@.len() == 4);
    assert("cwd"@.len() == 3 && "fd"@.len() == 2);
}

/// Whatever is listed in a task's directory is found under its name, with the
/// inode and the kind of file that the listing shows.
pub proof fn law_listed_children_are_found(desc: TaskDescriptor, i: int, number: u64)
    requires
        0 <= i < child_count(desc),
        child_number(desc, listed_child(i).0) == Some(number),
    ensures
        child_named(desc, child_entry(i, number).name, proc_inode(number)) matches Ok(child) && {
            &&& child.inode() == child_entry(i, number).id
            &&& child.kind() == child_entry(i, number).file_type
        },
{
    lemma_names_differ();
}

/// Whatever is found in a task's directory is listed there.
pub proof fn law_found_children_are_listed(desc: TaskDescriptor, name: Seq<char>, id: InodeId)
    requires
        child_named(desc, name, id) is Ok,
    ensures
        exists|i: int| 0 <= i < child_count(desc) && (#[trigger] listed_child(i)).0 == name,
{
    lemma_names_differ();
    assert(listed_child(0).0 == "status"@);
    assert(listed_child(1).0 == "comm"@);
    assert(listed_child(2).0 == "state"@);
    assert(listed_child(3).0 == "cwd"@);
    assert(listed_child(4).0 == "stat"@);
    assert(listed_child(5).0 == "fd"@);
    assert(listed_child(6).0 == "fdinfo"@);
    if is_leader(desc) {
        assert(listed_child(7).0 == "task"@);
    }
}

/// Each file in a task's directory is the one with its name.
pub proof fn law_file_types_have_names(file_type: TaskFileType)
    ensures
        TaskFileType::with_name(file_type.file_name()) == Ok::<TaskFileType, ()>(file_type),
{
    lemma_names_differ();
}

/// A thread group that is live is among those listed.
proof fn lemma_live_group<T>(entries: Seq<TaskEntry<T>>, n: nat, x: int)
    requires
        n <= entries.len(),
        0 <= x < live_groups(entries, n).len(),
    ensures
        exists|i: int|
            0 <= i < n && (#[trigger] entries[i]).task is Some && entries[i].desc.tgid.0
                == live_groups(entries, n)[x],
    decreases n,
{
    if n > 0 {
        let before = live_groups(entries, (n - 1) as nat);
        if entries[n - 1].task is Some && x == before.len() {
            assert(entries[n - 1].desc.tgid.0 == live_groups(entries, n)[x]);
        } else {
            lemma_live_group(entries, (n - 1) as nat, x);
            let i = choose|i: int|
                0 <= i < n - 1 && (#[trigger] entries[i]).task is Some && entries[i].desc.tgid.0
                    == before[x];
            assert(entries[i].task is Some);
        }
    }
}

/// Every thread group that the root lists is found under the name it is
/// listed by.
pub proof fn law_listed_groups_are_found<T>(
    entries: Seq<TaskEntry<T>>,
    current: TaskDescriptor,
    x: int,
    name: &str,
)
    requires
        0 <= x < live_groups(entries, entries.len()).len(),
        name@ == decimal(live_groups(entries, entries.len())[x] as nat),
    ensures
        task_named(name@, name.spec_bytes(), current, descriptors(entries)) matches Some(desc)
            && desc.tgid.0 == live_groups(entries, entries.len())[x],
{
    let tgid = live_groups(entries, entries.len())[x];
    law_decimal_reads_back(tgid as nat);
    lemma_live_group(entries, entries.len(), x);
    let i = choose|i: int|
        0 <= i < entries.len() && (#[trigger] entries[i]).task is Some && entries[i].desc.tgid.0
            == tgid;
    assert(descriptors(entries)[i] == entries[i].desc);
    lemma_first_of_group(descriptors(entries), i);
    lemma_decimal_is_no_word(tgid as nat);
}

/// A number is neither of the words that stand for the asking task.
proof fn lemma_decimal_is_no_word(n: nat)
    ensures
        decimal(n) != "self"@,
        decimal(n) != "thread-self"@,
    decreases n,
{
    reveal_strlit("self");
    reveal_strlit("thread-self");
    assert("self"@[0] == 's' && "thread-self"@[0] == 't');
    lemma_first_digit(n);
}

/// The first character of a number is a digit.
proof fn lemma_first_digit(n: nat)
    ensures
        decimal(n).len() > 0,
        decimal(n)[0] as int <= 57,
    decreases n,
{
    if n >= 10 {
        lemma_first_digit(n / 10);
    }
}

/// Every open file of a task is found under its descriptor by the task
/// itself, with the inode that the listing shows.
pub proof fn law_listed_files_are_found(
    desc: TaskDescriptor,
    fd_info: bool,
    table: FileDescriptorTable,
    x: int,
    name: &str,
)
    requires
        table.entries@.len() <= i32::MAX,
        0 <= x < open_fds(table, table.entries@.len()).len(),
        name@ == decimal(open_fds(table, table.entries@.len())[x] as nat),
    ensures
        fd_named(name, table) == Some(open_fds(table, table.entries@.len())[x]),
        proc_number(fd_path(desc, fd_info, name@)) == fd_number(
            desc,
            fd_info,
            open_fds(table, table.entries@.len())[x],
        ),
{
    lemma_open_fd(table, table.entries@.len(), x);
    let fd = open_fds(table, table.entries@.len())[x];
    law_decimal_reads_back(fd as nat);
}

/// What is listed as an open file is one.
proof fn lemma_open_fd(table: FileDescriptorTable, n: nat, x: int)
    requires
        n <= table.entries@.len(),
        0 <= x < open_fds(table, n).len(),
    ensures
        0 <= open_fds(table, n)[x] < n,
        table.at(open_fds(table, n)[x]) is Some,
    decreases n,
{
    if n > 0 {
        let before = open_fds(table, (n - 1) as nat);
        if x < before.len() {
            lemma_open_fd(table, (n - 1) as nat, x);
        }
    }
}

} // verus!
