//! What the files of the process file system tell of a task.
use crate::drivers::fs::proc::fd::ProcFdFile;
use crate::drivers::fs::proc::snapshot::TaskSnapshot;
use crate::drivers::fs::proc::task_file::{
    field, render_file, zero_fields, ProcTaskFileInode, TaskFileType,
};
use crate::error::{FsError, KernelError};
use crate::process::fd_table::{FdEntry, FileDescriptorTable};
use crate::process::task::TaskDescriptor;
use crate::process::task_list::TaskList;
use crate::text::{decimal, signed_decimal};
use crate::text_laws::{lemma_decimal_reads, reads_as, reads_as_signed};
use vstd::prelude::*;
use vstd::utf8::encode_utf8;

verus! {

/// The values of a status file, as they stand behind their labels.
pub struct StatusValues {
    pub name: Seq<char>,
    pub state: Seq<char>,
    pub tgid: Seq<char>,
    pub fd_size: Seq<char>,
    pub pid: Seq<char>,
    pub threads: Seq<char>,
}

/// A status file with these values, a line for each.
pub open spec fn has_status(text: Seq<char>, v: StatusValues) -> bool {
    text == "Name:\t"@ + v.name + "\n"@ + "State:\t"@ + v.state + "\n"@ + "Tgid:\t"@ + v.tgid
        + "\n"@ + "FDSize:\t"@ + v.fd_size + "\n"@ + "Pid:\t"@ + v.pid + "\n"@ + "Threads:\t"@
        + v.threads + "\n"@
}

/// Each value is the task's own: its name and state, and numbers that read as
/// the numbers of its thread group and of itself, the length of its descriptor
/// table and how many threads there are.
pub open spec fn status_is_of(v: StatusValues, task: TaskSnapshot) -> bool {
    &&& v.name == task.name@
    &&& v.state == task.state@
    &&& reads_as(v.tgid, task.tgid as int)
    &&& reads_as(v.fd_size, task.fd_table.entries@.len() as int)
    &&& reads_as(v.pid, task.tid as int)
    &&& reads_as(v.threads, task.threads@.len() as int)
}

/// The status values of a task.
proof fn lemma_status(task: &TaskSnapshot, out: String) -> (v: StatusValues)
    requires
        call_ensures(render_file, (TaskFileType::Status, task), out),
    ensures
        has_status(out@, v),
        status_is_of(v, *task),
        v.tgid == decimal(task.tgid as nat),
        v.fd_size == decimal(task.fd_table.entries@.len()),
        v.pid == decimal(task.tid as nat),
        v.threads == decimal(task.threads@.len()),
{
    let v = StatusValues {
        name: task.name@,
        state: task.state@,
        tgid: decimal(task.tgid as nat),
        fd_size: decimal(task.fd_table.entries@.len()),
        pid: decimal(task.tid as nat),
        threads: decimal(task.threads@.len()),
    };
    lemma_decimal_reads(task.tgid as nat);
    lemma_decimal_reads(task.fd_table.entries@.len());
    lemma_decimal_reads(task.tid as nat);
    lemma_decimal_reads(task.threads@.len());
    reveal_strlit("\n");
    reveal_strlit("Name:\t");
    reveal_strlit("State:\t");
    reveal_strlit("\nState:\t");
    reveal_strlit("Tgid:\t");
    reveal_strlit("\nTgid:\t");
    reveal_strlit("FDSize:\t");
    reveal_strlit("\nFDSize:\t");
    reveal_strlit("Pid:\t");
    reveal_strlit("\nPid:\t");
    reveal_strlit("Threads:\t");
    reveal_strlit("\nThreads:\t");
    assert("\nState:\t"@ =~= "\n"@ + "State:\t"@);
    assert("\nTgid:\t"@ =~= "\n"@ + "Tgid:\t"@);
    assert("\nFDSize:\t"@ =~= "\n"@ + "FDSize:\t"@);
    assert("\nPid:\t"@ =~= "\n"@ + "Pid:\t"@);
    assert("\nThreads:\t"@ =~= "\n"@ + "Threads:\t"@);
    assert(has_status(out@, v)) by {
        let text = "Name:\t"@ + v.name + "\n"@ + "State:\t"@ + v.state + "\n"@ + "Tgid:\t"@ + v.tgid
            + "\n"@ + "FDSize:\t"@ + v.fd_size + "\n"@ + "Pid:\t"@ + v.pid + "\n"@ + "Threads:\t"@
            + v.threads + "\n"@;
        assert(out@ =~= text);
    }
    v
}

/// Each labelled line of the status file holds the value that its label names.
pub proof fn law_status_lines_hold_what_they_name(task: &TaskSnapshot, out: String)
    requires
        call_ensures(render_file, (TaskFileType::Status, task), out),
    ensures
        exists|v: StatusValues| #[trigger] has_status(out@, v) && status_is_of(v, *task),
{
    let v = lemma_status(task, out);
}

/// Two tasks that differ only in their threads have status files that differ
/// only in the last line, and two that differ only in their descriptor tables
/// have files that differ only in that line.
pub proof fn law_status_lines_are_independent(
    a: &TaskSnapshot,
    b: &TaskSnapshot,
    out_a: String,
    out_b: String,
)
    requires
        a.name@ == b.name@,
        a.state@ == b.state@,
        a.tgid == b.tgid,
        a.tid == b.tid,
        call_ensures(render_file, (TaskFileType::Status, a), out_a),
        call_ensures(render_file, (TaskFileType::Status, b), out_b),
    ensures
        exists|v: StatusValues, w: StatusValues|
            {
                &&& #[trigger] has_status(out_a@, v)
                &&& #[trigger] has_status(out_b@, w)
                &&& status_is_of(v, *a)
                &&& status_is_of(w, *b)
                &&& a.fd_table.entries@.len() == b.fd_table.entries@.len() ==> w == (StatusValues {
                    threads: w.threads,
                    ..v
                })
                &&& a.threads@.len() == b.threads@.len() ==> w == (StatusValues {
                    fd_size: w.fd_size,
                    ..v
                })
            },
{
    let v = lemma_status(a, out_a);
    let w = lemma_status(b, out_b);
}

/// Zeros, each with a space behind it.
pub open spec fn zeros(n: nat) -> Seq<char> {
    Seq::new(2 * n, |i: int| if i % 2 == 0 { '0' } else { ' ' })
}

/// Fields of zero, character by character.
proof fn lemma_zeros(n: nat)
    ensures
        zero_fields(n) == zeros(n),
    decreases n,
{
    reveal_strlit("0 ");
    if n > 0 {
        lemma_zeros((n - 1) as nat);
    }
    assert(zero_fields(n) =~= zeros(n));
}

/// The values in a line of fields that are not zero.
pub struct StatValues {
    pub tgid: Seq<char>,
    pub name: Seq<char>,
    pub state: Seq<char>,
    pub sid: Seq<char>,
    pub utime: Seq<char>,
    pub stime: Seq<char>,
    pub priority: Seq<char>,
}

/// A line of 52 fields with these values: the thread group first, the name in
/// brackets second, the state third, the session sixth, the time in user mode
/// and in the kernel fourteenth and fifteenth, the priority eighteenth, and
/// zeros elsewhere.
pub open spec fn has_stat(text: Seq<char>, v: StatValues) -> bool {
    text == v.tgid + " ("@ + v.name + ") "@ + v.state + " "@ + zeros(2) + v.sid + " "@ + zeros(7)
        + v.utime + " "@ + v.stime + " "@ + zeros(2) + v.priority + " "@ + zeros(34) + "\n"@
}

/// Each value is the task's own.
pub open spec fn stat_is_of(v: StatValues, task: TaskSnapshot) -> bool {
    &&& reads_as(v.tgid, task.tgid as int)
    &&& v.name == task.name@
    &&& v.state == task.state@
    &&& reads_as(v.sid, task.sid as int)
    &&& reads_as(v.utime, task.utime as int)
    &&& reads_as(v.stime, task.stime as int)
    &&& reads_as_signed(v.priority, task.priority as int)
}

/// Each field of the line holds the value that stands in its place.
pub proof fn law_stat_fields_stand_in_their_places(task: &TaskSnapshot, out: String)
    requires
        call_ensures(render_file, (TaskFileType::Stat, task), out),
    ensures
        exists|v: StatValues| #[trigger] has_stat(out@, v) && stat_is_of(v, *task),
{
    let v = StatValues {
        tgid: decimal(task.tgid as nat),
        name: task.name@,
        state: task.state@,
        sid: decimal(task.sid as nat),
        utime: decimal(task.utime as nat),
        stime: decimal(task.stime as nat),
        priority: signed_decimal(task.priority as int),
    };
    lemma_decimal_reads(task.tgid as nat);
    lemma_decimal_reads(task.sid as nat);
    lemma_decimal_reads(task.utime as nat);
    lemma_decimal_reads(task.stime as nat);
    if task.priority < 0 {
        lemma_decimal_reads((-task.priority) as nat);
        assert(v.priority.drop_first() =~= decimal((-task.priority) as nat));
    } else {
        lemma_decimal_reads(task.priority as nat);
    }
    lemma_zeros(2);
    lemma_zeros(7);
    lemma_zeros(34);
    let head = v.tgid + " ("@ + v.name + ") "@;
    lemma_stat_head(v.tgid, v.name);
    let second = head + v.state + " "@ + zeros(2);
    lemma_field(head, v.state);
    lemma_field(second, v.sid);
    let third = second + v.sid + " "@ + zeros(7);
    lemma_field(third, v.utime);
    lemma_field(third + v.utime + " "@, v.stime);
    let fourth = third + v.utime + " "@ + v.stime + " "@ + zeros(2);
    lemma_field(fourth, v.priority);
    assert(has_stat(out@, v));
}

/// A field behind other text.
proof fn lemma_field(before: Seq<char>, text: Seq<char>)
    ensures
        before + field(text) == before + text + " "@,
{
    assert(before + field(text) =~= before + text + " "@);
}

/// The first two fields of the line.
proof fn lemma_stat_head(tgid: Seq<char>, name: Seq<char>)
    ensures
        field(tgid) + ("("@ + name + ") "@) == tgid + " ("@ + name + ") "@,
{
    reveal_strlit(" ");
    reveal_strlit("(");
    reveal_strlit(" (");
    assert(" ("@ =~= " "@ + "("@);
    assert(field(tgid) + ("("@ + name + ") "@) =~= tgid + " ("@ + name + ") "@);
}

/// The other files hold the name and the state, each in a line of its own, and
/// the working directory as it is.
pub proof fn law_plain_files_hold_their_value(
    task: &TaskSnapshot,
    comm: String,
    state: String,
    cwd: String,
)
    requires
        call_ensures(render_file, (TaskFileType::Comm, task), comm),
        call_ensures(render_file, (TaskFileType::State, task), state),
        call_ensures(render_file, (TaskFileType::Cwd, task), cwd),
    ensures
        comm@ == task.name@.push('\n'),
        state@ == task.state@.push('\n'),
        cwd@ == task.cwd@,
{
    reveal_strlit("\n");
    assert(comm@ =~= task.name@.push('\n'));
    assert(state@ =~= task.state@.push('\n'));
}

/// Reading a file gives what it holds of the task that its thread number
/// stands for, and says that the task has gone where there is none any more.
pub proof fn law_reading_gives_the_file_of_the_task(
    file: &ProcTaskFileInode,
    tasks: &TaskList<TaskSnapshot>,
    listed: Option<TaskDescriptor>,
    desc: TaskDescriptor,
    task: Option<&TaskSnapshot>,
    out: String,
    bytes: Vec<u8>,
)
    requires
        tasks.wf(),
        call_ensures(TaskList::<TaskSnapshot>::find_by_tid, (tasks, file.tid), listed),
        listed matches Some(d) ==> d == desc,
        call_ensures(TaskList::<TaskSnapshot>::find_task_by_descriptor, (tasks, &desc), task),
        task matches Some(t) ==> call_ensures(render_file, (file.file_type, t), out),
        call_ensures(ProcTaskFileInode::read, (file, tasks), bytes),
    ensures
        listed is Some && task is Some ==> bytes@ == encode_utf8(out@),
        listed is None || task is None ==> bytes@ == encode_utf8("State:\tGone\n"@),
{
}

/// The link to the working directory leads there while the task is there; no
/// other file is a link.
pub proof fn law_link_leads_to_the_working_directory(
    file: &ProcTaskFileInode,
    tasks: &TaskList<TaskSnapshot>,
    listed: Option<TaskDescriptor>,
    desc: TaskDescriptor,
    task: Option<&TaskSnapshot>,
    r: Result<String, KernelError>,
)
    requires
        tasks.wf(),
        call_ensures(TaskList::<TaskSnapshot>::find_by_tid, (tasks, file.tid), listed),
        listed matches Some(d) ==> d == desc,
        call_ensures(TaskList::<TaskSnapshot>::find_task_by_descriptor, (tasks, &desc), task),
        call_ensures(ProcTaskFileInode::readlink, (file, tasks), r),
    ensures
        !(file.file_type is Cwd) ==> r == Err::<String, _>(KernelError::NotSupported),
        file.file_type is Cwd && (listed is None || task is None) ==> r == Err::<String, _>(
            KernelError::Fs(FsError::NotFound),
        ),
        file.file_type is Cwd && listed is Some && task is Some ==> (r matches Ok(path) && path@
            == task->0.cwd@),
{
}

/// What is known of an open file, as it is shown.
pub open spec fn has_fd_info(text: Seq<char>, pos: Seq<char>, flags: Seq<char>) -> bool {
    text == "pos: "@ + pos + "\n"@ + "flags: "@ + flags
}

/// What is known of an open file is where it is read and how it was opened.
/// There is nothing where the task or the file has gone, and the file itself
/// cannot be read.
pub proof fn law_fd_info_tells_position_and_flags(
    file: &ProcFdFile,
    table: Option<&FileDescriptorTable>,
    entry: Option<FdEntry>,
    r: Result<Vec<u8>, KernelError>,
)
    requires
        table matches Some(t) ==> call_ensures(FileDescriptorTable::get, (t, file.fd), entry),
        table is None ==> entry is None,
        call_ensures(ProcFdFile::read, (file, table), r),
    ensures
        entry is None ==> r == Err::<Vec<u8>, _>(KernelError::Fs(FsError::NotFound)),
        entry is Some && !file.fd_info ==> r == Err::<Vec<u8>, _>(KernelError::NotSupported),
        entry matches Some(e) ==> file.fd_info ==> (r matches Ok(bytes) && exists|
            text: Seq<char>,
            pos: Seq<char>,
            flags: Seq<char>,
        |
            bytes@ == encode_utf8(text) && #[trigger] has_fd_info(text, pos, flags) && reads_as(
                pos,
                e.pos as int,
            ) && reads_as(flags, e.flags as int)),
{
    if let Some(e) = entry {
        if file.fd_info {
            let pos = decimal(e.pos as nat);
            let flags = decimal(e.flags as nat);
            let text = "pos: "@ + pos + "\n"@ + "flags: "@ + flags;
            lemma_decimal_reads(e.pos as nat);
            lemma_decimal_reads(e.flags as nat);
            reveal_strlit("\n");
            reveal_strlit("flags: ");
            reveal_strlit("\nflags: ");
            assert("\nflags: "@ =~= "\n"@ + "flags: "@);
            assert("pos: "@ + pos + "\nflags: "@ + flags =~= text);
            assert(has_fd_info(text, pos, flags));
        }
    }
}

/// A descriptor stands for the open file at its place in the table, and for
/// none where it is negative or past the end.
pub proof fn law_descriptors_count_from_zero(
    table: &FileDescriptorTable,
    fd: i32,
    n: usize,
    entry: Option<FdEntry>,
)
    requires
        call_ensures(FileDescriptorTable::len, (table,), n),
        call_ensures(FileDescriptorTable::get, (table, fd), entry),
    ensures
        n == table.entries@.len(),
        fd < 0 || fd >= n ==> entry is None,
        0 <= fd < n ==> entry == table.entries@[fd as int],
{
}

} // verus!
