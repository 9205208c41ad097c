//! The files in a task's directory.
use crate::drivers::fs::proc::snapshot::TaskSnapshot;
use crate::error::{FsError, KernelError};
use crate::fs::attr::{FileAttr, FileType, InodeId};
use crate::process::task::Tid;
use crate::process::task_list::{descriptors, first_with_tid, TaskList};
use crate::text::{
    decimal, decimal_string, same_text, signed_decimal, signed_decimal_string,
};
use vstd::prelude::*;
use vstd::string::{StrSliceExecFns, StringExecFns, StringSliceAdditionalSpecFns};

verus! {

/// What a file in a task's directory holds.
#[derive(Clone, Copy, Debug, PartialEq, Eq, Structural)]
pub enum TaskFileType {
    Status,
    Comm,
    Cwd,
    State,
    Stat,
}

impl TaskFileType {
    /// The name of the file.
    pub open spec fn file_name(self) -> Seq<char> {
        match self {
            TaskFileType::Status => "status"@,
            TaskFileType::Comm => "comm"@,
            TaskFileType::Cwd => "cwd"@,
            TaskFileType::State => "state"@,
            TaskFileType::Stat => "stat"@,
        }
    }

    /// The kind of the file.
    pub open spec fn kind(self) -> FileType {
        match self {
            TaskFileType::Cwd => FileType::Symlink,
            _ => FileType::File,
        }
    }

    /// The file with a name, if there is one.
    pub open spec fn with_name(name: Seq<char>) -> Result<TaskFileType, ()> {
        if name == "status"@ {
            Ok(TaskFileType::Status)
        } else if name == "comm"@ {
            Ok(TaskFileType::Comm)
        } else if name == "state"@ {
            Ok(TaskFileType::State)
        } else if name == "stat"@ {
            Ok(TaskFileType::Stat)
        } else if name == "cwd"@ {
            Ok(TaskFileType::Cwd)
        } else {
            Err(())
        }
    }
}

impl TryFrom<&str> for TaskFileType {
    type Error = ();

    fn try_from(value: &str) -> (r: Result<TaskFileType, ()>) {
        if same_text(value, "status") {
            Ok(TaskFileType::Status)
        } else if same_text(value, "comm") {
            Ok(TaskFileType::Comm)
        } else if same_text(value, "state") {
            Ok(TaskFileType::State)
        } else if same_text(value, "stat") {
            Ok(TaskFileType::Stat)
        } else if same_text(value, "cwd") {
            Ok(TaskFileType::Cwd)
        } else {
            Err(())
        }
    }
}

impl vstd::std_specs::convert::TryFromSpecImpl<&str> for TaskFileType {
    open spec fn obeys_try_from_spec() -> bool {
        true
    }

    open spec fn try_from_spec(v: &str) -> Result<Self, ()> {
        TaskFileType::with_name(v@)
    }
}

/// `n` fields of zero, as they stand in a line of fields.
pub open spec fn zero_fields(n: nat) -> Seq<char>
    decreases n,
{
    if n == 0 {
        Seq::empty()
    } else {
        zero_fields((n - 1) as nat) + "0 "@
    }
}

/// A field in a line of fields.
pub open spec fn field(text: Seq<char>) -> Seq<char> {
    text + " "@
}

/// The line of fields that describes a task. What is not known is zero.
pub open spec fn stat_line(task: TaskSnapshot) -> Seq<char> {
    field(decimal(task.tgid as nat)) + ("("@ + task.name@ + ") "@) + field(task.state@)
        + zero_fields(2) + field(decimal(task.sid as nat)) + zero_fields(7) + field(
        decimal(task.utime as nat),
    ) + field(decimal(task.stime as nat)) + zero_fields(2) + field(
        signed_decimal(task.priority as int),
    ) + zero_fields(34) + "\n"@
}

/// The lines that describe a task to a reader.
pub open spec fn status_lines(task: TaskSnapshot) -> Seq<char> {
    "Name:\t"@ + task.name@ + "\nState:\t"@ + task.state@ + "\nTgid:\t"@ + decimal(task.tgid as nat)
        + "\nFDSize:\t"@ + decimal(task.fd_table.entries@.len()) + "\nPid:\t"@ + decimal(
        task.tid as nat,
    ) + "\nThreads:\t"@ + decimal(task.threads@.len()) + "\n"@
}

/// What a file holds of a task.
pub open spec fn file_text(file_type: TaskFileType, task: TaskSnapshot) -> Seq<char> {
    match file_type {
        TaskFileType::Status => status_lines(task),
        TaskFileType::Comm => task.name@ + "\n"@,
        TaskFileType::State => task.state@ + "\n"@,
        TaskFileType::Stat => stat_line(task),
        TaskFileType::Cwd => task.cwd@,
    }
}

/// Appends `n` fields of zero.
fn push_zero_fields(out: &mut String, n: u64)
    ensures
        final(out)@ == old(out)@ + zero_fields(n as nat),
{
    let ghost before = out@;
    let mut i: u64 = 0;
    assert(out@ =~= before + zero_fields(0));
    while i < n
        invariant
            i <= n,
            out@ == before + zero_fields(i as nat),
        decreases n - i,
    {
        out.append("0 ");
        i += 1;
        assert(out@ =~= before + zero_fields(i as nat));
    }
}

/// Appends a field.
fn push_field(out: &mut String, text: &str)
    ensures
        final(out)@ == old(out)@ + field(text@),
{
    let ghost before = out@;
    out.append(text);
    out.append(" ");
    assert(out@ =~= before + field(text@));
}

/// The line of fields that describes a task.
fn render_stat(task: &TaskSnapshot) -> (out: String)
    ensures
        out@ == stat_line(*task),
{
    let mut out = String::new();
    let tgid = decimal_string(task.tgid as u64);
    push_field(&mut out, tgid.as_str());
    let ghost start = out@;
    assert(start =~= field(decimal(task.tgid as nat)));
    out.append("(");
    out.append(task.name.as_str());
    out.append(") ");
    assert(out@ =~= start + ("("@ + task.name@ + ") "@));
    push_field(&mut out, task.state.as_str());
    push_zero_fields(&mut out, 2);
    let sid = decimal_string(task.sid as u64);
    push_field(&mut out, sid.as_str());
    push_zero_fields(&mut out, 7);
    let utime = decimal_string(task.utime);
    push_field(&mut out, utime.as_str());
    let stime = decimal_string(task.stime);
    push_field(&mut out, stime.as_str());
    push_zero_fields(&mut out, 2);
    let priority = signed_decimal_string(task.priority as i64);
    push_field(&mut out, priority.as_str());
    push_zero_fields(&mut out, 34);
    out.append("\n");
    out
}

/// The lines that describe a task to a reader.
fn render_status(task: &TaskSnapshot) -> (out: String)
    ensures
        out@ == status_lines(*task),
{
    let mut out = "Name:\t".to_owned();
    out.append(task.name.as_str());
    out.append("\nState:\t");
    out.append(task.state.as_str());
    out.append("\nTgid:\t");
    let tgid = decimal_string(task.tgid as u64);
    out.append(tgid.as_str());
    out.append("\nFDSize:\t");
    let fd_size = decimal_string(task.fd_table.len() as u64);
    out.append(fd_size.as_str());
    out.append("\nPid:\t");
    let pid = decimal_string(task.tid as u64);
    out.append(pid.as_str());
    out.append("\nThreads:\t");
    let threads = decimal_string(task.threads.len() as u64);
    out.append(threads.as_str());
    out.append("\n");
    out
}

/// What a file holds of a task.
pub fn render_file(file_type: TaskFileType, task: &TaskSnapshot) -> (out: String)
    ensures
        out@ == file_text(file_type, *task),
{
    match file_type {
        TaskFileType::Status => render_status(task),
        TaskFileType::Comm => {
            let mut out = task.name.clone();
            out.append("\n");
            out
        },
        TaskFileType::State => {
            let mut out = task.state.clone();
            out.append("\n");
            out
        },
        TaskFileType::Stat => render_stat(task),
        TaskFileType::Cwd => task.cwd.clone(),
    }
}

/// A file in a task's directory.
#[derive(Clone, Copy, Debug, PartialEq, Eq, Structural)]
pub struct ProcTaskFileInode {
    pub id: InodeId,
    pub file_type: TaskFileType,
    pub attr: FileAttr,
    pub tid: Tid,
}

/// The task that a thread number stands for: the first one that is listed
/// with it, unless that has gone.
pub open spec fn task_of_thread(tasks: TaskList<TaskSnapshot>, tid: Tid) -> Option<TaskSnapshot> {
    match first_with_tid(descriptors(tasks.entries@), tid) {
        Some(desc) => tasks.task_at(desc),
        None => None,
    }
}

/// Finds the task that a thread number stands for.
fn find_task_of_thread(tasks: &TaskList<TaskSnapshot>, tid: Tid) -> (task: Option<&TaskSnapshot>)
    requires
        tasks.wf(),
    ensures
        task is Some <==> task_of_thread(*tasks, tid) is Some,
        task matches Some(t) ==> task_of_thread(*tasks, tid) == Some(*t),
{
    match tasks.find_by_tid(tid) {
        Some(desc) => tasks.find_task_by_descriptor(&desc),
        None => None,
    }
}

impl ProcTaskFileInode {
    /// A file in the directory of a task.
    pub open spec fn with_id(tid: Tid, file_type: TaskFileType, id: InodeId) -> ProcTaskFileInode {
        ProcTaskFileInode {
            id,
            file_type,
            attr: FileAttr { file_type: file_type.kind(), mode: 0o444, size: 0 },
            tid,
        }
    }

    /// A file in the directory of a task.
    pub fn new(tid: Tid, file_type: TaskFileType, inode_id: InodeId) -> (inode: Self)
        ensures
            inode == ProcTaskFileInode::with_id(tid, file_type, inode_id),
    {
        let kind = match file_type {
            TaskFileType::Status => FileType::File,
            TaskFileType::Comm => FileType::File,
            TaskFileType::State => FileType::File,
            TaskFileType::Stat => FileType::File,
            TaskFileType::Cwd => FileType::Symlink,
        };
        ProcTaskFileInode {
            id: inode_id,
            file_type,
            attr: FileAttr { file_type: kind, mode: 0o444, ..FileAttr::default() },
            tid,
        }
    }

    /// The inode.
    pub fn id(&self) -> (id: InodeId)
        ensures
            id == self.id,
    {
        self.id
    }

    /// The attributes.
    pub fn getattr(&self) -> (attr: FileAttr)
        ensures
            attr == self.attr,
    {
        self.attr
    }

    /// Reads the file. It can be read after the task has gone, and says so
    /// then.
    pub fn read(&self, tasks: &TaskList<TaskSnapshot>) -> (bytes: Vec<u8>)
        requires
            tasks.wf(),
        ensures
            bytes@ == vstd::utf8::encode_utf8(
                match task_of_thread(*tasks, self.tid) {
                    Some(task) => file_text(self.file_type, task),
                    None => "State:\tGone\n"@,
                },
            ),
    {
        let text = match find_task_of_thread(tasks, self.tid) {
            Some(task) => render_file(self.file_type, task),
            None => "State:\tGone\n".to_owned(),
        };
        text.as_str().as_bytes_vec()
    }

    /// Where the file leads, for the one that is a link: the working
    /// directory.
    pub fn readlink(&self, tasks: &TaskList<TaskSnapshot>) -> (r: Result<String, KernelError>)
        requires
            tasks.wf(),
        ensures
            r is Ok <==> self.file_type is Cwd && task_of_thread(*tasks, self.tid) is Some,
            r matches Ok(path) ==> path@ == task_of_thread(*tasks, self.tid)->0.cwd@,
            r matches Err(e) ==> e == if self.file_type is Cwd {
                KernelError::Fs(FsError::NotFound)
            } else {
                KernelError::NotSupported
            },
    {
        if let TaskFileType::Cwd = self.file_type {
            return match find_task_of_thread(tasks, self.tid) {
                Some(task) => Ok(task.cwd.clone()),
                None => Err(KernelError::Fs(FsError::NotFound)),
            };
        }
        Err(KernelError::NotSupported)
    }
}

} // verus!
