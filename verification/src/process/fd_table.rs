//! The open files of a task.
use vstd::prelude::*;

verus! {

/// An open file, as far as it is reported.
#[derive(Clone, Copy, Debug, PartialEq, Eq, Structural)]
pub struct FdEntry {
    /// The position in the file.
    pub pos: u64,
    /// The flags it was opened with.
    pub flags: u32,
}

/// Open files by their descriptor. Descriptors in between may be free.
pub struct FileDescriptorTable {
    pub entries: Vec<Option<FdEntry>>,
}

impl FileDescriptorTable {
    /// The file that is open as `fd`.
    pub open spec fn at(&self, fd: int) -> Option<FdEntry> {
        if 0 <= fd < self.entries@.len() {
            self.entries@[fd]
        } else {
            None
        }
    }

    /// No open files.
    pub fn new() -> (table: Self)
        ensures
            table.entries@.len() == 0,
    {
        FileDescriptorTable { entries: Vec::new() }
    }

    /// How many descriptors the table has room for.
    pub fn len(&self) -> (n: usize)
        ensures
            n == self.entries@.len(),
    {
        self.entries.len()
    }

    /// The file that is open as `fd`.
    pub fn get(&self, fd: i32) -> (entry: Option<FdEntry>)
        ensures
            entry == self.at(fd as int),
    {
        if fd < 0 || fd as usize >= self.entries.len() {
            None
        } else {
            self.entries[fd as usize]
        }
    }
}

} // verus!
