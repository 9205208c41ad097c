//! Directory listings.
use crate::fs::attr::{FileType, InodeId};
use vstd::prelude::*;

verus! {

/// An entry of a directory.
#[derive(Debug)]
pub struct Dirent {
    pub id: InodeId,
    pub name: String,
    pub file_type: FileType,
    pub offset: u64,
}

/// An entry with its name as a sequence of characters.
pub struct DirentView {
    pub id: InodeId,
    pub name: Seq<char>,
    pub file_type: FileType,
    pub offset: u64,
}

impl View for Dirent {
    type V = DirentView;

    open spec fn view(&self) -> DirentView {
        DirentView {
            id: self.id,
            name: self.name@,
            file_type: self.file_type,
            offset: self.offset,
        }
    }
}

/// The entries with their names as sequences of characters.
pub open spec fn dirents(entries: Seq<Dirent>) -> Seq<DirentView> {
    entries.map_values(|entry: Dirent| entry@)
}

impl Dirent {
    /// An entry.
    pub fn new(name: String, id: InodeId, file_type: FileType, offset: u64) -> (entry: Self)
        ensures
            entry@ == (DirentView { id, name: name@, file_type, offset }),
    {
        Dirent { id, name, file_type, offset }
    }
}

/// A directory listing that is read entry by entry.
pub struct SimpleDirStream {
    pub entries: Vec<Dirent>,
    pub next: u64,
}

impl SimpleDirStream {
    /// The listing from the entry at `start_offset` on.
    pub fn new(entries: Vec<Dirent>, start_offset: u64) -> (stream: Self)
        ensures
            stream.entries == entries,
            stream.next == start_offset,
    {
        SimpleDirStream { entries, next: start_offset }
    }

    /// The next entry, or nothing at the end.
    pub fn next_entry(&mut self) -> (entry: Option<Dirent>)
        ensures
            final(self).entries == old(self).entries,
            entry is Some <==> old(self).next < old(self).entries@.len(),
            entry matches Some(e) ==> {
                &&& e@ == old(self).entries@[old(self).next as int]@
                &&& final(self).next == old(self).next + 1
            },
            entry is None ==> final(self).next == old(self).next,
    {
        if self.next < self.entries.len() as u64 {
            let at: usize = self.next as usize;
            let e = &self.entries[at];
            let entry = Dirent::new(e.name.clone(), e.id, e.file_type, e.offset);
            self.next = self.next + 1;
            Some(entry)
        } else {
            None
        }
    }
}

} // verus!
