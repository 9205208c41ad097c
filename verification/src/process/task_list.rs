//! Every task in the system, in the order of their descriptors.
use crate::process::task::{TaskDescriptor, Tid};
use vstd::prelude::*;

verus! {

/// A task in the list. It stays listed for a while after it has gone.
pub struct TaskEntry<T> {
    pub desc: TaskDescriptor,
    pub task: Option<T>,
}

/// The tasks in the system.
pub struct TaskList<T> {
    pub entries: Vec<TaskEntry<T>>,
}

impl<T> TaskList<T> {
    /// Entries come in the order of their descriptors, none twice.
    pub open spec fn wf(&self) -> bool {
        forall|i: int, j: int|
            0 <= i < j < self.entries@.len() ==> (#[trigger] self.entries@[i]).desc.as_ptr() < (
            #[trigger] self.entries@[j]).desc.as_ptr()
    }

    /// The task is listed.
    pub open spec fn lists(&self, desc: TaskDescriptor) -> bool {
        exists|i: int| 0 <= i < self.entries@.len() && (#[trigger] self.entries@[i]).desc == desc
    }

    /// What is listed for the task: nothing where it is not listed or gone.
    pub open spec fn task_at(&self, desc: TaskDescriptor) -> Option<T> {
        if self.lists(desc) {
            let i = choose|i: int|
                0 <= i < self.entries@.len() && (#[trigger] self.entries@[i]).desc == desc;
            self.entries@[i].task
        } else {
            None
        }
    }

    /// No tasks.
    pub fn new() -> (list: Self)
        ensures
            list.wf(),
            list.entries@.len() == 0,
    {
        TaskList { entries: Vec::new() }
    }

    /// Where a descriptor is, or where it would be put.
    fn position(&self, desc: TaskDescriptor) -> (at: usize)
        requires
            self.wf(),
        ensures
            at <= self.entries@.len(),
            forall|i: int|
                0 <= i < at ==> (#[trigger] self.entries@[i]).desc.as_ptr() < desc.as_ptr(),
            forall|i: int|
                at <= i < self.entries@.len() ==> (#[trigger] self.entries@[i]).desc.as_ptr()
                    >= desc.as_ptr(),
    {
        let key: u64 = desc.to_ptr();
        let mut at: usize = 0;
        while at < self.entries.len() && self.entries[at].desc.to_ptr() < key
            invariant
                self.wf(),
                key == desc.as_ptr(),
                at <= self.entries@.len(),
                forall|i: int|
                    0 <= i < at ==> (#[trigger] self.entries@[i]).desc.as_ptr() < desc.as_ptr(),
            decreases self.entries@.len() - at,
        {
            at += 1;
        }
        proof {
            if at < self.entries@.len() {
                assert forall|i: int| at <= i < self.entries@.len() implies (
                #[trigger] self.entries@[i]).desc.as_ptr() >= desc.as_ptr() by {
                    if i > at {
                        assert(self.entries@[at as int].desc.as_ptr()
                            < self.entries@[i].desc.as_ptr());
                    }
                }
            }
        }
        at
    }

    /// Lists a task, in place of what was listed under its descriptor.
    pub fn insert(&mut self, desc: TaskDescriptor, task: Option<T>)
        requires
            old(self).wf(),
        ensures
            final(self).wf(),
            final(self).task_at(desc) == task,
            final(self).lists(desc),
            forall|other: TaskDescriptor|
                other != desc ==> #[trigger] final(self).lists(other) == old(self).lists(other),
            forall|other: TaskDescriptor|
                other != desc ==> #[trigger] final(self).task_at(other) == old(self).task_at(other),
    {
        let at: usize = self.position(desc);
        let ghost before = *self;
        let entry = TaskEntry { desc, task };
        if at < self.entries.len() && self.entries[at].desc.to_ptr() == desc.to_ptr() {
            self.entries.set(at, entry);
            proof {
                assert forall|other: TaskDescriptor| other != desc implies #[trigger] self.lists(
                    other,
                ) == before.lists(other) && self.task_at(other) == before.task_at(other) by {
                    before.lemma_replaced(self, at as int, other);
                }
            }
        } else {
            self.entries.insert(at, entry);
            proof {
                before.lemma_inserted_wf(self, at as int, entry);
                assert forall|other: TaskDescriptor| other != desc implies #[trigger] self.lists(
                    other,
                ) == before.lists(other) && self.task_at(other) == before.task_at(other) by {
                    before.lemma_inserted(self, at as int, entry, other);
                }
            }
        }
        proof {
            assert(self.entries@[at as int].desc == desc);
            self.lemma_task_at(at as int);
            assert forall|other: TaskDescriptor| other != desc implies #[trigger] self.task_at(
                other,
            ) == before.task_at(other) by {
                assert(self.lists(other) == before.lists(other));
            }
        }
    }

    /// An entry is the only one with its descriptor.
    pub proof fn lemma_task_at(&self, i: int)
        requires
            self.wf(),
            0 <= i < self.entries@.len(),
        ensures
            self.lists(self.entries@[i].desc),
            self.task_at(self.entries@[i].desc) == self.entries@[i].task,
    {
        let desc = self.entries@[i].desc;
        let j = choose|j: int|
            0 <= j < self.entries@.len() && (#[trigger] self.entries@[j]).desc == desc;
        if i < j {
            assert(self.entries@[i].desc.as_ptr() < self.entries@[j].desc.as_ptr());
        } else if j < i {
            assert(self.entries@[j].desc.as_ptr() < self.entries@[i].desc.as_ptr());
        }
    }

    /// Replacing an entry leaves the others as they were.
    proof fn lemma_replaced(&self, after: &Self, at: int, other: TaskDescriptor)
        requires
            self.wf(),
            after.wf(),
            0 <= at < self.entries@.len(),
            after.entries@.len() == self.entries@.len(),
            after.entries@[at].desc == self.entries@[at].desc,
            other != self.entries@[at].desc,
            forall|i: int|
                0 <= i < self.entries@.len() && i != at ==> (#[trigger] after.entries@[i])
                    == self.entries@[i],
        ensures
            after.lists(other) == self.lists(other),
            after.task_at(other) == self.task_at(other),
    {
        if self.lists(other) {
            let i = choose|i: int|
                0 <= i < self.entries@.len() && (#[trigger] self.entries@[i]).desc == other;
            assert(after.entries@[i].desc == other);
            self.lemma_task_at(i);
            after.lemma_task_at(i);
        }
        if after.lists(other) {
            let i = choose|i: int|
                0 <= i < after.entries@.len() && (#[trigger] after.entries@[i]).desc == other;
            assert(self.entries@[i].desc == other);
        }
    }

    /// Inserting an entry in its place keeps the order.
    proof fn lemma_inserted_wf(&self, after: &Self, at: int, entry: TaskEntry<T>)
        requires
            self.wf(),
            0 <= at <= self.entries@.len(),
            after.entries@ == self.entries@.insert(at, entry),
            forall|i: int|
                0 <= i < at ==> (#[trigger] self.entries@[i]).desc.as_ptr() < entry.desc.as_ptr(),
            forall|i: int|
                at <= i < self.entries@.len() ==> (#[trigger] self.entries@[i]).desc.as_ptr()
                    > entry.desc.as_ptr(),
        ensures
            after.wf(),
    {
        assert forall|i: int, j: int| 0 <= i < j < after.entries@.len() implies (
        #[trigger] after.entries@[i]).desc.as_ptr() < (#[trigger] after.entries@[j]).desc.as_ptr() by {
            let bi = if i < at { i } else { i - 1 };
            let bj = if j < at { j } else { j - 1 };
            if i == at {
                assert(self.entries@[bj].desc.as_ptr() > entry.desc.as_ptr());
            } else if j == at {
                assert(self.entries@[bi].desc.as_ptr() < entry.desc.as_ptr());
            } else {
                assert(self.entries@[bi].desc.as_ptr() < self.entries@[bj].desc.as_ptr());
            }
        }
    }

    /// Inserting an entry leaves the others as they were.
    proof fn lemma_inserted(&self, after: &Self, at: int, entry: TaskEntry<T>, other: TaskDescriptor)
        requires
            self.wf(),
            after.wf(),
            0 <= at <= self.entries@.len(),
            after.entries@ == self.entries@.insert(at, entry),
            other != entry.desc,
        ensures
            after.lists(other) == self.lists(other),
            after.task_at(other) == self.task_at(other),
    {
        if self.lists(other) {
            let i = choose|i: int|
                0 <= i < self.entries@.len() && (#[trigger] self.entries@[i]).desc == other;
            let k = if i < at { i } else { i + 1 };
            assert(after.entries@[k] == self.entries@[i]);
            self.lemma_task_at(i);
            after.lemma_task_at(k);
        }
        if after.lists(other) {
            let i = choose|i: int|
                0 <= i < after.entries@.len() && (#[trigger] after.entries@[i]).desc == other;
            let k = if i < at { i } else { i - 1 };
            assert(self.entries@[k] == after.entries@[i]);
        }
    }

    /// Finds a task that has not gone.
    pub fn find_task_by_descriptor(&self, desc: &TaskDescriptor) -> (task: Option<&T>)
        requires
            self.wf(),
        ensures
            task is Some <==> self.task_at(*desc) is Some,
            task matches Some(t) ==> self.task_at(*desc) == Some(*t),
    {
        let at: usize = self.position(*desc);
        if at < self.entries.len() && self.entries[at].desc.to_ptr() == desc.to_ptr() {
            proof {
                self.lemma_task_at(at as int);
            }
            self.entries[at].task.as_ref()
        } else {
            proof {
                if self.lists(*desc) {
                    let i = choose|i: int|
                        0 <= i < self.entries@.len() && (#[trigger] self.entries@[i]).desc == *desc;
                    if at < i {
                        assert(self.entries@[at as int].desc.as_ptr()
                            < self.entries@[i].desc.as_ptr());
                    }
                }
            }
            None
        }
    }

    /// The first listed task of a thread group.
    pub fn find_by_tgid(&self, tgid: u32) -> (desc: Option<TaskDescriptor>)
        ensures
            desc == first_of_group(descriptors(self.entries@), tgid),
    {
        let ghost all = descriptors(self.entries@);
        let mut i: usize = 0;
        assert(all.skip(0) =~= all);
        while i < self.entries.len()
            invariant
                i <= self.entries@.len(),
                all == descriptors(self.entries@),
                first_of_group(all, tgid) == first_of_group(all.skip(i as int), tgid),
            decreases self.entries@.len() - i,
        {
            let desc = self.entries[i].desc;
            assert(all.skip(i as int)[0] == desc);
            assert(all.skip(i as int).drop_first() =~= all.skip(i + 1));
            if desc.tgid.0 == tgid {
                return Some(desc);
            }
            i += 1;
        }
        None
    }

    /// The first listed task with a thread number.
    pub fn find_by_tid(&self, tid: Tid) -> (desc: Option<TaskDescriptor>)
        ensures
            desc == first_with_tid(descriptors(self.entries@), tid),
    {
        let ghost all = descriptors(self.entries@);
        let mut i: usize = 0;
        assert(all.skip(0) =~= all);
        while i < self.entries.len()
            invariant
                i <= self.entries@.len(),
                all == descriptors(self.entries@),
                first_with_tid(all, tid) == first_with_tid(all.skip(i as int), tid),
            decreases self.entries@.len() - i,
        {
            let desc = self.entries[i].desc;
            assert(all.skip(i as int)[0] == desc);
            assert(all.skip(i as int).drop_first() =~= all.skip(i + 1));
            if desc.tid.0 == tid.0 {
                return Some(desc);
            }
            i += 1;
        }
        None
    }
}

/// The descriptors of the entries.
pub open spec fn descriptors<T>(entries: Seq<TaskEntry<T>>) -> Seq<TaskDescriptor> {
    entries.map_values(|entry: TaskEntry<T>| entry.desc)
}

/// The first of the tasks that is in a thread group.
pub open spec fn first_of_group(all: Seq<TaskDescriptor>, tgid: u32) -> Option<TaskDescriptor>
    decreases all.len(),
{
    if all.len() == 0 {
        None
    } else if all[0].tgid.0 == tgid {
        Some(all[0])
    } else {
        first_of_group(all.drop_first(), tgid)
    }
}

/// The first of the tasks that has a thread number.
pub open spec fn first_with_tid(all: Seq<TaskDescriptor>, tid: Tid) -> Option<TaskDescriptor>
    decreases all.len(),
{
    if all.len() == 0 {
        None
    } else if all[0].tid == tid {
        Some(all[0])
    } else {
        first_with_tid(all.drop_first(), tid)
    }
}

/// A thread group with a listed task has a first one.
pub proof fn lemma_first_of_group(all: Seq<TaskDescriptor>, i: int)
    requires
        0 <= i < all.len(),
    ensures
        first_of_group(all, all[i].tgid.0) matches Some(desc) && desc.tgid == all[i].tgid,
    decreases all.len(),
{
    if all[0].tgid != all[i].tgid {
        lemma_first_of_group(all.drop_first(), i - 1);
    }
}

} // verus!
