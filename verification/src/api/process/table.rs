//! The table of the processes that a guest has spawned and not yet collected.
//!
//! Spawning enters a process under a fresh id; collecting takes it out. An id
//! is issued once and never again, so a process that has been collected can
//! be neither collected nor resumed a second time.

use std::collections::HashMap;
use vstd::prelude::*;

verus! {

broadcast use vstd::std_specs::hash::group_hash_axioms;

/// Why a process could not be taken out of the table.
#[derive(Clone, Copy, Debug, PartialEq, Eq, Structural)]
pub enum ProcessError {
    /// No process is entered under the id: it was never issued, or the
    /// process has been collected already.
    NotFound,
}

impl ProcessError {
    /// The text that reports the error to the guest.
    pub fn message(&self) -> (text: &'static str)
        ensures
            text@ == "Process not found"@,
    {
        "Process not found"
    }
}

/// The mathematical content of a [`ProcessTable`].
pub struct ProcessTableView<T> {
    /// The processes that wait to be collected, by id.
    pub entries: Map<u32, T>,
    /// Number of ids issued so far; the next id.
    pub issued: nat,
}

impl<T> ProcessTableView<T> {
    /// Number of ids that there are.
    pub open spec fn id_space() -> nat {
        0x1_0000_0000
    }

    /// The table invariant: every entry stands under an id that was issued.
    pub open spec fn wf(self) -> bool {
        &&& self.entries.dom().finite()
        &&& self.issued <= Self::id_space()
        &&& forall|id: u32| self.entries.contains_key(id) ==> id < self.issued
    }

    /// The empty table that has issued no id.
    pub open spec fn empty() -> Self {
        ProcessTableView { entries: Map::empty(), issued: 0 }
    }

    /// Whether `id` was issued and its process has been collected.
    pub open spec fn retired(self, id: u32) -> bool {
        id < self.issued && !self.entries.contains_key(id)
    }

    /// The table after `process` was entered under the next id.
    pub open spec fn add(self, process: T) -> Self {
        ProcessTableView {
            entries: self.entries.insert(self.issued as u32, process),
            issued: self.issued + 1,
        }
    }

    /// The table after the process `id` was taken out.
    pub open spec fn remove(self, id: u32) -> Self {
        ProcessTableView { entries: self.entries.remove(id), issued: self.issued }
    }
}

/// The processes that wait to be collected, each under the id it was
/// issued.
pub struct ProcessTable<T> {
    processes: HashMap<u32, T>,
    issued: u64,
}

impl<T> View for ProcessTable<T> {
    type V = ProcessTableView<T>;

    closed spec fn view(&self) -> ProcessTableView<T> {
        ProcessTableView { entries: self.processes@, issued: self.issued as nat }
    }
}

impl<T> ProcessTable<T> {
    /// The invariant every table handed out by this module satisfies.
    pub closed spec fn wf(&self) -> bool {
        self@.wf()
    }

    /// What [`Self::wf`] means for the content of the table.
    pub proof fn lemma_wf(&self)
        requires
            self.wf(),
        ensures
            self@.wf(),
    {
    }

    /// The empty table.
    pub fn new() -> (table: Self)
        ensures
            table.wf(),
            table@ == ProcessTableView::<T>::empty(),
    {
        ProcessTable { processes: HashMap::new(), issued: 0 }
    }

    /// Enters `process` under a fresh id and returns the id. Once every id
    /// has been issued, the table stays as it is and `process` is handed
    /// back.
    pub fn add(&mut self, process: T) -> (entered: Result<u32, T>)
        requires
            old(self).wf(),
        ensures
            final(self).wf(),
            match entered {
                Ok(id) => {
                    &&& old(self)@.issued < ProcessTableView::<T>::id_space()
                    &&& id == old(self)@.issued
                    &&& final(self)@ == old(self)@.add(process)
                },
                Err(rejected) => {
                    &&& old(self)@.issued == ProcessTableView::<T>::id_space()
                    &&& rejected == process
                    &&& final(self)@ == old(self)@
                },
            },
    {
        if self.issued >= 0x1_0000_0000 {
            return Err(process);
        }
        let id = self.issued as u32;
        let _ = self.processes.insert(id, process);
        self.issued = self.issued + 1;
        Ok(id)
    }

    /// Takes the process `process_id` out of the table. An id under which no
    /// process is entered is an error, and the table stays as it is.
    pub fn remove(&mut self, process_id: u32) -> (taken: Result<T, ProcessError>)
        requires
            old(self).wf(),
        ensures
            final(self).wf(),
            match taken {
                Ok(process) => {
                    &&& old(self)@.entries.contains_key(process_id)
                    &&& process == old(self)@.entries[process_id]
                    &&& final(self)@ == old(self)@.remove(process_id)
                    &&& final(self)@.retired(process_id)
                },
                Err(error) => {
                    &&& !old(self)@.entries.contains_key(process_id)
                    &&& error == ProcessError::NotFound
                    &&& final(self)@ == old(self)@
                },
            },
    {
        match self.processes.remove(&process_id) {
            Some(process) => Ok(process),
            None => {
                proof {
                    assert(self@.entries =~= old(self)@.entries);
                }
                Err(ProcessError::NotFound)
            },
        }
    }

    /// Whether a process is entered under `process_id`.
    pub fn contains(&self, process_id: u32) -> (present: bool)
        ensures
            present == self@.entries.contains_key(process_id),
    {
        self.processes.contains_key(&process_id)
    }

    /// Number of processes that wait to be collected.
    pub fn len(&self) -> (count: usize)
        ensures
            count == self@.entries.len(),
    {
        self.processes.len()
    }
}

/// Entering and taking out processes keeps the table invariant, and an id
/// whose process has been collected stays retired whatever is entered or
/// taken out afterwards: no process is found under it again.
pub proof fn lemma_retired_for_good<T>(table: ProcessTableView<T>, id: u32, process: T, other: u32)
    requires
        table.wf(),
        table.retired(id),
    ensures
        table.issued < ProcessTableView::<T>::id_space() ==> table.add(process).wf() && table.add(
            process,
        ).retired(id),
        table.remove(other).wf(),
        table.remove(other).retired(id),
{
}

/// Taking a process out retires its id.
pub proof fn lemma_remove_retires<T>(table: ProcessTableView<T>, id: u32)
    requires
        table.wf(),
        table.entries.contains_key(id),
    ensures
        table.remove(id).wf(),
        table.remove(id).retired(id),
        !table.remove(id).entries.contains_key(id),
{
}

} // verus!
