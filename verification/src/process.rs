//! The record of one listed process.

use vstd::prelude::*;

verus! {

/// One process of the invoking user, as the inventory lists it.
#[derive(Debug, PartialEq, Eq)]
pub struct Process {
    /// The process identifier.
    pub pid: u32,
    /// The logical parent: `None` where the process has no parent, where the
    /// parent is gone, and where the parent is the launcher.
    pub ppid: Option<u32>,
    /// The executable's name. Several processes may share one name.
    pub name: String,
}

/// The mathematical value of a [`Process`]: its fields, the name as a
/// sequence of characters.
pub ghost struct ProcessView {
    pub pid: u32,
    pub ppid: Option<u32>,
    pub name: Seq<char>,
}

impl View for Process {
    type V = ProcessView;

    open spec fn view(&self) -> ProcessView {
        ProcessView { pid: self.pid, ppid: self.ppid, name: self.name@ }
    }
}

impl Clone for Process {
    fn clone(&self) -> (copy: Self)
        ensures
            copy == *self,
    {
        Process { pid: self.pid, ppid: self.ppid, name: self.name.clone() }
    }
}

/// The values of a list of records, in the list's order.
pub open spec fn views(records: Seq<Process>) -> Seq<ProcessView> {
    records.map_values(|p: Process| p@)
}

/// Some record of the list has the identifier `pid`.
pub open spec fn has_pid(records: Seq<ProcessView>, pid: u32) -> bool {
    exists|i: int| 0 <= i < records.len() && (#[trigger] records[i]).pid == pid
}

} // verus!
