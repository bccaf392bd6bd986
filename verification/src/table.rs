//! A snapshot of the operating system's process table.
//!
//! The snapshot is an ordinary `HashMap` from process identifier to
//! [`TableEntry`]. It holds the processes of every user: the inventory needs
//! them all to tell whether a parent is still alive and what it is called.

use std::collections::HashMap;
use vstd::prelude::*;

verus! {

broadcast use vstd::std_specs::hash::group_hash_axioms;

/// The name under which the launcher runs. A process started from the
/// launcher is listed without a parent.
pub const LAUNCHER_NAME: &'static str = "explorer.exe";

/// The label shown for a parent that the snapshot does not hold.
pub const NOT_FOUND: &'static str = "Not found";

/// What a snapshot holds of one process.
#[derive(Debug, PartialEq, Eq)]
pub struct TableEntry {
    /// The parent that the operating system reports, if any.
    pub parent: Option<u32>,
    /// The owner's identity, or `None` where it could not be read. Two
    /// processes have the same owner exactly when these texts are equal.
    pub owner: Option<String>,
    /// The executable's name.
    pub name: String,
}

impl TableEntry {
    /// The owner's identity as a sequence of characters.
    pub open spec fn owner_text(self) -> Option<Seq<char>> {
        match self.owner {
            Some(text) => Some(text@),
            None => None,
        }
    }
}

/// The launcher's name as a sequence of characters.
pub open spec fn launcher_name() -> Seq<char> {
    LAUNCHER_NAME@
}

/// The parent under which `pid` is listed: the reported parent, unless it is
/// missing from the snapshot or is the launcher.
pub open spec fn logical_parent(table: Map<u32, TableEntry>, pid: u32) -> Option<u32> {
    match table[pid].parent {
        Some(parent) => if table.contains_key(parent) && table[parent].name@ != launcher_name() {
            Some(parent)
        } else {
            None
        },
        None => None,
    }
}

/// Computes the parent under which the process `pid` of `table` is listed.
pub fn parent_of(table: &HashMap<u32, TableEntry>, pid: u32) -> (parent: Option<u32>)
    ensures
        parent == if table@.contains_key(pid) {
            logical_parent(table@, pid)
        } else {
            None
        },
{
    let launcher = LAUNCHER_NAME.to_owned();
    match table.get(&pid) {
        Some(entry) => match entry.parent {
            Some(reported) => match table.get(&reported) {
                Some(above) => if above.name == launcher {
                    None
                } else {
                    Some(reported)
                },
                None => None,
            },
            None => None,
        },
        None => None,
    }
}

/// The label shown for the parent `ppid`: nothing where there is no parent,
/// the parent's name where the snapshot holds it, and otherwise
/// [`NOT_FOUND`].
pub open spec fn label_of(table: Map<u32, TableEntry>, ppid: Option<u32>) -> Seq<char> {
    match ppid {
        None => Seq::empty(),
        Some(parent) => if table.contains_key(parent) {
            table[parent].name@
        } else {
            NOT_FOUND@
        },
    }
}

/// Looks up the name of the process `pid`. A process that the snapshot does
/// not hold has none.
pub fn name_of(table: &HashMap<u32, TableEntry>, pid: u32) -> (name: Option<String>)
    ensures
        match name {
            Some(text) => table@.contains_key(pid) && text@ == table@[pid].name@,
            None => !table@.contains_key(pid),
        },
{
    match table.get(&pid) {
        Some(entry) => Some(entry.name.clone()),
        None => None,
    }
}

/// Returns the label to show for the parent `ppid`.
pub fn parent_label(table: &HashMap<u32, TableEntry>, ppid: Option<u32>) -> (label: String)
    ensures
        label@ == label_of(table@, ppid),
{
    match ppid {
        None => String::new(),
        Some(parent) => match name_of(table, parent) {
            Some(name) => name,
            None => NOT_FOUND.to_owned(),
        },
    }
}

} // verus!
