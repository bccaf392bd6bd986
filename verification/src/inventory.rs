//! The inventory: the processes of the invoking user, ordered by identifier.

use crate::error::ControlError;
use crate::order::{
    ascending_by_pid, distinct_pids, lemma_ascending_is_distinct, lemma_rearranged, sort_by_pid,
};
use crate::process::{has_pid, views, Process, ProcessView};
use crate::table::{launcher_name, logical_parent, parent_of, TableEntry};
use std::collections::HashMap;
use vstd::prelude::*;
use vstd::std_specs::iter::IteratorSpec;

verus! {

broadcast use vstd::std_specs::hash::group_hash_axioms;

/// The snapshot tells who owns the process `current_pid`.
pub open spec fn owner_known(table: Map<u32, TableEntry>, current_pid: u32) -> bool {
    table.contains_key(current_pid) && table[current_pid].owner is Some
}

/// The process `pid` is in the snapshot and has the owner of `current_pid`.
pub open spec fn is_listed(table: Map<u32, TableEntry>, current_pid: u32, pid: u32) -> bool {
    &&& owner_known(table, current_pid)
    &&& table.contains_key(pid)
    &&& table[pid].owner_text() == table[current_pid].owner_text()
}

/// The record under which the process `pid` of the snapshot is listed.
pub open spec fn record_of(table: Map<u32, TableEntry>, pid: u32) -> ProcessView {
    ProcessView { pid, ppid: logical_parent(table, pid), name: table[pid].name@ }
}

/// `inventory` is the inventory that `table` gives for `current_pid`: in
/// ascending order of identifier, one record for each listed process and no
/// other.
pub open spec fn is_inventory(
    inventory: Seq<ProcessView>,
    table: Map<u32, TableEntry>,
    current_pid: u32,
) -> bool {
    &&& ascending_by_pid(inventory)
    &&& forall|pid: u32| #[trigger] has_pid(inventory, pid) <==> is_listed(table, current_pid, pid)
    &&& forall|i: int|
        0 <= i < inventory.len() ==> (#[trigger] inventory[i]) == record_of(
            table,
            inventory[i].pid,
        )
}

/// One of the first `upto` pairs of `pairs` has the key `pid`.
spec fn walked(pairs: Seq<(&u32, &TableEntry)>, upto: int, pid: u32) -> bool {
    exists|k: int| 0 <= k < upto && *(#[trigger] pairs[k]).0 == pid
}

/// The identifiers of a list with one more record are those of the list and
/// the new record's; where the new one is not among the old, they stay
/// distinct.
proof fn lemma_pushed(earlier: Seq<Process>, record: Process)
    ensures
        forall|pid: u32| #[trigger]
            has_pid(views(earlier.push(record)), pid) <==> has_pid(views(earlier), pid) || pid
                == record.pid,
        distinct_pids(views(earlier)) && !has_pid(views(earlier), record.pid) ==> distinct_pids(
            views(earlier.push(record)),
        ),
{
    let later = earlier.push(record);
    assert forall|pid: u32| #[trigger]
        has_pid(views(later), pid) <==> has_pid(views(earlier), pid) || pid == record.pid by {
        if has_pid(views(later), pid) {
            let i = choose|i: int| 0 <= i < later.len() && (#[trigger] views(later)[i]).pid == pid;
            if i < earlier.len() {
                assert(views(earlier)[i].pid == pid);
            }
        }
        if has_pid(views(earlier), pid) {
            let i = choose|i: int|
                0 <= i < earlier.len() && (#[trigger] views(earlier)[i]).pid == pid;
            assert(views(later)[i].pid == pid);
        }
        if pid == record.pid {
            assert(views(later)[earlier.len() as int].pid == pid);
        }
    }
    if distinct_pids(views(earlier)) && !has_pid(views(earlier), record.pid) {
        assert forall|i: int, j: int|
            0 <= i < later.len() && 0 <= j < later.len() && i != j implies views(later)[i].pid
            != views(later)[j].pid by {
            if i < earlier.len() {
                assert(views(earlier)[i].pid == views(later)[i].pid);
            }
            if j < earlier.len() {
                assert(views(earlier)[j].pid == views(later)[j].pid);
            }
        }
    }
}

/// Builds the inventory of the snapshot `table` for the process
/// `current_pid`: the processes whose owner is that of `current_pid`, each
/// under its logical parent, in ascending order of identifier.
///
/// Fails with `SnapshotFailure` exactly when the snapshot does not tell who
/// owns `current_pid`.
pub fn build_inventory(table: &HashMap<u32, TableEntry>, current_pid: u32) -> (outcome: Result<
    Vec<Process>,
    ControlError,
>)
    ensures
        match outcome {
            Ok(inventory) => owner_known(table@, current_pid) && is_inventory(
                views(inventory@),
                table@,
                current_pid,
            ),
            Err(error) => !owner_known(table@, current_pid) && error
                == ControlError::SnapshotFailure,
        },
{
    let own = match table.get(&current_pid) {
        Some(entry) => entry,
        None => {
            return Err(ControlError::SnapshotFailure);
        },
    };
    let owner = match &own.owner {
        Some(owner) => owner,
        None => {
            return Err(ControlError::SnapshotFailure);
        },
    };
    let mut listed: Vec<Process> = Vec::new();
    let ghost pairs = table.iter().remaining();
    let ghost mut at: int = 0;
    for pair in walk: table.iter()
        invariant
            walk.seq() == pairs,
            walk.index() == at,
            owner_known(table@, current_pid),
            table@[current_pid].owner == Some(*owner),
            pairs.no_duplicates(),
            forall|k: int|
                0 <= k < pairs.len() ==> table@.contains_key(*(#[trigger] pairs[k]).0)
                    && table@[*pairs[k].0] == *pairs[k].1,
            forall|pid: u32|
                table@.contains_key(pid) ==> #[trigger] walked(pairs, pairs.len() as int, pid),
            forall|pid: u32| #[trigger]
                has_pid(views(listed@), pid) <==> walked(pairs, at, pid) && is_listed(
                    table@,
                    current_pid,
                    pid,
                ),
            forall|i: int|
                0 <= i < listed@.len() ==> (#[trigger] listed@[i])@ == record_of(
                    table@,
                    listed@[i].pid,
                ),
            distinct_pids(views(listed@)),
    {
        let (pid, entry) = pair;
        let ghost earlier = listed@;
        let same_owner = match &entry.owner {
            Some(theirs) => *theirs == *owner,
            None => false,
        };
        proof {
            assert(pairs[at] == pair);
            assert(same_owner == is_listed(table@, current_pid, *pid));
            assert(!walked(pairs, at, *pid)) by {
                if walked(pairs, at, *pid) {
                    let k = choose|k: int| 0 <= k < at && *(#[trigger] pairs[k]).0 == *pid;
                    assert(pairs[k] == pairs[at]);
                }
            }
            assert forall|other: u32|
                walked(pairs, at + 1, other) <==> walked(pairs, at, other) || other == *pid by {
                if walked(pairs, at, other) {
                    let k = choose|k: int| 0 <= k < at && *(#[trigger] pairs[k]).0 == other;
                    assert(*pairs[k].0 == other);
                }
                if other == *pid {
                    assert(*pairs[at].0 == other);
                }
            }
        }
        if same_owner {
            let record = Process { pid: *pid, ppid: parent_of(table, *pid), name: entry.name.clone() };
            listed.push(record);
            proof {
                lemma_pushed(earlier, record);
            }
        }
        proof {
            at = at + 1;
        }
    }
    let ghost unsorted = listed@;
    sort_by_pid(&mut listed);
    proof {
        lemma_rearranged(unsorted, listed@);
        assert forall|i: int| 0 <= i < listed@.len() implies (#[trigger] views(listed@)[i])
            == record_of(table@, views(listed@)[i].pid) by {
            assert(listed@.contains(listed@[i]));
            let j = choose|j: int| 0 <= j < unsorted.len() && unsorted[j] == listed@[i];
            assert(unsorted[j]@ == record_of(table@, unsorted[j].pid));
        }
        assert forall|pid: u32| #[trigger]
            has_pid(views(listed@), pid) <==> is_listed(table@, current_pid, pid) by {
            assert(has_pid(views(unsorted), pid) <==> has_pid(views(listed@), pid));
            if is_listed(table@, current_pid, pid) {
                assert(walked(pairs, pairs.len() as int, pid));
            }
        }
    }
    Ok(listed)
}

/// Two lists in ascending order that hold the same identifiers hold them at
/// the same places.
pub proof fn lemma_same_pids_same_places(first: Seq<ProcessView>, second: Seq<ProcessView>)
    requires
        ascending_by_pid(first),
        ascending_by_pid(second),
        forall|pid: u32| has_pid(first, pid) <==> has_pid(second, pid),
    ensures
        first.len() == second.len(),
        forall|i: int| 0 <= i < first.len() ==> first[i].pid == second[i].pid,
    decreases first.len(),
{
    if first.len() == 0 {
        if second.len() > 0 {
            assert(has_pid(second, second[0].pid));
        }
    } else {
        let last = first.len() - 1;
        assert(has_pid(first, first[last].pid));
        let there = choose|j: int|
            0 <= j < second.len() && (#[trigger] second[j]).pid == first[last].pid;
        let end = second.len() - 1;
        assert(has_pid(second, second[end].pid));
        let here = choose|j: int|
            0 <= j < first.len() && (#[trigger] first[j]).pid == second[end].pid;
        assert(first[last].pid == second[end].pid) by {
            if there < end {
                assert(second[there].pid < second[end].pid);
            }
            if here < last {
                assert(first[here].pid < first[last].pid);
            }
        }
        let shorter = first.drop_last();
        let other = second.drop_last();
        assert forall|pid: u32| has_pid(shorter, pid) <==> has_pid(other, pid) by {
            if has_pid(shorter, pid) {
                let i = choose|i: int| 0 <= i < shorter.len() && (#[trigger] shorter[i]).pid == pid;
                assert(first[i].pid == pid);
                assert(first[i].pid < first[last].pid);
                assert(has_pid(first, pid));
                let j = choose|j: int| 0 <= j < second.len() && (#[trigger] second[j]).pid == pid;
                assert(other[j].pid == pid);
            }
            if has_pid(other, pid) {
                let i = choose|i: int| 0 <= i < other.len() && (#[trigger] other[i]).pid == pid;
                assert(second[i].pid == pid);
                assert(second[i].pid < second[end].pid);
                assert(has_pid(second, pid));
                let j = choose|j: int| 0 <= j < first.len() && (#[trigger] first[j]).pid == pid;
                assert(shorter[j].pid == pid);
            }
        }
        lemma_same_pids_same_places(shorter, other);
        assert forall|i: int| 0 <= i < first.len() implies first[i].pid == second[i].pid by {
            if i < last {
                assert(shorter[i].pid == other[i].pid);
            }
        }
    }
}

/// A snapshot has at most one inventory for a process: the order and the
/// records are fixed by the snapshot alone, not by the order in which it was
/// walked.
pub proof fn lemma_inventory_is_unique(
    first: Seq<ProcessView>,
    second: Seq<ProcessView>,
    table: Map<u32, TableEntry>,
    current_pid: u32,
)
    requires
        is_inventory(first, table, current_pid),
        is_inventory(second, table, current_pid),
    ensures
        first == second,
{
    assert forall|pid: u32| has_pid(first, pid) <==> has_pid(second, pid) by {
        assert(has_pid(first, pid) <==> is_listed(table, current_pid, pid));
        assert(has_pid(second, pid) <==> is_listed(table, current_pid, pid));
    }
    lemma_same_pids_same_places(first, second);
    assert(first =~= second);
}

/// An inventory is in strictly ascending order of identifier and holds no
/// identifier twice.
pub proof fn lemma_inventory_is_strictly_ordered(
    inventory: Seq<ProcessView>,
    table: Map<u32, TableEntry>,
    current_pid: u32,
)
    requires
        is_inventory(inventory, table, current_pid),
    ensures
        ascending_by_pid(inventory),
        distinct_pids(inventory),
{
    lemma_ascending_is_distinct(inventory);
}

/// A parent named in an inventory is a process of the snapshot and is not
/// the launcher; the parent is the one that the snapshot reports.
pub proof fn lemma_parent_is_not_launcher(
    inventory: Seq<ProcessView>,
    table: Map<u32, TableEntry>,
    current_pid: u32,
    i: int,
)
    requires
        is_inventory(inventory, table, current_pid),
        0 <= i < inventory.len(),
        inventory[i].ppid is Some,
    ensures
        table[inventory[i].pid].parent == inventory[i].ppid,
        table.contains_key(inventory[i].ppid->0),
        table[inventory[i].ppid->0].name@ != launcher_name(),
{
    assert(inventory[i] == record_of(table, inventory[i].pid));
}

/// Every record of an inventory stands for a process of the snapshot, under
/// its name there, and has the owner of the process the inventory was taken
/// for; that process is itself listed.
pub proof fn lemma_inventory_is_owned(
    inventory: Seq<ProcessView>,
    table: Map<u32, TableEntry>,
    current_pid: u32,
)
    requires
        owner_known(table, current_pid),
        is_inventory(inventory, table, current_pid),
    ensures
        has_pid(inventory, current_pid),
        forall|i: int|
            0 <= i < inventory.len() ==> {
                let pid = (#[trigger] inventory[i]).pid;
                &&& table.contains_key(pid)
                &&& table[pid].owner_text() == table[current_pid].owner_text()
                &&& table[pid].name@ == inventory[i].name
            },
{
    assert(is_listed(table, current_pid, current_pid));
    assert forall|i: int| 0 <= i < inventory.len() implies {
        let pid = (#[trigger] inventory[i]).pid;
        &&& table.contains_key(pid)
        &&& table[pid].owner_text() == table[current_pid].owner_text()
        &&& table[pid].name@ == inventory[i].name
    } by {
        assert(has_pid(inventory, inventory[i].pid));
        assert(inventory[i] == record_of(table, inventory[i].pid));
    }
}

} // verus!
