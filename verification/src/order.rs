//! Ordering a list of records by process identifier.

use crate::process::{has_pid, views, Process, ProcessView};
use vstd::prelude::*;

verus! {

/// Each record's identifier is at most that of every later record.
pub open spec fn ordered_by_pid(records: Seq<ProcessView>) -> bool {
    forall|i: int, j: int| 0 <= i < j < records.len() ==> records[i].pid <= records[j].pid
}

/// Each record's identifier is below that of every later record.
pub open spec fn ascending_by_pid(records: Seq<ProcessView>) -> bool {
    forall|i: int, j: int| 0 <= i < j < records.len() ==> records[i].pid < records[j].pid
}

/// No two records have the same identifier.
pub open spec fn distinct_pids(records: Seq<ProcessView>) -> bool {
    forall|i: int, j: int|
        0 <= i < records.len() && 0 <= j < records.len() && i != j ==> records[i].pid
            != records[j].pid
}

/// Sorts `records` by ascending process identifier. The list keeps exactly
/// the records it had.
pub fn sort_by_pid(records: &mut Vec<Process>)
    ensures
        ordered_by_pid(views(final(records)@)),
        final(records)@.to_multiset() == old(records)@.to_multiset(),
{
    let total = records.len();
    let mut done: usize = 0;
    while done < total
        invariant
            done <= total,
            records@.len() == total,
            ordered_by_pid(views(records@.take(done as int))),
            records@.to_multiset() == old(records)@.to_multiset(),
        decreases total - done,
    {
        let ghost before = records@;
        let moved = records.remove(done);
        let ghost without = records@;
        let mut place: usize = done;
        while place > 0 && records[place - 1].pid > moved.pid
            invariant
                place <= done,
                done < total,
                records@ == without,
                without.len() == total - 1,
                forall|k: int| place <= k < done ==> without[k].pid > moved.pid,
            decreases place,
        {
            place = place - 1;
        }
        records.insert(place, moved);
        proof {
            vstd::seq_lib::to_multiset_remove(before, done as int);
            vstd::seq_lib::to_multiset_insert(without, place as int, moved);
            assert(before.to_multiset().count(moved) > 0) by {
                vstd::seq_lib::to_multiset_contains(before, moved);
                assert(before.contains(moved));
            }
            assert(records@.to_multiset() =~= before.to_multiset());
            let sorted = views(records@.take(done + 1));
            let earlier = views(before.take(done as int));
            assert forall|i: int, j: int| 0 <= i < j < sorted.len() implies sorted[i].pid
                <= sorted[j].pid by {
                let from_i = if i < place { i } else { i - 1 };
                let from_j = if j < place { j } else { j - 1 };
                if i != place {
                    assert(sorted[i] == earlier[from_i]);
                }
                if j != place {
                    assert(sorted[j] == earlier[from_j]);
                }
                if j == place && from_i < place - 1 {
                    assert(earlier[from_i].pid <= earlier[place - 1].pid);
                }
            }
        }
        done = done + 1;
    }
    proof {
        assert(records@.take(total as int) =~= records@);
    }
}

/// Rearranging a list whose identifiers are distinct keeps them distinct,
/// and keeps each record.
pub proof fn lemma_rearranged(before: Seq<Process>, after: Seq<Process>)
    requires
        after.to_multiset() == before.to_multiset(),
        distinct_pids(views(before)),
    ensures
        distinct_pids(views(after)),
        forall|x: Process| before.contains(x) <==> after.contains(x),
        forall|pid: u32| has_pid(views(before), pid) <==> has_pid(views(after), pid),
{
    assert forall|x: Process| before.contains(x) <==> after.contains(x) by {
        vstd::seq_lib::to_multiset_contains(before, x);
        vstd::seq_lib::to_multiset_contains(after, x);
    }
    assert forall|pid: u32| has_pid(views(before), pid) <==> has_pid(views(after), pid) by {
        if has_pid(views(before), pid) {
            let i = choose|i: int| 0 <= i < before.len() && (#[trigger] views(before)[i]).pid == pid;
            assert(before.contains(before[i]));
            let j = choose|j: int| 0 <= j < after.len() && after[j] == before[i];
            assert(views(after)[j].pid == pid);
        }
        if has_pid(views(after), pid) {
            let i = choose|i: int| 0 <= i < after.len() && (#[trigger] views(after)[i]).pid == pid;
            assert(after.contains(after[i]));
            let j = choose|j: int| 0 <= j < before.len() && before[j] == after[i];
            assert(views(before)[j].pid == pid);
        }
    }
    assert(before.no_duplicates()) by {
        assert forall|i: int, j: int|
            0 <= i < before.len() && 0 <= j < before.len() && i != j implies before[i]
            != before[j] by {
            assert(views(before)[i].pid != views(before)[j].pid);
        }
    }
    before.lemma_multiset_has_no_duplicates();
    after.lemma_multiset_has_no_duplicates_conv();
    assert forall|i: int, j: int|
        0 <= i < after.len() && 0 <= j < after.len() && i != j implies views(after)[i].pid
        != views(after)[j].pid by {
        assert(after.contains(after[i]));
        assert(after.contains(after[j]));
        let k = choose|k: int| 0 <= k < before.len() && before[k] == after[i];
        let l = choose|l: int| 0 <= l < before.len() && before[l] == after[j];
        if views(after)[i].pid == views(after)[j].pid {
            assert(views(before)[k].pid == views(before)[l].pid);
            assert(k == l);
            assert(after[i] == after[j]);
        }
    }
}

/// A list in ascending order holds no identifier twice.
pub proof fn lemma_ascending_is_distinct(records: Seq<ProcessView>)
    requires
        ascending_by_pid(records),
    ensures
        distinct_pids(records),
        ordered_by_pid(records),
{
    assert forall|i: int, j: int|
        0 <= i < records.len() && 0 <= j < records.len() && i != j implies records[i].pid
        != records[j].pid by {
        if i < j {
            assert(records[i].pid < records[j].pid);
        } else {
            assert(records[j].pid < records[i].pid);
        }
    }
}

/// A list that is ordered and holds no identifier twice is in ascending
/// order.
pub proof fn lemma_ordered_distinct_is_ascending(records: Seq<ProcessView>)
    requires
        ordered_by_pid(records),
        distinct_pids(records),
    ensures
        ascending_by_pid(records),
{
}

} // verus!
