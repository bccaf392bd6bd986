//! Choosing the records that the list shows.

use crate::order::ascending_by_pid;
use crate::process::{views, Process, ProcessView};
use crate::text::{lowercase_of, name_matches, text_matches};
use vstd::prelude::*;

verus! {

/// A record is shown when its name matches the filter text and, where
/// children are hidden, it has no parent.
pub open spec fn is_shown(record: ProcessView, text: Seq<char>, hide_children: bool) -> bool {
    &&& !(hide_children && record.ppid is Some)
    &&& text_matches(text, record.name)
}

/// The test that a filter applies to each record.
pub open spec fn show_test(text: Seq<char>, hide_children: bool) -> spec_fn(ProcessView) -> bool {
    |record: ProcessView| is_shown(record, text, hide_children)
}

/// The records of `inventory` that are shown, in the inventory's order.
pub open spec fn shown(inventory: Seq<ProcessView>, text: Seq<char>, hide_children: bool) -> Seq<
    ProcessView,
> {
    inventory.filter(show_test(text, hide_children))
}

/// Returns the records of `inventory` that the list shows for the filter
/// `text`, in the inventory's order: those whose name contains `text`
/// without regard to case and, with `hide_children`, only those without a
/// parent. The inventory itself is left as it is.
///
/// An empty `text` matches every name.
pub fn filter(inventory: &Vec<Process>, text: &str, hide_children: bool) -> (kept: Vec<Process>)
    ensures
        views(kept@) == shown(views(inventory@), text@, hide_children),
        text@.len() == 0 && !hide_children ==> views(kept@) == views(inventory@),
        hide_children ==> forall|i: int| 0 <= i < kept@.len() ==> kept@[i].ppid is None,
{
    let mut kept: Vec<Process> = Vec::new();
    let mut i: usize = 0;
    while i < inventory.len()
        invariant
            i <= inventory@.len(),
            views(kept@) == shown(views(inventory@).take(i as int), text@, hide_children),
        decreases inventory@.len() - i,
    {
        let record = &inventory[i];
        let keep = !(hide_children && record.ppid.is_some()) && name_matches(
            text,
            record.name.as_str(),
        );
        proof {
            let upto = views(inventory@).take(i + 1);
            assert(upto.drop_last() =~= views(inventory@).take(i as int));
            assert(upto.last() == record@);
            assert(keep == is_shown(record@, text@, hide_children));
            reveal(Seq::filter);
            if keep {
                assert(views(kept@.push(*record)) =~= views(kept@).push(record@));
            }
        }
        if keep {
            kept.push(record.clone());
        }
        i = i + 1;
    }
    proof {
        assert(views(inventory@).take(i as int) =~= views(inventory@));
        if text@.len() == 0 {
            assert(text@ =~= Seq::<char>::empty());
            lemma_empty_text_shows_all(views(inventory@));
        }
        if hide_children {
            lemma_hidden_children(views(inventory@), text@);
            assert forall|i: int| 0 <= i < kept@.len() implies kept@[i].ppid is None by {
                assert(views(kept@)[i].ppid is None);
            }
        }
    }
    kept
}

/// With an empty text and children shown, every record is shown.
pub proof fn lemma_empty_text_shows_all(inventory: Seq<ProcessView>)
    ensures
        shown(inventory, Seq::<char>::empty(), false) == inventory,
    decreases inventory.len(),
{
    reveal(Seq::filter);
    if inventory.len() > 0 {
        lemma_empty_text_shows_all(inventory.drop_last());
        assert(inventory.drop_last().push(inventory.last()) =~= inventory);
    }
}

/// With children hidden, no record that is shown has a parent.
pub proof fn lemma_hidden_children(inventory: Seq<ProcessView>, text: Seq<char>)
    ensures
        forall|i: int|
            0 <= i < shown(inventory, text, true).len() ==> (#[trigger] shown(
                inventory,
                text,
                true,
            )[i]).ppid is None,
{
    let kept = shown(inventory, text, true);
    assert forall|i: int| 0 <= i < kept.len() implies (#[trigger] kept[i]).ppid is None by {
        inventory.lemma_filter_pred(show_test(text, true), i);
    }
}

/// Two texts that are both empty or both not, and that have the same
/// lowercase form, show the same records: the filter does not tell case
/// apart.
pub proof fn lemma_case_is_ignored(
    inventory: Seq<ProcessView>,
    first: Seq<char>,
    second: Seq<char>,
    hide_children: bool,
)
    requires
        lowercase_of(first) == lowercase_of(second),
        first.len() == 0 <==> second.len() == 0,
    ensures
        shown(inventory, first, hide_children) == shown(inventory, second, hide_children),
{
    assert(show_test(first, hide_children) =~= show_test(second, hide_children));
}

/// The records shown of a list in ascending order of identifier are in
/// ascending order too.
pub proof fn lemma_shown_keeps_order(
    inventory: Seq<ProcessView>,
    text: Seq<char>,
    hide_children: bool,
)
    requires
        ascending_by_pid(inventory),
    ensures
        ascending_by_pid(shown(inventory, text, hide_children)),
    decreases inventory.len(),
{
    reveal(Seq::filter);
    if inventory.len() > 0 {
        let front = inventory.drop_last();
        let last = inventory.last();
        let kept = shown(front, text, hide_children);
        lemma_shown_keeps_order(front, text, hide_children);
        assert forall|i: int| 0 <= i < kept.len() implies (#[trigger] kept[i]).pid < last.pid by {
            assert(kept.contains(kept[i]));
            front.lemma_filter_contains_rev(show_test(text, hide_children), kept[i]);
            let j = choose|j: int| 0 <= j < front.len() && front[j] == kept[i];
            assert(inventory[j].pid < inventory[inventory.len() - 1].pid);
        }
    }
}

} // verus!
