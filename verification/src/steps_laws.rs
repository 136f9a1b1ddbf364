//! Which steps a reply comes down to, step by step.

use crate::conf::ConfStep;
use crate::steps::{
    first_invalid_key, invalid_index_message, keyed_steps, keys_are_valid, listed_steps,
};
use crate::text::index_of_key;
use vstd::prelude::*;

verus! {

/// A list gives each of its steps the index of its place, and no other index a step.
pub proof fn listed_step_keeps_its_place(list: Seq<ConfStep>, index: u32)
    ensures
        listed_steps(list).contains_key(index) <==> index < list.len(),
        index < list.len() ==> listed_steps(list)[index] == list[index as int].checkboxes@,
{
}

/// One more step in a list comes at the next index and leaves the others as they are.
pub proof fn one_more_listed_step(list: Seq<ConfStep>, step: ConfStep)
    requires
        list.len() < u32::MAX,
    ensures
        listed_steps(list.push(step)) == listed_steps(list).insert(
            list.len() as u32,
            step.checkboxes@,
        ),
        listed_steps(Seq::empty()) == Map::<u32, Seq<u32>>::empty(),
{
    assert(listed_steps(list.push(step)) =~= listed_steps(list).insert(
        list.len() as u32,
        step.checkboxes@,
    ));
    assert(listed_steps(Seq::empty()) =~= Map::<u32, Seq<u32>>::empty());
}

/// Of the entries whose keys denote the same index, the last one counts.
pub proof fn last_entry_counts(entries: Seq<(String, ConfStep)>, k: int, index: u32)
    requires
        0 <= k < entries.len(),
        forall|n: int|
            0 <= n < entries.len() ==> index_of_key((#[trigger] entries[n]).0@) is Some,
        index_of_key(entries[k].0@) == Some(index),
        forall|n: int|
            k < n < entries.len() ==> index_of_key((#[trigger] entries[n]).0@) != Some(index),
    ensures
        keys_are_valid(entries),
        keyed_steps(entries).contains_key(index),
        keyed_steps(entries)[index] == entries[k].1.checkboxes@,
    decreases entries.len(),
{
    let rest = entries.drop_last();
    assert(forall|n: int| 0 <= n < rest.len() ==> #[trigger] rest[n] == entries[n]);
    let last = entries.len() - 1;
    assert(index_of_key(entries[last].0@) is Some);
    if k < last {
        last_entry_counts(rest, k, index);
        assert(index_of_key(entries[last].0@) != Some(index));
    }
}

/// An index that no key denotes has no step.
pub proof fn no_key_no_step(entries: Seq<(String, ConfStep)>, index: u32)
    requires
        forall|n: int|
            0 <= n < entries.len() ==> index_of_key((#[trigger] entries[n]).0@) is Some
                && index_of_key(entries[n].0@) != Some(index),
    ensures
        !keyed_steps(entries).contains_key(index),
    decreases entries.len(),
{
    if entries.len() > 0 {
        let rest = entries.drop_last();
        assert(forall|n: int| 0 <= n < rest.len() ==> #[trigger] rest[n] == entries[n]);
        assert(index_of_key(entries[entries.len() - 1].0@) is Some);
        no_key_no_step(rest, index);
    }
}

/// Entries are refused exactly where some key denotes no index, and the refusal names the first such
/// key.
pub proof fn first_invalid_key_is_named(entries: Seq<(String, ConfStep)>, at: int)
    ensures
        keys_are_valid(entries) <==> (forall|n: int|
            0 <= n < entries.len() ==> index_of_key((#[trigger] entries[n]).0@) is Some),
        first_invalid_key(entries, at) <==> 0 <= at < entries.len() && index_of_key(
            entries[at].0@,
        ) is None && (forall|n: int|
            0 <= n < at ==> index_of_key((#[trigger] entries[n]).0@) is Some),
        invalid_index_message(entries[at].0@) == "invalid step index: "@ + entries[at].0@,
{
    if 0 <= at < entries.len() {
        assert(forall|n: int| 0 <= n < at ==> #[trigger] entries.take(at)[n] == entries[n]);
        if first_invalid_key(entries, at) {
            assert forall|n: int| 0 <= n < at implies index_of_key(
                (#[trigger] entries[n]).0@,
            ) is Some by {
                assert(entries.take(at)[n] == entries[n]);
            }
        }
    }
}

} // verus!
