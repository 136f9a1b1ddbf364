//! The steps of a progress as the server sends them: an object keyed by step index when the indices
//! are sparse, a plain list when they are contiguous from 0, or nothing.

use crate::conf::{steps_view, ConfStep, StepsView};
use crate::text::{decimal, index_of_key, index_survives_its_key, parse_index};
use std::collections::HashMap;
use vstd::prelude::*;
use vstd::std_specs::iter::IteratorSpec;

verus! {

/// The steps of a progress, as they stand in a reply.
#[derive(Debug)]
pub enum SentSteps {
    Missing,
    List(Vec<ConfStep>),
    Keyed(Vec<(String, ConfStep)>),
}

/// The steps of a list: each at its own position.
pub open spec fn listed_steps(list: Seq<ConfStep>) -> StepsView {
    Map::new(|i: u32| i < list.len(), |i: u32| list[i as int].checkboxes@)
}

/// Every key denotes a step index.
pub open spec fn keys_are_valid(entries: Seq<(String, ConfStep)>) -> bool {
    forall|k: int| 0 <= k < entries.len() ==> index_of_key((#[trigger] entries[k]).0@) is Some
}

/// The key at `at` is the first that denotes no step index.
pub open spec fn first_invalid_key(entries: Seq<(String, ConfStep)>, at: int) -> bool {
    &&& 0 <= at < entries.len()
    &&& index_of_key(entries[at].0@) is None
    &&& keys_are_valid(entries.take(at))
}

/// The steps of keyed entries: each at the index of its key, a later entry replacing an earlier one.
pub open spec fn keyed_steps(entries: Seq<(String, ConfStep)>) -> StepsView
    decreases entries.len(),
{
    if entries.len() == 0 {
        Map::empty()
    } else {
        keyed_steps(entries.drop_last()).insert(
            index_of_key(entries.last().0@)->0,
            entries.last().1.checkboxes@,
        )
    }
}

/// What a key that denotes no step index is answered.
pub open spec fn invalid_index_message(key: Seq<char>) -> Seq<char> {
    "invalid step index: "@ + key
}

/// Collects steps one by one, as they are read.
#[derive(Debug)]
pub struct StepsBuilder {
    steps: HashMap<u32, ConfStep>,
    next_index: u32,
}

impl StepsBuilder {
    /// The steps collected so far.
    pub closed spec fn collected(self) -> StepsView {
        steps_view(self.steps@)
    }

    /// How many steps came without a key so far.
    pub closed spec fn listed(self) -> u32 {
        self.next_index
    }

    pub fn new() -> (builder: StepsBuilder)
        ensures
            builder.collected() == Map::<u32, Seq<u32>>::empty(),
            builder.listed() == 0,
    {
        let builder = StepsBuilder { steps: HashMap::new(), next_index: 0 };
        assert(builder.collected() =~= Map::<u32, Seq<u32>>::empty());
        builder
    }

    /// Whether one more step without a key can be numbered.
    pub fn has_room(&self) -> (room: bool)
        ensures
            room == (self.listed() < u32::MAX),
    {
        self.next_index < u32::MAX
    }

    /// Adds a step that came without a key, at the next index.
    pub fn add_listed(&mut self, step: ConfStep)
        requires
            old(self).listed() < u32::MAX,
        ensures
            final(self).listed() == old(self).listed() + 1,
            final(self).collected() == old(self).collected().insert(
                old(self).listed(),
                step.checkboxes@,
            ),
    {
        self.steps.insert(self.next_index, step);
        self.next_index += 1;
        assert(self.collected() =~= old(self).collected().insert(
            old(self).listed(),
            step.checkboxes@,
        ));
    }

    /// Adds a step at the index of its key. A key that denotes no index is refused.
    pub fn add_keyed(&mut self, key: &str, step: ConfStep) -> (added: Result<(), String>)
        ensures
            final(self).listed() == old(self).listed(),
            match index_of_key(key@) {
                Some(index) => {
                    &&& added is Ok
                    &&& final(self).collected() == old(self).collected().insert(
                        index,
                        step.checkboxes@,
                    )
                },
                None => {
                    &&& added matches Err(message) && message@ == invalid_index_message(key@)
                    &&& final(self).collected() == old(self).collected()
                },
            },
    {
        match parse_index(key) {
            Some(index) => {
                self.steps.insert(index, step);
                assert(self.collected() =~= old(self).collected().insert(index, step.checkboxes@));
                Ok(())
            },
            None => {
                let mut message = "invalid step index: ".to_owned();
                message.append(key);
                Err(message)
            },
        }
    }

    /// The steps collected.
    pub fn finish(self) -> (steps: HashMap<u32, ConfStep>)
        ensures
            steps_view(steps@) == self.collected(),
    {
        self.steps
    }
}

/// Puts the steps of a reply in the form in which progress holds them.
pub fn deserialize_steps(sent: SentSteps) -> (steps: Result<HashMap<u32, ConfStep>, String>)
    requires
        sent matches SentSteps::List(list) ==> list.len() <= u32::MAX,
    ensures
        match sent {
            SentSteps::Missing => steps matches Ok(steps) && steps_view(steps@) == Map::<
                u32,
                Seq<u32>,
            >::empty(),
            SentSteps::List(list) => steps matches Ok(steps) && steps_view(steps@) == listed_steps(
                list@,
            ),
            SentSteps::Keyed(entries) => match steps {
                Ok(steps) => keys_are_valid(entries@) && steps_view(steps@) == keyed_steps(
                    entries@,
                ),
                Err(message) => exists|at: int| #[trigger]
                    first_invalid_key(entries@, at) && message@ == invalid_index_message(
                        entries@[at].0@,
                    ),
            },
        },
{
    let mut builder = StepsBuilder::new();
    match sent {
        SentSteps::Missing => {},
        SentSteps::List(list) => {
            let ghost all = list@;
            assert(builder.collected() =~= listed_steps(all.take(0)));
            for step in it: list
                invariant
                    it.seq() == all,
                    all.len() <= u32::MAX,
                    builder.listed() == it.index(),
                    builder.collected() == listed_steps(all.take(it.index())),
            {
                builder.add_listed(step);
                assert(builder.collected() =~= listed_steps(all.take(it.index() + 1)));
            }
            assert(all.take(all.len() as int) =~= all);
        },
        SentSteps::Keyed(entries) => {
            let ghost all = entries@;
            assert(all.take(0) =~= Seq::<(String, ConfStep)>::empty());
            for entry in it: entries
                invariant
                    sent matches SentSteps::Keyed(given) && given@ == all,
                    it.seq() == all,
                    keys_are_valid(all.take(it.index())),
                    builder.collected() == keyed_steps(all.take(it.index())),
            {
                let ghost at = it.index();
                let (key, step) = entry;
                assert(all[at] == (key, step));
                if let Err(message) = builder.add_keyed(key.as_str(), step) {
                    assert(first_invalid_key(all, at));
                    return Err(message);
                }
                assert(all.take(at + 1).drop_last() =~= all.take(at));
                assert forall|k: int| 0 <= k < at + 1 implies index_of_key(
                    (#[trigger] all.take(at + 1)[k]).0@,
                ) is Some by {
                    if k < at {
                        assert(all.take(at)[k] == all.take(at + 1)[k]);
                    }
                }
            }
            assert(all.take(all.len() as int) =~= all);
        },
    }
    Ok(builder.finish())
}

/// Whether two progresses tick the same checkboxes in the same steps.
pub fn same_steps(left: &HashMap<u32, ConfStep>, right: &HashMap<u32, ConfStep>) -> (same: bool)
    ensures
        same == (steps_view(left@) == steps_view(right@)),
{
    proof {
        assert(steps_view(left@).dom() =~= left@.dom());
        assert(steps_view(right@).dom() =~= right@.dom());
    }
    if left.len() != right.len() {
        return false;
    }
    let ghost entries = left.iter().remaining();
    for (index, step) in it: left.iter()
        invariant
            entries == left.iter().remaining(),
            it.seq() == entries,
            forall|k: int|
                0 <= k < it.index() ==> right@.contains_key(*(#[trigger] entries[k]).0)
                    && right@[*entries[k].0].checkboxes@ == entries[k].1.checkboxes@,
    {
        assert(left@.contains_key(*index) && left@[*index] == *step);
        assert(steps_view(left@).contains_key(*index));
        match right.get(index) {
            Some(other) => {
                if !(step.checkboxes == other.checkboxes) {
                    assert(steps_view(left@)[*index] != steps_view(right@)[*index]);
                    return false;
                }
                assert(step.checkboxes@ =~= other.checkboxes@);
            },
            None => {
                assert(!steps_view(right@).contains_key(*index));
                return false;
            },
        }
    }
    proof {
        assert forall|index: u32| #[trigger] left@.contains_key(index) implies right@.contains_key(
            index,
        ) && right@[index].checkboxes@ == left@[index].checkboxes@ by {
            assert(entries.contains((&index, &left@[index])));
            let k = entries.index_of((&index, &left@[index]));
            assert(*entries[k].0 == index);
        }
        vstd::set_lib::lemma_subset_equality(left@.dom(), right@.dom());
        assert(steps_view(left@) =~= steps_view(right@));
    }
    true
}

/// The entry writes out the step that `steps` holds at `index`.
pub open spec fn writes_out(entry: (String, ConfStep), steps: StepsView, index: u32) -> bool {
    &&& steps.contains_key(index)
    &&& entry.0@ == decimal(index as nat)
    &&& entry.1.checkboxes@ == steps[index]
}

/// The entry writes out one of `steps`.
pub open spec fn writes_out_a_step(entry: (String, ConfStep), steps: StepsView) -> bool {
    exists|index: u32| writes_out(entry, steps, index)
}

proof fn lemma_written_steps(steps: StepsView, entries: Seq<(String, ConfStep)>)
    requires
        forall|k: int|
            0 <= k < entries.len() ==> writes_out_a_step(#[trigger] entries[k], steps),
    ensures
        keys_are_valid(entries),
        forall|index: u32| #[trigger]
            keyed_steps(entries).contains_key(index) ==> steps.contains_key(index)
                && keyed_steps(entries)[index] == steps[index],
        forall|k: int, index: u32|
            0 <= k < entries.len() && #[trigger] writes_out(entries[k], steps, index)
                ==> keyed_steps(entries).contains_key(index),
    decreases entries.len(),
{
    if entries.len() > 0 {
        let rest = entries.drop_last();
        assert forall|k: int| 0 <= k < rest.len() implies writes_out_a_step(
            #[trigger] rest[k],
            steps,
        ) by {
            assert(rest[k] == entries[k]);
        }
        lemma_written_steps(steps, rest);
        let last = entries.len() - 1;
        assert(writes_out_a_step(entries[last], steps));
        let written = choose|index: u32| writes_out(entries[last], steps, index);
        index_survives_its_key(written);
        assert forall|index: u32| #[trigger]
            keyed_steps(entries).contains_key(index) implies steps.contains_key(index)
            && keyed_steps(entries)[index] == steps[index] by {
            assert(index != written ==> keyed_steps(rest).contains_key(index));
        }
        assert forall|k: int| 0 <= k < entries.len() implies index_of_key(
            (#[trigger] entries[k]).0@,
        ) is Some by {
            if k < last {
                assert(rest[k] == entries[k]);
            }
        }
        assert forall|k: int, index: u32|
            0 <= k < entries.len() && #[trigger] writes_out(
                entries[k],
                steps,
                index,
            ) implies keyed_steps(entries).contains_key(index) by {
            if k < last {
                assert(rest[k] == entries[k]);
                assert(writes_out(rest[k], steps, index));
            } else {
                index_survives_its_key(index);
            }
        }
    }
}

/// Steps written out as an object keyed by decimal step index, in any order, read back as the same
/// steps.
pub proof fn written_steps_read_back(steps: StepsView, entries: Seq<(String, ConfStep)>)
    requires
        forall|k: int|
            0 <= k < entries.len() ==> writes_out_a_step(#[trigger] entries[k], steps),
        forall|index: u32| #[trigger]
            steps.contains_key(index) ==> exists|k: int|
                0 <= k < entries.len() && #[trigger] writes_out(entries[k], steps, index),
    ensures
        keys_are_valid(entries),
        keyed_steps(entries) == steps,
{
    lemma_written_steps(steps, entries);
    assert(keyed_steps(entries) =~= steps);
}

/// Contiguous steps read the same whether they come as a list or as an object keyed by position.
pub proof fn list_and_object_agree(list: Seq<ConfStep>, entries: Seq<(String, ConfStep)>)
    requires
        list.len() == entries.len() <= u32::MAX,
        forall|k: int|
            0 <= k < entries.len() ==> (#[trigger] entries[k]).0@ == decimal(k as nat)
                && entries[k].1.checkboxes@ == list[k].checkboxes@,
    ensures
        keys_are_valid(entries),
        keyed_steps(entries) == listed_steps(list),
{
    let steps = listed_steps(list);
    assert forall|k: int| 0 <= k < entries.len() implies writes_out_a_step(
        #[trigger] entries[k],
        steps,
    ) by {
        assert(writes_out(entries[k], steps, k as u32));
    }
    assert forall|index: u32| #[trigger] steps.contains_key(index) implies exists|k: int|
        0 <= k < entries.len() && #[trigger] writes_out(entries[k], steps, index) by {
        assert(writes_out(entries[index as int], steps, index));
    }
    written_steps_read_back(steps, entries);
}

} // verus!
