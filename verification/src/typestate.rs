//! What the marker tuples mean: which values an operation accepts, and
//! which states a value has after it.
//!
//! A value is described by one `bool` for each declared state: whether the
//! state is enabled. The host compiler decides acceptance by unifying the
//! type of the value with the incoming tuple; the functions here decide the
//! same question on the description.

use crate::markers::Marker;
use crate::ruleset::{valid, Rules};
use crate::signature::{
    constructed_marker, constructed_tuple, incoming_tuple, outgoing_marker, outgoing_tuple,
};
use vstd::prelude::*;

verus! {

/// Whether a slot that demands `marker` takes a state that is `enabled`.
pub open spec fn slot_accepts(marker: Marker, enabled: bool) -> bool {
    match marker {
        Marker::Enabled => enabled,
        Marker::Disabled => !enabled,
        Marker::Unchanged => true,
    }
}

/// Whether an operation that accepts `incoming` takes a value whose states
/// are `current`.
pub open spec fn accepts(incoming: Seq<Marker>, current: Seq<bool>) -> bool {
    &&& incoming.len() == current.len()
    &&& forall|i: int| 0 <= i < incoming.len() ==> slot_accepts(incoming[i], current[i])
}

/// The state that a slot holding `marker` leaves, given what it was.
pub open spec fn slot_after(marker: Marker, enabled: bool) -> bool {
    match marker {
        Marker::Enabled => true,
        Marker::Disabled => false,
        Marker::Unchanged => enabled,
    }
}

/// The states of a value after an operation that hands back `outgoing`,
/// given the states before.
pub open spec fn after(outgoing: Seq<Marker>, current: Seq<bool>) -> Seq<bool> {
    Seq::new(outgoing.len(), |i: int| slot_after(outgoing[i], current[i]))
}

/// The states of a value fresh from an operation without a receiver.
pub open spec fn fresh(outgoing: Seq<Marker>) -> Seq<bool> {
    Seq::new(outgoing.len(), |i: int| outgoing[i] == Marker::Enabled)
}

/// The rules of an operation that names no state.
pub open spec fn no_rules() -> Rules {
    Rules {
        asserted: Seq::empty(),
        rejected: Seq::empty(),
        assigned: Seq::empty(),
        deleted: Seq::empty(),
    }
}

/// The states of the value that an operation without a receiver builds.
pub fn construct(outgoing: &Vec<Marker>) -> (states: Vec<bool>)
    ensures
        states@ == fresh(outgoing@),
{
    let mut states: Vec<bool> = Vec::new();
    let mut i: usize = 0;
    while i < outgoing.len()
        invariant
            i <= outgoing.len(),
            states@.len() == i,
            forall|k: int| 0 <= k < i ==> states@[k] == (outgoing@[k] == Marker::Enabled),
        decreases outgoing.len() - i,
    {
        let enabled = match outgoing[i] {
            Marker::Enabled => true,
            _ => false,
        };
        states.push(enabled);
        i += 1;
    }
    assert(states@ =~= fresh(outgoing@));
    states
}

/// Passes a value whose states are `current` to an operation with a
/// receiver. Returns the states afterwards, or `None` where the operation
/// does not accept the value or its two tuples differ in length.
pub fn call(incoming: &Vec<Marker>, outgoing: &Vec<Marker>, current: &Vec<bool>) -> (next: Option<
    Vec<bool>,
>)
    ensures
        match next {
            Some(states) => {
                &&& incoming.len() == outgoing.len()
                &&& accepts(incoming@, current@)
                &&& states@ == after(outgoing@, current@)
            },
            None => incoming.len() != outgoing.len() || !accepts(incoming@, current@),
        },
{
    if incoming.len() != outgoing.len() || incoming.len() != current.len() {
        return None;
    }
    let mut states: Vec<bool> = Vec::new();
    let mut i: usize = 0;
    while i < incoming.len()
        invariant
            i <= incoming.len(),
            incoming.len() == outgoing.len(),
            incoming.len() == current.len(),
            states@.len() == i,
            forall|k: int| 0 <= k < i ==> slot_accepts(incoming@[k], current@[k]),
            forall|k: int| 0 <= k < i ==> states@[k] == slot_after(outgoing@[k], current@[k]),
        decreases incoming.len() - i,
    {
        let enabled = current[i];
        let taken = match incoming[i] {
            Marker::Enabled => enabled,
            Marker::Disabled => !enabled,
            Marker::Unchanged => true,
        };
        if !taken {
            assert(!slot_accepts(incoming@[i as int], current@[i as int]));
            return None;
        }
        let left = match outgoing[i] {
            Marker::Enabled => true,
            Marker::Disabled => false,
            Marker::Unchanged => enabled,
        };
        states.push(left);
        i += 1;
    }
    assert(states@ =~= after(outgoing@, current@));
    Some(states)
}

/// A value built by an operation that names no state has exactly the preset
/// states enabled.
pub proof fn lemma_fresh_instance_has_preset(
    declared: Seq<Seq<char>>,
    preset: Seq<Seq<char>>,
    i: int,
)
    requires
        0 <= i < declared.len(),
    ensures
        fresh(constructed_tuple(declared, preset, no_rules()))[i] == preset.contains(declared[i]),
        constructed_tuple(declared, preset, no_rules())[i] == (if preset.contains(declared[i]) {
            Marker::Enabled
        } else {
            Marker::Disabled
        }),
{
}

/// A state that an operation assigns is enabled afterwards, also where the
/// operation asserts it as well.
pub proof fn lemma_assigned_is_enabled(rules: Rules, preset: Seq<Seq<char>>, state: Seq<char>)
    requires
        rules.assigned.contains(state),
    ensures
        outgoing_marker(rules, state) == Marker::Enabled,
        constructed_marker(rules, preset, state) == Marker::Enabled,
{
}

/// Assigning a state never stands in the way of a value that has it enabled
/// already: unless the operation rejects the state, its slot takes the
/// value, and the state is enabled afterwards.
pub proof fn lemma_assigning_enabled_state_is_accepted(
    declared: Seq<Seq<char>>,
    rules: Rules,
    current: Seq<bool>,
    i: int,
)
    requires
        0 <= i < declared.len(),
        rules.assigned.contains(declared[i]),
        !rules.rejected.contains(declared[i]),
        current[i],
    ensures
        slot_accepts(incoming_tuple(declared, rules)[i], current[i]),
        after(outgoing_tuple(declared, rules), current)[i],
{
}

/// An operation that asserts a state accepts no value in which that state
/// is disabled.
pub proof fn lemma_unmet_assert_is_rejected(
    declared: Seq<Seq<char>>,
    rules: Rules,
    current: Seq<bool>,
    i: int,
)
    requires
        0 <= i < declared.len(),
        rules.asserted.contains(declared[i]),
        !current[i],
    ensures
        !accepts(incoming_tuple(declared, rules), current),
{
    assert(!slot_accepts(incoming_tuple(declared, rules)[i], current[i]));
}

/// An operation that rejects a state accepts no value in which that state
/// is enabled, unless it asserts the state too (which no valid ruleset
/// does).
pub proof fn lemma_unmet_reject_is_rejected(
    declared: Seq<Seq<char>>,
    rules: Rules,
    current: Seq<bool>,
    i: int,
)
    requires
        0 <= i < declared.len(),
        rules.rejected.contains(declared[i]),
        !rules.asserted.contains(declared[i]),
        current[i],
    ensures
        !accepts(incoming_tuple(declared, rules), current),
{
    assert(!slot_accepts(incoming_tuple(declared, rules)[i], current[i]));
}

/// After an operation with a valid ruleset, a state that it deletes is
/// disabled, a state that it assigns is enabled, and a state that it names
/// in none of its lists is as it was before.
pub proof fn lemma_states_after_call(
    declared: Seq<Seq<char>>,
    rules: Rules,
    current: Seq<bool>,
    i: int,
)
    requires
        valid(declared, rules),
        0 <= i < declared.len(),
        accepts(incoming_tuple(declared, rules), current),
    ensures
        rules.deleted.contains(declared[i]) ==> !after(outgoing_tuple(declared, rules), current)[i],
        rules.assigned.contains(declared[i]) ==> after(outgoing_tuple(declared, rules), current)[i],
        !rules.deleted.contains(declared[i]) && !rules.assigned.contains(declared[i]) ==> after(
            outgoing_tuple(declared, rules),
            current,
        )[i] == current[i],
{
    assert(slot_accepts(incoming_tuple(declared, rules)[i], current[i]));
}

} // verus!
