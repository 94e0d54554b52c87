//! The marker tuples of an operation: what it accepts and what it hands
//! back.

use crate::markers::Marker;
use crate::names::{contains, spelled};
use crate::ruleset::{Rules, Ruleset};
use vstd::prelude::*;

verus! {

/// The marker that an operation with a receiver demands of `state`: enabled
/// when it asserts the state, disabled when it rejects it, and otherwise the
/// state's own sub-parameter, which accepts either.
pub open spec fn incoming_marker(rules: Rules, state: Seq<char>) -> Marker {
    if rules.asserted.contains(state) {
        Marker::Enabled
    } else if rules.rejected.contains(state) {
        Marker::Disabled
    } else {
        Marker::Unchanged
    }
}

/// The marker of `state` after an operation with a receiver. What the
/// operation assigns or deletes wins over what it asserted or rejected; a
/// state that it only checked stays as it was checked; any other state is
/// passed through.
pub open spec fn outgoing_marker(rules: Rules, state: Seq<char>) -> Marker {
    if rules.assigned.contains(state) {
        Marker::Enabled
    } else if rules.deleted.contains(state) {
        Marker::Disabled
    } else if rules.asserted.contains(state) {
        Marker::Enabled
    } else if rules.rejected.contains(state) {
        Marker::Disabled
    } else {
        Marker::Unchanged
    }
}

/// The marker of `state` in a value that an operation without a receiver
/// builds. A state that the operation does not name is enabled if and only
/// if the structure presets it.
pub open spec fn constructed_marker(rules: Rules, preset: Seq<Seq<char>>, state: Seq<char>)
    -> Marker {
    if rules.assigned.contains(state) {
        Marker::Enabled
    } else if rules.deleted.contains(state) {
        Marker::Disabled
    } else if rules.asserted.contains(state) {
        Marker::Enabled
    } else if rules.rejected.contains(state) {
        Marker::Disabled
    } else if preset.contains(state) {
        Marker::Enabled
    } else {
        Marker::Disabled
    }
}

/// The tuple that an operation with a receiver accepts: one slot for each
/// declared state, in the order of declaration.
pub open spec fn incoming_tuple(declared: Seq<Seq<char>>, rules: Rules) -> Seq<Marker> {
    Seq::new(declared.len(), |i: int| incoming_marker(rules, declared[i]))
}

/// The tuple that an operation with a receiver hands back.
pub open spec fn outgoing_tuple(declared: Seq<Seq<char>>, rules: Rules) -> Seq<Marker> {
    Seq::new(declared.len(), |i: int| outgoing_marker(rules, declared[i]))
}

/// The tuple of a value that an operation without a receiver builds.
pub open spec fn constructed_tuple(
    declared: Seq<Seq<char>>,
    preset: Seq<Seq<char>>,
    rules: Rules,
) -> Seq<Marker> {
    Seq::new(declared.len(), |i: int| constructed_marker(rules, preset, declared[i]))
}

/// Computes the tuple that an operation with a receiver accepts.
pub fn incoming_markers(declared: &Vec<String>, rules: &Ruleset) -> (tuple: Vec<Marker>)
    ensures
        tuple@ == incoming_tuple(spelled(declared@), rules@),
{
    let mut tuple: Vec<Marker> = Vec::new();
    let mut i: usize = 0;
    while i < declared.len()
        invariant
            i <= declared.len(),
            tuple@.len() == i,
            forall|k: int| 0 <= k < i ==> tuple@[k] == incoming_marker(rules@, declared@[k]@),
        decreases declared.len() - i,
    {
        let state = &declared[i];
        let marker = if contains(&rules.asserted, state) {
            Marker::Enabled
        } else if contains(&rules.rejected, state) {
            Marker::Disabled
        } else {
            Marker::Unchanged
        };
        tuple.push(marker);
        i += 1;
    }
    assert(tuple@ =~= incoming_tuple(spelled(declared@), rules@));
    tuple
}

/// Computes the tuple that an operation with a receiver hands back.
pub fn outgoing_markers(declared: &Vec<String>, rules: &Ruleset) -> (tuple: Vec<Marker>)
    ensures
        tuple@ == outgoing_tuple(spelled(declared@), rules@),
{
    let mut tuple: Vec<Marker> = Vec::new();
    let mut i: usize = 0;
    while i < declared.len()
        invariant
            i <= declared.len(),
            tuple@.len() == i,
            forall|k: int| 0 <= k < i ==> tuple@[k] == outgoing_marker(rules@, declared@[k]@),
        decreases declared.len() - i,
    {
        let state = &declared[i];
        let marker = if contains(&rules.assigned, state) {
            Marker::Enabled
        } else if contains(&rules.deleted, state) {
            Marker::Disabled
        } else if contains(&rules.asserted, state) {
            Marker::Enabled
        } else if contains(&rules.rejected, state) {
            Marker::Disabled
        } else {
            Marker::Unchanged
        };
        tuple.push(marker);
        i += 1;
    }
    assert(tuple@ =~= outgoing_tuple(spelled(declared@), rules@));
    tuple
}

/// Computes the tuple of a value that an operation without a receiver
/// builds.
pub fn constructed_markers(declared: &Vec<String>, preset: &Vec<String>, rules: &Ruleset) -> (tuple:
    Vec<Marker>)
    ensures
        tuple@ == constructed_tuple(spelled(declared@), spelled(preset@), rules@),
{
    let mut tuple: Vec<Marker> = Vec::new();
    let mut i: usize = 0;
    while i < declared.len()
        invariant
            i <= declared.len(),
            tuple@.len() == i,
            forall|k: int|
                0 <= k < i ==> tuple@[k] == constructed_marker(
                    rules@,
                    spelled(preset@),
                    declared@[k]@,
                ),
        decreases declared.len() - i,
    {
        let state = &declared[i];
        let marker = if contains(&rules.assigned, state) {
            Marker::Enabled
        } else if contains(&rules.deleted, state) {
            Marker::Disabled
        } else if contains(&rules.asserted, state) {
            Marker::Enabled
        } else if contains(&rules.rejected, state) {
            Marker::Disabled
        } else if contains(preset, state) {
            Marker::Enabled
        } else {
            Marker::Disabled
        };
        tuple.push(marker);
        i += 1;
    }
    assert(tuple@ =~= constructed_tuple(spelled(declared@), spelled(preset@), rules@));
    tuple
}

/// One generic parameter of a rewritten block of operations.
#[derive(Debug, Clone, Copy, PartialEq, Eq, Structural)]
pub enum ParamSlot {
    /// The parameter at this position of the block as it was written.
    Kept(usize),
    /// A fresh type parameter named after the declared state at this
    /// position.
    State(usize),
}

/// The fresh parameters of the first `upto` states: one for each state
/// whose incoming marker is the state's own sub-parameter, in the order of
/// declaration.
pub open spec fn fresh_params(incoming: Seq<Marker>, upto: int) -> Seq<ParamSlot>
    decreases upto,
{
    if upto <= 0 {
        Seq::empty()
    } else if incoming[upto - 1] == Marker::Unchanged {
        fresh_params(incoming, upto - 1).push(ParamSlot::State((upto - 1) as usize))
    } else {
        fresh_params(incoming, upto - 1)
    }
}

/// The generic parameters of an operation with a receiver: those of the
/// block, with the designated one replaced by the fresh parameters.
pub open spec fn spliced_params(count: int, designated: int, incoming: Seq<Marker>) -> Seq<
    ParamSlot,
> {
    Seq::new(designated as nat, |k: int| ParamSlot::Kept(k as usize)) + fresh_params(
        incoming,
        incoming.len() as int,
    ) + Seq::new(
        (count - designated - 1) as nat,
        |k: int| ParamSlot::Kept((designated + 1 + k) as usize),
    )
}

/// The generic parameters of an operation without a receiver: those of the
/// block without the designated one.
pub open spec fn remaining_params(count: int, designated: int) -> Seq<ParamSlot> {
    Seq::new(designated as nat, |k: int| ParamSlot::Kept(k as usize)) + Seq::new(
        (count - designated - 1) as nat,
        |k: int| ParamSlot::Kept((designated + 1 + k) as usize),
    )
}

/// Lays out the generic parameters of an operation with a receiver.
pub fn splice_params(count: usize, designated: usize, incoming: &Vec<Marker>) -> (params: Vec<
    ParamSlot,
>)
    requires
        designated < count,
    ensures
        params@ == spliced_params(count as int, designated as int, incoming@),
{
    let mut params: Vec<ParamSlot> = Vec::new();
    let mut k: usize = 0;
    while k < designated
        invariant
            k <= designated,
            params@ == Seq::new(k as nat, |k: int| ParamSlot::Kept(k as usize)),
        decreases designated - k,
    {
        params.push(ParamSlot::Kept(k));
        k += 1;
        assert(params@ =~= Seq::new(k as nat, |k: int| ParamSlot::Kept(k as usize)));
    }
    let ghost before = params@;
    let mut i: usize = 0;
    while i < incoming.len()
        invariant
            i <= incoming.len(),
            params@ == before + fresh_params(incoming@, i as int),
        decreases incoming.len() - i,
    {
        match incoming[i] {
            Marker::Unchanged => {
                params.push(ParamSlot::State(i));
            },
            _ => {},
        }
        i += 1;
        assert(params@ =~= before + fresh_params(incoming@, i as int));
    }
    let ghost middle = params@;
    let mut k: usize = designated + 1;
    while k < count
        invariant
            designated < k <= count,
            params@ == middle + Seq::new(
                (k - designated - 1) as nat,
                |j: int| ParamSlot::Kept((designated + 1 + j) as usize),
            ),
        decreases count - k,
    {
        params.push(ParamSlot::Kept(k));
        k += 1;
        assert(params@ =~= middle + Seq::new(
            (k - designated - 1) as nat,
            |j: int| ParamSlot::Kept((designated + 1 + j) as usize),
        ));
    }
    params
}

/// Lays out the generic parameters of an operation without a receiver.
pub fn remove_param(count: usize, designated: usize) -> (params: Vec<ParamSlot>)
    requires
        designated < count,
    ensures
        params@ == remaining_params(count as int, designated as int),
{
    let mut params: Vec<ParamSlot> = Vec::new();
    let mut k: usize = 0;
    while k < count
        invariant
            k <= count,
            designated < count,
            params@ == if k <= designated {
                Seq::new(k as nat, |j: int| ParamSlot::Kept(j as usize))
            } else {
                Seq::new(designated as nat, |j: int| ParamSlot::Kept(j as usize)) + Seq::new(
                    (k - designated - 1) as nat,
                    |j: int| ParamSlot::Kept((designated + 1 + j) as usize),
                )
            },
        decreases count - k,
    {
        let ghost old_params = params@;
        if k != designated {
            params.push(ParamSlot::Kept(k));
        }
        k += 1;
        assert(params@ =~= if k <= designated {
            Seq::new(k as nat, |j: int| ParamSlot::Kept(j as usize))
        } else {
            Seq::new(designated as nat, |j: int| ParamSlot::Kept(j as usize)) + Seq::new(
                (k - designated - 1) as nat,
                |j: int| ParamSlot::Kept((designated + 1 + j) as usize),
            )
        });
    }
    params
}

/// An operation hands back the sub-parameter of a state only where it took
/// that sub-parameter in: every parameter that the outgoing tuple names is
/// one that the incoming tuple names.
pub proof fn lemma_passed_through_was_taken_in(declared: Seq<Seq<char>>, rules: Rules, i: int)
    requires
        0 <= i < declared.len(),
        outgoing_tuple(declared, rules)[i] == Marker::Unchanged,
    ensures
        incoming_tuple(declared, rules)[i] == Marker::Unchanged,
{
}

/// The fresh parameters are those of the states whose sub-parameter the
/// incoming tuple names, and no others.
pub proof fn lemma_fresh_params_are_the_open_slots(incoming: Seq<Marker>, upto: int, i: int)
    requires
        0 <= upto <= incoming.len() <= usize::MAX,
        0 <= i <= usize::MAX,
    ensures
        fresh_params(incoming, upto).contains(ParamSlot::State(i as usize)) <==> (i < upto
            && incoming[i] == Marker::Unchanged),
    decreases upto,
{
    if upto > 0 {
        let before = fresh_params(incoming, upto - 1);
        lemma_fresh_params_are_the_open_slots(incoming, upto - 1, i);
        if incoming[upto - 1] == Marker::Unchanged {
            let slot = ParamSlot::State((upto - 1) as usize);
            let all = before.push(slot);
            assert(all[all.len() - 1] == slot);
            if before.contains(ParamSlot::State(i as usize)) {
                let k = choose|k: int| 0 <= k < before.len() && before[k] == ParamSlot::State(
                    i as usize,
                );
                assert(all[k] == ParamSlot::State(i as usize));
            }
        }
    }
}

/// A value that an operation without a receiver builds has every state
/// decided: its tuple names no sub-parameter.
pub proof fn lemma_constructed_is_decided(
    declared: Seq<Seq<char>>,
    preset: Seq<Seq<char>>,
    rules: Rules,
    i: int,
)
    requires
        0 <= i < declared.len(),
    ensures
        constructed_tuple(declared, preset, rules)[i] != Marker::Unchanged,
{
}

} // verus!
