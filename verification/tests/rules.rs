use stated::markers::Marker;
use stated::ruleset::{Ruleset, RulesetError, Violation};
use stated::signature::{
    constructed_markers, incoming_markers, outgoing_markers, remove_param, splice_params,
    ParamSlot,
};
use stated::typestate::{call, construct};

fn names(list: &[&str]) -> Vec<String> {
    list.iter().map(|name| name.to_string()).collect()
}

fn rules(asserted: &[&str], rejected: &[&str], assigned: &[&str], deleted: &[&str]) -> Ruleset {
    Ruleset {
        asserted: names(asserted),
        rejected: names(rejected),
        assigned: names(assigned),
        deleted: names(deleted),
    }
}

fn fails(violation: Violation, index: usize) -> Result<(), RulesetError> {
    Err(RulesetError { violation, index })
}

#[test]
fn empty_ruleset_is_valid() {
    assert_eq!(rules(&[], &[], &[], &[]).validate(&names(&["A"])), Ok(()));
}

#[test]
fn disjoint_declared_lists_are_valid() {
    let declared = names(&["A", "B", "C", "D"]);
    assert_eq!(rules(&["A"], &["B"], &["C"], &["D"]).validate(&declared), Ok(()));
    assert_eq!(rules(&["A", "B"], &[], &["C", "D"], &[]).validate(&declared), Ok(()));
    assert_eq!(rules(&["A"], &["B"], &["B"], &["A"]).validate(&declared), Ok(()));
}

#[test]
fn repeated_assert_is_refused() {
    let outcome = rules(&["A", "A"], &[], &[], &[]).validate(&names(&["A"]));
    assert_eq!(outcome, fails(Violation::AlreadyAsserted, 1));
    assert_eq!(Violation::AlreadyAsserted.message(), "state is already asserted");
}

#[test]
fn repeated_reject_is_refused() {
    let outcome = rules(&[], &["A", "B", "A"], &[], &[]).validate(&names(&["A", "B"]));
    assert_eq!(outcome, fails(Violation::AlreadyRejected, 2));
    assert_eq!(Violation::AlreadyRejected.message(), "state is already rejected");
}

#[test]
fn repeated_assign_fails_alike_at_any_length() {
    let declared = names(&["A"]);
    let twice = rules(&[], &[], &["A", "A"], &[]).validate(&declared);
    let thrice = rules(&[], &[], &["A", "A", "A"], &[]).validate(&declared);
    assert_eq!(twice, fails(Violation::AlreadyAssigned, 1));
    assert_eq!(thrice, twice);
    assert_eq!(Violation::AlreadyAssigned.message(), "state is already assigned");
}

#[test]
fn repetition_is_found_in_any_order() {
    let declared = names(&["A", "B", "C"]);
    for list in [["A", "A", "B"], ["A", "B", "A"], ["B", "A", "A"]] {
        let outcome = rules(&[], &[], &list, &[]).validate(&declared);
        assert_eq!(outcome.unwrap_err().violation, Violation::AlreadyAssigned);
    }
}

#[test]
fn repeated_delete_is_refused() {
    let outcome = rules(&[], &[], &[], &["A", "A"]).validate(&names(&["A"]));
    assert_eq!(outcome, fails(Violation::AlreadyDeleted, 1));
    assert_eq!(Violation::AlreadyDeleted.message(), "state is already deleted");
}

#[test]
fn first_repetition_is_the_earliest_second_sighting() {
    let declared = names(&["A", "B", "C"]);
    let outcome = rules(&["A", "B", "C", "B", "A"], &[], &[], &[]).validate(&declared);
    assert_eq!(outcome, fails(Violation::AlreadyAsserted, 3));
}

#[test]
fn undeclared_states_are_refused_list_by_list() {
    let declared = names(&["A"]);
    assert_eq!(
        rules(&["B"], &[], &[], &[]).validate(&declared),
        fails(Violation::AssertedNotDeclared, 0)
    );
    assert_eq!(
        rules(&[], &["A", "B"], &[], &[]).validate(&declared),
        fails(Violation::RejectedNotDeclared, 1)
    );
    assert_eq!(
        rules(&[], &[], &["B"], &[]).validate(&declared),
        fails(Violation::AssignedNotDeclared, 0)
    );
    assert_eq!(
        rules(&[], &[], &[], &["B"]).validate(&declared),
        fails(Violation::DeletedNotDeclared, 0)
    );
    assert_eq!(Violation::AssertedNotDeclared.message(), "asserted state is not declared");
    assert_eq!(Violation::RejectedNotDeclared.message(), "rejected state is not declared");
    assert_eq!(Violation::AssignedNotDeclared.message(), "assigned state is not declared");
    assert_eq!(Violation::DeletedNotDeclared.message(), "deleted state is not declared");
}

#[test]
fn assert_and_reject_of_one_state_is_refused() {
    let outcome = rules(&["A"], &["B", "A"], &[], &[]).validate(&names(&["A", "B"]));
    assert_eq!(outcome, fails(Violation::RejectedAlsoAsserted, 1));
    assert_eq!(
        Violation::RejectedAlsoAsserted.message(),
        "rejected state cannot also be asserted"
    );
}

#[test]
fn assign_and_delete_of_one_state_is_refused() {
    let outcome = rules(&[], &[], &["A"], &["A"]).validate(&names(&["A"]));
    assert_eq!(outcome, fails(Violation::DeletedAlsoAssigned, 0));
    assert_eq!(
        Violation::DeletedAlsoAssigned.message(),
        "deleted state cannot also be assigned"
    );
}

#[test]
fn assert_and_assign_of_one_state_is_refused() {
    let outcome = rules(&["A"], &[], &["B", "A"], &[]).validate(&names(&["A", "B"]));
    assert_eq!(outcome, fails(Violation::AssertedAlsoAssigned, 1));
    assert_eq!(
        Violation::AssertedAlsoAssigned.message(),
        "asserted state doesn't need to be assigned"
    );
}

#[test]
fn reject_and_delete_of_one_state_is_refused() {
    let outcome = rules(&[], &["A"], &[], &["A"]).validate(&names(&["A"]));
    assert_eq!(outcome, fails(Violation::RejectedAlsoDeleted, 0));
    assert_eq!(
        Violation::RejectedAlsoDeleted.message(),
        "rejected state doesn't need to be deleted"
    );
}

#[test]
fn each_pair_has_a_diagnostic_of_its_own() {
    let all = [
        Violation::AlreadyAsserted,
        Violation::AlreadyRejected,
        Violation::AlreadyAssigned,
        Violation::AlreadyDeleted,
        Violation::AssertedNotDeclared,
        Violation::RejectedNotDeclared,
        Violation::AssignedNotDeclared,
        Violation::DeletedNotDeclared,
        Violation::RejectedAlsoAsserted,
        Violation::DeletedAlsoAssigned,
        Violation::AssertedAlsoAssigned,
        Violation::RejectedAlsoDeleted,
    ];
    for (i, a) in all.iter().enumerate() {
        for (j, b) in all.iter().enumerate() {
            assert_eq!(i == j, a.message() == b.message());
        }
    }
}

#[test]
fn repetition_is_reported_before_anything_else() {
    let declared = names(&["A"]);
    assert_eq!(
        rules(&["B", "B"], &[], &[], &[]).validate(&declared),
        fails(Violation::AlreadyAsserted, 1)
    );
    assert_eq!(
        rules(&["B"], &[], &[], &["A", "A"]).validate(&declared),
        fails(Violation::AlreadyDeleted, 1)
    );
    assert_eq!(
        rules(&[], &[], &["A"], &["A", "A"]).validate(&declared),
        fails(Violation::AlreadyDeleted, 1)
    );
}

#[test]
fn undeclared_is_reported_before_overlap() {
    let declared = names(&["A"]);
    assert_eq!(
        rules(&["A"], &["A"], &[], &["B"]).validate(&declared),
        fails(Violation::DeletedNotDeclared, 0)
    );
}

#[test]
fn overlaps_are_reported_in_their_order() {
    let declared = names(&["A", "B"]);
    assert_eq!(
        rules(&["A"], &["A"], &["A"], &["A"]).validate(&declared),
        fails(Violation::RejectedAlsoAsserted, 0)
    );
    assert_eq!(
        rules(&["A"], &["B"], &["A"], &["A", "B"]).validate(&declared),
        fails(Violation::DeletedAlsoAssigned, 0)
    );
    assert_eq!(
        rules(&["A"], &["B"], &["A"], &["B"]).validate(&declared),
        fails(Violation::AssertedAlsoAssigned, 0)
    );
}

#[test]
fn incoming_markers_follow_assert_and_reject() {
    let declared = names(&["A", "B", "C", "D"]);
    let tuple = incoming_markers(&declared, &rules(&["A"], &["C"], &["B"], &["D"]));
    assert_eq!(
        tuple,
        vec![Marker::Enabled, Marker::Unchanged, Marker::Disabled, Marker::Unchanged]
    );
}

#[test]
fn outgoing_markers_prefer_assign_and_delete() {
    let declared = names(&["A", "B", "C", "D", "E"]);
    let tuple = outgoing_markers(&declared, &rules(&["A"], &["B"], &["C"], &["D"]));
    assert_eq!(
        tuple,
        vec![
            Marker::Enabled,
            Marker::Disabled,
            Marker::Enabled,
            Marker::Disabled,
            Marker::Unchanged
        ]
    );
    let flipped = outgoing_markers(&declared, &rules(&["A"], &["B"], &["B"], &["A"]));
    assert_eq!(flipped[0], Marker::Disabled);
    assert_eq!(flipped[1], Marker::Enabled);
}

#[test]
fn assigned_and_asserted_state_goes_out_enabled() {
    let declared = names(&["A"]);
    let both = rules(&["A"], &[], &["A"], &[]);
    assert_eq!(outgoing_markers(&declared, &both), vec![Marker::Enabled]);
    assert_eq!(constructed_markers(&declared, &names(&[]), &both), vec![Marker::Enabled]);
}

#[test]
fn fresh_instance_has_exactly_the_preset_states() {
    let declared = names(&["A", "B", "C"]);
    let preset = names(&["A", "B"]);
    let tuple = constructed_markers(&declared, &preset, &rules(&[], &[], &[], &[]));
    assert_eq!(tuple, vec![Marker::Enabled, Marker::Enabled, Marker::Disabled]);
    assert_eq!(construct(&tuple), vec![true, true, false]);
    let none = constructed_markers(&declared, &names(&[]), &rules(&[], &[], &[], &[]));
    assert_eq!(construct(&none), vec![false, false, false]);
}

#[test]
fn constructor_rules_win_over_preset() {
    let declared = names(&["A", "B", "C", "D"]);
    let preset = names(&["A", "B"]);
    let tuple = constructed_markers(&declared, &preset, &rules(&["C"], &["A"], &["D"], &["B"]));
    assert_eq!(
        tuple,
        vec![Marker::Disabled, Marker::Disabled, Marker::Enabled, Marker::Enabled]
    );
}

#[test]
fn fresh_parameters_replace_the_designated_one() {
    let incoming = vec![Marker::Enabled, Marker::Unchanged, Marker::Unchanged];
    assert_eq!(
        splice_params(3, 1, &incoming),
        vec![
            ParamSlot::Kept(0),
            ParamSlot::State(1),
            ParamSlot::State(2),
            ParamSlot::Kept(2)
        ]
    );
    let fixed = vec![Marker::Enabled, Marker::Disabled];
    assert_eq!(splice_params(1, 0, &fixed), Vec::<ParamSlot>::new());
    assert_eq!(
        splice_params(2, 1, &[Marker::Unchanged].to_vec()),
        vec![ParamSlot::Kept(0), ParamSlot::State(0)]
    );
}

#[test]
fn constructor_drops_the_designated_parameter() {
    assert_eq!(remove_param(1, 0), Vec::<ParamSlot>::new());
    assert_eq!(
        remove_param(4, 2),
        vec![ParamSlot::Kept(0), ParamSlot::Kept(1), ParamSlot::Kept(3)]
    );
    assert_eq!(remove_param(2, 0), vec![ParamSlot::Kept(1)]);
}

#[test]
fn unmet_assert_is_not_accepted() {
    let declared = names(&["A", "B"]);
    let op = rules(&["A"], &[], &[], &[]);
    let incoming = incoming_markers(&declared, &op);
    let outgoing = outgoing_markers(&declared, &op);
    assert_eq!(call(&incoming, &outgoing, &vec![false, true]), None);
    assert_eq!(call(&incoming, &outgoing, &vec![false, false]), None);
    assert_eq!(call(&incoming, &outgoing, &vec![true, false]), Some(vec![true, false]));
}

#[test]
fn unmet_reject_is_not_accepted() {
    let declared = names(&["A", "B"]);
    let op = rules(&[], &["B"], &[], &[]);
    let incoming = incoming_markers(&declared, &op);
    let outgoing = outgoing_markers(&declared, &op);
    assert_eq!(call(&incoming, &outgoing, &vec![true, true]), None);
    assert_eq!(call(&incoming, &outgoing, &vec![true, false]), Some(vec![true, false]));
}

#[test]
fn assigning_an_enabled_state_is_accepted() {
    let declared = names(&["A", "B"]);
    let op = rules(&[], &[], &["A"], &[]);
    let incoming = incoming_markers(&declared, &op);
    let outgoing = outgoing_markers(&declared, &op);
    assert_eq!(call(&incoming, &outgoing, &vec![true, false]), Some(vec![true, false]));
    assert_eq!(call(&incoming, &outgoing, &vec![false, true]), Some(vec![true, true]));
    let once = call(&incoming, &outgoing, &vec![false, false]).unwrap();
    assert_eq!(call(&incoming, &outgoing, &once), Some(once.clone()));
}

#[test]
fn delete_after_preset_round_trip() {
    let declared = names(&["A", "B", "C"]);
    let preset = names(&["A", "B"]);
    let fresh = construct(&constructed_markers(&declared, &preset, &rules(&[], &[], &[], &[])));
    assert_eq!(fresh, vec![true, true, false]);
    let op = rules(&[], &[], &[], &["B"]);
    let next = call(
        &incoming_markers(&declared, &op),
        &outgoing_markers(&declared, &op),
        &fresh,
    );
    assert_eq!(next, Some(vec![true, false, false]));
}

#[test]
fn call_needs_tuples_of_one_length() {
    let incoming = vec![Marker::Unchanged];
    let outgoing = vec![Marker::Unchanged, Marker::Unchanged];
    assert_eq!(call(&incoming, &outgoing, &vec![true]), None);
    assert_eq!(call(&incoming, &incoming, &vec![true, false]), None);
    assert_eq!(call(&incoming, &incoming, &vec![true]), Some(vec![true]));
}

#[test]
fn message_builder_scenario() {
    let declared = names(&["HasRecipient", "HasBody"]);
    let preset = names(&[]);
    let new = rules(&[], &[], &[], &[]);
    let recipient = rules(&[], &[], &["HasRecipient"], &[]);
    let body = rules(&[], &["HasBody"], &["HasBody"], &[]);
    let build = rules(&["HasRecipient"], &[], &[], &[]);
    for op in [&new, &recipient, &body, &build] {
        assert_eq!(op.validate(&declared), Ok(()));
    }
    let apply = |op: &Ruleset, current: &Vec<bool>| {
        call(&incoming_markers(&declared, op), &outgoing_markers(&declared, op), current)
    };
    let fresh = construct(&constructed_markers(&declared, &preset, &new));
    assert_eq!(fresh, vec![false, false]);

    let with_recipient = apply(&recipient, &fresh).unwrap();
    assert_eq!(with_recipient, vec![true, false]);
    let with_both = apply(&body, &with_recipient).unwrap();
    assert_eq!(with_both, vec![true, true]);
    assert_eq!(apply(&build, &with_both), Some(vec![true, true]));

    let only_body = apply(&body, &fresh).unwrap();
    assert_eq!(only_body, vec![false, true]);
    assert_eq!(apply(&build, &only_body), None);

    assert_eq!(apply(&body, &with_both), None);
}
