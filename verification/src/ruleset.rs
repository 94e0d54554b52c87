//! The rules that one operation puts on the declared states, and their
//! validation.

use crate::names::{
    first_duplicate, first_missing, first_shared, first_true, lemma_first_repeat_of_extension,
    lemma_no_repeat_iff_distinct, lemma_none_missing_iff_subset, lemma_none_shared_iff_disjoint,
    missing_flags, repeat_flags, shared_flags, spelled,
};
use vstd::prelude::*;

verus! {

/// The four lists of states that an operation names.
pub struct Ruleset {
    /// States that must be enabled for the operation to be called.
    pub asserted: Vec<String>,
    /// States that must be disabled for the operation to be called.
    pub rejected: Vec<String>,
    /// States that the operation enables.
    pub assigned: Vec<String>,
    /// States that the operation disables.
    pub deleted: Vec<String>,
}

/// The names in the four lists of a ruleset.
pub struct Rules {
    pub asserted: Seq<Seq<char>>,
    pub rejected: Seq<Seq<char>>,
    pub assigned: Seq<Seq<char>>,
    pub deleted: Seq<Seq<char>>,
}

impl View for Ruleset {
    type V = Rules;

    open spec fn view(&self) -> Rules {
        Rules {
            asserted: spelled(self.asserted@),
            rejected: spelled(self.rejected@),
            assigned: spelled(self.assigned@),
            deleted: spelled(self.deleted@),
        }
    }
}

/// What can be wrong with a ruleset, in the order in which it is looked for.
#[derive(Debug, Clone, Copy, PartialEq, Eq, Structural)]
pub enum Violation {
    AlreadyAsserted,
    AlreadyRejected,
    AlreadyAssigned,
    AlreadyDeleted,
    AssertedNotDeclared,
    RejectedNotDeclared,
    AssignedNotDeclared,
    DeletedNotDeclared,
    RejectedAlsoAsserted,
    DeletedAlsoAssigned,
    AssertedAlsoAssigned,
    RejectedAlsoDeleted,
}

/// The first violation of a ruleset and where it stands.
#[derive(Debug, Clone, Copy, PartialEq, Eq, Structural)]
pub struct RulesetError {
    pub violation: Violation,
    /// The position of the offending state in the list that `violation`
    /// blames: the list with the repeated or undeclared entry, the rejected
    /// list for `RejectedAlsoAsserted`, the deleted list for
    /// `DeletedAlsoAssigned` and `RejectedAlsoDeleted`, the assigned list for
    /// `AssertedAlsoAssigned`.
    pub index: usize,
}

impl Violation {
    /// For each position of the blamed list, whether the entry there commits
    /// this violation.
    pub open spec fn flags(self, declared: Seq<Seq<char>>, rules: Rules) -> Seq<bool> {
        match self {
            Violation::AlreadyAsserted => repeat_flags(rules.asserted),
            Violation::AlreadyRejected => repeat_flags(rules.rejected),
            Violation::AlreadyAssigned => repeat_flags(rules.assigned),
            Violation::AlreadyDeleted => repeat_flags(rules.deleted),
            Violation::AssertedNotDeclared => missing_flags(rules.asserted, declared),
            Violation::RejectedNotDeclared => missing_flags(rules.rejected, declared),
            Violation::AssignedNotDeclared => missing_flags(rules.assigned, declared),
            Violation::DeletedNotDeclared => missing_flags(rules.deleted, declared),
            Violation::RejectedAlsoAsserted => shared_flags(rules.rejected, rules.asserted),
            Violation::DeletedAlsoAssigned => shared_flags(rules.deleted, rules.assigned),
            Violation::AssertedAlsoAssigned => shared_flags(rules.assigned, rules.asserted),
            Violation::RejectedAlsoDeleted => shared_flags(rules.deleted, rules.rejected),
        }
    }

    /// Where this violation first occurs, if it does.
    pub open spec fn found(self, declared: Seq<Seq<char>>, rules: Rules) -> Option<int> {
        first_true(self.flags(declared, rules))
    }

    /// The violation looked for after this one.
    pub open spec fn next(self) -> Option<Violation> {
        match self {
            Violation::AlreadyAsserted => Some(Violation::AlreadyRejected),
            Violation::AlreadyRejected => Some(Violation::AlreadyAssigned),
            Violation::AlreadyAssigned => Some(Violation::AlreadyDeleted),
            Violation::AlreadyDeleted => Some(Violation::AssertedNotDeclared),
            Violation::AssertedNotDeclared => Some(Violation::RejectedNotDeclared),
            Violation::RejectedNotDeclared => Some(Violation::AssignedNotDeclared),
            Violation::AssignedNotDeclared => Some(Violation::DeletedNotDeclared),
            Violation::DeletedNotDeclared => Some(Violation::RejectedAlsoAsserted),
            Violation::RejectedAlsoAsserted => Some(Violation::DeletedAlsoAssigned),
            Violation::DeletedAlsoAssigned => Some(Violation::AssertedAlsoAssigned),
            Violation::AssertedAlsoAssigned => Some(Violation::RejectedAlsoDeleted),
            Violation::RejectedAlsoDeleted => None,
        }
    }

    /// How many violations are looked for after this one.
    pub open spec fn remaining(self) -> nat {
        match self {
            Violation::AlreadyAsserted => 11,
            Violation::AlreadyRejected => 10,
            Violation::AlreadyAssigned => 9,
            Violation::AlreadyDeleted => 8,
            Violation::AssertedNotDeclared => 7,
            Violation::RejectedNotDeclared => 6,
            Violation::AssignedNotDeclared => 5,
            Violation::DeletedNotDeclared => 4,
            Violation::RejectedAlsoAsserted => 3,
            Violation::DeletedAlsoAssigned => 2,
            Violation::AssertedAlsoAssigned => 1,
            Violation::RejectedAlsoDeleted => 0,
        }
    }

    /// The diagnostic of this violation.
    pub open spec fn spec_message(self) -> Seq<char> {
        match self {
            Violation::AlreadyAsserted => "state is already asserted"@,
            Violation::AlreadyRejected => "state is already rejected"@,
            Violation::AlreadyAssigned => "state is already assigned"@,
            Violation::AlreadyDeleted => "state is already deleted"@,
            Violation::AssertedNotDeclared => "asserted state is not declared"@,
            Violation::RejectedNotDeclared => "rejected state is not declared"@,
            Violation::AssignedNotDeclared => "assigned state is not declared"@,
            Violation::DeletedNotDeclared => "deleted state is not declared"@,
            Violation::RejectedAlsoAsserted => "rejected state cannot also be asserted"@,
            Violation::DeletedAlsoAssigned => "deleted state cannot also be assigned"@,
            Violation::AssertedAlsoAssigned => "asserted state doesn't need to be assigned"@,
            Violation::RejectedAlsoDeleted => "rejected state doesn't need to be deleted"@,
        }
    }

    /// The diagnostic of this violation.
    pub fn message(self) -> (text: &'static str)
        ensures
            text@ == self.spec_message(),
    {
        match self {
            Violation::AlreadyAsserted => "state is already asserted",
            Violation::AlreadyRejected => "state is already rejected",
            Violation::AlreadyAssigned => "state is already assigned",
            Violation::AlreadyDeleted => "state is already deleted",
            Violation::AssertedNotDeclared => "asserted state is not declared",
            Violation::RejectedNotDeclared => "rejected state is not declared",
            Violation::AssignedNotDeclared => "assigned state is not declared",
            Violation::DeletedNotDeclared => "deleted state is not declared",
            Violation::RejectedAlsoAsserted => "rejected state cannot also be asserted",
            Violation::DeletedAlsoAssigned => "deleted state cannot also be assigned",
            Violation::AssertedAlsoAssigned => "asserted state doesn't need to be assigned",
            Violation::RejectedAlsoDeleted => "rejected state doesn't need to be deleted",
        }
    }
}

/// The outcome of looking for `from` and the violations after it, in order.
pub open spec fn verdict_from(declared: Seq<Seq<char>>, rules: Rules, from: Violation) -> Result<
    (),
    RulesetError,
>
    decreases from.remaining(),
{
    match from.found(declared, rules) {
        Some(i) => Err(RulesetError { violation: from, index: i as usize }),
        None => match from.next() {
            Some(then) => verdict_from(declared, rules, then),
            None => Ok(()),
        },
    }
}

/// The outcome of validating `rules` against the declared states: the first
/// violation in the order of `Violation`, at its first position.
pub open spec fn verdict(declared: Seq<Seq<char>>, rules: Rules) -> Result<(), RulesetError> {
    verdict_from(declared, rules, Violation::AlreadyAsserted)
}

/// Whether `rules` commits none of the violations.
pub open spec fn valid(declared: Seq<Seq<char>>, rules: Rules) -> bool {
    &&& rules.asserted.no_duplicates()
    &&& rules.rejected.no_duplicates()
    &&& rules.assigned.no_duplicates()
    &&& rules.deleted.no_duplicates()
    &&& forall|i: int| 0 <= i < rules.asserted.len() ==> declared.contains(#[trigger] rules.asserted[i])
    &&& forall|i: int| 0 <= i < rules.rejected.len() ==> declared.contains(#[trigger] rules.rejected[i])
    &&& forall|i: int| 0 <= i < rules.assigned.len() ==> declared.contains(#[trigger] rules.assigned[i])
    &&& forall|i: int| 0 <= i < rules.deleted.len() ==> declared.contains(#[trigger] rules.deleted[i])
    &&& forall|s: Seq<char>| !(rules.asserted.contains(s) && rules.rejected.contains(s))
    &&& forall|s: Seq<char>| !(rules.deleted.contains(s) && rules.assigned.contains(s))
    &&& forall|s: Seq<char>| !(rules.assigned.contains(s) && rules.asserted.contains(s))
    &&& forall|s: Seq<char>| !(rules.deleted.contains(s) && rules.rejected.contains(s))
}

impl Ruleset {
    /// Looks for `violation` alone.
    fn find(&self, declared: &Vec<String>, violation: Violation) -> (at: Option<usize>)
        ensures
            crate::names::position(at) == violation.found(spelled(declared@), self@),
    {
        match violation {
            Violation::AlreadyAsserted => first_duplicate(&self.asserted),
            Violation::AlreadyRejected => first_duplicate(&self.rejected),
            Violation::AlreadyAssigned => first_duplicate(&self.assigned),
            Violation::AlreadyDeleted => first_duplicate(&self.deleted),
            Violation::AssertedNotDeclared => first_missing(&self.asserted, declared),
            Violation::RejectedNotDeclared => first_missing(&self.rejected, declared),
            Violation::AssignedNotDeclared => first_missing(&self.assigned, declared),
            Violation::DeletedNotDeclared => first_missing(&self.deleted, declared),
            Violation::RejectedAlsoAsserted => first_shared(&self.rejected, &self.asserted),
            Violation::DeletedAlsoAssigned => first_shared(&self.deleted, &self.assigned),
            Violation::AssertedAlsoAssigned => first_shared(&self.assigned, &self.asserted),
            Violation::RejectedAlsoDeleted => first_shared(&self.deleted, &self.rejected),
        }
    }

    /// Validates the ruleset against the declared states and reports the
    /// first violation.
    pub fn validate(&self, declared: &Vec<String>) -> (outcome: Result<(), RulesetError>)
        ensures
            outcome == verdict(spelled(declared@), self@),
    {
        let mut violation = Violation::AlreadyAsserted;
        loop
            invariant
                verdict(spelled(declared@), self@) == verdict_from(
                    spelled(declared@),
                    self@,
                    violation,
                ),
            decreases violation.remaining(),
        {
            if let Some(index) = self.find(declared, violation) {
                return Err(RulesetError { violation, index });
            }
            violation =
            match violation {
                Violation::AlreadyAsserted => Violation::AlreadyRejected,
                Violation::AlreadyRejected => Violation::AlreadyAssigned,
                Violation::AlreadyAssigned => Violation::AlreadyDeleted,
                Violation::AlreadyDeleted => Violation::AssertedNotDeclared,
                Violation::AssertedNotDeclared => Violation::RejectedNotDeclared,
                Violation::RejectedNotDeclared => Violation::AssignedNotDeclared,
                Violation::AssignedNotDeclared => Violation::DeletedNotDeclared,
                Violation::DeletedNotDeclared => Violation::RejectedAlsoAsserted,
                Violation::RejectedAlsoAsserted => Violation::DeletedAlsoAssigned,
                Violation::DeletedAlsoAssigned => Violation::AssertedAlsoAssigned,
                Violation::AssertedAlsoAssigned => Violation::RejectedAlsoDeleted,
                Violation::RejectedAlsoDeleted => {
                    return Ok(());
                },
            };
        }
    }
}

/// Validation succeeds on exactly the valid rulesets.
pub proof fn lemma_verdict_ok_iff_valid(declared: Seq<Seq<char>>, rules: Rules)
    ensures
        verdict(declared, rules) is Ok <==> valid(declared, rules),
{
    reveal_with_fuel(verdict_from, 13);
    lemma_no_repeat_iff_distinct(rules.asserted);
    lemma_no_repeat_iff_distinct(rules.rejected);
    lemma_no_repeat_iff_distinct(rules.assigned);
    lemma_no_repeat_iff_distinct(rules.deleted);
    lemma_none_missing_iff_subset(rules.asserted, declared);
    lemma_none_missing_iff_subset(rules.rejected, declared);
    lemma_none_missing_iff_subset(rules.assigned, declared);
    lemma_none_missing_iff_subset(rules.deleted, declared);
    lemma_none_shared_iff_disjoint(rules.rejected, rules.asserted);
    lemma_none_shared_iff_disjoint(rules.deleted, rules.assigned);
    lemma_none_shared_iff_disjoint(rules.assigned, rules.asserted);
    lemma_none_shared_iff_disjoint(rules.deleted, rules.rejected);
}

/// A list of assigned states that holds a repetition is refused in the same
/// way however long it is: lengthening it changes neither the violation nor
/// its position, as long as the asserted and rejected lists hold none.
pub proof fn lemma_repeated_assign_fails_alike(
    declared: Seq<Seq<char>>,
    rules: Rules,
    more: Seq<Seq<char>>,
)
    requires
        rules.asserted.no_duplicates(),
        rules.rejected.no_duplicates(),
        !rules.assigned.no_duplicates(),
    ensures
        verdict(declared, rules) matches Err(e) && e.violation == Violation::AlreadyAssigned,
        verdict(declared, Rules { assigned: rules.assigned + more, ..rules }) == verdict(
            declared,
            rules,
        ),
{
    reveal_with_fuel(verdict_from, 4);
    let longer = Rules { assigned: rules.assigned + more, ..rules };
    lemma_no_repeat_iff_distinct(rules.asserted);
    lemma_no_repeat_iff_distinct(rules.rejected);
    lemma_no_repeat_iff_distinct(rules.assigned);
    lemma_first_repeat_of_extension(rules.assigned, more);
}

/// Each violation has a diagnostic of its own.
pub proof fn lemma_messages_differ(a: Violation, b: Violation)
    requires
        a != b,
    ensures
        a.spec_message() != b.spec_message(),
{
    reveal_strlit("state is already asserted");
    reveal_strlit("state is already rejected");
    reveal_strlit("state is already assigned");
    reveal_strlit("state is already deleted");
    reveal_strlit("asserted state is not declared");
    reveal_strlit("rejected state is not declared");
    reveal_strlit("assigned state is not declared");
    reveal_strlit("deleted state is not declared");
    reveal_strlit("rejected state cannot also be asserted");
    reveal_strlit("deleted state cannot also be assigned");
    reveal_strlit("asserted state doesn't need to be assigned");
    reveal_strlit("rejected state doesn't need to be deleted");
    let x = a.spec_message();
    let y = b.spec_message();
    if x.len() == y.len() {
        assert(x[0] != y[0] || x[3] != y[3] || x[17] != y[17] || x[20] != y[20]);
    }
}

} // verus!
