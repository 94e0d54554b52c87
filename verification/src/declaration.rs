//! What the two expansions share: the keys of their options, the maps that
//! the options fill, and the errors that end an expansion.

use crate::designated::DesignationError;
use crate::documentation::{DocsError, LineView};
use crate::names::{
    first_duplicate, first_missing, first_true, lemma_first_true_is, lemma_first_true_none,
    missing_flags, position, repeat_flags, spelled,
};
use crate::ruleset::RulesetError;
use crate::stateset::{OptionError, Stateset};
use crate::syntax::{Meta, Path};
use vstd::prelude::*;

verus! {

/// What is wrong with the ruleset attribute of an operation, or with the
/// block as that operation needs it.
#[derive(Debug, Clone, Copy, PartialEq, Eq, Structural)]
pub enum RuleError {
    /// The attribute is written with `=`.
    UnexpectedNameValue,
    /// The list of the attribute is no list of options.
    MalformedOptions,
    /// The option at this position is none of `assert`, `reject`, `assign`
    /// and `delete`.
    InvalidAttribute { meta: usize },
    /// An option does not list identifiers.
    Options(OptionError),
    /// The four lists contradict the declaration or each other.
    Ruleset(RulesetError),
    /// The block is written for a type that is no path.
    ExpectedPath,
    /// The path of the block's type has no segment.
    PathIsEmpty,
    /// The last segment of the block's type has no list in angle brackets.
    ExpectedAngleBracketed,
    /// No single argument of that list names the designated parameter.
    Designation(DesignationError),
}

/// Why an expansion ends without output.
#[derive(Debug, Clone, Copy, PartialEq, Eq, Structural)]
pub enum ExpandError {
    /// The option at this position is none of `states`, `preset` and
    /// `docs`.
    InvalidAttribute { meta: usize },
    /// The block implements a trait.
    TraitImpl,
    /// A `docs` option is not in order.
    Docs(DocsError),
    /// An option does not list identifiers.
    Options(OptionError),
    /// No state is declared.
    NoStates,
    /// The declared state at this position repeats an earlier one.
    StateAlreadyDeclared { state: usize },
    /// The preset state at this position repeats an earlier one.
    StateAlreadyPreset { state: usize },
    /// The preset state at this position is not declared.
    PresetNotDeclared { state: usize },
    /// No single parameter is designated.
    Designation(DesignationError),
    /// The associated item at this position is no function.
    ExpectedFn { item: usize },
    /// The ruleset attribute at position `attr` of the function at position
    /// `item` cannot be expanded.
    Rule { item: usize, attr: usize, error: RuleError },
}

impl RuleError {
    /// The diagnostic of this error.
    pub open spec fn spec_message(self) -> Seq<char> {
        match self {
            RuleError::UnexpectedNameValue => "did not expect `=`"@,
            RuleError::MalformedOptions => "expected a list of attributes"@,
            RuleError::InvalidAttribute { .. } => "invalid attribute"@,
            RuleError::Options(fault) => fault.error.spec_message(),
            RuleError::Ruleset(fault) => fault.violation.spec_message(),
            RuleError::ExpectedPath => "expected a path"@,
            RuleError::PathIsEmpty => "path is empty"@,
            RuleError::ExpectedAngleBracketed => "expected angle bracketed arguments"@,
            RuleError::Designation(fault) => fault.spec_message(),
        }
    }

    /// The diagnostic of this error.
    pub fn message(self) -> (text: &'static str)
        ensures
            text@ == self.spec_message(),
    {
        match self {
            RuleError::UnexpectedNameValue => "did not expect `=`",
            RuleError::MalformedOptions => "expected a list of attributes",
            RuleError::InvalidAttribute { .. } => "invalid attribute",
            RuleError::Options(fault) => fault.error.message(),
            RuleError::Ruleset(fault) => fault.violation.message(),
            RuleError::ExpectedPath => "expected a path",
            RuleError::PathIsEmpty => "path is empty",
            RuleError::ExpectedAngleBracketed => "expected angle bracketed arguments",
            RuleError::Designation(fault) => fault.message(),
        }
    }
}

impl ExpandError {
    /// The diagnostic of this error.
    pub open spec fn spec_message(self) -> Seq<char> {
        match self {
            ExpandError::InvalidAttribute { .. } => "invalid attribute"@,
            ExpandError::TraitImpl => "trait impls are not supported"@,
            ExpandError::Docs(fault) => fault.fault.spec_message(),
            ExpandError::Options(fault) => fault.error.spec_message(),
            ExpandError::NoStates => "no states were declared"@,
            ExpandError::StateAlreadyDeclared { .. } => "state is already declared"@,
            ExpandError::StateAlreadyPreset { .. } => "state is already preset"@,
            ExpandError::PresetNotDeclared { .. } => "preset state is not a declared state"@,
            ExpandError::Designation(fault) => fault.spec_message(),
            ExpandError::ExpectedFn { .. } => "expected an associated function"@,
            ExpandError::Rule { error, .. } => error.spec_message(),
        }
    }

    /// The diagnostic of this error.
    pub fn message(self) -> (text: &'static str)
        ensures
            text@ == self.spec_message(),
    {
        match self {
            ExpandError::InvalidAttribute { .. } => "invalid attribute",
            ExpandError::TraitImpl => "trait impls are not supported",
            ExpandError::Docs(fault) => fault.fault.message(),
            ExpandError::Options(fault) => fault.error.message(),
            ExpandError::NoStates => "no states were declared",
            ExpandError::StateAlreadyDeclared { .. } => "state is already declared",
            ExpandError::StateAlreadyPreset { .. } => "state is already preset",
            ExpandError::PresetNotDeclared { .. } => "preset state is not a declared state",
            ExpandError::Designation(fault) => fault.message(),
            ExpandError::ExpectedFn { .. } => "expected an associated function",
            ExpandError::Rule { error, .. } => error.message(),
        }
    }
}

/// Whether `path` is one of the keys `states`, `preset` and `docs`.
pub open spec fn is_declaration_key(path: Path) -> bool {
    ||| path.spec_ident() == Some("states"@)
    ||| path.spec_ident() == Some("preset"@)
    ||| path.spec_ident() == Some("docs"@)
}

/// Whether `path` is one of the keys `assert`, `reject`, `assign` and
/// `delete`.
pub open spec fn is_rule_key(path: Path) -> bool {
    ||| path.spec_ident() == Some("assert"@)
    ||| path.spec_ident() == Some("reject"@)
    ||| path.spec_ident() == Some("assign"@)
    ||| path.spec_ident() == Some("delete"@)
}

/// For each option, whether its key is foreign to a declaration.
pub open spec fn foreign_to_declaration(metas: Seq<Meta>) -> Seq<bool> {
    Seq::new(metas.len(), |i: int| !is_declaration_key(metas[i].path))
}

/// For each option, whether its key is foreign to a ruleset.
pub open spec fn foreign_to_rules(metas: Seq<Meta>) -> Seq<bool> {
    Seq::new(metas.len(), |i: int| !is_rule_key(metas[i].path))
}

/// The position of the first option whose key is foreign to a declaration.
pub fn first_foreign_to_declaration(metas: &Vec<Meta>) -> (at: Option<usize>)
    ensures
        position(at) == first_true(foreign_to_declaration(metas@)),
{
    let ghost flags = foreign_to_declaration(metas@);
    let mut i: usize = 0;
    while i < metas.len()
        invariant
            i <= metas.len(),
            flags == foreign_to_declaration(metas@),
            forall|k: int| 0 <= k < i ==> !flags[k],
        decreases metas.len() - i,
    {
        let path = &metas[i].path;
        if !(path.is_ident("states") || path.is_ident("preset") || path.is_ident("docs")) {
            proof {
                lemma_first_true_is(flags, i as int);
            }
            return Some(i);
        }
        i += 1;
    }
    proof {
        lemma_first_true_none(flags);
    }
    None
}

/// The position of the first option whose key is foreign to a ruleset.
pub fn first_foreign_to_rules(metas: &Vec<Meta>) -> (at: Option<usize>)
    ensures
        position(at) == first_true(foreign_to_rules(metas@)),
{
    let ghost flags = foreign_to_rules(metas@);
    let mut i: usize = 0;
    while i < metas.len()
        invariant
            i <= metas.len(),
            flags == foreign_to_rules(metas@),
            forall|k: int| 0 <= k < i ==> !flags[k],
        decreases metas.len() - i,
    {
        let path = &metas[i].path;
        if !(path.is_ident("assert") || path.is_ident("reject") || path.is_ident("assign")
            || path.is_ident("delete")) {
            proof {
                lemma_first_true_is(flags, i as int);
            }
            return Some(i);
        }
        i += 1;
    }
    proof {
        lemma_first_true_none(flags);
    }
    None
}

/// The map that the options of a declaration fill: `states` and `preset`,
/// both empty.
pub open spec fn declaration_map() -> Map<Seq<char>, Seq<Seq<char>>> {
    Map::empty().insert("states"@, Seq::empty()).insert("preset"@, Seq::empty())
}

/// The map that the options of a ruleset fill: `assert`, `reject`,
/// `assign` and `delete`, all empty.
pub open spec fn rule_map() -> Map<Seq<char>, Seq<Seq<char>>> {
    Map::empty().insert("assert"@, Seq::empty()).insert("reject"@, Seq::empty()).insert(
        "assign"@,
        Seq::empty(),
    ).insert("delete"@, Seq::empty())
}

/// The stateset that the options of a declaration fill.
pub fn declaration_stateset() -> (stateset: Stateset)
    ensures
        stateset@ == declaration_map(),
{
    Stateset::default().support("states").support("preset")
}

/// The stateset that the options of a ruleset fill.
pub fn rule_stateset() -> (stateset: Stateset)
    ensures
        stateset@ == rule_map(),
{
    Stateset::default().support("assert").support("reject").support("assign").support("delete")
}

/// The lines that describe a declaration.
pub open spec fn declaration_lines() -> Seq<LineView> {
    Seq::empty().push(LineView { attribute: "states"@, label: Some("States"@) }).push(
        LineView { attribute: "preset"@, label: Some("Preset"@) },
    )
}

/// The lines that describe a ruleset.
pub open spec fn rule_lines() -> Seq<LineView> {
    Seq::empty().push(LineView { attribute: "assert"@, label: Some("Assert"@) }).push(
        LineView { attribute: "reject"@, label: Some("Reject"@) },
    ).push(LineView { attribute: "assign"@, label: Some("Assign"@) }).push(
        LineView { attribute: "delete"@, label: Some("Delete"@) },
    )
}

/// The text that an optional string holds.
pub open spec fn text_of(text: Option<String>) -> Option<Seq<char>> {
    match text {
        Some(text) => Some(text@),
        None => None,
    }
}

/// What is wrong with the declared and the preset states, if anything: no
/// state is declared, a declared state repeats, a preset state repeats, a
/// preset state is not declared. The first of these that holds is reported,
/// at its first position.
pub open spec fn declaration_fault(declared: Seq<Seq<char>>, preset: Seq<Seq<char>>) -> Option<
    ExpandError,
> {
    if declared.len() == 0 {
        Some(ExpandError::NoStates)
    } else if let Some(state) = first_true(repeat_flags(declared)) {
        Some(ExpandError::StateAlreadyDeclared { state: state as usize })
    } else if let Some(state) = first_true(repeat_flags(preset)) {
        Some(ExpandError::StateAlreadyPreset { state: state as usize })
    } else if let Some(state) = first_true(missing_flags(preset, declared)) {
        Some(ExpandError::PresetNotDeclared { state: state as usize })
    } else {
        None
    }
}

/// Checks the declared and the preset states.
pub fn check_declaration(declared: &Vec<String>, preset: &Vec<String>) -> (fault: Option<
    ExpandError,
>)
    ensures
        fault == declaration_fault(spelled(declared@), spelled(preset@)),
{
    if declared.len() == 0 {
        return Some(ExpandError::NoStates);
    }
    if let Some(state) = first_duplicate(declared) {
        return Some(ExpandError::StateAlreadyDeclared { state });
    }
    if let Some(state) = first_duplicate(preset) {
        return Some(ExpandError::StateAlreadyPreset { state });
    }
    if let Some(state) = first_missing(preset, declared) {
        return Some(ExpandError::PresetNotDeclared { state });
    }
    None
}

/// The list of one kind, copied out of a stateset.
pub fn list_of(stateset: &Stateset, kind: &str) -> (list: Vec<String>)
    requires
        stateset@.dom().contains(kind@),
    ensures
        spelled(list@) == stateset@[kind@],
{
    match stateset.get(kind) {
        Some(list) => crate::names::copy_names(list),
        None => Vec::new(),
    }
}

} // verus!
