//! The expansion of a block of operations: for each ruleset of each
//! operation, the generic parameters and the marker tuples of a block of
//! its own.

use crate::declaration::{
    check_declaration, declaration_fault, declaration_map, declaration_stateset,
    first_foreign_to_declaration, first_foreign_to_rules, foreign_to_declaration,
    foreign_to_rules, list_of, rule_lines, rule_map, rule_stateset, text_of, ExpandError,
    RuleError,
};
use crate::designated::{
    find_designated_arg, get_designated_indices, marker_flags, naming_argument, scanned_indices,
};
use crate::documentation::{
    configured_all, described, Description, DescriptionLine, Documentation,
};
use crate::markers::Marker;
use crate::names::{first_true, lemma_first_true_is, lemma_first_true_none, spelled};
use crate::ruleset::{verdict, Rules, Ruleset};
use crate::signature::{
    constructed_markers, constructed_tuple, incoming_markers, incoming_tuple, outgoing_markers,
    outgoing_tuple, remaining_params, remove_param, splice_params, spliced_params, ParamSlot,
};
use crate::stateset::{extended_all, lemma_extended_all_keeps_kinds, Stateset};
use crate::syntax::{
    Attribute, AttributeBody, GenericArgument, ImplItem, ImplItemKind, ItemImpl, Meta,
    PathArguments, SelfType,
};
use vstd::prelude::*;

verus! {

/// The edits that give one operation, under one of its rulesets, a block of
/// its own.
pub struct Method {
    /// The position of the operation among the items of the block.
    pub item: usize,
    /// The position of the ruleset among the attributes of the operation.
    pub attr: usize,
    /// Whether the operation takes `self`.
    pub receiver: bool,
    /// The description to document the operation with, where one is asked
    /// for.
    pub description: Option<String>,
    /// The generic parameters of the new block.
    pub params: Vec<ParamSlot>,
    /// The position, among the generic arguments of the block's type, of
    /// the one that names the designated parameter.
    pub argument: usize,
    /// The marker tuple to put at that position, or `None` for the
    /// placeholder of an operation that has no value to look at.
    pub incoming: Option<Vec<Marker>>,
    /// The marker tuple to put wherever the operation leaves its type
    /// open.
    pub outgoing: Vec<Marker>,
}

/// What the edits of one operation hold.
pub struct MethodView {
    pub item: usize,
    pub attr: usize,
    pub receiver: bool,
    pub description: Option<Seq<char>>,
    pub params: Seq<ParamSlot>,
    pub argument: usize,
    pub incoming: Option<Seq<Marker>>,
    pub outgoing: Seq<Marker>,
}

impl View for Method {
    type V = MethodView;

    open spec fn view(&self) -> MethodView {
        MethodView {
            item: self.item,
            attr: self.attr,
            receiver: self.receiver,
            description: text_of(self.description),
            params: self.params@,
            argument: self.argument,
            incoming: match self.incoming {
                Some(tuple) => Some(tuple@),
                None => None,
            },
            outgoing: self.outgoing@,
        }
    }
}

/// The edits that expand a block of operations.
pub struct ImplExpansion {
    /// The position of the designated parameter.
    pub param: usize,
    /// The position, among the attributes of that parameter, of the marker
    /// to remove.
    pub marker: usize,
    /// The name of the designated parameter.
    pub ident: String,
    /// The declared states, in order. Slot `i` of every marker tuple
    /// belongs to state `i`, and a fresh generic parameter for slot `i` is
    /// named after it.
    pub states: Vec<String>,
    /// Whether a tidied copy of the block is added for the documentation.
    pub pretty: bool,
    /// One entry for each ruleset of each operation, in the order of the
    /// block.
    pub methods: Vec<Method>,
    /// The positions of the operations without a ruleset, in order. They
    /// stay together in one block, as they were written.
    pub untouched: Vec<usize>,
}

/// What the edits of a block hold.
pub struct ImplExpansionView {
    pub param: usize,
    pub marker: usize,
    pub ident: Seq<char>,
    pub states: Seq<Seq<char>>,
    pub pretty: bool,
    pub methods: Seq<MethodView>,
    pub untouched: Seq<usize>,
}

/// What each of the methods holds.
pub open spec fn method_views(methods: Seq<Method>) -> Seq<MethodView> {
    Seq::new(methods.len(), |i: int| methods[i]@)
}

impl View for ImplExpansion {
    type V = ImplExpansionView;

    open spec fn view(&self) -> ImplExpansionView {
        ImplExpansionView {
            param: self.param,
            marker: self.marker,
            ident: self.ident@,
            states: spelled(self.states@),
            pretty: self.pretty,
            methods: method_views(self.methods@),
            untouched: self.untouched@,
        }
    }
}

/// What every operation of a block is expanded against.
pub struct Context {
    pub docs: Documentation,
    pub declared: Seq<Seq<char>>,
    pub preset: Seq<Seq<char>>,
    /// The position of the designated parameter.
    pub param: usize,
    /// The number of generic parameters of the block.
    pub count: usize,
    /// The name of the designated parameter.
    pub ident: Seq<char>,
    pub self_ty: SelfType,
}

/// The map that the ruleset attribute fills. An attribute without a list
/// leaves all four kinds empty.
pub open spec fn rules_read(attribute: Attribute) -> Result<
    Map<Seq<char>, Seq<Seq<char>>>,
    RuleError,
> {
    match attribute.body {
        AttributeBody::NameValue => Err(RuleError::UnexpectedNameValue),
        AttributeBody::Malformed => Err(RuleError::MalformedOptions),
        AttributeBody::Path => Ok(rule_map()),
        AttributeBody::Options(metas) => match first_true(foreign_to_rules(metas@)) {
            Some(meta) => Err(RuleError::InvalidAttribute { meta: meta as usize }),
            None => match extended_all(rule_map(), metas@, 0).1 {
                Err(error) => Err(RuleError::Options(error)),
                Ok(_) => Ok(extended_all(rule_map(), metas@, 0).0),
            },
        },
    }
}

/// The four lists that a filled map holds.
pub open spec fn rules_of(map: Map<Seq<char>, Seq<Seq<char>>>) -> Rules {
    Rules {
        asserted: map["assert"@],
        rejected: map["reject"@],
        assigned: map["assign"@],
        deleted: map["delete"@],
    }
}

/// The generic arguments of the last segment of the block's type.
pub open spec fn self_arguments(self_ty: SelfType) -> Result<Seq<GenericArgument>, RuleError> {
    match self_ty {
        SelfType::Other => Err(RuleError::ExpectedPath),
        SelfType::Path(path) => if path.segments@.len() == 0 {
            Err(RuleError::PathIsEmpty)
        } else {
            match path.segments@.last().arguments {
                PathArguments::AngleBracketed(args) => Ok(args@),
                _ => Err(RuleError::ExpectedAngleBracketed),
            }
        },
    }
}

/// The edits for the operation at position `item` under the ruleset at
/// position `attr`, or the first reason why there are none: the attribute
/// cannot be read, the ruleset is not valid, the block's type has no single
/// argument that names the designated parameter.
pub open spec fn method_of(
    context: Context,
    attribute: Attribute,
    item: usize,
    attr: usize,
    receiver: bool,
) -> Result<MethodView, RuleError> {
    match rules_read(attribute) {
        Err(error) => Err(error),
        Ok(map) => {
            let rules = rules_of(map);
            let incoming = incoming_tuple(context.declared, rules);
            match verdict(context.declared, rules) {
                Err(error) => Err(RuleError::Ruleset(error)),
                Ok(_) => match self_arguments(context.self_ty) {
                    Err(error) => Err(error),
                    Ok(args) => match naming_argument(args, context.ident) {
                        Err(error) => Err(RuleError::Designation(error)),
                        Ok(argument) => Ok(
                            MethodView {
                                item,
                                attr,
                                receiver,
                                description: if context.docs.description {
                                    Some(described(map, rule_lines(), 4))
                                } else {
                                    None
                                },
                                params: if receiver {
                                    spliced_params(
                                        context.count as int,
                                        context.param as int,
                                        incoming,
                                    )
                                } else {
                                    remaining_params(context.count as int, context.param as int)
                                },
                                argument,
                                incoming: if receiver {
                                    Some(incoming)
                                } else {
                                    None
                                },
                                outgoing: if receiver {
                                    outgoing_tuple(context.declared, rules)
                                } else {
                                    constructed_tuple(context.declared, context.preset, rules)
                                },
                            },
                        ),
                    },
                },
            }
        },
    }
}

/// `more` after `first`, unless it is an error.
pub open spec fn followed_by(first: Seq<MethodView>, more: Result<Seq<MethodView>, ExpandError>)
    -> Result<Seq<MethodView>, ExpandError> {
    match more {
        Err(error) => Err(error),
        Ok(rest) => Ok(first + rest),
    }
}

/// The edits for the rulesets of one operation from the attribute at
/// position `from` on, or the error of the first ruleset that has none.
pub open spec fn methods_from(context: Context, item: ImplItem, index: usize, from: int) -> Result<
    Seq<MethodView>,
    ExpandError,
>
    decreases item.attrs@.len() - from,
{
    if from < 0 || from >= item.attrs@.len() {
        Ok(Seq::empty())
    } else if !item.attrs@[from].spec_is_marker() {
        methods_from(context, item, index, from + 1)
    } else {
        match method_of(context, item.attrs@[from], index, from as usize, item.has_receiver) {
            Err(error) => Err(ExpandError::Rule { item: index, attr: from as usize, error }),
            Ok(method) => followed_by(
                Seq::empty().push(method),
                methods_from(context, item, index, from + 1),
            ),
        }
    }
}

/// The edits for one item of the block. The item must be a function; one
/// without a ruleset attribute has no edits.
pub open spec fn item_methods(context: Context, item: ImplItem, index: usize) -> Result<
    Seq<MethodView>,
    ExpandError,
> {
    if item.kind != ImplItemKind::Fn {
        Err(ExpandError::ExpectedFn { item: index })
    } else {
        methods_from(context, item, index, 0)
    }
}

/// Whether an item carries a ruleset attribute.
pub open spec fn is_ruled(item: ImplItem) -> bool {
    first_true(marker_flags(item.attrs@)) is Some
}

/// The positions, among the first `upto` items, of those without a ruleset
/// attribute, in order.
pub open spec fn unruled(items: Seq<ImplItem>, upto: int) -> Seq<usize>
    decreases upto,
{
    if upto <= 0 {
        Seq::empty()
    } else if is_ruled(items[upto - 1]) {
        unruled(items, upto - 1)
    } else {
        unruled(items, upto - 1).push((upto - 1) as usize)
    }
}

/// The edits for the items of the block from position `from` on, or the
/// error of the first item that has none.
pub open spec fn block_methods(context: Context, items: Seq<ImplItem>, from: int) -> Result<
    Seq<MethodView>,
    ExpandError,
>
    decreases items.len() - from,
{
    if from < 0 || from >= items.len() {
        Ok(Seq::empty())
    } else {
        match item_methods(context, items[from], from as usize) {
            Err(error) => Err(error),
            Ok(first) => followed_by(first, block_methods(context, items, from + 1)),
        }
    }
}

/// The expansion of a block of operations, or the first reason why it has
/// none. The declaration is checked first: the keys of the options, that
/// the block implements no trait, the `docs` option, the lists, that a
/// state is declared, that none is declared or preset twice, that every
/// preset state is declared, that one parameter is designated. Then the
/// items are expanded in order; those without a ruleset are left as they
/// are.
pub open spec fn expanded_impl(metas: Seq<Meta>, block: ItemImpl) -> Result<
    ImplExpansionView,
    ExpandError,
> {
    let docs = configured_all(Documentation { description: false, ugly: false }, metas, 0);
    let sets = extended_all(declaration_map(), metas, 0);
    let declared = sets.0["states"@];
    let preset = sets.0["preset"@];
    let found = scanned_indices(block.params@);
    if let Some(meta) = first_true(foreign_to_declaration(metas)) {
        Err(ExpandError::InvalidAttribute { meta: meta as usize })
    } else if block.is_trait_impl {
        Err(ExpandError::TraitImpl)
    } else if let Err(error) = docs.1 {
        Err(ExpandError::Docs(error))
    } else if let Err(error) = sets.1 {
        Err(ExpandError::Options(error))
    } else if let Some(fault) = declaration_fault(declared, preset) {
        Err(fault)
    } else if let Err(error) = found {
        Err(ExpandError::Designation(error))
    } else {
        let context = Context {
            docs: docs.0,
            declared,
            preset,
            param: found->Ok_0.0,
            count: block.params@.len() as usize,
            ident: block.params@[found->Ok_0.0 as int].ident@,
            self_ty: block.self_ty,
        };
        match block_methods(context, block.items@, 0) {
            Err(error) => Err(error),
            Ok(methods) => Ok(
                ImplExpansionView {
                    param: found->Ok_0.0,
                    marker: found->Ok_0.1,
                    ident: context.ident,
                    states: declared,
                    pretty: !docs.0.ugly,
                    methods,
                    untouched: unruled(block.items@, block.items@.len() as int),
                },
            ),
        }
    }
}

/// What every operation of a block is expanded against.
struct Scope<'a> {
    docs: Documentation,
    declared: &'a Vec<String>,
    preset: &'a Vec<String>,
    param: usize,
    count: usize,
    ident: &'a String,
    self_ty: &'a SelfType,
}

impl<'a> View for Scope<'a> {
    type V = Context;

    closed spec fn view(&self) -> Context {
        Context {
            docs: self.docs,
            declared: spelled(self.declared@),
            preset: spelled(self.preset@),
            param: self.param,
            count: self.count,
            ident: self.ident@,
            self_ty: *self.self_ty,
        }
    }
}

/// Reads the ruleset attribute into a stateset.
fn read_rules(attribute: &Attribute) -> (read: Result<Stateset, RuleError>)
    ensures
        match read {
            Ok(stateset) => rules_read(*attribute) == Ok::<
                Map<Seq<char>, Seq<Seq<char>>>,
                RuleError,
            >(stateset@) && stateset@.dom() == rule_map().dom(),
            Err(error) => rules_read(*attribute) == Err::<
                Map<Seq<char>, Seq<Seq<char>>>,
                RuleError,
            >(error),
        },
{
    let mut stateset = rule_stateset();
    match &attribute.body {
        AttributeBody::NameValue => Err(RuleError::UnexpectedNameValue),
        AttributeBody::Malformed => Err(RuleError::MalformedOptions),
        AttributeBody::Path => Ok(stateset),
        AttributeBody::Options(metas) => {
            if let Some(meta) = first_foreign_to_rules(metas) {
                return Err(RuleError::InvalidAttribute { meta });
            }
            if let Err(error) = stateset.extend_with_metas(metas) {
                return Err(RuleError::Options(error));
            }
            proof {
                lemma_extended_all_keeps_kinds(rule_map(), metas@, 0);
            }
            Ok(stateset)
        },
    }
}

/// The four lists of a filled stateset.
fn ruleset_of(stateset: &Stateset) -> (rules: Ruleset)
    requires
        stateset@.dom() == rule_map().dom(),
    ensures
        rules@ == rules_of(stateset@),
{
    Ruleset {
        asserted: list_of(stateset, "assert"),
        rejected: list_of(stateset, "reject"),
        assigned: list_of(stateset, "assign"),
        deleted: list_of(stateset, "delete"),
    }
}

/// The generic arguments of the last segment of the block's type.
fn self_arguments_of(self_ty: &SelfType) -> (found: Result<&Vec<GenericArgument>, RuleError>)
    ensures
        match found {
            Ok(args) => self_arguments(*self_ty) == Ok::<Seq<GenericArgument>, RuleError>(args@),
            Err(error) => self_arguments(*self_ty) == Err::<Seq<GenericArgument>, RuleError>(
                error,
            ),
        },
{
    match self_ty {
        SelfType::Other => Err(RuleError::ExpectedPath),
        SelfType::Path(path) => {
            if path.segments.len() == 0 {
                return Err(RuleError::PathIsEmpty);
            }
            match &path.segments[path.segments.len() - 1].arguments {
                PathArguments::AngleBracketed(args) => Ok(args),
                _ => Err(RuleError::ExpectedAngleBracketed),
            }
        },
    }
}

/// Expands one operation under one of its rulesets.
fn expand_method(
    scope: &Scope,
    attribute: &Attribute,
    item: usize,
    attr: usize,
    receiver: bool,
) -> (expanded: Result<Method, RuleError>)
    requires
        scope.param < scope.count,
    ensures
        match expanded {
            Ok(method) => method_of(scope@, *attribute, item, attr, receiver) == Ok::<
                MethodView,
                RuleError,
            >(method@),
            Err(error) => method_of(scope@, *attribute, item, attr, receiver) == Err::<
                MethodView,
                RuleError,
            >(error),
        },
{
    let stateset = match read_rules(attribute) {
        Ok(stateset) => stateset,
        Err(error) => {
            return Err(error);
        },
    };
    let rules = ruleset_of(&stateset);
    if let Err(error) = rules.validate(scope.declared) {
        return Err(RuleError::Ruleset(error));
    }
    let description = if scope.docs.description {
        let lines = Description::new(&stateset).line(
            DescriptionLine::new("assert").label("Assert"),
        ).line(DescriptionLine::new("reject").label("Reject")).line(
            DescriptionLine::new("assign").label("Assign"),
        ).line(DescriptionLine::new("delete").label("Delete"));
        assert(lines.lines() == rule_lines());
        Some(lines.generate())
    } else {
        None
    };
    let args = match self_arguments_of(scope.self_ty) {
        Ok(args) => args,
        Err(error) => {
            return Err(error);
        },
    };
    let argument = match find_designated_arg(args, scope.ident) {
        Ok(argument) => argument,
        Err(error) => {
            return Err(RuleError::Designation(error));
        },
    };
    if receiver {
        let incoming = incoming_markers(scope.declared, &rules);
        let params = splice_params(scope.count, scope.param, &incoming);
        let outgoing = outgoing_markers(scope.declared, &rules);
        Ok(
            Method {
                item,
                attr,
                receiver,
                description,
                params,
                argument,
                incoming: Some(incoming),
                outgoing,
            },
        )
    } else {
        let params = remove_param(scope.count, scope.param);
        let outgoing = constructed_markers(scope.declared, scope.preset, &rules);
        Ok(
            Method {
                item,
                attr,
                receiver,
                description,
                params,
                argument,
                incoming: None,
                outgoing,
            },
        )
    }
}

/// Whether an item carries a ruleset attribute.
fn has_ruleset(item: &ImplItem) -> (ruled: bool)
    ensures
        ruled == is_ruled(*item),
{
    let ghost flags = marker_flags(item.attrs@);
    let mut i: usize = 0;
    while i < item.attrs.len()
        invariant
            i <= item.attrs.len(),
            flags == marker_flags(item.attrs@),
            forall|k: int| 0 <= k < i ==> !flags[k],
        decreases item.attrs.len() - i,
    {
        if item.attrs[i].is_marker() {
            proof {
                lemma_first_true_is(flags, i as int);
            }
            return true;
        }
        i += 1;
    }
    proof {
        lemma_first_true_none(flags);
    }
    false
}

/// Expands one item of the block under each of its rulesets, and adds the
/// edits to `methods`.
#[verifier::loop_isolation(false)]
fn expand_item(scope: &Scope, item: &ImplItem, index: usize, methods: &mut Vec<Method>) -> (fault:
    Option<ExpandError>)
    requires
        scope.param < scope.count,
    ensures
        match fault {
            None => item_methods(scope@, *item, index) matches Ok(added) && method_views(
                final(methods)@,
            ) == method_views(old(methods)@) + added,
            Some(error) => item_methods(scope@, *item, index) == Err::<
                Seq<MethodView>,
                ExpandError,
            >(error),
        },
{
    match item.kind {
        ImplItemKind::Fn => {},
        ImplItemKind::Other => {
            return Some(ExpandError::ExpectedFn { item: index });
        },
    }
    let ghost mut added: Seq<MethodView> = Seq::empty();
    let mut i: usize = 0;
    while i < item.attrs.len()
        invariant
            i <= item.attrs.len(),
            scope.param < scope.count,
            method_views(methods@) == method_views(old(methods)@) + added,
            methods_from(scope@, *item, index, 0) == followed_by(
                added,
                methods_from(scope@, *item, index, i as int),
            ),
        decreases item.attrs.len() - i,
    {
        if item.attrs[i].is_marker() {
            match expand_method(scope, &item.attrs[i], index, i, item.has_receiver) {
                Err(error) => {
                    return Some(ExpandError::Rule { item: index, attr: i, error });
                },
                Ok(method) => {
                    let ghost before = method_views(methods@);
                    let ghost rest = methods_from(scope@, *item, index, i + 1);
                    methods.push(method);
                    proof {
                        assert(method_views(methods@) =~= before.push(method@));
                        if let Ok(more) = rest {
                            assert(added + (Seq::empty().push(method@) + more) =~= added.push(
                                method@,
                            ) + more);
                        }
                        added = added.push(method@);
                        assert(method_views(methods@) =~= method_views(old(methods)@) + added);
                    }
                },
            }
        }
        i += 1;
    }
    proof {
        assert(added + Seq::<MethodView>::empty() =~= added);
    }
    None
}

/// Expands a block of operations.
///
/// Reads and checks the options of the declaration, finds the designated
/// parameter, and expands every ruleset of every item, in order. Returns
/// the edits, or the first error: nothing is returned for a block of which
/// one part cannot be expanded.
#[verifier::loop_isolation(false)]
pub fn expand_item_impl_internal(metas: &Vec<Meta>, item_impl: &ItemImpl) -> (expansion: Result<
    ImplExpansion,
    ExpandError,
>)
    ensures
        match expansion {
            Ok(edits) => expanded_impl(metas@, *item_impl) == Ok::<ImplExpansionView, ExpandError>(
                edits@,
            ),
            Err(error) => expanded_impl(metas@, *item_impl) == Err::<
                ImplExpansionView,
                ExpandError,
            >(error),
        },
{
    if let Some(meta) = first_foreign_to_declaration(metas) {
        return Err(ExpandError::InvalidAttribute { meta });
    }
    if item_impl.is_trait_impl {
        return Err(ExpandError::TraitImpl);
    }
    let mut documentation = Documentation::default();
    if let Err(error) = documentation.configure_with_metas(metas) {
        return Err(ExpandError::Docs(error));
    }
    let mut stateset = declaration_stateset();
    if let Err(error) = stateset.extend_with_metas(metas) {
        return Err(ExpandError::Options(error));
    }
    proof {
        lemma_extended_all_keeps_kinds(declaration_map(), metas@, 0);
        assert(stateset@.dom().contains("states"@));
        assert(stateset@.dom().contains("preset"@));
    }
    let declared = list_of(&stateset, "states");
    let preset = list_of(&stateset, "preset");
    if let Some(fault) = check_declaration(&declared, &preset) {
        return Err(fault);
    }
    let (param, marker) = match get_designated_indices(&item_impl.params) {
        Ok(found) => found,
        Err(error) => {
            return Err(ExpandError::Designation(error));
        },
    };
    assert(param < item_impl.params.len()) by {
        assert(item_impl.params@.len() == item_impl.params.len());
        crate::designated::lemma_designated_in_range(item_impl.params@);
    }
    let scope = Scope {
        docs: documentation,
        declared: &declared,
        preset: &preset,
        param,
        count: item_impl.params.len(),
        ident: &item_impl.params[param].ident,
        self_ty: &item_impl.self_ty,
    };
    let mut methods: Vec<Method> = Vec::new();
    let mut untouched: Vec<usize> = Vec::new();
    let ghost mut added: Seq<MethodView> = Seq::empty();
    let mut i: usize = 0;
    while i < item_impl.items.len()
        invariant
            i <= item_impl.items.len(),
            scope.param < scope.count,
            method_views(methods@) == added,
            untouched@ == unruled(item_impl.items@, i as int),
            block_methods(scope@, item_impl.items@, 0) == followed_by(
                added,
                block_methods(scope@, item_impl.items@, i as int),
            ),
        decreases item_impl.items.len() - i,
    {
        let ghost first = item_methods(scope@, item_impl.items@[i as int], i);
        let ghost rest = block_methods(scope@, item_impl.items@, i + 1);
        if let Some(error) = expand_item(&scope, &item_impl.items[i], i, &mut methods) {
            return Err(error);
        }
        if !has_ruleset(&item_impl.items[i]) {
            untouched.push(i);
        }
        proof {
            if let Ok(more) = rest {
                assert(added + (first->Ok_0 + more) =~= (added + first->Ok_0) + more);
            }
            added = added + first->Ok_0;
        }
        i += 1;
    }
    proof {
        assert(added + Seq::<MethodView>::empty() =~= added);
    }
    Ok(
        ImplExpansion {
            param,
            marker,
            ident: item_impl.params[param].ident.clone(),
            states: declared,
            pretty: !documentation.ugly,
            methods,
            untouched,
        },
    )
}

} // verus!
