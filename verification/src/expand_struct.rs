//! The expansion of a structure: the tracking member that it gains and the
//! operation that rebuilds a value of it under another marker tuple.

use crate::declaration::{
    check_declaration, declaration_fault, declaration_lines, declaration_map,
    declaration_stateset, first_foreign_to_declaration, foreign_to_declaration, list_of, text_of,
    ExpandError,
};
use crate::designated::{get_designated_indices, scanned_indices};
use crate::documentation::{
    configured_all, described, Description, DescriptionLine, Documentation,
};
use crate::names::{copy_names, first_true, spelled};
use crate::stateset::{extended_all, lemma_extended_all_keeps_kinds};
use crate::syntax::{Fields, ItemStruct, Member, MemberView, Meta};
use vstd::prelude::*;

verus! {

/// One generic argument of the type that the rebuilding operation returns.
#[derive(Debug, Clone, Copy, PartialEq, Eq, Structural)]
pub enum RebuiltParam {
    /// The parameter at this position of the structure.
    Kept(usize),
    /// The parameter of the rebuilding operation, which takes the place of
    /// the designated one.
    Replacement,
}

/// The edits that expand a structure.
pub struct StructExpansion {
    /// The description to document the structure with, where one is asked
    /// for.
    pub description: Option<String>,
    /// The position of the designated parameter.
    pub param: usize,
    /// The position, among the attributes of that parameter, of the marker
    /// to remove.
    pub marker: usize,
    /// The name of the designated parameter. The type of the tracking
    /// member is parameterized by it.
    pub ident: String,
    /// The members of the structure with the tracking member added.
    pub fields: Fields,
    /// The members that the rebuilding operation moves over, in order.
    pub members: Vec<Member>,
    /// The tracking member, which the rebuilding operation makes anew.
    pub tracking: Member,
    /// The generic arguments of the type that the rebuilding operation
    /// returns.
    pub generics: Vec<RebuiltParam>,
}

/// The members that a list of fields spells.
pub enum FieldsView {
    Named(Seq<Seq<char>>),
    Unnamed(usize),
    Unit,
}

impl View for Fields {
    type V = FieldsView;

    open spec fn view(&self) -> FieldsView {
        match self {
            Fields::Named(names) => FieldsView::Named(spelled(names@)),
            Fields::Unnamed(count) => FieldsView::Unnamed(*count),
            Fields::Unit => FieldsView::Unit,
        }
    }
}

/// What the edits of a structure hold.
pub struct StructExpansionView {
    pub description: Option<Seq<char>>,
    pub param: usize,
    pub marker: usize,
    pub ident: Seq<char>,
    pub fields: FieldsView,
    pub members: Seq<MemberView>,
    pub tracking: MemberView,
    pub generics: Seq<RebuiltParam>,
}

impl View for StructExpansion {
    type V = StructExpansionView;

    open spec fn view(&self) -> StructExpansionView {
        StructExpansionView {
            description: text_of(self.description),
            param: self.param,
            marker: self.marker,
            ident: self.ident@,
            fields: self.fields@,
            members: Seq::new(self.members@.len(), |i: int| self.members@[i]@),
            tracking: self.tracking@,
            generics: self.generics@,
        }
    }
}

/// The name of the tracking member among named members.
pub open spec fn tracking_name() -> Seq<char> {
    "__states"@
}

/// The members of a structure with the tracking member added at the end. A
/// structure without brackets becomes one with a single unnamed member.
pub open spec fn widened_fields(fields: FieldsView) -> FieldsView {
    match fields {
        FieldsView::Named(names) => FieldsView::Named(names.push(tracking_name())),
        FieldsView::Unnamed(count) => FieldsView::Unnamed((count + 1) as usize),
        FieldsView::Unit => FieldsView::Unnamed(1),
    }
}

/// The members that a structure had before the tracking member, in order.
pub open spec fn own_members(fields: FieldsView) -> Seq<MemberView> {
    match fields {
        FieldsView::Named(names) => Seq::new(names.len(), |i: int| MemberView::Named(names[i])),
        FieldsView::Unnamed(count) => Seq::new(
            count as nat,
            |i: int| MemberView::Unnamed(i as usize),
        ),
        FieldsView::Unit => Seq::empty(),
    }
}

/// The tracking member of a structure.
pub open spec fn tracking_member(fields: FieldsView) -> MemberView {
    match fields {
        FieldsView::Named(_) => MemberView::Named(tracking_name()),
        FieldsView::Unnamed(count) => MemberView::Unnamed(count),
        FieldsView::Unit => MemberView::Unnamed(0),
    }
}

/// The generic arguments of the rebuilt type: those of the structure, with
/// the replacement at the place of the designated parameter.
pub open spec fn rebuilt_generics(count: int, param: int) -> Seq<RebuiltParam> {
    Seq::new(
        count as nat,
        |k: int|
            if k == param {
                RebuiltParam::Replacement
            } else {
                RebuiltParam::Kept(k as usize)
            },
    )
}

/// The expansion of a structure, or the first reason why it has none: an
/// option with a foreign key, a `docs` option out of order, an option that
/// lists no identifiers, a fault in the declared or preset states, no
/// single designated parameter.
pub open spec fn expanded_struct(metas: Seq<Meta>, item: ItemStruct) -> Result<
    StructExpansionView,
    ExpandError,
> {
    let docs = configured_all(Documentation { description: false, ugly: false }, metas, 0);
    let sets = extended_all(declaration_map(), metas, 0);
    let found = scanned_indices(item.params@);
    if let Some(meta) = first_true(foreign_to_declaration(metas)) {
        Err(ExpandError::InvalidAttribute { meta: meta as usize })
    } else if let Err(error) = docs.1 {
        Err(ExpandError::Docs(error))
    } else if let Err(error) = sets.1 {
        Err(ExpandError::Options(error))
    } else if let Some(fault) = declaration_fault(sets.0["states"@], sets.0["preset"@]) {
        Err(fault)
    } else if let Err(error) = found {
        Err(ExpandError::Designation(error))
    } else {
        Ok(
            StructExpansionView {
                description: if docs.0.description {
                    Some(described(sets.0, declaration_lines(), 2))
                } else {
                    None
                },
                param: found->Ok_0.0,
                marker: found->Ok_0.1,
                ident: item.params@[found->Ok_0.0 as int].ident@,
                fields: widened_fields(item.fields@),
                members: own_members(item.fields@),
                tracking: tracking_member(item.fields@),
                generics: rebuilt_generics(item.params@.len() as int, found->Ok_0.0 as int),
            },
        )
    }
}

/// Expands a structure.
///
/// Reads the options, finds the designated parameter, and returns the
/// edits: the marker to remove from that parameter, the members with the
/// tracking member added, and what the rebuilding operation needs. That
/// operation moves every member but the tracking one from the old value to
/// the new.
pub fn expand_item_struct_internal(metas: &Vec<Meta>, item_struct: &ItemStruct) -> (expansion:
    Result<StructExpansion, ExpandError>)
    requires
        item_struct.fields matches Fields::Unnamed(count) ==> count < usize::MAX,
    ensures
        match expansion {
            Ok(edits) => expanded_struct(metas@, *item_struct) == Ok::<
                StructExpansionView,
                ExpandError,
            >(edits@),
            Err(error) => expanded_struct(metas@, *item_struct) == Err::<
                StructExpansionView,
                ExpandError,
            >(error),
        },
{
    if let Some(meta) = first_foreign_to_declaration(metas) {
        return Err(ExpandError::InvalidAttribute { meta });
    }
    let mut documentation = Documentation::default();
    if let Err(error) = documentation.configure_with_metas(metas) {
        return Err(ExpandError::Docs(error));
    }
    let mut stateset = declaration_stateset();
    if let Err(error) = stateset.extend_with_metas(metas) {
        return Err(ExpandError::Options(error));
    }
    proof {
        lemma_extended_all_keeps_kinds(declaration_map(), metas@, 0);
        assert(stateset@.dom().contains("states"@));
        assert(stateset@.dom().contains("preset"@));
    }
    let declared = list_of(&stateset, "states");
    let preset = list_of(&stateset, "preset");
    if let Some(fault) = check_declaration(&declared, &preset) {
        return Err(fault);
    }
    let description = if documentation.description {
        let lines = Description::new(&stateset).line(
            DescriptionLine::new("states").label("States"),
        ).line(DescriptionLine::new("preset").label("Preset"));
        assert(lines.lines() == declaration_lines());
        Some(lines.generate())
    } else {
        None
    };
    let (param, marker) = match get_designated_indices(&item_struct.params) {
        Ok(found) => found,
        Err(error) => {
            return Err(ExpandError::Designation(error));
        },
    };
    let (fields, members, tracking) = track(&item_struct.fields);
    let generics = rebuild_generics(item_struct.params.len(), param);
    let ident = item_struct.params[param].ident.clone();
    Ok(StructExpansion { description, param, marker, ident, fields, members, tracking, generics })
}

/// Adds the tracking member to the members of a structure, and names the
/// members that were there before.
fn track(fields: &Fields) -> (parts: (Fields, Vec<Member>, Member))
    requires
        fields matches Fields::Unnamed(count) ==> count < usize::MAX,
    ensures
        parts.0@ == widened_fields(fields@),
        Seq::new(parts.1@.len(), |i: int| parts.1@[i]@) == own_members(fields@),
        parts.2@ == tracking_member(fields@),
{
    match fields {
        Fields::Named(names) => {
            let mut all = copy_names(names);
            let mut members: Vec<Member> = Vec::new();
            let mut i: usize = 0;
            while i < names.len()
                invariant
                    i <= names.len(),
                    members@.len() == i,
                    forall|k: int| 0 <= k < i ==> members@[k]@ == MemberView::Named(names@[k]@),
                decreases names.len() - i,
            {
                members.push(Member::Named(names[i].clone()));
                i += 1;
            }
            all.push(String::from_str("__states"));
            assert(spelled(all@) =~= spelled(names@).push(tracking_name()));
            assert(Seq::new(members@.len(), |i: int| members@[i]@) =~= own_members(fields@));
            (Fields::Named(all), members, Member::Named(String::from_str("__states")))
        },
        Fields::Unnamed(count) => {
            let mut members: Vec<Member> = Vec::new();
            let mut i: usize = 0;
            while i < *count
                invariant
                    i <= *count,
                    members@.len() == i,
                    forall|k: int| 0 <= k < i ==> members@[k]@ == MemberView::Unnamed(k as usize),
                decreases *count - i,
            {
                members.push(Member::Unnamed(i));
                i += 1;
            }
            assert(Seq::new(members@.len(), |i: int| members@[i]@) =~= own_members(fields@));
            (Fields::Unnamed(*count + 1), members, Member::Unnamed(*count))
        },
        Fields::Unit => {
            let members: Vec<Member> = Vec::new();
            assert(Seq::new(members@.len(), |i: int| members@[i]@) =~= own_members(fields@));
            (Fields::Unnamed(1), members, Member::Unnamed(0))
        },
    }
}

/// Lists the generic arguments of the rebuilt type.
fn rebuild_generics(count: usize, param: usize) -> (generics: Vec<RebuiltParam>)
    ensures
        generics@ == rebuilt_generics(count as int, param as int),
{
    let mut generics: Vec<RebuiltParam> = Vec::new();
    let mut k: usize = 0;
    while k < count
        invariant
            k <= count,
            generics@.len() == k,
            forall|j: int|
                0 <= j < k ==> generics@[j] == rebuilt_generics(count as int, param as int)[j],
        decreases count - k,
    {
        if k == param {
            generics.push(RebuiltParam::Replacement);
        } else {
            generics.push(RebuiltParam::Kept(k));
        }
        k += 1;
    }
    assert(generics@ =~= rebuilt_generics(count as int, param as int));
    generics
}

} // verus!
