//! Finding the generic parameter that carries the states, and the generic
//! argument that names it.

use crate::names::{
    first_set, first_true, first_true_from, lemma_first_true_from_start, lemma_first_true_is,
    lemma_first_true_none, lemma_first_true_sound,
};
use crate::syntax::{Attribute, GenericArgument, GenericParam, ParamKind};
use vstd::prelude::*;

verus! {

/// Why no single parameter or argument could be found.
#[derive(Debug, Clone, Copy, PartialEq, Eq, Structural)]
pub enum DesignationError {
    /// A designating marker of parameter `param` carries a list or a value.
    MarkerWithArguments { param: usize, attr: usize },
    /// Attribute `attr` designates parameter `param` a second time.
    AlreadyDesignated { param: usize, attr: usize },
    /// Parameter `param` is designated although an earlier one is.
    MoreThanOneParameter { param: usize },
    /// No parameter is designated.
    NoParameter,
    /// Argument `arg` names the designated parameter although an earlier one
    /// does.
    MoreThanOneArgument { arg: usize },
    /// No argument names the designated parameter.
    NoArgument,
}

impl DesignationError {
    /// The diagnostic of this error.
    pub open spec fn spec_message(self) -> Seq<char> {
        match self {
            DesignationError::MarkerWithArguments { .. } => "unexpected token in attribute"@,
            DesignationError::AlreadyDesignated { .. } => "parameter is already designated"@,
            DesignationError::MoreThanOneParameter { .. } => "cannot designate more than one parameter"@,
            DesignationError::NoParameter => "no parameter is designated"@,
            DesignationError::MoreThanOneArgument { .. } => "only one argument can match the designated parameter"@,
            DesignationError::NoArgument => "no argument matches the designated parameter"@,
        }
    }

    /// The diagnostic of this error.
    pub fn message(self) -> (text: &'static str)
        ensures
            text@ == self.spec_message(),
    {
        match self {
            DesignationError::MarkerWithArguments { .. } => "unexpected token in attribute",
            DesignationError::AlreadyDesignated { .. } => "parameter is already designated",
            DesignationError::MoreThanOneParameter { .. } => "cannot designate more than one parameter",
            DesignationError::NoParameter => "no parameter is designated",
            DesignationError::MoreThanOneArgument { .. } => "only one argument can match the designated parameter",
            DesignationError::NoArgument => "no argument matches the designated parameter",
        }
    }
}

/// For each attribute, whether it is a designating marker.
pub open spec fn marker_flags(attrs: Seq<Attribute>) -> Seq<bool> {
    Seq::new(attrs.len(), |i: int| attrs[i].spec_is_marker())
}

/// For each attribute, whether it is a designating marker that carries
/// arguments.
pub open spec fn broken_flags(attrs: Seq<Attribute>) -> Seq<bool> {
    Seq::new(attrs.len(), |i: int| attrs[i].spec_is_marker() && !attrs[i].spec_is_path_only())
}

/// What the attributes of parameter `param` say when they are read one by
/// one and the reading stops at the first fault: the position of the marker,
/// `None` without a marker, or the fault of the first or the second marker.
pub open spec fn scanned_marker(attrs: Seq<Attribute>, param: usize) -> Result<
    Option<usize>,
    DesignationError,
> {
    match first_true(marker_flags(attrs)) {
        None => Ok(None),
        Some(first) => if !attrs[first].spec_is_path_only() {
            Err(DesignationError::MarkerWithArguments { param, attr: first as usize })
        } else {
            match first_true_from(marker_flags(attrs), first + 1) {
                None => Ok(Some(first as usize)),
                Some(second) => if !attrs[second].spec_is_path_only() {
                    Err(DesignationError::MarkerWithArguments { param, attr: second as usize })
                } else {
                    Err(DesignationError::AlreadyDesignated { param, attr: second as usize })
                },
            }
        },
    }
}

/// What the attributes of parameter `param` say when all markers are
/// collected before they are counted: a marker with arguments is reported
/// first, wherever it stands.
pub open spec fn collected_marker(attrs: Seq<Attribute>, param: usize) -> Result<
    Option<usize>,
    DesignationError,
> {
    match first_true(broken_flags(attrs)) {
        Some(broken) => Err(
            DesignationError::MarkerWithArguments { param, attr: broken as usize },
        ),
        None => match first_true(marker_flags(attrs)) {
            None => Ok(None),
            Some(first) => match first_true_from(marker_flags(attrs), first + 1) {
                None => Ok(Some(first as usize)),
                Some(second) => Err(
                    DesignationError::AlreadyDesignated { param, attr: second as usize },
                ),
            },
        },
    }
}

/// The markers of one parameter, read with stop at the first fault. Only a
/// type parameter can be designated: the attributes of another are not read.
pub open spec fn scanned_param(params: Seq<GenericParam>, p: int) -> Result<
    Option<usize>,
    DesignationError,
> {
    if params[p].kind == ParamKind::Type {
        scanned_marker(params[p].attrs@, p as usize)
    } else {
        Ok(None)
    }
}

/// The markers of one parameter, collected before they are counted.
pub open spec fn collected_param(params: Seq<GenericParam>, p: int) -> Result<
    Option<usize>,
    DesignationError,
> {
    if params[p].kind == ParamKind::Type {
        collected_marker(params[p].attrs@, p as usize)
    } else {
        Ok(None)
    }
}

/// For each parameter, whether it is a type parameter with a marker.
pub open spec fn marked_flags(params: Seq<GenericParam>) -> Seq<bool> {
    Seq::new(
        params.len(),
        |p: int|
            params[p].kind == ParamKind::Type && first_true(marker_flags(params[p].attrs@))
                is Some,
    )
}

/// For each parameter, whether collecting its markers finds a fault.
pub open spec fn faulty_flags(params: Seq<GenericParam>) -> Seq<bool> {
    Seq::new(params.len(), |p: int| collected_param(params, p) is Err)
}

/// The designated parameter and its marker, found by reading the parameters
/// in order and stopping at the first fault.
pub open spec fn scanned_indices(params: Seq<GenericParam>) -> Result<
    (usize, usize),
    DesignationError,
> {
    match first_true(marked_flags(params)) {
        None => Err(DesignationError::NoParameter),
        Some(first) => match scanned_param(params, first) {
            Err(fault) => Err(fault),
            Ok(marker) => match first_true_from(marked_flags(params), first + 1) {
                None => Ok((first as usize, marker->0)),
                Some(second) => match scanned_param(params, second) {
                    Err(fault) => Err(fault),
                    Ok(_) => Err(DesignationError::MoreThanOneParameter { param: second as usize }),
                },
            },
        },
    }
}

/// The designated parameter and its marker, found by collecting the marked
/// parameters before they are counted: a fault inside any parameter is
/// reported first.
pub open spec fn collected_indices(params: Seq<GenericParam>) -> Result<
    (usize, usize),
    DesignationError,
> {
    match first_true(faulty_flags(params)) {
        Some(faulty) => Err(collected_param(params, faulty)->Err_0),
        None => match first_true(marked_flags(params)) {
            None => Err(DesignationError::NoParameter),
            Some(first) => match first_true_from(marked_flags(params), first + 1) {
                None => Ok((first as usize, collected_param(params, first)->Ok_0->0)),
                Some(second) => Err(
                    DesignationError::MoreThanOneParameter { param: second as usize },
                ),
            },
        },
    }
}

/// For each attribute, whether it is a designating marker.
fn marker_flags_of(attrs: &Vec<Attribute>) -> (flags: Vec<bool>)
    ensures
        flags@ == marker_flags(attrs@),
{
    let mut flags: Vec<bool> = Vec::new();
    let mut i: usize = 0;
    while i < attrs.len()
        invariant
            i <= attrs.len(),
            flags@.len() == i,
            forall|k: int| 0 <= k < i ==> flags@[k] == attrs@[k].spec_is_marker(),
        decreases attrs.len() - i,
    {
        flags.push(attrs[i].is_marker());
        i += 1;
    }
    assert(flags@ =~= marker_flags(attrs@));
    flags
}

/// For each attribute, whether it is a designating marker with arguments.
fn broken_flags_of(attrs: &Vec<Attribute>) -> (flags: Vec<bool>)
    ensures
        flags@ == broken_flags(attrs@),
{
    let mut flags: Vec<bool> = Vec::new();
    let mut i: usize = 0;
    while i < attrs.len()
        invariant
            i <= attrs.len(),
            flags@.len() == i,
            forall|k: int|
                0 <= k < i ==> flags@[k] == (attrs@[k].spec_is_marker()
                    && !attrs@[k].spec_is_path_only()),
        decreases attrs.len() - i,
    {
        flags.push(attrs[i].is_marker() && !attrs[i].is_path_only());
        i += 1;
    }
    assert(flags@ =~= broken_flags(attrs@));
    flags
}

/// Reads the markers of one parameter with stop at the first fault.
fn scan_markers(attrs: &Vec<Attribute>, param: usize) -> (outcome: Result<
    Option<usize>,
    DesignationError,
>)
    ensures
        outcome == scanned_marker(attrs@, param),
{
    let flags = marker_flags_of(attrs);
    proof {
        lemma_first_true_from_start(flags@);
    }
    match first_set(&flags, 0) {
        None => Ok(None),
        Some(first) => {
            if !attrs[first].is_path_only() {
                return Err(DesignationError::MarkerWithArguments { param, attr: first });
            }
            match first_set(&flags, first + 1) {
                None => Ok(Some(first)),
                Some(second) => {
                    if !attrs[second].is_path_only() {
                        Err(DesignationError::MarkerWithArguments { param, attr: second })
                    } else {
                        Err(DesignationError::AlreadyDesignated { param, attr: second })
                    }
                },
            }
        },
    }
}

/// Collects the markers of one parameter before counting them.
fn collect_markers(attrs: &Vec<Attribute>, param: usize) -> (outcome: Result<
    Option<usize>,
    DesignationError,
>)
    ensures
        outcome == collected_marker(attrs@, param),
{
    let broken = broken_flags_of(attrs);
    proof {
        lemma_first_true_from_start(broken@);
    }
    if let Some(attr) = first_set(&broken, 0) {
        return Err(DesignationError::MarkerWithArguments { param, attr });
    }
    let flags = marker_flags_of(attrs);
    proof {
        lemma_first_true_from_start(flags@);
    }
    match first_set(&flags, 0) {
        None => Ok(None),
        Some(first) => match first_set(&flags, first + 1) {
            None => Ok(Some(first)),
            Some(second) => Err(DesignationError::AlreadyDesignated { param, attr: second }),
        },
    }
}

/// For each parameter, whether it is a type parameter with a marker.
fn marked_flags_of(params: &Vec<GenericParam>) -> (flags: Vec<bool>)
    ensures
        flags@ == marked_flags(params@),
{
    let mut flags: Vec<bool> = Vec::new();
    let mut p: usize = 0;
    while p < params.len()
        invariant
            p <= params.len(),
            flags@.len() == p,
            forall|k: int| 0 <= k < p ==> flags@[k] == marked_flags(params@)[k],
        decreases params.len() - p,
    {
        let marked = match params[p].kind {
            ParamKind::Type => {
                let markers = marker_flags_of(&params[p].attrs);
                proof {
                    lemma_first_true_from_start(markers@);
                }
                first_set(&markers, 0).is_some()
            },
            _ => false,
        };
        flags.push(marked);
        p += 1;
    }
    assert(flags@ =~= marked_flags(params@));
    flags
}

/// Finds the designated parameter and the attribute that designates it.
///
/// The parameters are read in order, and the attributes of each type
/// parameter in order. The reading stops at the first fault: a marker with
/// arguments, a second marker on one parameter, a second marked parameter.
/// Returns the position of the parameter and, among its attributes, that of
/// the marker.
pub fn get_designated_indices(params: &Vec<GenericParam>) -> (found: Result<
    (usize, usize),
    DesignationError,
>)
    ensures
        found == scanned_indices(params@),
        found matches Ok(at) ==> at.0 < params.len() && at.1 < params[at.0 as int].attrs.len(),
{
    proof {
        assert(params@.len() == params.len());
        lemma_designated_in_range(params@);
    }
    let marked = marked_flags_of(params);
    proof {
        lemma_first_true_from_start(marked@);
    }
    let first = match first_set(&marked, 0) {
        None => {
            return Err(DesignationError::NoParameter);
        },
        Some(first) => first,
    };
    assert(marked@[first as int]) by {
        lemma_first_true_sound(marked@);
    }
    let marker = match scan_markers(&params[first].attrs, first) {
        Err(fault) => {
            return Err(fault);
        },
        Ok(None) => {
            return Err(DesignationError::NoParameter);
        },
        Ok(Some(marker)) => marker,
    };
    match first_set(&marked, first + 1) {
        None => Ok((first, marker)),
        Some(second) => {
            assert(marked@[second as int]) by {
                lemma_first_true_sound(crate::names::flags_from(marked@, first + 1));
            }
            match scan_markers(&params[second].attrs, second) {
                Err(fault) => Err(fault),
                Ok(_) => Err(DesignationError::MoreThanOneParameter { param: second }),
            }
        },
    }
}

/// Finds the designated parameter and the attribute that designates it.
///
/// The markers of every type parameter are collected first, so a fault
/// inside any parameter (a marker with arguments before a second marker) is
/// reported before a second marked parameter is.
pub fn find_designated_param(params: &Vec<GenericParam>) -> (found: Result<
    (usize, usize),
    DesignationError,
>)
    ensures
        found == collected_indices(params@),
{
    let ghost faulty = faulty_flags(params@);
    let mut p: usize = 0;
    while p < params.len()
        invariant
            p <= params.len(),
            faulty == faulty_flags(params@),
            forall|k: int| 0 <= k < p ==> !faulty[k],
        decreases params.len() - p,
    {
        match params[p].kind {
            ParamKind::Type => {
                if let Err(fault) = collect_markers(&params[p].attrs, p) {
                    proof {
                        lemma_first_true_is(faulty, p as int);
                    }
                    return Err(fault);
                }
            },
            _ => {},
        }
        p += 1;
    }
    proof {
        lemma_first_true_none(faulty);
    }
    let marked = marked_flags_of(params);
    proof {
        lemma_first_true_from_start(marked@);
    }
    let first = match first_set(&marked, 0) {
        None => {
            return Err(DesignationError::NoParameter);
        },
        Some(first) => first,
    };
    assert(marked@[first as int] && !faulty[first as int]) by {
        lemma_first_true_sound(marked@);
    }
    match first_set(&marked, first + 1) {
        Some(second) => Err(DesignationError::MoreThanOneParameter { param: second }),
        None => match collect_markers(&params[first].attrs, first) {
            Ok(Some(marker)) => Ok((first, marker)),
            _ => Err(DesignationError::NoParameter),
        },
    }
}

/// For each argument, whether it is the type written as the identifier
/// `ident`.
pub open spec fn naming_flags(args: Seq<GenericArgument>, ident: Seq<char>) -> Seq<bool> {
    Seq::new(
        args.len(),
        |i: int|
            match args[i] {
                GenericArgument::Ident(name) => name@ == ident,
                GenericArgument::Other => false,
            },
    )
}

/// The one argument that names the designated parameter.
pub open spec fn naming_argument(args: Seq<GenericArgument>, ident: Seq<char>) -> Result<
    usize,
    DesignationError,
> {
    match first_true(naming_flags(args, ident)) {
        None => Err(DesignationError::NoArgument),
        Some(first) => match first_true_from(naming_flags(args, ident), first + 1) {
            None => Ok(first as usize),
            Some(second) => Err(DesignationError::MoreThanOneArgument { arg: second as usize }),
        },
    }
}

/// Finds the argument that names the designated parameter: the one type
/// argument written as the identifier `designated_param_ident`.
pub fn find_designated_arg(args: &Vec<GenericArgument>, designated_param_ident: &String) -> (found:
    Result<usize, DesignationError>)
    ensures
        found == naming_argument(args@, designated_param_ident@),
{
    let mut flags: Vec<bool> = Vec::new();
    let mut i: usize = 0;
    while i < args.len()
        invariant
            i <= args.len(),
            flags@.len() == i,
            forall|k: int|
                0 <= k < i ==> flags@[k] == naming_flags(args@, designated_param_ident@)[k],
        decreases args.len() - i,
    {
        let names = match &args[i] {
            GenericArgument::Ident(name) => *name == *designated_param_ident,
            GenericArgument::Other => false,
        };
        flags.push(names);
        i += 1;
    }
    assert(flags@ =~= naming_flags(args@, designated_param_ident@));
    proof {
        lemma_first_true_from_start(flags@);
    }
    match first_set(&flags, 0) {
        None => Err(DesignationError::NoArgument),
        Some(first) => match first_set(&flags, first + 1) {
            None => Ok(first),
            Some(second) => Err(DesignationError::MoreThanOneArgument { arg: second }),
        },
    }
}

/// On the attributes of one parameter the two readings succeed together,
/// and with the same marker.
pub proof fn lemma_markers_agree(attrs: Seq<Attribute>, param: usize)
    ensures
        scanned_marker(attrs, param) is Ok <==> collected_marker(attrs, param) is Ok,
        scanned_marker(attrs, param) is Ok ==> scanned_marker(attrs, param) == collected_marker(
            attrs,
            param,
        ),
{
    let markers = marker_flags(attrs);
    let broken = broken_flags(attrs);
    lemma_first_true_sound(markers);
    lemma_first_true_sound(broken);
    match first_true(markers) {
        None => {
            assert forall|k: int| 0 <= k < broken.len() implies !broken[k] by {
                assert(!markers[k]);
            }
            lemma_first_true_none(broken);
        },
        Some(first) => {
            let later = crate::names::flags_from(markers, first + 1);
            lemma_first_true_sound(later);
            if scanned_marker(attrs, param) is Ok {
                assert forall|k: int| 0 <= k < broken.len() implies !broken[k] by {
                    if broken[k] {
                        assert(markers[k]);
                        if k > first {
                            assert(later[k]);
                        }
                    }
                }
                lemma_first_true_none(broken);
            }
            if collected_marker(attrs, param) is Ok {
                assert(!broken[first]);
            }
        },
    }
}

/// The two ways of finding the designated parameter succeed on the same
/// parameter lists and then give the same answer. They differ only in
/// which fault they report where a list has several.
pub proof fn lemma_locators_agree(params: Seq<GenericParam>)
    ensures
        scanned_indices(params) is Ok <==> collected_indices(params) is Ok,
        scanned_indices(params) is Ok ==> scanned_indices(params) == collected_indices(params),
{
    let marked = marked_flags(params);
    let faulty = faulty_flags(params);
    lemma_first_true_sound(marked);
    lemma_first_true_sound(faulty);
    assert forall|p: int| 0 <= p < params.len() implies (scanned_param(params, p) is Ok
        <==> collected_param(params, p) is Ok) && (scanned_param(params, p) is Ok
        ==> scanned_param(params, p) == collected_param(params, p)) by {
        lemma_markers_agree(params[p].attrs@, p as usize);
    }
    assert forall|p: int| 0 <= p < params.len() && !marked[p] implies !faulty[p] by {
        if params[p].kind == ParamKind::Type {
            lemma_markers_agree(params[p].attrs@, p as usize);
        }
    }
    match first_true(marked) {
        None => {
            lemma_first_true_none(faulty);
        },
        Some(first) => {
            let later = crate::names::flags_from(marked, first + 1);
            lemma_first_true_sound(later);
            if scanned_indices(params) is Ok {
                assert forall|p: int| 0 <= p < faulty.len() implies !faulty[p] by {
                    if marked[p] && p > first {
                        assert(later[p]);
                    }
                }
                lemma_first_true_none(faulty);
            }
            if collected_indices(params) is Ok {
                assert(!faulty[first]);
            }
        },
    }
}

/// A designated parameter is one of the parameters, and its marker one of
/// its attributes.
pub proof fn lemma_designated_in_range(params: Seq<GenericParam>)
    requires
        params.len() <= usize::MAX,
    ensures
        scanned_indices(params) matches Ok(found) ==> found.0 < params.len() && found.1
            < params[found.0 as int].attrs@.len(),
{
    lemma_first_true_sound(marked_flags(params));
    if let Some(first) = first_true(marked_flags(params)) {
        let attrs = params[first].attrs;
        assert(attrs@.len() == attrs.len());
        lemma_first_true_sound(marker_flags(attrs@));
    }
}

} // verus!
