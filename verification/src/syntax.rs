//! A model of the syntax that the engine reads: paths, options, attributes,
//! generic parameters and the blocks that carry them.

use vstd::prelude::*;

verus! {

/// What follows the identifier of a path segment.
pub enum PathArguments {
    /// Nothing: `Name`.
    Absent,
    /// A list in angle brackets: `Name<A, B>`.
    AngleBracketed(Vec<GenericArgument>),
    /// A list in round brackets: `Name(A) -> B`.
    Parenthesized,
}

/// One argument of a list in angle brackets.
pub enum GenericArgument {
    /// A type written as a single identifier, such as `S`.
    Ident(String),
    /// Any other argument.
    Other,
}

/// One segment of a path.
pub struct PathSegment {
    pub ident: String,
    pub arguments: PathArguments,
}

/// A path such as `a::b::Name<S>`.
pub struct Path {
    /// Whether the path begins with `::`.
    pub leading_colon: bool,
    pub segments: Vec<PathSegment>,
}

impl Path {
    /// The identifiers of the segments, in order.
    pub open spec fn idents(&self) -> Seq<Seq<char>> {
        Seq::new(self.segments@.len(), |i: int| self.segments@[i].ident@)
    }

    /// The identifier that the path consists of, if it is a single segment
    /// without a leading `::` and without arguments.
    pub open spec fn spec_ident(&self) -> Option<Seq<char>> {
        if !self.leading_colon && self.segments@.len() == 1
            && self.segments@[0].arguments is Absent {
            Some(self.segments@[0].ident@)
        } else {
            None
        }
    }

    /// The identifier that the path consists of, if it is one.
    pub fn get_ident(&self) -> (ident: Option<&String>)
        ensures
            match ident {
                Some(name) => self.spec_ident() == Some(name@),
                None => self.spec_ident() is None,
            },
    {
        if self.leading_colon || self.segments.len() != 1 {
            return None;
        }
        match &self.segments[0].arguments {
            PathArguments::Absent => Some(&self.segments[0].ident),
            _ => None,
        }
    }

    /// Whether the path is the single identifier `name`.
    pub fn is_ident(&self, name: &str) -> (same: bool)
        ensures
            same == (self.spec_ident() == Some(name@)),
    {
        match self.get_ident() {
            Some(ident) => {
                let wanted = String::from_str(name);
                *ident == wanted
            },
            None => false,
        }
    }
}

/// The shape of an option or attribute after its path.
#[derive(Debug, Clone, Copy, PartialEq, Eq, Structural)]
pub enum MetaForm {
    /// The path alone: `name`.
    Path,
    /// A list in round brackets: `name(..)`.
    List,
    /// A value after `=`: `name = ..`.
    NameValue,
}

/// One entry of the list of an option.
pub enum Nested {
    /// A path standing alone between two commas.
    Path(Path),
    /// Anything that a comma-separated list of paths cannot hold at this
    /// place: a token that starts no path, or what follows a path before the
    /// next comma.
    Malformed,
}

/// An option: `key(identifier, identifier, ..)`.
pub struct Meta {
    pub path: Path,
    pub form: MetaForm,
    /// The entries of the list; empty unless `form` is `List`.
    pub nested: Vec<Nested>,
}

/// What an attribute carries after its path.
pub enum AttributeBody {
    /// Nothing: `#[name]`.
    Path,
    /// A value: `#[name = ..]`.
    NameValue,
    /// A list of options: `#[name(key(..), key(..))]`.
    Options(Vec<Meta>),
    /// A list that is no list of options.
    Malformed,
}

/// An attribute on a generic parameter or on an associated item.
pub struct Attribute {
    pub path: Path,
    pub body: AttributeBody,
}

/// The name of the attribute that designates a parameter and that carries
/// the rules of an operation.
pub open spec fn marker_name() -> Seq<char> {
    "stated"@
}

impl Attribute {
    /// Whether the attribute is written `stated`, whatever follows.
    pub open spec fn spec_is_marker(&self) -> bool {
        self.path.spec_ident() == Some(marker_name())
    }

    /// Whether the attribute is written `stated`, whatever follows.
    pub fn is_marker(&self) -> (yes: bool)
        ensures
            yes == self.spec_is_marker(),
    {
        self.path.is_ident("stated")
    }

    /// Whether nothing follows the path.
    pub open spec fn spec_is_path_only(&self) -> bool {
        self.body is Path
    }

    /// Whether nothing follows the path.
    pub fn is_path_only(&self) -> (yes: bool)
        ensures
            yes == self.spec_is_path_only(),
    {
        match &self.body {
            AttributeBody::Path => true,
            _ => false,
        }
    }
}

/// The kind of a generic parameter.
#[derive(Debug, Clone, Copy, PartialEq, Eq, Structural)]
pub enum ParamKind {
    Lifetime,
    Type,
    Const,
}

/// A generic parameter of a structure or of a block of operations.
pub struct GenericParam {
    pub kind: ParamKind,
    pub ident: String,
    pub attrs: Vec<Attribute>,
}

/// What an associated item of a block is.
#[derive(Debug, Clone, Copy, PartialEq, Eq, Structural)]
pub enum ImplItemKind {
    /// An associated function.
    Fn,
    /// A constant, a type, a macro call or anything else.
    Other,
}

/// An associated item of a block of operations.
pub struct ImplItem {
    pub kind: ImplItemKind,
    pub attrs: Vec<Attribute>,
    /// Whether the function takes `self` in some form.
    pub has_receiver: bool,
}

/// The type that a block of operations is written for.
pub enum SelfType {
    /// A type named by a path, such as `Name<S, T>`.
    Path(Path),
    /// A reference, a tuple, a slice or any other type.
    Other,
}

/// A block of operations: `impl<..> Name<..> { .. }`.
pub struct ItemImpl {
    /// Whether the block implements a trait.
    pub is_trait_impl: bool,
    pub params: Vec<GenericParam>,
    pub self_ty: SelfType,
    pub items: Vec<ImplItem>,
}

/// The members of a structure.
#[derive(Debug, PartialEq, Eq)]
pub enum Fields {
    /// Named members, in order: `{ a: A, b: B }`.
    Named(Vec<String>),
    /// This many unnamed members: `(A, B)`.
    Unnamed(usize),
    /// No members and no brackets.
    Unit,
}

/// A structure: `struct Name<..> { .. }`.
pub struct ItemStruct {
    pub params: Vec<GenericParam>,
    pub fields: Fields,
}

/// A member of a structure, as an expression names it.
#[derive(Debug, PartialEq, Eq)]
pub enum Member {
    Named(String),
    Unnamed(usize),
}

/// What a member spells: its name or its position.
pub enum MemberView {
    Named(Seq<char>),
    Unnamed(usize),
}

impl View for Member {
    type V = MemberView;

    open spec fn view(&self) -> MemberView {
        match self {
            Member::Named(name) => MemberView::Named(name@),
            Member::Unnamed(index) => MemberView::Unnamed(*index),
        }
    }
}

} // verus!
