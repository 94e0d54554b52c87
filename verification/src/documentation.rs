//! Documentation toggles and the description that lists the states of a
//! structure or the rules of an operation.

use crate::names::spelled;
use crate::stateset::Stateset;
use crate::syntax::{Meta, MetaForm, Nested};
use itertools::Itertools;
use vstd::prelude::*;

verus! {

/// Handles documentation generation.
#[derive(Debug, Clone, Copy, PartialEq, Eq, Structural)]
pub struct Documentation {
    /// Whether a description is added to the documentation.
    pub description: bool,
    /// Whether the rewritten blocks are documented as they are, without a
    /// tidied copy.
    pub ugly: bool,
}

/// What is wrong with one `docs` option.
#[derive(Debug, Clone, Copy, PartialEq, Eq, Structural)]
pub enum DocsFault {
    /// No list follows `docs`.
    ExpectedList,
    /// `description` stands at this position although it was given before.
    RedundantDescription { entry: usize },
    /// `ugly` stands at this position although it was given before.
    RedundantUgly { entry: usize },
    /// The entry at this position is neither `description` nor `ugly`.
    InvalidAttribute { entry: usize },
    /// The list cannot be read as identifiers from this position on.
    MalformedEntry { entry: usize },
}

/// What is wrong with the `docs` option at position `meta` of a list of
/// options.
#[derive(Debug, Clone, Copy, PartialEq, Eq, Structural)]
pub struct DocsError {
    pub meta: usize,
    pub fault: DocsFault,
}

impl DocsFault {
    /// The diagnostic of this fault.
    pub open spec fn spec_message(self) -> Seq<char> {
        match self {
            DocsFault::ExpectedList => "expected attribute arguments in parentheses"@,
            DocsFault::RedundantDescription { .. } => "redundant `description` attribute"@,
            DocsFault::RedundantUgly { .. } => "redundant `ugly` attribute"@,
            DocsFault::InvalidAttribute { .. } => "invalid attribute"@,
            DocsFault::MalformedEntry { .. } => "expected `,`"@,
        }
    }

    /// The diagnostic of this fault.
    pub fn message(self) -> (text: &'static str)
        ensures
            text@ == self.spec_message(),
    {
        match self {
            DocsFault::ExpectedList => "expected attribute arguments in parentheses",
            DocsFault::RedundantDescription { .. } => "redundant `description` attribute",
            DocsFault::RedundantUgly { .. } => "redundant `ugly` attribute",
            DocsFault::InvalidAttribute { .. } => "invalid attribute",
            DocsFault::MalformedEntry { .. } => "expected `,`",
        }
    }
}

/// What one entry of a `docs` list does to the toggles.
pub open spec fn toggled(docs: Documentation, entry: Nested, at: usize) -> Result<
    Documentation,
    DocsFault,
> {
    match entry {
        Nested::Malformed => Err(DocsFault::MalformedEntry { entry: at }),
        Nested::Path(path) => if path.spec_ident() == Some("description"@) {
            if docs.description {
                Err(DocsFault::RedundantDescription { entry: at })
            } else {
                Ok(Documentation { description: true, ugly: docs.ugly })
            }
        } else if path.spec_ident() == Some("ugly"@) {
            if docs.ugly {
                Err(DocsFault::RedundantUgly { entry: at })
            } else {
                Ok(Documentation { description: docs.description, ugly: true })
            }
        } else {
            Err(DocsFault::InvalidAttribute { entry: at })
        },
    }
}

/// What the entries from position `from` on do to the toggles, one after
/// the other, up to the first fault.
pub open spec fn toggled_all(docs: Documentation, entries: Seq<Nested>, from: int) -> (
    Documentation,
    Option<DocsFault>,
)
    decreases entries.len() - from,
{
    if from < 0 || from >= entries.len() {
        (docs, None)
    } else {
        match toggled(docs, entries[from], from as usize) {
            Err(fault) => (docs, Some(fault)),
            Ok(next) => toggled_all(next, entries, from + 1),
        }
    }
}

/// What one option does to the toggles. Only `docs` is read.
pub open spec fn configured(docs: Documentation, meta: Meta) -> (Documentation, Option<DocsFault>) {
    if meta.path.spec_ident() != Some("docs"@) {
        (docs, None)
    } else if meta.form != MetaForm::List {
        (docs, Some(DocsFault::ExpectedList))
    } else {
        toggled_all(docs, meta.nested@, 0)
    }
}

/// What the options from position `from` on do to the toggles, up to the
/// first fault.
pub open spec fn configured_all(docs: Documentation, metas: Seq<Meta>, from: int) -> (
    Documentation,
    Result<(), DocsError>,
)
    decreases metas.len() - from,
{
    if from < 0 || from >= metas.len() {
        (docs, Ok(()))
    } else {
        match configured(docs, metas[from]).1 {
            Some(fault) => (
                configured(docs, metas[from]).0,
                Err(DocsError { meta: from as usize, fault }),
            ),
            None => configured_all(configured(docs, metas[from]).0, metas, from + 1),
        }
    }
}

impl Default for Documentation {
    /// Both toggles off.
    fn default() -> (docs: Documentation)
        ensures
            docs == (Documentation { description: false, ugly: false }),
    {
        Documentation { description: false, ugly: false }
    }
}

impl Documentation {
    /// Reads one `docs` option.
    fn configure_with_meta(&mut self, meta: &Meta) -> (fault: Option<DocsFault>)
        ensures
            *final(self) == configured(*old(self), *meta).0,
            fault == configured(*old(self), *meta).1,
    {
        if !meta.path.is_ident("docs") {
            return None;
        }
        match meta.form {
            MetaForm::List => {},
            _ => {
                return Some(DocsFault::ExpectedList);
            },
        }
        let mut i: usize = 0;
        while i < meta.nested.len()
            invariant
                i <= meta.nested.len(),
                meta.path.spec_ident() == Some("docs"@),
                meta.form == MetaForm::List,
                toggled_all(*old(self), meta.nested@, 0) == toggled_all(
                    *self,
                    meta.nested@,
                    i as int,
                ),
            decreases meta.nested.len() - i,
        {
            match &meta.nested[i] {
                Nested::Malformed => {
                    return Some(DocsFault::MalformedEntry { entry: i });
                },
                Nested::Path(path) => {
                    if path.is_ident("description") {
                        if self.description {
                            return Some(DocsFault::RedundantDescription { entry: i });
                        }
                        self.description = true;
                    } else if path.is_ident("ugly") {
                        if self.ugly {
                            return Some(DocsFault::RedundantUgly { entry: i });
                        }
                        self.ugly = true;
                    } else {
                        return Some(DocsFault::InvalidAttribute { entry: i });
                    }
                },
            }
            i += 1;
        }
        None
    }

    /// Configures the documentation with the given metas. Skips metas
    /// without the `docs` attribute.
    ///
    /// A toggle that was switched on before the first fault stays on.
    pub fn configure_with_metas(&mut self, metas: &Vec<Meta>) -> (outcome: Result<(), DocsError>)
        ensures
            *final(self) == configured_all(*old(self), metas@, 0).0,
            outcome == configured_all(*old(self), metas@, 0).1,
    {
        let mut i: usize = 0;
        while i < metas.len()
            invariant
                i <= metas.len(),
                configured_all(*old(self), metas@, 0) == configured_all(*self, metas@, i as int),
            decreases metas.len() - i,
        {
            if let Some(fault) = self.configure_with_meta(&metas[i]) {
                return Err(DocsError { meta: i, fault });
            }
            i += 1;
        }
        Ok(())
    }
}

/// The names from position `from` on, each with `sep` before it.
pub open spec fn separated(names: Seq<Seq<char>>, sep: Seq<char>, from: int) -> Seq<char>
    decreases names.len() - from,
{
    if from < 0 || from >= names.len() {
        Seq::empty()
    } else {
        sep + names[from] + separated(names, sep, from + 1)
    }
}

/// The names in one text, with `sep` between each two.
pub open spec fn joined(names: Seq<Seq<char>>, sep: Seq<char>) -> Seq<char> {
    if names.len() == 0 {
        Seq::empty()
    } else {
        names[0] + separated(names, sep, 1)
    }
}

/// Writes the names into one text, with `sep` between each two.
///
/// Calls `Itertools::join` on the names in order. It writes the first
/// name, then for every further name the separator and the name; of no
/// names it makes the empty text. The contract says so after the source
/// of that crate: it is trusted, not proved.
#[verifier::external_body]
fn join(names: &Vec<String>, sep: &str) -> (text: String)
    ensures
        text@ == joined(spelled(names@), sep@),
{
    names.iter().join(sep)
}

/// What a description line holds.
pub struct LineView {
    /// The kind of option whose states the line lists.
    pub attribute: Seq<char>,
    /// What the line calls them, where that is not the kind itself.
    pub label: Option<Seq<char>>,
}

impl LineView {
    /// What the line calls its states: its label, or else its attribute.
    pub open spec fn heading(self) -> Seq<char> {
        match self.label {
            Some(label) => label,
            None => self.attribute,
        }
    }
}

/// A description line.
pub struct DescriptionLine {
    attribute: String,
    label: Option<String>,
}

impl View for DescriptionLine {
    type V = LineView;

    closed spec fn view(&self) -> LineView {
        LineView {
            attribute: self.attribute@,
            label: match self.label {
                Some(label) => Some(label@),
                None => None,
            },
        }
    }
}

impl DescriptionLine {
    /// Create a new line.
    pub fn new(attribute: &str) -> (line: DescriptionLine)
        ensures
            line@ == (LineView { attribute: attribute@, label: None }),
    {
        DescriptionLine { attribute: String::from_str(attribute), label: None }
    }

    /// Set the label of the line.
    pub fn label(self, label: &str) -> (line: DescriptionLine)
        ensures
            line@ == (LineView { attribute: self@.attribute, label: Some(label@) }),
    {
        DescriptionLine { attribute: self.attribute, label: Some(String::from_str(label)) }
    }
}

/// The text of one line: a soft line break, the heading in bold, and the
/// states.
pub open spec fn line_text(heading: Seq<char>, states: Seq<char>) -> Seq<char> {
    "  \n**"@ + heading + "**: "@ + states
}

/// The description after the first `upto` lines. It opens with an empty
/// comment, which keeps it out of summaries; a line without states is left
/// out.
pub open spec fn described(
    map: Map<Seq<char>, Seq<Seq<char>>>,
    lines: Seq<LineView>,
    upto: int,
) -> Seq<char>
    decreases upto,
{
    if upto <= 0 {
        "<!-- -->"@
    } else {
        let line = lines[upto - 1];
        let states = joined(map[line.attribute], ", "@);
        if states.len() == 0 {
            described(map, lines, upto - 1)
        } else {
            described(map, lines, upto - 1) + line_text(line.heading(), states)
        }
    }
}

/// What each of the lines holds.
pub open spec fn line_views(lines: Seq<DescriptionLine>) -> Seq<LineView> {
    Seq::new(lines.len(), |i: int| lines[i]@)
}

/// Handles generating a description.
pub struct Description<'a> {
    stateset: &'a Stateset,
    lines: Vec<DescriptionLine>,
}

impl<'a> Description<'a> {
    /// The states that the description draws on.
    pub closed spec fn states(&self) -> Map<Seq<char>, Seq<Seq<char>>> {
        self.stateset@
    }

    /// The lines of the description, in order.
    pub closed spec fn lines(&self) -> Seq<LineView> {
        line_views(self.lines@)
    }

    /// Create a new description
    pub fn new(stateset: &'a Stateset) -> (description: Description<'a>)
        ensures
            description.states() == stateset@,
            description.lines() == Seq::<LineView>::empty(),
    {
        let description = Description { stateset, lines: Vec::new() };
        assert(description.lines() =~= Seq::<LineView>::empty());
        description
    }

    /// Add a line to the description builder.
    pub fn line(self, line: DescriptionLine) -> (description: Description<'a>)
        ensures
            description.states() == self.states(),
            description.lines() == self.lines().push(line@),
    {
        let mut description = self;
        description.lines.push(line);
        assert(description.lines() =~= self.lines().push(line@));
        description
    }

    /// Generates the description.
    ///
    /// Every line must list a kind that the stateset supports.
    pub fn generate(self) -> (text: String)
        requires
            forall|i: int|
                0 <= i < self.lines().len() ==> self.states().contains_key(
                    #[trigger] self.lines()[i].attribute,
                ),
        ensures
            text@ == described(self.states(), self.lines(), self.lines().len() as int),
    {
        let mut text = String::from_str("<!-- -->");
        let mut i: usize = 0;
        while i < self.lines.len()
            invariant
                i <= self.lines.len(),
                forall|k: int|
                    0 <= k < self.lines().len() ==> self.states().contains_key(
                        #[trigger] self.lines()[k].attribute,
                    ),
                text@ == described(self.states(), self.lines(), i as int),
            decreases self.lines.len() - i,
        {
            let line = &self.lines[i];
            assert(self.lines()[i as int] == line@);
            let states = match self.stateset.get(line.attribute.as_str()) {
                Some(states) => join(states, ", "),
                None => String::from_str(""),
            };
            if !states.as_str().is_empty() {
                text.append("  \n**");
                match &line.label {
                    Some(label) => text.append(label.as_str()),
                    None => text.append(line.attribute.as_str()),
                }
                text.append("**: ");
                text.append(states.as_str());
            }
            i += 1;
        }
        text
    }
}

} // verus!
