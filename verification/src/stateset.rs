//! The lists of states that a set of options gives, one list for each kind
//! of option.

use crate::names::{
    first_true, lemma_first_true_is, lemma_first_true_none, lemma_first_true_sound, position,
    spelled,
};
use crate::syntax::{Meta, MetaForm, Nested};
use vstd::prelude::*;

verus! {

/// What is wrong with one option.
#[derive(Debug, Clone, Copy, PartialEq, Eq, Structural)]
pub enum EntryError {
    /// The key of the option is no single identifier.
    KeyNotIdent,
    /// The key is supported, but no list follows it.
    ExpectedList,
    /// The entry at this position of the list is a path, but no single
    /// identifier.
    EntryNotIdent { entry: usize },
    /// The list cannot be read as identifiers from this position on.
    MalformedEntry { entry: usize },
}

impl EntryError {
    /// The diagnostic of this error.
    pub open spec fn spec_message(self) -> Seq<char> {
        match self {
            EntryError::KeyNotIdent => "expected this path to be an identifier"@,
            EntryError::ExpectedList => "expected attribute arguments in parentheses"@,
            EntryError::EntryNotIdent { .. } => "expected this path to be an identifier"@,
            EntryError::MalformedEntry { .. } => "expected `,`"@,
        }
    }

    /// The diagnostic of this error.
    pub fn message(self) -> (text: &'static str)
        ensures
            text@ == self.spec_message(),
    {
        match self {
            EntryError::KeyNotIdent => "expected this path to be an identifier",
            EntryError::ExpectedList => "expected attribute arguments in parentheses",
            EntryError::EntryNotIdent { .. } => "expected this path to be an identifier",
            EntryError::MalformedEntry { .. } => "expected `,`",
        }
    }
}

/// What is wrong with the option at position `meta` of a list of options.
#[derive(Debug, Clone, Copy, PartialEq, Eq, Structural)]
pub struct OptionError {
    pub meta: usize,
    pub error: EntryError,
}

/// One kind of option and the states listed under it.
struct Entry {
    kind: String,
    states: Vec<String>,
}

/// A map of state kinds to state identifiers.
///
/// A kind has a list only after `support` was called for it. An option of
/// another kind is skipped when the map is extended, so that one list of
/// options can fill several readers. Skipping hides misspelled keys: who
/// fills a stateset refuses the keys that no reader knows before, as both
/// expansions do.
pub struct Stateset {
    entries: Vec<Entry>,
}

/// For each entry, whether it belongs to `kind`.
spec fn kind_flags(entries: Seq<Entry>, kind: Seq<char>) -> Seq<bool> {
    Seq::new(entries.len(), |i: int| entries[i].kind@ == kind)
}

/// For each entry of a list, whether it is anything but a single
/// identifier.
pub open spec fn fault_flags(nested: Seq<Nested>) -> Seq<bool> {
    Seq::new(nested.len(), |i: int| entry_name(nested[i]) is None)
}

/// The identifier that an entry of a list consists of.
pub open spec fn entry_name(entry: Nested) -> Option<Seq<char>> {
    match entry {
        Nested::Path(path) => path.spec_ident(),
        Nested::Malformed => None,
    }
}

/// The fault of an entry that is no single identifier.
pub open spec fn entry_fault(entry: Nested, at: usize) -> EntryError {
    match entry {
        Nested::Path(_) => EntryError::EntryNotIdent { entry: at },
        Nested::Malformed => EntryError::MalformedEntry { entry: at },
    }
}

/// The identifiers of the first `upto` entries of a list.
pub open spec fn listed(nested: Seq<Nested>, upto: int) -> Seq<Seq<char>> {
    Seq::new(upto as nat, |i: int| entry_name(nested[i])->0)
}

/// What one option does to a map, and whether it is in order. The
/// identifiers before the first faulty entry are added even where the
/// option is refused.
pub open spec fn extended(map: Map<Seq<char>, Seq<Seq<char>>>, meta: Meta) -> (
    Map<Seq<char>, Seq<Seq<char>>>,
    Result<(), EntryError>,
) {
    match meta.path.spec_ident() {
        None => (map, Err(EntryError::KeyNotIdent)),
        Some(kind) => if !map.contains_key(kind) {
            (map, Ok(()))
        } else if meta.form != MetaForm::List {
            (map, Err(EntryError::ExpectedList))
        } else {
            match first_true(fault_flags(meta.nested@)) {
                None => (
                    map.insert(kind, map[kind] + listed(meta.nested@, meta.nested@.len() as int)),
                    Ok(()),
                ),
                Some(at) => (
                    map.insert(kind, map[kind] + listed(meta.nested@, at)),
                    Err(entry_fault(meta.nested@[at], at as usize)),
                ),
            }
        },
    }
}

/// What the options from position `from` on do to a map, one after the
/// other, up to the first that is refused.
pub open spec fn extended_all(map: Map<Seq<char>, Seq<Seq<char>>>, metas: Seq<Meta>, from: int) -> (
    Map<Seq<char>, Seq<Seq<char>>>,
    Result<(), OptionError>,
)
    decreases metas.len() - from,
{
    if from < 0 || from >= metas.len() {
        (map, Ok(()))
    } else {
        match extended(map, metas[from]).1 {
            Err(error) => (
                extended(map, metas[from]).0,
                Err(OptionError { meta: from as usize, error }),
            ),
            Ok(_) => extended_all(extended(map, metas[from]).0, metas, from + 1),
        }
    }
}

/// The map that a list of entries stands for: each kind with the states of
/// the first entry that belongs to it.
spec fn map_of(entries: Seq<Entry>) -> Map<Seq<char>, Seq<Seq<char>>> {
    Map::new(
        |kind: Seq<char>| first_true(kind_flags(entries, kind)) is Some,
        |kind: Seq<char>| spelled(entries[first_true(kind_flags(entries, kind))->0].states@),
    )
}

impl View for Stateset {
    type V = Map<Seq<char>, Seq<Seq<char>>>;

    closed spec fn view(&self) -> Map<Seq<char>, Seq<Seq<char>>> {
        map_of(self.entries@)
    }
}

impl Default for Stateset {
    /// A map that supports no kind.
    fn default() -> (stateset: Stateset)
        ensures
            stateset@ == Map::<Seq<char>, Seq<Seq<char>>>::empty(),
    {
        let stateset = Stateset { entries: Vec::new() };
        proof {
            assert forall|kind: Seq<char>| !stateset@.contains_key(kind) by {
                lemma_first_true_sound(kind_flags(stateset.entries@, kind));
            }
            assert(stateset@ =~= Map::<Seq<char>, Seq<Seq<char>>>::empty());
        }
        stateset
    }
}

impl Stateset {
    /// The position of the entry of `kind`.
    fn find(&self, kind: &String) -> (at: Option<usize>)
        ensures
            position(at) == first_true(kind_flags(self.entries@, kind@)),
            at matches Some(i) ==> i < self.entries.len() && self.entries@[i as int].kind@
                == kind@,
    {
        let ghost flags = kind_flags(self.entries@, kind@);
        let mut i: usize = 0;
        while i < self.entries.len()
            invariant
                i <= self.entries.len(),
                flags == kind_flags(self.entries@, kind@),
                forall|k: int| 0 <= k < i ==> !flags[k],
            decreases self.entries.len() - i,
        {
            if self.entries[i].kind == *kind {
                proof {
                    lemma_first_true_is(flags, i as int);
                }
                return Some(i);
            }
            i += 1;
        }
        proof {
            lemma_first_true_none(flags);
        }
        None
    }

    /// Add support for a state kind. Its list is empty afterwards, also
    /// where the kind was supported before.
    pub fn support(self, kind: &str) -> (stateset: Stateset)
        ensures
            stateset@ == self@.insert(kind@, Seq::empty()),
    {
        let mut stateset = self;
        let ghost before = stateset;
        let kind = String::from_str(kind);
        match stateset.find(&kind) {
            Some(at) => {
                stateset.entries.set(at, Entry { kind, states: Vec::new() });
                proof {
                    assert forall|other: Seq<char>|
                        kind_flags(stateset.entries@, other) == kind_flags(
                            before.entries@,
                            other,
                        ) by {
                        assert(kind_flags(stateset.entries@, other) =~= kind_flags(
                            before.entries@,
                            other,
                        ));
                    }
                    assert forall|other: Seq<char>| #[trigger]
                        stateset@.contains_key(other) implies stateset@[other]
                        == before@.insert(kind@, Seq::empty())[other] by {
                        lemma_first_true_sound(kind_flags(before.entries@, other));
                        assert(spelled(Seq::<String>::empty()) =~= Seq::<Seq<char>>::empty());
                    }
                    assert(stateset@ =~= before@.insert(kind@, Seq::empty()));
                }
            },
            None => {
                stateset.entries.push(Entry { kind, states: Vec::new() });
                proof {
                    let last = before.entries@.len() as int;
                    assert forall|other: Seq<char>|
                        first_true(kind_flags(stateset.entries@, other)) == (if other
                            == kind@ {
                            Some(last)
                        } else {
                            first_true(kind_flags(before.entries@, other))
                        }) by {
                        let old_flags = kind_flags(before.entries@, other);
                        let new_flags = kind_flags(stateset.entries@, other);
                        lemma_first_true_sound(old_flags);
                        lemma_first_true_sound(new_flags);
                        assert forall|k: int| 0 <= k < last implies new_flags[k]
                            == old_flags[k] by {}
                        if other == kind@ {
                            lemma_first_true_is(new_flags, last);
                        } else {
                            match first_true(old_flags) {
                                Some(at) => {
                                    lemma_first_true_is(new_flags, at);
                                },
                                None => {
                                    lemma_first_true_none(new_flags);
                                },
                            }
                        }
                    }
                    assert forall|other: Seq<char>| #[trigger]
                        stateset@.contains_key(other) implies stateset@[other]
                        == before@.insert(kind@, Seq::empty())[other] by {
                        lemma_first_true_sound(kind_flags(before.entries@, other));
                        assert(spelled(Seq::<String>::empty()) =~= Seq::<Seq<char>>::empty());
                    }
                    assert(stateset@ =~= before@.insert(kind@, Seq::empty()));
                }
            },
        }
        stateset
    }

    /// The states listed under `kind`, if the kind is supported.
    pub fn get(&self, kind: &str) -> (states: Option<&Vec<String>>)
        ensures
            match states {
                Some(list) => self@.contains_key(kind@) && spelled(list@) == self@[kind@],
                None => !self@.contains_key(kind@),
            },
    {
        let kind = String::from_str(kind);
        match self.find(&kind) {
            Some(at) => Some(&self.entries[at].states),
            None => None,
        }
    }

    /// Extend the map with the given meta. Skips the meta if it has a state
    /// kind that isn't supported.
    ///
    /// The entries of the list are read in order. Each identifier is added
    /// to the list of the meta's kind; the first entry that is no single
    /// identifier ends the reading with an error, and what was added before
    /// it stays.
    pub fn extend_with_meta(&mut self, meta: &Meta) -> (outcome: Result<(), EntryError>)
        ensures
            final(self)@ == extended(old(self)@, *meta).0,
            outcome == extended(old(self)@, *meta).1,
    {
        let kind = match meta.path.get_ident() {
            None => {
                return Err(EntryError::KeyNotIdent);
            },
            Some(kind) => kind,
        };
        let at = match self.find(kind) {
            None => {
                return Ok(());
            },
            Some(at) => at,
        };
        match meta.form {
            MetaForm::List => {},
            _ => {
                return Err(EntryError::ExpectedList);
            },
        }
        let ghost before = self.entries@;
        let ghost faults = fault_flags(meta.nested@);
        let mut entry = self.entries.remove(at);
        let mut fault: Option<EntryError> = None;
        let mut i: usize = 0;
        while i < meta.nested.len() && fault.is_none()
            invariant
                i <= meta.nested.len(),
                faults == fault_flags(meta.nested@),
                entry.kind@ == kind@,
                at < before.len(),
                fault is None ==> forall|k: int| 0 <= k < i ==> !faults[k],
                fault is None ==> spelled(entry.states@) == spelled(before[at as int].states@)
                    + listed(meta.nested@, i as int),
                fault is Some ==> {
                    &&& first_true(faults) matches Some(bad)
                    &&& fault == Some(entry_fault(meta.nested@[bad], bad as usize))
                    &&& spelled(entry.states@) == spelled(before[at as int].states@) + listed(
                        meta.nested@,
                        bad,
                    )
                },
            decreases meta.nested.len() - i + (if fault is None { 1int } else { 0int }),
        {
            let ghost so_far = spelled(entry.states@);
            match &meta.nested[i] {
                Nested::Path(path) => match path.get_ident() {
                    Some(name) => {
                        entry.states.push(name.clone());
                        assert(spelled(entry.states@) =~= so_far.push(name@));
                        assert(listed(meta.nested@, i + 1) =~= listed(meta.nested@, i as int).push(
                            name@,
                        ));
                        i += 1;
                    },
                    None => {
                        proof {
                            lemma_first_true_is(faults, i as int);
                        }
                        fault = Some(EntryError::EntryNotIdent { entry: i });
                    },
                },
                Nested::Malformed => {
                    proof {
                        lemma_first_true_is(faults, i as int);
                    }
                    fault = Some(EntryError::MalformedEntry { entry: i });
                },
            }
        }
        self.entries.insert(at, entry);
        proof {
            if fault is None {
                lemma_first_true_none(faults);
            }
            lemma_update(before, self.entries@, at as int, kind@);
        }
        match fault {
            Some(error) => Err(error),
            None => Ok(()),
        }
    }

    /// Extend the map with the given metas, in order, up to the first that
    /// is refused. Skips metas that have a state kind that isn't supported.
    pub fn extend_with_metas(&mut self, metas: &Vec<Meta>) -> (outcome: Result<(), OptionError>)
        ensures
            final(self)@ == extended_all(old(self)@, metas@, 0).0,
            outcome == extended_all(old(self)@, metas@, 0).1,
    {
        let mut i: usize = 0;
        while i < metas.len()
            invariant
                i <= metas.len(),
                extended_all(old(self)@, metas@, 0) == extended_all(self@, metas@, i as int),
            decreases metas.len() - i,
        {
            if let Err(error) = self.extend_with_meta(&metas[i]) {
                return Err(OptionError { meta: i, error });
            }
            i += 1;
        }
        Ok(())
    }
}

/// Replacing the list of the entry that answers for `kind` puts that list
/// into the map under `kind` and changes nothing else.
proof fn lemma_update(before: Seq<Entry>, after: Seq<Entry>, at: int, kind: Seq<char>)
    requires
        first_true(kind_flags(before, kind)) == Some(at),
        0 <= at < before.len(),
        after =~= before.remove(at).insert(at, after[at]),
        after[at].kind@ == kind,
    ensures
        map_of(after) == map_of(before).insert(kind, spelled(after[at].states@)),
{
    assert forall|other: Seq<char>| kind_flags(after, other) == kind_flags(before, other) by {
        lemma_first_true_sound(kind_flags(before, kind));
        assert(kind_flags(after, other) =~= kind_flags(before, other));
    }
    assert forall|other: Seq<char>| #[trigger]
        map_of(after).contains_key(other) implies map_of(after)[other] == map_of(before).insert(
        kind,
        spelled(after[at].states@),
    )[other] by {
        lemma_first_true_sound(kind_flags(before, other));
    }
    assert(map_of(after) =~= map_of(before).insert(kind, spelled(after[at].states@)));
}

/// Options add states to kinds; they neither add nor remove a kind.
pub proof fn lemma_extended_keeps_kinds(map: Map<Seq<char>, Seq<Seq<char>>>, meta: Meta)
    ensures
        extended(map, meta).0.dom() == map.dom(),
{
    assert(extended(map, meta).0.dom() =~= map.dom());
}

/// Options add states to kinds; they neither add nor remove a kind.
pub proof fn lemma_extended_all_keeps_kinds(
    map: Map<Seq<char>, Seq<Seq<char>>>,
    metas: Seq<Meta>,
    from: int,
)
    ensures
        extended_all(map, metas, from).0.dom() == map.dom(),
    decreases metas.len() - from,
{
    if 0 <= from < metas.len() {
        lemma_extended_keeps_kinds(map, metas[from]);
        if extended(map, metas[from]).1 is Ok {
            lemma_extended_all_keeps_kinds(extended(map, metas[from]).0, metas, from + 1);
        }
    }
}

} // verus!
