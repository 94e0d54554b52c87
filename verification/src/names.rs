//! Lists of identifiers and positions in them.

use itertools::Itertools;
use vstd::prelude::*;

verus! {

/// `i` is the least index at which `flags` holds `true`.
pub open spec fn is_first_true(flags: Seq<bool>, i: int) -> bool {
    &&& 0 <= i < flags.len()
    &&& flags[i]
    &&& forall|k: int| 0 <= k < i ==> !flags[k]
}

/// The least index at which `flags` holds `true`, if there is one.
pub open spec fn first_true(flags: Seq<bool>) -> Option<int> {
    if exists|i: int| is_first_true(flags, i) {
        Some(choose|i: int| is_first_true(flags, i))
    } else {
        None
    }
}

/// A least index is the only one.
pub proof fn lemma_first_true_is(flags: Seq<bool>, i: int)
    requires
        is_first_true(flags, i),
    ensures
        first_true(flags) == Some(i),
{
    let j = choose|j: int| is_first_true(flags, j);
    assert(is_first_true(flags, j));
    if j < i {
        assert(!flags[j]);
    }
    if i < j {
        assert(!flags[i]);
    }
}

/// Without a `true` there is no least index.
pub proof fn lemma_first_true_none(flags: Seq<bool>)
    requires
        forall|k: int| 0 <= k < flags.len() ==> !flags[k],
    ensures
        first_true(flags) is None,
{
}

/// What `first_true` returns is a least index, and `None` means all `false`.
pub proof fn lemma_first_true_sound(flags: Seq<bool>)
    ensures
        match first_true(flags) {
            Some(i) => is_first_true(flags, i),
            None => forall|k: int| 0 <= k < flags.len() ==> !flags[k],
        },
{
    if first_true(flags) is None {
        assert forall|k: int| 0 <= k < flags.len() implies !flags[k] by {
            if flags[k] {
                lemma_least_exists(flags, k);
            }
        }
    }
}

/// Below any `true` there is a least one.
proof fn lemma_least_exists(flags: Seq<bool>, k: int)
    requires
        0 <= k < flags.len(),
        flags[k],
    ensures
        exists|i: int| is_first_true(flags, i),
    decreases k,
{
    if exists|j: int| 0 <= j < k && flags[j] {
        let j = choose|j: int| 0 <= j < k && flags[j];
        lemma_least_exists(flags, j);
    } else {
        assert(is_first_true(flags, k));
    }
}

/// `flags` with everything before `from` cleared.
pub open spec fn flags_from(flags: Seq<bool>, from: int) -> Seq<bool> {
    Seq::new(flags.len(), |i: int| from <= i && flags[i])
}

/// The least index not below `from` at which `flags` holds `true`.
pub open spec fn first_true_from(flags: Seq<bool>, from: int) -> Option<int> {
    first_true(flags_from(flags, from))
}

/// From the start, nothing is cleared.
pub proof fn lemma_first_true_from_start(flags: Seq<bool>)
    ensures
        first_true_from(flags, 0) == first_true(flags),
{
    assert(flags_from(flags, 0) =~= flags);
}

/// The least index not below `from` at which `flags` holds `true`.
pub fn first_set(flags: &Vec<bool>, from: usize) -> (at: Option<usize>)
    ensures
        position(at) == first_true_from(flags@, from as int),
        at matches Some(i) ==> from <= i < flags.len(),
{
    let ghost later = flags_from(flags@, from as int);
    let mut i: usize = from;
    while i < flags.len()
        invariant
            from <= i,
            later == flags_from(flags@, from as int),
            forall|k: int| 0 <= k < i && k < flags.len() ==> !later[k],
        decreases flags.len() - i,
    {
        if flags[i] {
            proof {
                lemma_first_true_is(later, i as int);
            }
            return Some(i);
        }
        i += 1;
    }
    proof {
        lemma_first_true_none(later);
    }
    None
}

/// An optional index as a mathematical integer.
pub open spec fn position(at: Option<usize>) -> Option<int> {
    match at {
        Some(i) => Some(i as int),
        None => None,
    }
}

/// The names that a list of identifiers spells.
pub open spec fn spelled(list: Seq<String>) -> Seq<Seq<char>> {
    Seq::new(list.len(), |i: int| list[i]@)
}

/// For each position of `names`, whether an equal name stands before it.
pub open spec fn repeat_flags(names: Seq<Seq<char>>) -> Seq<bool> {
    Seq::new(names.len(), |j: int| names.subrange(0, j).contains(names[j]))
}

/// For each position of `names`, whether `others` lacks the name there.
pub open spec fn missing_flags(names: Seq<Seq<char>>, others: Seq<Seq<char>>) -> Seq<bool> {
    Seq::new(names.len(), |j: int| !others.contains(names[j]))
}

/// For each position of `names`, whether `others` holds the name there.
pub open spec fn shared_flags(names: Seq<Seq<char>>, others: Seq<Seq<char>>) -> Seq<bool> {
    Seq::new(names.len(), |j: int| others.contains(names[j]))
}

/// A copy of a list of identifiers.
pub fn copy_names(list: &Vec<String>) -> (copy: Vec<String>)
    ensures
        spelled(copy@) == spelled(list@),
{
    let mut copy: Vec<String> = Vec::new();
    let mut i: usize = 0;
    while i < list.len()
        invariant
            i <= list.len(),
            copy@.len() == i,
            forall|k: int| 0 <= k < i ==> copy@[k]@ == list@[k]@,
        decreases list.len() - i,
    {
        copy.push(list[i].clone());
        i += 1;
    }
    assert(spelled(copy@) =~= spelled(list@));
    copy
}

/// Whether `list` holds `name`.
pub fn contains(list: &Vec<String>, name: &String) -> (found: bool)
    ensures
        found == spelled(list@).contains(name@),
{
    let mut i: usize = 0;
    while i < list.len()
        invariant
            i <= list.len(),
            forall|k: int| 0 <= k < i ==> list[k]@ != name@,
        decreases list.len() - i,
    {
        if list[i] == *name {
            assert(spelled(list@)[i as int] == name@);
            return true;
        }
        i += 1;
    }
    false
}

/// The position of the first entry of `names` that `others` lacks.
pub fn first_missing(names: &Vec<String>, others: &Vec<String>) -> (at: Option<usize>)
    ensures
        position(at) == first_true(missing_flags(spelled(names@), spelled(others@))),
{
    let ghost flags = missing_flags(spelled(names@), spelled(others@));
    let mut i: usize = 0;
    while i < names.len()
        invariant
            i <= names.len(),
            flags == missing_flags(spelled(names@), spelled(others@)),
            forall|k: int| 0 <= k < i ==> !flags[k],
        decreases names.len() - i,
    {
        if !contains(others, &names[i]) {
            proof {
                lemma_first_true_is(flags, i as int);
            }
            return Some(i);
        }
        i += 1;
    }
    proof {
        lemma_first_true_none(flags);
    }
    None
}

/// The position of the first entry of `names` that `others` holds too.
pub fn first_shared(names: &Vec<String>, others: &Vec<String>) -> (at: Option<usize>)
    ensures
        position(at) == first_true(shared_flags(spelled(names@), spelled(others@))),
{
    let ghost flags = shared_flags(spelled(names@), spelled(others@));
    let mut i: usize = 0;
    while i < names.len()
        invariant
            i <= names.len(),
            flags == shared_flags(spelled(names@), spelled(others@)),
            forall|k: int| 0 <= k < i ==> !flags[k],
        decreases names.len() - i,
    {
        if contains(others, &names[i]) {
            proof {
                lemma_first_true_is(flags, i as int);
            }
            return Some(i);
        }
        i += 1;
    }
    proof {
        lemma_first_true_none(flags);
    }
    None
}

/// The position of the first entry of `names` that repeats an earlier one.
///
/// Calls `Itertools::duplicates_by` on the entries paired with their
/// positions, keyed by the entry, and takes the first item it yields. That
/// adaptor yields an item when it meets its key for the second time, so the
/// first item is the earliest entry equal to one before it. The contract
/// says so after the source of that crate: it is trusted, not proved.
#[verifier::external_body]
pub(crate) fn first_duplicate(names: &Vec<String>) -> (at: Option<usize>)
    ensures
        position(at) == first_true(repeat_flags(spelled(names@))),
{
    names.iter().enumerate().duplicates_by(|entry| entry.1).next().map(|entry| entry.0)
}

/// No entry repeats an earlier one exactly when all entries differ.
pub proof fn lemma_no_repeat_iff_distinct(names: Seq<Seq<char>>)
    ensures
        first_true(repeat_flags(names)) is None <==> names.no_duplicates(),
{
    let flags = repeat_flags(names);
    lemma_first_true_sound(flags);
    if names.no_duplicates() {
        assert forall|j: int| 0 <= j < flags.len() implies !flags[j] by {
            if flags[j] {
                let i = choose|i: int|
                    0 <= i < names.subrange(0, j).len() && names.subrange(0, j)[i] == names[j];
                assert(names[i] == names[j]);
            }
        }
        lemma_first_true_none(flags);
    }
    if first_true(flags) is None {
        assert forall|i: int, j: int|
            0 <= i < names.len() && 0 <= j < names.len() && i != j implies names[i]
            != names[j] by {
            if names[i] == names[j] {
                if i < j {
                    assert(names.subrange(0, j)[i] == names[j]);
                    assert(flags[j]);
                } else {
                    assert(names.subrange(0, i)[j] == names[i]);
                    assert(flags[i]);
                }
            }
        }
    }
}

/// `others` lacks no entry of `names` exactly when it holds them all.
pub proof fn lemma_none_missing_iff_subset(names: Seq<Seq<char>>, others: Seq<Seq<char>>)
    ensures
        first_true(missing_flags(names, others)) is None <==> forall|i: int|
            0 <= i < names.len() ==> others.contains(#[trigger] names[i]),
{
    let flags = missing_flags(names, others);
    lemma_first_true_sound(flags);
    if forall|i: int| 0 <= i < names.len() ==> others.contains(#[trigger] names[i]) {
        assert forall|j: int| 0 <= j < flags.len() implies !flags[j] by {
            assert(others.contains(names[j]));
        }
        lemma_first_true_none(flags);
    }
    if first_true(flags) is None {
        assert forall|i: int| 0 <= i < names.len() implies others.contains(
            #[trigger] names[i],
        ) by {
            assert(!flags[i]);
        }
    }
}

/// `others` holds no entry of `names` exactly when the two share no name.
pub proof fn lemma_none_shared_iff_disjoint(names: Seq<Seq<char>>, others: Seq<Seq<char>>)
    ensures
        first_true(shared_flags(names, others)) is None <==> forall|s: Seq<char>|
            !(names.contains(s) && others.contains(s)),
{
    let flags = shared_flags(names, others);
    lemma_first_true_sound(flags);
    if forall|s: Seq<char>| !(names.contains(s) && others.contains(s)) {
        assert forall|j: int| 0 <= j < flags.len() implies !flags[j] by {
            assert(names.contains(names[j]));
        }
        lemma_first_true_none(flags);
    }
    if first_true(flags) is None {
        assert forall|s: Seq<char>| !(names.contains(s) && others.contains(s)) by {
            if names.contains(s) && others.contains(s) {
                let i = choose|i: int| 0 <= i < names.len() && names[i] == s;
                assert(flags[i]);
            }
        }
    }
}

/// The first repetition of a list is also the first repetition of every
/// list that it begins: what follows it does not matter.
pub proof fn lemma_first_repeat_of_extension(names: Seq<Seq<char>>, more: Seq<Seq<char>>)
    requires
        first_true(repeat_flags(names)) is Some,
    ensures
        first_true(repeat_flags(names + more)) == first_true(repeat_flags(names)),
{
    let flags = repeat_flags(names);
    let longer = repeat_flags(names + more);
    lemma_first_true_sound(flags);
    let at = first_true(flags)->0;
    assert forall|j: int| 0 <= j < flags.len() implies longer[j] == flags[j] by {
        assert((names + more).subrange(0, j) =~= names.subrange(0, j));
    }
    lemma_first_true_is(longer, at);
}

/// Whether a list holds a repetition does not depend on the order of its
/// entries.
pub proof fn lemma_repeat_ignores_order(names: Seq<Seq<char>>, shuffled: Seq<Seq<char>>)
    requires
        names.to_multiset() == shuffled.to_multiset(),
    ensures
        first_true(repeat_flags(names)) is Some <==> first_true(repeat_flags(shuffled)) is Some,
{
    lemma_no_repeat_iff_distinct(names);
    lemma_no_repeat_iff_distinct(shuffled);
    if names.no_duplicates() {
        names.lemma_multiset_has_no_duplicates();
        shuffled.lemma_multiset_has_no_duplicates_conv();
    }
    if shuffled.no_duplicates() {
        shuffled.lemma_multiset_has_no_duplicates();
        names.lemma_multiset_has_no_duplicates_conv();
    }
}

} // verus!
