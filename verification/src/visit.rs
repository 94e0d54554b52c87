//! The decision that the rewriting passes make at each node of a body.

use crate::syntax::Path;
use vstd::prelude::*;

verus! {

/// Whether an expression that constructs `other` constructs the type of the
/// block, which is written `path`: the two paths have the same identifiers,
/// segment by segment. Generic arguments and a leading `::` are not
/// compared.
pub fn should_modify(path: &Path, other: &Path) -> (same: bool)
    ensures
        same == (path.idents() == other.idents()),
{
    if path.segments.len() != other.segments.len() {
        assert(path.idents().len() != other.idents().len());
        return false;
    }
    let mut i: usize = 0;
    while i < path.segments.len()
        invariant
            i <= path.segments.len(),
            path.segments.len() == other.segments.len(),
            forall|k: int| 0 <= k < i ==> path.idents()[k] == other.idents()[k],
        decreases path.segments.len() - i,
    {
        if path.segments[i].ident != other.segments[i].ident {
            assert(path.idents()[i as int] != other.idents()[i as int]);
            return false;
        }
        i += 1;
    }
    assert(path.idents() =~= other.idents());
    true
}

} // verus!
