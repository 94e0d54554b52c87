//! Markers that stand for the status of one state in a value's type.

use vstd::prelude::*;

verus! {

/// Indicates a disabled state.
#[derive(Debug, Default, Hash, PartialEq, Eq, PartialOrd, Ord)]
pub struct N;

/// Indicates an enabled state.
#[derive(Debug, Default, Hash, PartialEq, Eq, PartialOrd, Ord)]
pub struct Y;

/// Placeholder for a stateless type.
pub struct __;

/// What one slot of a marker tuple holds.
///
/// Slot `i` of a tuple belongs to the `i`-th declared state. `Unchanged` is
/// the generic sub-parameter of that state: the operation neither looks at the
/// state nor touches it.
#[derive(Debug, Clone, Copy, PartialEq, Eq, Structural)]
pub enum Marker {
    Enabled,
    Disabled,
    Unchanged,
}

} // verus!
