//! The ways in which a unit can fail to be classified.

use vstd::prelude::*;

verus! {

/// Why a unit could not be classified. Either error concerns one unit only:
/// a caller that walks over many units can report it and go on with the next.
#[derive(Clone, Copy, Debug, PartialEq, Eq, Structural)]
pub enum UnitError {
    /// The path of the unit file has no extension, or one that names no unit type.
    UnrecognizedUnitType,
    /// The state message is too short to hold a payload, or its payload starts
    /// with a character that stands for no state.
    UnrecognizedUnitState,
}

} // verus!
