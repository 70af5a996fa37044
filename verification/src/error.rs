//! The ways in which a decode or a validation is abandoned.

use vstd::prelude::*;

verus! {

/// Why a line, a record or a single field was rejected.
///
/// A mismatch between a line and its integrity suffix is not among these:
/// it is the ordinary `Ok(false)` of a validation.
#[derive(Clone, Copy, Debug, PartialEq, Eq, Structural)]
pub enum DecodeError {
    /// A field that has to spell a hexadecimal number is empty, holds a
    /// character that is no hexadecimal digit, or spells a number too wide
    /// for its target. `field` is the position of the first such field among
    /// the fields that were handed to the failing function, counted from 0.
    MalformedNumber { field: usize },
    /// Fewer fields were supplied than the fixed part of the layout holds.
    TruncatedRecord,
    /// The fields after the fixed part, less the reserved last one, do not
    /// divide into whole status effects.
    MisalignedEffectList,
    /// The line is shorter than its integrity suffix, or the suffix is not
    /// hexadecimal.
    MalformedChecksum,
}

} // verus!
