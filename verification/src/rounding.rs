//! The closed set of rounding policies a division can be asked for.

use vstd::prelude::*;

verus! {

/// Rounding kinds.
///
/// Each variant names the integer that a non-integral quotient is mapped to.
/// Exact quotients are returned unchanged under every policy.
#[derive(Debug, Clone, Copy, PartialEq, Eq, Hash, Default)]
pub enum Rounding {
    /// towards the nearest integer, ties away from zero
    #[default]
    Round,
    /// towards negative infinity
    Floor,
    /// towards positive infinity
    Ceiling,
    /// towards zero
    TowardsZero,
    /// away from zero
    AwayFromZero,
}

} // verus!
