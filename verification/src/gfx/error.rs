//! Errors reported by drawing operations.

use vstd::prelude::*;
use super::vec::UVec2;

verus! {

/// Why a drawing operation was refused.
#[derive(Debug, Clone, Copy, PartialEq, Eq, Structural)]
pub enum Error {
    /// The operation addressed `p`, which a canvas of size `bounds` does not hold.
    OutOfBounds { p: UVec2, bounds: UVec2 },
}

} // verus!
