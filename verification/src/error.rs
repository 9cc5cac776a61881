//! The one way a layout pass can fail.

use vstd::prelude::*;

verus! {

/// Why a pass gave up.
#[derive(Debug, Clone, Copy, PartialEq, Eq, Structural)]
pub enum LayoutError {
    /// A size or a coordinate that the pass had to store does not fit in an `i32`.
    Overflow,
}

} // verus!
