use vstd::prelude::*;

verus! {

/// Why a geometric construction was refused.
#[derive(Clone, Copy, Debug, PartialEq, Eq, Structural)]
pub enum GeometryError {
    /// The lattice scale was zero or negative.
    NonPositiveScale,
    /// An edge length or a box extent was zero or negative.
    NonPositiveExtent,
    /// A coordinate of the result does not fit in an `i64`.
    Overflow,
}

} // verus!
