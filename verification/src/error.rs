use vstd::prelude::*;

verus! {

/// The two ways in which an operation of this crate can be refused.
#[derive(Clone, Copy, Debug, PartialEq, Eq, Structural)]
pub enum Error {
    /// A value does not fit in half a machine word.
    Range,
    /// A row or column index lies outside the matrix.
    Bounds,
}

} // verus!
