use vstd::prelude::*;

verus! {

/// Every failure the library reports. Each is detected synchronously at the
/// call that violates the contract and surfaced immediately; no operation
/// leaves a partially mutated value behind when it fails.
#[derive(Clone, Copy, Debug, PartialEq, Eq, Structural)]
pub enum Error {
    /// A container was constructed with an element count that does not match
    /// its declared shape.
    ShapeMismatch,
    /// A row, column, layer or node index lies outside the valid range.
    IndexOutOfBounds,
    /// A degenerate layer-size list: fewer than two sizes, or a zero size.
    InvalidTopology,
    /// An input or replacement vector whose length disagrees with the node
    /// count it must match.
    DimensionMismatch,
    /// A non-comparable value reached classification.
    InvalidInput,
}

} // verus!
