use vstd::prelude::*;

verus! {

/// The failure kinds reported by the decoder and the coverage bitmap.
/// Every rejected operation surfaces as one of these; the bitmap is left
/// unchanged on any error.
#[derive(Clone, Copy, Debug, PartialEq, Eq, Structural)]
pub enum MyError {
    /// The resolution-9 hexagon has already been covered by this mapper.
    HexMapped,
    /// The raw index is not a valid H3 mode-1 cell index: wrong length,
    /// a non-hex character, a wrong mode byte, or an out-of-range digit.
    InvalidCell,
    /// The index is well formed but its resolution is coarser than 9.
    IncorrectRes9,
}

} // verus!
