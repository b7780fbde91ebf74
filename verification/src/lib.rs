//! Coverage tracking for Uber H3 hexagonal cells.
//!
//! A sensor report carries a 64-bit hierarchical H3 cell index, given as a
//! string of 15 or 16 hexadecimal characters.  The library decodes and
//! validates such an index against a fixed hierarchy depth, derives a dense
//! offset identifying the reported resolution-9 sub-cell within its
//! resolution-5 ancestor, and records coverage in a fixed-size bitmap,
//! rejecting duplicate reports.

pub mod bitmap;
pub mod error;
pub mod hexnum;
pub mod index;
