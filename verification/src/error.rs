//! Error values returned by the parsing and decoding operations.

use vstd::prelude::*;

verus! {

/// A typed failure from parsing or decoding.  Every malformed input is
/// reported through one of these variants; no operation in this crate
/// panics on malformed input.
#[derive(Debug, Clone, PartialEq, Eq)]
pub enum Error {
    /// An unrecognized attachment type name was met while parsing a
    /// schema or looking up an attachment kind.
    InvalidAttachmentName { name: String },
    /// A decoded value outside 0-7 was met where an octant was expected.
    InvalidOctantIndex { index: u8 },
    /// A textual address was structurally malformed (missing its leading
    /// sentinel, or holding a character that is no octant digit).
    InvalidNodeAddress { address: String },
    /// A textual address was empty.
    EmptyNodeAddress,
}

} // verus!
