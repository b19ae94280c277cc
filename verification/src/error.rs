//! The errors that reading a font table can end in.

use vstd::prelude::*;

verus! {

/// Why a table could not be read. Every error ends the query that met it;
/// none is retried or replaced by a default.
#[derive(Clone, Copy, Debug, PartialEq, Eq, Structural)]
pub enum FontError {
    /// A read or a seek asked for more bytes than the data holds.
    UnexpectedEof,
    /// The CFF table declares a version other than 1.0.
    UnsupportedCffVersion,
    /// The operator that was looked up in a DICT had no integer operand.
    CffIntegerNotFound,
    /// The Top DICT INDEX holds no record.
    CffTopDictNotFound,
    /// An INDEX declares an offset size outside 1 to 4.
    CffBadOffset,
    /// A CharString pushed more operands than the evaluation stack holds.
    CffStackOverflow,
    /// A CharString operator found a number of operands it cannot group.
    CffBadOperandCount,
    /// A CharString used an operator that is not implemented.
    CffUnimplementedOperator,
}

} // verus!
