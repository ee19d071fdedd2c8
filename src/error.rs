use vstd::prelude::*;

verus! {

/// Every way an operation of this library can fail.
#[derive(Copy, Clone, Debug, PartialEq, Eq, Structural)]
pub enum WebExcelError {
    /// The text holds a character that is not part of an address, or lacks
    /// the column letters or the row digits.
    ParseError,
    /// A row or column index lies outside the sheet's bounds.
    OutOfBoundError,
    /// A move would take an index below zero.
    RelocateError,
    /// The two corners of a range name different sheets.
    RangeDiffSheetError,
}

} // verus!
