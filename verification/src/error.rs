//! The failures that the engine reports to its caller.

use vstd::prelude::*;
use vstd::string::*;

verus! {

/// Why a call did not produce its result. No call returns a partial result.
#[derive(Clone, Copy, Debug, PartialEq, Eq, Structural)]
pub enum EngineError {
    /// The columns of the table do not all have the same length.
    MalformedTable,
    /// An equality predicate was asked on a column whose declared type has
    /// no equality defined here (`Bool`, `Date`, `Datetime`, `Unknown`).
    UnsupportedFilterType,
    /// A column was named that the table does not hold.
    ColumnNotFound,
    /// A row mask does not have one entry for each row of the table.
    MaskLength,
    /// A selection names the same column twice.
    DuplicateColumn,
    /// The input format is not one that can be read.
    UnsupportedFormat,
    /// The output format is not one that can be written.
    UnsupportedOutputFormat,
    /// A sheet holds no row at all.
    NoData,
    /// A text that looks like a JSON array is not valid JSON.
    InvalidJson,
}

/// The text that [`EngineError::message`] gives for an error.
pub open spec fn message_of(e: EngineError) -> Seq<char> {
    match e {
        EngineError::MalformedTable => "Malformed table: columns differ in length"@,
        EngineError::UnsupportedFilterType => "Unsupported filter type"@,
        EngineError::ColumnNotFound => "Column not found"@,
        EngineError::MaskLength => "Mask length differs from row count"@,
        EngineError::DuplicateColumn => "Column selected more than once"@,
        EngineError::UnsupportedFormat => "Unsupported file format"@,
        EngineError::UnsupportedOutputFormat => "Unsupported output format"@,
        EngineError::NoData => "No data in sheet"@,
        EngineError::InvalidJson => "Invalid JSON"@,
    }
}

impl EngineError {
    /// A one-line description of the error.
    pub fn message(&self) -> (r: String)
        ensures
            r@ == message_of(*self),
    {
        match self {
            EngineError::MalformedTable => String::from_str(
                "Malformed table: columns differ in length",
            ),
            EngineError::UnsupportedFilterType => String::from_str("Unsupported filter type"),
            EngineError::ColumnNotFound => String::from_str("Column not found"),
            EngineError::MaskLength => String::from_str("Mask length differs from row count"),
            EngineError::DuplicateColumn => String::from_str("Column selected more than once"),
            EngineError::UnsupportedFormat => String::from_str("Unsupported file format"),
            EngineError::UnsupportedOutputFormat => String::from_str("Unsupported output format"),
            EngineError::NoData => String::from_str("No data in sheet"),
            EngineError::InvalidJson => String::from_str("Invalid JSON"),
        }
    }
}

} // verus!
