//! Normalised market-data record types.

use vstd::prelude::*;

verus! {

/// Type of market quote.
#[derive(Debug, Clone, Copy, PartialEq, Eq)]
pub enum QuoteType {
    /// Bid price (buy side).
    Bid,
    /// Ask price (sell side).
    Ask,
    /// Last traded price.
    Last,
    /// Mid price (average of bid and ask).
    Mid,
}

/// A single record of a delimited flat file: its one-based row number and
/// its field values.
#[derive(Debug, Clone, PartialEq, Eq)]
pub struct CsvRecord {
    /// Row number (1-indexed).
    pub row: usize,
    /// Field values.
    pub fields: Vec<String>,
}

impl CsvRecord {
    /// Create a record from its row number and fields.
    pub fn new(row: usize, fields: Vec<String>) -> (r: Self)
        ensures
            r.row == row,
            r.fields == fields,
    {
        CsvRecord { row, fields }
    }

    /// The number of fields in the record.
    pub fn field_count(&self) -> (r: usize)
        ensures
            r == self.fields@.len(),
    {
        self.fields.len()
    }
}

} // verus!
