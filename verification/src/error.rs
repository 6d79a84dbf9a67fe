//! What can go wrong while sampling.

use vstd::prelude::*;

verus! {

/// Why a sample was rejected. A rejected sample leaves the state it was meant
/// for as it was.
#[derive(Clone, Copy, Debug, PartialEq, Eq, Structural)]
pub enum SensorError {
    /// A field that should hold a counter is not an unsigned decimal number
    /// that fits 64 bits.
    NotANumber,
    /// A line ends before a field that it must have.
    MissingField,
    /// The sum of a line's counters does not fit 64 bits.
    Overflow,
    /// More rows than the history table can hold, or more items than
    /// a vector can hold.
    TooManyRows,
    /// A row at or beyond the capacity of the history table.
    RowOutOfRange,
    /// A column at or beyond the length of a row's history.
    ColumnOutOfRange,
    /// A search pattern that is no regular expression.
    BadPattern,
    /// A table that could not be read at all.
    Unreadable,
}

} // verus!
