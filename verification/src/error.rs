use vstd::prelude::*;

verus! {

/// The ways a grid operation can fail.
///
/// `WidthSourceUnavailable` is deliberately absent: a failed width query is
/// recovered by substituting [`crate::DEFAULT_WIDTH`] at the call site that
/// performs the query, so it never surfaces through this library.
#[derive(Clone, Copy, Debug, PartialEq, Eq, Structural)]
pub enum GridError {
    /// A row's cell count does not equal the registry's column count; the row
    /// is rejected at insertion time and the table is left unchanged.
    RowArityMismatch,
    /// Some accepted row carries no cell for a registry column, so that
    /// column's width cannot be computed. This indicates an inconsistent row
    /// and is surfaced rather than silently recovered.
    MissingColumn,
    /// No nonempty column subset reachable by shrinking a registry prefix
    /// fits the width budget; the render produces no output.
    TerminalTooSmall,
}

impl GridError {
    /// A human-readable description of the error.
    pub fn message(&self) -> (r: &'static str)
        ensures
            *self == GridError::RowArityMismatch ==> r@ == "row cell count must equal the number of headers"@,
            *self == GridError::MissingColumn ==> r@ == "cannot find pre-existing column in line"@,
            *self == GridError::TerminalTooSmall ==> r@ == "your terminal is too small"@,
    {
        match self {
            GridError::RowArityMismatch => "row cell count must equal the number of headers",
            GridError::MissingColumn => "cannot find pre-existing column in line",
            GridError::TerminalTooSmall => "your terminal is too small",
        }
    }
}

} // verus!
