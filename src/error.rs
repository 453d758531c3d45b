use vstd::prelude::*;

verus! {

/// The failures of schema validation and of the CSV codec.
#[derive(Debug, Clone, Copy, PartialEq, Eq, Structural)]
pub enum WDBError {
    /// A row's field count differs from the schema's column count.
    ArityMismatch { expected: usize, found: usize },
    /// The field at `column` holds a value of another kind than its column declares.
    TypeMismatch { column: usize },
    /// The CSV text is malformed or a field does not fit its column.
    BadCSV,
    /// Writing the CSV output failed.
    BadIO,
}

} // verus!
