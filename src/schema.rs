use vstd::prelude::*;

use crate::error::WDBError;
use crate::row::WDBRow;
use crate::value::{has_type, ValueModel, WDBType};

verus! {

/// `row` has one field per column, each of its column's kind.
pub open spec fn conforms(columns: Seq<WDBType>, row: Seq<ValueModel>) -> bool {
    &&& row.len() == columns.len()
    &&& forall|i: int| 0 <= i < row.len() ==> has_type(#[trigger] row[i], columns[i])
}

/// `c` is the first position at which `row`'s value is not of its column's kind.
pub open spec fn is_first_mismatch(columns: Seq<WDBType>, row: Seq<ValueModel>, c: int) -> bool {
    &&& 0 <= c < row.len()
    &&& c < columns.len()
    &&& !has_type(row[c], columns[c])
    &&& forall|j: int| 0 <= j < c ==> has_type(#[trigger] row[j], columns[j])
}

/// The outcome of checking `row` against `columns`: arity first, then each field in order.
pub open spec fn validation_outcome(columns: Seq<WDBType>, row: Seq<ValueModel>, r: Result<
    (),
    WDBError,
>) -> bool {
    match r {
        Ok(_) => conforms(columns, row),
        Err(WDBError::ArityMismatch { expected, found }) => {
            &&& row.len() != columns.len()
            &&& expected == columns.len()
            &&& found == row.len()
        },
        Err(WDBError::TypeMismatch { column }) => {
            &&& row.len() == columns.len()
            &&& is_first_mismatch(columns, row, column as int)
        },
        Err(_) => false,
    }
}

/// The ordered column types of a table.
#[derive(Debug, Clone, PartialEq)]
pub struct WDBSchema {
    columns: Vec<WDBType>,
}

impl View for WDBSchema {
    type V = Seq<WDBType>;

    closed spec fn view(&self) -> Seq<WDBType> {
        self.columns@
    }
}

impl WDBSchema {
    /// A schema whose columns are `columns`, in that order.
    pub fn new(columns: Vec<WDBType>) -> (r: WDBSchema)
        ensures
            r@ == columns@,
    {
        WDBSchema { columns }
    }

    /// The column types in order.
    pub fn columns(&self) -> (r: &[WDBType])
        ensures
            r@ == self@,
    {
        self.columns.as_slice()
    }

    /// A schema equal to this one, built column by column.
    pub fn copy(&self) -> (r: WDBSchema)
        ensures
            r@ == self@,
    {
        let mut columns: Vec<WDBType> = Vec::new();
        let n = self.columns.len();
        for i in 0..n
            invariant
                n == self.columns@.len(),
                columns@ == self.columns@.subrange(0, i as int),
        {
            columns.push(self.columns[i]);
            proof {
                assert(columns@ =~= self.columns@.subrange(0, i + 1));
            }
        }
        proof {
            assert(columns@ =~= self.columns@);
        }
        WDBSchema { columns }
    }

    /// Checks that `row` has one field per column and that each field is of its
    /// column's kind; an arity mismatch is reported before any field is looked at.
    pub fn validate(&self, row: &WDBRow) -> (r: Result<(), WDBError>)
        ensures
            validation_outcome(self@, row@, r),
    {
        let fields = row.fields();
        let n = self.columns.len();
        proof {
            assert(fields@.len() == row@.len());
        }
        if fields.len() != n {
            return Err(WDBError::ArityMismatch { expected: n, found: fields.len() });
        }
        for i in 0..n
            invariant
                n == self@.len(),
                fields@.len() == n,
                crate::row::values_view(fields@) == row@,
                forall|j: int| 0 <= j < i ==> has_type(#[trigger] row@[j], self@[j]),
        {
            let t = fields[i].value_type();
            if t != self.columns[i] {
                proof {
                    assert(row@[i as int] == fields@[i as int]@);
                    assert(is_first_mismatch(self@, row@, i as int));
                }
                return Err(WDBError::TypeMismatch { column: i });
            }
            proof {
                assert(row@[i as int] == fields@[i as int]@);
            }
        }
        Ok(())
    }
}

/// Arity: a row whose field count differs from the column count is refused, with
/// both counts in the error.
pub proof fn lemma_arity_enforced(
    columns: Seq<WDBType>,
    row: Seq<ValueModel>,
    r: Result<(), WDBError>,
)
    requires
        validation_outcome(columns, row, r),
        row.len() != columns.len(),
    ensures
        r == Err::<(), WDBError>(
            WDBError::ArityMismatch { expected: columns.len() as usize, found: row.len() as usize },
        ),
{
}

/// Kinds: a row with a field of another kind than its column is refused, and the
/// error names a column at or before that field.
pub proof fn lemma_type_enforced(
    columns: Seq<WDBType>,
    row: Seq<ValueModel>,
    r: Result<(), WDBError>,
    i: int,
)
    requires
        validation_outcome(columns, row, r),
        0 <= i < row.len(),
        i < columns.len(),
        !has_type(row[i], columns[i]),
    ensures
        r is Err,
        row.len() == columns.len() ==> exists|c: usize|
            c <= i && r == Err::<(), WDBError>(WDBError::TypeMismatch { column: c }),
{
}

} // verus!
