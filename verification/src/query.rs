//! The decoded view over one query execution.
//!
//! The engine's opaque result handle, and fetching the next raw row
//! buffer from it, live outside this crate; what can be stated and
//! checked lives here: the result's column metadata, its counters, and
//! the decoding of each fetched buffer row into a [`Row`].

use vstd::prelude::*;

use crate::column::{ColumnView, Columns};
use crate::error::Error;
use crate::row::Row;
use crate::value::{spec_decode, RawCell, Value, ValueModel};

verus! {

/// One executed query's decoded side: column metadata built once per
/// result and shared by every row, and the row / affected-row counters
/// read once at creation.
#[derive(Debug)]
pub struct Query {
    columns: Columns,
    row_count: usize,
    affected_rows: u64,
}

impl Query {
    /// The result's column metadata.
    pub closed spec fn spec_columns(&self) -> Seq<ColumnView> {
        self.columns@
    }

    /// The row count the engine reported at creation.
    pub closed spec fn spec_row_count(&self) -> usize {
        self.row_count
    }

    /// The affected-row count the engine reported at creation.
    pub closed spec fn spec_affected_rows(&self) -> u64 {
        self.affected_rows
    }

    /// Wraps one successful execution's metadata: the columns and the
    /// counters read from the engine's result.
    pub fn new(columns: Columns, row_count: usize, affected_rows: u64) -> (q: Query)
        ensures
            q.spec_columns() == columns@,
            q.spec_row_count() == row_count,
            q.spec_affected_rows() == affected_rows,
    {
        Query { columns, row_count, affected_rows }
    }

    pub fn column_count(&self) -> (n: usize)
        ensures
            n == self.spec_columns().len(),
    {
        self.columns.len()
    }

    pub fn row_count(&self) -> (n: usize)
        ensures
            n == self.spec_row_count(),
    {
        self.row_count
    }

    pub fn affected_rows(&self) -> (n: u64)
        ensures
            n == self.spec_affected_rows(),
    {
        self.affected_rows
    }

    pub fn columns(&self) -> (r: &Columns)
        ensures
            r@ == self.spec_columns(),
    {
        &self.columns
    }

    /// Decodes one fetched buffer row: one raw cell per column, each
    /// decoded under its column's declared type, aborting at the first
    /// cell that fails.
    ///
    /// On success the row holds one value per column, shares this
    /// result's column metadata, and each value is exactly what
    /// [`spec_decode`] says for its cell and column; the first failing
    /// cell's error propagates instead. A row with the wrong number of
    /// cells is a wire-contract violation.
    pub fn decode_row(&self, cells: &Vec<RawCell>) -> (r: Result<Row, Error>)
        ensures
            r matches Ok(row) ==> {
                &&& row.wf()
                &&& row.spec_columns() == self.spec_columns()
                &&& row.spec_values().len() == cells@.len()
                &&& forall|i: int|
                    0 <= i < cells@.len() ==> #[trigger] spec_decode(
                        cells@[i]@,
                        self.spec_columns()[i].datatype,
                    ) == Ok::<ValueModel, Error>(row.spec_values()[i]@)
            },
            r is Ok <==> cells@.len() == self.spec_columns().len() && (forall|i: int|
                0 <= i < cells@.len() ==> #[trigger] spec_decode(
                    cells@[i]@,
                    self.spec_columns()[i].datatype,
                ) is Ok),
            cells@.len() != self.spec_columns().len() ==> r == Err::<Row, Error>(
                Error::ContractViolation,
            ),
            r matches Err(e) ==> cells@.len() != self.spec_columns().len() || exists|i: int|
                {
                    &&& 0 <= i < cells@.len()
                    &&& #[trigger] spec_decode(cells@[i]@, self.spec_columns()[i].datatype)
                        == Err::<ValueModel, Error>(e)
                    &&& forall|j: int|
                        0 <= j < i ==> spec_decode(cells@[j]@, self.spec_columns()[j].datatype)
                            is Ok
                },
    {
        let count: usize = self.columns.len();
        if cells.len() != count {
            return Err(Error::ContractViolation);
        }
        let mut values: Vec<Value> = Vec::new();
        let mut i: usize = 0;
        while i < count
            invariant
                0 <= i <= count == self.spec_columns().len() == cells@.len(),
                values@.len() == i,
                forall|j: int|
                    0 <= j < i ==> #[trigger] spec_decode(
                        cells@[j]@,
                        self.spec_columns()[j].datatype,
                    ) == Ok::<ValueModel, Error>(values@[j]@),
            decreases count - i,
        {
            let datatype = self.columns.datatype(i);
            match Value::decode(&cells[i], datatype) {
                Ok(v) => {
                    values.push(v);
                },
                Err(e) => {
                    proof {
                        assert(spec_decode(cells@[i as int]@, self.spec_columns()[i as int].datatype)
                            == Err::<ValueModel, Error>(e));
                    }
                    return Err(e);
                },
            }
            i = i + 1;
        }
        Ok(Row::new(self.columns.clone(), values))
    }
}

} // verus!
