//! Batches of records, as the `arrow` crate holds them.

use crate::arrays::{array_cells, array_type, Array};
use crate::cells::{null_cells, Cell};
use crate::data_type::{Field, FieldView, Schema};
use std::sync::Arc;
use vstd::prelude::*;

verus! {

/// The columns of a batch, as a batch of the `arrow` crate.
#[verifier::external_body]
#[derive(Debug)]
pub struct ColumnBatch {
    pub inner: arrow::record_batch::RecordBatch,
}

/// Records that were read together.
#[derive(Debug)]
pub struct RecordBatch {
    /// The schema of the records, as the reader has it, with the columns that are not selected.
    pub schema: Arc<Schema>,
    /// The selected columns, with a schema of just these.
    pub columns: ColumnBatch,
}

impl RecordBatch {
    /// The schema of the records.
    pub open spec fn schema(&self) -> Schema {
        *self.schema
    }
}

/// The fields in the schema of the columns.
pub uninterp spec fn batch_fields(batch: ColumnBatch) -> Seq<FieldView>;

/// The cells, column by column.
pub uninterp spec fn batch_cells(batch: ColumnBatch) -> Seq<Seq<Cell>>;

/// `arrow::array::Array::null_count`: how many slots of an array are null.
#[verifier::external_body]
pub(crate) fn null_count(array: &Array) -> (n: usize)
    ensures
        n == null_cells(array_cells(*array)),
{
    array.inner.null_count()
}

/// `arrow::record_batch::RecordBatch::try_new`: the batch of the columns, with a schema of the
/// fields. The crate refuses columns of other types or in another number than the fields, no
/// columns at all, columns of different lengths, and nulls in a column that is not nullable.
#[verifier::external_body]
pub(crate) fn new_batch(fields: &Vec<Field>, columns: Vec<Array>) -> (batch: ColumnBatch)
    requires
        columns@.len() > 0,
        columns@.len() == fields@.len(),
        forall|i: int|
            0 <= i < columns@.len() ==> {
                &&& array_type(#[trigger] columns@[i]) == fields@[i].data_type
                &&& array_cells(columns@[i]).len() == array_cells(columns@[0]).len()
                &&& fields@[i].nullable || null_cells(array_cells(columns@[i])) == 0
            },
    ensures
        batch_fields(batch) == Seq::new(fields@.len(), |i: int| fields@[i]@),
        batch_cells(batch) == Seq::new(columns@.len(), |i: int| array_cells(columns@[i])),
{
    let columns: Vec<arrow::array::ArrayRef> = columns.into_iter().map(|c| c.inner).collect();
    let fields: Vec<arrow::datatypes::Field> = fields
        .iter()
        .zip(&columns)
        .map(|(f, c)| arrow::datatypes::Field::new(&f.name, c.data_type().clone(), f.nullable))
        .collect();
    let schema = arrow::datatypes::Schema::new(fields).into();
    ColumnBatch { inner: arrow::record_batch::RecordBatch::try_new(schema, columns).unwrap() }
}

} // verus!
