//! Reading batches of records.

use crate::arrays::{array_cells, array_type, Array};
use crate::batch::{batch_cells, batch_fields, new_batch, null_count, ColumnBatch, RecordBatch};
use crate::cells::{column_cells, null_cells, Cell};
use crate::columns::{build_column, column_error};
use crate::data_type::{Field, FieldView, Schema};
use crate::error::JsonError;
use crate::infer::texts;
use crate::text::{json_of, parse, trimmed};
use crate::value::{all_sound, jsons, Json, JsonValue};
use std::sync::Arc;
use vstd::prelude::*;

verus! {

/// The records on at most `limit` lines, and how many lines that uses up. An empty line ends
/// the reading, and so does a line that is no JSON.
pub open spec fn read_rows(lines: Seq<Seq<char>>, limit: nat) -> (Result<Seq<Json>, JsonError>, nat)
    decreases lines.len(),
{
    if limit == 0 || lines.len() == 0 {
        (Ok(Seq::empty()), 0)
    } else if lines[0].len() == 0 {
        (Ok(Seq::empty()), 1)
    } else {
        match json_of(lines[0]) {
            None => (Err(JsonError::NotValidJson), 1),
            Some(json) => {
                let (rest, used) = read_rows(lines.drop_first(), (limit - 1) as nat);
                match rest {
                    Ok(rows) => (Ok(seq![json] + rows), used + 1),
                    Err(error) => (Err(error), used + 1),
                }
            },
        }
    }
}

/// Whether the rows are also what the first lines spell without white space at their ends.
pub open spec fn are_trimmed_rows(lines: Seq<Seq<char>>, rows: Seq<Json>) -> bool {
    &&& rows.len() <= lines.len()
    &&& forall|i: int|
        0 <= i < rows.len() ==> json_of(trimmed(#[trigger] lines[i])) == Some(rows[i])
}

/// Whether a column of the name is to be read. No names at all select every column.
pub open spec fn is_selected(projection: Option<Seq<Seq<char>>>, name: Seq<char>) -> bool {
    match projection {
        Some(names) => names.len() == 0 || names.contains(name),
        None => true,
    }
}

/// The fields of the columns that are to be read.
pub open spec fn selected(fields: Seq<FieldView>, projection: Option<Seq<Seq<char>>>) -> Seq<
    FieldView,
>
    decreases fields.len(),
{
    if fields.len() == 0 {
        Seq::empty()
    } else if is_selected(projection, fields.last().name) {
        selected(fields.drop_last(), projection).push(fields.last())
    } else {
        selected(fields.drop_last(), projection)
    }
}

/// Why the first of the columns that cannot be filled from the rows cannot be.
pub open spec fn first_error(fields: Seq<FieldView>, rows: Seq<Json>) -> Option<JsonError>
    decreases fields.len(),
{
    if fields.len() == 0 {
        None
    } else {
        match first_error(fields.drop_last(), rows) {
            Some(error) => Some(error),
            None => column_error(fields.last().data_type, rows, fields.last().name),
        }
    }
}

/// Why no batch can be made of the rows, if none can.
pub open spec fn batch_error(fields: Seq<FieldView>, rows: Seq<Json>) -> Option<JsonError> {
    if fields.len() == 0 {
        Some(JsonError::NoColumns)
    } else {
        first_error(fields, rows)
    }
}

/// The cells of the column of the field.
pub open spec fn field_cells(field: FieldView, rows: Seq<Json>) -> Seq<Cell> {
    column_cells(field.data_type, rows, field.name)
}

/// The field of a column in the schema of the columns of a batch, which has no nulls in what
/// is not nullable: a column with nulls is nullable in it.
pub open spec fn batch_field(field: FieldView, rows: Seq<Json>) -> FieldView {
    FieldView { nullable: field.nullable || null_cells(field_cells(field, rows)) > 0, ..field }
}

/// Whether there is a column for each of the fields and no others, in their order, with a cell
/// for each of the rows.
pub open spec fn is_batch_of(
    batch: ColumnBatch,
    fields: Seq<FieldView>,
    rows: Seq<Json>,
) -> bool {
    &&& batch_fields(batch) == Seq::new(fields.len(), |i: int| batch_field(fields[i], rows))
    &&& batch_cells(batch) == Seq::new(fields.len(), |i: int| field_cells(fields[i], rows))
}

/// Whether the arrays, and the fields that go with them, are those of the given fields.
spec fn are_columns(
    built: (Vec<Field>, Vec<Array>),
    fields: Seq<FieldView>,
    rows: Seq<Json>,
) -> bool {
    &&& built.0@.len() == fields.len()
    &&& built.1@.len() == fields.len()
    &&& forall|i: int|
        0 <= i < fields.len() ==> (#[trigger] built.0@[i])@ == batch_field(fields[i], rows)
    &&& forall|i: int|
        0 <= i < fields.len() ==> {
            &&& array_type(#[trigger] built.1@[i]) == fields[i].data_type
            &&& array_cells(built.1@[i]) == field_cells(fields[i], rows)
        }
}

/// The names, each by its characters.
pub open spec fn names_of(projection: Option<Vec<String>>) -> Option<Seq<Seq<char>>> {
    match projection {
        Some(names) => Some(texts(names@)),
        None => None,
    }
}

/// A reader of newline-delimited JSON.
#[derive(Debug)]
pub struct Reader {
    schema: Arc<Schema>,
    projection: Option<Vec<String>>,
    batch_size: usize,
    lines: Vec<String>,
    position: usize,
}

impl Reader {
    pub closed spec fn wf(&self) -> bool {
        self.position <= self.lines@.len()
    }

    /// The schema of the records.
    pub closed spec fn schema(&self) -> Schema {
        *self.schema
    }

    /// The names that were given to select columns by.
    pub closed spec fn projection(&self) -> Option<Seq<Seq<char>>> {
        names_of(self.projection)
    }

    /// How many records are read at one time.
    pub closed spec fn batch_size(&self) -> nat {
        self.batch_size as nat
    }

    /// The lines that were handed in and are not read yet.
    pub closed spec fn pending(&self) -> Seq<Seq<char>> {
        texts(self.lines@).skip(self.position as int)
    }

    /// Whether the settings are those of the other reader.
    pub open spec fn same_settings(&self, other: &Reader) -> bool {
        &&& self.schema() == other.schema()
        &&& self.projection() == other.projection()
        &&& self.batch_size() == other.batch_size()
    }

    /// A reader of the given lines, each with its line end.
    pub fn new(
        lines: Vec<String>,
        schema: Arc<Schema>,
        batch_size: usize,
        projection: Option<Vec<String>>,
    ) -> (reader: Reader)
        ensures
            reader.wf(),
            reader.pending() == texts(lines@),
            reader.schema() == *schema,
            reader.batch_size() == batch_size,
            reader.projection() == names_of(projection),
    {
        let reader = Reader { schema, projection, batch_size, lines, position: 0 };
        proof {
            assert(texts(lines@).skip(0) =~= texts(lines@));
        }
        reader
    }

    /// Whether the next batch calls for another line, one that is empty where the input has
    /// ended.
    pub fn wants_line(&self) -> (wants: bool)
        requires
            self.wf(),
        ensures
            wants == (self.pending().len() < self.batch_size() && (self.pending().len() == 0
                || self.pending().last().len() > 0)),
    {
        let n: usize = self.lines.len();
        n - self.position < self.batch_size && (n == self.position
            || !self.lines[n - 1].as_str().is_empty())
    }

    /// Hands in another line.
    pub fn push_line(&mut self, line: String)
        requires
            old(self).wf(),
        ensures
            final(self).wf(),
            final(self).same_settings(old(self)),
            final(self).pending() == old(self).pending().push(line@),
    {
        if self.position == self.lines.len() {
            self.lines = Vec::new();
            self.position = 0;
        }
        proof {
            assert(self.pending() =~= old(self).pending());
        }
        self.lines.push(line);
        proof {
            assert(self.pending() =~= old(self).pending().push(line@));
        }
    }
}

/// What reading comes to, given the rows read so far and what the rest of the lines comes to.
spec fn after(
    rows: Seq<Json>,
    used: nat,
    rest: (Result<Seq<Json>, JsonError>, nat),
) -> (Result<Seq<Json>, JsonError>, nat) {
    (
        match rest.0 {
            Ok(more) => Ok(rows + more),
            Err(error) => Err(error),
        },
        used + rest.1,
    )
}

/// Whether the column of the name is to be read.
fn selects(projection: &Option<Vec<String>>, name: &String) -> (selects: bool)
    ensures
        selects == is_selected(names_of(*projection), name@),
{
    match projection {
        Some(names) => {
            if names.len() == 0 {
                return true;
            }
            let ghost all = texts(names@);
            let mut i: usize = 0;
            while i < names.len()
                invariant
                    i <= names@.len(),
                    all == texts(names@),
                    names_of(*projection) == Some(all),
                    forall|j: int| 0 <= j < i ==> all[j] != name@,
                decreases names.len() - i,
            {
                assert(all[i as int] == names@[i as int]@);
                if names[i] == *name {
                    return true;
                }
                i += 1;
            }
            false
        },
        None => true,
    }
}

/// An error of the first columns is the error of all.
proof fn lemma_error_stays(
    fields: Seq<FieldView>,
    projection: Option<Seq<Seq<char>>>,
    rows: Seq<Json>,
    n: int,
)
    requires
        0 <= n <= fields.len(),
        first_error(selected(fields.take(n), projection), rows) is Some,
    ensures
        first_error(selected(fields, projection), rows) == first_error(
            selected(fields.take(n), projection),
            rows,
        ),
    decreases fields.len(),
{
    if n == fields.len() {
        assert(fields.take(n) =~= fields);
    } else {
        let shorter = fields.drop_last();
        assert(shorter.take(n) =~= fields.take(n));
        lemma_error_stays(shorter, projection, rows, n);
        let kept = selected(shorter, projection);
        assert(kept.push(fields.last()).drop_last() =~= kept);
    }
}

impl Reader {
    /// Reads the records of the next batch.
    fn read_batch(&mut self) -> (read: Result<Vec<JsonValue>, JsonError>)
        requires
            old(self).wf(),
        ensures
            final(self).wf(),
            final(self).same_settings(old(self)),
            ({
                let (rows, used) = read_rows(old(self).pending(), old(self).batch_size());
                &&& final(self).pending() == old(self).pending().skip(used as int)
                &&& match rows {
                    Ok(rows) => {
                        &&& read matches Ok(values)
                        &&& jsons(values@) == rows
                        &&& all_sound(rows)
                        &&& are_trimmed_rows(old(self).pending(), rows)
                    },
                    Err(error) => read == Err::<Vec<JsonValue>, JsonError>(error),
                }
            }),
    {
        let ghost before = *self;
        let ghost all = self.pending();
        let ghost total = read_rows(all, self.batch_size());
        let mut rows: Vec<JsonValue> = Vec::new();
        let mut ended: bool = false;
        proof {
            assert(all.skip(0) =~= all);
            assert(total == after(Seq::empty(), 0, total)) by {
                if total.0 is Ok {
                    assert(Seq::empty() + total.0->Ok_0 =~= total.0->Ok_0);
                }
            }
        }
        while !ended && rows.len() < self.batch_size && self.position < self.lines.len()
            invariant
                self.wf(),
                before.wf(),
                before == *old(self),
                self.same_settings(&before),
                self.lines == before.lines,
                before.position <= self.position,
                all == before.pending(),
                self.pending() == all.skip(self.position - before.position),
                total == read_rows(all, before.batch_size()),
                rows@.len() <= before.batch_size(),
                all_sound(jsons(rows@)),
                are_trimmed_rows(all, jsons(rows@)),
                !ended ==> rows@.len() == self.position - before.position,
                total == after(
                    jsons(rows@),
                    (self.position - before.position) as nat,
                    if ended {
                        (Ok(Seq::empty()), 0nat)
                    } else {
                        read_rows(self.pending(), (before.batch_size() - rows@.len()) as nat)
                    },
                ),
            decreases self.lines.len() - self.position,
        {
            let ghost rest = self.pending();
            let ghost done = jsons(rows@);
            proof {
                assert(rest[0] == self.lines@[self.position as int]@);
                assert(rest.drop_first() =~= texts(self.lines@).skip(self.position + 1));
                assert(rest.drop_first() =~= all.skip(self.position + 1 - before.position));
            }
            let line: &String = &self.lines[self.position];
            if line.as_str().is_empty() {
                self.position = self.position + 1;
                ended = true;
            } else {
                let read = parse(line.as_str());
                self.position = self.position + 1;
                match read {
                    Ok(value) => {
                        rows.push(value);
                        proof {
                            assert(jsons(rows@) =~= done.push(value@));
                            let later = read_rows(
                                rest.drop_first(),
                                (before.batch_size() - rows@.len()) as nat,
                            );
                            if later.0 is Ok {
                                assert(done + (seq![value@] + later.0->Ok_0) =~= jsons(rows@)
                                    + later.0->Ok_0);
                            }
                        }
                    },
                    Err(error) => {
                        return Err(error);
                    },
                }
            }
        }
        proof {
            assert(jsons(rows@) + Seq::empty() =~= jsons(rows@));
        }
        Ok(rows)
    }

    /// The selected columns, filled from the rows, and the fields that go with them.
    fn build_columns(&self, rows: &Vec<JsonValue>) -> (built: Result<
        (Vec<Field>, Vec<Array>),
        JsonError,
    >)
        requires
            all_sound(jsons(rows@)),
        ensures
            ({
                let fields = selected(self.schema()@, self.projection());
                match first_error(fields, jsons(rows@)) {
                    Some(error) => built == Err::<(Vec<Field>, Vec<Array>), JsonError>(error),
                    None => built matches Ok(columns) && are_columns(
                        columns,
                        fields,
                        jsons(rows@),
                    ),
                }
            }),
    {
        let ghost all = self.schema@;
        let ghost projection = self.projection();
        let mut fields: Vec<Field> = Vec::new();
        let mut columns: Vec<Array> = Vec::new();
        let mut i: usize = 0;
        proof {
            assert(all.take(0) =~= Seq::empty());
        }
        while i < self.schema.fields.len()
            invariant
                i <= self.schema.fields@.len(),
                all == self.schema@,
                all_sound(jsons(rows@)),
                projection == self.projection(),
                first_error(selected(all.take(i as int), projection), jsons(rows@)) is None,
                are_columns(
                    (fields, columns),
                    selected(all.take(i as int), projection),
                    jsons(rows@),
                ),
            decreases self.schema.fields.len() - i,
        {
            let field: &Field = &self.schema.fields[i];
            let ghost kept = selected(all.take(i as int), projection);
            proof {
                assert(all.take(i + 1).drop_last() =~= all.take(i as int));
                assert(all.take(i + 1).last() == field@);
                assert(kept.push(field@).drop_last() =~= kept);
            }
            if selects(&self.projection, &field.name) {
                match build_column(&field.data_type, rows, &field.name) {
                    Ok(array) => {
                        let nullable: bool = field.nullable || null_count(&array) > 0;
                        fields.push(
                            Field::new(field.name.as_str(), field.data_type.clone(), nullable),
                        );
                        columns.push(array);
                    },
                    Err(error) => {
                        proof {
                            lemma_error_stays(all, projection, jsons(rows@), i + 1);
                        }
                        return Err(error);
                    },
                }
            }
            i += 1;
        }
        proof {
            assert(all.take(i as int) =~= all);
        }
        Ok((fields, columns))
    }

    /// Read the next batch of records
    pub fn next(&mut self) -> (read: Result<Option<RecordBatch>, JsonError>)
        requires
            old(self).wf(),
        ensures
            final(self).wf(),
            final(self).same_settings(old(self)),
            ({
                let (rows, used) = read_rows(old(self).pending(), old(self).batch_size());
                let fields = selected(old(self).schema()@, old(self).projection());
                &&& final(self).pending() == old(self).pending().skip(used as int)
                &&& match rows {
                    Err(error) => read == Err::<Option<RecordBatch>, JsonError>(error),
                    Ok(rows) => match batch_error(fields, rows) {
                        Some(error) => read == Err::<Option<RecordBatch>, JsonError>(error),
                        None => {
                            &&& read matches Ok(Some(batch))
                            &&& batch.schema() == old(self).schema()
                            &&& is_batch_of(batch.columns, fields, rows)
                            &&& all_sound(rows)
                            &&& are_trimmed_rows(old(self).pending(), rows)
                        },
                    },
                }
            }),
    {
        let rows: Vec<JsonValue> = match self.read_batch() {
            Ok(rows) => rows,
            Err(error) => {
                return Err(error);
            },
        };
        let (fields, columns) = match self.build_columns(&rows) {
            Ok(built) => built,
            Err(error) => {
                return Err(error);
            },
        };
        if columns.len() == 0 {
            return Err(JsonError::NoColumns);
        }
        let ghost all = selected(self.schema()@, self.projection());
        assert forall|i: int| 0 <= i < columns@.len() implies fields@[i]@ == batch_field(
            all[i],
            jsons(rows@),
        ) by {}
        let columns = new_batch(&fields, columns);
        proof {
            assert(batch_fields(columns) =~= Seq::new(
                all.len(),
                |i: int| batch_field(all[i], jsons(rows@)),
            ));
            assert(batch_cells(columns) =~= Seq::new(
                all.len(),
                |i: int| field_cells(all[i], jsons(rows@)),
            ));
        }
        Ok(Some(RecordBatch { schema: self.schema.clone(), columns }))
    }
}

} // verus!
