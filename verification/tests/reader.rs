//! Reading batches of records.

use arrow::array::{
    Array as ArrowArray, BooleanArray, Float32Array, Float64Array, Int32Array, Int64Array,
    ListArray, StringArray,
};
use json_reader::batch::RecordBatch;
use json_reader::builder::ReaderBuilder;
use json_reader::data_type::{DataType, Field, Schema};
use json_reader::error::JsonError;
use json_reader::reader::Reader;
use std::sync::Arc;

fn lines(text: &[&str]) -> Vec<String> {
    text.iter().map(|line| format!("{}\n", line)).collect()
}

fn basic() -> Vec<String> {
    lines(&[
        r#"{"a":1, "b":2.0, "c":false, "d":"4"}"#,
        r#"{"a":-10, "b":-3.5, "c":true, "d":"4"}"#,
        r#"{"a":2, "b":0.6, "c":false, "d":"text"}"#,
        r#"{"a":1, "b":2.0, "c":false, "d":"4"}"#,
        r#"{"a":7, "b":-3.5, "c":true, "d":"4"}"#,
        r#"{"a":1, "b":0.6, "c":false, "d":"text"}"#,
        r#"{"a":1, "b":2.0, "c":false, "d":"4"}"#,
        r#"{"a":5, "b":-3.5, "c":true, "d":"4"}"#,
        r#"{"a":1, "b":0.6, "c":false, "d":"text"}"#,
        r#"{"a":1, "b":2.0, "c":false, "d":"4"}"#,
        r#"{"a":1, "b":-3.5, "c":true, "d":"4"}"#,
        r#"{"a":100000000000000, "b":0.6, "c":false, "d":"text"}"#,
    ])
}

fn basic_nulls() -> Vec<String> {
    lines(&[
        r#"{"a":1, "b":2.0, "c":false}"#,
        r#"{"b":-3.5, "c":true, "d":"4"}"#,
        r#"{"a":2, "c":false, "d":"text"}"#,
        r#"{"a":1, "b":2.0, "c":false, "d":"4"}"#,
        r#"{"a":7, "b":-3.5, "c":null, "d":null}"#,
        r#"{"a":1, "b":0.6, "c":false}"#,
        r#"{"a":1, "b":2.0, "c":false, "d":"4"}"#,
        r#"{"a":5, "b":-3.5, "c":true, "d":"4"}"#,
        r#"{"a":1, "b":0.6, "c":false}"#,
        r#"{"a":1, "b":2.0, "c":false, "d":"4"}"#,
        r#"{"a":1, "b":-3.5, "c":true, "d":"4"}"#,
        r#"{}"#,
    ])
}

fn arrays() -> Vec<String> {
    lines(&[
        r#"{"a":1, "b":[2.0, 1.3, -6.1], "c":[false, true], "d":"4"}"#,
        r#"{"a":-10, "b":[2.0, 1.3, -6.1], "c":[true, true], "d":"4"}"#,
        r#"{"a":2, "b":[2.0, null, -6.1], "c":[false, null], "d":"text"}"#,
    ])
}

fn column<'a, A: 'static>(batch: &'a RecordBatch, place: usize) -> &'a A {
    batch.columns.inner.column(place).as_any().downcast_ref::<A>().unwrap()
}

fn column_with_name<'a>(schema: &'a Schema, name: &str) -> (usize, &'a Field) {
    let place = schema.fields.iter().position(|field| field.name == name).unwrap();
    (place, &schema.fields[place])
}

fn next_batch(reader: &mut Reader) -> RecordBatch {
    reader.next().unwrap().unwrap()
}

fn read_all(mut reader: Reader) -> RecordBatch {
    next_batch(&mut reader)
}

#[test]
fn test_json_basic() {
    let builder = ReaderBuilder::new().infer_schema(None).with_batch_size(64);
    let mut reader: Reader = builder.build(basic()).unwrap();
    let batch = next_batch(&mut reader);

    assert_eq!(4, batch.columns.inner.num_columns());
    assert_eq!(12, batch.columns.inner.num_rows());

    let schema = &batch.schema;

    let a = column_with_name(schema, "a");
    assert_eq!(&DataType::Int64, &a.1.data_type);
    let b = column_with_name(schema, "b");
    assert_eq!(&DataType::Float64, &b.1.data_type);
    let c = column_with_name(schema, "c");
    assert_eq!(&DataType::Boolean, &c.1.data_type);
    let d = column_with_name(schema, "d");
    assert_eq!(&DataType::Utf8, &d.1.data_type);

    let aa = column::<Int64Array>(&batch, a.0);
    assert_eq!(1, aa.value(0));
    assert_eq!(-10, aa.value(1));
    let bb = column::<Float64Array>(&batch, b.0);
    assert_eq!(2.0, bb.value(0));
    assert_eq!(-3.5, bb.value(1));
    let cc = column::<BooleanArray>(&batch, c.0);
    assert_eq!(false, cc.value(0));
    assert_eq!(true, cc.value(10));
    let dd = column::<StringArray>(&batch, d.0);
    assert_eq!("4", dd.value(0));
    assert_eq!("text", dd.value(8));
}

#[test]
fn test_json_basic_with_nulls() {
    let builder = ReaderBuilder::new().infer_schema(None).with_batch_size(64);
    let mut reader: Reader = builder.build(basic_nulls()).unwrap();
    let batch = next_batch(&mut reader);

    assert_eq!(4, batch.columns.inner.num_columns());
    assert_eq!(12, batch.columns.inner.num_rows());

    let schema = &batch.schema;

    let a = column_with_name(schema, "a");
    assert_eq!(&DataType::Int64, &a.1.data_type);
    let b = column_with_name(schema, "b");
    assert_eq!(&DataType::Float64, &b.1.data_type);
    let c = column_with_name(schema, "c");
    assert_eq!(&DataType::Boolean, &c.1.data_type);
    let d = column_with_name(schema, "d");
    assert_eq!(&DataType::Utf8, &d.1.data_type);

    let aa = column::<Int64Array>(&batch, a.0);
    assert_eq!(true, aa.is_valid(0));
    assert_eq!(false, aa.is_valid(1));
    assert_eq!(false, aa.is_valid(11));
    let bb = column::<Float64Array>(&batch, b.0);
    assert_eq!(true, bb.is_valid(0));
    assert_eq!(false, bb.is_valid(2));
    assert_eq!(false, bb.is_valid(11));
    let cc = column::<BooleanArray>(&batch, c.0);
    assert_eq!(true, cc.is_valid(0));
    assert_eq!(false, cc.is_valid(4));
    assert_eq!(false, cc.is_valid(11));
    let dd = column::<StringArray>(&batch, d.0);
    assert_eq!(false, dd.is_valid(0));
    assert_eq!(true, dd.is_valid(1));
    assert_eq!(false, dd.is_valid(4));
    assert_eq!(false, dd.is_valid(11));
}

#[test]
fn test_json_basic_schema() {
    let schema = Schema::new(vec![
        Field::new("a", DataType::Int32, false),
        Field::new("b", DataType::Float32, false),
        Field::new("c", DataType::Boolean, false),
        Field::new("d", DataType::Utf8, false),
    ]);

    let mut reader: Reader = Reader::new(basic(), Arc::new(schema), 1024, None);
    let batch = next_batch(&mut reader);

    assert_eq!(4, batch.columns.inner.num_columns());
    assert_eq!(12, batch.columns.inner.num_rows());

    let schema = &batch.schema;

    let a = column_with_name(schema, "a");
    assert_eq!(&DataType::Int32, &a.1.data_type);
    let b = column_with_name(schema, "b");
    assert_eq!(&DataType::Float32, &b.1.data_type);
    let c = column_with_name(schema, "c");
    assert_eq!(&DataType::Boolean, &c.1.data_type);
    let d = column_with_name(schema, "d");
    assert_eq!(&DataType::Utf8, &d.1.data_type);

    let aa = column::<Int32Array>(&batch, a.0);
    assert_eq!(1, aa.value(0));
    // test that a 64bit value is returned as null due to overflowing
    assert_eq!(false, aa.is_valid(11));
    let bb = column::<Float32Array>(&batch, b.0);
    assert_eq!(2.0, bb.value(0));
    assert_eq!(-3.5, bb.value(1));
}

#[test]
fn test_json_basic_schema_projection() {
    // We test implicit and explicit projection:
    // Implicit: omitting fields from a schema
    // Explicit: supplying a vec of fields to take
    let schema = Schema::new(vec![
        Field::new("a", DataType::Int32, false),
        Field::new("b", DataType::Float32, false),
        Field::new("c", DataType::Boolean, false),
    ]);

    let mut reader: Reader = Reader::new(
        basic(),
        Arc::new(schema),
        1024,
        Some(vec!["a".to_string(), "c".to_string()]),
    );
    let batch = next_batch(&mut reader);

    assert_eq!(2, batch.columns.inner.num_columns());
    assert_eq!(12, batch.columns.inner.num_rows());

    let schema = &batch.schema;

    let a = column_with_name(schema, "a");
    assert_eq!(&DataType::Int32, &a.1.data_type);
    let c = column_with_name(schema, "c");
    assert_eq!(&DataType::Boolean, &c.1.data_type);
}

#[test]
fn test_json_arrays() {
    let builder = ReaderBuilder::new().infer_schema(None).with_batch_size(64);
    let mut reader: Reader = builder.build(arrays()).unwrap();
    let batch = next_batch(&mut reader);

    assert_eq!(4, batch.columns.inner.num_columns());
    assert_eq!(3, batch.columns.inner.num_rows());

    let schema = &batch.schema;

    let a = column_with_name(schema, "a");
    assert_eq!(&DataType::Int64, &a.1.data_type);
    let b = column_with_name(schema, "b");
    assert_eq!(&DataType::List(Box::new(DataType::Float64)), &b.1.data_type);
    let c = column_with_name(schema, "c");
    assert_eq!(&DataType::List(Box::new(DataType::Boolean)), &c.1.data_type);
    let d = column_with_name(schema, "d");
    assert_eq!(&DataType::Utf8, &d.1.data_type);

    let aa = column::<Int64Array>(&batch, a.0);
    assert_eq!(1, aa.value(0));
    assert_eq!(-10, aa.value(1));
    let bb = column::<ListArray>(&batch, b.0);
    let bb = bb.values();
    let bb = bb.as_any().downcast_ref::<Float64Array>().unwrap();
    assert_eq!(9, bb.len());
    assert_eq!(2.0, bb.value(0));
    assert_eq!(-6.1, bb.value(5));
    assert_eq!(false, bb.is_valid(7));

    let cc = column::<ListArray>(&batch, c.0);
    let cc = cc.values();
    let cc = cc.as_any().downcast_ref::<BooleanArray>().unwrap();
    assert_eq!(6, cc.len());
    assert_eq!(false, cc.value(0));
    assert_eq!(false, cc.value(4));
    assert_eq!(false, cc.is_valid(5));
}

#[test]
#[should_panic(expected = "Not valid JSON")]
fn test_invalid_file() {
    let builder = ReaderBuilder::new().infer_schema(None).with_batch_size(64);
    let file = lines(&[
        "city,lat,lng",
        "\"Elgin, Scotland, the UK\",57.653484,-3.335724",
    ]);
    match builder.build(file) {
        Ok(mut reader) => {
            let _ = reader.next().unwrap().unwrap();
        }
        Err(error) => panic!("{}", error.message()),
    }
}

fn one_column(name: &str, data_type: DataType) -> Arc<Schema> {
    Arc::new(Schema::new(vec![Field::new(name, data_type, true)]))
}

#[test]
fn batches_follow_on() {
    let schema = one_column("a", DataType::Int64);
    let mut reader = Reader::new(basic(), schema.clone(), 5, None);
    let mut sizes: Vec<usize> = Vec::new();
    let mut values: Vec<i64> = Vec::new();
    for _ in 0..4 {
        let batch = next_batch(&mut reader);
        sizes.push(batch.columns.inner.num_rows());
        values.extend(column::<Int64Array>(&batch, 0).values().iter());
    }
    assert_eq!(sizes, vec![5, 5, 2, 0]);

    let batch = read_all(Reader::new(basic(), schema, 1024, None));
    assert_eq!(values, column::<Int64Array>(&batch, 0).values().to_vec());
}

#[test]
fn batch_size_makes_no_difference() {
    let schema = one_column("d", DataType::Utf8);
    let whole = read_all(Reader::new(basic(), schema.clone(), 12, None));
    let whole: Vec<Option<&str>> = column::<StringArray>(&whole, 0).iter().collect();
    for batch_size in 1..14 {
        let mut reader = Reader::new(basic(), schema.clone(), batch_size, None);
        let mut joined: Vec<Option<String>> = Vec::new();
        loop {
            let batch = next_batch(&mut reader);
            if batch.columns.inner.num_rows() == 0 {
                break;
            }
            let cells = column::<StringArray>(&batch, 0);
            joined.extend(cells.iter().map(|cell| cell.map(|text| text.to_string())));
        }
        let joined: Vec<Option<&str>> = joined.iter().map(|cell| cell.as_deref()).collect();
        assert_eq!(joined, whole);
    }
}

#[test]
fn empty_line_ends_a_batch() {
    let mut text = lines(&[r#"{"a":1}"#, r#"{"a":2}"#]);
    text.insert(1, String::new());
    let mut reader = Reader::new(text, one_column("a", DataType::Int64), 10, None);
    let batch = next_batch(&mut reader);
    assert_eq!(column::<Int64Array>(&batch, 0).values().to_vec(), vec![1]);
    let batch = next_batch(&mut reader);
    assert_eq!(column::<Int64Array>(&batch, 0).values().to_vec(), vec![2]);
}

#[test]
fn batch_size_of_zero() {
    let mut reader = Reader::new(basic(), one_column("a", DataType::Int64), 0, None);
    let batch = next_batch(&mut reader);
    assert_eq!(batch.columns.inner.num_rows(), 0);
    assert_eq!(batch.columns.inner.column(0).len(), 0);
    assert!(!reader.wants_line());
}

#[test]
fn lines_handed_in_one_by_one() {
    let mut reader = Reader::new(Vec::new(), one_column("a", DataType::Int64), 2, None);
    let mut source = lines(&[r#"{"a":1}"#, r#"{"a":2}"#, r#"{"a":3}"#]).into_iter();
    let mut read: Vec<Vec<i64>> = Vec::new();
    for _ in 0..3 {
        while reader.wants_line() {
            reader.push_line(source.next().unwrap_or(String::new()));
        }
        let batch = next_batch(&mut reader);
        read.push(column::<Int64Array>(&batch, 0).values().to_vec());
    }
    assert_eq!(read, vec![vec![1, 2], vec![3], vec![]]);
}

#[test]
fn line_that_is_no_json() {
    let text = lines(&[r#"{"a":1}"#, r#"{"a":"#, r#"{"a":3}"#]);
    let mut reader = Reader::new(text, one_column("a", DataType::Int64), 10, None);
    assert!(matches!(reader.next(), Err(JsonError::NotValidJson)));
    // the line is left behind
    let batch = next_batch(&mut reader);
    assert_eq!(column::<Int64Array>(&batch, 0).values().to_vec(), vec![3]);
}

#[test]
fn rows_that_are_no_records() {
    let text = lines(&["1", "null", r#"[{"a":1}]"#, r#"{"a":4}"#]);
    let batch = read_all(Reader::new(text, one_column("a", DataType::Int64), 10, None));
    let a = column::<Int64Array>(&batch, 0);
    assert_eq!(a.iter().collect::<Vec<_>>(), vec![None, None, None, Some(4)]);
}

#[test]
fn error_of_the_first_column_that_fails() {
    let schema = Arc::new(Schema::new(vec![
        Field::new("a", DataType::Int64, true),
        Field::new("b", DataType::List(Box::new(DataType::Boolean)), true),
        Field::new("c", DataType::Other, true),
    ]));
    let text = lines(&[r#"{"a":1, "b":"x"}"#]);
    let all = Reader::new(text.clone(), schema.clone(), 10, None).next();
    assert!(matches!(all, Err(JsonError::NotScalar)));
    let c = Reader::new(text.clone(), schema.clone(), 10, Some(vec!["c".to_string()])).next();
    assert!(matches!(c, Err(JsonError::StructType)));
    let a = Reader::new(text, schema, 10, Some(vec!["a".to_string()])).next();
    assert_eq!(a.unwrap().unwrap().columns.inner.num_columns(), 1);
}

#[test]
fn no_column_selected() {
    let schema = one_column("a", DataType::Int64);
    let names = Some(vec!["z".to_string()]);
    let read = Reader::new(basic(), schema, 10, names).next();
    assert!(matches!(read, Err(JsonError::NoColumns)));
    let read = Reader::new(basic(), Arc::new(Schema::new(vec![])), 10, None).next();
    assert!(matches!(read, Err(JsonError::NoColumns)));
}

#[test]
fn projection_keeps_the_order_of_the_schema() {
    let schema = Arc::new(Schema::new(vec![
        Field::new("a", DataType::Int64, true),
        Field::new("b", DataType::Float64, true),
        Field::new("c", DataType::Boolean, true),
    ]));
    let names = vec!["c".to_string(), "a".to_string(), "c".to_string()];
    let batch = read_all(Reader::new(basic(), schema.clone(), 10, Some(names)));
    assert_eq!(batch.columns.inner.num_columns(), 2);
    assert_eq!(column::<Int64Array>(&batch, 0).value(1), -10);
    assert_eq!(column::<BooleanArray>(&batch, 1).value(1), true);
    assert_eq!(batch.columns.inner.schema().field(0).name(), "a");
    assert_eq!(batch.columns.inner.schema().field(1).name(), "c");
    // the schema of the batch is that of the reader
    assert_eq!(batch.schema.fields.len(), 3);
    assert_eq!(batch.schema.fields[1].name, "b");
    // a projection that names nothing selects everything
    let batch = read_all(Reader::new(basic(), schema, 10, Some(vec![])));
    assert_eq!(batch.columns.inner.num_columns(), 3);
}

#[test]
fn columns_with_nulls_are_nullable() {
    let schema = Arc::new(Schema::new(vec![
        Field::new("a", DataType::Int8, false),
        Field::new("b", DataType::Int64, false),
        Field::new("c", DataType::Int64, true),
    ]));
    let text = lines(&[r#"{"a":1000, "b":1000, "c":1000}"#]);
    let batch = read_all(Reader::new(text, schema, 10, None));
    assert!(batch.columns.inner.schema().field(0).is_nullable());
    assert!(!batch.columns.inner.schema().field(1).is_nullable());
    assert!(batch.columns.inner.schema().field(2).is_nullable());
    assert_eq!(batch.columns.inner.column(0).null_count(), 1);
    // in the schema of the batch they are what was asked for
    assert!(!batch.schema.fields[0].nullable);
}
