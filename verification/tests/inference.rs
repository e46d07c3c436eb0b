//! Inferring schemas, and setting up readers.

use json_reader::builder::ReaderBuilder;
use json_reader::data_type::{DataType, Field, Schema};
use json_reader::error::JsonError;
use json_reader::infer::{infer_json_schema, SchemaInference};
use json_reader::reader::Reader;
use json_reader::text::parse;
use json_reader::types::{
    coerce_data_type, find_nested_list, generate_schema, ColumnTypes, TypeTable,
};
use json_reader::value::JsonValue;
use std::sync::Arc;

fn lines(text: &[&str]) -> Vec<String> {
    text.iter().map(|line| format!("{}\n", line)).collect()
}

fn list_of(item: DataType) -> DataType {
    DataType::List(Box::new(item))
}

/// The names and types of the fields, sorted by name.
fn inferred(text: &[&str], max_records: Option<usize>) -> Vec<(String, DataType)> {
    sorted(infer_json_schema(&lines(text), max_records).unwrap())
}

fn sorted(schema: Schema) -> Vec<(String, DataType)> {
    let mut fields: Vec<(String, DataType)> = Vec::new();
    for field in schema.fields {
        assert!(field.nullable);
        fields.push((field.name, field.data_type));
    }
    fields.sort_by(|a, b| a.0.cmp(&b.0));
    fields
}

fn type_of(text: &str) -> Vec<(String, DataType)> {
    inferred(&[&format!("{{\"v\":{}}}", text)], None)
}

fn only(data_type: DataType) -> Vec<(String, DataType)> {
    vec![("v".to_string(), data_type)]
}

#[test]
fn coercion() {
    assert_eq!(coerce_data_type(&vec![DataType::Boolean], false), DataType::Boolean);
    let numbers = vec![DataType::Int64, DataType::Float64];
    assert_eq!(coerce_data_type(&numbers, false), DataType::Float64);
    let numbers = vec![DataType::Float64, DataType::Int64];
    assert_eq!(coerce_data_type(&numbers, false), DataType::Float64);
    assert_eq!(coerce_data_type(&numbers, true), list_of(DataType::Float64));
    let mixed = vec![DataType::Boolean, DataType::Int64];
    assert_eq!(coerce_data_type(&mixed, false), DataType::Utf8);
    assert_eq!(coerce_data_type(&vec![], true), list_of(DataType::Utf8));
    let three = vec![DataType::Float64, DataType::Int64, DataType::Boolean];
    assert_eq!(coerce_data_type(&three, false), DataType::Utf8);
}

#[test]
fn types_of_scalars() {
    assert_eq!(type_of("true"), only(DataType::Boolean));
    assert_eq!(type_of("\"x\""), only(DataType::Utf8));
    assert_eq!(type_of("-1"), only(DataType::Int64));
    assert_eq!(type_of("1.0"), only(DataType::Float64));
    assert_eq!(type_of("1e3"), only(DataType::Float64));
    // an integer beyond `i64::MAX` still speaks for `Int64`, beyond `u64::MAX` no longer
    assert_eq!(type_of("18446744073709551615"), only(DataType::Int64));
    assert_eq!(type_of("18446744073709551616"), only(DataType::Float64));
    assert_eq!(type_of("null"), vec![]);
    assert_eq!(type_of("{\"a\":1}"), vec![]);
}

#[test]
fn types_of_lists() {
    assert_eq!(type_of("[1, 2, null, 3]"), only(list_of(DataType::Int64)));
    assert_eq!(type_of("[1, 2.5]"), only(list_of(DataType::Float64)));
    assert_eq!(type_of("[1, true]"), only(list_of(DataType::Utf8)));
    assert_eq!(type_of("[true, false]"), only(list_of(DataType::Boolean)));
    // the order of the items makes no difference
    assert_eq!(type_of("[1, 2.5, 3]"), only(list_of(DataType::Float64)));
    assert_eq!(type_of("[1, 3, 2.5]"), only(list_of(DataType::Float64)));
    assert_eq!(type_of("[true, 1, true]"), only(list_of(DataType::Utf8)));
    // in a list, an integer beyond `i64::MAX` speaks for `Float64`
    assert_eq!(type_of("[18446744073709551615]"), only(list_of(DataType::Float64)));
    assert_eq!(type_of("[]"), only(list_of(DataType::Utf8)));
    assert_eq!(type_of("[null, null]"), only(list_of(DataType::Utf8)));
}

#[test]
fn types_over_several_records() {
    let text = [r#"{"a":1, "b":[1], "c":1}"#, r#"{"a":2.5, "b":1, "d":null}"#, "17", "[]"];
    let expected = vec![
        ("a".to_string(), DataType::Float64),
        ("b".to_string(), DataType::Utf8),
        ("c".to_string(), DataType::Int64),
    ];
    assert_eq!(inferred(&text, None), expected);
    let mut backwards = text;
    backwards.reverse();
    assert_eq!(inferred(&backwards, None), expected);
    let twice = [text, text].concat();
    assert_eq!(inferred(&twice, None), expected);
}

#[test]
fn limited_records() {
    let text = [r#"{"a":1}"#, r#"{"a":2.5}"#, "oops"];
    assert_eq!(inferred(&text, Some(0)), vec![]);
    assert_eq!(inferred(&text, Some(1)), vec![("a".to_string(), DataType::Int64)]);
    assert_eq!(inferred(&text, Some(2)), vec![("a".to_string(), DataType::Float64)]);
    assert!(matches!(infer_json_schema(&lines(&text), Some(3)), Err(JsonError::NotValidJson)));
}

#[test]
fn white_space_around_a_record() {
    let text = ["\u{a0}\u{3000} {\"a\":1}\t\u{2009}\r"];
    assert_eq!(inferred(&text, None), vec![("a".to_string(), DataType::Int64)]);
    // in reading only the white space of JSON is passed over
    let mut reader = ReaderBuilder::new().build(lines(&text)).unwrap();
    assert!(matches!(reader.next(), Err(JsonError::NotValidJson)));
    let mut reader = ReaderBuilder::new().build(lines(&["\t {\"a\":1} \r"])).unwrap();
    assert_eq!(reader.next().unwrap().unwrap().columns.inner.num_rows(), 1);
    // a line of white space is no record
    assert!(matches!(infer_json_schema(&lines(&[" "]), None), Err(JsonError::NotValidJson)));
}

#[test]
fn inference_stops_at_an_empty_line() {
    let mut text = lines(&[r#"{"a":1}"#, r#"{"b":1}"#]);
    text.insert(1, String::new());
    let fields = sorted(infer_json_schema(&text, None).unwrap());
    assert_eq!(fields, vec![("a".to_string(), DataType::Int64)]);
}

#[test]
fn nested_lists_are_refused() {
    let text = lines(&[r#"{"a":[[1]]}"#]);
    assert!(matches!(infer_json_schema(&text, None), Err(JsonError::NestedList)));
    let text = lines(&[r#"{"a":[1, {}]}"#]);
    assert!(matches!(infer_json_schema(&text, None), Err(JsonError::NestedList)));
    assert!(find_nested_list(&parse(r#"{"a":1, "b":[[]]}"#).unwrap()));
    // an object outside of a list is passed over
    assert!(!find_nested_list(&parse(r#"{"a":{"b":[[1]]}}"#).unwrap()));
    assert!(!find_nested_list(&parse("[[1]]").unwrap()));
}

#[test]
fn inference_line_by_line() {
    let mut inference = SchemaInference::new(Some(2));
    assert!(inference.wants_line());
    inference.push_line("{\"a\":1}\n").unwrap();
    // a line that cannot be taken in leaves everything as it was
    assert_eq!(inference.push_line("{\"a\":\n"), Err(JsonError::NotValidJson));
    assert_eq!(inference.push_line("{\"z\":[[1]]}\n"), Err(JsonError::NestedList));
    assert!(inference.wants_line());
    inference.push_line("{\"a\":true}\n").unwrap();
    assert!(!inference.wants_line());
    assert_eq!(sorted(inference.finish()), vec![("a".to_string(), DataType::Utf8)]);

    let mut inference = SchemaInference::new(None);
    inference.push_line("").unwrap();
    assert!(!inference.wants_line());
}

#[test]
fn table_of_types() {
    let mut table = TypeTable::new();
    table.observe_record(&parse(r#"{"a":1, "b":null}"#).unwrap());
    table.observe(&"a".to_string(), DataType::Int64);
    table.observe(&"c".to_string(), DataType::Boolean);
    let expected = vec![
        ("a".to_string(), DataType::Int64),
        ("c".to_string(), DataType::Boolean),
    ];
    assert_eq!(sorted(generate_schema(table)), expected);
}

#[test]
fn name_without_types_is_one_of_text() {
    let column = ColumnTypes { name: "a".to_string(), types: vec![] };
    let schema = generate_schema(TypeTable { columns: vec![column] });
    assert_eq!(sorted(schema), vec![("a".to_string(), DataType::Utf8)]);
}

#[test]
fn limit_is_a_prefix() {
    let text = [r#"{"a":1}"#, r#"{"a":true, "b":1}"#, r#"{"c":[1]}"#];
    for n in 0..4 {
        assert_eq!(inferred(&text, Some(n)), inferred(&text[..n], None));
    }
}

#[test]
fn values_of_json() {
    let value = parse(r#"{"a":true, "b":"x", "c":-2.5, "d":[1], "a":false}"#).unwrap();
    // of two members with one name the last one counts
    assert_eq!(value.get(&"a".to_string()).unwrap().as_bool(), Some(false));
    assert_eq!(value.get(&"b".to_string()).unwrap().as_str(), Some("x"));
    let c = value.get(&"c".to_string()).unwrap().as_number().unwrap();
    assert_eq!(c.as_i64, None);
    assert!(c.is_f64);
    assert_eq!(c.as_f64, Some((-2.5f64).to_bits()));
    assert!(matches!(value.get(&"d".to_string()), Some(JsonValue::Array(_))));
    assert!(value.get(&"e".to_string()).is_none());
    assert!(parse("1").unwrap().get(&"a".to_string()).is_none());
    assert!(matches!(parse("{} {}"), Err(JsonError::NotValidJson)));
}

#[test]
fn data_types_are_compared() {
    let types = [
        DataType::Boolean,
        DataType::Int8,
        DataType::Int16,
        DataType::Int32,
        DataType::Int64,
        DataType::UInt8,
        DataType::UInt16,
        DataType::UInt32,
        DataType::UInt64,
        DataType::Float32,
        DataType::Float64,
        DataType::Utf8,
        DataType::Other,
        list_of(DataType::Int8),
        list_of(list_of(DataType::Int8)),
    ];
    for i in 0..types.len() {
        for j in 0..types.len() {
            assert_eq!(types[i].is_same(&types[j].clone()), i == j);
        }
    }
}

#[test]
fn messages() {
    assert_eq!(JsonError::NotValidJson.message(), "Not valid JSON");
    assert_eq!(JsonError::NestedList.message(), "Nested lists and structs not supported");
    assert_eq!(
        JsonError::NotScalar.message(),
        "Only scalars are currently supported in JSON arrays"
    );
    assert_eq!(
        JsonError::ListType.message(),
        "Data type is currently not supported in a list"
    );
    assert_eq!(JsonError::StructType.message(), "struct types are not yet supported");
    assert_eq!(JsonError::OffsetOverflow.message(), "Column is too long for 32-bit offsets");
    assert_eq!(JsonError::NoColumns.message(), "At least one column must be defined");
}

fn schema_of_a() -> Arc<Schema> {
    Arc::new(Schema::new(vec![Field::new("a", DataType::Float64, false)]))
}

fn read(mut reader: Reader) -> (Vec<String>, usize) {
    let batch = reader.next().unwrap().unwrap().columns.inner;
    let names = batch.schema().fields().iter().map(|field| field.name().clone()).collect();
    (names, batch.num_rows())
}

#[test]
fn builder_with_schema() {
    let text = lines(&[r#"{"a":1, "b":2}"#]);
    let builder = ReaderBuilder::new().with_schema(schema_of_a());
    assert!(builder.inference().is_none());
    let names = vec!["a".to_string()];
    assert_eq!(read(builder.build(text).unwrap()), (names, 1));
}

#[test]
fn builder_that_infers_forgets_the_schema() {
    let text = lines(&[r#"{"a":1, "b":2}"#, r#"{"c":3}"#]);
    let builder = ReaderBuilder::new().with_schema(schema_of_a()).infer_schema(Some(1));
    assert!(builder.inference().is_some());
    let names = vec!["a".to_string(), "b".to_string()];
    assert_eq!(read(builder.build(text.clone()).unwrap()), (names, 2));
    // a schema that is set last is the one that counts
    let builder = ReaderBuilder::new().infer_schema(Some(1)).with_schema(schema_of_a());
    let names = vec!["a".to_string()];
    assert_eq!(read(builder.build(text).unwrap()), (names, 2));
}

#[test]
fn builder_defaults() {
    let text: Vec<String> = (0..2000).map(|i| format!("{{\"a\":{}}}\n", i)).collect();
    let names = vec!["a".to_string()];
    let reader = ReaderBuilder::default().build(text.clone()).unwrap();
    assert_eq!(read(reader), (names.clone(), 1024));
    let reader = ReaderBuilder::new().with_batch_size(3).build(text).unwrap();
    assert_eq!(read(reader), (names, 3));
}

#[test]
fn builder_with_projection() {
    let text = lines(&[r#"{"a":1, "b":2, "c":3}"#]);
    let names = vec!["c".to_string(), "b".to_string()];
    let builder = ReaderBuilder::new().with_projection(names).infer_schema(None);
    let names = vec!["b".to_string(), "c".to_string()];
    assert_eq!(read(builder.build(text).unwrap()), (names, 1));
}

#[test]
fn builder_that_cannot_infer() {
    let built = ReaderBuilder::new().build(lines(&["oops"]));
    assert!(matches!(built, Err(JsonError::NotValidJson)));
}
