//! Columns of every type.

use arrow::array::{
    Array as ArrowArray, BooleanArray, Float32Array, Float64Array, Int16Array, Int32Array,
    Int64Array, Int8Array, ListArray, StringArray, UInt16Array, UInt32Array, UInt64Array,
    UInt8Array,
};
use json_reader::arrays::Array;
use json_reader::columns::{
    build_boolean_array, build_boolean_list_array, build_column, build_list_array,
    build_primitive_array, build_string_array, build_string_list_array,
};
use json_reader::data_type::DataType;
use json_reader::error::JsonError;
use json_reader::text::parse;
use json_reader::value::JsonValue;

fn rows(values: &[&str]) -> Vec<JsonValue> {
    values.iter().map(|text| parse(&format!("{{\"v\":{}}}", text)).unwrap()).collect()
}

fn v() -> String {
    "v".to_string()
}

fn is<A: 'static>(array: &Array) -> &A {
    array.inner.as_any().downcast_ref::<A>().unwrap()
}

fn list_of(item: DataType) -> DataType {
    DataType::List(Box::new(item))
}

/// Numbers around the ends of the integer types.
fn numbers() -> Vec<JsonValue> {
    rows(&[
        "-129",
        "-128",
        "127",
        "128",
        "255",
        "256",
        "-32769",
        "32767",
        "65535",
        "65536",
        "-2147483649",
        "2147483647",
        "4294967295",
        "4294967296",
        "-9223372036854775808",
        "9223372036854775807",
        "18446744073709551615",
        "1.5",
        "null",
        "\"1\"",
    ])
}

#[test]
fn booleans() {
    let rows = rows(&["true", "false", "null", "1", "\"true\""]);
    let array = build_boolean_array(&rows, &v());
    let values: Vec<Option<bool>> = is::<BooleanArray>(&array).iter().collect();
    assert_eq!(values, vec![Some(true), Some(false), None, None, None]);
    // a row without the member
    let array = build_boolean_array(&rows, &"w".to_string());
    assert_eq!(array.inner.null_count(), 5);
}

#[test]
fn strings() {
    let rows = rows(&["\"\"", "\"na\u{ef}ve\"", "1", "null", "[\"x\"]"]);
    let array = build_string_array(&rows, &v()).unwrap();
    let values: Vec<Option<&str>> = is::<StringArray>(&array).iter().collect();
    assert_eq!(values, vec![Some(""), Some("na\u{ef}ve"), None, None, None]);
}

#[test]
fn int8_column() {
    let array = build_primitive_array(&DataType::Int8, &numbers(), &v());
    let values: Vec<i8> = is::<Int8Array>(&array).iter().flatten().collect();
    assert_eq!(values, vec![-128, 127]);
    assert_eq!(array.inner.len(), 20);
    assert!(array.inner.is_null(0));
    assert!(array.inner.is_valid(1));
}

#[test]
fn int16_column() {
    let array = build_primitive_array(&DataType::Int16, &numbers(), &v());
    let values: Vec<i16> = is::<Int16Array>(&array).iter().flatten().collect();
    assert_eq!(values, vec![-129, -128, 127, 128, 255, 256, 32767]);
}

#[test]
fn int32_column() {
    let array = build_primitive_array(&DataType::Int32, &numbers(), &v());
    let values: Vec<i32> = is::<Int32Array>(&array).iter().flatten().collect();
    assert_eq!(
        values,
        vec![-129, -128, 127, 128, 255, 256, -32769, 32767, 65535, 65536, 2147483647]
    );
}

#[test]
fn int64_column() {
    let array = build_primitive_array(&DataType::Int64, &numbers(), &v());
    let int64 = is::<Int64Array>(&array);
    assert_eq!(int64.value(14), i64::MIN);
    assert_eq!(int64.value(15), i64::MAX);
    // beyond the type, a fraction, and no number
    assert_eq!(int64.null_count(), 4);
}

#[test]
fn uint8_column() {
    let array = build_primitive_array(&DataType::UInt8, &numbers(), &v());
    let values: Vec<u8> = is::<UInt8Array>(&array).iter().flatten().collect();
    assert_eq!(values, vec![127, 128, 255]);
}

#[test]
fn uint16_column() {
    let array = build_primitive_array(&DataType::UInt16, &numbers(), &v());
    let values: Vec<u16> = is::<UInt16Array>(&array).iter().flatten().collect();
    assert_eq!(values, vec![127, 128, 255, 256, 32767, 65535]);
}

#[test]
fn uint32_column() {
    let array = build_primitive_array(&DataType::UInt32, &numbers(), &v());
    let values: Vec<u32> = is::<UInt32Array>(&array).iter().flatten().collect();
    assert_eq!(values, vec![127, 128, 255, 256, 32767, 65535, 65536, 2147483647, 4294967295]);
}

#[test]
fn uint64_column() {
    let array = build_primitive_array(&DataType::UInt64, &numbers(), &v());
    let uint64 = is::<UInt64Array>(&array);
    assert_eq!(uint64.value(13), 4294967296);
    assert_eq!(uint64.value(15), i64::MAX as u64);
    // an integer beyond `i64::MAX` is read as no integer
    assert!(uint64.is_null(16));
    assert!(uint64.is_null(0));
}

#[test]
fn double_column() {
    let rows = rows(&["2.0", "-3.5", "7", "1e300", "-0.0", "18446744073709551615", "true", "null"]);
    let array = build_primitive_array(&DataType::Float64, &rows, &v());
    let values: Vec<Option<f64>> = is::<Float64Array>(&array).iter().collect();
    assert_eq!(
        values,
        vec![
            Some(2.0),
            Some(-3.5),
            Some(7.0),
            Some(1e300),
            Some(-0.0),
            // an integer beyond `i64::MAX` is read as no integer
            None,
            None,
            None
        ]
    );
    assert!(is::<Float64Array>(&array).value(4).is_sign_negative());
}

#[test]
fn single_column() {
    let rows = rows(&["2.0", "-3.5", "0.1", "7", "1e300", "1152921573326323713", "\"1\""]);
    let array = build_primitive_array(&DataType::Float32, &rows, &v());
    let values: Vec<Option<f32>> = is::<Float32Array>(&array).iter().collect();
    assert_eq!(
        values,
        vec![
            Some(2.0),
            Some(-3.5),
            Some(0.1),
            Some(7.0),
            Some(f32::INFINITY),
            // rounded once, from the integer
            Some(1152921642045800448.0),
            None
        ]
    );
}

/// The lists of a list array, each by the ends of its items.
fn offsets(array: &Array) -> Vec<i32> {
    is::<ListArray>(array).value_offsets().to_vec()
}

#[test]
fn boolean_lists() {
    let mut rows = rows(&["[true, null, 1]", "false", "[]"]);
    rows.push(parse("{}").unwrap());
    let array = build_boolean_list_array(&rows, &v()).unwrap();
    assert_eq!(offsets(&array), vec![0, 3, 4, 4, 4]);
    assert_eq!(array.inner.null_count(), 0);
    let items = is::<ListArray>(&array).values().clone();
    let items = items.as_any().downcast_ref::<BooleanArray>().unwrap();
    let items: Vec<Option<bool>> = items.iter().collect();
    assert_eq!(items, vec![Some(true), None, None, Some(false)]);
}

#[test]
fn string_lists() {
    let rows = rows(&["[\"a\", 1]", "\"bc\"", "[null, \"d\"]"]);
    let array = build_string_list_array(&rows, &v()).unwrap();
    assert_eq!(offsets(&array), vec![0, 2, 3, 5]);
    let items = is::<ListArray>(&array).values().clone();
    let items = items.as_any().downcast_ref::<StringArray>().unwrap();
    let items: Vec<Option<&str>> = items.iter().collect();
    assert_eq!(items, vec![Some("a"), None, Some("bc"), None, Some("d")]);
}

/// The items of a list column over numbers that come one by one and in a list.
fn items(item: DataType) -> arrow::array::ArrayRef {
    let rows = rows(&[
        "[-1, 1.9, -1.9, 127, 128, 255, 256]",
        "40000",
        "[70000, 3000000000, 5000000000, 1e30, null, \"1\", true]",
    ]);
    let array = build_list_array(&item, &rows, &v()).unwrap();
    assert_eq!(offsets(&array), vec![0, 7, 8, 15]);
    is::<ListArray>(&array).values().clone()
}

#[test]
fn int8_lists() {
    let items = items(DataType::Int8);
    let items: Vec<i8> =
        items.as_any().downcast_ref::<Int8Array>().unwrap().iter().flatten().collect();
    assert_eq!(items, vec![-1, 1, -1, 127]);
}

#[test]
fn int16_lists() {
    let items = items(DataType::Int16);
    let items: Vec<i16> =
        items.as_any().downcast_ref::<Int16Array>().unwrap().iter().flatten().collect();
    assert_eq!(items, vec![-1, 1, -1, 127, 128, 255, 256]);
}

#[test]
fn int32_lists() {
    let items = items(DataType::Int32);
    let items: Vec<i32> =
        items.as_any().downcast_ref::<Int32Array>().unwrap().iter().flatten().collect();
    assert_eq!(items, vec![-1, 1, -1, 127, 128, 255, 256, 40000, 70000]);
}

#[test]
fn int64_lists() {
    let items = items(DataType::Int64);
    let items: Vec<Option<i64>> =
        items.as_any().downcast_ref::<Int64Array>().unwrap().iter().collect();
    assert_eq!(items[9..], [Some(3000000000), Some(5000000000), None, None, None, None]);
}

#[test]
fn uint8_lists() {
    let items = items(DataType::UInt8);
    let items: Vec<Option<u8>> =
        items.as_any().downcast_ref::<UInt8Array>().unwrap().iter().collect();
    assert_eq!(
        items[..7],
        [None, Some(1), None, Some(127), Some(128), Some(255), None]
    );
}

#[test]
fn uint16_lists() {
    let items = items(DataType::UInt16);
    let items: Vec<u16> =
        items.as_any().downcast_ref::<UInt16Array>().unwrap().iter().flatten().collect();
    assert_eq!(items, vec![1, 127, 128, 255, 256, 40000]);
}

#[test]
fn uint32_lists() {
    let items = items(DataType::UInt32);
    let items: Vec<u32> =
        items.as_any().downcast_ref::<UInt32Array>().unwrap().iter().flatten().collect();
    assert_eq!(items, vec![1, 127, 128, 255, 256, 40000, 70000, 3000000000]);
}

#[test]
fn uint64_lists() {
    let items = items(DataType::UInt64);
    let items: Vec<u64> =
        items.as_any().downcast_ref::<UInt64Array>().unwrap().iter().flatten().collect();
    assert_eq!(items, vec![1, 127, 128, 255, 256, 40000, 70000, 3000000000, 5000000000]);
}

#[test]
fn fraction_between_zero_and_minus_one_is_cut_off() {
    let rows = rows(&["[-0.9, -1.0]"]);
    let array = build_list_array(&DataType::UInt8, &rows, &v()).unwrap();
    let items = is::<ListArray>(&array).values().clone();
    let items: Vec<Option<u8>> =
        items.as_any().downcast_ref::<UInt8Array>().unwrap().iter().collect();
    assert_eq!(items, vec![Some(0), None]);
}

#[test]
fn double_lists() {
    let items = items(DataType::Float64);
    let items = items.as_any().downcast_ref::<Float64Array>().unwrap();
    assert_eq!(items.value(1), 1.9);
    assert_eq!(items.value(11), 1e30);
    assert_eq!(items.null_count(), 3);
}

#[test]
fn single_lists() {
    let items = items(DataType::Float32);
    let items = items.as_any().downcast_ref::<Float32Array>().unwrap();
    assert_eq!(items.value(1), 1.9);
    assert_eq!(items.value(7), 40000.0);
    assert_eq!(items.null_count(), 3);
}

#[test]
fn column_goes_by_its_type() {
    let rows = rows(&["true"]);
    let array = build_column(&DataType::Boolean, &rows, &v()).unwrap();
    assert_eq!(array.inner.data_type(), &arrow::datatypes::DataType::Boolean);
    let array = build_column(&DataType::Utf8, &rows, &v()).unwrap();
    assert_eq!(array.inner.data_type(), &arrow::datatypes::DataType::Utf8);
    let array = build_column(&DataType::UInt16, &rows, &v()).unwrap();
    assert_eq!(array.inner.data_type(), &arrow::datatypes::DataType::UInt16);
    let array = build_column(&list_of(DataType::Float32), &[].into(), &v()).unwrap();
    assert_eq!(
        array.inner.data_type(),
        &arrow::datatypes::DataType::new_list(arrow::datatypes::DataType::Float32, true)
    );
}

#[test]
fn list_column_that_meets_what_is_no_list() {
    for text in ["null", "{}", "\"x\"", "1"] {
        let built = build_column(&list_of(DataType::Boolean), &rows(&[text]), &v());
        assert!(matches!(built, Err(JsonError::NotScalar)));
    }
    for text in ["null", "{}", "true", "1"] {
        let built = build_column(&list_of(DataType::Utf8), &rows(&[text]), &v());
        assert!(matches!(built, Err(JsonError::NotScalar)));
    }
    for text in ["null", "{}", "true", "\"x\""] {
        let built = build_column(&list_of(DataType::Int64), &rows(&[text]), &v());
        assert!(matches!(built, Err(JsonError::NotScalar)));
    }
}

#[test]
fn types_that_cannot_be_filled() {
    let built = build_column(&DataType::Other, &rows(&["1"]), &v());
    assert!(matches!(built, Err(JsonError::StructType)));
    let built = build_column(&list_of(DataType::Other), &rows(&["[1]"]), &v());
    assert!(matches!(built, Err(JsonError::ListType)));
    let built = build_column(&list_of(list_of(DataType::Int64)), &rows(&["[[1]]"]), &v());
    assert!(matches!(built, Err(JsonError::ListType)));
}

#[test]
fn value_on_its_own_reads_as_a_list_of_one() {
    let lists = build_list_array(&DataType::Int64, &rows(&["[5]", "[-6]"]), &v()).unwrap();
    let scalars = build_list_array(&DataType::Int64, &rows(&["5", "-6"]), &v()).unwrap();
    assert_eq!(&lists.inner, &scalars.inner);
}

#[test]
fn columns_join() {
    let values = ["1", "null", "300", "\"x\"", "-5"];
    let whole = build_primitive_array(&DataType::Int16, &rows(&values), &v());
    let first = build_primitive_array(&DataType::Int16, &rows(&values[..2]), &v());
    let second = build_primitive_array(&DataType::Int16, &rows(&values[2..]), &v());
    let joined: Vec<Option<i16>> =
        is::<Int16Array>(&first).iter().chain(is::<Int16Array>(&second).iter()).collect();
    assert_eq!(is::<Int16Array>(&whole).iter().collect::<Vec<_>>(), joined);
}

#[test]
fn strings_too_long_for_offsets() {
    let text = String::from_utf8(vec![0u8; 1usize << 31]).unwrap();
    let member = ("v".to_string(), JsonValue::String(text));
    let rows = vec![JsonValue::Object(vec![member])];
    let built = build_string_array(&rows, &v());
    assert!(matches!(built, Err(JsonError::OffsetOverflow)));
    let built = build_column(&list_of(DataType::Utf8), &rows, &v());
    assert!(matches!(built, Err(JsonError::OffsetOverflow)));
}

#[test]
fn integers_in_lists_go_through_double_precision() {
    let rows = rows(&["[9007199254740992, 9007199254740993, 9223372036854775807]"]);
    let array = build_list_array(&DataType::Int64, &rows, &v()).unwrap();
    let items = is::<ListArray>(&array).values().clone();
    let items: Vec<Option<i64>> =
        items.as_any().downcast_ref::<Int64Array>().unwrap().iter().collect();
    assert_eq!(items, vec![Some(9007199254740992), Some(9007199254740992), None]);
}

#[test]
fn lists_of_single_precision_go_through_double_precision() {
    let rows = rows(&["[1152921573326323713, 18446744073709551615, 1e300]"]);
    let array = build_list_array(&DataType::Float32, &rows, &v()).unwrap();
    let items = is::<ListArray>(&array).values().clone();
    let items: Vec<Option<f32>> =
        items.as_any().downcast_ref::<Float32Array>().unwrap().iter().collect();
    assert_eq!(
        items,
        vec![Some(1152921504606846976.0), Some(18446744073709551615.0), Some(f32::INFINITY)]
    );
}

#[test]
fn integers_of_double_precision() {
    let rows = rows(&["9007199254740993", "-9223372036854775808"]);
    let array = build_primitive_array(&DataType::Float64, &rows, &v());
    let values = is::<Float64Array>(&array).values().to_vec();
    assert_eq!(values, vec![9007199254740992.0, -9223372036854775808.0]);
}
