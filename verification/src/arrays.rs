//! Filling Arrow arrays through the builders of the `arrow` crate.

use crate::casts::{is_finite, is_single};
use crate::cells::{
    cell_bytes, is_item_type, text_bytes, total_item_bytes, total_items, Cell,
};
use crate::data_type::DataType;
use arrow::array::ArrayBuilder;
use arrow::datatypes::DataType as ArrowType;
use vstd::prelude::*;

verus! {

/// An array being built: what `arrow::array::make_builder` gives.
#[verifier::external_body]
pub struct ColumnBuilder {
    inner: Box<dyn ArrayBuilder>,
}

/// A finished array of the `arrow` crate.
#[verifier::external_body]
#[derive(Debug)]
pub struct Array {
    pub inner: arrow::array::ArrayRef,
}

/// The type of the array that a builder builds.
pub uninterp spec fn builder_type(builder: ColumnBuilder) -> DataType;

/// The slots that a builder holds. Of a list builder: the lists that are closed.
pub uninterp spec fn builder_cells(builder: ColumnBuilder) -> Seq<Cell>;

/// The items that a list builder holds for the list that is not closed yet.
pub uninterp spec fn builder_items(builder: ColumnBuilder) -> Seq<Cell>;

/// The type of an array.
pub uninterp spec fn array_type(array: Array) -> DataType;

/// The slots of an array.
pub uninterp spec fn array_cells(array: Array) -> Seq<Cell>;

/// `arrow::array::make_builder` for a type that is no list: an empty builder of arrays of
/// the type.
#[verifier::external_body]
pub(crate) fn new_builder(data_type: &DataType) -> (builder: ColumnBuilder)
    requires
        is_item_type(*data_type),
    ensures
        builder_type(builder) == *data_type,
        builder_cells(builder) == Seq::<Cell>::empty(),
{
    let data_type = match data_type {
        DataType::Boolean => ArrowType::Boolean,
        DataType::Int8 => ArrowType::Int8,
        DataType::Int16 => ArrowType::Int16,
        DataType::Int32 => ArrowType::Int32,
        DataType::Int64 => ArrowType::Int64,
        DataType::UInt8 => ArrowType::UInt8,
        DataType::UInt16 => ArrowType::UInt16,
        DataType::UInt32 => ArrowType::UInt32,
        DataType::UInt64 => ArrowType::UInt64,
        DataType::Float32 => ArrowType::Float32,
        DataType::Float64 => ArrowType::Float64,
        _ => ArrowType::Utf8,
    };
    ColumnBuilder { inner: arrow::array::make_builder(&data_type, 0) }
}

/// `arrow::array::ListBuilder::new`: an empty builder of lists, with an empty builder for
/// their items.
#[verifier::external_body]
pub(crate) fn new_list_builder(items: ColumnBuilder) -> (builder: ColumnBuilder)
    requires
        is_item_type(builder_type(items)),
        builder_cells(items) == Seq::<Cell>::empty(),
    ensures
        builder_type(builder) == DataType::List(Box::new(builder_type(items))),
        builder_cells(builder) == Seq::<Cell>::empty(),
        builder_items(builder) == Seq::<Cell>::empty(),
{
    ColumnBuilder { inner: Box::new(arrow::array::ListBuilder::new(items.inner)) }
}

/// `arrow::array::ListBuilder::append`, with `true`: closes the list of the items that were
/// appended since the last one was closed. The crate panics where the lists then hold more
/// items than a 32-bit offset counts.
#[verifier::external_body]
pub(crate) fn close_list(builder: &mut ColumnBuilder)
    requires
        builder_type(*old(builder)) is List,
        total_items(builder_cells(*old(builder))) + builder_items(*old(builder)).len() <= i32::MAX,
    ensures
        builder_type(*final(builder)) == builder_type(*old(builder)),
        builder_cells(*final(builder)) == builder_cells(*old(builder)).push(
            Cell::List(builder_items(*old(builder))),
        ),
        builder_items(*final(builder)) == Seq::<Cell>::empty(),
{
    let lists = builder.inner.as_any_mut();
    let lists = lists.downcast_mut::<arrow::array::ListBuilder<Box<dyn ArrayBuilder>>>();
    lists.unwrap().append(true);
}

/// `arrow::array::ArrayBuilder::finish`: the array of the slots that were appended.
#[verifier::external_body]
pub(crate) fn finish(builder: ColumnBuilder) -> (array: Array)
    ensures
        array_type(array) == builder_type(builder),
        array_cells(array) == builder_cells(builder),
{
    let mut builder = builder;
    Array { inner: builder.inner.finish() }
}

/// A truth value as a slot.
pub open spec fn bool_slot(value: Option<bool>) -> Cell {
    match value {
        Some(b) => Cell::Bool(b),
        None => Cell::Null,
    }
}

/// A string as a slot.
pub open spec fn str_slot(value: Option<&str>) -> Cell {
    match value {
        Some(s) => Cell::Str(s@),
        None => Cell::Null,
    }
}

/// A double-precision number as a slot.
pub open spec fn double_slot(value: Option<u64>) -> Cell {
    match value {
        Some(bits) => Cell::Double(bits),
        None => Cell::Null,
    }
}

/// A single-precision number as a slot.
pub open spec fn single_slot(value: Option<u32>) -> Cell {
    match value {
        Some(bits) => Cell::Single(bits),
        None => Cell::Null,
    }
}

/// `arrow::array::BooleanBuilder::append_option`: appends a truth value, or a null.
#[verifier::external_body]
pub(crate) fn append_bool(builder: &mut ColumnBuilder, value: Option<bool>)
    requires
        builder_type(*old(builder)) == DataType::Boolean,
    ensures
        builder_type(*final(builder)) == builder_type(*old(builder)),
        builder_cells(*final(builder)) == builder_cells(*old(builder)).push(
            bool_slot(value),
        ),
{
    let slots = builder.inner.as_any_mut().downcast_mut::<arrow::array::BooleanBuilder>();
    slots.unwrap().append_option(value);
}

/// `arrow::array::BooleanBuilder::append_option`, on what `arrow::array::ListBuilder::values`
/// gives: appends a truth value, or a null, to the list that is not closed yet.
#[verifier::external_body]
pub(crate) fn append_bool_item(builder: &mut ColumnBuilder, value: Option<bool>)
    requires
        builder_type(*old(builder)) == DataType::List(Box::new(DataType::Boolean)),
    ensures
        builder_type(*final(builder)) == builder_type(*old(builder)),
        builder_cells(*final(builder)) == builder_cells(*old(builder)),
        builder_items(*final(builder)) == builder_items(*old(builder)).push(
            bool_slot(value),
        ),
{
    let lists = builder.inner.as_any_mut();
    let lists = lists.downcast_mut::<arrow::array::ListBuilder<Box<dyn ArrayBuilder>>>();
    let items = lists.unwrap().values().as_any_mut().downcast_mut::<arrow::array::BooleanBuilder>();
    items.unwrap().append_option(value);
}

/// `arrow::array::Int8Builder::append_option`: appends an `i8`, or a null.
#[verifier::external_body]
pub(crate) fn append_i8(builder: &mut ColumnBuilder, value: Option<i8>)
    requires
        builder_type(*old(builder)) == DataType::Int8,
    ensures
        builder_type(*final(builder)) == builder_type(*old(builder)),
        builder_cells(*final(builder)) == builder_cells(*old(builder)).push(
            match value {
                Some(v) => Cell::Int(v as int),
                None => Cell::Null,
            },
        ),
{
    let slots = builder.inner.as_any_mut().downcast_mut::<arrow::array::Int8Builder>();
    slots.unwrap().append_option(value);
}

/// `arrow::array::Int8Builder::append_option`, on what `arrow::array::ListBuilder::values`
/// gives: appends an `i8`, or a null, to the list that is not closed yet.
#[verifier::external_body]
pub(crate) fn append_i8_item(builder: &mut ColumnBuilder, value: Option<i8>)
    requires
        builder_type(*old(builder)) == DataType::List(Box::new(DataType::Int8)),
    ensures
        builder_type(*final(builder)) == builder_type(*old(builder)),
        builder_cells(*final(builder)) == builder_cells(*old(builder)),
        builder_items(*final(builder)) == builder_items(*old(builder)).push(
            match value {
                Some(v) => Cell::Int(v as int),
                None => Cell::Null,
            },
        ),
{
    let lists = builder.inner.as_any_mut();
    let lists = lists.downcast_mut::<arrow::array::ListBuilder<Box<dyn ArrayBuilder>>>();
    let items = lists.unwrap().values().as_any_mut().downcast_mut::<arrow::array::Int8Builder>();
    items.unwrap().append_option(value);
}

/// `arrow::array::Int16Builder::append_option`: appends an `i16`, or a null.
#[verifier::external_body]
pub(crate) fn append_i16(builder: &mut ColumnBuilder, value: Option<i16>)
    requires
        builder_type(*old(builder)) == DataType::Int16,
    ensures
        builder_type(*final(builder)) == builder_type(*old(builder)),
        builder_cells(*final(builder)) == builder_cells(*old(builder)).push(
            match value {
                Some(v) => Cell::Int(v as int),
                None => Cell::Null,
            },
        ),
{
    let slots = builder.inner.as_any_mut().downcast_mut::<arrow::array::Int16Builder>();
    slots.unwrap().append_option(value);
}

/// `arrow::array::Int16Builder::append_option`, on what `arrow::array::ListBuilder::values`
/// gives: appends an `i16`, or a null, to the list that is not closed yet.
#[verifier::external_body]
pub(crate) fn append_i16_item(builder: &mut ColumnBuilder, value: Option<i16>)
    requires
        builder_type(*old(builder)) == DataType::List(Box::new(DataType::Int16)),
    ensures
        builder_type(*final(builder)) == builder_type(*old(builder)),
        builder_cells(*final(builder)) == builder_cells(*old(builder)),
        builder_items(*final(builder)) == builder_items(*old(builder)).push(
            match value {
                Some(v) => Cell::Int(v as int),
                None => Cell::Null,
            },
        ),
{
    let lists = builder.inner.as_any_mut();
    let lists = lists.downcast_mut::<arrow::array::ListBuilder<Box<dyn ArrayBuilder>>>();
    let items = lists.unwrap().values().as_any_mut().downcast_mut::<arrow::array::Int16Builder>();
    items.unwrap().append_option(value);
}

/// `arrow::array::Int32Builder::append_option`: appends an `i32`, or a null.
#[verifier::external_body]
pub(crate) fn append_i32(builder: &mut ColumnBuilder, value: Option<i32>)
    requires
        builder_type(*old(builder)) == DataType::Int32,
    ensures
        builder_type(*final(builder)) == builder_type(*old(builder)),
        builder_cells(*final(builder)) == builder_cells(*old(builder)).push(
            match value {
                Some(v) => Cell::Int(v as int),
                None => Cell::Null,
            },
        ),
{
    let slots = builder.inner.as_any_mut().downcast_mut::<arrow::array::Int32Builder>();
    slots.unwrap().append_option(value);
}

/// `arrow::array::Int32Builder::append_option`, on what `arrow::array::ListBuilder::values`
/// gives: appends an `i32`, or a null, to the list that is not closed yet.
#[verifier::external_body]
pub(crate) fn append_i32_item(builder: &mut ColumnBuilder, value: Option<i32>)
    requires
        builder_type(*old(builder)) == DataType::List(Box::new(DataType::Int32)),
    ensures
        builder_type(*final(builder)) == builder_type(*old(builder)),
        builder_cells(*final(builder)) == builder_cells(*old(builder)),
        builder_items(*final(builder)) == builder_items(*old(builder)).push(
            match value {
                Some(v) => Cell::Int(v as int),
                None => Cell::Null,
            },
        ),
{
    let lists = builder.inner.as_any_mut();
    let lists = lists.downcast_mut::<arrow::array::ListBuilder<Box<dyn ArrayBuilder>>>();
    let items = lists.unwrap().values().as_any_mut().downcast_mut::<arrow::array::Int32Builder>();
    items.unwrap().append_option(value);
}

/// `arrow::array::Int64Builder::append_option`: appends an `i64`, or a null.
#[verifier::external_body]
pub(crate) fn append_i64(builder: &mut ColumnBuilder, value: Option<i64>)
    requires
        builder_type(*old(builder)) == DataType::Int64,
    ensures
        builder_type(*final(builder)) == builder_type(*old(builder)),
        builder_cells(*final(builder)) == builder_cells(*old(builder)).push(
            match value {
                Some(v) => Cell::Int(v as int),
                None => Cell::Null,
            },
        ),
{
    let slots = builder.inner.as_any_mut().downcast_mut::<arrow::array::Int64Builder>();
    slots.unwrap().append_option(value);
}

/// `arrow::array::Int64Builder::append_option`, on what `arrow::array::ListBuilder::values`
/// gives: appends an `i64`, or a null, to the list that is not closed yet.
#[verifier::external_body]
pub(crate) fn append_i64_item(builder: &mut ColumnBuilder, value: Option<i64>)
    requires
        builder_type(*old(builder)) == DataType::List(Box::new(DataType::Int64)),
    ensures
        builder_type(*final(builder)) == builder_type(*old(builder)),
        builder_cells(*final(builder)) == builder_cells(*old(builder)),
        builder_items(*final(builder)) == builder_items(*old(builder)).push(
            match value {
                Some(v) => Cell::Int(v as int),
                None => Cell::Null,
            },
        ),
{
    let lists = builder.inner.as_any_mut();
    let lists = lists.downcast_mut::<arrow::array::ListBuilder<Box<dyn ArrayBuilder>>>();
    let items = lists.unwrap().values().as_any_mut().downcast_mut::<arrow::array::Int64Builder>();
    items.unwrap().append_option(value);
}

/// `arrow::array::UInt8Builder::append_option`: appends a `u8`, or a null.
#[verifier::external_body]
pub(crate) fn append_u8(builder: &mut ColumnBuilder, value: Option<u8>)
    requires
        builder_type(*old(builder)) == DataType::UInt8,
    ensures
        builder_type(*final(builder)) == builder_type(*old(builder)),
        builder_cells(*final(builder)) == builder_cells(*old(builder)).push(
            match value {
                Some(v) => Cell::Int(v as int),
                None => Cell::Null,
            },
        ),
{
    let slots = builder.inner.as_any_mut().downcast_mut::<arrow::array::UInt8Builder>();
    slots.unwrap().append_option(value);
}

/// `arrow::array::UInt8Builder::append_option`, on what `arrow::array::ListBuilder::values`
/// gives: appends a `u8`, or a null, to the list that is not closed yet.
#[verifier::external_body]
pub(crate) fn append_u8_item(builder: &mut ColumnBuilder, value: Option<u8>)
    requires
        builder_type(*old(builder)) == DataType::List(Box::new(DataType::UInt8)),
    ensures
        builder_type(*final(builder)) == builder_type(*old(builder)),
        builder_cells(*final(builder)) == builder_cells(*old(builder)),
        builder_items(*final(builder)) == builder_items(*old(builder)).push(
            match value {
                Some(v) => Cell::Int(v as int),
                None => Cell::Null,
            },
        ),
{
    let lists = builder.inner.as_any_mut();
    let lists = lists.downcast_mut::<arrow::array::ListBuilder<Box<dyn ArrayBuilder>>>();
    let items = lists.unwrap().values().as_any_mut().downcast_mut::<arrow::array::UInt8Builder>();
    items.unwrap().append_option(value);
}

/// `arrow::array::UInt16Builder::append_option`: appends a `u16`, or a null.
#[verifier::external_body]
pub(crate) fn append_u16(builder: &mut ColumnBuilder, value: Option<u16>)
    requires
        builder_type(*old(builder)) == DataType::UInt16,
    ensures
        builder_type(*final(builder)) == builder_type(*old(builder)),
        builder_cells(*final(builder)) == builder_cells(*old(builder)).push(
            match value {
                Some(v) => Cell::Int(v as int),
                None => Cell::Null,
            },
        ),
{
    let slots = builder.inner.as_any_mut().downcast_mut::<arrow::array::UInt16Builder>();
    slots.unwrap().append_option(value);
}

/// `arrow::array::UInt16Builder::append_option`, on what `arrow::array::ListBuilder::values`
/// gives: appends a `u16`, or a null, to the list that is not closed yet.
#[verifier::external_body]
pub(crate) fn append_u16_item(builder: &mut ColumnBuilder, value: Option<u16>)
    requires
        builder_type(*old(builder)) == DataType::List(Box::new(DataType::UInt16)),
    ensures
        builder_type(*final(builder)) == builder_type(*old(builder)),
        builder_cells(*final(builder)) == builder_cells(*old(builder)),
        builder_items(*final(builder)) == builder_items(*old(builder)).push(
            match value {
                Some(v) => Cell::Int(v as int),
                None => Cell::Null,
            },
        ),
{
    let lists = builder.inner.as_any_mut();
    let lists = lists.downcast_mut::<arrow::array::ListBuilder<Box<dyn ArrayBuilder>>>();
    let items = lists.unwrap().values().as_any_mut().downcast_mut::<arrow::array::UInt16Builder>();
    items.unwrap().append_option(value);
}

/// `arrow::array::UInt32Builder::append_option`: appends a `u32`, or a null.
#[verifier::external_body]
pub(crate) fn append_u32(builder: &mut ColumnBuilder, value: Option<u32>)
    requires
        builder_type(*old(builder)) == DataType::UInt32,
    ensures
        builder_type(*final(builder)) == builder_type(*old(builder)),
        builder_cells(*final(builder)) == builder_cells(*old(builder)).push(
            match value {
                Some(v) => Cell::Int(v as int),
                None => Cell::Null,
            },
        ),
{
    let slots = builder.inner.as_any_mut().downcast_mut::<arrow::array::UInt32Builder>();
    slots.unwrap().append_option(value);
}

/// `arrow::array::UInt32Builder::append_option`, on what `arrow::array::ListBuilder::values`
/// gives: appends a `u32`, or a null, to the list that is not closed yet.
#[verifier::external_body]
pub(crate) fn append_u32_item(builder: &mut ColumnBuilder, value: Option<u32>)
    requires
        builder_type(*old(builder)) == DataType::List(Box::new(DataType::UInt32)),
    ensures
        builder_type(*final(builder)) == builder_type(*old(builder)),
        builder_cells(*final(builder)) == builder_cells(*old(builder)),
        builder_items(*final(builder)) == builder_items(*old(builder)).push(
            match value {
                Some(v) => Cell::Int(v as int),
                None => Cell::Null,
            },
        ),
{
    let lists = builder.inner.as_any_mut();
    let lists = lists.downcast_mut::<arrow::array::ListBuilder<Box<dyn ArrayBuilder>>>();
    let items = lists.unwrap().values().as_any_mut().downcast_mut::<arrow::array::UInt32Builder>();
    items.unwrap().append_option(value);
}

/// `arrow::array::UInt64Builder::append_option`: appends a `u64`, or a null.
#[verifier::external_body]
pub(crate) fn append_u64(builder: &mut ColumnBuilder, value: Option<u64>)
    requires
        builder_type(*old(builder)) == DataType::UInt64,
    ensures
        builder_type(*final(builder)) == builder_type(*old(builder)),
        builder_cells(*final(builder)) == builder_cells(*old(builder)).push(
            match value {
                Some(v) => Cell::Int(v as int),
                None => Cell::Null,
            },
        ),
{
    let slots = builder.inner.as_any_mut().downcast_mut::<arrow::array::UInt64Builder>();
    slots.unwrap().append_option(value);
}

/// `arrow::array::UInt64Builder::append_option`, on what `arrow::array::ListBuilder::values`
/// gives: appends a `u64`, or a null, to the list that is not closed yet.
#[verifier::external_body]
pub(crate) fn append_u64_item(builder: &mut ColumnBuilder, value: Option<u64>)
    requires
        builder_type(*old(builder)) == DataType::List(Box::new(DataType::UInt64)),
    ensures
        builder_type(*final(builder)) == builder_type(*old(builder)),
        builder_cells(*final(builder)) == builder_cells(*old(builder)),
        builder_items(*final(builder)) == builder_items(*old(builder)).push(
            match value {
                Some(v) => Cell::Int(v as int),
                None => Cell::Null,
            },
        ),
{
    let lists = builder.inner.as_any_mut();
    let lists = lists.downcast_mut::<arrow::array::ListBuilder<Box<dyn ArrayBuilder>>>();
    let items = lists.unwrap().values().as_any_mut().downcast_mut::<arrow::array::UInt64Builder>();
    items.unwrap().append_option(value);
}

/// `arrow::array::StringBuilder::append_option`: appends a string, or a null. The crate panics
/// where the strings then take more bytes than a 32-bit offset counts.
#[verifier::external_body]
pub(crate) fn append_str(builder: &mut ColumnBuilder, value: Option<&str>)
    requires
        builder_type(*old(builder)) == DataType::Utf8,
        text_bytes(builder_cells(*old(builder))) + cell_bytes(str_slot(value)) <= i32::MAX,
    ensures
        builder_type(*final(builder)) == builder_type(*old(builder)),
        builder_cells(*final(builder)) == builder_cells(*old(builder)).push(
            str_slot(value),
        ),
{
    let slots = builder.inner.as_any_mut().downcast_mut::<arrow::array::StringBuilder>();
    slots.unwrap().append_option(value);
}

/// `arrow::array::StringBuilder::append_option`, on what `arrow::array::ListBuilder::values`
/// gives: appends a string, or a null, to the list that is not closed yet. The crate panics
/// where the strings then take more bytes than a 32-bit offset counts.
#[verifier::external_body]
pub(crate) fn append_str_item(builder: &mut ColumnBuilder, value: Option<&str>)
    requires
        builder_type(*old(builder)) == DataType::List(Box::new(DataType::Utf8)),
        total_item_bytes(builder_cells(*old(builder))) + text_bytes(builder_items(*old(builder)))
            + cell_bytes(str_slot(value)) <= i32::MAX,
    ensures
        builder_type(*final(builder)) == builder_type(*old(builder)),
        builder_cells(*final(builder)) == builder_cells(*old(builder)),
        builder_items(*final(builder)) == builder_items(*old(builder)).push(
            str_slot(value),
        ),
{
    let lists = builder.inner.as_any_mut();
    let lists = lists.downcast_mut::<arrow::array::ListBuilder<Box<dyn ArrayBuilder>>>();
    let items = lists.unwrap().values().as_any_mut().downcast_mut::<arrow::array::StringBuilder>();
    items.unwrap().append_option(value);
}

/// `arrow::array::Float64Builder::append_option`: appends a double-precision number, or a null.
#[verifier::external_body]
pub(crate) fn append_double(builder: &mut ColumnBuilder, value: Option<u64>)
    requires
        builder_type(*old(builder)) == DataType::Float64,
        value matches Some(bits) ==> is_finite(bits),
    ensures
        builder_type(*final(builder)) == builder_type(*old(builder)),
        builder_cells(*final(builder)) == builder_cells(*old(builder)).push(
            double_slot(value),
        ),
{
    let slots = builder.inner.as_any_mut().downcast_mut::<arrow::array::Float64Builder>();
    let value = value.map(|bits| arrow::buffer::Buffer::from_vec(vec![bits]));
    let value = value.map(|bits| arrow::array::Float64Array::new(bits.into(), None).value(0));
    slots.unwrap().append_option(value);
}

/// `arrow::array::Float64Builder::append_option`, on what `arrow::array::ListBuilder::values`
/// gives: appends a double-precision number, or a null, to the list that is not closed yet.
#[verifier::external_body]
pub(crate) fn append_double_item(builder: &mut ColumnBuilder, value: Option<u64>)
    requires
        builder_type(*old(builder)) == DataType::List(Box::new(DataType::Float64)),
        value matches Some(bits) ==> is_finite(bits),
    ensures
        builder_type(*final(builder)) == builder_type(*old(builder)),
        builder_cells(*final(builder)) == builder_cells(*old(builder)),
        builder_items(*final(builder)) == builder_items(*old(builder)).push(
            double_slot(value),
        ),
{
    let lists = builder.inner.as_any_mut();
    let lists = lists.downcast_mut::<arrow::array::ListBuilder<Box<dyn ArrayBuilder>>>();
    let items = lists.unwrap().values().as_any_mut().downcast_mut::<arrow::array::Float64Builder>();
    let value = value.map(|bits| arrow::buffer::Buffer::from_vec(vec![bits]));
    let value = value.map(|bits| arrow::array::Float64Array::new(bits.into(), None).value(0));
    items.unwrap().append_option(value);
}

/// `arrow::array::Float32Builder::append_option`: appends a single-precision number, or a null.
#[verifier::external_body]
pub(crate) fn append_single(builder: &mut ColumnBuilder, value: Option<u32>)
    requires
        builder_type(*old(builder)) == DataType::Float32,
        value matches Some(bits) ==> is_single(bits),
    ensures
        builder_type(*final(builder)) == builder_type(*old(builder)),
        builder_cells(*final(builder)) == builder_cells(*old(builder)).push(
            single_slot(value),
        ),
{
    let slots = builder.inner.as_any_mut().downcast_mut::<arrow::array::Float32Builder>();
    let value = value.map(|bits| arrow::buffer::Buffer::from_vec(vec![bits]));
    let value = value.map(|bits| arrow::array::Float32Array::new(bits.into(), None).value(0));
    slots.unwrap().append_option(value);
}

/// `arrow::array::Float32Builder::append_option`, on what `arrow::array::ListBuilder::values`
/// gives: appends a single-precision number, or a null, to the list that is not closed yet.
#[verifier::external_body]
pub(crate) fn append_single_item(builder: &mut ColumnBuilder, value: Option<u32>)
    requires
        builder_type(*old(builder)) == DataType::List(Box::new(DataType::Float32)),
        value matches Some(bits) ==> is_single(bits),
    ensures
        builder_type(*final(builder)) == builder_type(*old(builder)),
        builder_cells(*final(builder)) == builder_cells(*old(builder)),
        builder_items(*final(builder)) == builder_items(*old(builder)).push(
            single_slot(value),
        ),
{
    let lists = builder.inner.as_any_mut();
    let lists = lists.downcast_mut::<arrow::array::ListBuilder<Box<dyn ArrayBuilder>>>();
    let items = lists.unwrap().values().as_any_mut().downcast_mut::<arrow::array::Float32Builder>();
    let value = value.map(|bits| arrow::buffer::Buffer::from_vec(vec![bits]));
    let value = value.map(|bits| arrow::array::Float32Array::new(bits.into(), None).value(0));
    items.unwrap().append_option(value);
}

} // verus!
