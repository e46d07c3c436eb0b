//! Filling the columns of a batch from the rows that were read.

use crate::arrays::{
    append_bool, append_bool_item, append_double, append_double_item, append_i16, append_i16_item,
    append_i32, append_i32_item, append_i64, append_i64_item, append_i8, append_i8_item,
    append_single, append_single_item, append_str, append_str_item, append_u16, append_u16_item,
    append_u32, append_u32_item, append_u64, append_u64_item, append_u8, append_u8_item,
    array_cells, array_type, builder_cells, builder_items, builder_type, close_list, double_slot,
    finish, new_builder, new_list_builder, single_slot, Array, ColumnBuilder,
};
use crate::casts::{
    cast_double, cast_i16, cast_i32, cast_i64, cast_i8, cast_single, cast_u16, cast_u32, cast_u64,
    cast_u8, is_finite, is_single, narrow, truncate,
};
use crate::cells::{
    all_listable, cell_bytes, column_cells, int_cell, is_float_type, is_int_type, is_item_type,
    is_listable, item_cell, item_cells, items_of, list_values, overflows, scalar_cell, text_bytes,
    total_item_bytes, total_items, Cell,
};
use crate::data_type::DataType;
use crate::error::JsonError;
use crate::value::{
    all_sound, is_sound, jsons, lemma_member_sound, member, number_of, Json, JsonValue,
};
use vstd::prelude::*;

verus! {

/// Whether a value that may be absent holds none but numbers that JSON can spell.
spec fn is_held_sound(value: Option<&JsonValue>) -> bool {
    match value {
        Some(value) => is_sound(value@),
        None => true,
    }
}

/// What is held by a value that may be absent.
spec fn held(value: Option<&JsonValue>) -> Option<Json> {
    match value {
        Some(value) => Some(value@),
        None => None,
    }
}

/// The integer, if there is one, as a cell of the type.
spec fn opt_int_cell(data_type: DataType, v: Option<i128>) -> Cell {
    match v {
        Some(v) => int_cell(data_type, v as int),
        None => Cell::Null,
    }
}

/// Appends an integer, or a null where there is none or it does not fit the type, as
/// a slot.
fn append_int(builder: &mut ColumnBuilder, data_type: &DataType, v: Option<i128>)
    requires
        is_int_type(*data_type),
        builder_type(*old(builder)) == *data_type,
    ensures
        builder_type(*final(builder)) == builder_type(*old(builder)),
        builder_cells(*final(builder)) == builder_cells(*old(builder)).push(
            opt_int_cell(*data_type, v),
        ),
{
    match data_type {
        DataType::Int8 => {
            let cast: Option<i8> = match v {
                Some(v) => cast_i8(v),
                None => None,
            };
            append_i8(builder, cast);
        },
        DataType::Int16 => {
            let cast: Option<i16> = match v {
                Some(v) => cast_i16(v),
                None => None,
            };
            append_i16(builder, cast);
        },
        DataType::Int32 => {
            let cast: Option<i32> = match v {
                Some(v) => cast_i32(v),
                None => None,
            };
            append_i32(builder, cast);
        },
        DataType::Int64 => {
            let cast: Option<i64> = match v {
                Some(v) => cast_i64(v),
                None => None,
            };
            append_i64(builder, cast);
        },
        DataType::UInt8 => {
            let cast: Option<u8> = match v {
                Some(v) => cast_u8(v),
                None => None,
            };
            append_u8(builder, cast);
        },
        DataType::UInt16 => {
            let cast: Option<u16> = match v {
                Some(v) => cast_u16(v),
                None => None,
            };
            append_u16(builder, cast);
        },
        DataType::UInt32 => {
            let cast: Option<u32> = match v {
                Some(v) => cast_u32(v),
                None => None,
            };
            append_u32(builder, cast);
        },
        DataType::UInt64 => {
            let cast: Option<u64> = match v {
                Some(v) => cast_u64(v),
                None => None,
            };
            append_u64(builder, cast);
        },
        _ => {},
    }
}

/// Appends an integer, or a null where there is none or it does not fit the type, as
/// an item of the list that is not closed yet.
fn append_int_item(builder: &mut ColumnBuilder, data_type: &DataType, v: Option<i128>)
    requires
        is_int_type(*data_type),
        builder_type(*old(builder)) == DataType::List(Box::new(*data_type)),
    ensures
        builder_type(*final(builder)) == builder_type(*old(builder)),
        builder_cells(*final(builder)) == builder_cells(*old(builder)),
        builder_items(*final(builder)) == builder_items(*old(builder)).push(
            opt_int_cell(*data_type, v),
        ),
{
    match data_type {
        DataType::Int8 => {
            let cast: Option<i8> = match v {
                Some(v) => cast_i8(v),
                None => None,
            };
            append_i8_item(builder, cast);
        },
        DataType::Int16 => {
            let cast: Option<i16> = match v {
                Some(v) => cast_i16(v),
                None => None,
            };
            append_i16_item(builder, cast);
        },
        DataType::Int32 => {
            let cast: Option<i32> = match v {
                Some(v) => cast_i32(v),
                None => None,
            };
            append_i32_item(builder, cast);
        },
        DataType::Int64 => {
            let cast: Option<i64> = match v {
                Some(v) => cast_i64(v),
                None => None,
            };
            append_i64_item(builder, cast);
        },
        DataType::UInt8 => {
            let cast: Option<u8> = match v {
                Some(v) => cast_u8(v),
                None => None,
            };
            append_u8_item(builder, cast);
        },
        DataType::UInt16 => {
            let cast: Option<u16> = match v {
                Some(v) => cast_u16(v),
                None => None,
            };
            append_u16_item(builder, cast);
        },
        DataType::UInt32 => {
            let cast: Option<u32> = match v {
                Some(v) => cast_u32(v),
                None => None,
            };
            append_u32_item(builder, cast);
        },
        DataType::UInt64 => {
            let cast: Option<u64> = match v {
                Some(v) => cast_u64(v),
                None => None,
            };
            append_u64_item(builder, cast);
        },
        _ => {},
    }
}

/// Appends what a row has for a column as a slot.
fn append_scalar(builder: &mut ColumnBuilder, data_type: &DataType, value: Option<&JsonValue>)
    requires
        is_item_type(*data_type),
        is_float_type(*data_type) ==> is_held_sound(value),
        builder_type(*old(builder)) == *data_type,
        *data_type is Utf8 ==> text_bytes(builder_cells(*old(builder))) + cell_bytes(
            scalar_cell(*data_type, held(value)),
        ) <= i32::MAX,
    ensures
        builder_type(*final(builder)) == builder_type(*old(builder)),
        builder_cells(*final(builder)) == builder_cells(*old(builder)).push(
            scalar_cell(*data_type, held(value)),
        ),
{
    match data_type {
        DataType::Boolean => {
            let truth: Option<bool> = match value {
                Some(value) => value.as_bool(),
                None => None,
            };
            append_bool(builder, truth);
        },
        DataType::Utf8 => {
            let text: Option<&str> = match value {
                Some(value) => value.as_str(),
                None => None,
            };
            append_str(builder, text);
        },
        DataType::Float32 => {
            let bits: Option<u32> = match value {
                Some(value) => scalar_single(value),
                None => None,
            };
            append_single(builder, bits);
        },
        DataType::Float64 => {
            let bits: Option<u64> = match value {
                Some(value) => scalar_double(value),
                None => None,
            };
            append_double(builder, bits);
        },
        _ => {
            let v: Option<i128> = match value {
                Some(value) => match value.as_number() {
                    Some(n) => match n.as_i64 {
                        Some(v) => Some(v as i128),
                        None => None,
                    },
                    None => None,
                },
                None => None,
            };
            append_int(builder, data_type, v);
        },
    }
}

/// The number that the value holds, for a column of double precision.
fn scalar_double(value: &JsonValue) -> (double: Option<u64>)
    requires
        is_sound(value@),
    ensures
        double_slot(double) == scalar_cell(DataType::Float64, Some(value@)),
        double matches Some(bits) ==> is_finite(bits),
{
    match value.as_number() {
        Some(n) => match n.as_i64 {
            Some(v) => Some(cast_double(v)),
            None => if n.is_f64 {
                n.as_f64
            } else {
                None
            },
        },
        None => None,
    }
}

/// The number that the value holds, for a column of single precision.
fn scalar_single(value: &JsonValue) -> (single: Option<u32>)
    requires
        is_sound(value@),
    ensures
        single_slot(single) == scalar_cell(DataType::Float32, Some(value@)),
        single matches Some(bits) ==> is_single(bits),
{
    match value.as_number() {
        Some(n) => match (n.as_i64, n.as_f64) {
            (Some(v), _) => Some(cast_single(v)),
            (None, Some(bits)) => if n.is_f64 {
                Some(narrow(bits))
            } else {
                None
            },
            _ => None,
        },
        None => None,
    }
}

/// The double-precision number that the value holds, by its bit pattern.
fn double_bits(value: &JsonValue) -> (double: Option<u64>)
    ensures
        double == match number_of(value@) {
            Some(n) => n.as_f64,
            None => None,
        },
{
    match value.as_number() {
        Some(n) => n.as_f64,
        None => None,
    }
}

/// Appends a value as an item of the list that is not closed yet.
fn append_item(builder: &mut ColumnBuilder, data_type: &DataType, value: &JsonValue)
    requires
        is_item_type(*data_type),
        is_float_type(*data_type) ==> is_sound(value@),
        builder_type(*old(builder)) == DataType::List(Box::new(*data_type)),
        *data_type is Utf8 ==> total_item_bytes(builder_cells(*old(builder))) + text_bytes(
            builder_items(*old(builder)),
        ) + cell_bytes(item_cell(*data_type, value@)) <= i32::MAX,
    ensures
        builder_type(*final(builder)) == builder_type(*old(builder)),
        builder_cells(*final(builder)) == builder_cells(*old(builder)),
        builder_items(*final(builder)) == builder_items(*old(builder)).push(
            item_cell(*data_type, value@),
        ),
{
    match data_type {
        DataType::Boolean => {
            append_bool_item(builder, value.as_bool());
        },
        DataType::Utf8 => {
            append_str_item(builder, value.as_str());
        },
        DataType::Float32 => {
            let single: Option<u32> = match double_bits(value) {
                Some(bits) => Some(narrow(bits)),
                None => None,
            };
            append_single_item(builder, single);
        },
        DataType::Float64 => {
            append_double_item(builder, double_bits(value));
        },
        _ => {
            let v: Option<i128> = match double_bits(value) {
                Some(bits) => truncate(bits),
                None => None,
            };
            append_int_item(builder, data_type, v);
        },
    }
}

/// The first strings take no more bytes than all of them.
proof fn lemma_text_bytes_prefix(cells: Seq<Cell>, n: int)
    requires
        0 <= n <= cells.len(),
    ensures
        text_bytes(cells.take(n)) <= text_bytes(cells),
    decreases cells.len(),
{
    if n == cells.len() {
        assert(cells.take(n) =~= cells);
    } else {
        assert(cells.drop_last().take(n) =~= cells.take(n));
        lemma_text_bytes_prefix(cells.drop_last(), n);
    }
}

/// The first lists hold no more items, and no more bytes in them, than all of them.
proof fn lemma_items_prefix(cells: Seq<Cell>, n: int)
    requires
        0 <= n <= cells.len(),
    ensures
        total_items(cells.take(n)) <= total_items(cells),
        total_item_bytes(cells.take(n)) <= total_item_bytes(cells),
    decreases cells.len(),
{
    if n == cells.len() {
        assert(cells.take(n) =~= cells);
    } else {
        assert(cells.drop_last().take(n) =~= cells.take(n));
        lemma_items_prefix(cells.drop_last(), n);
    }
}

/// Taking in one more cell adds what that cell holds.
proof fn lemma_take_next(cells: Seq<Cell>, n: int)
    requires
        0 <= n < cells.len(),
    ensures
        cells.take(n + 1) == cells.take(n).push(cells[n]),
        text_bytes(cells.take(n + 1)) == text_bytes(cells.take(n)) + cell_bytes(cells[n]),
        total_items(cells.take(n + 1)) == total_items(cells.take(n)) + items_of(cells[n]).len(),
        total_item_bytes(cells.take(n + 1)) == total_item_bytes(cells.take(n)) + text_bytes(
            items_of(cells[n]),
        ),
{
    assert(cells.take(n + 1).drop_last() =~= cells.take(n));
    assert(cells.take(n + 1) =~= cells.take(n).push(cells[n]));
}

/// The array of the slots of a column that holds no lists.
fn fill_array(data_type: &DataType, rows: &Vec<JsonValue>, col_name: &String) -> (array: Array)
    requires
        is_item_type(*data_type),
        is_float_type(*data_type) ==> all_sound(jsons(rows@)),
        !overflows(*data_type, column_cells(*data_type, jsons(rows@), col_name@)),
    ensures
        array_type(array) == *data_type,
        array_cells(array) == column_cells(*data_type, jsons(rows@), col_name@),
{
    let ghost slots = column_cells(*data_type, jsons(rows@), col_name@);
    let mut builder = new_builder(data_type);
    let mut row_index: usize = 0;
    proof {
        assert(slots.take(0) =~= Seq::empty());
    }
    while row_index < rows.len()
        invariant
            row_index <= rows@.len(),
            is_item_type(*data_type),
            is_float_type(*data_type) ==> all_sound(jsons(rows@)),
            slots == column_cells(*data_type, jsons(rows@), col_name@),
            *data_type is Utf8 ==> text_bytes(slots) <= i32::MAX,
            builder_type(builder) == *data_type,
            builder_cells(builder) == slots.take(row_index as int),
        decreases rows.len() - row_index,
    {
        proof {
            lemma_take_next(slots, row_index as int);
            lemma_text_bytes_prefix(slots, row_index + 1);
            if is_float_type(*data_type) {
                lemma_member_sound(jsons(rows@)[row_index as int], col_name@);
            }
        }
        append_scalar(&mut builder, data_type, rows[row_index].get(col_name));
        row_index += 1;
    }
    proof {
        assert(slots.take(row_index as int) =~= slots);
    }
    finish(builder)
}

/// Appends the values that a row has for a list column to the list that is not closed yet.
fn append_values(builder: &mut ColumnBuilder, item: &DataType, value: Option<&JsonValue>)
    requires
        is_item_type(*item),
        is_float_type(*item) ==> is_held_sound(value),
        builder_type(*old(builder)) == DataType::List(Box::new(*item)),
        builder_items(*old(builder)) == Seq::<Cell>::empty(),
        *item is Utf8 ==> total_item_bytes(builder_cells(*old(builder))) + text_bytes(
            item_cells(*item, list_values(held(value))),
        ) <= i32::MAX,
    ensures
        builder_type(*final(builder)) == builder_type(*old(builder)),
        builder_cells(*final(builder)) == builder_cells(*old(builder)),
        builder_items(*final(builder)) == item_cells(*item, list_values(held(value))),
{
    let ghost slots = item_cells(*item, list_values(held(value)));
    match value {
        Some(JsonValue::Array(values)) => {
            let ghost cells = builder_cells(*builder);
            let ghost all = list_values(held(value));
            let mut i: usize = 0;
            proof {
                assert(slots.take(0) =~= Seq::empty());
            }
            while i < values.len()
                invariant
                    i <= values@.len(),
                    is_item_type(*item),
                    is_float_type(*item) ==> all_sound(all),
                    all.len() == values@.len(),
                    forall|j: int| 0 <= j < all.len() ==> #[trigger] all[j] == values@[j]@,
                    slots == item_cells(*item, all),
                    *item is Utf8 ==> total_item_bytes(cells) + text_bytes(slots) <= i32::MAX,
                    builder_type(*builder) == DataType::List(Box::new(*item)),
                    builder_cells(*builder) == cells,
                    builder_items(*builder) == slots.take(i as int),
                decreases values.len() - i,
            {
                proof {
                    lemma_take_next(slots, i as int);
                    lemma_text_bytes_prefix(slots, i + 1);
                    assert(slots[i as int] == item_cell(*item, all[i as int]));
                    assert(is_float_type(*item) ==> is_sound(all[i as int]));
                }
                append_item(builder, item, &values[i]);
                i += 1;
            }
            proof {
                assert(slots.take(i as int) =~= slots);
            }
        },
        Some(value) => {
            proof {
                assert(slots =~= Seq::empty().push(item_cell(*item, value@)));
                assert(slots.drop_last() =~= Seq::empty());
            }
            append_item(builder, item, value);
        },
        None => {
            proof {
                assert(slots =~= Seq::empty());
            }
        },
    }
}

/// The array of the slots of a list column.
fn fill_lists(item: &DataType, rows: &Vec<JsonValue>, col_name: &String) -> (array: Array)
    requires
        is_item_type(*item),
        is_float_type(*item) ==> all_sound(jsons(rows@)),
        !overflows(
            DataType::List(Box::new(*item)),
            column_cells(DataType::List(Box::new(*item)), jsons(rows@), col_name@),
        ),
    ensures
        array_type(array) == DataType::List(Box::new(*item)),
        array_cells(array) == column_cells(
            DataType::List(Box::new(*item)),
            jsons(rows@),
            col_name@,
        ),
{
    let ghost slots = column_cells(DataType::List(Box::new(*item)), jsons(rows@), col_name@);
    let mut builder = new_list_builder(new_builder(item));
    let mut row_index: usize = 0;
    proof {
        assert(slots.take(0) =~= Seq::empty());
    }
    while row_index < rows.len()
        invariant
            row_index <= rows@.len(),
            is_item_type(*item),
            is_float_type(*item) ==> all_sound(jsons(rows@)),
            slots == column_cells(DataType::List(Box::new(*item)), jsons(rows@), col_name@),
            total_items(slots) <= i32::MAX,
            *item is Utf8 ==> total_item_bytes(slots) <= i32::MAX,
            builder_type(builder) == DataType::List(Box::new(*item)),
            builder_cells(builder) == slots.take(row_index as int),
            builder_items(builder) == Seq::<Cell>::empty(),
        decreases rows.len() - row_index,
    {
        proof {
            lemma_take_next(slots, row_index as int);
            lemma_items_prefix(slots, row_index + 1);
            if is_float_type(*item) {
                lemma_member_sound(jsons(rows@)[row_index as int], col_name@);
            }
        }
        append_values(&mut builder, item, rows[row_index].get(col_name));
        close_list(&mut builder);
        row_index += 1;
    }
    proof {
        assert(slots.take(row_index as int) =~= slots);
    }
    finish(builder)
}

/// The bytes of the string that the value holds; of another value, none.
fn string_size(value: &JsonValue) -> (n: u64)
    ensures
        n == cell_bytes(item_cell(DataType::Utf8, value@)),
{
    match value.as_str() {
        Some(text) => text.as_bytes().len() as u64,
        None => 0,
    }
}

/// The bytes of the strings that a row has for a list column, unless they are more than
/// there is room for.
fn strings_size(value: Option<&JsonValue>, room: u64) -> (size: Option<u64>)
    ensures
        match size {
            Some(n) => n <= room && n == text_bytes(
                item_cells(DataType::Utf8, list_values(held(value))),
            ),
            None => text_bytes(item_cells(DataType::Utf8, list_values(held(value)))) > room,
        },
{
    let ghost cells = item_cells(DataType::Utf8, list_values(held(value)));
    match value {
        Some(JsonValue::Array(values)) => {
            let ghost all = list_values(held(value));
            let mut size: u64 = 0;
            let mut i: usize = 0;
            proof {
                assert(cells.take(0) =~= Seq::empty());
            }
            while i < values.len()
                invariant
                    i <= values@.len(),
                    all.len() == values@.len(),
                    forall|j: int| 0 <= j < all.len() ==> #[trigger] all[j] == values@[j]@,
                    cells == item_cells(DataType::Utf8, all),
                    all == list_values(held(value)),
                    size <= room,
                    size == text_bytes(cells.take(i as int)),
                decreases values.len() - i,
            {
                proof {
                    lemma_take_next(cells, i as int);
                    lemma_text_bytes_prefix(cells, i + 1);
                    assert(cells[i as int] == item_cell(DataType::Utf8, all[i as int]));
                }
                let n: u64 = string_size(&values[i]);
                if n > room - size {
                    return None;
                }
                size = size + n;
                i += 1;
            }
            proof {
                assert(cells.take(i as int) =~= cells);
            }
            Some(size)
        },
        Some(value) => {
            proof {
                assert(cells =~= Seq::empty().push(item_cell(DataType::Utf8, value@)));
                assert(cells.drop_last() =~= Seq::empty());
                assert(text_bytes(cells.drop_last()) == 0);
            }
            let n: u64 = string_size(value);
            if n > room {
                None
            } else {
                Some(n)
            }
        },
        None => {
            proof {
                assert(cells =~= Seq::empty());
            }
            Some(0)
        },
    }
}

/// Whether 32-bit offsets suffice for the strings of the column.
fn strings_fit(rows: &Vec<JsonValue>, col_name: &String) -> (fit: bool)
    ensures
        fit == !overflows(
            DataType::Utf8,
            column_cells(DataType::Utf8, jsons(rows@), col_name@),
        ),
{
    let ghost cells = column_cells(DataType::Utf8, jsons(rows@), col_name@);
    let mut size: u64 = 0;
    let mut row_index: usize = 0;
    proof {
        assert(cells.take(0) =~= Seq::empty());
    }
    while row_index < rows.len()
        invariant
            row_index <= rows@.len(),
            cells == column_cells(DataType::Utf8, jsons(rows@), col_name@),
            size <= i32::MAX,
            size == text_bytes(cells.take(row_index as int)),
        decreases rows.len() - row_index,
    {
        proof {
            lemma_take_next(cells, row_index as int);
            lemma_text_bytes_prefix(cells, row_index + 1);
        }
        let n: u64 = match rows[row_index].get(col_name) {
            Some(value) => string_size(value),
            None => 0,
        };
        if n > i32::MAX as u64 - size {
            return false;
        }
        size = size + n;
        row_index += 1;
    }
    proof {
        assert(cells.take(row_index as int) =~= cells);
    }
    true
}

/// Whether 32-bit offsets suffice for the lists of the column, and for the strings in them.
fn lists_fit(item: &DataType, rows: &Vec<JsonValue>, col_name: &String) -> (fit: bool)
    ensures
        fit == !overflows(
            DataType::List(Box::new(*item)),
            column_cells(DataType::List(Box::new(*item)), jsons(rows@), col_name@),
        ),
{
    let ghost cells = column_cells(DataType::List(Box::new(*item)), jsons(rows@), col_name@);
    let is_text: bool = item.is_same(&DataType::Utf8);
    let mut count: u64 = 0;
    let mut size: u64 = 0;
    let mut row_index: usize = 0;
    proof {
        assert(cells.take(0) =~= Seq::empty());
    }
    while row_index < rows.len()
        invariant
            row_index <= rows@.len(),
            is_text == (*item is Utf8),
            cells == column_cells(DataType::List(Box::new(*item)), jsons(rows@), col_name@),
            count <= i32::MAX,
            count == total_items(cells.take(row_index as int)),
            size <= i32::MAX,
            is_text ==> size == total_item_bytes(cells.take(row_index as int)),
        decreases rows.len() - row_index,
    {
        proof {
            lemma_take_next(cells, row_index as int);
            lemma_items_prefix(cells, row_index + 1);
        }
        let value: Option<&JsonValue> = rows[row_index].get(col_name);
        let n: u64 = match value {
            Some(JsonValue::Array(values)) => values.len() as u64,
            Some(_) => 1,
            None => 0,
        };
        assert(items_of(cells[row_index as int]).len() == n);
        if n > i32::MAX as u64 - count {
            return false;
        }
        count = count + n;
        if is_text {
            match strings_size(value, i32::MAX as u64 - size) {
                Some(n) => {
                    size = size + n;
                },
                None => {
                    return false;
                },
            }
        }
        row_index += 1;
    }
    proof {
        assert(cells.take(row_index as int) =~= cells);
    }
    true
}

/// Whether a list column with items of the type can take what every row has for it.
fn check_listable(item: &DataType, rows: &Vec<JsonValue>, col_name: &String) -> (listable: bool)
    requires
        is_item_type(*item),
    ensures
        listable == all_listable(*item, jsons(rows@), col_name@),
{
    let ghost all = jsons(rows@);
    let mut row_index: usize = 0;
    while row_index < rows.len()
        invariant
            row_index <= rows@.len(),
            is_item_type(*item),
            all == jsons(rows@),
            forall|i: int|
                0 <= i < row_index ==> is_listable(*item, #[trigger] member(all[i], col_name@)),
        decreases rows.len() - row_index,
    {
        let listable: bool = match (rows[row_index].get(col_name), item) {
            (None, _) => true,
            (Some(JsonValue::Array(_)), _) => true,
            (Some(JsonValue::Bool(_)), DataType::Boolean) => true,
            (Some(JsonValue::String(_)), DataType::Utf8) => true,
            (Some(JsonValue::Number(_)), DataType::Boolean | DataType::Utf8) => false,
            (Some(JsonValue::Number(_)), _) => true,
            _ => false,
        };
        assert(listable == is_listable(*item, member(all[row_index as int], col_name@)));
        if !listable {
            return false;
        }
        row_index += 1;
    }
    true
}

/// The column of truth values of the given name. What is no truth value is null.
pub fn build_boolean_array(rows: &Vec<JsonValue>, col_name: &String) -> (array: Array)
    ensures
        array_type(array) == DataType::Boolean,
        array_cells(array) == column_cells(DataType::Boolean, jsons(rows@), col_name@),
{
    fill_array(&DataType::Boolean, rows, col_name)
}

/// The column of numbers of the given name and type. What is no number, and an integer that
/// does not fit, is null.
pub fn build_primitive_array(
    data_type: &DataType,
    rows: &Vec<JsonValue>,
    col_name: &String,
) -> (array: Array)
    requires
        is_int_type(*data_type) || is_float_type(*data_type),
        all_sound(jsons(rows@)),
    ensures
        array_type(array) == *data_type,
        array_cells(array) == column_cells(*data_type, jsons(rows@), col_name@),
{
    fill_array(data_type, rows, col_name)
}

/// The column of strings of the given name. What is no string is null.
pub fn build_string_array(rows: &Vec<JsonValue>, col_name: &String) -> (built: Result<
    Array,
    JsonError,
>)
    ensures
        ({
            let cells = column_cells(DataType::Utf8, jsons(rows@), col_name@);
            if overflows(DataType::Utf8, cells) {
                built == Err::<Array, JsonError>(JsonError::OffsetOverflow)
            } else {
                built matches Ok(array) && array_type(array) == DataType::Utf8 && array_cells(
                    array,
                ) == cells
            }
        }),
{
    if !strings_fit(rows, col_name) {
        return Err(JsonError::OffsetOverflow);
    }
    Ok(fill_array(&DataType::Utf8, rows, col_name))
}

/// How the building of a list column ends: with an array of the lists, unless these are too
/// long.
pub open spec fn is_list_column(
    built: Result<Array, JsonError>,
    item: DataType,
    rows: Seq<Json>,
    name: Seq<char>,
) -> bool {
    let data_type = DataType::List(Box::new(item));
    let cells = column_cells(data_type, rows, name);
    if overflows(data_type, cells) {
        built == Err::<Array, JsonError>(JsonError::OffsetOverflow)
    } else {
        built matches Ok(array) && array_type(array) == data_type && array_cells(array) == cells
    }
}

/// The column of lists of truth values of the given name.
pub fn build_boolean_list_array(rows: &Vec<JsonValue>, col_name: &String) -> (built: Result<
    Array,
    JsonError,
>)
    requires
        all_listable(DataType::Boolean, jsons(rows@), col_name@),
    ensures
        is_list_column(built, DataType::Boolean, jsons(rows@), col_name@),
{
    if !lists_fit(&DataType::Boolean, rows, col_name) {
        return Err(JsonError::OffsetOverflow);
    }
    Ok(fill_lists(&DataType::Boolean, rows, col_name))
}

/// The column of lists of numbers of the given name, with items of the given type.
pub fn build_list_array(
    item: &DataType,
    rows: &Vec<JsonValue>,
    col_name: &String,
) -> (built: Result<Array, JsonError>)
    requires
        is_int_type(*item) || is_float_type(*item),
        all_sound(jsons(rows@)),
        all_listable(*item, jsons(rows@), col_name@),
    ensures
        is_list_column(built, *item, jsons(rows@), col_name@),
{
    if !lists_fit(item, rows, col_name) {
        return Err(JsonError::OffsetOverflow);
    }
    Ok(fill_lists(item, rows, col_name))
}

/// The column of lists of strings of the given name.
pub fn build_string_list_array(rows: &Vec<JsonValue>, col_name: &String) -> (built: Result<
    Array,
    JsonError,
>)
    requires
        all_listable(DataType::Utf8, jsons(rows@), col_name@),
    ensures
        is_list_column(built, DataType::Utf8, jsons(rows@), col_name@),
{
    if !lists_fit(&DataType::Utf8, rows, col_name) {
        return Err(JsonError::OffsetOverflow);
    }
    Ok(fill_lists(&DataType::Utf8, rows, col_name))
}

/// Why the column of the given name and type cannot be filled from the rows, if it cannot.
pub open spec fn column_error(data_type: DataType, rows: Seq<Json>, name: Seq<char>) -> Option<
    JsonError,
> {
    match data_type {
        DataType::Other => Some(JsonError::StructType),
        DataType::List(item) if !is_item_type(*item) => Some(JsonError::ListType),
        DataType::List(item) if !all_listable(*item, rows, name) => Some(JsonError::NotScalar),
        _ => if overflows(data_type, column_cells(data_type, rows, name)) {
            Some(JsonError::OffsetOverflow)
        } else {
            None
        },
    }
}

/// The column of the given name and type, with a cell for each row.
pub fn build_column(data_type: &DataType, rows: &Vec<JsonValue>, col_name: &String) -> (built:
    Result<Array, JsonError>)
    requires
        all_sound(jsons(rows@)),
    ensures
        match column_error(*data_type, jsons(rows@), col_name@) {
            None => built matches Ok(array) && array_type(array) == *data_type && array_cells(
                array,
            ) == column_cells(*data_type, jsons(rows@), col_name@),
            Some(error) => built == Err::<Array, JsonError>(error),
        },
{
    match data_type {
        DataType::Boolean => Ok(build_boolean_array(rows, col_name)),
        DataType::Utf8 => build_string_array(rows, col_name),
        DataType::List(item) => {
            let item: &DataType = &**item;
            match item {
                DataType::List(_) | DataType::Other => {
                    return Err(JsonError::ListType);
                },
                _ => {},
            }
            if !check_listable(item, rows, col_name) {
                return Err(JsonError::NotScalar);
            }
            match item {
                DataType::Boolean => build_boolean_list_array(rows, col_name),
                DataType::Utf8 => build_string_list_array(rows, col_name),
                _ => build_list_array(item, rows, col_name),
            }
        },
        DataType::Other => Err(JsonError::StructType),
        _ => Ok(build_primitive_array(data_type, rows, col_name)),
    }
}

} // verus!
