//! What the cells of a column hold, and how a cell comes from a JSON value.

use crate::casts::{double_of_int, integer_of, single_of, single_of_int};
use crate::data_type::DataType;
use crate::value::{bool_of, member, number_of, string_of, Json, Number};
use vstd::prelude::*;
use vstd::utf8::encode_utf8;

verus! {

/// One cell of a column, or one item of a list in one.
pub enum Cell {
    Null,
    Bool(bool),
    Int(int),
    /// A double-precision number, by its bit pattern.
    Double(u64),
    /// A single-precision number, by its bit pattern.
    Single(u32),
    Str(Seq<char>),
    List(Seq<Cell>),
}

/// Whether the type is one of integers.
pub open spec fn is_int_type(data_type: DataType) -> bool {
    match data_type {
        DataType::Int8 | DataType::Int16 | DataType::Int32 | DataType::Int64 => true,
        DataType::UInt8 | DataType::UInt16 | DataType::UInt32 | DataType::UInt64 => true,
        _ => false,
    }
}

/// Whether the type is one of floating point numbers.
pub open spec fn is_float_type(data_type: DataType) -> bool {
    data_type is Float32 || data_type is Float64
}

/// Whether a list can hold items of the type: it is neither a list nor one of the types
/// that JSON does not fill.
pub open spec fn is_item_type(data_type: DataType) -> bool {
    !(data_type is List) && !(data_type is Other)
}

/// Whether the integer is one of the type's.
pub open spec fn fits(data_type: DataType, v: int) -> bool {
    match data_type {
        DataType::Int8 => i8::MIN <= v <= i8::MAX,
        DataType::Int16 => i16::MIN <= v <= i16::MAX,
        DataType::Int32 => i32::MIN <= v <= i32::MAX,
        DataType::Int64 => i64::MIN <= v <= i64::MAX,
        DataType::UInt8 => 0 <= v <= u8::MAX,
        DataType::UInt16 => 0 <= v <= u16::MAX,
        DataType::UInt32 => 0 <= v <= u32::MAX,
        DataType::UInt64 => 0 <= v <= u64::MAX,
        _ => false,
    }
}

/// The integer as a cell of the type, null where it does not fit.
pub open spec fn int_cell(data_type: DataType, v: int) -> Cell {
    if fits(data_type, v) {
        Cell::Int(v)
    } else {
        Cell::Null
    }
}

/// The cell for a value of a column that is not one of numbers: what is of another kind than
/// the column is null.
pub open spec fn plain_cell(data_type: DataType, json: Json) -> Cell {
    match data_type {
        DataType::Boolean => match bool_of(json) {
            Some(b) => Cell::Bool(b),
            None => Cell::Null,
        },
        DataType::Utf8 => match string_of(json) {
            Some(s) => Cell::Str(s),
            None => Cell::Null,
        },
        _ => Cell::Null,
    }
}

/// The cell for a number of a column that holds no lists. An integer of 64 bits is cast to the
/// type of the column. What is no integer goes into a floating point column only, and an
/// integer beyond `i64::MAX` into none.
pub open spec fn number_cell(data_type: DataType, n: Number) -> Cell {
    match n.as_i64 {
        Some(v) => match data_type {
            DataType::Float32 => Cell::Single(single_of_int(v)),
            DataType::Float64 => Cell::Double(double_of_int(v)),
            _ => int_cell(data_type, v as int),
        },
        None => if n.is_f64 && is_float_type(data_type) {
            double_cell(data_type, n.as_f64)
        } else {
            Cell::Null
        },
    }
}

/// A double-precision number, if there is one, as a cell of the type.
pub open spec fn double_cell(data_type: DataType, double: Option<u64>) -> Cell {
    match double {
        Some(bits) => match data_type {
            DataType::Float32 => Cell::Single(single_of(bits)),
            DataType::Float64 => Cell::Double(bits),
            _ => match integer_of(bits) {
                Some(v) => int_cell(data_type, v as int),
                None => Cell::Null,
            },
        },
        None => Cell::Null,
    }
}

/// Whether the type is one of numbers.
pub open spec fn is_number_type(data_type: DataType) -> bool {
    is_int_type(data_type) || is_float_type(data_type)
}

/// The cell of a column that holds no lists.
pub open spec fn scalar_cell(data_type: DataType, value: Option<Json>) -> Cell {
    match value {
        Some(json) => if is_number_type(data_type) {
            match number_of(json) {
                Some(n) => number_cell(data_type, n),
                None => Cell::Null,
            }
        } else {
            plain_cell(data_type, json)
        },
        None => Cell::Null,
    }
}

/// The item of a list. A list of numbers takes every number through double precision, and a
/// list of integers cuts off the fraction.
pub open spec fn item_cell(data_type: DataType, json: Json) -> Cell {
    if is_number_type(data_type) {
        match number_of(json) {
            Some(n) => double_cell(data_type, n.as_f64),
            None => Cell::Null,
        }
    } else {
        plain_cell(data_type, json)
    }
}

/// The values that go into the list of one row: the items of a list, a value on its own
/// as the only item, nothing where there is no value.
pub open spec fn list_values(value: Option<Json>) -> Seq<Json> {
    match value {
        Some(Json::List(items)) => items,
        Some(json) => seq![json],
        None => Seq::empty(),
    }
}

/// The values as items of a list.
pub open spec fn item_cells(item: DataType, values: Seq<Json>) -> Seq<Cell> {
    Seq::new(values.len(), |i: int| item_cell(item, values[i]))
}

/// The cell of a column of the type.
pub open spec fn cell_of(data_type: DataType, value: Option<Json>) -> Cell {
    match data_type {
        DataType::List(item) => Cell::List(item_cells(*item, list_values(value))),
        _ => scalar_cell(data_type, value),
    }
}

/// The cells of the column of the given name and type, a cell for each row.
pub open spec fn column_cells(data_type: DataType, rows: Seq<Json>, name: Seq<char>) -> Seq<Cell> {
    Seq::new(rows.len(), |i: int| cell_of(data_type, member(rows[i], name)))
}

/// Whether a list column with items of the type can take the value: it is absent, a list,
/// or of the kind of the items.
pub open spec fn is_listable(item: DataType, value: Option<Json>) -> bool {
    match value {
        None => true,
        Some(Json::List(_)) => true,
        Some(Json::Bool(_)) => item is Boolean,
        Some(Json::Str(_)) => item is Utf8,
        Some(Json::Number(_)) => is_int_type(item) || is_float_type(item),
        Some(_) => false,
    }
}

/// Whether a list column of the given name can take what every row has for it.
pub open spec fn all_listable(item: DataType, rows: Seq<Json>, name: Seq<char>) -> bool {
    forall|i: int| 0 <= i < rows.len() ==> is_listable(item, #[trigger] member(rows[i], name))
}

/// How many of the cells are null.
pub open spec fn null_cells(cells: Seq<Cell>) -> nat
    decreases cells.len(),
{
    if cells.len() == 0 {
        0
    } else if cells.last() is Null {
        null_cells(cells.drop_last()) + 1
    } else {
        null_cells(cells.drop_last())
    }
}

/// The bytes of the string in a cell.
pub open spec fn cell_bytes(cell: Cell) -> nat {
    match cell {
        Cell::Str(s) => encode_utf8(s).len(),
        _ => 0,
    }
}

/// The bytes of the strings in the cells.
pub open spec fn text_bytes(cells: Seq<Cell>) -> nat
    decreases cells.len(),
{
    if cells.len() == 0 {
        0
    } else {
        text_bytes(cells.drop_last()) + cell_bytes(cells.last())
    }
}

/// The items of a list.
pub open spec fn items_of(cell: Cell) -> Seq<Cell> {
    match cell {
        Cell::List(items) => items,
        _ => Seq::empty(),
    }
}

/// How many items the lists in the cells hold together.
pub open spec fn total_items(cells: Seq<Cell>) -> nat
    decreases cells.len(),
{
    if cells.len() == 0 {
        0
    } else {
        total_items(cells.drop_last()) + items_of(cells.last()).len()
    }
}

/// The bytes of the strings in the lists in the cells.
pub open spec fn total_item_bytes(cells: Seq<Cell>) -> nat
    decreases cells.len(),
{
    if cells.len() == 0 {
        0
    } else {
        total_item_bytes(cells.drop_last()) + text_bytes(items_of(cells.last()))
    }
}

/// Whether the strings or the list items of a column are too many for 32-bit offsets.
pub open spec fn overflows(data_type: DataType, cells: Seq<Cell>) -> bool {
    match data_type {
        DataType::Utf8 => text_bytes(cells) > i32::MAX,
        DataType::List(item) => total_items(cells) > i32::MAX || (*item is Utf8
            && total_item_bytes(cells) > i32::MAX),
        _ => false,
    }
}

} // verus!
