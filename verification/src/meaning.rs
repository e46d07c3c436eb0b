//! What inference and reading come to, said of the values that go in and come out.

use crate::arrays::{array_cells, array_type, Array};
use crate::batch::{batch_cells, batch_fields, ColumnBatch, RecordBatch};
use crate::builder::{default_settings, is_set_up, Settings};
use crate::casts::{double_of_int, integer_of, is_finite, single_of, single_of_int};
use crate::cells::{
    all_listable, cell_of, column_cells, is_float_type, is_int_type, is_item_type, is_listable,
    null_cells, overflows, text_bytes, total_item_bytes, total_items, Cell,
};
use crate::columns::{column_error, is_list_column};
use crate::data_type::{DataType, Field, FieldView, Schema};
use crate::error::JsonError;
use crate::infer::{line_observed, lines_observed, record_limit, texts};
use crate::laws::{
    is_first_bad_line, law_empty_projection, law_first_bad_line_decides,
    law_lines_speak_for_themselves, law_projection_is_omission, lemma_item_types,
    lemma_valid_rows,
};
use crate::reader::{
    batch_error, first_error, is_batch_of, names_of, read_rows, selected, Reader,
};
use crate::text::{is_white_space, json_of, trimmed};
use crate::types::{
    coerced, column_type, has_nested_item, has_nested_list, is_nested, is_only, is_schema_for,
    is_schema_of, item_type, item_types, list_type, names_seen, observed, types_of, value_type,
    TypeTable,
};
use crate::value::{
    bool_of, is_sound, jsons, lookup, member, number_of, string_of, Json, JsonValue, Number,
};
use vstd::prelude::*;
use vstd::utf8::encode_utf8;

verus! {

// Coercion

/// Coercing takes a single type as it is, the two types of numbers to `Float64`, and anything
/// else, three or more types among it, to text. A list is one of what its types coerce to.
pub proof fn law_coercion(types: Seq<DataType>)
    ensures
        types.len() == 1 ==> coerced(types, false) == types[0],
        types.len() == 2 && types[0] is Int64 && types[1] is Float64 ==> coerced(types, false)
            == DataType::Float64,
        types.len() == 2 && types[0] is Float64 && types[1] is Int64 ==> coerced(types, false)
            == DataType::Float64,
        types.len() == 2 && !(types[0] is Int64 && types[1] is Float64) && !(types[0] is Float64
            && types[1] is Int64) ==> coerced(types, false) == DataType::Utf8,
        types.len() == 0 ==> coerced(types, false) == DataType::Utf8,
        types.len() >= 3 ==> coerced(types, false) == DataType::Utf8,
        coerced(types, true) == DataType::List(Box::new(coerced(types, false))),
{
    if types.len() == 2 {
        assert(types[0] == types[0] && types[1] == types[1]);
    }
}

/// A column for which one type was seen is of that type.
pub proof fn law_only_type(types: Set<DataType>, t: DataType)
    requires
        types.contains(t),
        forall|u: DataType| #[trigger] types.contains(u) ==> u == t,
    ensures
        column_type(types) == t,
{
    assert(is_only(types, t));
}

/// A column for which several types were seen is `Float64` where all of them are types of
/// numbers, and one of text where any of them is not.
pub proof fn law_several_types(types: Set<DataType>, a: DataType, b: DataType)
    requires
        types.contains(a),
        types.contains(b),
        a != b,
    ensures
        (forall|t: DataType| #[trigger] types.contains(t) ==> t is Int64 || t is Float64)
            ==> column_type(types) == DataType::Float64,
        (exists|t: DataType| #[trigger] types.contains(t) && !(t is Int64) && !(t is Float64))
            ==> column_type(types) == DataType::Utf8,
{
    let pair = set![DataType::Int64, DataType::Float64];
    assert forall|t: DataType| !is_only(types, t) by {}
    if forall|t: DataType| #[trigger] types.contains(t) ==> t is Int64 || t is Float64 {
        assert(types =~= pair);
    }
    if types == pair {
        assert forall|t: DataType| #[trigger] types.contains(t) implies t is Int64
            || t is Float64 by {
            assert(pair.contains(t));
        }
    }
}

/// A column for which no type was seen is one of text.
pub proof fn law_no_type(types: Set<DataType>)
    requires
        forall|t: DataType| !#[trigger] types.contains(t),
    ensures
        column_type(types) == DataType::Utf8,
{
    assert forall|t: DataType| !is_only(types, t) by {
        assert(!types.contains(t));
    }
    assert(!types.contains(DataType::Int64));
}

// Inference

/// What a record speaks for: each member by its name, with the type of its kind of value.
/// Nulls and objects speak for nothing, and neither does what is no record.
pub proof fn law_observed(json: Json, name: Seq<char>, t: DataType)
    ensures
        json matches Json::Record(members) ==> (observed(json).contains((name, t)) <==> exists|
            i: int,
        |
            0 <= i < members.len() && (#[trigger] members[i]).0 == name && match members[i].1 {
                Json::Null => false,
                Json::Bool(_) => t == DataType::Boolean,
                Json::Number(n) => t == if n.is_f64 {
                    DataType::Float64
                } else {
                    DataType::Int64
                },
                Json::Str(_) => t == DataType::Utf8,
                Json::List(items) => t == list_type(items),
                Json::Record(_) => false,
            }),
        !(json is Record) ==> !observed(json).contains((name, t)),
{
    match json {
        Json::Record(members) => {
            assert forall|i: int| 0 <= i < members.len() implies (value_type(
                (#[trigger] members[i]).1,
            ) == Some(t) <==> match members[i].1 {
                Json::Null => false,
                Json::Bool(_) => t == DataType::Boolean,
                Json::Number(n) => t == if n.is_f64 {
                    DataType::Float64
                } else {
                    DataType::Int64
                },
                Json::Str(_) => t == DataType::Utf8,
                Json::List(items) => t == list_type(items),
                Json::Record(_) => false,
            }) by {}
            if observed(json).contains((name, t)) {
                let i = choose|i: int|
                    0 <= i < members.len() && (#[trigger] members[i]).0 == name && value_type(
                        members[i].1,
                    ) == Some(t);
                assert(members[i].0 == name);
            }
        },
        _ => {},
    }
}

/// The type that a list speaks for goes by the kinds of its items: truth values, strings,
/// integers of 64 bits and other numbers. One kind alone gives lists of it, integers with other
/// numbers give lists of `Float64`, and any other mixture, and no item of such a kind, gives
/// lists of text.
pub proof fn law_list_type(items: Seq<Json>)
    ensures
        ({
            let truth = exists|i: int| 0 <= i < items.len() && (#[trigger] items[i]) is Bool;
            let text = exists|i: int| 0 <= i < items.len() && (#[trigger] items[i]) is Str;
            let integer = exists|i: int|
                0 <= i < items.len() && (#[trigger] items[i] matches Json::Number(n)
                    && n.as_i64 is Some);
            let other = exists|i: int|
                0 <= i < items.len() && (#[trigger] items[i] matches Json::Number(n)
                    && n.as_i64 is None);
            let item = if truth && !text && !integer && !other {
                DataType::Boolean
            } else if integer && !truth && !text && !other {
                DataType::Int64
            } else if other && !truth && !text {
                DataType::Float64
            } else {
                DataType::Utf8
            };
            list_type(items) == DataType::List(Box::new(item))
        }),
{
    let types = item_types(items).to_set();
    lemma_item_types(items);
    assert forall|t: DataType| #[trigger] types.contains(t) <==> exists|i: int|
        0 <= i < items.len() && item_type(#[trigger] items[i]) == Some(t) by {
        assert(types.contains(t) <==> item_types(items).contains(t));
    }
    let truth = exists|i: int| 0 <= i < items.len() && (#[trigger] items[i]) is Bool;
    let text = exists|i: int| 0 <= i < items.len() && (#[trigger] items[i]) is Str;
    let integer = exists|i: int|
        0 <= i < items.len() && (#[trigger] items[i] matches Json::Number(n)
            && n.as_i64 is Some);
    let other = exists|i: int|
        0 <= i < items.len() && (#[trigger] items[i] matches Json::Number(n)
            && n.as_i64 is None);
    assert(types.contains(DataType::Boolean) <==> truth) by {
        if truth {
            let i = choose|i: int| 0 <= i < items.len() && (#[trigger] items[i]) is Bool;
            assert(item_type(items[i]) == Some(DataType::Boolean));
        }
    }
    assert(types.contains(DataType::Utf8) <==> text) by {
        if text {
            let i = choose|i: int| 0 <= i < items.len() && (#[trigger] items[i]) is Str;
            assert(item_type(items[i]) == Some(DataType::Utf8));
        }
    }
    assert(types.contains(DataType::Int64) <==> integer) by {
        if integer {
            let i = choose|i: int|
                0 <= i < items.len() && (#[trigger] items[i] matches Json::Number(n)
                    && n.as_i64 is Some);
            assert(item_type(items[i]) == Some(DataType::Int64));
        }
        if types.contains(DataType::Int64) {
            let i = choose|i: int|
                0 <= i < items.len() && item_type(#[trigger] items[i]) == Some(DataType::Int64);
            assert(items[i] matches Json::Number(n) && n.as_i64 is Some);
        }
    }
    assert(types.contains(DataType::Float64) <==> other) by {
        if other {
            let i = choose|i: int|
                0 <= i < items.len() && (#[trigger] items[i] matches Json::Number(n)
                    && n.as_i64 is None);
            assert(item_type(items[i]) == Some(DataType::Float64));
        }
        if types.contains(DataType::Float64) {
            let i = choose|i: int|
                0 <= i < items.len() && item_type(#[trigger] items[i]) == Some(DataType::Float64);
            assert(items[i] matches Json::Number(n) && n.as_i64 is None);
        }
    }
    assert forall|t: DataType| #[trigger] types.contains(t) implies t is Boolean || t is Utf8
        || t is Int64 || t is Float64 by {
        let i = choose|i: int|
            0 <= i < items.len() && item_type(#[trigger] items[i]) == Some(t);
    }
    if truth && !text && !integer && !other {
        law_only_type(types, DataType::Boolean);
    } else if text && !truth && !integer && !other {
        law_only_type(types, DataType::Utf8);
    } else if integer && !truth && !text && !other {
        law_only_type(types, DataType::Int64);
    } else if other && !truth && !text && !integer {
        law_only_type(types, DataType::Float64);
    } else if other && integer {
        law_several_types(types, DataType::Float64, DataType::Int64);
    } else if truth && text {
        law_several_types(types, DataType::Boolean, DataType::Utf8);
    } else if truth && integer {
        law_several_types(types, DataType::Boolean, DataType::Int64);
    } else if truth && other {
        law_several_types(types, DataType::Boolean, DataType::Float64);
    } else if text && integer {
        law_several_types(types, DataType::Utf8, DataType::Int64);
    } else if text && other {
        law_several_types(types, DataType::Utf8, DataType::Float64);
    } else {
        law_no_type(types);
    }
}

/// A record holds a nested list where a member is a list with a list or an object in it.
pub proof fn law_nested_list(json: Json)
    ensures
        json matches Json::Record(members) ==> (has_nested_list(json) <==> exists|i: int, j: int|
            0 <= i < members.len() && members[i].1 is List && 0 <= j < members[i].1->List_0.len()
                && (#[trigger] members[i].1->List_0[j] is List
                || members[i].1->List_0[j] is Record)),
        !(json is Record) ==> !has_nested_list(json),
{
    match json {
        Json::Record(members) => {
            if has_nested_list(json) {
                let i = choose|i: int|
                    0 <= i < members.len() && has_nested_item((#[trigger] members[i]).1);
                let items = members[i].1->List_0;
                let j = choose|j: int| 0 <= j < items.len() && is_nested(#[trigger] items[j]);
                assert(is_nested(members[i].1->List_0[j]));
            }
            assert forall|i: int, j: int|
                0 <= i < members.len() && members[i].1 is List && 0 <= j
                    < members[i].1->List_0.len() && (#[trigger] members[i].1->List_0[j] is List
                    || members[i].1->List_0[j] is Record) implies has_nested_list(json) by {
                let items = members[i].1->List_0;
                assert(is_nested(items[j]));
                assert(has_nested_item(members[i].1));
            }
        },
        _ => {},
    }
}

/// A line is taken in by the value that it spells without white space at its ends: it is
/// refused where it spells none, or one with a nested list.
pub proof fn law_line(line: Seq<char>)
    ensures
        json_of(trimmed(line)) is None ==> line_observed(line) == Err::<
            Set<(Seq<char>, DataType)>,
            JsonError,
        >(JsonError::NotValidJson),
        json_of(trimmed(line)) matches Some(json) ==> {
            &&& has_nested_list(json) ==> line_observed(line) == Err::<
                Set<(Seq<char>, DataType)>,
                JsonError,
            >(JsonError::NestedList)
            &&& !has_nested_list(json) ==> line_observed(line) == Ok::<
                Set<(Seq<char>, DataType)>,
                JsonError,
            >(observed(json))
        },
{
}

/// Lines after an empty one are not looked at.
pub proof fn law_empty_line_ends_inference(
    before: Seq<Seq<char>>,
    after: Seq<Seq<char>>,
    limit: nat,
)
    ensures
        lines_observed(before + seq![Seq::<char>::empty()] + after, limit) == lines_observed(
            before,
            limit,
        ),
    decreases before.len(),
{
    let all = before + seq![Seq::<char>::empty()] + after;
    if before.len() == 0 {
        assert(all[0] == Seq::<char>::empty());
    } else {
        assert(all[0] == before[0]);
        if limit > 0 {
            assert(all.drop_first() =~= before.drop_first() + seq![Seq::<char>::empty()] + after);
            law_empty_line_ends_inference(before.drop_first(), after, (limit - 1) as nat);
        }
    }
}

/// No records are read where the limit is zero, and no limit is the greatest there is.
pub proof fn law_record_limit(n: usize, lines: Seq<Seq<char>>)
    ensures
        record_limit(Some(n)) == n,
        record_limit(None) == usize::MAX,
        lines_observed(lines, 0) == Ok::<Set<(Seq<char>, DataType)>, JsonError>(Set::empty()),
{
}

/// An inferred schema has a field for each name for which a type was seen, no name twice, and
/// every field is nullable. A field is of the only type that was seen for its name; where
/// several were seen it is `Float64` if all of them are `Int64` or `Float64`, and text if one
/// of them is anything else.
pub proof fn law_inferred_schema(fields: Seq<FieldView>, seen: Set<(Seq<char>, DataType)>)
    requires
        is_schema_of(fields, seen),
    ensures
        forall|i: int, j: int|
            0 <= i < fields.len() && 0 <= j < fields.len() && i != j ==> (#[trigger] fields[i]).name
                != (#[trigger] fields[j]).name,
        forall|i: int| 0 <= i < fields.len() ==> (#[trigger] fields[i]).nullable,
        forall|i: int|
            0 <= i < fields.len() ==> exists|t: DataType|
                #[trigger] seen.contains(((#[trigger] fields[i]).name, t)),
        forall|pair: (Seq<char>, DataType)| #[trigger]
            seen.contains(pair) ==> exists|i: int|
                0 <= i < fields.len() && (#[trigger] fields[i]).name == pair.0,
        forall|i: int, t: DataType|
            0 <= i < fields.len() && #[trigger] seen.contains(((#[trigger] fields[i]).name, t))
                && fields[i].data_type != t ==> exists|u: DataType|
                u != t && #[trigger] seen.contains((fields[i].name, u)),
        forall|i: int, t: DataType, u: DataType|
            0 <= i < fields.len() && #[trigger] seen.contains(((#[trigger] fields[i]).name, t))
                && #[trigger] seen.contains((fields[i].name, u)) && t != u ==> {
                ||| fields[i].data_type == DataType::Utf8
                ||| fields[i].data_type == DataType::Float64
            },
        forall|i: int, t: DataType|
            0 <= i < fields.len() && #[trigger] seen.contains(((#[trigger] fields[i]).name, t))
                && fields[i].data_type == DataType::Float64 ==> t is Int64 || t is Float64,
        forall|i: int|
            0 <= i < fields.len() && (forall|t: DataType| #[trigger]
                seen.contains(((#[trigger] fields[i]).name, t)) ==> t is Int64 || t is Float64)
                && seen.contains((fields[i].name, DataType::Float64)) ==> fields[i].data_type
                == DataType::Float64,
{
    assert forall|i: int| 0 <= i < fields.len() implies exists|t: DataType|
        #[trigger] seen.contains(((#[trigger] fields[i]).name, t)) by {
        assert(names_seen(seen).contains(fields[i].name));
    }
    assert forall|pair: (Seq<char>, DataType)| #[trigger] seen.contains(pair) implies exists|
        i: int,
    |
        0 <= i < fields.len() && (#[trigger] fields[i]).name == pair.0 by {
        assert(seen.contains((pair.0, pair.1)));
        assert(names_seen(seen).contains(pair.0));
    }
    assert forall|i: int, t: DataType|
        0 <= i < fields.len() && #[trigger] seen.contains(((#[trigger] fields[i]).name, t))
            && fields[i].data_type != t implies exists|u: DataType|
        u != t && #[trigger] seen.contains((fields[i].name, u)) by {
        let types = types_of(seen, fields[i].name);
        assert(types.contains(t));
        if forall|u: DataType| #[trigger] types.contains(u) ==> u == t {
            law_only_type(types, t);
        } else {
            let u = choose|u: DataType| #[trigger] types.contains(u) && u != t;
            assert(seen.contains((fields[i].name, u)));
        }
    }
    assert forall|i: int, t: DataType, u: DataType|
        0 <= i < fields.len() && #[trigger] seen.contains(((#[trigger] fields[i]).name, t))
            && #[trigger] seen.contains((fields[i].name, u)) && t != u implies {
        ||| fields[i].data_type == DataType::Utf8
        ||| fields[i].data_type == DataType::Float64
    } by {
        let types = types_of(seen, fields[i].name);
        assert(types.contains(t) && types.contains(u));
        law_several_types(types, t, u);
    }
    assert forall|i: int, t: DataType|
        0 <= i < fields.len() && #[trigger] seen.contains(((#[trigger] fields[i]).name, t))
            && fields[i].data_type == DataType::Float64 implies t is Int64 || t is Float64 by {
        let types = types_of(seen, fields[i].name);
        assert(types.contains(t));
        if forall|u: DataType| #[trigger] types.contains(u) ==> u == t {
            law_only_type(types, t);
        } else {
            let u = choose|u: DataType| #[trigger] types.contains(u) && u != t;
            law_several_types(types, t, u);
        }
    }
    assert forall|i: int|
        0 <= i < fields.len() && (forall|t: DataType| #[trigger]
            seen.contains(((#[trigger] fields[i]).name, t)) ==> t is Int64 || t is Float64)
            && seen.contains((fields[i].name, DataType::Float64)) implies fields[i].data_type
        == DataType::Float64 by {
        let types = types_of(seen, fields[i].name);
        assert(types.contains(DataType::Float64));
        assert forall|t: DataType| #[trigger] types.contains(t) implies t is Int64
            || t is Float64 by {
            assert(seen.contains((fields[i].name, t)));
        }
        if types.contains(DataType::Int64) {
            law_several_types(types, DataType::Int64, DataType::Float64);
        } else {
            law_only_type(types, DataType::Float64);
        }
    }
}

/// A name for which a string was seen along with any other type is one of text.
pub proof fn law_text_among_others(
    fields: Seq<FieldView>,
    seen: Set<(Seq<char>, DataType)>,
    i: int,
    t: DataType,
)
    requires
        is_schema_of(fields, seen),
        0 <= i < fields.len(),
        seen.contains((fields[i].name, t)),
        !(t is Int64) && !(t is Float64),
        exists|u: DataType| u != t && #[trigger] seen.contains((fields[i].name, u)),
    ensures
        fields[i].data_type == DataType::Utf8,
{
    let types = types_of(seen, fields[i].name);
    let u = choose|u: DataType| u != t && #[trigger] seen.contains((fields[i].name, u));
    assert(types.contains(t) && types.contains(u));
    law_several_types(types, t, u);
}

/// The schema of a table has a nullable field for each name of the table, none twice, and a
/// name without types is one of text.
pub proof fn law_table_schema(
    fields: Seq<FieldView>,
    names: Set<Seq<char>>,
    seen: Set<(Seq<char>, DataType)>,
)
    requires
        is_schema_for(fields, names, seen),
    ensures
        forall|i: int, j: int|
            0 <= i < fields.len() && 0 <= j < fields.len() && i != j ==> (#[trigger] fields[i]).name
                != (#[trigger] fields[j]).name,
        forall|i: int|
            0 <= i < fields.len() ==> (#[trigger] fields[i]).nullable && names.contains(
                fields[i].name,
            ),
        forall|name: Seq<char>| #[trigger]
            names.contains(name) ==> exists|i: int|
                0 <= i < fields.len() && (#[trigger] fields[i]).name == name,
        forall|i: int|
            0 <= i < fields.len() && (forall|t: DataType|
                !#[trigger] seen.contains(((#[trigger] fields[i]).name, t)))
                ==> fields[i].data_type == DataType::Utf8,
        forall|i: int, t: DataType|
            0 <= i < fields.len() && #[trigger] seen.contains(((#[trigger] fields[i]).name, t)) && (
            forall|u: DataType| #[trigger] seen.contains((fields[i].name, u)) ==> u == t)
                ==> fields[i].data_type == t,
        forall|i: int, t: DataType, u: DataType|
            0 <= i < fields.len() && #[trigger] seen.contains(((#[trigger] fields[i]).name, t))
                && #[trigger] seen.contains((fields[i].name, u)) && t != u ==> fields[i].data_type
                == if forall|w: DataType| #[trigger]
                seen.contains((fields[i].name, w)) ==> w is Int64 || w is Float64 {
                DataType::Float64
            } else {
                DataType::Utf8
            },
{
    assert forall|i: int|
        0 <= i < fields.len() && (forall|t: DataType|
            !#[trigger] seen.contains(((#[trigger] fields[i]).name, t))) implies fields[i].data_type
        == DataType::Utf8 by {
        law_no_type(types_of(seen, fields[i].name));
    }
    assert forall|i: int, t: DataType|
        0 <= i < fields.len() && #[trigger] seen.contains(((#[trigger] fields[i]).name, t)) && (
        forall|u: DataType| #[trigger] seen.contains((fields[i].name, u)) ==> u == t) implies
        fields[i].data_type == t by {
        law_only_type(types_of(seen, fields[i].name), t);
    }
    assert forall|i: int, t: DataType, u: DataType|
        0 <= i < fields.len() && #[trigger] seen.contains(((#[trigger] fields[i]).name, t))
            && #[trigger] seen.contains((fields[i].name, u)) && t != u implies fields[i].data_type
        == if forall|w: DataType| #[trigger]
        seen.contains((fields[i].name, w)) ==> w is Int64 || w is Float64 {
        DataType::Float64
    } else {
        DataType::Utf8
    } by {
        let types = types_of(seen, fields[i].name);
        assert(types.contains(t) && types.contains(u));
        law_several_types(types, t, u);
        if !(forall|w: DataType| #[trigger]
            seen.contains((fields[i].name, w)) ==> w is Int64 || w is Float64) {
            let w = choose|w: DataType| #[trigger]
                seen.contains((fields[i].name, w)) && !(w is Int64 || w is Float64);
            assert(types.contains(w));
        }
    }
}

/// A table of types has seen a type for a name where the name has a column with the type.
pub proof fn law_table(table: TypeTable, name: Seq<char>, t: DataType)
    ensures
        table.seen().contains((name, t)) <==> exists|i: int, j: int|
            0 <= i < table.columns@.len() && table.columns@[i].name@ == name && 0 <= j
                < table.columns@[i].types@.len() && #[trigger] table.columns@[i].types@[j] == t,
        table.names().contains(name) <==> exists|i: int|
            0 <= i < table.columns@.len() && #[trigger] table.columns@[i].name@ == name,
{
    if table.seen().contains((name, t)) {
        let i = choose|i: int| table.has(i, (name, t));
        let j = table.columns@[i].types@.index_of(t);
        assert(table.columns@[i].types@[j] == t);
    }
    assert forall|i: int, j: int|
        0 <= i < table.columns@.len() && table.columns@[i].name@ == name && 0 <= j
            < table.columns@[i].types@.len() && #[trigger] table.columns@[i].types@[j]
            == t implies table.seen().contains((name, t)) by {
        assert(table.has(i, (name, t)));
    }
}

/// Lines without an empty one among them are taken in together where each can be, and they
/// speak together for what each of them speaks for.
pub proof fn law_lines(lines: Seq<Seq<char>>, limit: nat)
    requires
        forall|i: int| 0 <= i < lines.len() ==> (#[trigger] lines[i]).len() > 0,
        lines.len() <= limit,
    ensures
        (forall|i: int| 0 <= i < lines.len() ==> line_observed(#[trigger] lines[i]) is Ok)
            <==> lines_observed(lines, limit) is Ok,
        lines_observed(lines, limit) matches Ok(seen) ==> forall|pair: (Seq<char>, DataType)|
            seen.contains(pair) <==> exists|i: int|
                0 <= i < lines.len() && line_observed(#[trigger] lines[i])->Ok_0.contains(pair),
        lines_observed(lines, limit) matches Err(error) ==> exists|i: int|
            0 <= i < lines.len() && line_observed(#[trigger] lines[i]) == Err::<
                Set<(Seq<char>, DataType)>,
                JsonError,
            >(error) && forall|j: int| 0 <= j < i ==> line_observed(#[trigger] lines[j]) is Ok,
{
    law_lines_speak_for_themselves(lines, limit);
    law_first_bad_line_decides(lines, limit);
    if lines_observed(lines, limit) is Err {
        let error = lines_observed(lines, limit)->Err_0;
        let i = choose|i: int| is_first_bad_line(lines, limit, i, error);
        assert(line_observed(lines[i]) == Err::<Set<(Seq<char>, DataType)>, JsonError>(error));
    }
}

/// The records on lines decide the type of a field: it is the only type that their members of
/// that name speak for. Where these speak for several types, it is `Float64` if all of them are
/// `Int64` or `Float64`, and text otherwise.
pub proof fn law_field_of_lines(
    lines: Seq<Seq<char>>,
    limit: nat,
    fields: Seq<FieldView>,
    k: int,
    i: int,
    j: int,
    t: DataType,
    u: DataType,
)
    requires
        forall|l: int| 0 <= l < lines.len() ==> (#[trigger] lines[l]).len() > 0,
        lines.len() <= limit,
        lines_observed(lines, limit) is Ok,
        is_schema_of(fields, lines_observed(lines, limit)->Ok_0),
        0 <= k < fields.len(),
        0 <= i < lines.len(),
        0 <= j < lines.len(),
        observed(json_of(trimmed(lines[i]))->Some_0).contains((fields[k].name, t)),
        observed(json_of(trimmed(lines[j]))->Some_0).contains((fields[k].name, u)),
    ensures
        t != u && !((t is Int64 || t is Float64) && (u is Int64 || u is Float64))
            ==> fields[k].data_type == DataType::Utf8,
        t != u ==> fields[k].data_type == DataType::Utf8 || fields[k].data_type
            == DataType::Float64,
        fields[k].data_type == DataType::Float64 ==> t is Int64 || t is Float64,
{
    law_lines(lines, limit);
    let seen = lines_observed(lines, limit)->Ok_0;
    assert(line_observed(lines[i]) is Ok && line_observed(lines[j]) is Ok);
    assert(line_observed(lines[i])->Ok_0.contains((fields[k].name, t)));
    assert(line_observed(lines[j])->Ok_0.contains((fields[k].name, u)));
    assert(seen.contains((fields[k].name, t)));
    assert(seen.contains((fields[k].name, u)));
    law_inferred_schema(fields, seen);
    if t != u && !(t is Int64 || t is Float64) {
        law_text_among_others(fields, seen, k, t);
    } else if t != u && !(u is Int64 || u is Float64) {
        law_text_among_others(fields, seen, k, u);
    }
}

// Values

/// A value holds what its variant is given: a string all of its characters, a list all of its
/// items and an object all of its members, each in order.
pub proof fn law_values(value: JsonValue)
    ensures
        match value {
            JsonValue::Null => value@ == Json::Null,
            JsonValue::Bool(b) => value@ == Json::Bool(b),
            JsonValue::Number(n) => value@ == Json::Number(n),
            JsonValue::String(s) => value@ == Json::Str(s@),
            JsonValue::Array(values) => value@ matches Json::List(items) && items.len()
                == values@.len() && forall|i: int|
                0 <= i < items.len() ==> #[trigger] items[i] == values@[i]@,
            JsonValue::Object(values) => value@ matches Json::Record(members) && members.len()
                == values@.len() && forall|i: int|
                0 <= i < members.len() ==> (#[trigger] members[i]).0 == values@[i].0@
                    && members[i].1 == values@[i].1@,
        },
{
}

/// What a value is asked for it has where it is of that kind, and only there.
pub proof fn law_kinds(json: Json)
    ensures
        bool_of(json) == match json {
            Json::Bool(b) => Some(b),
            _ => None,
        },
        string_of(json) == match json {
            Json::Str(s) => Some(s),
            _ => None,
        },
        number_of(json) == match json {
            Json::Number(n) => Some(n),
            _ => None,
        },
{
}

/// A value without a number in it is sound, and so is one whose items or members all are. A
/// number that is no integer of 64 bits is sound where its double is finite.
pub proof fn law_sound(json: Json)
    ensures
        match json {
            Json::Number(n) => n.as_i64 is None ==> (is_sound(json) <==> (n.as_f64 matches Some(
                bits,
            ) && is_finite(bits))),
            Json::List(items) => is_sound(json) <==> forall|i: int|
                0 <= i < items.len() ==> is_sound(#[trigger] items[i]),
            Json::Record(members) => is_sound(json) <==> forall|i: int|
                0 <= i < members.len() ==> is_sound((#[trigger] members[i]).1),
            _ => is_sound(json),
        },
{
}

/// The values of a sequence are those of its places.
pub proof fn law_sequences(values: Seq<JsonValue>, lines: Seq<String>)
    ensures
        jsons(values).len() == values.len(),
        forall|i: int| 0 <= i < values.len() ==> #[trigger] jsons(values)[i] == values[i]@,
        texts(lines).len() == lines.len(),
        forall|i: int| 0 <= i < lines.len() ==> #[trigger] texts(lines)[i] == lines[i]@,
{
}

/// A field says its name, its type and whether it is nullable, and a schema has its fields in
/// order.
pub proof fn law_schemas(field: Field, schema: Schema, batch: RecordBatch)
    ensures
        field@.name == field.name@,
        field@.data_type == field.data_type,
        field@.nullable == field.nullable,
        schema@.len() == schema.fields@.len(),
        forall|i: int| 0 <= i < schema@.len() ==> #[trigger] schema@[i] == schema.fields@[i]@,
        batch.schema() == *batch.schema,
{
}

/// The member of a record is the first of exactly that name, if there is one.
pub proof fn law_member(json: Json, name: Seq<char>)
    ensures
        json matches Json::Record(members) ==> match member(json, name) {
            Some(value) => exists|i: int|
                0 <= i < members.len() && (#[trigger] members[i]).0 == name && members[i].1 == value
                    && forall|j: int| 0 <= j < i ==> (#[trigger] members[j]).0 != name,
            None => forall|i: int| 0 <= i < members.len() ==> (#[trigger] members[i]).0 != name,
        },
        !(json is Record) ==> member(json, name) is None,
{
    match json {
        Json::Record(members) => {
            lemma_lookup(members, name);
        },
        _ => {},
    }
}

proof fn lemma_lookup(members: Seq<(Seq<char>, Json)>, name: Seq<char>)
    ensures
        match lookup(members, name) {
            Some(value) => exists|i: int|
                0 <= i < members.len() && (#[trigger] members[i]).0 == name && members[i].1 == value
                    && forall|j: int| 0 <= j < i ==> (#[trigger] members[j]).0 != name,
            None => forall|i: int| 0 <= i < members.len() ==> (#[trigger] members[i]).0 != name,
        },
    decreases members.len(),
{
    if members.len() > 0 && members[0].0 != name {
        let rest = members.drop_first();
        lemma_lookup(rest, name);
        match lookup(members, name) {
            Some(value) => {
                let i = choose|i: int|
                    0 <= i < rest.len() && (#[trigger] rest[i]).0 == name && rest[i].1 == value
                        && forall|j: int| 0 <= j < i ==> (#[trigger] rest[j]).0 != name;
                assert(members[i + 1] == rest[i]);
                assert forall|j: int| 0 <= j < i + 1 implies (#[trigger] members[j]).0 != name by {
                    if j > 0 {
                        assert(members[j] == rest[j - 1]);
                    }
                }
            },
            None => {
                assert forall|i: int| 0 <= i < members.len() implies (#[trigger] members[i]).0
                    != name by {
                    if i > 0 {
                        assert(members[i] == rest[i - 1]);
                    }
                }
            },
        }
    } else if members.len() > 0 {
        assert(members[0].0 == name);
    }
}

/// Trimming takes nothing but white space off the two ends of a text, and leaves none there.
pub proof fn law_trimmed(text: Seq<char>)
    ensures
        exists|from: int, to: int|
            0 <= from <= to <= text.len() && trimmed(text) == #[trigger] text.subrange(from, to)
                && (forall|i: int| 0 <= i < from ==> is_white_space(#[trigger] text[i])) && (
            forall|i: int| to <= i < text.len() ==> is_white_space(#[trigger] text[i])),
        trimmed(text).len() > 0 ==> !is_white_space(trimmed(text)[0]) && !is_white_space(
            trimmed(text)[trimmed(text).len() - 1],
        ),
{
    let ends = lemma_trimmed(text);
    assert(trimmed(text) == text.subrange(ends.0, ends.1));
}

/// Where the trimmed text starts and ends.
proof fn lemma_trimmed(text: Seq<char>) -> (ends: (int, int))
    ensures
        0 <= ends.0 <= ends.1 <= text.len(),
        trimmed(text) == text.subrange(ends.0, ends.1),
        forall|i: int| 0 <= i < ends.0 ==> is_white_space(#[trigger] text[i]),
        forall|i: int| ends.1 <= i < text.len() ==> is_white_space(#[trigger] text[i]),
        ends.0 < ends.1 ==> !is_white_space(text[ends.0]) && !is_white_space(text[ends.1 - 1]),
    decreases text.len(),
{
    if text.len() > 0 && is_white_space(text.first()) {
        let rest = text.drop_first();
        let ends = lemma_trimmed(rest);
        assert(rest.subrange(ends.0, ends.1) =~= text.subrange(ends.0 + 1, ends.1 + 1));
        assert forall|i: int| 0 <= i < ends.0 + 1 implies is_white_space(#[trigger] text[i]) by {
            if i > 0 {
                assert(rest[i - 1] == text[i]);
            }
        }
        assert forall|i: int| ends.1 + 1 <= i < text.len() implies is_white_space(
            #[trigger] text[i],
        ) by {
            assert(rest[i - 1] == text[i]);
        }
        (ends.0 + 1, ends.1 + 1)
    } else if text.len() > 0 && is_white_space(text.last()) {
        let rest = text.drop_last();
        let ends = lemma_trimmed(rest);
        assert(rest.subrange(ends.0, ends.1) =~= text.subrange(ends.0, ends.1));
        assert forall|i: int| 0 <= i < ends.0 implies is_white_space(#[trigger] text[i]) by {
            assert(rest[i] == text[i]);
        }
        assert forall|i: int| ends.1 <= i < text.len() implies is_white_space(
            #[trigger] text[i],
        ) by {
            if i < rest.len() {
                assert(rest[i] == text[i]);
            }
        }
        ends
    } else {
        assert(text =~= text.subrange(0, text.len() as int));
        (0, text.len() as int)
    }
}

/// Of the ASCII characters, the blank and those from the tab to the carriage return are white
/// space.
pub proof fn law_ascii_white_space(c: char)
    requires
        (c as u32) < 0x80,
    ensures
        is_white_space(c) <==> (c as u32) == 0x20 || 0x9 <= (c as u32) <= 0xd,
{
}

// Cells

/// A column has a cell for each row, made of what the row has for its name.
pub proof fn law_column(data_type: DataType, rows: Seq<Json>, name: Seq<char>)
    ensures
        column_cells(data_type, rows, name).len() == rows.len(),
        forall|i: int|
            0 <= i < rows.len() ==> #[trigger] column_cells(data_type, rows, name)[i] == cell_of(
                data_type,
                member(rows[i], name),
            ),
{
}

/// The cell of an integer in a column of integers is that integer where it is between the least
/// and the greatest of the type, and null where it is not.
pub proof fn law_integer_cell(data_type: DataType, n: Number, v: i64)
    requires
        data_type is Int8 || data_type is Int16 || data_type is Int32 || data_type is Int64
            || data_type is UInt8 || data_type is UInt16 || data_type is UInt32
            || data_type is UInt64,
        n.as_i64 == Some(v),
    ensures
        (match data_type {
            DataType::Int8 => i8::MIN <= v <= i8::MAX,
            DataType::Int16 => i16::MIN <= v <= i16::MAX,
            DataType::Int32 => i32::MIN <= v <= i32::MAX,
            DataType::Int64 => i64::MIN <= v <= i64::MAX,
            DataType::UInt8 => 0 <= v <= u8::MAX,
            DataType::UInt16 => 0 <= v <= u16::MAX,
            DataType::UInt32 => 0 <= v <= u32::MAX,
            DataType::UInt64 => 0 <= v <= u64::MAX,
            _ => false,
        }) ==> cell_of(data_type, Some(Json::Number(n))) == Cell::Int(v as int),
        !(match data_type {
            DataType::Int8 => i8::MIN <= v <= i8::MAX,
            DataType::Int16 => i16::MIN <= v <= i16::MAX,
            DataType::Int32 => i32::MIN <= v <= i32::MAX,
            DataType::Int64 => i64::MIN <= v <= i64::MAX,
            DataType::UInt8 => 0 <= v <= u8::MAX,
            DataType::UInt16 => 0 <= v <= u16::MAX,
            DataType::UInt32 => 0 <= v <= u32::MAX,
            DataType::UInt64 => 0 <= v <= u64::MAX,
            _ => false,
        }) ==> cell_of(data_type, Some(Json::Number(n))) == Cell::Null,
{
}

/// In a column of integers, what is no integer of 64 bits is null.
pub proof fn law_no_integer_cell(data_type: DataType, value: Option<Json>)
    requires
        data_type is Int8 || data_type is Int16 || data_type is Int32 || data_type is Int64
            || data_type is UInt8 || data_type is UInt16 || data_type is UInt32
            || data_type is UInt64,
        !(value matches Some(Json::Number(n)) && n.as_i64 is Some),
    ensures
        cell_of(data_type, value) == Cell::Null,
{
}

/// In a column of floating point numbers, an integer of 64 bits is cast, another number goes
/// by its double, and what is no number, or an integer beyond 64 bits with a sign, is null.
pub proof fn law_float_cell(value: Option<Json>)
    ensures
        value matches Some(Json::Number(n)) ==> {
            &&& n.as_i64 matches Some(v) ==> {
                &&& cell_of(DataType::Float64, value) == Cell::Double(double_of_int(v))
                &&& cell_of(DataType::Float32, value) == Cell::Single(single_of_int(v))
            }
            &&& n.as_i64 is None && n.is_f64 ==> (n.as_f64 matches Some(bits) ==> {
                &&& cell_of(DataType::Float64, value) == Cell::Double(bits)
                &&& cell_of(DataType::Float32, value) == Cell::Single(single_of(bits))
            })
            &&& n.as_i64 is None && !n.is_f64 ==> {
                &&& cell_of(DataType::Float64, value) == Cell::Null
                &&& cell_of(DataType::Float32, value) == Cell::Null
            }
        },
        !(value matches Some(Json::Number(_))) ==> {
            &&& cell_of(DataType::Float64, value) == Cell::Null
            &&& cell_of(DataType::Float32, value) == Cell::Null
        },
{
}

/// The cell of a truth value in a column of truth values is that truth value, and the cell of a
/// string in a column of text has exactly its characters. What is of another kind is null.
pub proof fn law_plain_cell(value: Option<Json>)
    ensures
        value matches Some(Json::Bool(b)) ==> cell_of(DataType::Boolean, value) == Cell::Bool(b),
        !(value matches Some(Json::Bool(_))) ==> cell_of(DataType::Boolean, value) == Cell::Null,
        value matches Some(Json::Str(s)) ==> cell_of(DataType::Utf8, value) == Cell::Str(s),
        !(value matches Some(Json::Str(_))) ==> cell_of(DataType::Utf8, value) == Cell::Null,
{
}

/// The cell of a list has as many items as the list, one for each, in order: the item at a
/// place is what the list of only the value at that place would hold. A value that is no list
/// makes a list of one item, and no value makes an empty one.
pub proof fn law_list_cell(item: DataType, value: Option<Json>)
    ensures
        ({
            let data_type = DataType::List(Box::new(item));
            cell_of(data_type, value) matches Cell::List(cells) && match value {
                Some(Json::List(items)) => cells.len() == items.len() && forall|i: int|
                    #![trigger cells[i]]
                    #![trigger items[i]]
                    0 <= i < items.len() ==> cell_of(data_type, Some(Json::List(seq![items[i]])))
                        == Cell::List(seq![cells[i]]),
                Some(json) => cells.len() == 1 && cell_of(data_type, Some(Json::List(seq![json])))
                    == Cell::List(cells),
                None => cells.len() == 0,
            }
        }),
{
    let data_type = DataType::List(Box::new(item));
    let cells = cell_of(data_type, value)->List_0;
    match value {
        Some(Json::List(items)) => {
            assert forall|i: int|
                #![trigger cells[i]]
                #![trigger items[i]]
                0 <= i < items.len() implies cell_of(data_type, Some(Json::List(seq![items[i]])))
                == Cell::List(seq![cells[i]]) by {
                assert(cell_of(data_type, Some(Json::List(seq![items[i]])))->List_0 =~= seq![
                    cells[i],
                ]);
            }
        },
        _ => {},
    }
}

/// The items of a list of truth values are the truth values of the list, and those of a list of
/// text have exactly the characters of its strings. What is of another kind is null.
pub proof fn law_plain_items(items: Seq<Json>, i: int)
    requires
        0 <= i < items.len(),
    ensures
        cell_of(DataType::List(Box::new(DataType::Boolean)), Some(Json::List(items))) matches
            Cell::List(cells) && cells[i] == match items[i] {
            Json::Bool(b) => Cell::Bool(b),
            _ => Cell::Null,
        },
        cell_of(DataType::List(Box::new(DataType::Utf8)), Some(Json::List(items))) matches
            Cell::List(cells) && cells[i] == match items[i] {
            Json::Str(s) => Cell::Str(s),
            _ => Cell::Null,
        },
{
}

/// The items of a list of floating point numbers are the numbers of the list, by their doubles.
/// What is no number is null.
pub proof fn law_float_items(items: Seq<Json>, i: int)
    requires
        0 <= i < items.len(),
    ensures
        cell_of(DataType::List(Box::new(DataType::Float64)), Some(Json::List(items))) matches
            Cell::List(cells) && cells[i] == match items[i] {
            Json::Number(n) => match n.as_f64 {
                Some(bits) => Cell::Double(bits),
                None => Cell::Null,
            },
            _ => Cell::Null,
        },
        cell_of(DataType::List(Box::new(DataType::Float32)), Some(Json::List(items))) matches
            Cell::List(cells) && cells[i] == match items[i] {
            Json::Number(n) => match n.as_f64 {
                Some(bits) => Cell::Single(single_of(bits)),
                None => Cell::Null,
            },
            _ => Cell::Null,
        },
{
}

/// The item of a number in a list of integers is the integer that the double of the number is
/// cast to, where that is between the least and the greatest of the type, and null where it is
/// not. What is no number is null.
pub proof fn law_integer_items(data_type: DataType, items: Seq<Json>, i: int)
    requires
        data_type is Int8 || data_type is Int16 || data_type is Int32 || data_type is Int64
            || data_type is UInt8 || data_type is UInt16 || data_type is UInt32
            || data_type is UInt64,
        0 <= i < items.len(),
    ensures
        cell_of(DataType::List(Box::new(data_type)), Some(Json::List(items))) matches Cell::List(
            cells,
        ) && match items[i] {
            Json::Number(n) => match n.as_f64 {
                Some(bits) => match integer_of(bits) {
                    Some(v) => {
                        &&& (match data_type {
                            DataType::Int8 => i8::MIN <= v <= i8::MAX,
                            DataType::Int16 => i16::MIN <= v <= i16::MAX,
                            DataType::Int32 => i32::MIN <= v <= i32::MAX,
                            DataType::Int64 => i64::MIN <= v <= i64::MAX,
                            DataType::UInt8 => 0 <= v <= u8::MAX,
                            DataType::UInt16 => 0 <= v <= u16::MAX,
                            DataType::UInt32 => 0 <= v <= u32::MAX,
                            DataType::UInt64 => 0 <= v <= u64::MAX,
                            _ => false,
                        }) ==> cells[i] == Cell::Int(v as int)
                        &&& !(match data_type {
                            DataType::Int8 => i8::MIN <= v <= i8::MAX,
                            DataType::Int16 => i16::MIN <= v <= i16::MAX,
                            DataType::Int32 => i32::MIN <= v <= i32::MAX,
                            DataType::Int64 => i64::MIN <= v <= i64::MAX,
                            DataType::UInt8 => 0 <= v <= u8::MAX,
                            DataType::UInt16 => 0 <= v <= u16::MAX,
                            DataType::UInt32 => 0 <= v <= u32::MAX,
                            DataType::UInt64 => 0 <= v <= u64::MAX,
                            _ => false,
                        }) ==> cells[i] == Cell::Null
                    },
                    None => cells[i] == Cell::Null,
                },
                None => cells[i] == Cell::Null,
            },
            _ => cells[i] == Cell::Null,
        },
{
}

/// The sizes that offsets count are sums over the cells: each string counts its bytes, each
/// list its items and the bytes of the strings in it.
pub proof fn law_sizes(cells: Seq<Cell>, cell: Cell)
    ensures
        text_bytes(Seq::empty()) == 0,
        total_items(Seq::empty()) == 0,
        total_item_bytes(Seq::empty()) == 0,
        null_cells(Seq::empty()) == 0,
        text_bytes(cells.push(cell)) == text_bytes(cells) + match cell {
            Cell::Str(s) => encode_utf8(s).len(),
            _ => 0,
        },
        total_items(cells.push(cell)) == total_items(cells) + match cell {
            Cell::List(items) => items.len(),
            _ => 0,
        },
        total_item_bytes(cells.push(cell)) == total_item_bytes(cells) + match cell {
            Cell::List(items) => text_bytes(items),
            _ => 0,
        },
        null_cells(cells.push(cell)) == null_cells(cells) + match cell {
            Cell::Null => 1nat,
            _ => 0nat,
        },
{
    assert(cells.push(cell).drop_last() =~= cells);
    assert(text_bytes(Seq::empty()) == 0);
}

/// A column outgrows its offsets where the bytes of its strings, or the items of its lists, or
/// the bytes of the strings in these, are more than 31 bits count; a column of another type
/// never does.
pub proof fn law_offsets(data_type: DataType, cells: Seq<Cell>)
    ensures
        overflows(data_type, cells) <==> match data_type {
            DataType::Utf8 => text_bytes(cells) > 0x7fff_ffff,
            DataType::List(item) => total_items(cells) > 0x7fff_ffff || (*item is Utf8
                && total_item_bytes(cells) > 0x7fff_ffff),
            _ => false,
        },
{
}

// Columns

/// A column fails for its type where that is neither a list nor one of the types that JSON
/// fills, for the type of its items where that is not one either, for a row where this has
/// for a list neither a list nor an item of one, and for its size where it outgrows its
/// offsets; and only there.
pub proof fn law_column_error(data_type: DataType, rows: Seq<Json>, name: Seq<char>)
    ensures
        column_error(data_type, rows, name) == match data_type {
            DataType::Other => Some(JsonError::StructType),
            DataType::List(item) => if *item is Other || *item is List {
                Some(JsonError::ListType)
            } else if exists|i: int|
                0 <= i < rows.len() && match #[trigger] member(rows[i], name) {
                    None => false,
                    Some(Json::List(_)) => false,
                    Some(Json::Bool(_)) => !(*item is Boolean),
                    Some(Json::Str(_)) => !(*item is Utf8),
                    Some(Json::Number(_)) => *item is Boolean || *item is Utf8,
                    Some(Json::Null) => true,
                    Some(Json::Record(_)) => true,
                } {
                Some(JsonError::NotScalar)
            } else if overflows(data_type, column_cells(data_type, rows, name)) {
                Some(JsonError::OffsetOverflow)
            } else {
                None
            },
            DataType::Utf8 => if overflows(data_type, column_cells(data_type, rows, name)) {
                Some(JsonError::OffsetOverflow)
            } else {
                None
            },
            _ => None,
        },
{
    match data_type {
        DataType::List(item) => {
            if is_item_type(*item) {
                assert forall|i: int| 0 <= i < rows.len() implies (is_listable(
                    *item,
                    #[trigger] member(rows[i], name),
                ) <==> !match member(rows[i], name) {
                    None => false,
                    Some(Json::List(_)) => false,
                    Some(Json::Bool(_)) => !(*item is Boolean),
                    Some(Json::Str(_)) => !(*item is Utf8),
                    Some(Json::Number(_)) => *item is Boolean || *item is Utf8,
                    Some(Json::Null) => true,
                    Some(Json::Record(_)) => true,
                }) by {}
            }
        },
        _ => {},
    }
}

/// A list column takes rows that have for it nothing, a list, or a value of the kind of its
/// items.
pub proof fn law_listable(item: DataType, rows: Seq<Json>, name: Seq<char>)
    requires
        !(item is List) && !(item is Other),
    ensures
        all_listable(item, rows, name) <==> forall|i: int|
            0 <= i < rows.len() ==> match #[trigger] member(rows[i], name) {
                None => true,
                Some(Json::List(_)) => true,
                Some(Json::Bool(_)) => item is Boolean,
                Some(Json::Str(_)) => item is Utf8,
                Some(Json::Number(_)) => !(item is Boolean) && !(item is Utf8),
                Some(Json::Null) => false,
                Some(Json::Record(_)) => false,
            },
{
    assert forall|i: int| 0 <= i < rows.len() implies (is_listable(
        item,
        #[trigger] member(rows[i], name),
    ) <==> match member(rows[i], name) {
        None => true,
        Some(Json::List(_)) => true,
        Some(Json::Bool(_)) => item is Boolean,
        Some(Json::Str(_)) => item is Utf8,
        Some(Json::Number(_)) => !(item is Boolean) && !(item is Utf8),
        Some(Json::Null) => false,
        Some(Json::Record(_)) => false,
    }) by {}
}

/// A list column that was built has the lists of the rows, or it has outgrown its offsets.
pub proof fn law_list_column(
    built: Result<Array, JsonError>,
    item: DataType,
    rows: Seq<Json>,
    name: Seq<char>,
)
    requires
        is_list_column(built, item, rows, name),
    ensures
        ({
            let data_type = DataType::List(Box::new(item));
            match built {
                Ok(array) => {
                    &&& array_type(array) == data_type
                    &&& array_cells(array).len() == rows.len()
                    &&& forall|i: int|
                        0 <= i < rows.len() ==> #[trigger] array_cells(array)[i] == cell_of(
                            data_type,
                            member(rows[i], name),
                        )
                },
                Err(error) => error == JsonError::OffsetOverflow && overflows(
                    data_type,
                    column_cells(data_type, rows, name),
                ),
            }
        }),
{
}

/// The types of integers are those of 8, 16, 32 and 64 bits, with a sign and without, and the
/// types of floating point numbers are those of single and double precision.
pub proof fn law_number_types(data_type: DataType)
    ensures
        is_int_type(data_type) <==> data_type is Int8 || data_type is Int16 || data_type is Int32
            || data_type is Int64 || data_type is UInt8 || data_type is UInt16
            || data_type is UInt32 || data_type is UInt64,
        is_float_type(data_type) <==> data_type is Float32 || data_type is Float64,
{
}

// Reading

/// A batch of valid lines has the values that these spell, as they stand, each once and in
/// order: as many as the batch size, or all where there are fewer.
pub proof fn law_rows(lines: Seq<Seq<char>>, limit: nat)
    requires
        forall|i: int|
            0 <= i < lines.len() ==> (#[trigger] lines[i]).len() > 0 && json_of(lines[i]) is Some,
    ensures
        read_rows(lines, limit).0 matches Ok(rows) && read_rows(lines, limit).1 == rows.len()
            && rows.len() == (if limit <= lines.len() {
            limit
        } else {
            lines.len()
        }) && forall|i: int|
            0 <= i < rows.len() ==> Some(#[trigger] rows[i]) == json_of(lines[i]),
{
    lemma_valid_rows(lines, limit);
}

/// After valid lines, fewer than the batch size, an empty line ends a batch, and a line that is
/// no JSON fails it. Either is used up, and what comes after it is not looked at.
pub proof fn law_rows_up_to(
    lines: Seq<Seq<char>>,
    line: Seq<char>,
    after: Seq<Seq<char>>,
    limit: nat,
)
    requires
        forall|i: int|
            0 <= i < lines.len() ==> (#[trigger] lines[i]).len() > 0 && json_of(lines[i]) is Some,
        lines.len() < limit,
        line.len() == 0 || json_of(line) is None,
    ensures
        read_rows(lines + seq![line] + after, limit).1 == lines.len() + 1,
        line.len() > 0 ==> read_rows(lines + seq![line] + after, limit).0 == Err::<
            Seq<Json>,
            JsonError,
        >(JsonError::NotValidJson),
        line.len() == 0 ==> read_rows(lines + seq![line] + after, limit).0 == read_rows(
            lines,
            limit,
        ).0,
    decreases lines.len(),
{
    let all = lines + seq![line] + after;
    if lines.len() == 0 {
        assert(all[0] == line);
    } else {
        let rest = lines.drop_first();
        assert(all[0] == lines[0]);
        assert(all.drop_first() =~= rest + seq![line] + after);
        assert forall|i: int| 0 <= i < rest.len() implies (#[trigger] rest[i]).len() > 0
            && json_of(rest[i]) is Some by {
            assert(rest[i] == lines[i + 1]);
        }
        law_rows_up_to(rest, line, after, (limit - 1) as nat);
    }
}

/// A batch looks at no more lines than the batch size.
pub proof fn law_rows_look_no_further(lines: Seq<Seq<char>>, n: nat, limit: nat)
    requires
        n <= lines.len(),
        n <= limit,
    ensures
        read_rows(lines, n) == read_rows(lines.take(n as int), limit),
    decreases lines.len(),
{
    let first = lines.take(n as int);
    if n > 0 {
        assert(first[0] == lines[0]);
        assert(first.drop_first() =~= lines.drop_first().take(n - 1));
        law_rows_look_no_further(lines.drop_first(), (n - 1) as nat, (limit - 1) as nat);
    }
}

/// A batch has a column for each selected field, of its name and type, and the cell of a column
/// in a row is made of what the row has for the name. A column is nullable where its field is,
/// or where it has a null, and not otherwise.
pub proof fn law_batch(batch: ColumnBatch, fields: Seq<FieldView>, rows: Seq<Json>)
    requires
        is_batch_of(batch, fields, rows),
    ensures
        batch_fields(batch).len() == fields.len(),
        batch_cells(batch).len() == fields.len(),
        forall|i: int|
            0 <= i < fields.len() ==> {
                &&& (#[trigger] batch_fields(batch)[i]).name == fields[i].name
                &&& batch_fields(batch)[i].data_type == fields[i].data_type
                &&& batch_fields(batch)[i].nullable <==> fields[i].nullable || null_cells(
                    batch_cells(batch)[i],
                ) > 0
            },
        forall|i: int| 0 <= i < fields.len() ==> (#[trigger] batch_cells(batch)[i]).len()
            == rows.len(),
        forall|i: int, j: int|
            0 <= i < fields.len() && 0 <= j < rows.len() ==> #[trigger] batch_cells(batch)[i][j]
                == cell_of(fields[i].data_type, member(rows[j], fields[i].name)),
{
}

/// Without a column there is no batch, and otherwise a batch fails with the error of the first
/// column that fails.
pub proof fn law_batch_error(fields: Seq<FieldView>, rows: Seq<Json>)
    ensures
        fields.len() == 0 ==> batch_error(fields, rows) == Some(JsonError::NoColumns),
        fields.len() > 0 ==> match batch_error(fields, rows) {
            Some(error) => exists|i: int|
                0 <= i < fields.len() && column_error(
                    (#[trigger] fields[i]).data_type,
                    rows,
                    fields[i].name,
                ) == Some(error) && forall|j: int|
                    0 <= j < i ==> column_error(
                        (#[trigger] fields[j]).data_type,
                        rows,
                        fields[j].name,
                    ) is None,
            None => forall|i: int|
                0 <= i < fields.len() ==> column_error(
                    (#[trigger] fields[i]).data_type,
                    rows,
                    fields[i].name,
                ) is None,
        },
{
    lemma_error_is_first(fields, rows);
}

proof fn lemma_error_is_first(fields: Seq<FieldView>, rows: Seq<Json>)
    ensures
        match first_error(fields, rows) {
            Some(error) => exists|i: int|
                0 <= i < fields.len() && column_error(
                    (#[trigger] fields[i]).data_type,
                    rows,
                    fields[i].name,
                ) == Some(error) && forall|j: int|
                    0 <= j < i ==> column_error(
                        (#[trigger] fields[j]).data_type,
                        rows,
                        fields[j].name,
                    ) is None,
            None => forall|i: int|
                0 <= i < fields.len() ==> column_error(
                    (#[trigger] fields[i]).data_type,
                    rows,
                    fields[i].name,
                ) is None,
        },
    decreases fields.len(),
{
    if fields.len() > 0 {
        let shorter = fields.drop_last();
        lemma_error_is_first(shorter, rows);
        match first_error(shorter, rows) {
            Some(error) => {
                let i = choose|i: int|
                    0 <= i < shorter.len() && column_error(
                        (#[trigger] shorter[i]).data_type,
                        rows,
                        shorter[i].name,
                    ) == Some(error) && forall|j: int|
                        0 <= j < i ==> column_error(
                            (#[trigger] shorter[j]).data_type,
                            rows,
                            shorter[j].name,
                        ) is None;
                assert(fields[i] == shorter[i]);
                assert forall|j: int| 0 <= j < i implies column_error(
                    (#[trigger] fields[j]).data_type,
                    rows,
                    fields[j].name,
                ) is None by {
                    assert(shorter[j] == fields[j]);
                }
            },
            None => {
                let last = fields.len() - 1;
                assert forall|j: int| 0 <= j < last implies column_error(
                    (#[trigger] fields[j]).data_type,
                    rows,
                    fields[j].name,
                ) is None by {
                    assert(shorter[j] == fields[j]);
                }
                assert(fields[last] == fields.last());
            },
        }
    }
}

// Projection

/// Where a projection names columns, every selected field is one of the schema whose name is
/// among the names, letter for letter, and every such field is selected.
pub proof fn law_projection(fields: Seq<FieldView>, names: Seq<Seq<char>>)
    requires
        names.len() > 0,
    ensures
        forall|i: int|
            0 <= i < selected(fields, Some(names)).len() ==> exists|j: int|
                0 <= j < names.len() && #[trigger] names[j] == (#[trigger] selected(
                    fields,
                    Some(names),
                )[i]).name,
        forall|i: int|
            0 <= i < selected(fields, Some(names)).len() ==> fields.contains(
                #[trigger] selected(fields, Some(names))[i],
            ),
        forall|k: int, j: int|
            0 <= k < fields.len() && 0 <= j < names.len() && (#[trigger] fields[k]).name
                == #[trigger] names[j] ==> selected(fields, Some(names)).contains(fields[k]),
        fields.no_duplicates() ==> selected(fields, Some(names)).no_duplicates(),
{
    law_projection_is_omission(fields, Some(names));
    let kept = selected(fields, Some(names));
    assert forall|i: int| 0 <= i < kept.len() implies fields.contains(#[trigger] kept[i])
        && names.contains(kept[i].name) by {
        assert(kept.contains(kept[i]));
    }
    assert forall|i: int| 0 <= i < kept.len() implies exists|j: int|
        0 <= j < names.len() && #[trigger] names[j] == (#[trigger] kept[i]).name by {
        let j = names.index_of(kept[i].name);
        assert(names[j] == kept[i].name);
    }
    assert forall|k: int, j: int|
        0 <= k < fields.len() && 0 <= j < names.len() && (#[trigger] fields[k]).name
            == #[trigger] names[j] implies kept.contains(fields[k]) by {
        assert(names.contains(fields[k].name));
        assert(fields.contains(fields[k]));
    }
    law_projection_keeps_order(fields, names);
    let places = choose|places: Seq<int>| #[trigger] places.len() == kept.len() && (forall|i: int|
        0 <= i < places.len() ==> 0 <= #[trigger] places[i] < fields.len() && fields[places[i]]
            == kept[i]) && forall|i: int, j: int|
        0 <= i < j < places.len() ==> #[trigger] places[i] < #[trigger] places[j];
    if fields.no_duplicates() {
        assert forall|i: int, j: int|
            0 <= i < kept.len() && 0 <= j < kept.len() && i != j implies kept[i] != kept[j] by {
            assert(fields[places[i]] == kept[i] && fields[places[j]] == kept[j]);
            if i < j {
                assert(places[i] < places[j]);
            } else {
                assert(places[j] < places[i]);
            }
        }
    }
}

/// The selected fields stand in the order of the schema.
pub proof fn law_projection_keeps_order(fields: Seq<FieldView>, names: Seq<Seq<char>>)
    ensures
        exists|places: Seq<int>| #[trigger]
            places.len() == selected(fields, Some(names)).len() && (forall|i: int|
                0 <= i < places.len() ==> 0 <= #[trigger] places[i] < fields.len()
                    && fields[places[i]] == selected(fields, Some(names))[i]) && forall|
                i: int,
                j: int,
            |
                0 <= i < j < places.len() ==> #[trigger] places[i] < #[trigger] places[j],
    decreases fields.len(),
{
    let kept = selected(fields, Some(names));
    if fields.len() == 0 {
        let places = Seq::<int>::empty();
        assert(places.len() == kept.len());
    } else {
        let shorter = fields.drop_last();
        law_projection_keeps_order(shorter, names);
        let earlier = selected(shorter, Some(names));
        let before = choose|places: Seq<int>| #[trigger] places.len() == earlier.len() && (forall|
            i: int,
        |
            0 <= i < places.len() ==> 0 <= #[trigger] places[i] < shorter.len()
                && shorter[places[i]] == earlier[i]) && forall|i: int, j: int|
            0 <= i < j < places.len() ==> #[trigger] places[i] < #[trigger] places[j];
        assert forall|i: int| 0 <= i < before.len() implies fields[#[trigger] before[i]]
            == earlier[i] by {}
        if kept.len() == earlier.len() {
            assert(kept =~= earlier);
            assert(before.len() == kept.len());
        } else {
            let places = before.push(fields.len() - 1);
            assert(places.len() == kept.len());
        }
    }
}

/// Without a projection, and with one that names no column, all fields are selected.
pub proof fn law_no_projection(fields: Seq<FieldView>, names: Option<Vec<String>>)
    ensures
        selected(fields, None) == fields,
        selected(fields, Some(Seq::empty())) == fields,
        match names {
            None => names_of(names) is None,
            Some(given) => names_of(names) matches Some(all) && all.len() == given@.len()
                && forall|i: int| 0 <= i < all.len() ==> #[trigger] all[i] == given@[i]@,
        },
{
    law_empty_projection(fields);
}

// Settings

/// A reader with the same settings has the same schema, projection and batch size.
pub proof fn law_same_settings(a: Reader, b: Reader)
    requires
        a.same_settings(&b),
    ensures
        a.schema() == b.schema(),
        a.projection() == b.projection(),
        a.batch_size() == b.batch_size(),
{
}

/// A reader that is set up has all lines before it, and the batch size and the projection of
/// the settings.
pub proof fn law_set_up(reader: Reader, settings: Settings, lines: Seq<Seq<char>>)
    requires
        is_set_up(reader, settings, lines),
    ensures
        reader.wf(),
        reader.pending() == lines,
        reader.batch_size() == settings.batch_size,
        reader.projection() == settings.projection,
{
}

/// What is set is what was asked for, and nothing else changes.
pub proof fn law_setters(
    settings: Settings,
    schema: Schema,
    max_records: Option<usize>,
    batch_size: nat,
    names: Seq<Seq<char>>,
)
    ensures
        default_settings().schema is None,
        default_settings().max_records is None,
        default_settings().batch_size == 1024,
        default_settings().projection is None,
        settings.with_schema(schema).schema == Some(schema),
        settings.with_schema(schema).max_records == settings.max_records,
        settings.with_schema(schema).batch_size == settings.batch_size,
        settings.with_schema(schema).projection == settings.projection,
        settings.infer_schema(max_records).schema is None,
        settings.infer_schema(max_records).max_records == max_records,
        settings.infer_schema(max_records).batch_size == settings.batch_size,
        settings.infer_schema(max_records).projection == settings.projection,
        settings.with_batch_size(batch_size).schema == settings.schema,
        settings.with_batch_size(batch_size).max_records == settings.max_records,
        settings.with_batch_size(batch_size).batch_size == batch_size,
        settings.with_batch_size(batch_size).projection == settings.projection,
        settings.with_projection(names).schema == settings.schema,
        settings.with_projection(names).max_records == settings.max_records,
        settings.with_projection(names).batch_size == settings.batch_size,
        settings.with_projection(names).projection == Some(names),
{
}

} // verus!
