//! What holds of the library across its functions.

use crate::batch::{batch_cells, batch_fields, ColumnBatch};
use crate::builder::Settings;
use crate::cells::{
    cell_of, column_cells, fits, int_cell, is_int_type, is_item_type, is_listable, item_cell,
    item_cells, list_values, null_cells, scalar_cell, Cell,
};
use crate::columns::column_error;
use crate::data_type::{DataType, FieldView, Schema};
use crate::error::JsonError;
use crate::infer::{line_observed, lines_observed};
use crate::reader::{batch_error, first_error, is_batch_of, is_selected, read_rows, selected};
use crate::text::{json_of, trimmed};
use crate::types::{
    coerced, column_type, is_only, is_schema_of, item_type, item_types,
    law_coerced_by_set, list_type, observed, types_of, value_type,
};
use crate::value::{is_sound, lookup, member, Json, Number};
use vstd::prelude::*;

verus! {

// Coercion

/// Coercing does not go by the order of the types.
pub proof fn law_coercion_ignores_order(a: Seq<DataType>, b: Seq<DataType>, is_list: bool)
    requires
        a.to_multiset() == b.to_multiset(),
    ensures
        coerced(a, is_list) == coerced(b, is_list),
{
    broadcast use vstd::seq_lib::group_to_multiset_ensures;

    assert(a.to_multiset().len() == a.len() && b.to_multiset().len() == b.len());
    assert forall|t: DataType| a.contains(t) <==> b.contains(t) by {
        assert(a.contains(t) <==> a.to_multiset().count(t) > 0);
        assert(b.contains(t) <==> b.to_multiset().count(t) > 0);
    }
    if a.len() == 1 {
        assert(a.contains(a[0]));
        assert(b.contains(a[0]));
    }
}

/// Two types coerce to `Float64` where they are the two types of numbers, and to text
/// otherwise.
pub proof fn law_two_types(a: DataType, b: DataType)
    requires
        a != b,
    ensures
        coerced(seq![a, b], false) == if set![a, b] == set![DataType::Int64, DataType::Float64] {
            DataType::Float64
        } else {
            DataType::Utf8
        },
{
    let types = seq![a, b];
    assert(types[0] == a && types[1] == b);
    assert(types.to_set() =~= set![a, b]);
    assert(types.no_duplicates());
    law_coerced_by_set(types);
    assert forall|t: DataType| !is_only(types.to_set(), t) by {
        if is_only(types.to_set(), t) {
            assert(types.to_set().contains(a));
            assert(types.to_set().contains(b));
        }
    }
}

/// Whether the type is one that the items of a list can speak for.
pub open spec fn is_seen_item_type(data_type: DataType) -> bool {
    data_type is Boolean || data_type is Int64 || data_type is Float64 || data_type is Utf8
}

pub(crate) proof fn lemma_item_types(items: Seq<Json>)
    ensures
        forall|t: DataType| #[trigger] item_types(items).contains(t) ==> is_seen_item_type(t),
        forall|t: DataType| #[trigger]
            item_types(items).contains(t) <==> exists|i: int|
                0 <= i < items.len() && item_type(#[trigger] items[i]) == Some(t),
    decreases items.len(),
{
    if items.len() > 0 {
        let fewer = items.drop_last();
        lemma_item_types(fewer);
        let before = item_types(fewer);
        let all = item_types(items);
        let last = items.len() - 1;
        assert forall|t: DataType| #[trigger] all.contains(t) implies is_seen_item_type(t)
            && exists|i: int| 0 <= i < items.len() && item_type(#[trigger] items[i]) == Some(t) by {
            let k = all.index_of(t);
            if k < before.len() {
                assert(before[k] == t);
                assert(before.contains(t));
                let i = choose|i: int|
                    0 <= i < fewer.len() && item_type(#[trigger] fewer[i]) == Some(t);
                assert(item_type(items[i]) == Some(t));
            } else {
                assert(item_type(items[last]) == Some(t));
            }
        }
        assert forall|t: DataType|
            (exists|i: int| 0 <= i < items.len() && item_type(#[trigger] items[i]) == Some(
                t,
            )) implies #[trigger] all.contains(t) by {
            let i = choose|i: int|
                0 <= i < items.len() && item_type(#[trigger] items[i]) == Some(t);
            if i < last {
                assert(item_type(fewer[i]) == Some(t));
                assert(before.contains(t));
                let k = before.index_of(t);
                assert(all[k] == t);
            } else {
                assert(all[before.len() as int] == t);
            }
        }
    }
}

/// The order of the items of a list, and items that come more than once, make no difference to
/// the type that it speaks for.
pub proof fn law_list_ignores_order(a: Seq<Json>, b: Seq<Json>)
    requires
        a.to_set() == b.to_set(),
    ensures
        list_type(a) == list_type(b),
{
    lemma_item_types(a);
    lemma_item_types(b);
    assert forall|t: DataType| item_types(a).contains(t) <==> item_types(b).contains(t) by {
        if item_types(a).contains(t) {
            let i = choose|i: int| 0 <= i < a.len() && item_type(#[trigger] a[i]) == Some(t);
            assert(a.to_set().contains(a[i]));
            assert(b.contains(a[i]));
            assert(item_type(b[b.index_of(a[i])]) == Some(t));
        }
        if item_types(b).contains(t) {
            let i = choose|i: int| 0 <= i < b.len() && item_type(#[trigger] b[i]) == Some(t);
            assert(b.to_set().contains(b[i]));
            assert(a.contains(b[i]));
            assert(item_type(a[a.index_of(b[i])]) == Some(t));
        }
    }
    assert(item_types(a).to_set() =~= item_types(b).to_set());
}

/// Whether columns of the type can be filled.
pub open spec fn is_fillable(data_type: DataType) -> bool {
    match data_type {
        DataType::Other => false,
        DataType::List(item) => is_item_type(*item),
        _ => true,
    }
}

proof fn lemma_value_type_fillable(json: Json)
    ensures
        value_type(json) matches Some(data_type) ==> is_fillable(data_type),
{
    match json {
        Json::List(items) => {
            let types = item_types(items).to_set();
            lemma_item_types(items);
            if exists|t: DataType| is_only(types, t) {
                let t = choose|t: DataType| is_only(types, t);
                assert(types.contains(t));
                assert(item_types(items).contains(t));
            }
        },
        _ => {},
    }
}

/// A list whose items are all of one type, nulls aside, speaks for lists of that type.
pub proof fn law_uniform_list(items: Seq<Json>, data_type: DataType)
    requires
        exists|i: int| 0 <= i < items.len() && item_type(#[trigger] items[i]) is Some,
        forall|i: int|
            0 <= i < items.len() ==> {
                ||| item_type(#[trigger] items[i]) is None
                ||| item_type(items[i]) == Some(data_type)
            },
    ensures
        list_type(items) == DataType::List(Box::new(data_type)),
{
    let types = item_types(items).to_set();
    lemma_item_types(items);
    let i = choose|i: int| 0 <= i < items.len() && item_type(#[trigger] items[i]) is Some;
    assert(item_type(items[i]) == Some(data_type));
    assert(item_types(items).contains(data_type));
    assert forall|t: DataType| #[trigger] types.contains(t) <==> t == data_type by {
        if types.contains(t) {
            assert(item_types(items).contains(t));
        }
    }
    assert(is_only(types, data_type));
    assert(types.contains(data_type));
}

/// A list of nulls, and an empty one, speaks for lists of text.
pub proof fn law_list_of_nulls(items: Seq<Json>)
    requires
        forall|i: int| 0 <= i < items.len() ==> (#[trigger] items[i]) is Null,
    ensures
        list_type(items) == DataType::List(Box::new(DataType::Utf8)),
{
    lemma_item_types(items);
    if item_types(items).len() > 0 {
        assert(item_types(items).contains(item_types(items)[0]));
    }
    law_coerced_by_set(item_types(items));
}

// Inference

/// A member that is null, or an object, adds nothing to what a record speaks for.
pub proof fn law_null_member_adds_nothing(members: Seq<(Seq<char>, Json)>, at: int)
    requires
        0 <= at < members.len(),
        members[at].1 is Null || members[at].1 is Record,
    ensures
        observed(Json::Record(members)) == observed(Json::Record(members.remove(at))),
{
    let fewer = members.remove(at);
    assert forall|seen: (Seq<char>, DataType)|
        observed(Json::Record(members)).contains(seen) <==> observed(
            Json::Record(fewer),
        ).contains(seen) by {
        if observed(Json::Record(members)).contains(seen) {
            let i = choose|i: int|
                0 <= i < members.len() && (#[trigger] members[i]).0 == seen.0 && value_type(
                    members[i].1,
                ) == Some(seen.1);
            if i < at {
                assert(fewer[i] == members[i]);
            } else {
                assert(fewer[i - 1] == members[i]);
            }
        }
        if observed(Json::Record(fewer)).contains(seen) {
            let i = choose|i: int|
                0 <= i < fewer.len() && (#[trigger] fewer[i]).0 == seen.0 && value_type(
                    fewer[i].1,
                ) == Some(seen.1);
            if i < at {
                assert(fewer[i] == members[i]);
            } else {
                assert(fewer[i] == members[i + 1]);
            }
        }
    }
    assert(observed(Json::Record(members)) =~= observed(Json::Record(fewer)));
}

/// Whether no line is empty.
pub open spec fn none_empty(lines: Seq<Seq<char>>) -> bool {
    forall|i: int| 0 <= i < lines.len() ==> (#[trigger] lines[i]).len() > 0
}

/// Lines can be taken in together where each can be taken in, and they speak together for
/// what each of them speaks for.
pub proof fn law_lines_speak_for_themselves(lines: Seq<Seq<char>>, limit: nat)
    requires
        none_empty(lines),
        lines.len() <= limit,
    ensures
        lines_observed(lines, limit) is Ok <==> forall|i: int|
            0 <= i < lines.len() ==> line_observed(#[trigger] lines[i]) is Ok,
        lines_observed(lines, limit) matches Ok(seen) ==> forall|pair: (Seq<char>, DataType)|
            seen.contains(pair) <==> exists|i: int|
                0 <= i < lines.len() && line_observed(#[trigger] lines[i])->Ok_0.contains(pair),
    decreases lines.len(),
{
    if lines.len() > 0 {
        let rest = lines.drop_first();
        assert forall|i: int| 0 <= i < rest.len() implies (#[trigger] rest[i]).len() > 0 by {
            assert(rest[i] == lines[i + 1]);
        }
        law_lines_speak_for_themselves(rest, (limit - 1) as nat);
        if forall|i: int| 0 <= i < lines.len() ==> line_observed(#[trigger] lines[i]) is Ok {
            assert forall|i: int| 0 <= i < rest.len() implies line_observed(
                #[trigger] rest[i],
            ) is Ok by {
                assert(rest[i] == lines[i + 1]);
            }
        }
        if lines_observed(lines, limit) is Ok {
            assert forall|i: int| 0 <= i < lines.len() implies line_observed(
                #[trigger] lines[i],
            ) is Ok by {
                if i > 0 {
                    assert(rest[i - 1] == lines[i]);
                }
            }
            let seen = lines_observed(lines, limit)->Ok_0;
            let later = lines_observed(rest, (limit - 1) as nat)->Ok_0;
            assert forall|pair: (Seq<char>, DataType)|
                seen.contains(pair) <==> exists|i: int|
                    0 <= i < lines.len() && line_observed(#[trigger] lines[i])->Ok_0.contains(
                        pair,
                    ) by {
                if later.contains(pair) {
                    let i = choose|i: int|
                        0 <= i < rest.len() && line_observed(#[trigger] rest[i])->Ok_0.contains(
                            pair,
                        );
                    assert(lines[i + 1] == rest[i]);
                }
                if exists|i: int|
                    0 <= i < lines.len() && line_observed(#[trigger] lines[i])->Ok_0.contains(
                        pair,
                    ) {
                    let i = choose|i: int|
                        0 <= i < lines.len() && line_observed(#[trigger] lines[i])->Ok_0.contains(
                            pair,
                        );
                    if i > 0 {
                        assert(rest[i - 1] == lines[i]);
                    }
                }
            }
        }
    }
}

/// Inference fails with the error of the first line that cannot be taken in, which no empty
/// line comes before.
pub proof fn law_first_bad_line_decides(lines: Seq<Seq<char>>, limit: nat)
    ensures
        lines_observed(lines, limit) matches Err(error) ==> exists|i: int|
            is_first_bad_line(lines, limit, i, error),
    decreases lines.len(),
{
    if lines_observed(lines, limit) is Err {
        let error = lines_observed(lines, limit)->Err_0;
        if line_observed(lines[0]) is Err {
            assert(is_first_bad_line(lines, limit, 0, error));
        } else {
            let rest = lines.drop_first();
            let fewer = (limit - 1) as nat;
            law_first_bad_line_decides(rest, fewer);
            let i = choose|i: int| is_first_bad_line(rest, fewer, i, error);
            assert forall|j: int| 0 <= j < i + 1 implies (#[trigger] lines[j]).len() > 0
                && line_observed(lines[j]) is Ok by {
                if j > 0 {
                    assert(rest[j - 1] == lines[j]);
                }
            }
            assert(is_first_bad_line(lines, limit, i + 1, error));
        }
    }
}

/// Whether the line is the first that cannot be taken in, for the given reason.
pub open spec fn is_first_bad_line(
    lines: Seq<Seq<char>>,
    limit: nat,
    i: int,
    error: JsonError,
) -> bool {
    &&& 0 <= i < lines.len()
    &&& i < limit
    &&& lines[i].len() > 0
    &&& line_observed(lines[i]) == Err::<Set<(Seq<char>, DataType)>, JsonError>(error)
    &&& forall|j: int|
        0 <= j < i ==> (#[trigger] lines[j]).len() > 0 && line_observed(lines[j]) is Ok
}

/// The order of the lines, and lines that come more than once, make no difference to what is
/// inferred from them.
pub proof fn law_inference_ignores_order(
    a: Seq<Seq<char>>,
    b: Seq<Seq<char>>,
    a_limit: nat,
    b_limit: nat,
)
    requires
        none_empty(a),
        none_empty(b),
        a.len() <= a_limit,
        b.len() <= b_limit,
        a.to_set() == b.to_set(),
    ensures
        lines_observed(a, a_limit) is Ok <==> lines_observed(b, b_limit) is Ok,
        lines_observed(a, a_limit) is Ok ==> lines_observed(a, a_limit) == lines_observed(
            b,
            b_limit,
        ),
{
    law_lines_speak_for_themselves(a, a_limit);
    law_lines_speak_for_themselves(b, b_limit);
    lemma_same_lines(a, b);
    lemma_same_lines(b, a);
    if lines_observed(a, a_limit) is Ok {
        assert forall|i: int| 0 <= i < b.len() implies line_observed(#[trigger] b[i]) is Ok by {
            let j = a.index_of(b[i]);
            assert(line_observed(a[j]) is Ok);
        }
    }
    if lines_observed(b, b_limit) is Ok {
        assert forall|i: int| 0 <= i < a.len() implies line_observed(#[trigger] a[i]) is Ok by {
            let j = b.index_of(a[i]);
            assert(line_observed(b[j]) is Ok);
        }
        let a_seen = lines_observed(a, a_limit)->Ok_0;
        let b_seen = lines_observed(b, b_limit)->Ok_0;
        assert forall|pair: (Seq<char>, DataType)|
            a_seen.contains(pair) <==> b_seen.contains(pair) by {
            if a_seen.contains(pair) {
                let i = choose|i: int|
                    0 <= i < a.len() && line_observed(#[trigger] a[i])->Ok_0.contains(pair);
                let j = b.index_of(a[i]);
                assert(line_observed(b[j])->Ok_0.contains(pair));
            }
            if b_seen.contains(pair) {
                let i = choose|i: int|
                    0 <= i < b.len() && line_observed(#[trigger] b[i])->Ok_0.contains(pair);
                let j = a.index_of(b[i]);
                assert(line_observed(a[j])->Ok_0.contains(pair));
            }
        }
        assert(a_seen =~= b_seen);
    }
}

proof fn lemma_same_lines(a: Seq<Seq<char>>, b: Seq<Seq<char>>)
    requires
        a.to_set() == b.to_set(),
    ensures
        forall|i: int| 0 <= i < a.len() ==> b.contains(#[trigger] a[i]),
{
    assert forall|i: int| 0 <= i < a.len() implies b.contains(#[trigger] a[i]) by {
        assert(a.to_set().contains(a[i]));
    }
}

/// Inferring from so many records at most is inferring from the first so many lines alone.
pub proof fn law_limit_is_prefix(lines: Seq<Seq<char>>, n: nat, limit: nat)
    requires
        n <= lines.len(),
        n <= limit,
    ensures
        lines_observed(lines, n) == lines_observed(lines.take(n as int), limit),
    decreases lines.len(),
{
    let first = lines.take(n as int);
    if n > 0 {
        assert(first[0] == lines[0]);
        assert(first.drop_first() =~= lines.drop_first().take(n - 1));
        law_limit_is_prefix(lines.drop_first(), (n - 1) as nat, (limit - 1) as nat);
    }
}

/// Inferring from more records never loses a name or a type that was seen.
pub proof fn law_more_records_see_more(lines: Seq<Seq<char>>, few: nat, many: nat)
    requires
        few <= many,
        lines_observed(lines, many) is Ok,
    ensures
        lines_observed(lines, few) is Ok,
        lines_observed(lines, few)->Ok_0.subset_of(lines_observed(lines, many)->Ok_0),
    decreases lines.len(),
{
    if few > 0 && lines.len() > 0 && lines[0].len() > 0 {
        law_more_records_see_more(lines.drop_first(), (few - 1) as nat, (many - 1) as nat);
    }
}

/// Two schemas for the same names and types have the same fields.
pub proof fn law_schema_is_settled(
    a: Seq<FieldView>,
    b: Seq<FieldView>,
    seen: Set<(Seq<char>, DataType)>,
)
    requires
        is_schema_of(a, seen),
        is_schema_of(b, seen),
    ensures
        a.to_set() == b.to_set(),
{
    lemma_schema_contained(a, b, seen);
    lemma_schema_contained(b, a, seen);
    assert(a.to_set() =~= b.to_set());
}

proof fn lemma_schema_contained(
    a: Seq<FieldView>,
    b: Seq<FieldView>,
    seen: Set<(Seq<char>, DataType)>,
)
    requires
        is_schema_of(a, seen),
        is_schema_of(b, seen),
    ensures
        forall|field: FieldView| #[trigger]
            a.to_set().contains(field) ==> b.to_set().contains(field),
{
    assert forall|field: FieldView| #[trigger]
        a.to_set().contains(field) implies b.to_set().contains(field) by {
        let i = a.index_of(field);
        assert(a[i] == field);
        let data_type = choose|data_type: DataType| seen.contains((a[i].name, data_type));
        assert(seen.contains((a[i].name, data_type)));
        let j = choose|j: int| 0 <= j < b.len() && (#[trigger] b[j]).name == a[i].name;
        assert(b[j] == field);
        assert(b.contains(field));
    }
}

/// Whether every type that was seen is one that columns can be filled in.
pub open spec fn all_fillable(seen: Set<(Seq<char>, DataType)>) -> bool {
    forall|pair: (Seq<char>, DataType)| #[trigger] seen.contains(pair) ==> is_fillable(pair.1)
}

proof fn lemma_observed_fillable(json: Json)
    ensures
        all_fillable(observed(json)),
{
    assert forall|pair: (Seq<char>, DataType)| #[trigger]
        observed(json).contains(pair) implies is_fillable(pair.1) by {
        let members = json->Record_0;
        let i = choose|i: int|
            0 <= i < members.len() && (#[trigger] members[i]).0 == pair.0 && value_type(
                members[i].1,
            ) == Some(pair.1);
        lemma_value_type_fillable(members[i].1);
    }
}

proof fn lemma_lines_fillable(lines: Seq<Seq<char>>, limit: nat)
    ensures
        lines_observed(lines, limit) matches Ok(seen) ==> all_fillable(seen),
    decreases lines.len(),
{
    if limit > 0 && lines.len() > 0 && lines[0].len() > 0 {
        lemma_lines_fillable(lines.drop_first(), (limit - 1) as nat);
        match json_of(trimmed(lines[0])) {
            Some(json) => {
                lemma_observed_fillable(json);
            },
            None => {},
        }
    }
}

/// An inferred schema asks for no type that columns cannot be filled in: a column of it fails
/// neither for its type nor for the type of its items.
pub proof fn law_inferred_types_are_fillable(
    lines: Seq<Seq<char>>,
    limit: nat,
    fields: Seq<FieldView>,
    rows: Seq<Json>,
    i: int,
)
    requires
        lines_observed(lines, limit) is Ok,
        is_schema_of(fields, lines_observed(lines, limit)->Ok_0),
        0 <= i < fields.len(),
    ensures
        is_fillable(fields[i].data_type),
        column_error(fields[i].data_type, rows, fields[i].name) != Some(JsonError::StructType),
        column_error(fields[i].data_type, rows, fields[i].name) != Some(JsonError::ListType),
{
    let seen = lines_observed(lines, limit)->Ok_0;
    lemma_lines_fillable(lines, limit);
    let types = types_of(seen, fields[i].name);
    assert(fields[i].data_type == column_type(types));
    if exists|t: DataType| is_only(types, t) {
        let t = choose|t: DataType| is_only(types, t);
        assert(types.contains(t));
        assert(seen.contains((fields[i].name, t)));
    }
}

proof fn lemma_member_observed(members: Seq<(Seq<char>, Json)>, name: Seq<char>)
    ensures
        match lookup(members, name) {
            Some(json) => exists|i: int|
                0 <= i < members.len() && #[trigger] members[i] == (name, json),
            None => true,
        },
    decreases members.len(),
{
    if members.len() > 0 && members[0].0 != name {
        lemma_member_observed(members.drop_first(), name);
        if lookup(members, name) is Some {
            let json = lookup(members, name)->Some_0;
            let rest = members.drop_first();
            let i = choose|i: int| 0 <= i < rest.len() && #[trigger] rest[i] == (name, json);
            assert(members[i + 1] == (name, json));
        }
    } else if members.len() > 0 {
        assert(members[0] == (name, members[0].1));
    }
}

/// Whether there is a value, and it is a null or an object.
pub open spec fn is_null_or_record(value: Option<Json>) -> bool {
    match value {
        Some(json) => json is Null || json is Record,
        None => false,
    }
}

/// Where a schema was inferred from records among which is the given one, a list column takes
/// what the record has for it, unless that is a null or an object.
pub proof fn law_inferred_lists_take_records(
    seen: Set<(Seq<char>, DataType)>,
    item: DataType,
    row: Json,
    name: Seq<char>,
)
    requires
        observed(row).subset_of(seen),
        column_type(types_of(seen, name)) == DataType::List(Box::new(item)),
        !is_null_or_record(member(row, name)),
    ensures
        is_listable(item, member(row, name)),
{
    match row {
        Json::Record(members) => {
            lemma_member_observed(members, name);
            match lookup(members, name) {
                Some(json) => {
                    let i = choose|i: int|
                        0 <= i < members.len() && #[trigger] members[i] == (name, json);
                    let data_type = value_type(members[i].1)->Some_0;
                    assert(observed(row).contains((name, data_type)));
                    let types = types_of(seen, name);
                    assert(types.contains(data_type));
                    assert(exists|t: DataType| is_only(types, t));
                    assert(data_type == DataType::List(Box::new(item)));
                },
                None => {},
            }
        },
        _ => {},
    }
}

/// Rows fill every column of a schema that was inferred from them, and maybe from others,
/// provided that they have neither a null nor an object for it, and that it is not too long.
pub proof fn law_rows_fill_their_schema(
    rows: Seq<Json>,
    seen: Set<(Seq<char>, DataType)>,
    fields: Seq<FieldView>,
    k: int,
)
    requires
        all_fillable(seen),
        is_schema_of(fields, seen),
        0 <= k < fields.len(),
        forall|i: int| 0 <= i < rows.len() ==> observed(#[trigger] rows[i]).subset_of(seen),
        forall|i: int|
            0 <= i < rows.len() ==> !is_null_or_record(
                #[trigger] member(rows[i], fields[k].name),
            ),
    ensures
        match column_error(fields[k].data_type, rows, fields[k].name) {
            None => true,
            Some(error) => error == JsonError::OffsetOverflow,
        },
{
    let name = fields[k].name;
    let types = types_of(seen, name);
    assert(fields[k].data_type == column_type(types));
    if exists|t: DataType| is_only(types, t) {
        let t = choose|t: DataType| is_only(types, t);
        assert(types.contains(t));
        assert(seen.contains((name, t)));
        assert(is_fillable(t));
    }
    match fields[k].data_type {
        DataType::List(item) => {
            assert forall|i: int| 0 <= i < rows.len() implies is_listable(
                *item,
                #[trigger] member(rows[i], name),
            ) by {
                assert(observed(rows[i]).subset_of(seen));
                law_inferred_lists_take_records(seen, *item, rows[i], name);
            }
        },
        _ => {},
    }
}

/// Lines from which a schema was inferred can be read, and fill every column of it, provided
/// that no line is empty or has white space at its ends that JSON does not allow, that they
/// have neither a null nor an object for the column, and that it is not too long.
pub proof fn law_lines_fill_their_schema(
    lines: Seq<Seq<char>>,
    limit: nat,
    batch_size: nat,
    fields: Seq<FieldView>,
    k: int,
)
    requires
        none_empty(lines),
        lines.len() <= limit,
        lines_observed(lines, limit) is Ok,
        is_schema_of(fields, lines_observed(lines, limit)->Ok_0),
        forall|i: int|
            0 <= i < lines.len() ==> json_of(#[trigger] lines[i]) == json_of(trimmed(lines[i])),
        0 <= k < fields.len(),
        forall|i: int|
            0 <= i < lines.len() ==> !is_null_or_record(
                member(json_of(#[trigger] lines[i])->Some_0, fields[k].name),
            ),
    ensures
        read_rows(lines, batch_size).0 is Ok,
        match column_error(
            fields[k].data_type,
            read_rows(lines, batch_size).0->Ok_0,
            fields[k].name,
        ) {
            None => true,
            Some(error) => error == JsonError::OffsetOverflow,
        },
{
    let seen = lines_observed(lines, limit)->Ok_0;
    law_lines_speak_for_themselves(lines, limit);
    lemma_lines_fillable(lines, limit);
    assert forall|i: int| 0 <= i < lines.len() implies json_of(#[trigger] lines[i]) is Some by {
        assert(line_observed(lines[i]) is Ok);
    }
    lemma_rows_read(lines, batch_size);
    let rows = read_rows(lines, batch_size).0->Ok_0;
    assert forall|i: int| 0 <= i < rows.len() implies observed(#[trigger] rows[i]).subset_of(
        seen,
    ) by {
        assert(json_of(lines[i]) == Some(rows[i]));
        assert(line_observed(lines[i])->Ok_0 == observed(rows[i]));
        assert forall|pair: (Seq<char>, DataType)| #[trigger]
            observed(rows[i]).contains(pair) implies seen.contains(pair) by {
            assert(line_observed(lines[i])->Ok_0.contains(pair));
        }
    }
    assert forall|i: int| 0 <= i < rows.len() implies !is_null_or_record(
        #[trigger] member(rows[i], fields[k].name),
    ) by {
        assert(json_of(lines[i]) == Some(rows[i]));
    }
    law_rows_fill_their_schema(rows, seen, fields, k);
}

proof fn lemma_rows_read(lines: Seq<Seq<char>>, limit: nat)
    requires
        none_empty(lines),
        forall|i: int| 0 <= i < lines.len() ==> json_of(#[trigger] lines[i]) is Some,
    ensures
        read_rows(lines, limit).0 matches Ok(rows) && rows.len() <= lines.len() && forall|i: int|
            0 <= i < rows.len() ==> json_of(#[trigger] lines[i]) == Some(rows[i]),
    decreases lines.len(),
{
    if limit > 0 && lines.len() > 0 {
        let rest = lines.drop_first();
        assert forall|i: int| 0 <= i < rest.len() implies (#[trigger] rest[i]).len() > 0
            && json_of(rest[i]) is Some by {
            assert(rest[i] == lines[i + 1]);
        }
        lemma_rows_read(rest, (limit - 1) as nat);
        let rows = read_rows(lines, limit).0->Ok_0;
        assert forall|i: int| 0 <= i < rows.len() implies json_of(#[trigger] lines[i]) == Some(
            rows[i],
        ) by {
            if i > 0 {
                assert(rest[i - 1] == lines[i]);
            }
        }
    }
}

// Cells

/// A column of the type that a value speaks for keeps the value, unless that is an integer
/// beyond `i64::MAX`.
pub proof fn law_value_is_kept_in_its_own_type(json: Json)
    requires
        is_sound(json),
        value_type(json) is Some,
        json matches Json::Number(n) ==> n.is_f64 || n.as_i64 is Some,
    ensures
        !(cell_of(value_type(json)->Some_0, Some(json)) is Null),
{
}

/// A list of double precision keeps a number as a column of double precision does, unless it
/// is an integer beyond `i64::MAX`.
pub proof fn law_lists_keep_doubles(n: Number)
    requires
        n.wf(),
        n.is_f64 || n.as_i64 is Some,
    ensures
        item_cell(DataType::Float64, Json::Number(n)) == scalar_cell(
            DataType::Float64,
            Some(Json::Number(n)),
        ),
{
}

/// A list of integers keeps an integer of up to 53 bits as a column of integers does.
pub proof fn law_lists_keep_integers(data_type: DataType, n: Number, v: i64)
    requires
        n.wf(),
        n.as_i64 == Some(v),
        -0x20_0000_0000_0000 <= v <= 0x20_0000_0000_0000,
        is_int_type(data_type),
    ensures
        item_cell(data_type, Json::Number(n)) == int_cell(data_type, v as int),
        scalar_cell(data_type, Some(Json::Number(n))) == int_cell(data_type, v as int),
{
}

/// Whether the cell is one that a column of the type can hold.
pub open spec fn is_cell_of(data_type: DataType, cell: Cell) -> bool
    decreases cell,
{
    match cell {
        Cell::Null => true,
        Cell::Bool(_) => data_type is Boolean,
        Cell::Int(v) => fits(data_type, v),
        Cell::Double(_) => data_type is Float64,
        Cell::Single(_) => data_type is Float32,
        Cell::Str(_) => data_type is Utf8,
        Cell::List(items) => match data_type {
            DataType::List(item) => forall|i: int|
                0 <= i < items.len() ==> is_cell_of(*item, #[trigger] items[i]),
            _ => false,
        },
    }
}

/// A column holds nothing but cells of its type, and a list column holds no nulls.
pub proof fn law_cells_are_of_their_type(data_type: DataType, value: Option<Json>)
    ensures
        is_cell_of(data_type, cell_of(data_type, value)),
        data_type is List ==> cell_of(data_type, value) is List,
{
    match data_type {
        DataType::List(item) => {
            let items = item_cells(*item, list_values(value));
            assert forall|i: int| 0 <= i < items.len() implies is_cell_of(
                *item,
                #[trigger] items[i],
            ) by {
                assert(items[i] is Null || !(items[i] is List));
            }
        },
        _ => {},
    }
}

/// A list column reads a value on its own as it reads the list of only that value.
pub proof fn law_scalar_reads_as_list_of_one(item: DataType, json: Json)
    requires
        !(json is List),
    ensures
        cell_of(DataType::List(Box::new(item)), Some(json)) == cell_of(
            DataType::List(Box::new(item)),
            Some(Json::List(seq![json])),
        ),
{
}

/// The cells of rows that follow on each other follow on each other.
pub proof fn law_columns_join(data_type: DataType, a: Seq<Json>, b: Seq<Json>, name: Seq<char>)
    ensures
        column_cells(data_type, a + b, name) == column_cells(data_type, a, name) + column_cells(
            data_type,
            b,
            name,
        ),
{
    assert(column_cells(data_type, a + b, name) =~= column_cells(data_type, a, name)
        + column_cells(data_type, b, name));
}

/// A batch has as many columns as selected fields, and every column has a cell for each row;
/// a column that is not nullable has no nulls.
pub proof fn law_batches_are_even(
    batch: ColumnBatch,
    fields: Seq<FieldView>,
    rows: Seq<Json>,
    i: int,
)
    requires
        is_batch_of(batch, fields, rows),
        0 <= i < fields.len(),
    ensures
        batch_fields(batch).len() == fields.len(),
        batch_cells(batch).len() == fields.len(),
        batch_cells(batch)[i].len() == rows.len(),
        !batch_fields(batch)[i].nullable ==> null_cells(batch_cells(batch)[i]) == 0,
{
}

// Reading

/// A batch holds no more records than the batch size and uses up no more lines than there
/// are; it uses up at least one where there are any and the batch size is not zero.
pub proof fn law_batches_are_bounded(lines: Seq<Seq<char>>, limit: nat)
    ensures
        read_rows(lines, limit).1 <= lines.len(),
        read_rows(lines, limit).1 <= limit,
        limit > 0 && lines.len() > 0 ==> read_rows(lines, limit).1 > 0,
        read_rows(lines, limit).0 matches Ok(rows) ==> rows.len() <= read_rows(lines, limit).1,
    decreases lines.len(),
{
    if limit > 0 && lines.len() > 0 {
        law_batches_are_bounded(lines.drop_first(), (limit - 1) as nat);
    }
}

/// Reading a full batch and another one after it is reading both at once.
pub proof fn law_batches_follow_on(lines: Seq<Seq<char>>, first: nat, second: nat)
    requires
        read_rows(lines, first).0 matches Ok(rows) && rows.len() == first,
    ensures
        ({
            let (rows, used) = read_rows(lines, first);
            let (more, more_used) = read_rows(lines.skip(used as int), second);
            let (all, all_used) = read_rows(lines, first + second);
            &&& used == first
            &&& all_used == used + more_used
            &&& match more {
                Ok(more) => all == Ok::<Seq<Json>, JsonError>(rows->Ok_0 + more),
                Err(error) => all == Err::<Seq<Json>, JsonError>(error),
            }
        }),
    decreases lines.len(),
{
    let (rows, used) = read_rows(lines, first);
    if first == 0 {
        assert(lines.skip(0) =~= lines);
        let (more, more_used) = read_rows(lines, second);
        if more is Ok {
            assert(rows->Ok_0 + more->Ok_0 =~= more->Ok_0);
        }
    } else {
        let rest = lines.drop_first();
        let json = json_of(lines[0])->Some_0;
        let (later, later_used) = read_rows(rest, (first - 1) as nat);
        assert(lines.len() > 0 && lines[0].len() > 0);
        assert(rows->Ok_0 == seq![json] + later->Ok_0);
        law_batches_follow_on(rest, (first - 1) as nat, second);
        law_batches_are_bounded(rest, (first - 1) as nat);
        assert(lines.skip(used as int) =~= rest.skip(later_used as int));
        assert((first + second - 1) as nat == (first - 1) as nat + second);
        let (more, more_used) = read_rows(lines.skip(used as int), second);
        if more is Ok {
            assert(seq![json] + (later->Ok_0 + more->Ok_0) =~= rows->Ok_0 + more->Ok_0);
        }
    }
}

/// The records of the batches that are read one after the other, up to the first that is empty
/// or cannot be read.
pub open spec fn batches(lines: Seq<Seq<char>>, batch_size: nat) -> Seq<Seq<Json>>
    decreases lines.len(),
{
    let (rows, used) = read_rows(lines, batch_size);
    match rows {
        Ok(rows) => if rows.len() > 0 && 0 < used <= lines.len() {
            seq![rows] + batches(lines.skip(used as int), batch_size)
        } else {
            Seq::empty()
        },
        Err(_) => Seq::empty(),
    }
}

/// The records of the batches, joined.
pub open spec fn joined_rows(batches: Seq<Seq<Json>>) -> Seq<Json>
    decreases batches.len(),
{
    if batches.len() == 0 {
        Seq::empty()
    } else {
        batches[0] + joined_rows(batches.drop_first())
    }
}

/// The cells that the batches have in a column, joined.
pub open spec fn joined_cells(
    data_type: DataType,
    batches: Seq<Seq<Json>>,
    name: Seq<char>,
) -> Seq<Cell>
    decreases batches.len(),
{
    if batches.len() == 0 {
        Seq::empty()
    } else {
        column_cells(data_type, batches[0], name) + joined_cells(
            data_type,
            batches.drop_first(),
            name,
        )
    }
}

/// Whether every line spells a JSON value, and none is empty.
pub open spec fn all_valid(lines: Seq<Seq<char>>) -> bool {
    forall|i: int|
        0 <= i < lines.len() ==> (#[trigger] lines[i]).len() > 0 && json_of(lines[i]) is Some
}

/// The JSON values that the lines spell.
pub open spec fn values_of(lines: Seq<Seq<char>>) -> Seq<Json> {
    Seq::new(lines.len(), |i: int| json_of(lines[i])->Some_0)
}

pub(crate) proof fn lemma_valid_rows(lines: Seq<Seq<char>>, limit: nat)
    requires
        all_valid(lines),
    ensures
        ({
            let n = if limit <= lines.len() {
                limit
            } else {
                lines.len()
            };
            let (rows, used) = read_rows(lines, limit);
            &&& used == n
            &&& rows == Ok::<Seq<Json>, JsonError>(values_of(lines).take(n as int))
        }),
    decreases lines.len(),
{
    if limit > 0 && lines.len() > 0 {
        let rest = lines.drop_first();
        assert forall|i: int| 0 <= i < rest.len() implies (#[trigger] rest[i]).len() > 0
            && json_of(rest[i]) is Some by {
            assert(rest[i] == lines[i + 1]);
        }
        assert(lines[0].len() > 0);
        lemma_valid_rows(rest, (limit - 1) as nat);
        let used = read_rows(lines, limit).1 as int;
        let later = values_of(rest).take(used - 1);
        assert(seq![json_of(lines[0])->Some_0] + later =~= values_of(lines).take(used));
    } else {
        assert(values_of(lines).take(0) =~= Seq::empty());
    }
}

/// Reading valid lines to their end gives every record once and in order, whatever the batch
/// size.
pub proof fn law_batches_hold_every_record(lines: Seq<Seq<char>>, batch_size: nat)
    requires
        all_valid(lines),
        batch_size >= 1,
    ensures
        joined_rows(batches(lines, batch_size)) == values_of(lines),
        joined_rows(batches(lines, batch_size)).len() == lines.len(),
    decreases lines.len(),
{
    lemma_valid_rows(lines, batch_size);
    let (read, used) = read_rows(lines, batch_size);
    if lines.len() > 0 {
        let rows = read->Ok_0;
        let rest = lines.skip(used as int);
        assert forall|i: int| 0 <= i < rest.len() implies (#[trigger] rest[i]).len() > 0
            && json_of(rest[i]) is Some by {
            assert(rest[i] == lines[i + used]);
        }
        law_batches_hold_every_record(rest, batch_size);
        let later = batches(rest, batch_size);
        assert((seq![rows] + later).drop_first() =~= later);
        assert(rows + values_of(rest) =~= values_of(lines));
    } else {
        assert(values_of(lines) =~= Seq::empty());
    }
}

proof fn lemma_joined_cells(data_type: DataType, batches: Seq<Seq<Json>>, name: Seq<char>)
    ensures
        joined_cells(data_type, batches, name) == column_cells(
            data_type,
            joined_rows(batches),
            name,
        ),
    decreases batches.len(),
{
    if batches.len() > 0 {
        let rest = batches.drop_first();
        lemma_joined_cells(data_type, rest, name);
        law_columns_join(data_type, batches[0], joined_rows(rest), name);
    } else {
        assert(column_cells(data_type, joined_rows(batches), name) =~= Seq::empty());
    }
}

/// The batch size makes no difference to the columns, joined over all batches, of valid lines
/// that are read to their end.
pub proof fn law_batch_size_makes_no_difference(
    lines: Seq<Seq<char>>,
    p: nat,
    q: nat,
    data_type: DataType,
    name: Seq<char>,
)
    requires
        all_valid(lines),
        p >= 1,
        q >= 1,
    ensures
        joined_cells(data_type, batches(lines, p), name) == joined_cells(
            data_type,
            batches(lines, q),
            name,
        ),
        joined_cells(data_type, batches(lines, p), name).len() == lines.len(),
{
    law_batches_hold_every_record(lines, p);
    law_batches_hold_every_record(lines, q);
    lemma_joined_cells(data_type, batches(lines, p), name);
    lemma_joined_cells(data_type, batches(lines, q), name);
}

/// A batch uses up all lines that were handed in for it, where no more were handed in than
/// the batch size and none after an empty one.
pub proof fn law_fed_lines_are_used_up(lines: Seq<Seq<char>>, limit: nat)
    requires
        lines.len() <= limit,
        forall|i: int| 0 <= i < lines.len() - 1 ==> (#[trigger] lines[i]).len() > 0,
        read_rows(lines, limit).0 is Ok,
    ensures
        read_rows(lines, limit).1 == lines.len(),
    decreases lines.len(),
{
    if lines.len() > 1 {
        let rest = lines.drop_first();
        assert forall|i: int| 0 <= i < rest.len() - 1 implies (#[trigger] rest[i]).len() > 0 by {
            assert(rest[i] == lines[i + 1]);
        }
        law_fed_lines_are_used_up(rest, (limit - 1) as nat);
    } else if lines.len() == 1 {
        assert(read_rows(lines.drop_first(), (limit - 1) as nat).1 == 0);
    }
}

/// A batch fails, once its lines are read, where no column is selected or one of the
/// selected columns cannot be filled, and only there.
pub proof fn law_batch_fails_with_a_column(fields: Seq<FieldView>, rows: Seq<Json>)
    ensures
        batch_error(fields, rows) is Some <==> fields.len() == 0 || exists|i: int|
            0 <= i < fields.len() && column_error(
                (#[trigger] fields[i]).data_type,
                rows,
                fields[i].name,
            ) is Some,
{
    lemma_first_error(fields, rows);
}

proof fn lemma_first_error(fields: Seq<FieldView>, rows: Seq<Json>)
    ensures
        first_error(fields, rows) is Some <==> exists|i: int|
            0 <= i < fields.len() && column_error(
                (#[trigger] fields[i]).data_type,
                rows,
                fields[i].name,
            ) is Some,
    decreases fields.len(),
{
    if fields.len() > 0 {
        let shorter = fields.drop_last();
        lemma_first_error(shorter, rows);
        if first_error(shorter, rows) is Some {
            let i = choose|i: int|
                0 <= i < shorter.len() && column_error(
                    (#[trigger] shorter[i]).data_type,
                    rows,
                    shorter[i].name,
                ) is Some;
            assert(fields[i] == shorter[i]);
        } else {
            let last = fields.len() - 1;
            assert(fields[last] == fields.last());
            assert forall|i: int| 0 <= i < last implies column_error(
                (#[trigger] fields[i]).data_type,
                rows,
                fields[i].name,
            ) is None by {
                assert(shorter[i] == fields[i]);
            }
        }
    }
}

// Projection

/// No projection selects every column, and so does one that names none.
pub proof fn law_empty_projection(fields: Seq<FieldView>)
    ensures
        selected(fields, None) == fields,
        selected(fields, Some(Seq::empty())) == fields,
    decreases fields.len(),
{
    if fields.len() > 0 {
        law_empty_projection(fields.drop_last());
        assert(fields.drop_last().push(fields.last()) =~= fields);
    }
}

/// Selecting columns by a projection is reading with a schema that leaves out the others.
pub proof fn law_projection_is_omission(
    fields: Seq<FieldView>,
    projection: Option<Seq<Seq<char>>>,
)
    ensures
        selected(selected(fields, projection), None) == selected(fields, projection),
        forall|field: FieldView| #[trigger]
            selected(fields, projection).contains(field) <==> fields.contains(field)
                && is_selected(projection, field.name),
    decreases fields.len(),
{
    law_empty_projection(selected(fields, projection));
    if fields.len() > 0 {
        let shorter = fields.drop_last();
        law_projection_is_omission(shorter, projection);
        let kept = selected(shorter, projection);
        assert forall|field: FieldView| #[trigger]
            selected(fields, projection).contains(field) <==> fields.contains(field)
                && is_selected(projection, field.name) by {
            if selected(fields, projection).contains(field) {
                let i = selected(fields, projection).index_of(field);
                if i < kept.len() {
                    assert(kept[i] == field);
                    assert(kept.contains(field));
                    let j = shorter.index_of(field);
                    assert(fields[j] == field);
                } else {
                    assert(fields[fields.len() - 1] == field);
                }
            }
            if fields.contains(field) && is_selected(projection, field.name) {
                let j = fields.index_of(field);
                if j < shorter.len() {
                    assert(shorter[j] == field);
                    assert(kept.contains(field));
                    let i = kept.index_of(field);
                    assert(selected(fields, projection)[i] == field);
                } else {
                    assert(selected(fields, projection)[kept.len() as int] == field);
                }
            }
        }
    }
}

/// The order of the names in a projection, and names that come more than once, make no
/// difference.
pub proof fn law_projection_ignores_order(
    fields: Seq<FieldView>,
    a: Seq<Seq<char>>,
    b: Seq<Seq<char>>,
)
    requires
        a.to_set() == b.to_set(),
    ensures
        selected(fields, Some(a)) == selected(fields, Some(b)),
    decreases fields.len(),
{
    if fields.len() > 0 {
        law_projection_ignores_order(fields.drop_last(), a, b);
        let name = fields.last().name;
        if a.contains(name) {
            assert(a.to_set().contains(name));
            assert(b.contains(name));
        }
        if b.contains(name) {
            assert(b.to_set().contains(name));
            assert(a.contains(name));
        }
        if a.len() == 0 && b.len() > 0 {
            assert(b.to_set().contains(b[0]));
            assert(a.contains(b[0]));
        }
        if b.len() == 0 && a.len() > 0 {
            assert(a.to_set().contains(a[0]));
            assert(b.contains(a[0]));
        }
    }
}

// Settings

/// Asking for the schema to be inferred forgets a schema that was set, and setting a schema
/// ends the inference; what else is set stays as it is, in whatever order it is set.
pub proof fn law_settings(
    settings: Settings,
    schema: Schema,
    max_records: Option<usize>,
    batch_size: nat,
    names: Seq<Seq<char>>,
)
    ensures
        settings.with_schema(schema).infer_schema(max_records) == settings.infer_schema(
            max_records,
        ),
        settings.infer_schema(max_records).with_schema(schema).schema == Some(schema),
        settings.with_schema(schema).with_batch_size(batch_size) == settings.with_batch_size(
            batch_size,
        ).with_schema(schema),
        settings.with_schema(schema).with_projection(names) == settings.with_projection(
            names,
        ).with_schema(schema),
        settings.infer_schema(max_records).with_batch_size(batch_size)
            == settings.with_batch_size(batch_size).infer_schema(max_records),
        settings.infer_schema(max_records).with_projection(names) == settings.with_projection(
            names,
        ).infer_schema(max_records),
        settings.with_batch_size(batch_size).with_projection(names) == settings.with_projection(
            names,
        ).with_batch_size(batch_size),
{
}

} // verus!
