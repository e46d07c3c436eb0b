//! The types that JSON records speak for, and the schema that these come to.

use crate::data_type::{DataType, Field, FieldView, Schema};
use crate::value::{jsons, Json, JsonValue};
use vstd::prelude::*;

verus! {

/// The one type that values of the given types are read as. A single type stands;
/// `Int64` and `Float64` together make `Float64`; all else is read as text.
pub open spec fn scalar_type(types: Seq<DataType>) -> DataType {
    if types.len() == 1 {
        types[0]
    } else if types.len() == 2 && types.contains(DataType::Float64) && types.contains(
        DataType::Int64,
    ) {
        DataType::Float64
    } else {
        DataType::Utf8
    }
}

/// [`scalar_type`], or the type of lists of it.
pub open spec fn coerced(types: Seq<DataType>, is_list: bool) -> DataType {
    if is_list {
        DataType::List(Box::new(scalar_type(types)))
    } else {
        scalar_type(types)
    }
}

/// Whether the type is among the given ones.
fn contains_type(types: &Vec<DataType>, data_type: &DataType) -> (found: bool)
    ensures
        found == types@.contains(*data_type),
{
    let mut i: usize = 0;
    while i < types.len()
        invariant
            i <= types@.len(),
            forall|j: int| 0 <= j < i ==> types@[j] != *data_type,
        decreases types.len() - i,
    {
        if types[i].is_same(data_type) {
            return true;
        }
        i += 1;
    }
    false
}

/// Coerce data type, e.g. Int64 and Float64 should be Float64
pub fn coerce_data_type(dt: &Vec<DataType>, is_list: bool) -> (data_type: DataType)
    ensures
        data_type == coerced(dt@, is_list),
{
    let scalar_type: DataType = if dt.len() == 1 {
        dt[0].clone()
    } else if dt.len() == 2 && contains_type(dt, &DataType::Float64) && contains_type(
        dt,
        &DataType::Int64,
    ) {
        DataType::Float64
    } else {
        DataType::Utf8
    };
    if is_list {
        DataType::List(Box::new(scalar_type))
    } else {
        scalar_type
    }
}

/// The type that one item of a list speaks for. A null speaks for none.
pub open spec fn item_type(item: Json) -> Option<DataType> {
    match item {
        Json::Bool(_) => Some(DataType::Boolean),
        Json::Number(n) => Some(
            if n.as_i64 is Some {
                DataType::Int64
            } else {
                DataType::Float64
            },
        ),
        Json::Str(_) => Some(DataType::Utf8),
        _ => None,
    }
}

/// The types that the items of a list speak for, item by item.
pub open spec fn item_types(items: Seq<Json>) -> Seq<DataType>
    decreases items.len(),
{
    if items.len() == 0 {
        Seq::empty()
    } else {
        match item_type(items.last()) {
            Some(data_type) => item_types(items.drop_last()).push(data_type),
            None => item_types(items.drop_last()),
        }
    }
}

/// The type that a list speaks for: a list of what the types of its items come to, whatever
/// their order.
pub open spec fn list_type(items: Seq<Json>) -> DataType {
    DataType::List(Box::new(column_type(item_types(items).to_set())))
}

/// The type that the value of a member speaks for. Nulls and objects speak for none.
pub open spec fn value_type(json: Json) -> Option<DataType> {
    match json {
        Json::Null => None,
        Json::Bool(_) => Some(DataType::Boolean),
        Json::Number(n) => Some(
            if n.is_f64 {
                DataType::Float64
            } else {
                DataType::Int64
            },
        ),
        Json::Str(_) => Some(DataType::Utf8),
        Json::List(items) => Some(list_type(items)),
        Json::Record(_) => None,
    }
}

/// Whether the value is a list or an object.
pub open spec fn is_nested(json: Json) -> bool {
    json is List || json is Record
}

/// Whether the value is a list that holds a list or an object.
pub open spec fn has_nested_item(json: Json) -> bool {
    match json {
        Json::List(items) => exists|i: int|
            0 <= i < items.len() && is_nested(#[trigger] items[i]),
        _ => false,
    }
}

/// Whether a member of the record is a list that holds a list or an object.
pub open spec fn has_nested_list(json: Json) -> bool {
    match json {
        Json::Record(members) => exists|i: int|
            0 <= i < members.len() && has_nested_item((#[trigger] members[i]).1),
        _ => false,
    }
}

/// The names of a record's members, each with the type that its value speaks for. What is
/// not a record speaks for nothing.
pub open spec fn observed(json: Json) -> Set<(Seq<char>, DataType)> {
    Set::new(
        |seen: (Seq<char>, DataType)|
            match json {
                Json::Record(members) => exists|i: int|
                    0 <= i < members.len() && (#[trigger] members[i]).0 == seen.0 && value_type(
                        members[i].1,
                    ) == Some(seen.1),
                _ => false,
            },
    )
}

fn infer_item_type(item: &JsonValue) -> (data_type: Option<DataType>)
    ensures
        data_type == item_type(item@),
{
    match item {
        JsonValue::Bool(_) => Some(DataType::Boolean),
        JsonValue::Number(n) => {
            if n.as_i64.is_some() {
                Some(DataType::Int64)
            } else {
                Some(DataType::Float64)
            }
        },
        JsonValue::String(_) => Some(DataType::Utf8),
        _ => None,
    }
}

fn infer_list_type(items: &Vec<JsonValue>) -> (data_type: DataType)
    ensures
        data_type == list_type(jsons(items@)),
{
    let ghost all = jsons(items@);
    let mut types: Vec<DataType> = Vec::new();
    let mut i: usize = 0;
    proof {
        assert(types@.to_set() =~= item_types(all.take(0)).to_set());
    }
    while i < items.len()
        invariant
            i <= items@.len(),
            all == jsons(items@),
            types@.no_duplicates(),
            types@.to_set() == item_types(all.take(i as int)).to_set(),
        decreases items.len() - i,
    {
        let ghost before = item_types(all.take(i as int));
        proof {
            assert(all.take(i + 1).drop_last() =~= all.take(i as int));
        }
        match infer_item_type(&items[i]) {
            Some(data_type) => {
                let ghost kept = types@;
                proof {
                    lemma_push_to_set(before, data_type);
                    lemma_push_to_set(kept, data_type);
                }
                if !contains_type(&types, &data_type) {
                    types.push(data_type);
                } else {
                    assert(kept.to_set().contains(data_type));
                    assert(kept.to_set().insert(data_type) =~= kept.to_set());
                }
            },
            None => {},
        }
        i += 1;
    }
    proof {
        assert(all.take(i as int) =~= all);
        law_coerced_by_set(types@);
    }
    coerce_data_type(&types, true)
}

proof fn lemma_push_to_set(types: Seq<DataType>, data_type: DataType)
    ensures
        types.push(data_type).to_set() == types.to_set().insert(data_type),
{
    let longer = types.push(data_type);
    assert forall|t: DataType| longer.to_set().contains(t) <==> types.to_set().insert(
        data_type,
    ).contains(t) by {
        if types.contains(t) {
            let i = types.index_of(t);
            assert(longer[i] == t);
        }
        assert(longer[types.len() as int] == data_type);
    }
    assert(longer.to_set() =~= types.to_set().insert(data_type));
}

fn infer_value_type(value: &JsonValue) -> (data_type: Option<DataType>)
    ensures
        data_type == value_type(value@),
{
    match value {
        JsonValue::Null => None,
        JsonValue::Bool(_) => Some(DataType::Boolean),
        JsonValue::Number(n) => {
            if n.is_f64 {
                Some(DataType::Float64)
            } else {
                Some(DataType::Int64)
            }
        },
        JsonValue::String(_) => Some(DataType::Utf8),
        JsonValue::Array(items) => {
            proof {
                assert(value@->List_0 =~= jsons(items@));
            }
            Some(infer_list_type(items))
        },
        JsonValue::Object(_) => None,
    }
}

/// The types seen so far for one name.
#[derive(Debug)]
pub struct ColumnTypes {
    pub name: String,
    pub types: Vec<DataType>,
}

/// Names, each with the types seen for it.
#[derive(Debug)]
pub struct TypeTable {
    pub columns: Vec<ColumnTypes>,
}

/// The types seen for a name.
pub open spec fn types_of(seen: Set<(Seq<char>, DataType)>, name: Seq<char>) -> Set<DataType> {
    Set::new(|data_type: DataType| seen.contains((name, data_type)))
}

/// The names for which a type was seen.
pub open spec fn names_seen(seen: Set<(Seq<char>, DataType)>) -> Set<Seq<char>> {
    Set::new(|name: Seq<char>| exists|data_type: DataType| seen.contains((name, data_type)))
}

/// Seeing another type for a name adds the name.
pub(crate) proof fn lemma_names_insert(
    seen: Set<(Seq<char>, DataType)>,
    name: Seq<char>,
    data_type: DataType,
)
    ensures
        names_seen(seen.insert((name, data_type))) == names_seen(seen).insert(name),
{
    let more = seen.insert((name, data_type));
    assert forall|other: Seq<char>|
        names_seen(more).contains(other) <==> names_seen(seen).insert(name).contains(other) by {
        if names_seen(more).contains(other) && other != name {
            let t = choose|t: DataType| more.contains((other, t));
            assert(seen.contains((other, t)));
        }
        if names_seen(seen).contains(other) {
            let t = choose|t: DataType| seen.contains((other, t));
            assert(more.contains((other, t)));
        }
        assert(more.contains((name, data_type)));
    }
    assert(names_seen(more) =~= names_seen(seen).insert(name));
}

/// What was seen in two parts was seen for the names of both.
pub(crate) proof fn lemma_names_union(
    a: Set<(Seq<char>, DataType)>,
    b: Set<(Seq<char>, DataType)>,
)
    ensures
        names_seen(a.union(b)) == names_seen(a).union(names_seen(b)),
{
    let both = a.union(b);
    assert forall|name: Seq<char>|
        names_seen(both).contains(name) <==> names_seen(a).union(names_seen(b)).contains(
            name,
        ) by {
        if names_seen(both).contains(name) {
            let t = choose|t: DataType| both.contains((name, t));
            assert(a.contains((name, t)) || b.contains((name, t)));
        }
        if names_seen(a).contains(name) {
            let t = choose|t: DataType| a.contains((name, t));
            assert(both.contains((name, t)));
        }
        if names_seen(b).contains(name) {
            let t = choose|t: DataType| b.contains((name, t));
            assert(both.contains((name, t)));
        }
    }
    assert(names_seen(both) =~= names_seen(a).union(names_seen(b)));
}

impl TypeTable {
    /// No name occurs twice, and no type occurs twice for a name.
    pub open spec fn wf(&self) -> bool {
        &&& forall|i: int, j: int|
            0 <= i < j < self.columns@.len() ==> (#[trigger] self.columns@[i]).name@ != (
            #[trigger] self.columns@[j]).name@
        &&& forall|i: int|
            0 <= i < self.columns@.len() ==> (#[trigger] self.columns@[i]).types@.no_duplicates()
    }

    /// The names.
    pub open spec fn names(&self) -> Set<Seq<char>> {
        Set::new(
            |name: Seq<char>|
                exists|i: int|
                    0 <= i < self.columns@.len() && (#[trigger] self.columns@[i]).name@ == name,
        )
    }

    /// Whether the column at the given place has the name and the type.
    pub open spec fn has(&self, i: int, seen: (Seq<char>, DataType)) -> bool {
        &&& 0 <= i < self.columns@.len()
        &&& self.columns@[i].name@ == seen.0
        &&& self.columns@[i].types@.contains(seen.1)
    }

    /// The names with their types.
    pub open spec fn seen(&self) -> Set<(Seq<char>, DataType)> {
        Set::new(|seen: (Seq<char>, DataType)| exists|i: int| self.has(i, seen))
    }

    pub fn new() -> (table: TypeTable)
        ensures
            table.wf(),
            table.names() == Set::<Seq<char>>::empty(),
            table.seen() == Set::<(Seq<char>, DataType)>::empty(),
    {
        let table = TypeTable { columns: Vec::new() };
        proof {
            assert(table.names() =~= Set::empty());
            assert(table.seen() =~= Set::empty());
        }
        table
    }

    /// Notes that the type was seen for the name.
    pub fn observe(&mut self, name: &String, data_type: DataType)
        requires
            old(self).wf(),
        ensures
            final(self).wf(),
            final(self).names() == old(self).names().insert(name@),
            final(self).seen() == old(self).seen().insert((name@, data_type)),
    {
        let ghost before = *self;
        let mut i: usize = 0;
        while i < self.columns.len()
            invariant
                i <= self.columns@.len(),
                *self == before,
                before == *old(self),
                before.wf(),
                forall|j: int| 0 <= j < i ==> (#[trigger] self.columns@[j]).name@ != name@,
            decreases self.columns.len() - i,
        {
            if self.columns[i].name == *name {
                if !contains_type(&self.columns[i].types, &data_type) {
                    self.columns[i].types.push(data_type);
                }
                proof {
                    lemma_observe_known(before, *self, i as int, name@, data_type);
                }
                return ;
            }
            i += 1;
        }
        let mut types: Vec<DataType> = Vec::new();
        types.push(data_type);
        self.columns.push(ColumnTypes { name: name.clone(), types });
        proof {
            assert(self.columns@.drop_last() =~= before.columns@);
            lemma_observe_new(before, *self, name@, data_type);
        }
    }
}

proof fn lemma_observe_known(
    before: TypeTable,
    after: TypeTable,
    at: int,
    name: Seq<char>,
    data_type: DataType,
)
    requires
        before.wf(),
        0 <= at < before.columns@.len(),
        after.columns@.len() == before.columns@.len(),
        before.columns@[at].name@ == name,
        after.columns@[at].name@ == name,
        after.columns@[at].types@ == if before.columns@[at].types@.contains(data_type) {
            before.columns@[at].types@
        } else {
            before.columns@[at].types@.push(data_type)
        },
        forall|j: int|
            0 <= j < before.columns@.len() && j != at ==> #[trigger] after.columns@[j]
                == before.columns@[j],
    ensures
        after.wf(),
        after.names() == before.names().insert(name),
        after.seen() == before.seen().insert((name, data_type)),
{
    let old_types = before.columns@[at].types@;
    let new_types = after.columns@[at].types@;
    assert forall|t: DataType| new_types.contains(t) <==> (old_types.contains(t) || t
        == data_type) by {
        if !old_types.contains(data_type) {
            assert(new_types[old_types.len() as int] == data_type);
            if old_types.contains(t) {
                let k = old_types.index_of(t);
                assert(new_types[k] == t);
            }
        }
    }
    assert forall|seen: (Seq<char>, DataType)|
        after.seen().contains(seen) <==> before.seen().insert((name, data_type)).contains(
            seen,
        ) by {
        if after.seen().contains(seen) {
            let i = choose|i: int| after.has(i, seen);
            if i != at {
                assert(after.columns@[i] == before.columns@[i]);
                assert(before.has(i, seen));
            } else if seen.1 != data_type {
                assert(before.has(at, seen));
            }
        }
        if before.seen().contains(seen) {
            let i = choose|i: int| before.has(i, seen);
            if i != at {
                assert(after.columns@[i] == before.columns@[i]);
            }
            assert(after.has(i, seen));
        }
        if seen == (name, data_type) {
            assert(after.has(at, seen));
        }
    }
    assert(after.seen() =~= before.seen().insert((name, data_type)));
    assert forall|other: Seq<char>|
        after.names().contains(other) <==> before.names().insert(name).contains(other) by {
        if after.names().contains(other) {
            let i = choose|i: int|
                0 <= i < after.columns@.len() && (#[trigger] after.columns@[i]).name@ == other;
            assert(before.columns@[i].name@ == other);
        }
        if before.names().contains(other) {
            let i = choose|i: int|
                0 <= i < before.columns@.len() && (#[trigger] before.columns@[i]).name@ == other;
            assert(after.columns@[i].name@ == other);
        }
        assert(after.columns@[at].name@ == name);
    }
    assert(after.names() =~= before.names().insert(name));
}

proof fn lemma_observe_new(
    before: TypeTable,
    after: TypeTable,
    name: Seq<char>,
    data_type: DataType,
)
    requires
        before.wf(),
        after.columns@.len() == before.columns@.len() + 1,
        after.columns@.drop_last() == before.columns@,
        forall|j: int|
            0 <= j < before.columns@.len() ==> (#[trigger] before.columns@[j]).name@ != name,
        after.columns@.last().name@ == name,
        after.columns@.last().types@ == seq![data_type],
    ensures
        after.wf(),
        after.names() == before.names().insert(name),
        after.seen() == before.seen().insert((name, data_type)),
{
    let n = before.columns@.len() as int;
    assert forall|j: int| 0 <= j < n implies #[trigger] after.columns@[j]
        == before.columns@[j] by {
        assert(after.columns@.drop_last()[j] == before.columns@[j]);
    }
    assert forall|seen: (Seq<char>, DataType)|
        after.seen().contains(seen) <==> before.seen().insert((name, data_type)).contains(
            seen,
        ) by {
        if after.seen().contains(seen) {
            let i = choose|i: int| after.has(i, seen);
            if i < n {
                assert(before.has(i, seen));
            }
        }
        if before.seen().contains(seen) {
            let i = choose|i: int| before.has(i, seen);
            assert(after.has(i, seen));
        }
        if seen == (name, data_type) {
            assert(after.columns@[n].types@[0] == data_type);
            assert(after.has(n, seen));
        }
    }
    assert(after.seen() =~= before.seen().insert((name, data_type)));
    assert forall|other: Seq<char>|
        after.names().contains(other) <==> before.names().insert(name).contains(other) by {
        if after.names().contains(other) {
            let i = choose|i: int|
                0 <= i < after.columns@.len() && (#[trigger] after.columns@[i]).name@ == other;
            if i < n {
                assert(before.columns@[i].name@ == other);
            }
        }
        if before.names().contains(other) {
            let i = choose|i: int|
                0 <= i < before.columns@.len() && (#[trigger] before.columns@[i]).name@ == other;
            assert(after.columns@[i].name@ == other);
        }
        assert(after.columns@[n].name@ == name);
    }
    assert(after.names() =~= before.names().insert(name));
}

impl TypeTable {
    /// Notes the types that the members of a record speak for.
    pub fn observe_record(&mut self, record: &JsonValue)
        requires
            old(self).wf(),
            !has_nested_list(record@),
        ensures
            final(self).wf(),
            final(self).names() == old(self).names().union(names_seen(observed(record@))),
            final(self).seen() == old(self).seen().union(observed(record@)),
    {
        match record {
            JsonValue::Object(members) => {
                let ghost all = record@->Record_0;
                let ghost before = self.seen();
                let ghost names = self.names();
                let mut i: usize = 0;
                proof {
                    let none = observed(Json::Record(all.take(0)));
                    assert(self.seen() =~= before.union(none));
                    assert(self.names() =~= names.union(names_seen(none)));
                }
                while i < members.len()
                    invariant
                        i <= members@.len(),
                        record@ == Json::Record(all),
                        !has_nested_list(record@),
                        all.len() == members@.len(),
                        forall|j: int|
                            0 <= j < all.len() ==> #[trigger] all[j] == (
                                members@[j].0@,
                                members@[j].1@,
                            ),
                        self.wf(),
                        self.seen() == before.union(observed(Json::Record(all.take(i as int)))),
                        self.names() == names.union(
                            names_seen(observed(Json::Record(all.take(i as int)))),
                        ),
                    decreases members.len() - i,
                {
                    proof {
                        assert(record@->Record_0 == all);
                        assert(!has_nested_item(all[i as int].1));
                    }
                    let ghost earlier = observed(Json::Record(all.take(i as int)));
                    match infer_value_type(&members[i].1) {
                        Some(data_type) => {
                            self.observe(&members[i].0, data_type);
                            proof {
                                lemma_names_insert(earlier, all[i as int].0, data_type);
                            }
                        },
                        None => {},
                    }
                    proof {
                        lemma_observed_next(all, i as int);
                        let later = observed(Json::Record(all.take(i + 1)));
                        assert(self.seen() =~= before.union(later));
                        assert(self.names() =~= names.union(names_seen(later)));
                    }
                    i += 1;
                }
                proof {
                    assert(all.take(i as int) =~= all);
                }
            },
            _ => {
                proof {
                    assert(self.seen() =~= self.seen().union(observed(record@)));
                    assert(self.names() =~= self.names().union(names_seen(observed(record@))));
                }
            },
        }
    }
}

/// What the first `i + 1` members speak for is what the first `i` do, and the next one.
proof fn lemma_observed_next(members: Seq<(Seq<char>, Json)>, i: int)
    requires
        0 <= i < members.len(),
    ensures
        observed(Json::Record(members.take(i + 1))) == match value_type(members[i].1) {
            Some(data_type) => observed(Json::Record(members.take(i))).insert(
                (members[i].0, data_type),
            ),
            None => observed(Json::Record(members.take(i))),
        },
{
    let shorter = members.take(i);
    let longer = members.take(i + 1);
    let expected = match value_type(members[i].1) {
        Some(data_type) => observed(Json::Record(shorter)).insert((members[i].0, data_type)),
        None => observed(Json::Record(shorter)),
    };
    assert forall|seen: (Seq<char>, DataType)|
        observed(Json::Record(longer)).contains(seen) <==> expected.contains(seen) by {
        if observed(Json::Record(longer)).contains(seen) {
            let j = choose|j: int|
                0 <= j < longer.len() && (#[trigger] longer[j]).0 == seen.0 && value_type(
                    longer[j].1,
                ) == Some(seen.1);
            if j < i {
                assert(shorter[j] == longer[j]);
            }
        }
        if observed(Json::Record(shorter)).contains(seen) {
            let j = choose|j: int|
                0 <= j < shorter.len() && (#[trigger] shorter[j]).0 == seen.0 && value_type(
                    shorter[j].1,
                ) == Some(seen.1);
            assert(shorter[j] == longer[j]);
        }
        assert(longer[i] == members[i]);
    }
    assert(observed(Json::Record(longer)) =~= expected);
}

/// Whether a member of the record is a list that holds a list or an object.
pub fn find_nested_list(record: &JsonValue) -> (found: bool)
    ensures
        found == has_nested_list(record@),
{
    match record {
        JsonValue::Object(members) => {
            let ghost all = record@->Record_0;
            let mut i: usize = 0;
            while i < members.len()
                invariant
                    i <= members@.len(),
                    record@ == Json::Record(all),
                    all.len() == members@.len(),
                    forall|j: int|
                        0 <= j < all.len() ==> #[trigger] all[j] == (
                            members@[j].0@,
                            members@[j].1@,
                        ),
                    forall|j: int| 0 <= j < i ==> !has_nested_item((#[trigger] all[j]).1),
                decreases members.len() - i,
            {
                let found = find_nested_item(&members[i].1);
                if found {
                    proof {
                        assert(record@->Record_0 == all);
                        assert(has_nested_item(all[i as int].1));
                    }
                    return true;
                }
                i += 1;
            }
            false
        },
        _ => false,
    }
}

/// Whether the value is a list that holds a list or an object.
fn find_nested_item(value: &JsonValue) -> (found: bool)
    ensures
        found == has_nested_item(value@),
{
    match value {
        JsonValue::Array(items) => {
            let ghost all = value@->List_0;
            let mut i: usize = 0;
            while i < items.len()
                invariant
                    i <= items@.len(),
                    value@ == Json::List(all),
                    all.len() == items@.len(),
                    forall|j: int| 0 <= j < all.len() ==> #[trigger] all[j] == items@[j]@,
                    forall|j: int| 0 <= j < i ==> !is_nested(#[trigger] all[j]),
                decreases items.len() - i,
            {
                match &items[i] {
                    JsonValue::Array(_) | JsonValue::Object(_) => {
                        proof {
                            assert(value@->List_0 == all);
                            assert(is_nested(all[i as int]));
                        }
                        return true;
                    },
                    _ => {},
                }
                i += 1;
            }
            false
        },
        _ => false,
    }
}

/// Whether the one type is all there is.
pub open spec fn is_only(types: Set<DataType>, data_type: DataType) -> bool {
    forall|t: DataType| #[trigger] types.contains(t) <==> t == data_type
}

/// The type of a column for which the given types were seen.
pub open spec fn column_type(types: Set<DataType>) -> DataType {
    if exists|data_type: DataType| is_only(types, data_type) {
        choose|data_type: DataType| is_only(types, data_type)
    } else if types == set![DataType::Int64, DataType::Float64] {
        DataType::Float64
    } else {
        DataType::Utf8
    }
}

/// Whether the fields make up the schema for the names and for the types that were seen, in
/// whatever order: a field for every name, none twice, each nullable and of the type that its
/// types come to.
pub open spec fn is_schema_for(
    fields: Seq<FieldView>,
    names: Set<Seq<char>>,
    seen: Set<(Seq<char>, DataType)>,
) -> bool {
    &&& forall|i: int, j: int|
        0 <= i < j < fields.len() ==> (#[trigger] fields[i]).name != (#[trigger] fields[j]).name
    &&& forall|i: int|
        0 <= i < fields.len() ==> {
            &&& names.contains((#[trigger] fields[i]).name)
            &&& fields[i].data_type == column_type(types_of(seen, fields[i].name))
            &&& fields[i].nullable
        }
    &&& forall|name: Seq<char>| #[trigger]
        names.contains(name) ==> exists|i: int|
            0 <= i < fields.len() && (#[trigger] fields[i]).name == name
}

/// Whether the fields make up the schema for the types that were seen and for the names that
/// they were seen for.
pub open spec fn is_schema_of(
    fields: Seq<FieldView>,
    seen: Set<(Seq<char>, DataType)>,
) -> bool {
    is_schema_for(fields, names_seen(seen), seen)
}

/// On types that are all different, coercing goes by which types there are.
pub proof fn law_coerced_by_set(types: Seq<DataType>)
    requires
        types.no_duplicates(),
    ensures
        coerced(types, false) == column_type(types.to_set()),
{
    let set = types.to_set();
    if types.len() == 0 {
        assert forall|data_type: DataType| !is_only(set, data_type) by {
            assert(!set.contains(data_type));
        }
        assert(!set.contains(DataType::Int64));
    } else if types.len() == 1 {
        assert(set.contains(types[0]));
        assert(is_only(set, types[0]));
        let chosen = choose|data_type: DataType| is_only(set, data_type);
        assert(is_only(set, chosen));
        assert(set.contains(chosen));
    } else {
        assert(set.contains(types[0]));
        assert(set.contains(types[1]));
        assert(types[0] != types[1]);
        assert forall|data_type: DataType| !is_only(set, data_type) by {
            if is_only(set, data_type) {
                assert(types[0] == data_type);
                assert(types[1] == data_type);
            }
        }
        let pair = set![DataType::Int64, DataType::Float64];
        if types.len() == 2 {
            if types.contains(DataType::Float64) && types.contains(DataType::Int64) {
                assert(set =~= pair);
            } else if set == pair {
                assert(set.contains(DataType::Int64));
                assert(set.contains(DataType::Float64));
            }
        } else {
            assert(set.contains(types[2]));
            if set == pair {
                assert(pair.contains(types[0]) && pair.contains(types[1]) && pair.contains(
                    types[2],
                ));
                assert(types[0] != types[2] && types[1] != types[2]);
            }
        }
    }
}

/// The schema for the names and types that were seen: a nullable field for each name. A name
/// without types is one of text.
pub fn generate_schema(spec: TypeTable) -> (schema: Schema)
    requires
        spec.wf(),
    ensures
        is_schema_for(schema@, spec.names(), spec.seen()),
{
    let mut fields: Vec<Field> = Vec::new();
    let mut i: usize = 0;
    while i < spec.columns.len()
        invariant
            i <= spec.columns@.len(),
            fields@.len() == i,
            forall|j: int|
                0 <= j < i ==> (#[trigger] fields@[j])@ == (FieldView {
                    name: spec.columns@[j].name@,
                    data_type: coerced(spec.columns@[j].types@, false),
                    nullable: true,
                }),
        decreases spec.columns.len() - i,
    {
        let data_type = coerce_data_type(&spec.columns[i].types, false);
        fields.push(Field::new(spec.columns[i].name.as_str(), data_type, true));
        i += 1;
    }
    let schema = Schema::new(fields);
    proof {
        lemma_generated(spec, schema@);
    }
    schema
}

proof fn lemma_generated(table: TypeTable, fields: Seq<FieldView>)
    requires
        table.wf(),
        fields.len() == table.columns@.len(),
        forall|j: int|
            0 <= j < fields.len() ==> #[trigger] fields[j] == (FieldView {
                name: table.columns@[j].name@,
                data_type: coerced(table.columns@[j].types@, false),
                nullable: true,
            }),
    ensures
        is_schema_for(fields, table.names(), table.seen()),
{
    let seen = table.seen();
    assert forall|i: int, j: int| 0 <= i < j < fields.len() implies (#[trigger] fields[i]).name
        != (#[trigger] fields[j]).name by {
        assert(table.columns@[i].name@ != table.columns@[j].name@);
    }
    assert forall|i: int| 0 <= i < fields.len() implies {
        &&& table.names().contains((#[trigger] fields[i]).name)
        &&& fields[i].data_type == column_type(types_of(seen, fields[i].name))
        &&& fields[i].nullable
    } by {
        let types = table.columns@[i].types@;
        let name = table.columns@[i].name@;
        assert(table.columns@[i].name@ == fields[i].name);
        assert forall|t: DataType| types_of(seen, name).contains(t) <==> types.to_set().contains(
            t,
        ) by {
            if seen.contains((name, t)) {
                let j = choose|j: int| table.has(j, (name, t));
                if j < i {
                    assert(table.columns@[j].name@ != table.columns@[i].name@);
                } else if i < j {
                    assert(table.columns@[i].name@ != table.columns@[j].name@);
                }
            }
            if types.contains(t) {
                assert(table.has(i, (name, t)));
            }
        }
        assert(types_of(seen, name) =~= types.to_set());
        law_coerced_by_set(types);
    }
    assert forall|name: Seq<char>| #[trigger]
        table.names().contains(name) implies exists|i: int|
        0 <= i < fields.len() && (#[trigger] fields[i]).name == name by {
        let j = choose|j: int|
            0 <= j < table.columns@.len() && (#[trigger] table.columns@[j]).name@ == name;
        assert(fields[j].name == name);
    }
}

} // verus!
