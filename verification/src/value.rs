//! JSON values as the reader sees them.

use crate::casts::{double_of_int, integer_of, is_finite};
use vstd::prelude::*;

verus! {

/// A JSON number, by what the reader asks of it.
#[derive(Debug, Clone, Copy)]
pub struct Number {
    /// The number, where it is an integer between `i64::MIN` and `i64::MAX`.
    pub as_i64: Option<i64>,
    /// Whether the number is neither a signed nor an unsigned 64-bit integer.
    pub is_f64: bool,
    /// The nearest double-precision number, by its bit pattern.
    pub as_f64: Option<u64>,
}

impl Number {
    /// Whether the fields are those of one number that JSON can spell: it is finite, and an
    /// integer is taken to double precision as `num` does it, which keeps one of up to 53 bits
    /// as it is.
    pub open spec fn wf(self) -> bool {
        &&& self.as_f64 matches Some(bits) && is_finite(bits)
        &&& self.as_i64 matches Some(v) ==> {
            &&& !self.is_f64
            &&& self.as_f64 == Some(double_of_int(v))
            &&& -0x20_0000_0000_0000 <= v <= 0x20_0000_0000_0000 ==> integer_of(double_of_int(v))
                == Some(v as i128)
        }
    }
}

/// What a [`JsonValue`] holds.
pub enum Json {
    Null,
    Bool(bool),
    Number(Number),
    Str(Seq<char>),
    List(Seq<Json>),
    Record(Seq<(Seq<char>, Json)>),
}

/// A JSON value.
#[derive(Debug)]
pub enum JsonValue {
    Null,
    Bool(bool),
    Number(Number),
    String(String),
    Array(Vec<JsonValue>),
    /// The members of an object, each with its name.
    Object(Vec<(String, JsonValue)>),
}

impl JsonValue {
    pub open spec fn json(self) -> Json
        decreases self,
    {
        match self {
            JsonValue::Null => Json::Null,
            JsonValue::Bool(b) => Json::Bool(b),
            JsonValue::Number(n) => Json::Number(n),
            JsonValue::String(s) => Json::Str(s@),
            JsonValue::Array(items) => Json::List(
                Seq::new(
                    items@.len(),
                    |i: int|
                        if 0 <= i < items@.len() {
                            items@[i].json()
                        } else {
                            Json::Null
                        },
                ),
            ),
            JsonValue::Object(members) => Json::Record(
                Seq::new(
                    members@.len(),
                    |i: int|
                        if 0 <= i < members@.len() {
                            (members@[i].0@, members@[i].1.json())
                        } else {
                            (Seq::empty(), Json::Null)
                        },
                ),
            ),
        }
    }
}

impl View for JsonValue {
    type V = Json;

    open spec fn view(&self) -> Json {
        self.json()
    }
}

/// Whether all numbers in the value are numbers that JSON can spell.
pub open spec fn is_sound(json: Json) -> bool
    decreases json,
{
    match json {
        Json::Number(n) => n.wf(),
        Json::List(items) => forall|i: int|
            0 <= i < items.len() ==> is_sound(#[trigger] items[i]),
        Json::Record(members) => forall|i: int|
            0 <= i < members.len() ==> is_sound((#[trigger] members[i]).1),
        _ => true,
    }
}

/// Whether all numbers in the values are numbers that JSON can spell.
pub open spec fn all_sound(values: Seq<Json>) -> bool {
    forall|i: int| 0 <= i < values.len() ==> is_sound(#[trigger] values[i])
}

/// The values of a sequence, each by what it holds.
pub open spec fn jsons(values: Seq<JsonValue>) -> Seq<Json> {
    Seq::new(values.len(), |i: int| values[i]@)
}

/// The value of the first member with the given name.
pub open spec fn lookup(members: Seq<(Seq<char>, Json)>, name: Seq<char>) -> Option<Json>
    decreases members.len(),
{
    if members.len() == 0 {
        None
    } else if members[0].0 == name {
        Some(members[0].1)
    } else {
        lookup(members.drop_first(), name)
    }
}

/// The member of a record with the given name. What is not a record has no members.
pub open spec fn member(json: Json, name: Seq<char>) -> Option<Json> {
    match json {
        Json::Record(members) => lookup(members, name),
        _ => None,
    }
}

/// What a sound record has for a name is sound.
pub proof fn lemma_member_sound(json: Json, name: Seq<char>)
    requires
        is_sound(json),
    ensures
        member(json, name) matches Some(value) ==> is_sound(value),
{
    match json {
        Json::Record(members) => {
            lemma_lookup_sound(members, name);
        },
        _ => {},
    }
}

proof fn lemma_lookup_sound(members: Seq<(Seq<char>, Json)>, name: Seq<char>)
    requires
        forall|i: int| 0 <= i < members.len() ==> is_sound((#[trigger] members[i]).1),
    ensures
        lookup(members, name) matches Some(value) ==> is_sound(value),
    decreases members.len(),
{
    if members.len() > 0 && members[0].0 != name {
        let rest = members.drop_first();
        assert forall|i: int| 0 <= i < rest.len() implies is_sound((#[trigger] rest[i]).1) by {
            assert(rest[i] == members[i + 1]);
        }
        lemma_lookup_sound(rest, name);
    }
}

/// The truth value that a value holds, if it is one.
pub open spec fn bool_of(json: Json) -> Option<bool> {
    match json {
        Json::Bool(b) => Some(b),
        _ => None,
    }
}

/// The string that a value holds, if it is one.
pub open spec fn string_of(json: Json) -> Option<Seq<char>> {
    match json {
        Json::Str(s) => Some(s),
        _ => None,
    }
}

/// The number that a value holds, if it is one.
pub open spec fn number_of(json: Json) -> Option<Number> {
    match json {
        Json::Number(n) => Some(n),
        _ => None,
    }
}

impl JsonValue {
    /// The member of an object with the given name.
    pub fn get(&self, name: &String) -> (found: Option<&JsonValue>)
        ensures
            match found {
                Some(value) => member(self@, name@) == Some(value@),
                None => member(self@, name@) is None,
            },
    {
        match self {
            JsonValue::Object(members) => {
                let ghost all = self@->Record_0;
                let mut i: usize = 0;
                assert(all.skip(0) =~= all);
                while i < members.len()
                    invariant
                        i <= members@.len(),
                        self@ == Json::Record(all),
                        all.len() == members@.len(),
                        forall|j: int|
                            0 <= j < all.len() ==> #[trigger] all[j] == (
                                members@[j].0@,
                                members@[j].1@,
                            ),
                        lookup(all, name@) == lookup(all.skip(i as int), name@),
                    decreases members.len() - i,
                {
                    if members[i].0 == *name {
                        return Some(&members[i].1);
                    }
                    assert(all.skip(i as int).drop_first() =~= all.skip(i + 1));
                    i += 1;
                }
                None
            },
            _ => None,
        }
    }

    /// The truth value, if this is one.
    pub fn as_bool(&self) -> (b: Option<bool>)
        ensures
            b == bool_of(self@),
    {
        match self {
            JsonValue::Bool(b) => Some(*b),
            _ => None,
        }
    }

    /// The string, if this is one.
    pub fn as_str(&self) -> (s: Option<&str>)
        ensures
            match s {
                Some(s) => string_of(self@) == Some(s@),
                None => string_of(self@) is None,
            },
    {
        match self {
            JsonValue::String(s) => Some(s.as_str()),
            _ => None,
        }
    }

    /// The number, if this is one.
    pub fn as_number(&self) -> (n: Option<Number>)
        ensures
            n == number_of(self@),
    {
        match self {
            JsonValue::Number(n) => Some(*n),
            _ => None,
        }
    }
}

} // verus!
