//! Inferring a schema line by line.

use crate::data_type::{DataType, Schema};
use crate::error::JsonError;
use crate::text::{json_of, parse, trim, trimmed};
use crate::types::{
    find_nested_list, generate_schema, has_nested_list, is_schema_of, lemma_names_union,
    names_seen, observed, TypeTable,
};
use crate::value::JsonValue;
use vstd::prelude::*;

verus! {

/// What one line of text speaks for, or why it cannot be taken in.
pub open spec fn line_observed(line: Seq<char>) -> Result<Set<(Seq<char>, DataType)>, JsonError> {
    match json_of(trimmed(line)) {
        Some(json) => if has_nested_list(json) {
            Err(JsonError::NestedList)
        } else {
            Ok(observed(json))
        },
        None => Err(JsonError::NotValidJson),
    }
}

/// What at most `limit` lines speak for, up to the first empty one; or why the first line
/// that cannot be taken in cannot be.
pub open spec fn lines_observed(lines: Seq<Seq<char>>, limit: nat) -> Result<
    Set<(Seq<char>, DataType)>,
    JsonError,
>
    decreases lines.len(),
{
    if limit == 0 || lines.len() == 0 || lines[0].len() == 0 {
        Ok(Set::empty())
    } else {
        match (line_observed(lines[0]), lines_observed(lines.drop_first(), (limit - 1) as nat)) {
            (Err(error), _) => Err(error),
            (_, Err(error)) => Err(error),
            (Ok(first), Ok(rest)) => Ok(first.union(rest)),
        }
    }
}

/// How many records are read.
pub open spec fn record_limit(max_records: Option<usize>) -> nat {
    match max_records {
        Some(n) => n as nat,
        None => usize::MAX as nat,
    }
}

/// The texts of the lines.
pub open spec fn texts(lines: Seq<String>) -> Seq<Seq<char>> {
    Seq::new(lines.len(), |i: int| lines[i]@)
}

/// A schema being inferred. Lines are to be handed in, each with its line end, for as long
/// as [`SchemaInference::wants_line`] says so, and an empty one where there are no more.
#[derive(Debug)]
pub struct SchemaInference {
    max_records: Option<usize>,
    records: usize,
    ended: bool,
    table: TypeTable,
}

impl SchemaInference {
    pub closed spec fn wf(&self) -> bool {
        &&& self.table.wf()
        &&& self.table.names() == names_seen(self.table.seen())
        &&& self.records <= record_limit(self.max_records)
    }

    /// The names and types seen so far.
    pub closed spec fn seen(&self) -> Set<(Seq<char>, DataType)> {
        self.table.seen()
    }

    /// How many more records are to be read at most.
    pub closed spec fn remaining(&self) -> nat {
        if self.ended {
            0
        } else {
            (record_limit(self.max_records) - self.records) as nat
        }
    }

    /// Starts with no record read.
    pub fn new(max_records: Option<usize>) -> (inference: SchemaInference)
        ensures
            inference.wf(),
            inference.seen() == Set::<(Seq<char>, DataType)>::empty(),
            inference.remaining() == record_limit(max_records),
    {
        let table = TypeTable::new();
        proof {
            assert(table.names() =~= names_seen(table.seen()));
        }
        SchemaInference { max_records, records: 0, ended: false, table }
    }

    /// Whether another line is to be read.
    pub fn wants_line(&self) -> (wants: bool)
        requires
            self.wf(),
        ensures
            wants == (self.remaining() > 0),
    {
        let limit: usize = match self.max_records {
            Some(n) => n,
            None => usize::MAX,
        };
        !self.ended && self.records < limit
    }

    /// Takes in the next line. An empty one is the end of the input. A line that cannot be
    /// taken in leaves everything as it was.
    pub fn push_line(&mut self, line: &str) -> (taken: Result<(), JsonError>)
        requires
            old(self).wf(),
            old(self).remaining() > 0,
        ensures
            final(self).wf(),
            line@.len() == 0 ==> {
                &&& taken is Ok
                &&& final(self).seen() == old(self).seen()
                &&& final(self).remaining() == 0
            },
            line@.len() > 0 ==> match line_observed(line@) {
                Ok(seen) => {
                    &&& taken is Ok
                    &&& final(self).seen() == old(self).seen().union(seen)
                    &&& final(self).remaining() == old(self).remaining() - 1
                },
                Err(error) => {
                    &&& taken == Err::<(), JsonError>(error)
                    &&& *final(self) == *old(self)
                },
            },
    {
        if line.is_empty() {
            self.ended = true;
            return Ok(());
        }
        let record: JsonValue = match parse(trim(line)) {
            Ok(record) => record,
            Err(error) => {
                return Err(error);
            },
        };
        if find_nested_list(&record) {
            return Err(JsonError::NestedList);
        }
        proof {
            lemma_names_union(self.table.seen(), observed(record@));
        }
        self.table.observe_record(&record);
        self.records = self.records + 1;
        Ok(())
    }

    /// The schema for what was seen.
    pub fn finish(self) -> (schema: Schema)
        requires
            self.wf(),
        ensures
            is_schema_of(schema@, self.seen()),
    {
        generate_schema(self.table)
    }
}

/// Adds what was seen before to what the rest of the lines speaks for.
spec fn after(
    seen: Set<(Seq<char>, DataType)>,
    rest: Result<Set<(Seq<char>, DataType)>, JsonError>,
) -> Result<Set<(Seq<char>, DataType)>, JsonError> {
    match rest {
        Ok(more) => Ok(seen.union(more)),
        Err(error) => Err(error),
    }
}

/// Infers the schema of the records that the lines hold, one on each line, from the first
/// `max_read_records` of them or from all. Reading stops at an empty line.
pub fn infer_json_schema(lines: &Vec<String>, max_read_records: Option<usize>) -> (inferred: Result<
    Schema,
    JsonError,
>)
    ensures
        match lines_observed(texts(lines@), record_limit(max_read_records)) {
            Ok(seen) => inferred matches Ok(schema) && is_schema_of(schema@, seen),
            Err(error) => inferred == Err::<Schema, JsonError>(error),
        },
{
    let ghost all = texts(lines@);
    let ghost total = lines_observed(all, record_limit(max_read_records));
    let mut inference = SchemaInference::new(max_read_records);
    let mut i: usize = 0;
    proof {
        assert(all.skip(0) =~= all);
        assert(total is Ok ==> Set::empty().union(total->Ok_0) =~= total->Ok_0);
    }
    while i < lines.len() && inference.wants_line()
        invariant
            i <= lines@.len(),
            all == texts(lines@),
            total == lines_observed(all, record_limit(max_read_records)),
            inference.wf(),
            total == after(
                inference.seen(),
                lines_observed(all.skip(i as int), inference.remaining()),
            ),
        decreases lines.len() - i,
    {
        let ghost before = inference;
        let ghost rest = all.skip(i as int);
        proof {
            assert(rest[0] == lines@[i as int]@);
            assert(rest.drop_first() =~= all.skip(i + 1));
        }
        match inference.push_line(lines[i].as_str()) {
            Ok(_) => {},
            Err(error) => {
                return Err(error);
            },
        }
        proof {
            let later = lines_observed(all.skip(i + 1), inference.remaining());
            if rest[0].len() == 0 {
                assert(inference.remaining() == 0);
            } else {
                let first = line_observed(rest[0])->Ok_0;
                if later is Ok {
                    assert(before.seen().union(first.union(later->Ok_0)) =~= inference.seen().union(
                        later->Ok_0,
                    ));
                }
            }
        }
        i += 1;
    }
    proof {
        assert(lines_observed(all.skip(i as int), inference.remaining()) == Ok::<
            Set<(Seq<char>, DataType)>,
            JsonError,
        >(Set::empty()));
        assert(inference.seen().union(Set::empty()) =~= inference.seen());
    }
    Ok(inference.finish())
}

} // verus!
