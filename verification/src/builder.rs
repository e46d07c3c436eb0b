//! Setting up a reader.

use crate::data_type::{DataType, Schema};
use crate::error::JsonError;
use crate::infer::{infer_json_schema, lines_observed, record_limit, texts, SchemaInference};
use crate::reader::{names_of, Reader};
use crate::types::is_schema_of;
use std::sync::Arc;
use vstd::prelude::*;

verus! {

/// What a [`ReaderBuilder`] is set to.
pub struct Settings {
    /// The schema of the records, unless it is to be inferred.
    pub schema: Option<Schema>,
    /// How many records the schema is inferred from at most.
    pub max_records: Option<usize>,
    pub batch_size: nat,
    pub projection: Option<Seq<Seq<char>>>,
}

/// The settings of a reader to be made.
#[derive(Debug)]
pub struct ReaderBuilder {
    schema: Option<Arc<Schema>>,
    max_records: Option<usize>,
    batch_size: usize,
    projection: Option<Vec<String>>,
}

impl View for ReaderBuilder {
    type V = Settings;

    closed spec fn view(&self) -> Settings {
        Settings {
            schema: match self.schema {
                Some(schema) => Some(*schema),
                None => None,
            },
            max_records: self.max_records,
            batch_size: self.batch_size as nat,
            projection: names_of(self.projection),
        }
    }
}

/// The settings to start from: the schema is inferred from all records, every column is
/// read, and 1024 records are read at one time.
pub open spec fn default_settings() -> Settings {
    Settings { schema: None, max_records: None, batch_size: 1024, projection: None }
}

impl Settings {
    /// The settings with the schema set.
    pub open spec fn with_schema(self, schema: Schema) -> Settings {
        Settings { schema: Some(schema), ..self }
    }

    /// The settings with no schema, so that it is inferred, from so many records at most.
    pub open spec fn infer_schema(self, max_records: Option<usize>) -> Settings {
        Settings { schema: None, max_records, ..self }
    }

    /// The settings with the batch size set.
    pub open spec fn with_batch_size(self, batch_size: nat) -> Settings {
        Settings { batch_size, ..self }
    }

    /// The settings with the projection set.
    pub open spec fn with_projection(self, names: Seq<Seq<char>>) -> Settings {
        Settings { projection: Some(names), ..self }
    }
}

impl Default for ReaderBuilder {
    fn default() -> (builder: ReaderBuilder)
        ensures
            builder@ == default_settings(),
    {
        ReaderBuilder { schema: None, max_records: None, batch_size: 1024, projection: None }
    }
}

/// Whether the reader is at the start of the lines and reads them by the settings.
pub open spec fn is_set_up(reader: Reader, settings: Settings, lines: Seq<Seq<char>>) -> bool {
    &&& reader.wf()
    &&& reader.pending() == lines
    &&& reader.batch_size() == settings.batch_size
    &&& reader.projection() == settings.projection
}

impl ReaderBuilder {
    pub fn new() -> (builder: ReaderBuilder)
        ensures
            builder@ == default_settings(),
    {
        ReaderBuilder::default()
    }

    /// Set the JSON file's schema
    pub fn with_schema(self, schema: Arc<Schema>) -> (builder: ReaderBuilder)
        ensures
            builder@ == self@.with_schema(*schema),
    {
        ReaderBuilder { schema: Some(schema), ..self }
    }

    /// Set the JSON reader to infer the schema of the file
    pub fn infer_schema(self, max_records: Option<usize>) -> (builder: ReaderBuilder)
        ensures
            builder@ == self@.infer_schema(max_records),
    {
        // remove any schema that is set
        ReaderBuilder { schema: None, max_records, ..self }
    }

    /// Set the batch size (number of records to load at one time)
    pub fn with_batch_size(self, batch_size: usize) -> (builder: ReaderBuilder)
        ensures
            builder@ == self@.with_batch_size(batch_size as nat),
    {
        ReaderBuilder { batch_size, ..self }
    }

    /// Set the reader's column projection
    pub fn with_projection(self, projection: Vec<String>) -> (builder: ReaderBuilder)
        ensures
            builder@ == self@.with_projection(texts(projection@)),
    {
        ReaderBuilder { projection: Some(projection), ..self }
    }

    /// The inference to be run before [`ReaderBuilder::build`], where no schema is set and the
    /// lines are not at hand yet.
    pub fn inference(&self) -> (inference: Option<SchemaInference>)
        ensures
            match inference {
                Some(inference) => {
                    &&& self@.schema is None
                    &&& inference.wf()
                    &&& inference.seen() == Set::<(Seq<char>, DataType)>::empty()
                    &&& inference.remaining() == record_limit(self@.max_records)
                },
                None => self@.schema is Some,
            },
    {
        match self.schema {
            Some(_) => None,
            None => Some(SchemaInference::new(self.max_records)),
        }
    }

    /// Create a new `Reader` from the `ReaderBuilder`
    pub fn build(self, lines: Vec<String>) -> (built: Result<Reader, JsonError>)
        ensures
            match self@.schema {
                Some(schema) => {
                    &&& built matches Ok(reader)
                    &&& reader.schema() == schema
                    &&& is_set_up(reader, self@, texts(lines@))
                },
                None => match lines_observed(texts(lines@), record_limit(self@.max_records)) {
                    Ok(seen) => {
                        &&& built matches Ok(reader)
                        &&& is_schema_of(reader.schema()@, seen)
                        &&& is_set_up(reader, self@, texts(lines@))
                    },
                    Err(error) => built == Err::<Reader, JsonError>(error),
                },
            },
    {
        // check if schema should be inferred
        let schema: Arc<Schema> = match self.schema {
            Some(schema) => schema,
            None => match infer_json_schema(&lines, self.max_records) {
                Ok(schema) => Arc::new(schema),
                Err(error) => {
                    return Err(error);
                },
            },
        };
        Ok(Reader::new(lines, schema, self.batch_size, self.projection))
    }
}

} // verus!
