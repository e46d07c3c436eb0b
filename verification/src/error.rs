//! Why a line cannot be taken in, or a column cannot be filled.

use vstd::prelude::*;

verus! {

#[derive(Debug, Clone, Copy, PartialEq, Eq, Structural)]
pub enum JsonError {
    /// A line is not the text of one JSON value.
    NotValidJson,
    /// A list holds a list or an object.
    NestedList,
    /// A list column meets a value that is neither a list nor an item of one.
    NotScalar,
    /// The schema asks for a list of what a list cannot hold.
    ListType,
    /// The schema asks for a type that JSON does not fill.
    StructType,
    /// The strings or the list items of a column are too many for 32-bit offsets.
    OffsetOverflow,
    /// No column is selected, so that there is nothing to make a batch of.
    NoColumns,
}

impl JsonError {
    /// The error in words.
    pub fn message(&self) -> (words: &'static str)
        ensures
            words@ == match self {
                JsonError::NotValidJson => "Not valid JSON"@,
                JsonError::NestedList => "Nested lists and structs not supported"@,
                JsonError::NotScalar => "Only scalars are currently supported in JSON arrays"@,
                JsonError::ListType => "Data type is currently not supported in a list"@,
                JsonError::StructType => "struct types are not yet supported"@,
                JsonError::OffsetOverflow => "Column is too long for 32-bit offsets"@,
                JsonError::NoColumns => "At least one column must be defined"@,
            },
    {
        match self {
            JsonError::NotValidJson => "Not valid JSON",
            JsonError::NestedList => "Nested lists and structs not supported",
            JsonError::NotScalar => "Only scalars are currently supported in JSON arrays",
            JsonError::ListType => "Data type is currently not supported in a list",
            JsonError::StructType => "struct types are not yet supported",
            JsonError::OffsetOverflow => "Column is too long for 32-bit offsets",
            JsonError::NoColumns => "At least one column must be defined",
        }
    }
}

} // verus!
