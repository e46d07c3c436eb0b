//! Reading newline-delimited JSON into Arrow columns.

pub mod arrays;
pub mod batch;
pub mod builder;
pub mod casts;
pub mod cells;
pub mod columns;
pub mod data_type;
pub mod error;
pub mod infer;
pub mod laws;
pub mod meaning;
pub mod reader;
pub mod text;
pub mod types;
pub mod value;
