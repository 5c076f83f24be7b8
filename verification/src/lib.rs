//! Splits a table of course evaluation records by academic year.
//!
//! The input is comma-separated text with a header row. Every data row is
//! read into an [`record::InputRow`] by column name, the rows are grouped by
//! their year into [`partition::YearBuckets`], and every bucket is rendered
//! as a pretty-printed JSON document that belongs in the file `<year>.json`.
//!
//! The crate works on plain values only: bytes in, file names and file
//! contents out. Reading the input and writing the documents is left to the
//! caller.

pub mod record;
pub mod schema;
pub mod error;
pub mod reader;
pub mod partition;
pub mod render;
pub mod cli;
pub mod accumulate;
