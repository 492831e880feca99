//! Column profiling and predicate filtering over in-memory tables.
//!
//! A [`table::Table`] is an ordered list of equally long, typed columns of
//! tagged cell values ([`value::CellValue`]). The crate computes
//!
//! - per-column statistics: null count, number of distinct values, least
//!   and greatest value, sample texts ([`profiler`]);
//! - the row mask of an equality predicate, row selection by a mask, and
//!   the removal of rows that hold a null ([`filter`], [`pipeline`]);
//! - column selection and row limits ([`transform`]);
//! - the document that a profile report is written as, and its reading
//!   back ([`report`]);
//! - the shaping of what extractors read: sheets into tables
//!   ([`extract`]), JSON arrays into line-delimited JSON ([`ndjson`]);
//! - the file formats and arguments of a run ([`cli`]).
//!
//! Floating-point cells are carried by their IEEE-754 binary64 bit
//! pattern, so every comparison in this crate is integer arithmetic.
//!
//! Reading and writing files is left to the caller. The only code that is
//! trusted rather than proved is the handful of functions in [`ndjson`]
//! that call `serde_json` and `str::trim`.

pub mod cli;
pub mod error;
pub mod extract;
pub mod filter;
pub mod ndjson;
pub mod pipeline;
pub mod profiler;
pub mod report;
pub mod seqs;
pub mod table;
pub mod text;
pub mod transform;
pub mod value;
