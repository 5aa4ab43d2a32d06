//! Moves query results from a row-oriented relational source into a
//! column-oriented persisted format while preserving exact numeric
//! semantics, decimals above all, under a fixed memory budget.
//!
//! The core is in two parts. The batch row-set buffer
//! ([`odbc_buffer::OdbcBuffer`]) stages fetched rows in typed,
//! column-major storage that is reused across fetch calls. The strategy
//! engine ([`decimal`]) decides, from schema metadata alone, how each
//! decimal column is represented physically, down to the exact-precision
//! binary codec in [`codec`]. The binding and the file writing around it
//! are left to the orchestrator.

pub mod codec;
pub mod decimal;
pub mod odbc_buffer;
pub mod strategy;
