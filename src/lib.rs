//! A record-level handle on one comma-separated-values file: the header row
//! is captured when the handle is opened, data rows are read one at a time
//! or all at once, and written rows are buffered until the handle is saved.
//!
//! The textual format itself (delimiters, quoting, line endings, rejecting
//! malformed rows) is the `csv` crate's work; the items of `codec` state what
//! this library relies on from it.

pub mod codec;
pub mod handle;
pub mod laws;

pub use codec::Row;
pub use handle::{CsvError, CsvIO};
