//! A table of a fixed number of rows whose storage is part of the value, and the
//! texts that show it.
//!
//! - [`table`]: the table, its model and the contracts of its operations.
//! - [`laws`]: what holds of every table through any run of operations.
//! - [`text`]: the one-line summary and the tabular form.
//! - [`plot`]: the chart of one number per row over the order of the rows.
//! - [`decimal`]: the decimal text of an integer and its width.
//!
//! Text is written through `ufmt`. The three functions that call it are trusted;
//! everything else is proved.

pub mod decimal;
pub mod laws;
pub mod plot;
pub mod table;
pub mod text;
mod writer;

pub use table::{uDataTable, uDataTableError};
