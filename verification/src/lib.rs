//! Resolution of the most recently modified log file of a directory and
//! extraction of its lines.
//!
//! The library holds the decisions of one fetch: which directory is listed,
//! which of the listed entries can be selected, which of them is the latest,
//! and how the text of the selected file is cut into lines. Listing the
//! directory and reading the file are left to the caller, who hands the
//! library plain values and acts on what it returns.

pub mod entry;
pub mod fetch;
pub mod lines;
pub mod select;
