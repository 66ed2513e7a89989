//! A small directory-listing library: it maps command-line switches to a
//! listing mode, filters hidden entries, orders directories before other
//! entries, and renders entry lines with size, permission and timestamp
//! fields.

pub mod args;
pub mod entry;
pub mod listing;
pub mod render;
pub mod textfmt;
