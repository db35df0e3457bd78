//! Bridges the custom XML parts of an unpacked document package and their
//! JSON form, keeps the two in step, and decides what a watcher of the
//! package does on each change.

pub mod analyze_custom_xml;
pub mod attributes;
pub mod char_class;
pub mod file_watcher;
pub mod files;
pub mod input_utils;
pub mod print_utils;
pub mod record_eq;
pub mod round_trip;
pub mod summarize;
pub mod sync_custom_xml;
pub mod sync_idempotence;
pub mod text;
pub mod types;
pub mod watch_laws;
pub mod zip_utils;
