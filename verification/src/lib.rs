//! A small directory lister: command-line tokens become an [`options::Options`]
//! record, and the children of one directory become the text that is printed.
//!
//! The library never touches the file system. A caller reads the directory,
//! hands the raw entries over as plain values and prints the text it gets back.

pub mod entry;
pub mod help;
pub mod listing;
pub mod options;
