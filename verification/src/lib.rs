//! Reading Portable Executable (PE) images: header fields, sections, export
//! and import tables, flag decoding, and the state of a small file browser
//! that opens PE files.

pub mod app;
pub mod detail;
pub mod listing;
pub mod pe;
pub mod text;
