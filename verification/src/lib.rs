//! Decoder for the ISO Base Media File Format: the size-delimited, recursive
//! tree of "boxes" that underlies MP4 and related container files.
//!
//! The crate reads a complete in-memory byte buffer and walks it in a single
//! depth-first pass, emitting one event per decoded box.  It performs no I/O
//! of its own; loading the file and rendering the event stream are left to
//! the caller.

pub mod boxes;
pub mod error;
pub mod fixed;
pub mod logger;
pub mod parser;
pub mod quicktime;
pub mod reader;
pub mod strings;
pub mod summary;
pub mod timestamp;
