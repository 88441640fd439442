//! Error values for the decoder.
//!
//! Every fatal condition carries enough context (byte offsets, the four
//! character type tag as a big-endian `u32`, declared sizes) for a caller to
//! report exactly where and why a decode stopped.

use vstd::prelude::*;

verus! {

/// A fatal decoding error.  Decoding aborts at the first error; there is no
/// partial-result recovery below the top level.
#[derive(Debug, Clone, PartialEq, Eq)]
pub enum Mp4Error {
    /// A read or skip would run past the end of the input buffer.
    Truncated { requested: u64, position: u64, length: u64 },
    /// A box declared a size smaller than its own header.
    MalformedBox { box_type: u32, offset: u64, size: u64 },
    /// A leaf parser consumed more bytes than the box declared, or a box run
    /// ended past its own end offset.
    CursorBeyondBoxEnd { box_type: u32, offset: u64, position: u64, box_end: u64 },
    /// Bytes that were required to be text were not valid UTF-8.
    InvalidString { position: u64, length: u64 },
    /// A box with size zero declares that it extends to the end of the file;
    /// that variant is not modelled.  `next_bytes` holds a short dump of the
    /// bytes that follow the header, to aid debugging.
    SizeToEndOfFile { box_type: u32, offset: u64, next_bytes: Vec<u8> },
    /// A recognised box uses a version whose layout is not modelled
    /// (for example the 64-bit-timestamp variants).
    UnsupportedVersion { box_type: u32, version: u8 },
    /// A data-reference entry points at external media rather than declaring
    /// itself self-contained.
    ExternalMediaReference { flags: [u8; 3] },
    /// A sample-description entry whose interior grammar is not known.
    UnsupportedSampleEntry { entry_type: u32, size: u64 },
    /// A metadata item whose interior grammar is not known.
    UnsupportedMetadataItem { item_type: u32, size: u64 },
    /// An unrecognised box type in a context where the schema is assumed
    /// complete, so skipping would hide structure.
    UnsupportedBoxType { box_type: u32, size: u64 },
    /// Containers nest deeper than the configured recursion bound.
    NestingTooDeep { offset: u64 },
}

} // verus!
