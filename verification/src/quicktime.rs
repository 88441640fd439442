//! Legacy vendor metadata: the metadata-item-list container and its
//! pseudo-box items.
//!
//! Items reuse box-like framing (a 4-byte length and a 4-byte tag) but have
//! a bespoke interior; only the legacy encoder tag, whose first tag byte is
//! the copyright glyph, is modelled.  An unrecognised item tag fails rather
//! than skipping, because pseudo-box entries carry no outer container to
//! resynchronise against.

use vstd::prelude::*;

use crate::boxes::{BoxHeader, FOURCC_COPYRIGHT_TOO};
use crate::error::Mp4Error;
use crate::reader::{be32_at, Reader};
use vstd::utf8::{decode_utf8, valid_utf8};

verus! {

/// Marker for a metadata-item-list (`ilst`) container.
#[derive(Debug, Clone, Copy, PartialEq, Eq, Structural)]
pub struct MetadataItemList;

/// One decoded legacy metadata entry: a text value under the encoder tag.
#[derive(Debug, Clone, PartialEq, Eq)]
pub struct EncoderTag(pub String);

impl MetadataItemList {
    /// Decode one metadata item.  Only the legacy encoder tag is known;
    /// any other item tag is a distinct unsupported condition.
    pub fn parse_entry(&self, reader: &mut Reader) -> (r: Result<EncoderTag, Mp4Error>)
        requires
            old(reader).wf(),
        ensures
            final(reader).wf(),
            final(reader).bytes() == old(reader).bytes(),
            final(reader).cursor() >= old(reader).cursor(),
            r is Ok ==> final(reader).cursor() >= old(reader).cursor() + 8,
            ({
                let b = old(reader).bytes();
                let i = old(reader).cursor();
                let s32 = be32_at(b, i);
                let tag = be32_at(b, i + 4);
                &&& i + 8 <= b.len() && s32 >= 8 && tag != FOURCC_COPYRIGHT_TOO ==> (r matches Err(
                    e,
                ) && e matches Mp4Error::UnsupportedMetadataItem { item_type, size } && item_type
                    == tag as u32 && size == s32 as u64)
                &&& i + 8 <= b.len() && s32 >= 8 && tag == FOURCC_COPYRIGHT_TOO ==> {
                    &&& i + s32 <= b.len() && valid_utf8(b.subrange(i + 8, i + s32)) ==> (r
                        matches Ok(t) && t.0@ == decode_utf8(b.subrange(i + 8, i + s32))
                        && final(reader).cursor() == i + s32)
                    &&& i + s32 <= b.len() && !valid_utf8(b.subrange(i + 8, i + s32)) ==> (r
                        matches Err(e) && e matches Mp4Error::InvalidString { .. })
                    &&& i + s32 > b.len() ==> (r matches Err(e) && e matches Mp4Error::Truncated {
                        ..
                    })
                }
                &&& i + 8 <= b.len() && s32 >= 8 && r is Ok ==> tag == FOURCC_COPYRIGHT_TOO && i
                    + s32 <= b.len()
            }),
    {
        let header = BoxHeader::parse(reader)?;
        if header.box_type != FOURCC_COPYRIGHT_TOO {
            return Err(Mp4Error::UnsupportedMetadataItem {
                item_type: header.box_type,
                size: header.box_size,
            });
        }
        EncoderTag::parse(reader, header.inner_size)
    }
}

impl EncoderTag {
    /// Decode an encoder tag: a text blob filling the declared length.
    pub fn parse(reader: &mut Reader, inner_size: u64) -> (r: Result<EncoderTag, Mp4Error>)
        requires
            old(reader).wf(),
        ensures
            final(reader).wf(),
            final(reader).bytes() == old(reader).bytes(),
            final(reader).cursor() >= old(reader).cursor(),
            ({
                let b = old(reader).bytes();
                let i = old(reader).cursor();
                &&& i + inner_size <= b.len() && valid_utf8(b.subrange(i, i + inner_size)) ==> (r
                    matches Ok(t) && t.0@ == decode_utf8(b.subrange(i, i + inner_size))
                    && final(reader).cursor() == i + inner_size)
                &&& i + inner_size <= b.len() && !valid_utf8(b.subrange(i, i + inner_size)) ==> (r
                    matches Err(e) && e matches Mp4Error::InvalidString { .. })
                &&& i + inner_size > b.len() ==> (r matches Err(e)
                    && e matches Mp4Error::Truncated { .. })
            }),
    {
        let rem = reader.remaining();
        if inner_size > rem as u64 {
            return Err(Mp4Error::Truncated {
                requested: inner_size,
                position: reader.position(),
                length: reader.position() + rem as u64,
            });
        }
        let content = reader.read_string(inner_size as usize)?;
        Ok(EncoderTag(content))
    }
}

} // verus!
