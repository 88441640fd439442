//! The recursive descent driver.
//!
//! The driver walks a byte range `[position, end_offset)`, decodes one box
//! header and payload per iteration, recurses into containers over the
//! box's own range, and skips whatever trailing payload bytes a leaf parser
//! left unconsumed, so that every box run ends with the cursor exactly at
//! the box's end.  Unrecognised box types follow the caller's policy:
//! under *fail* they abort the decode, under *skip* their payload is
//! consumed and the walk continues with the next sibling.  Each decoded box
//! is appended to an event list together with its byte range and nesting
//! depth; earlier events are kept when a later box fails, so a caller can
//! present a best-effort trace.

use vstd::prelude::*;

use crate::boxes::{
    box_data_matches, brand_slot, is_container_type, known_box_type, spec_box_size,
    spec_header_size, BoxHeader, Mp4Box, SampleDescriptionBox, FOURCC_CTTS, FOURCC_DREF,
    FOURCC_ELST, FOURCC_FREE, FOURCC_FTYP, FOURCC_HDLR, FOURCC_ILST, FOURCC_MDAT, FOURCC_MDHD,
    FOURCC_META, FOURCC_MFHD, FOURCC_MFRA, FOURCC_MVHD, FOURCC_SBGP, FOURCC_SDTP, FOURCC_SGPD,
    FOURCC_SMHD, FOURCC_STCO, FOURCC_STSC, FOURCC_STSD, FOURCC_STSS, FOURCC_STSZ, FOURCC_STTS,
    FOURCC_AVC1, FOURCC_COPYRIGHT_TOO, FOURCC_MP4A, FOURCC_TKHD, FOURCC_TRAF, FOURCC_TREX,
    FOURCC_UDTA, FOURCC_VMHD,
};
use crate::error::Mp4Error;
use crate::quicktime::{EncoderTag, MetadataItemList};
use crate::reader::{be16_at, be32_at, Reader};
use vstd::utf8::{decode_utf8, valid_utf8};

verus! {

/// Containers may nest at most this deep before the decode fails with a
/// distinct error, so that an adversarial input cannot grow the call stack
/// without bound.
pub const MAX_RECURSION_DEPTH: u32 = 64;

/// What to do with a box type that has no known mapping: consume its
/// declared payload and continue with the next sibling, or fail.  The
/// schema is assumed complete at the top level and in most containers, so
/// the default is to fail; a few containers whose substructure is not fully
/// modelled switch to skipping for their immediate children.
#[derive(Debug, Clone, Copy, PartialEq, Eq, Structural)]
pub enum HandleUnknown {
    Skip,
    Fail,
}

/// One decoded box or nested structure, as handed to the caller.  Every
/// event carries the byte offset where it arose and its container nesting
/// depth, so a consumer can rebuild the tree, render indentation, or check
/// sibling layout.
#[derive(Debug, Clone, PartialEq, Eq)]
pub enum Event {
    /// A decoded box: its byte range, type tag, nesting depth and payload.
    Decoded { offset: u64, size: u64, box_type: u32, depth: u32, data: Mp4Box },
    /// An unrecognised box that the skip policy stepped over.
    UnknownSkipped { offset: u64, size: u64, box_type: u32, depth: u32 },
    /// One sample-description entry, found inside an stsd box.
    Sample { offset: u64, depth: u32, entry: crate::boxes::SampleEntry },
    /// One legacy metadata item, found inside an ilst container.
    MetadataTag { offset: u64, depth: u32, tag: EncoderTag },
    /// The file belongs to a family that is supported only as far as its
    /// framing (non-fatal).
    CompatibilityWarning { offset: u64, depth: u32, box_type: u32 },
}

/// The unknown-type policy that a container imposes on its immediate
/// children: generic user-data, fragment-random-access and track-fragment
/// containers are not fully modelled, so unknown children are skipped
/// there; everywhere else the schema is assumed complete and unknown
/// children are a hard error.
pub open spec fn spec_child_policy(tag: u32) -> HandleUnknown {
    if tag == FOURCC_UDTA || tag == FOURCC_MFRA || tag == FOURCC_TRAF {
        HandleUnknown::Skip
    } else {
        HandleUnknown::Fail
    }
}

/// Exec twin of [`spec_child_policy`].
fn child_policy(tag: u32) -> (r: HandleUnknown)
    ensures
        r == spec_child_policy(tag),
{
    if tag == FOURCC_UDTA || tag == FOURCC_MFRA || tag == FOURCC_TRAF {
        HandleUnknown::Skip
    } else {
        HandleUnknown::Fail
    }
}

/// How much of the range `[pos, end)` is still ahead of the cursor; zero
/// once the cursor has reached or passed `end`.  Decreases strictly while
/// the walk makes progress inside the range, which bounds every sibling
/// loop.
pub open spec fn range_left(end: u64, pos: int) -> int {
    if pos >= end {
        0
    } else {
        end - pos
    }
}



/// The fixed payload demands of a leaf box: what must hold of the bytes in
/// `[i, box_end)` (with `inner = box_end - i`) for the leaf parser of `tag`
/// to succeed and stay inside the box.
pub open spec fn leaf_payload_fits(b: Seq<u8>, i: int, box_end: int, tag: u32, inner: int) -> bool {
    if tag == FOURCC_FTYP {
        &&& inner >= 8
        &&& valid_utf8(b.subrange(i, i + 4))
        &&& forall|k: int| 0 <= k < (inner - 8) / 4 ==> valid_utf8(#[trigger] brand_slot(b, i + 8, k))
    } else if tag == FOURCC_FREE || tag == FOURCC_MDAT {
        true
    } else if tag == FOURCC_SGPD || tag == FOURCC_SBGP || tag == FOURCC_SDTP {
        true
    } else if tag == FOURCC_MVHD {
        b[i] != 1 && i + 100 <= box_end
    } else if tag == FOURCC_TKHD {
        b[i] != 1 && i + 84 <= box_end
    } else if tag == FOURCC_MDHD {
        b[i] != 1 && i + 24 <= box_end
    } else if tag == FOURCC_HDLR {
        &&& inner >= 24
        &&& valid_utf8(b.subrange(i + 8, i + 12))
        &&& valid_utf8(b.subrange(i + 24, i + inner))
    } else if tag == FOURCC_ELST || tag == FOURCC_STTS {
        b[i] != 1 && i + 8 <= box_end
    } else if tag == FOURCC_DREF || tag == FOURCC_STSS || tag == FOURCC_STSC || tag == FOURCC_STCO
        || tag == FOURCC_CTTS || tag == FOURCC_MFHD {
        i + 8 <= box_end
    } else if tag == FOURCC_STSZ {
        i + 12 <= box_end
    } else if tag == FOURCC_TREX {
        i + 24 <= box_end
    } else if tag == FOURCC_VMHD {
        i + 12 <= box_end
    } else if tag == FOURCC_SMHD {
        i + 8 <= box_end
    } else {
        false
    }
}

/// A well-formed run of legacy metadata items covering `[pos, end)`
/// exactly: each item carries the known encoder tag and valid text, and
/// the items tile the range.
pub open spec fn well_formed_items(b: Seq<u8>, pos: int, end: int) -> bool
    decreases end - pos,
{
    if !(0 <= pos <= end && end <= b.len()) {
        false
    } else if pos == end {
        true
    } else if pos + 8 <= b.len() {
        let s32 = be32_at(b, pos);
        if 8 <= s32 && pos + s32 <= end {
            &&& be32_at(b, pos + 4) == FOURCC_COPYRIGHT_TOO
            &&& valid_utf8(b.subrange(pos + 8, pos + s32))
            &&& well_formed_items(b, pos + s32, end)
        } else {
            false
        }
    } else {
        false
    }
}

/// `count` well-formed sample-description entries starting at `pos`: each
/// is an audio or visual entry whose fixed fields lie inside the buffer.
pub open spec fn well_formed_entries(b: Seq<u8>, pos: int, count: int) -> bool
    decreases count,
{
    if count <= 0 {
        true
    } else if 0 <= pos && pos + 8 <= b.len() {
        let s32 = be32_at(b, pos);
        let tag = be32_at(b, pos + 4);
        if s32 >= 8 && tag == FOURCC_MP4A {
            pos + 36 <= b.len() && well_formed_entries(b, pos + 36, count - 1)
        } else if s32 >= 8 && tag == FOURCC_AVC1 {
            &&& pos + 86 <= b.len()
            &&& valid_utf8(b.subrange(pos + 50, pos + 82))
            &&& well_formed_entries(b, pos + 86, count - 1)
        } else {
            false
        }
    } else {
        false
    }
}

/// Where the cursor stands after `count` sample-description entries.
pub open spec fn entries_end(b: Seq<u8>, pos: int, count: int) -> int
    decreases count,
{
    if count <= 0 {
        pos
    } else if be32_at(b, pos + 4) == FOURCC_MP4A {
        entries_end(b, pos + 36, count - 1)
    } else {
        entries_end(b, pos + 86, count - 1)
    }
}

/// A well-formed run of sibling boxes covering `[pos, end)`, mirroring the
/// driver's loop: each box's header is valid and the box lies inside the
/// range; an unrecognised type is tolerated exactly under the skip policy;
/// a container's children form a well-formed run of their own within the
/// nesting bound; the special payloads (metadata items, sample
/// descriptions) are well formed; and a leaf's fixed fields fit inside its
/// box.  On such a range the driver is proved to succeed.
/// One well-formed box at `pos` inside `[pos, end)`: its header is valid,
/// the box lies inside the range, and its payload meets the demands of its
/// type — an unrecognised type is tolerated exactly under the skip policy,
/// a container's children form a well-formed run of their own within the
/// nesting bound, the special payloads (metadata items, sample
/// descriptions) are well formed, and a leaf's fixed fields fit inside the
/// box.
pub open spec fn well_formed_box(
    b: Seq<u8>,
    pos: int,
    end: int,
    policy: HandleUnknown,
    depth: u32,
) -> bool
    decreases end - pos, 0int,
{
    if !(0 <= pos < end && end <= b.len()) {
        false
    } else if pos + spec_header_size(b, pos) <= b.len() && spec_header_size(b, pos)
        <= spec_box_size(b, pos) && pos + spec_box_size(b, pos) <= end {
        let hdr = spec_header_size(b, pos);
        let size = spec_box_size(b, pos);
        let tag = be32_at(b, pos + 4) as u32;
        let i = pos + hdr;
        let box_end = pos + size;
        if !known_box_type(tag) {
            policy == HandleUnknown::Skip
        } else if tag == FOURCC_META {
            if i + 4 <= box_end && depth + 1 < MAX_RECURSION_DEPTH {
                well_formed_run(b, i + 4, box_end, spec_child_policy(tag), (depth + 1) as u32)
            } else {
                false
            }
        } else if is_container_type(tag) {
            if depth + 1 < MAX_RECURSION_DEPTH {
                well_formed_run(b, i, box_end, spec_child_policy(tag), (depth + 1) as u32)
            } else {
                false
            }
        } else if tag == FOURCC_ILST {
            well_formed_items(b, i, box_end)
        } else if tag == FOURCC_STSD {
            &&& i + 8 <= box_end
            &&& well_formed_entries(b, i + 8, be32_at(b, i + 4))
            &&& entries_end(b, i + 8, be32_at(b, i + 4)) <= box_end
        } else {
            leaf_payload_fits(b, i, box_end, tag, size - hdr)
        }
    } else {
        false
    }
}

/// A well-formed run of sibling boxes covering `[pos, end)`, mirroring the
/// driver's loop: each box well formed in place, siblings back to back to
/// `end`.  On such a range the driver is proved to succeed.
pub open spec fn well_formed_run(
    b: Seq<u8>,
    pos: int,
    end: int,
    policy: HandleUnknown,
    depth: u32,
) -> bool
    decreases end - pos, 1int,
{
    if !(0 <= pos <= end && end <= b.len()) {
        false
    } else if pos == end {
        true
    } else if pos + spec_header_size(b, pos) <= b.len() && spec_header_size(b, pos)
        <= spec_box_size(b, pos) && pos + spec_box_size(b, pos) <= end {
        &&& well_formed_box(b, pos, end, policy, depth)
        &&& well_formed_run(b, pos + spec_box_size(b, pos), end, policy, depth)
    } else {
        false
    }
}

/// A whole buffer forms a well-formed file: a run of top-level boxes under
/// the fail policy, starting at nesting depth zero.
pub open spec fn well_formed_file(b: Seq<u8>) -> bool {
    well_formed_run(b, 0, b.len() as int, HandleUnknown::Fail, 0)
}

/// The range `[pos, end)` opens with a box whose type has no known
/// mapping (and whose declared size cannot overflow an offset): the input
/// that triggers the unknown-type policy.
pub open spec fn first_box_unknown(b: Seq<u8>, pos: int, end: int) -> bool {
    &&& pos < end
    &&& pos + 8 <= b.len()
    &&& be32_at(b, pos) >= 8
    &&& pos + be32_at(b, pos) <= u64::MAX
    &&& !known_box_type(be32_at(b, pos + 4) as u32)
}

/// A decoded sample entry agrees with the pseudo-box bytes at `p`
/// (stated for the plain 32-bit-size framing the entries use).
pub open spec fn sample_entry_matches(b: Seq<u8>, p: int, entry: crate::boxes::SampleEntry) -> bool {
    if p + 8 <= b.len() && be32_at(b, p) >= 8 {
        &&& (entry matches crate::boxes::SampleEntry::Mp4a(x) ==> {
            &&& be32_at(b, p + 4) == FOURCC_MP4A
            &&& p + 36 <= b.len()
            &&& x.data_reference_index == be16_at(b, p + 14)
            &&& x.channel_count == be16_at(b, p + 24)
            &&& x.sample_size == be16_at(b, p + 26)
            &&& x.sample_rate.raw == be32_at(b, p + 32)
        })
        &&& (entry matches crate::boxes::SampleEntry::Avc1(x) ==> {
            &&& be32_at(b, p + 4) == FOURCC_AVC1
            &&& p + 86 <= b.len()
            &&& x.data_reference_index == be16_at(b, p + 14)
            &&& x.width == be16_at(b, p + 32)
            &&& x.height == be16_at(b, p + 34)
            &&& x.hor_resolution.raw == be32_at(b, p + 36)
            &&& x.ver_resolution.raw == be32_at(b, p + 40)
            &&& x.frame_count == be16_at(b, p + 48)
            &&& valid_utf8(b.subrange(p + 50, p + 82))
            &&& x.compressor_name@ == decode_utf8(b.subrange(p + 50, p + 82))
            &&& x.depth == be16_at(b, p + 82)
        })
    } else {
        true
    }
}

/// A decoded metadata item agrees with the pseudo-box bytes at `p`.
pub open spec fn metadata_matches(b: Seq<u8>, p: int, t: EncoderTag) -> bool {
    if p + 8 <= b.len() && be32_at(b, p) >= 8 {
        let s32 = be32_at(b, p);
        &&& be32_at(b, p + 4) == FOURCC_COPYRIGHT_TOO
        &&& p + s32 <= b.len()
        &&& valid_utf8(b.subrange(p + 8, p + s32))
        &&& t.0@ == decode_utf8(b.subrange(p + 8, p + s32))
    } else {
        true
    }
}

/// Every event agrees with the bytes at its offset: a decoded box carries
/// the header values and the exact decoded fields read there; a skipped
/// box carries the header of an unrecognised type; entries and items agree
/// with their pseudo-box bytes; and a compatibility warning stands only
/// where a file-type box declares the QuickTime brand.
pub open spec fn event_matches(b: Seq<u8>, e: Event) -> bool {
    match e {
        Event::Decoded { offset, size, box_type, data, .. } => {
            &&& offset + 8 <= b.len()
            &&& box_type == be32_at(b, offset + 4)
            &&& size == spec_box_size(b, offset as int)
            &&& known_box_type(box_type)
            &&& box_data_matches(
                b,
                offset + spec_header_size(b, offset as int),
                box_type,
                (size - spec_header_size(b, offset as int)) as u64,
                data,
            )
        },
        Event::UnknownSkipped { offset, size, box_type, .. } => {
            &&& offset + 8 <= b.len()
            &&& box_type == be32_at(b, offset + 4)
            &&& size == spec_box_size(b, offset as int)
            &&& !known_box_type(box_type)
        },
        Event::Sample { offset, entry, .. } => sample_entry_matches(b, offset as int, entry),
        Event::MetadataTag { offset, tag, .. } => metadata_matches(b, offset as int, tag),
        Event::CompatibilityWarning { offset, box_type, .. } => {
            let i = offset + spec_header_size(b, offset as int);
            &&& box_type == FOURCC_FTYP
            &&& i + 4 <= b.len()
            &&& valid_utf8(b.subrange(i, i + 4))
            &&& decode_utf8(b.subrange(i, i + 4)) == "qt  "@
        },
    }
}

/// A decoded file-type box whose major brand announces the QuickTime
/// family.
pub open spec fn is_qt_file_type_event(e: Event) -> bool {
    e matches Event::Decoded { data: Mp4Box::Ftyp(f), .. } && f.major_brand@ == "qt  "@
}

/// From index `lo` on, every decoded QuickTime-branded file-type box is
/// immediately preceded by the non-fatal compatibility warning for the
/// same box: the warning is surfaced, and decoding carries on.
pub open spec fn warning_precedes(evs: Seq<Event>, lo: int) -> bool {
    forall|j: int|
        lo <= j < evs.len() && is_qt_file_type_event(#[trigger] evs[j]) ==> j > lo && (evs[j
            - 1] matches Event::CompatibilityWarning { offset: wo, .. } && evs[j]
            matches Event::Decoded { offset: o, .. } && wo == o)
}

/// The nesting depth an event carries.
pub open spec fn event_depth(e: Event) -> u32 {
    match e {
        Event::Decoded { depth, .. } => depth,
        Event::UnknownSkipped { depth, .. } => depth,
        Event::Sample { depth, .. } => depth,
        Event::MetadataTag { depth, .. } => depth,
        Event::CompatibilityWarning { depth, .. } => depth,
    }
}

/// True for an event that stands for one whole sibling box at depth `d`:
/// a decoded box or a skipped unknown box (entries, metadata items and
/// warnings describe structure inside a box, not a sibling).
pub open spec fn is_sibling_box(e: Event, d: u32) -> bool {
    ||| e matches Event::Decoded { depth, .. } && depth == d
    ||| e matches Event::UnknownSkipped { depth, .. } && depth == d
}

/// The byte offset where a sibling event's box starts.
pub open spec fn sibling_start(e: Event) -> int {
    match e {
        Event::Decoded { offset, .. } => offset as int,
        Event::UnknownSkipped { offset, .. } => offset as int,
        _ => 0,
    }
}

/// The byte offset just past a sibling event's box.
pub open spec fn sibling_end(e: Event) -> int {
    match e {
        Event::Decoded { offset, size, .. } => offset + size,
        Event::UnknownSkipped { offset, size, .. } => offset + size,
        _ => 0,
    }
}

/// The subsequence of events that stand for sibling boxes at depth `d`.
pub open spec fn sibling_run(evs: Seq<Event>, d: u32) -> Seq<Event> {
    evs.filter(|e: Event| is_sibling_box(e, d))
}

/// The sibling run covers the byte range `[start, end)` without gaps or
/// overlaps: the first box starts at `start`, every later box starts where
/// the one before it ended, and the last box ends at `end`.
pub open spec fn tiles(sibs: Seq<Event>, start: int, end: int) -> bool {
    &&& forall|j: int|
        0 <= j < sibs.len() ==> sibling_start(#[trigger] sibs[j]) == if j == 0 {
            start
        } else {
            sibling_end(sibs[j - 1])
        }
    &&& if sibs.len() == 0 {
        start == end
    } else {
        sibling_end(sibs.last()) == end
    }
}

/// Filtering distributes over concatenation, specialised to sibling runs.
proof fn lemma_sibling_run_add(a: Seq<Event>, b: Seq<Event>, d: u32)
    ensures
        sibling_run(a + b, d) == sibling_run(a, d) + sibling_run(b, d),
    decreases b.len(),
{
    Seq::<Event>::filter_distributes_over_add(a, b, |e: Event| is_sibling_box(e, d));
}

/// A sequence with no sibling events at depth `d` has an empty sibling run.
proof fn lemma_sibling_run_none(s: Seq<Event>, d: u32)
    requires
        forall|i: int| 0 <= i < s.len() ==> !is_sibling_box(#[trigger] s[i], d),
    ensures
        sibling_run(s, d) == Seq::<Event>::empty(),
    decreases s.len(),
{
    reveal_with_fuel(Seq::filter, 2);
    if s.len() == 0 {
    } else {
        lemma_sibling_run_none(s.drop_last(), d);
    }
}

/// Appending a non-sibling event leaves the sibling run unchanged.
proof fn lemma_sibling_run_push_other(s: Seq<Event>, e: Event, d: u32)
    requires
        !is_sibling_box(e, d),
    ensures
        sibling_run(s.push(e), d) == sibling_run(s, d),
{
    reveal_with_fuel(Seq::filter, 2);
    assert(s.push(e).drop_last() =~= s);
    assert(sibling_run(s.push(e), d) =~= sibling_run(s, d));
}

/// Appending a sibling event appends it to the sibling run.
proof fn lemma_sibling_run_push_sib(s: Seq<Event>, e: Event, d: u32)
    requires
        is_sibling_box(e, d),
    ensures
        sibling_run(s.push(e), d) == sibling_run(s, d).push(e),
{
    reveal_with_fuel(Seq::filter, 2);
    assert(s.push(e).drop_last() =~= s);
    assert(sibling_run(s.push(e), d) =~= sibling_run(s, d).push(e));
}

/// A tiling run extends by one box that starts exactly where the run ended.
proof fn lemma_tiles_extend(sibs: Seq<Event>, start: int, mid: int, e: Event)
    requires
        tiles(sibs, start, mid),
        sibling_start(e) == mid,
    ensures
        tiles(sibs.push(e), start, sibling_end(e)),
{
    let extended = sibs.push(e);
    assert forall|j: int| 0 <= j < extended.len() implies sibling_start(#[trigger] extended[j])
        == (if j == 0 {
        start
    } else {
        sibling_end(extended[j - 1])
    }) by {
        if j < sibs.len() {
            assert(extended[j] == sibs[j]);
        }
    }
}

/// Prefix preservation is transitive.
proof fn lemma_prefix_trans(a: Seq<Event>, b: Seq<Event>, c: Seq<Event>)
    requires
        a.len() <= b.len() <= c.len(),
        b.subrange(0, a.len() as int) == a,
        c.subrange(0, b.len() as int) == b,
    ensures
        c.subrange(0, a.len() as int) == a,
{
    assert(c.subrange(0, a.len() as int) =~= c.subrange(0, b.len() as int).subrange(
        0,
        a.len() as int,
    ));
}

/// The driver's post-step for one box: verify that the parser did not
/// overrun the declared box end, then skip whatever trailing bytes it left
/// unconsumed.  On success the cursor stands exactly at `box_end` — never
/// before it and never past it.
pub fn finish_box(reader: &mut Reader, box_type: u32, box_offset: u64, box_end: u64) -> (r: Result<
    (),
    Mp4Error,
>)
    requires
        old(reader).wf(),
    ensures
        final(reader).wf(),
        final(reader).bytes() == old(reader).bytes(),
        final(reader).cursor() >= old(reader).cursor(),
        r is Ok <==> old(reader).cursor() <= box_end <= old(reader).bytes().len(),
        r is Ok ==> final(reader).cursor() == box_end,
        r is Err ==> final(reader).cursor() == old(reader).cursor(),
        old(reader).cursor() > box_end ==> (r matches Err(e)
            && e matches Mp4Error::CursorBeyondBoxEnd { .. }),
        old(reader).cursor() <= box_end && box_end > old(reader).bytes().len() ==> (r matches Err(
            e,
        ) && e matches Mp4Error::Truncated { .. }),
{
    let pos = reader.position();
    if pos > box_end {
        // The leaf parser consumed more bytes than the box declared: a
        // decoder defect, reported loudly rather than decoding on with a
        // corrupted cursor.
        return Err(Mp4Error::CursorBeyondBoxEnd {
            box_type,
            offset: box_offset,
            position: pos,
            box_end,
        });
    }
    reader.skip_bytes(box_end - pos)
}

/// Walk the byte range `[position, end_offset)` as a run of sibling boxes,
/// appending one event per box, recursing into containers, and applying
/// `handle_unknown` to unrecognised types.  On success the cursor stands
/// exactly at `end_offset`; ending an iteration past `end_offset` is an
/// invariant violation and fails.  Events already appended are kept when a
/// later box fails.
/// Extending a sequence keeps a depth bound that holds of both parts.
proof fn lemma_seg_extend_depth(pre: Seq<Event>, cur: Seq<Event>, lo: int, d: u32)
    requires
        0 <= lo <= pre.len() <= cur.len(),
        cur.subrange(0, pre.len() as int) == pre,
        forall|j: int| lo <= j < pre.len() ==> event_depth(#[trigger] pre[j]) >= d,
        forall|j: int| pre.len() <= j < cur.len() ==> event_depth(#[trigger] cur[j]) >= d,
    ensures
        forall|j: int| lo <= j < cur.len() ==> event_depth(#[trigger] cur[j]) >= d,
{
    assert forall|j: int| lo <= j < cur.len() implies event_depth(#[trigger] cur[j]) >= d by {
        if j < pre.len() {
            assert(cur[j] == cur.subrange(0, pre.len() as int)[j]);
        }
    }
}

/// Extending a sequence keeps byte agreement that holds of both parts.
proof fn lemma_seg_extend_matches(b: Seq<u8>, pre: Seq<Event>, cur: Seq<Event>, lo: int)
    requires
        0 <= lo <= pre.len() <= cur.len(),
        cur.subrange(0, pre.len() as int) == pre,
        forall|j: int| lo <= j < pre.len() ==> event_matches(b, #[trigger] pre[j]),
        forall|j: int| pre.len() <= j < cur.len() ==> event_matches(b, #[trigger] cur[j]),
    ensures
        forall|j: int| lo <= j < cur.len() ==> event_matches(b, #[trigger] cur[j]),
{
    assert forall|j: int| lo <= j < cur.len() implies event_matches(b, #[trigger] cur[j]) by {
        if j < pre.len() {
            assert(cur[j] == cur.subrange(0, pre.len() as int)[j]);
        }
    }
}

/// Extending a sequence keeps the warning-adjacency property that holds of
/// both parts.
proof fn lemma_warning_extend(pre: Seq<Event>, cur: Seq<Event>, lo: int)
    requires
        0 <= lo <= pre.len() <= cur.len(),
        cur.subrange(0, pre.len() as int) == pre,
        warning_precedes(pre, lo),
        warning_precedes(cur, pre.len() as int),
    ensures
        warning_precedes(cur, lo),
{
    assert forall|j: int|
        lo <= j < cur.len() && is_qt_file_type_event(#[trigger] cur[j]) implies j > lo && (cur[j
        - 1] matches Event::CompatibilityWarning { offset: wo, .. } && cur[j]
        matches Event::Decoded { offset: o, .. } && wo == o) by {
        if j < pre.len() {
            assert(cur[j] == cur.subrange(0, pre.len() as int)[j]);
            assert(cur[j] == pre[j]);
            assert(cur[j - 1] == cur.subrange(0, pre.len() as int)[j - 1]);
            assert(cur[j - 1] == pre[j - 1]);
        }
    }
}

/// Decode the single box that starts at the cursor: its header, its
/// payload, the policy on an unrecognised type, recursion into a
/// container's children, the nested sample-description entries or
/// metadata items, and the trailing-byte post-step.  On success the cursor
/// stands exactly at the box's declared end, and the appended events hold
/// exactly one sibling event for this box (plus the events of anything
/// nested inside it).
#[verifier::rlimit(100)]
#[verifier::spinoff_prover]
fn parse_box(
    reader: &mut Reader,
    events: &mut Vec<Event>,
    handle_unknown: HandleUnknown,
    end_offset: u64,
    depth: u32,
) -> (r: Result<(), Mp4Error>)
    requires
        old(reader).wf(),
        depth < MAX_RECURSION_DEPTH,
    ensures
        final(reader).wf(),
        final(reader).bytes() == old(reader).bytes(),
        final(reader).cursor() >= old(reader).cursor(),
        final(events)@.len() >= old(events)@.len(),
        final(events)@.subrange(0, old(events)@.len() as int) == old(events)@,
        forall|j: int|
            old(events)@.len() <= j < final(events)@.len() ==> event_depth(
                #[trigger] final(events)@[j],
            ) >= depth,
        forall|j: int|
            old(events)@.len() <= j < final(events)@.len() ==> event_matches(
                old(reader).bytes(),
                #[trigger] final(events)@[j],
            ),
        warning_precedes(final(events)@, old(events)@.len() as int),
        r is Ok ==> ({
            let seg = final(events)@.skip(old(events)@.len() as int);
            &&& old(reader).cursor() + 8 <= old(reader).bytes().len()
            &&& final(reader).cursor() == old(reader).cursor() + spec_box_size(
                old(reader).bytes(),
                old(reader).cursor(),
            )
            &&& final(reader).cursor() >= old(reader).cursor() + 8
            &&& final(events)@.len() > old(events)@.len()
            &&& sibling_run(seg, depth).len() == 1
            &&& sibling_start(sibling_run(seg, depth)[0]) == old(reader).cursor()
            &&& sibling_end(sibling_run(seg, depth)[0]) == final(reader).cursor()
        }),
        well_formed_box(
            old(reader).bytes(),
            old(reader).cursor(),
            end_offset as int,
            handle_unknown,
            depth,
        ) ==> r is Ok,
        handle_unknown == HandleUnknown::Fail && first_box_unknown(
            old(reader).bytes(),
            old(reader).cursor(),
            end_offset as int,
        ) ==> r == Err::<(), Mp4Error>(Mp4Error::UnsupportedBoxType {
            box_type: be32_at(old(reader).bytes(), old(reader).cursor() + 4) as u32,
            size: be32_at(old(reader).bytes(), old(reader).cursor()) as u64,
        }),
        handle_unknown == HandleUnknown::Skip && first_box_unknown(
            old(reader).bytes(),
            old(reader).cursor(),
            end_offset as int,
        ) && old(reader).cursor() + be32_at(old(reader).bytes(), old(reader).cursor()) > old(
            reader,
        ).bytes().len() ==> (r matches Err(e) && e matches Mp4Error::Truncated { .. }),
        first_box_unknown(old(reader).bytes(), old(reader).cursor(), end_offset as int) && r is Ok
            ==> handle_unknown == HandleUnknown::Skip && old(reader).cursor() + be32_at(
            old(reader).bytes(),
            old(reader).cursor(),
        ) <= old(reader).bytes().len(),
    decreases MAX_RECURSION_DEPTH - depth, 0int,
{
    let ghost b0 = reader.bytes();
    let ghost endi = end_offset as int;
    let ghost prefix = events@;
    let ghost c0 = reader.cursor();
    let ghost wf_box = well_formed_box(b0, c0, endi, handle_unknown, depth);
    let header = match BoxHeader::parse(reader) {
        Ok(h) => h,
        Err(e) => {
            proof {
                if wf_box {
                    assert(false);
                }
                if first_box_unknown(b0, c0, endi) {
                    assert(false);
                }
            }
            return Err(e);
        },
    };
    proof {
        assert(c0 + 8 <= b0.len());
        assert(header.start_offset == c0);
        assert(header.box_type == be32_at(b0, c0 + 4) as u32);
        assert(header.box_size == spec_box_size(b0, c0));
        assert(reader.cursor() == c0 + spec_header_size(b0, c0));
        assert(header.inner_size == spec_box_size(b0, c0) - spec_header_size(b0, c0));
    }
    if header.box_size > u64::MAX - header.start_offset {
        proof {
            if wf_box {
                assert(false);
            }
            if first_box_unknown(b0, c0, endi) {
                assert(false);
            }
        }
        // The declared size runs past every addressable offset, so the
        // box certainly extends beyond the buffer.
        let rem = reader.remaining();
        return Err(Mp4Error::Truncated {
            requested: header.box_size,
            position: header.start_offset,
            length: reader.position() + rem as u64,
        });
    }
    let box_end = header.start_offset + header.box_size;
    let data = match Mp4Box::parse_contents(reader, header.box_type, header.inner_size) {
        Ok(d) => d,
        Err(e) => {
            proof {
                if wf_box {
                    assert(false);
                }
            }
            return Err(e);
        },
    };
    let bx = match data {
        Some(b) => b,
        None => {
            match handle_unknown {
                HandleUnknown::Skip => {
                    let skipped_event = Event::UnknownSkipped {
                        offset: header.start_offset,
                        size: header.box_size,
                        box_type: header.box_type,
                        depth,
                    };
                    let ghost ev = skipped_event;
                    events.push(skipped_event);
                    proof {
                        assert(events@.subrange(0, prefix.len() as int) =~= prefix);
                        assert(event_matches(b0, ev));
                        assert(events@.skip(prefix.len() as int) =~= Seq::<Event>::empty().push(
                            ev,
                        ));
                        lemma_sibling_run_none(Seq::<Event>::empty(), depth);
                        lemma_sibling_run_push_sib(Seq::<Event>::empty(), ev, depth);
                    }
                    match reader.skip_bytes(header.inner_size) {
                        Ok(u) => u,
                        Err(e) => {
                            proof {
                                if wf_box {
                                    assert(false);
                                }
                            }
                            return Err(e);
                        },
                    };
                    return Ok(());
                },
                HandleUnknown::Fail => {
                    proof {
                        if wf_box {
                            assert(false);
                        }
                    }
                    return Err(Mp4Error::UnsupportedBoxType {
                        box_type: header.box_type,
                        size: header.box_size,
                    });
                },
            }
        },
    };
    proof {
        assert(!first_box_unknown(b0, c0, endi));
    }
    let qt_brand = match &bx {
        Mp4Box::Ftyp(f) => f.is_quicktime(),
        _ => false,
    };
    proof {
        assert(qt_brand == is_qt_file_type_event(Event::Decoded {
            offset: header.start_offset,
            size: header.box_size,
            box_type: header.box_type,
            depth,
            data: bx,
        }));
        if qt_brand {
            assert(header.box_type == FOURCC_FTYP);
        }
    }
    let ghost pre_warn = events@;
    if qt_brand {
        let warning_event = Event::CompatibilityWarning {
            offset: header.start_offset,
            depth,
            box_type: header.box_type,
        };
        let ghost ev = warning_event;
        events.push(warning_event);
        proof {
            assert(events@.subrange(0, prefix.len() as int) =~= prefix);
            assert(event_matches(b0, ev));
            assert(events@.skip(prefix.len() as int) =~= pre_warn.skip(prefix.len() as int).push(
                ev,
            ));
            lemma_sibling_run_push_other(pre_warn.skip(prefix.len() as int), ev, depth);
        }
    }
    let ghost pre_box = events@;
    let is_container = matches!(bx, Mp4Box::Container(_));
    let is_item_list = matches!(bx, Mp4Box::QuickTimeMetadataItemList(_));
    let stsd_entry_count: Option<u32> = match &bx {
        Mp4Box::Stsd(sd) => Some(sd.entry_count),
        _ => None,
    };
    let decoded_event = Event::Decoded {
        offset: header.start_offset,
        size: header.box_size,
        box_type: header.box_type,
        depth,
        data: bx,
    };
    let ghost box_ev = decoded_event;
    events.push(decoded_event);
    let ghost sibs_box = sibling_run(events@.skip(prefix.len() as int), depth);
    proof {
        assert(events@.subrange(0, prefix.len() as int) =~= prefix);
        assert(event_matches(b0, box_ev));
        assert(events@.skip(prefix.len() as int) =~= pre_box.skip(prefix.len() as int).push(
            box_ev,
        ));
        lemma_sibling_run_none(pre_box.skip(prefix.len() as int), depth);
        lemma_sibling_run_push_sib(pre_box.skip(prefix.len() as int), box_ev, depth);
        assert(sibs_box =~= Seq::<Event>::empty().push(box_ev));
        assert forall|j: int|
            prefix.len() <= j < events@.len() && is_qt_file_type_event(
                #[trigger] events@[j],
            ) implies j > prefix.len() && (events@[j - 1] matches Event::CompatibilityWarning {
            offset: wo,
            ..
        } && events@[j] matches Event::Decoded { offset: o, .. } && wo == o) by {
            if j < pre_box.len() {
                assert(events@[j] == pre_box[j]);
            } else {
                assert(events@[j] == box_ev);
                assert(qt_brand);
                assert(events@[j - 1] == pre_box[pre_box.len() - 1]);
            }
        }
    }
    if is_container {
        let policy = child_policy(header.box_type);
        let ghost pre_rec = events@;
        let rec = _parse(reader, events, policy, box_end, depth + 1);
        proof {
            lemma_prefix_trans(prefix, pre_rec, events@);
            let child_seg = events@.skip(pre_rec.len() as int);
            assert(events@.skip(prefix.len() as int) =~= pre_rec.skip(prefix.len() as int)
                + child_seg);
            lemma_sibling_run_add(pre_rec.skip(prefix.len() as int), child_seg, depth);
            assert forall|i: int|
                0 <= i < child_seg.len() implies !is_sibling_box(
                #[trigger] child_seg[i],
                depth,
            ) by {
                assert(child_seg[i] == events@[pre_rec.len() + i]);
                assert(event_depth(events@[pre_rec.len() + i]) >= depth + 1);
            }
            lemma_sibling_run_none(child_seg, depth);
            lemma_seg_extend_depth(pre_rec, events@, prefix.len() as int, depth);
            lemma_seg_extend_matches(b0, pre_rec, events@, prefix.len() as int);
            lemma_warning_extend(pre_rec, events@, prefix.len() as int);
        }
        match rec {
            Ok(u) => u,
            Err(e) => {
                proof {
                    if wf_box {
                        assert(false);
                    }
                }
                return Err(e);
            },
        };
    } else if is_item_list {
        let list = MetadataItemList;
        while reader.position() < box_end
            invariant
                prefix == old(events)@,
                c0 == old(reader).cursor(),
                b0 == old(reader).bytes(),
                endi == end_offset as int,
                depth < MAX_RECURSION_DEPTH,
                wf_box == well_formed_box(b0, c0, endi, handle_unknown, depth),
                !first_box_unknown(b0, c0, endi),
                box_end <= u64::MAX,
                reader.wf(),
                reader.bytes() == b0,
                reader.cursor() >= c0,
                events@.len() > prefix.len(),
                events@.subrange(0, prefix.len() as int) == prefix,
                forall|j: int|
                    prefix.len() <= j < events@.len() ==> event_depth(#[trigger] events@[j])
                        >= depth,
                forall|j: int|
                    prefix.len() <= j < events@.len() ==> event_matches(
                        b0,
                        #[trigger] events@[j],
                    ),
                warning_precedes(events@, prefix.len() as int),
                sibs_box == sibling_run(events@.skip(prefix.len() as int), depth),
                wf_box ==> well_formed_items(b0, reader.cursor(), box_end as int),
            decreases range_left(box_end, reader.cursor()),
        {
            let ghost pre_push = events@;
            let item_offset = reader.position();
            let tag = match list.parse_entry(reader) {
                Ok(t) => t,
                Err(e) => {
                    proof {
                        if wf_box {
                            assert(false);
                        }
                    }
                    return Err(e);
                },
            };
            let tag_event = Event::MetadataTag { offset: item_offset, depth: depth + 1, tag };
            let ghost ev = tag_event;
            events.push(tag_event);
            proof {
                assert(events@.subrange(0, prefix.len() as int) =~= prefix);
                assert(event_matches(b0, ev));
                assert(events@.skip(prefix.len() as int) =~= pre_push.skip(
                    prefix.len() as int,
                ).push(ev));
                lemma_sibling_run_push_other(pre_push.skip(prefix.len() as int), ev, depth);
            }
        }
    } else if let Some(entry_count) = stsd_entry_count {
        let sample_description_box = SampleDescriptionBox { entry_count };
        let mut k: u32 = 0;
        while k < sample_description_box.entry_count
            invariant
                prefix == old(events)@,
                c0 == old(reader).cursor(),
                b0 == old(reader).bytes(),
                endi == end_offset as int,
                depth < MAX_RECURSION_DEPTH,
                wf_box == well_formed_box(b0, c0, endi, handle_unknown, depth),
                !first_box_unknown(b0, c0, endi),
                box_end <= u64::MAX,
                reader.wf(),
                reader.bytes() == b0,
                reader.cursor() >= c0,
                events@.len() > prefix.len(),
                events@.subrange(0, prefix.len() as int) == prefix,
                forall|j: int|
                    prefix.len() <= j < events@.len() ==> event_depth(#[trigger] events@[j])
                        >= depth,
                forall|j: int|
                    prefix.len() <= j < events@.len() ==> event_matches(
                        b0,
                        #[trigger] events@[j],
                    ),
                warning_precedes(events@, prefix.len() as int),
                sibs_box == sibling_run(events@.skip(prefix.len() as int), depth),
                k <= sample_description_box.entry_count,
                wf_box ==> well_formed_entries(
                    b0,
                    reader.cursor(),
                    sample_description_box.entry_count - k,
                ),
                wf_box ==> entries_end(
                    b0,
                    reader.cursor(),
                    sample_description_box.entry_count - k,
                ) <= box_end as int,
            decreases sample_description_box.entry_count - k,
        {
            let ghost pre_push = events@;
            let entry_offset = reader.position();
            let entry = match sample_description_box.parse_entry(reader) {
                Ok(se) => se,
                Err(e) => {
                    proof {
                        if wf_box {
                            assert(false);
                        }
                    }
                    return Err(e);
                },
            };
            let entry_event = Event::Sample { offset: entry_offset, depth: depth + 1, entry };
            let ghost ev = entry_event;
            events.push(entry_event);
            proof {
                assert(events@.subrange(0, prefix.len() as int) =~= prefix);
                assert(event_matches(b0, ev));
                assert(events@.skip(prefix.len() as int) =~= pre_push.skip(
                    prefix.len() as int,
                ).push(ev));
                lemma_sibling_run_push_other(pre_push.skip(prefix.len() as int), ev, depth);
            }
            k = k + 1;
        }
    }
    match finish_box(reader, header.box_type, header.start_offset, box_end) {
        Ok(u) => u,
        Err(e) => {
            proof {
                if wf_box {
                    assert(false);
                }
            }
            return Err(e);
        },
    };
    Ok(())
}

#[verifier::rlimit(100)]
#[verifier::spinoff_prover]
pub fn _parse(
    reader: &mut Reader,
    events: &mut Vec<Event>,
    handle_unknown: HandleUnknown,
    end_offset: u64,
    depth: u32,
) -> (r: Result<(), Mp4Error>)
    requires
        old(reader).wf(),
    ensures
        final(reader).wf(),
        final(reader).bytes() == old(reader).bytes(),
        final(reader).cursor() >= old(reader).cursor(),
        final(events)@.len() >= old(events)@.len(),
        final(events)@.subrange(0, old(events)@.len() as int) == old(events)@,
        forall|j: int|
            old(events)@.len() <= j < final(events)@.len() ==> event_depth(
                #[trigger] final(events)@[j],
            ) >= depth,
        forall|j: int|
            old(events)@.len() <= j < final(events)@.len() ==> event_matches(
                old(reader).bytes(),
                #[trigger] final(events)@[j],
            ),
        warning_precedes(final(events)@, old(events)@.len() as int),
        r is Ok ==> final(reader).cursor() == end_offset,
        r is Ok ==> tiles(
            sibling_run(final(events)@.skip(old(events)@.len() as int), depth),
            old(reader).cursor(),
            end_offset as int,
        ),
        old(reader).cursor() >= end_offset ==> final(events)@ == old(events)@
            && final(reader).cursor() == old(reader).cursor(),
        depth < MAX_RECURSION_DEPTH && old(reader).cursor() == end_offset ==> r is Ok,
        r is Ok && old(reader).cursor() < end_offset ==> final(events)@.len() > old(
            events,
        )@.len(),
        depth < MAX_RECURSION_DEPTH && well_formed_run(
            old(reader).bytes(),
            old(reader).cursor(),
            end_offset as int,
            handle_unknown,
            depth,
        ) ==> r is Ok,
        depth < MAX_RECURSION_DEPTH && handle_unknown == HandleUnknown::Fail && old(
            reader,
        ).cursor() < end_offset && first_box_unknown(
            old(reader).bytes(),
            old(reader).cursor(),
            end_offset as int,
        ) ==> r == Err::<(), Mp4Error>(Mp4Error::UnsupportedBoxType {
            box_type: be32_at(old(reader).bytes(), old(reader).cursor() + 4) as u32,
            size: be32_at(old(reader).bytes(), old(reader).cursor()) as u64,
        }),
        depth < MAX_RECURSION_DEPTH && handle_unknown == HandleUnknown::Skip && old(
            reader,
        ).cursor() < end_offset && first_box_unknown(
            old(reader).bytes(),
            old(reader).cursor(),
            end_offset as int,
        ) && old(reader).cursor() + be32_at(old(reader).bytes(), old(reader).cursor()) > old(
            reader,
        ).bytes().len() ==> (r matches Err(e) && e matches Mp4Error::Truncated { .. }),
    decreases MAX_RECURSION_DEPTH - depth, 1int,
{
    if depth >= MAX_RECURSION_DEPTH {
        return Err(Mp4Error::NestingTooDeep { offset: reader.position() });
    }
    let ghost b0 = reader.bytes();
    let ghost endi = end_offset as int;
    let ghost prefix = events@;
    let ghost start0 = reader.cursor();
    let ghost mut sibs: Seq<Event> = Seq::empty();
    proof {
        assert(events@.skip(prefix.len() as int) =~= Seq::<Event>::empty());
        lemma_sibling_run_none(Seq::<Event>::empty(), depth);
    }
    while reader.position() < end_offset
        invariant
            prefix == old(events)@,
            start0 == old(reader).cursor(),
            b0 == old(reader).bytes(),
            endi == end_offset as int,
            depth < MAX_RECURSION_DEPTH,
            reader.wf(),
            reader.bytes() == b0,
            reader.cursor() >= start0,
            events@.len() >= prefix.len(),
            events@.subrange(0, prefix.len() as int) == prefix,
            forall|j: int|
                prefix.len() <= j < events@.len() ==> event_depth(#[trigger] events@[j]) >= depth,
            forall|j: int|
                prefix.len() <= j < events@.len() ==> event_matches(b0, #[trigger] events@[j]),
            warning_precedes(events@, prefix.len() as int),
            sibs == sibling_run(events@.skip(prefix.len() as int), depth),
            tiles(sibs, start0, reader.cursor()),
            reader.cursor() > start0 ==> events@.len() > prefix.len(),
            start0 >= endi ==> events@ == prefix && reader.cursor() == start0,
            well_formed_run(b0, start0, endi, handle_unknown, depth) ==> well_formed_run(
                b0,
                reader.cursor(),
                endi,
                handle_unknown,
                depth,
            ),
            reader.cursor() > start0 && first_box_unknown(b0, start0, endi)
                ==> handle_unknown == HandleUnknown::Skip && start0 + be32_at(b0, start0)
                <= b0.len(),
        decreases range_left(end_offset, reader.cursor()),
    {
        let ghost iter_sibs = sibs;
        let ghost c0 = reader.cursor();
        let ghost pre_call = events@;
        proof {
            if well_formed_run(b0, start0, endi, handle_unknown, depth) {
                assert(well_formed_run(b0, c0, endi, handle_unknown, depth));
                assert(well_formed_box(b0, c0, endi, handle_unknown, depth));
            }
        }
        let outcome = parse_box(reader, events, handle_unknown, end_offset, depth);
        proof {
            lemma_prefix_trans(prefix, pre_call, events@);
            lemma_seg_extend_depth(pre_call, events@, prefix.len() as int, depth);
            lemma_seg_extend_matches(b0, pre_call, events@, prefix.len() as int);
            lemma_warning_extend(pre_call, events@, prefix.len() as int);
        }
        match outcome {
            Ok(u) => u,
            Err(e) => {
                proof {
                    if well_formed_run(b0, start0, endi, handle_unknown, depth) {
                        assert(false);
                    }
                }
                return Err(e);
            },
        };
        proof {
            let seg = events@.skip(pre_call.len() as int);
            let e = sibling_run(seg, depth)[0];
            assert(events@.skip(prefix.len() as int) =~= pre_call.skip(prefix.len() as int)
                + seg);
            lemma_sibling_run_add(pre_call.skip(prefix.len() as int), seg, depth);
            assert(sibling_run(seg, depth) =~= seq![e]);
            assert(sibling_run(events@.skip(prefix.len() as int), depth) =~= iter_sibs.push(e));
            sibs = iter_sibs.push(e);
            lemma_tiles_extend(iter_sibs, start0, c0, e);
            if well_formed_run(b0, start0, endi, handle_unknown, depth) {
                assert(well_formed_run(b0, reader.cursor(), endi, handle_unknown, depth));
            }
        }
    }
    let final_pos = reader.position();
    if final_pos != end_offset {
        proof {
            if well_formed_run(b0, start0, endi, handle_unknown, depth) {
                assert(well_formed_run(b0, reader.cursor(), endi, handle_unknown, depth));
                assert(false);
            }
        }
        // Ending a sibling run past its range is an invariant violation:
        // the last box declared a size that overruns its container.
        return Err(Mp4Error::CursorBeyondBoxEnd {
            box_type: 0,
            offset: final_pos,
            position: final_pos,
            box_end: end_offset,
        });
    }
    Ok(())
}

/// Decode a complete buffer as a run of top-level boxes.  Returns every
/// event emitted before the decode ended, together with `Ok` when the walk
/// consumed the buffer exactly, or the first fatal error.  A well-formed
/// file is guaranteed to decode successfully; every emitted event agrees
/// with the bytes at its offset; on success the top-level box events tile
/// the buffer exactly (the first box starts at offset zero, each box
/// starts where the one before it ended, the last ends at the buffer's
/// end); a QuickTime-branded file-type box is always announced by the
/// warning event just before it; and an unrecognised top-level type fails
/// with the unsupported-box-type error naming the tag and size.
pub fn parse_mp4(buf: &Vec<u8>) -> (r: (Vec<Event>, Result<(), Mp4Error>))
    ensures
        buf@.len() == 0 ==> r.1 is Ok && r.0@.len() == 0,
        r.1 is Ok && buf@.len() > 0 ==> r.0@.len() > 0,
        r.1 is Ok ==> tiles(sibling_run(r.0@, 0), 0, buf@.len() as int),
        well_formed_file(buf@) ==> r.1 is Ok,
        forall|j: int| 0 <= j < r.0@.len() ==> event_matches(buf@, #[trigger] r.0@[j]),
        warning_precedes(r.0@, 0),
        first_box_unknown(buf@, 0, buf@.len() as int) ==> r.1 == Err::<(), Mp4Error>(
            Mp4Error::UnsupportedBoxType {
                box_type: be32_at(buf@, 4) as u32,
                size: be32_at(buf@, 0) as u64,
            },
        ),
{
    let mut reader = Reader::new(buf.as_slice());
    let mut events: Vec<Event> = Vec::new();
    let outcome = _parse(
        &mut reader,
        &mut events,
        HandleUnknown::Fail,
        buf.len() as u64,
        0,
    );
    proof {
        assert(events@.skip(0) =~= events@);
    }
    (events, outcome)
}

} // verus!
