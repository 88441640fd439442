//! Box framing and per-type payload grammars.
//!
//! Every box starts with the universal header: a 32-bit size, a four
//! character type tag, and, when the size field holds `1`, a 64-bit size
//! extension.  The payload grammar of each known type is decoded by its own
//! parser; unknown types are left to the caller's policy.  Type tags are
//! carried as the big-endian 32-bit value of their four bytes.

use vstd::prelude::*;

use crate::error::Mp4Error;
use crate::quicktime::MetadataItemList;
use crate::fixed::{Fixed1616, Fixed88};
use crate::reader::{be16_at, be32_at, be64_at, Reader};
use vstd::string::StringExecFns;
use crate::strings::{byte_chars_of, string_from_utf8};
use vstd::utf8::{decode_utf8, valid_utf8};

verus! {

pub const FOURCC_FTYP: u32 = 0x6674_7970;
pub const FOURCC_FREE: u32 = 0x6672_6565;
pub const FOURCC_MDAT: u32 = 0x6D64_6174;
pub const FOURCC_MOOV: u32 = 0x6D6F_6F76;
pub const FOURCC_MVHD: u32 = 0x6D76_6864;
pub const FOURCC_TRAK: u32 = 0x7472_616B;
pub const FOURCC_TKHD: u32 = 0x746B_6864;
pub const FOURCC_EDTS: u32 = 0x6564_7473;
pub const FOURCC_ELST: u32 = 0x656C_7374;
pub const FOURCC_MDIA: u32 = 0x6D64_6961;
pub const FOURCC_MDHD: u32 = 0x6D64_6864;
pub const FOURCC_HDLR: u32 = 0x6864_6C72;
pub const FOURCC_MINF: u32 = 0x6D69_6E66;
pub const FOURCC_VMHD: u32 = 0x766D_6864;
pub const FOURCC_SMHD: u32 = 0x736D_6864;
pub const FOURCC_DINF: u32 = 0x6469_6E66;
pub const FOURCC_DREF: u32 = 0x6472_6566;
pub const FOURCC_STBL: u32 = 0x7374_626C;
pub const FOURCC_STSD: u32 = 0x7374_7364;
pub const FOURCC_STTS: u32 = 0x7374_7473;
pub const FOURCC_STSS: u32 = 0x7374_7373;
pub const FOURCC_CTTS: u32 = 0x6374_7473;
pub const FOURCC_STSC: u32 = 0x7374_7363;
pub const FOURCC_STSZ: u32 = 0x7374_737A;
pub const FOURCC_STCO: u32 = 0x7374_636F;
pub const FOURCC_SGPD: u32 = 0x7367_7064;
pub const FOURCC_SBGP: u32 = 0x7362_6770;
pub const FOURCC_SDTP: u32 = 0x7364_7470;
pub const FOURCC_MVEX: u32 = 0x6D76_6578;
pub const FOURCC_TREX: u32 = 0x7472_6578;
pub const FOURCC_MOOF: u32 = 0x6D6F_6F66;
pub const FOURCC_MFHD: u32 = 0x6D66_6864;
pub const FOURCC_TRAF: u32 = 0x7472_6166;
pub const FOURCC_MFRA: u32 = 0x6D66_7261;
pub const FOURCC_UDTA: u32 = 0x7564_7461;
pub const FOURCC_META: u32 = 0x6D65_7461;
pub const FOURCC_ILST: u32 = 0x696C_7374;
pub const FOURCC_URL: u32 = 0x7572_6C20;
pub const FOURCC_MP4A: u32 = 0x6D70_3461;
pub const FOURCC_AVC1: u32 = 0x6176_6331;
/// The brand `qt  `, marking the QuickTime file family.
pub const FOURCC_QT_BRAND: u32 = 0x7174_2020;
/// The legacy metadata tag whose first byte is the copyright glyph 0xA9.
pub const FOURCC_COPYRIGHT_TOO: u32 = 0xA974_6F6F;

/// How many bytes of diagnostic dump accompany a size-to-end-of-file error.
pub const EOF_DUMP_LEN: usize = 256;

/// The universal box header.  `box_size` is the declared size after the
/// size extension has been applied; `inner_size` is the payload length,
/// that is `box_size` minus the 8 or 16 header bytes.
#[derive(Clone, Copy, Debug, PartialEq, Eq, Structural)]
pub struct BoxHeader {
    pub start_offset: u64,
    pub box_size: u64,
    pub box_type: u32,
    pub inner_size: u64,
}

impl BoxHeader {
    /// The type tag decoded for display: as UTF-8 when valid, else one
    /// character per raw byte.
    pub fn type_string(&self) -> (r: String)
        ensures
            valid_utf8(crate::strings::tag_bytes(self.box_type)) ==> r@ == decode_utf8(
                crate::strings::tag_bytes(self.box_type),
            ),
            !valid_utf8(crate::strings::tag_bytes(self.box_type)) ==> r@
                == crate::strings::byte_chars_of(crate::strings::tag_bytes(self.box_type)),
    {
        crate::strings::fourcc_to_string(self.box_type)
    }

    /// Decode a box header at the cursor.
    ///
    /// A 32-bit size and the type tag are read first.  A size field of `1`
    /// announces a 64-bit size extension, which must cover the 16 header
    /// bytes.  A size field of `0` declares a box running to the end of the
    /// file, which is unsupported and fails with a short dump of the
    /// following bytes.  Any other size below 8 is malformed.
    pub fn parse(reader: &mut Reader) -> (r: Result<BoxHeader, Mp4Error>)
        requires
            old(reader).wf(),
        ensures
            final(reader).wf(),
            final(reader).bytes() == old(reader).bytes(),
            final(reader).cursor() >= old(reader).cursor(),
            ({
                let b = old(reader).bytes();
                let i = old(reader).cursor();
                let s32 = be32_at(b, i);
                let tag = be32_at(b, i + 4);
                &&& i + 8 <= b.len() && s32 >= 8 ==> {
                    &&& r matches Ok(h) && h == (BoxHeader {
                        start_offset: i as u64,
                        box_size: s32 as u64,
                        box_type: tag as u32,
                        inner_size: (s32 - 8) as u64,
                    })
                    &&& final(reader).cursor() == i + 8
                }
                &&& i + 8 <= b.len() && s32 == 1 ==> {
                    let s64 = be64_at(b, i + 8);
                    &&& i + 16 <= b.len() && s64 >= 16 ==> {
                        &&& r matches Ok(h) && h == (BoxHeader {
                            start_offset: i as u64,
                            box_size: s64 as u64,
                            box_type: tag as u32,
                            inner_size: (s64 - 16) as u64,
                        })
                        &&& final(reader).cursor() == i + 16
                    }
                    &&& i + 16 <= b.len() && s64 < 16 ==> r == Err::<BoxHeader, Mp4Error>(
                        Mp4Error::MalformedBox {
                            box_type: tag as u32,
                            offset: i as u64,
                            size: s64 as u64,
                        },
                    )
                    &&& i + 16 > b.len() ==> (r matches Err(e) && e matches Mp4Error::Truncated {
                        ..
                    })
                }
                &&& i + 8 <= b.len() && s32 == 0 ==> (r matches Err(e)
                    && e matches Mp4Error::SizeToEndOfFile { box_type, offset, next_bytes } && {
                    &&& box_type == tag as u32
                    &&& offset == i as u64
                    &&& next_bytes@ == b.subrange(
                        i + 8,
                        if i + 8 + EOF_DUMP_LEN <= b.len() {
                            i + 8 + EOF_DUMP_LEN
                        } else {
                            b.len() as int
                        },
                    )
                })
                &&& i + 8 <= b.len() && 2 <= s32 < 8 ==> r == Err::<BoxHeader, Mp4Error>(
                    Mp4Error::MalformedBox {
                        box_type: tag as u32,
                        offset: i as u64,
                        size: s32 as u64,
                    },
                )
                &&& i + 8 > b.len() ==> (r matches Err(e) && e matches Mp4Error::Truncated { .. })
            }),
    {
        let start = reader.position();
        let size32 = match reader.read_u32() {
            Ok(v) => v,
            Err(e) => {
                return Err(e);
            },
        };
        let tag = match reader.read_u32() {
            Ok(v) => v,
            Err(e) => {
                return Err(e);
            },
        };
        if size32 == 1 {
            let size64 = match reader.read_u64() {
                Ok(v) => v,
                Err(e) => {
                    return Err(e);
                },
            };
            if size64 < 16 {
                return Err(Mp4Error::MalformedBox { box_type: tag, offset: start, size: size64 });
            }
            Ok(BoxHeader {
                start_offset: start,
                box_size: size64,
                box_type: tag,
                inner_size: size64 - 16,
            })
        } else if size32 == 0 {
            let rem = reader.remaining();
            let n = if EOF_DUMP_LEN <= rem {
                EOF_DUMP_LEN
            } else {
                rem
            };
            let dump = match reader.read_bytes(n) {
                Ok(v) => v,
                Err(e) => {
                    proof {
                        assert(false);
                    }
                    Vec::new()
                },
            };
            Err(Mp4Error::SizeToEndOfFile { box_type: tag, offset: start, next_bytes: dump })
        } else if size32 < 8 {
            Err(Mp4Error::MalformedBox { box_type: tag, offset: start, size: size32 as u64 })
        } else {
            Ok(BoxHeader {
                start_offset: start,
                box_size: size32 as u64,
                box_type: tag,
                inner_size: (size32 - 8) as u64,
            })
        }
    }
}

/// The version byte and 3 flag bytes that open the payload of every
/// "full box".
#[derive(Clone, Copy, Debug, PartialEq, Eq)]
pub struct FullBoxHeader {
    pub version: u8,
    pub flags: [u8; 3],
}

impl FullBoxHeader {
    pub fn parse(reader: &mut Reader) -> (r: Result<FullBoxHeader, Mp4Error>)
        requires
            old(reader).wf(),
        ensures
            final(reader).wf(),
            final(reader).bytes() == old(reader).bytes(),
            final(reader).cursor() >= old(reader).cursor(),
            ({
                let b = old(reader).bytes();
                let i = old(reader).cursor();
                &&& i + 4 <= b.len() ==> {
                    &&& r matches Ok(h) && h.version == b[i] && h.flags@ == seq![
                        b[i + 1],
                        b[i + 2],
                        b[i + 3],
                    ]
                    &&& final(reader).cursor() == i + 4
                }
                &&& i + 4 > b.len() ==> (r matches Err(e) && e matches Mp4Error::Truncated { .. })
            }),
    {
        let version = match reader.read_u8() {
            Ok(v) => v,
            Err(e) => {
                return Err(e);
            },
        };
        let fl = match reader.read_exact(3) {
            Ok(v) => v,
            Err(e) => {
                return Err(e);
            },
        };
        let flags = [fl[0], fl[1], fl[2]];
        proof {
            assert(flags@ =~= seq![
                old(reader).bytes()[old(reader).cursor() + 1],
                old(reader).bytes()[old(reader).cursor() + 2],
                old(reader).bytes()[old(reader).cursor() + 3],
            ]);
        }
        Ok(FullBoxHeader { version, flags })
    }
}

/// The three lowercase letters packed into a media-header language code:
/// three 5-bit fields of the 16-bit value, each shifted up by 0x60.
pub open spec fn language_chars(v: u16) -> Seq<char> {
    seq![
        (((v >> 10) & 0x1f) + 0x60) as u8 as char,
        (((v >> 5) & 0x1f) + 0x60) as u8 as char,
        ((v & 0x1f) + 0x60) as u8 as char,
    ]
}

/// ftyp
#[derive(Debug, Clone, PartialEq, Eq)]
pub struct FileTypeBox {
    pub major_brand: String,
    pub minor_version: u32,
    pub compatible_brands: Vec<String>,
}

/// The four bytes of the `j`-th compatible brand, starting at `base`.
pub open spec fn brand_slot(b: Seq<u8>, base: int, j: int) -> Seq<u8> {
    b.subrange(base + 4 * j, base + 4 * j + 4)
}

/// The `j`-th decoded compatible brand agrees with its four bytes.
pub open spec fn brand_slot_ok(b: Seq<u8>, base: int, brands: Seq<String>, j: int) -> bool {
    valid_utf8(brand_slot(b, base, j)) && brands[j]@ == decode_utf8(brand_slot(b, base, j))
}

impl FileTypeBox {
    /// Decode a file-type payload: a four character major brand, a minor
    /// version, and four character compatible brands filling the rest of
    /// the declared payload.
    #[verifier::loop_isolation(false)]
    pub fn parse(reader: &mut Reader, inner_size: u64) -> (r: Result<FileTypeBox, Mp4Error>)
        requires
            old(reader).wf(),
        ensures
            final(reader).wf(),
            final(reader).bytes() == old(reader).bytes(),
            final(reader).cursor() >= old(reader).cursor(),
            ({
                let b = old(reader).bytes();
                let i = old(reader).cursor();
                let n_brands = (inner_size - 8) / 4;
                &&& inner_size < 8 ==> r == Err::<FileTypeBox, Mp4Error>(Mp4Error::MalformedBox {
                    box_type: FOURCC_FTYP,
                    offset: i as u64,
                    size: inner_size,
                })
                &&& r matches Ok(x) ==> {
                    &&& inner_size >= 8
                    &&& i + 8 + 4 * n_brands <= b.len()
                    &&& valid_utf8(b.subrange(i, i + 4))
                    &&& x.major_brand@ == decode_utf8(b.subrange(i, i + 4))
                    &&& x.minor_version == be32_at(b, i + 4)
                    &&& x.compatible_brands@.len() == n_brands
                    &&& forall|k: int|
                        0 <= k < n_brands ==> #[trigger] brand_slot_ok(
                            b,
                            i + 8,
                            x.compatible_brands@,
                            k,
                        )
                    &&& final(reader).cursor() == i + 8 + 4 * n_brands
                }
                &&& inner_size >= 8 && i + 8 + 4 * n_brands <= b.len() && valid_utf8(
                    b.subrange(i, i + 4),
                ) && (forall|k: int|
                    0 <= k < n_brands ==> valid_utf8(#[trigger] brand_slot(b, i + 8, k)))
                    ==> r is Ok
            }),
    {
        let start = reader.position();
        if inner_size < 8 {
            return Err(Mp4Error::MalformedBox {
                box_type: FOURCC_FTYP,
                offset: start,
                size: inner_size,
            });
        }
        let major_brand = reader.read_string(4)?;
        let minor_version = reader.read_u32()?;
        let remaining = inner_size - 8;
        let n_brands = remaining / 4;
        let ghost base = reader.cursor();
        let mut compatible_brands: Vec<String> = Vec::new();
        let mut k: u64 = 0;
        while k < n_brands
            invariant
                reader.wf(),
                reader.bytes() == old(reader).bytes(),
                k <= n_brands,
                reader.cursor() == base + 4 * k,
                compatible_brands@.len() == k,
                forall|j: int|
                    0 <= j < k ==> #[trigger] brand_slot_ok(
                        old(reader).bytes(),
                        base,
                        compatible_brands@,
                        j,
                    ),
            decreases n_brands - k,
        {
            let ghost c = reader.cursor();
            proof {
                assert(old(reader).bytes().subrange(c, c + 4) =~= brand_slot(
                    old(reader).bytes(),
                    base,
                    k as int,
                ));
            }
            let brand = match reader.read_string(4) {
                Ok(s) => s,
                Err(e) => {
                    return Err(e);
                },
            };
            let ghost prev = compatible_brands@;
            compatible_brands.push(brand);
            k = k + 1;
            proof {
                assert forall|j: int| 0 <= j < k implies #[trigger] brand_slot_ok(
                    old(reader).bytes(),
                    base,
                    compatible_brands@,
                    j,
                ) by {
                    if j < k - 1 {
                        assert(brand_slot_ok(old(reader).bytes(), base, prev, j));
                        assert(compatible_brands@[j] == prev[j]);
                    } else {
                        assert(compatible_brands@[j] == brand);
                    }
                }
            }
        }
        proof {
            assert forall|j: int| 0 <= j < (inner_size - 8) / 4 implies valid_utf8(
                #[trigger] brand_slot(old(reader).bytes(), base, j),
            ) by {
                assert(brand_slot_ok(old(reader).bytes(), base, compatible_brands@, j));
            }
        }
        Ok(FileTypeBox { major_brand, minor_version, compatible_brands })
    }

    /// True when the major brand marks the QuickTime file family, which is
    /// supported only as far as its framing.
    pub fn is_quicktime(&self) -> (r: bool)
        ensures
            r == (self.major_brand@ == "qt  "@),
    {
        let qt = String::from_str("qt  ");
        self.major_brand.eq(&qt)
    }
}

/// mdat
#[derive(Debug, Clone, Copy, PartialEq, Eq, Structural)]
pub struct MediaDataBox;

impl MediaDataBox {
    /// The sample payload itself is opaque: skip the declared length.
    pub fn parse(reader: &mut Reader, inner_size: u64) -> (r: Result<MediaDataBox, Mp4Error>)
        requires
            old(reader).wf(),
        ensures
            final(reader).wf(),
            final(reader).bytes() == old(reader).bytes(),
            final(reader).cursor() >= old(reader).cursor(),
            old(reader).cursor() + inner_size <= old(reader).bytes().len() ==> (r matches Ok(x)
                && final(reader).cursor() == old(reader).cursor() + inner_size),
            old(reader).cursor() + inner_size > old(reader).bytes().len() ==> (r matches Err(e)
                && e matches Mp4Error::Truncated { .. } && final(reader).cursor() == old(
                reader,
            ).cursor()),
    {
        reader.skip_bytes(inner_size)?;
        Ok(MediaDataBox)
    }
}

/// free
#[derive(Debug, Clone, Copy, PartialEq, Eq, Structural)]
pub struct FreeSpaceBox;

impl FreeSpaceBox {
    /// A free-space marker has no fields to decode; whatever padding the
    /// box declares is left for the driver to skip.
    pub fn parse(_reader: &mut Reader, _inner_size: u64) -> (r: FreeSpaceBox)
        requires
            old(_reader).wf(),
        ensures
            *final(_reader) == *old(_reader),
    {
        FreeSpaceBox
    }
}

/// The `j`-th matrix entry agrees with its four bytes at `base + 4*j`.
pub open spec fn matrix_slot_ok(b: Seq<u8>, base: int, m: Seq<u32>, j: int) -> bool {
    m[j] == be32_at(b, base + 4 * j)
}

/// Read the nine 32-bit entries of a transformation matrix.
#[verifier::loop_isolation(false)]
fn read_matrix(reader: &mut Reader) -> (r: Result<Vec<u32>, Mp4Error>)
    requires
        old(reader).wf(),
    ensures
        final(reader).wf(),
        final(reader).bytes() == old(reader).bytes(),
        final(reader).cursor() >= old(reader).cursor(),
        old(reader).cursor() + 36 <= old(reader).bytes().len() ==> {
            &&& r matches Ok(m) && m@.len() == 9 && (forall|j: int|
                0 <= j < 9 ==> #[trigger] matrix_slot_ok(
                    old(reader).bytes(),
                    old(reader).cursor(),
                    m@,
                    j,
                ))
            &&& final(reader).cursor() == old(reader).cursor() + 36
        },
        old(reader).cursor() + 36 > old(reader).bytes().len() ==> (r matches Err(e)
            && e matches Mp4Error::Truncated { .. }),
{
    let ghost base = reader.cursor();
    let mut m: Vec<u32> = Vec::new();
    let mut k: usize = 0;
    while k < 9
        invariant
            reader.wf(),
            reader.bytes() == old(reader).bytes(),
            k <= 9,
            reader.cursor() == base + 4 * k,
            m@.len() == k,
            forall|j: int|
                0 <= j < k ==> #[trigger] matrix_slot_ok(old(reader).bytes(), base, m@, j),
        decreases 9 - k,
    {
        let ghost prev = m@;
        let v = match reader.read_u32() {
            Ok(v) => v,
            Err(e) => {
                return Err(e);
            },
        };
        m.push(v);
        k = k + 1;
        proof {
            assert forall|j: int| 0 <= j < k implies #[trigger] matrix_slot_ok(
                old(reader).bytes(),
                base,
                m@,
                j,
            ) by {
                if j < k - 1 {
                    assert(matrix_slot_ok(old(reader).bytes(), base, prev, j));
                    assert(m@[j] == prev[j]);
                } else {
                    assert(m@[j] == v);
                }
            }
        }
    }
    Ok(m)
}

/// mvhd
#[derive(Debug, Clone, PartialEq, Eq)]
pub struct MovieHeaderBox {
    /// Seconds since the 1904 epoch; see [`crate::timestamp::as_timestamp`].
    pub creation_time: u32,
    /// Seconds since the 1904 epoch.
    pub modification_time: u32,
    pub timescale: u32,
    pub duration: u32,
    pub rate: Fixed1616,
    pub volume: Fixed88,
    pub matrix: Vec<u32>,
    pub next_track_id: u32,
}

impl MovieHeaderBox {
    /// Decode a movie-header payload (version 0 layout; the 64-bit
    /// version 1 layout is not modelled and fails distinctly).
    pub fn parse(reader: &mut Reader, _inner_size: u64) -> (r: Result<MovieHeaderBox, Mp4Error>)
        requires
            old(reader).wf(),
        ensures
            final(reader).wf(),
            final(reader).bytes() == old(reader).bytes(),
            final(reader).cursor() >= old(reader).cursor(),
            ({
                let b = old(reader).bytes();
                let i = old(reader).cursor();
                &&& i + 4 <= b.len() && b[i] == 1 ==> r == Err::<MovieHeaderBox, Mp4Error>(
                    Mp4Error::UnsupportedVersion { box_type: FOURCC_MVHD, version: 1 },
                )
                &&& i + 4 <= b.len() && b[i] != 1 && i + 100 <= b.len() ==> {
                    &&& r matches Ok(x) && {
                        &&& x.creation_time == be32_at(b, i + 4)
                        &&& x.modification_time == be32_at(b, i + 8)
                        &&& x.timescale == be32_at(b, i + 12)
                        &&& x.duration == be32_at(b, i + 16)
                        &&& x.rate.raw == be32_at(b, i + 20)
                        &&& x.volume.raw == be16_at(b, i + 24)
                        &&& x.matrix@.len() == 9
                        &&& forall|j: int|
                            0 <= j < 9 ==> #[trigger] matrix_slot_ok(b, i + 36, x.matrix@, j)
                        &&& x.next_track_id == be32_at(b, i + 96)
                    }
                    &&& final(reader).cursor() == i + 100
                }
                &&& (i + 4 > b.len() || (i + 4 <= b.len() && b[i] != 1 && i + 100 > b.len()))
                    ==> (r matches Err(e) && e matches Mp4Error::Truncated { .. })
                &&& r is Ok ==> i + 4 <= b.len() && b[i] != 1 && i + 100 <= b.len()
            }),
    {
        let full_box = FullBoxHeader::parse(reader)?;
        if full_box.version == 1 {
            return Err(Mp4Error::UnsupportedVersion { box_type: FOURCC_MVHD, version: 1 });
        }
        let creation_time = reader.read_u32()?;
        let modification_time = reader.read_u32()?;
        let timescale = reader.read_u32()?;
        let duration = reader.read_u32()?;
        let rate = reader.read_fixed_point_16_16()?;
        let volume = reader.read_fixed_point_8_8()?;
        reader.skip_bytes(2)?;
        reader.skip_bytes(8)?;
        let matrix = read_matrix(reader)?;
        reader.skip_bytes(24)?;
        let next_track_id = reader.read_u32()?;
        Ok(MovieHeaderBox {
            creation_time,
            modification_time,
            timescale,
            duration,
            rate,
            volume,
            matrix,
            next_track_id,
        })
    }
}

/// tkhd
#[derive(Debug, Clone, PartialEq, Eq)]
pub struct TrackHeaderBox {
    pub track_enabled: bool,
    pub track_in_movie: bool,
    pub track_in_preview: bool,
    /// Seconds since the 1904 epoch.
    pub creation_time: u32,
    /// Seconds since the 1904 epoch.
    pub modification_time: u32,
    pub track_id: u32,
    pub duration: u32,
    pub layer: u16,
    pub alternate_group: u16,
    pub volume: Fixed88,
    pub matrix: Vec<u32>,
    pub width: u32,
    pub height: u32,
}

impl TrackHeaderBox {
    /// Decode a track-header payload (version 0 layout; version 1 fails
    /// distinctly).  The enabled / in-movie / in-preview bits live in the
    /// last flag byte.
    pub fn parse(reader: &mut Reader, _inner_size: u64) -> (r: Result<TrackHeaderBox, Mp4Error>)
        requires
            old(reader).wf(),
        ensures
            final(reader).wf(),
            final(reader).bytes() == old(reader).bytes(),
            final(reader).cursor() >= old(reader).cursor(),
            ({
                let b = old(reader).bytes();
                let i = old(reader).cursor();
                &&& i + 4 <= b.len() && b[i] == 1 ==> r == Err::<TrackHeaderBox, Mp4Error>(
                    Mp4Error::UnsupportedVersion { box_type: FOURCC_TKHD, version: 1 },
                )
                &&& i + 4 <= b.len() && b[i] != 1 && i + 84 <= b.len() ==> {
                    &&& r matches Ok(x) && {
                        &&& x.track_enabled == ((b[i + 3] & 1) != 0)
                        &&& x.track_in_movie == ((b[i + 3] & 2) != 0)
                        &&& x.track_in_preview == ((b[i + 3] & 4) != 0)
                        &&& x.creation_time == be32_at(b, i + 4)
                        &&& x.modification_time == be32_at(b, i + 8)
                        &&& x.track_id == be32_at(b, i + 12)
                        &&& x.duration == be32_at(b, i + 20)
                        &&& x.layer == be16_at(b, i + 32)
                        &&& x.alternate_group == be16_at(b, i + 34)
                        &&& x.volume.raw == be16_at(b, i + 36)
                        &&& x.matrix@.len() == 9
                        &&& forall|j: int|
                            0 <= j < 9 ==> #[trigger] matrix_slot_ok(b, i + 40, x.matrix@, j)
                        &&& x.width == be32_at(b, i + 76)
                        &&& x.height == be32_at(b, i + 80)
                    }
                    &&& final(reader).cursor() == i + 84
                }
                &&& (i + 4 > b.len() || (i + 4 <= b.len() && b[i] != 1 && i + 84 > b.len()))
                    ==> (r matches Err(e) && e matches Mp4Error::Truncated { .. })
                &&& r is Ok ==> i + 4 <= b.len() && b[i] != 1 && i + 84 <= b.len()
            }),
    {
        let full_box = FullBoxHeader::parse(reader)?;
        let track_enabled = (full_box.flags[2] & 1) != 0;
        let track_in_movie = (full_box.flags[2] & 2) != 0;
        let track_in_preview = (full_box.flags[2] & 4) != 0;
        if full_box.version == 1 {
            return Err(Mp4Error::UnsupportedVersion { box_type: FOURCC_TKHD, version: 1 });
        }
        let creation_time = reader.read_u32()?;
        let modification_time = reader.read_u32()?;
        let track_id = reader.read_u32()?;
        reader.skip_bytes(4)?;
        let duration = reader.read_u32()?;
        reader.skip_bytes(8)?;
        let layer = reader.read_u16()?;
        let alternate_group = reader.read_u16()?;
        let volume = reader.read_fixed_point_8_8()?;
        reader.skip_bytes(2)?;
        let matrix = read_matrix(reader)?;
        let width = reader.read_u32()?;
        let height = reader.read_u32()?;
        Ok(TrackHeaderBox {
            track_enabled,
            track_in_movie,
            track_in_preview,
            creation_time,
            modification_time,
            track_id,
            duration,
            layer,
            alternate_group,
            volume,
            matrix,
            width,
            height,
        })
    }
}

/// mdhd
#[derive(Debug, Clone, PartialEq, Eq)]
pub struct MediaHeaderBox {
    /// Seconds since the 1904 epoch.
    pub creation_time: u32,
    /// Seconds since the 1904 epoch.
    pub modification_time: u32,
    pub timescale: u32,
    pub duration: u32,
    /// Three lowercase letters decoded from the packed 5-bit fields.
    pub language: String,
}

impl MediaHeaderBox {
    /// Decode a media-header payload (version 0 layout; version 1 fails
    /// distinctly), including the packed three-letter language code.
    pub fn parse(reader: &mut Reader, _inner_size: u64) -> (r: Result<MediaHeaderBox, Mp4Error>)
        requires
            old(reader).wf(),
        ensures
            final(reader).wf(),
            final(reader).bytes() == old(reader).bytes(),
            final(reader).cursor() >= old(reader).cursor(),
            ({
                let b = old(reader).bytes();
                let i = old(reader).cursor();
                &&& i + 4 <= b.len() && b[i] == 1 ==> r == Err::<MediaHeaderBox, Mp4Error>(
                    Mp4Error::UnsupportedVersion { box_type: FOURCC_MDHD, version: 1 },
                )
                &&& i + 4 <= b.len() && b[i] != 1 && i + 24 <= b.len() ==> {
                    &&& r matches Ok(x) && {
                        &&& x.creation_time == be32_at(b, i + 4)
                        &&& x.modification_time == be32_at(b, i + 8)
                        &&& x.timescale == be32_at(b, i + 12)
                        &&& x.duration == be32_at(b, i + 16)
                        &&& x.language@ == language_chars(be16_at(b, i + 20) as u16)
                    }
                    &&& final(reader).cursor() == i + 24
                }
                &&& (i + 4 > b.len() || (i + 4 <= b.len() && b[i] != 1 && i + 24 > b.len()))
                    ==> (r matches Err(e) && e matches Mp4Error::Truncated { .. })
                &&& r is Ok ==> i + 4 <= b.len() && b[i] != 1 && i + 24 <= b.len()
            }),
    {
        let full_box = FullBoxHeader::parse(reader)?;
        if full_box.version == 1 {
            return Err(Mp4Error::UnsupportedVersion { box_type: FOURCC_MDHD, version: 1 });
        }
        let creation_time = reader.read_u32()?;
        let modification_time = reader.read_u32()?;
        let timescale = reader.read_u32()?;
        let duration = reader.read_u32()?;
        let v = reader.read_u16()?;
        proof {
            assert((v >> 10) & 0x1f < 32 && (v >> 5) & 0x1f < 32 && (v & 0x1f) < 32) by (bit_vector);
            assert(((v >> 10) & 0x1f) as u8 == (v >> 10) & 0x1f) by (bit_vector);
            assert(((v >> 5) & 0x1f) as u8 == (v >> 5) & 0x1f) by (bit_vector);
            assert((v & 0x1f) as u8 == v & 0x1f) by (bit_vector);
        }
        let c1: u8 = ((v >> 10) & 0x1f) as u8 + 0x60;
        let c2: u8 = ((v >> 5) & 0x1f) as u8 + 0x60;
        let c3: u8 = (v & 0x1f) as u8 + 0x60;
        let mut lang_bytes: Vec<u8> = Vec::new();
        lang_bytes.push(c1);
        lang_bytes.push(c2);
        lang_bytes.push(c3);
        proof {
            crate::strings::lemma_ascii_bytes_decode(lang_bytes@);
            assert(byte_chars_of(lang_bytes@) =~= language_chars(v));
        }
        let language = match string_from_utf8(&lang_bytes) {
            Some(s) => s,
            None => {
                proof {
                    assert(false);
                }
                String::new()
            },
        };
        reader.skip_bytes(2)?;
        Ok(MediaHeaderBox { creation_time, modification_time, timescale, duration, language })
    }
}


/// hdlr
#[derive(Debug, Clone, PartialEq, Eq)]
pub struct HandlerReferenceBox {
    pub handler_type: String,
    pub name: String,
}

impl HandlerReferenceBox {
    /// Decode a handler-reference payload: a four character handler type
    /// and a name filling the rest of the declared payload.
    pub fn parse(
        reader: &mut Reader,
        inner_size: u64,
    ) -> (r: Result<HandlerReferenceBox, Mp4Error>)
        requires
            old(reader).wf(),
        ensures
            final(reader).wf(),
            final(reader).bytes() == old(reader).bytes(),
            final(reader).cursor() >= old(reader).cursor(),
            ({
                let b = old(reader).bytes();
                let i = old(reader).cursor();
                &&& inner_size < 24 ==> r == Err::<HandlerReferenceBox, Mp4Error>(
                    Mp4Error::MalformedBox {
                        box_type: FOURCC_HDLR,
                        offset: i as u64,
                        size: inner_size,
                    },
                )
                &&& r matches Ok(x) ==> {
                    &&& inner_size >= 24
                    &&& i + inner_size <= b.len()
                    &&& valid_utf8(b.subrange(i + 8, i + 12))
                    &&& x.handler_type@ == decode_utf8(b.subrange(i + 8, i + 12))
                    &&& valid_utf8(b.subrange(i + 24, i + inner_size))
                    &&& x.name@ == decode_utf8(b.subrange(i + 24, i + inner_size))
                    &&& final(reader).cursor() == i + inner_size
                }
                &&& inner_size >= 24 && i + inner_size <= b.len() && valid_utf8(
                    b.subrange(i + 8, i + 12),
                ) && valid_utf8(b.subrange(i + 24, i + inner_size)) ==> r is Ok
            }),
    {
        let start = reader.position();
        if inner_size < 24 {
            return Err(Mp4Error::MalformedBox {
                box_type: FOURCC_HDLR,
                offset: start,
                size: inner_size,
            });
        }
        let _ = FullBoxHeader::parse(reader)?;
        reader.skip_bytes(4)?;
        let handler_type = reader.read_string(4)?;
        reader.skip_bytes(12)?;
        let name_len = inner_size - 24;
        let rem = reader.remaining();
        if name_len > rem as u64 {
            return Err(Mp4Error::Truncated {
                requested: name_len,
                position: reader.position(),
                length: reader.position() + rem as u64,
            });
        }
        let name = reader.read_string(name_len as usize)?;
        Ok(HandlerReferenceBox { handler_type, name })
    }
}

/// vmhd
#[derive(Debug, Clone, PartialEq, Eq)]
pub struct VideoMediaHandler {
    pub graphicsmode: u16,
    pub opcolor: Vec<u8>,
}

impl VideoMediaHandler {
    /// Decode a video-media-header payload: a graphics mode and three
    /// 16-bit opcolor components kept as raw bytes.
    pub fn parse(reader: &mut Reader, _inner_size: u64) -> (r: Result<VideoMediaHandler, Mp4Error>)
        requires
            old(reader).wf(),
        ensures
            final(reader).wf(),
            final(reader).bytes() == old(reader).bytes(),
            final(reader).cursor() >= old(reader).cursor(),
            ({
                let b = old(reader).bytes();
                let i = old(reader).cursor();
                &&& i + 12 <= b.len() ==> {
                    &&& r matches Ok(x) && {
                        &&& x.graphicsmode == be16_at(b, i + 4)
                        &&& x.opcolor@ == b.subrange(i + 6, i + 12)
                    }
                    &&& final(reader).cursor() == i + 12
                }
                &&& i + 12 > b.len() ==> (r matches Err(e) && e matches Mp4Error::Truncated { .. })
                &&& r is Ok ==> i + 12 <= b.len()
            }),
    {
        let _ = FullBoxHeader::parse(reader)?;
        let graphicsmode = reader.read_u16()?;
        let opcolor = reader.read_bytes(6)?;
        Ok(VideoMediaHandler { graphicsmode, opcolor })
    }
}

/// smhd
#[derive(Debug, Clone, PartialEq, Eq)]
pub struct SoundMediaHandler {
    pub balance: Fixed88,
}

impl SoundMediaHandler {
    /// Decode a sound-media-header payload: the stereo balance.
    pub fn parse(reader: &mut Reader, _inner_size: u64) -> (r: Result<SoundMediaHandler, Mp4Error>)
        requires
            old(reader).wf(),
        ensures
            final(reader).wf(),
            final(reader).bytes() == old(reader).bytes(),
            final(reader).cursor() >= old(reader).cursor(),
            ({
                let b = old(reader).bytes();
                let i = old(reader).cursor();
                &&& i + 8 <= b.len() ==> {
                    &&& r matches Ok(x) && x.balance.raw == be16_at(b, i + 4)
                    &&& final(reader).cursor() == i + 8
                }
                &&& i + 8 > b.len() ==> (r matches Err(e) && e matches Mp4Error::Truncated { .. })
                &&& r is Ok ==> i + 8 <= b.len()
            }),
    {
        let _ = FullBoxHeader::parse(reader)?;
        let balance = reader.read_fixed_point_8_8()?;
        reader.skip_bytes(2)?;
        Ok(SoundMediaHandler { balance })
    }
}

/// dref
#[derive(Debug, Clone, Copy, PartialEq, Eq, Structural)]
pub struct DataReferenceBox {
    pub entry_count: u32,
}

/// url
#[derive(Debug, Clone, Copy, PartialEq, Eq, Structural)]
pub struct DataEntryUrlBox {
    pub self_contained: bool,
}

impl DataReferenceBox {
    /// Decode the data-reference header: its entry count.  The entries
    /// follow as nested boxes and are decoded by [`Self::parse_entry`].
    pub fn parse(reader: &mut Reader) -> (r: Result<DataReferenceBox, Mp4Error>)
        requires
            old(reader).wf(),
        ensures
            final(reader).wf(),
            final(reader).bytes() == old(reader).bytes(),
            final(reader).cursor() >= old(reader).cursor(),
            ({
                let b = old(reader).bytes();
                let i = old(reader).cursor();
                &&& i + 8 <= b.len() ==> {
                    &&& r matches Ok(x) && x.entry_count == be32_at(b, i + 4)
                    &&& final(reader).cursor() == i + 8
                }
                &&& i + 8 > b.len() ==> (r matches Err(e) && e matches Mp4Error::Truncated { .. })
                &&& r is Ok ==> i + 8 <= b.len()
            }),
    {
        let _ = FullBoxHeader::parse(reader)?;
        let entry_count = reader.read_u32()?;
        Ok(DataReferenceBox { entry_count })
    }

    /// Decode one data-reference entry.  Only the self-contained URL entry
    /// is modelled: any other entry tag, and any flag value other than the
    /// self-containment bit, is a distinct unsupported condition.
    pub fn parse_entry(reader: &mut Reader) -> (r: Result<DataEntryUrlBox, Mp4Error>)
        requires
            old(reader).wf(),
        ensures
            final(reader).wf(),
            final(reader).bytes() == old(reader).bytes(),
            final(reader).cursor() >= old(reader).cursor(),
            r matches Ok(x) ==> x.self_contained,
            ({
                let b = old(reader).bytes();
                let i = old(reader).cursor();
                let s32 = be32_at(b, i);
                let tag = be32_at(b, i + 4);
                &&& i + 8 <= b.len() && s32 >= 8 && tag != FOURCC_URL ==> r == Err::<
                    DataEntryUrlBox,
                    Mp4Error,
                >(Mp4Error::UnsupportedBoxType { box_type: tag as u32, size: s32 as u64 })
                &&& i + 12 <= b.len() && s32 >= 8 && tag == FOURCC_URL ==> {
                    &&& b[i + 9] == 0 && b[i + 10] == 0 && b[i + 11] == 1 ==> (r matches Ok(x)
                        && x.self_contained && final(reader).cursor() == i + 12)
                    &&& !(b[i + 9] == 0 && b[i + 10] == 0 && b[i + 11] == 1) ==> (r matches Err(e)
                        && e matches Mp4Error::ExternalMediaReference { flags } && flags@ == seq![
                        b[i + 9],
                        b[i + 10],
                        b[i + 11],
                    ])
                }
            }),
    {
        let header = BoxHeader::parse(reader)?;
        if header.box_type != FOURCC_URL {
            return Err(Mp4Error::UnsupportedBoxType {
                box_type: header.box_type,
                size: header.box_size,
            });
        }
        let full_box = FullBoxHeader::parse(reader)?;
        if full_box.flags[0] == 0 && full_box.flags[1] == 0 && full_box.flags[2] == 1 {
            Ok(DataEntryUrlBox { self_contained: true })
        } else {
            Err(Mp4Error::ExternalMediaReference { flags: full_box.flags })
        }
    }
}

/// elst
#[derive(Debug, Clone, Copy, PartialEq, Eq, Structural)]
pub struct EditListBox {
    pub entry_count: u32,
}

#[derive(Debug, Clone, Copy, PartialEq, Eq, Structural)]
pub struct EditListEntry {
    pub segment_duration: u32,
    pub media_time: i32,
    pub media_rate_integer: i16,
    pub media_rate_fraction: i16,
}

impl EditListEntry {
    /// Decode one edit-list entry.
    pub fn parse(reader: &mut Reader) -> (r: Result<EditListEntry, Mp4Error>)
        requires
            old(reader).wf(),
        ensures
            final(reader).wf(),
            final(reader).bytes() == old(reader).bytes(),
            final(reader).cursor() >= old(reader).cursor(),
            ({
                let b = old(reader).bytes();
                let i = old(reader).cursor();
                &&& i + 12 <= b.len() ==> {
                    &&& r matches Ok(x) && {
                        &&& x.segment_duration == be32_at(b, i)
                        &&& x.media_time == be32_at(b, i + 4) as u32 as i32
                        &&& x.media_rate_integer == be16_at(b, i + 8) as u16 as i16
                        &&& x.media_rate_fraction == be16_at(b, i + 10) as u16 as i16
                    }
                    &&& final(reader).cursor() == i + 12
                }
                &&& i + 12 > b.len() ==> (r matches Err(e) && e matches Mp4Error::Truncated { .. })
            }),
    {
        let segment_duration = reader.read_u32()?;
        let media_time = reader.read_i32()?;
        let media_rate_integer = reader.read_i16()?;
        let media_rate_fraction = reader.read_i16()?;
        Ok(EditListEntry { segment_duration, media_time, media_rate_integer, media_rate_fraction })
    }
}

impl EditListBox {
    /// Decode the edit-list header: its entry count (version 0 only).
    pub fn parse_header(reader: &mut Reader) -> (r: Result<EditListBox, Mp4Error>)
        requires
            old(reader).wf(),
        ensures
            final(reader).wf(),
            final(reader).bytes() == old(reader).bytes(),
            final(reader).cursor() >= old(reader).cursor(),
            ({
                let b = old(reader).bytes();
                let i = old(reader).cursor();
                &&& i + 4 <= b.len() && b[i] == 1 ==> r == Err::<EditListBox, Mp4Error>(
                    Mp4Error::UnsupportedVersion { box_type: FOURCC_ELST, version: 1 },
                )
                &&& i + 4 <= b.len() && b[i] != 1 && i + 8 <= b.len() ==> {
                    &&& r matches Ok(x) && x.entry_count == be32_at(b, i + 4)
                    &&& final(reader).cursor() == i + 8
                }
                &&& (i + 4 > b.len() || (i + 4 <= b.len() && b[i] != 1 && i + 8 > b.len()))
                    ==> (r matches Err(e) && e matches Mp4Error::Truncated { .. })
                &&& r is Ok ==> i + 4 <= b.len() && b[i] != 1 && i + 8 <= b.len()
            }),
    {
        let full_box = FullBoxHeader::parse(reader)?;
        if full_box.version == 1 {
            return Err(Mp4Error::UnsupportedVersion { box_type: FOURCC_ELST, version: 1 });
        }
        let entry_count = reader.read_u32()?;
        Ok(EditListBox { entry_count })
    }

    /// Decode one entry of this edit list.
    pub fn parse_entry(&self, reader: &mut Reader) -> (r: Result<EditListEntry, Mp4Error>)
        requires
            old(reader).wf(),
        ensures
            final(reader).wf(),
            final(reader).bytes() == old(reader).bytes(),
            final(reader).cursor() >= old(reader).cursor(),
            ({
                let b = old(reader).bytes();
                let i = old(reader).cursor();
                &&& i + 12 <= b.len() ==> {
                    &&& r matches Ok(x) && {
                        &&& x.segment_duration == be32_at(b, i)
                        &&& x.media_time == be32_at(b, i + 4) as u32 as i32
                        &&& x.media_rate_integer == be16_at(b, i + 8) as u16 as i16
                        &&& x.media_rate_fraction == be16_at(b, i + 10) as u16 as i16
                    }
                    &&& final(reader).cursor() == i + 12
                }
                &&& i + 12 > b.len() ==> (r matches Err(e) && e matches Mp4Error::Truncated { .. })
            }),
    {
        EditListEntry::parse(reader)
    }
}

/// stts
#[derive(Debug, Clone, Copy, PartialEq, Eq, Structural)]
pub struct DecodingTimeToSampleBox {
    pub entry_count: u32,
}

#[derive(Debug, Clone, Copy, PartialEq, Eq, Structural)]
pub struct DecodingTimeToSampleEntry {
    pub sample_count: u32,
    pub sample_delta: u32,
}

impl DecodingTimeToSampleEntry {
    /// Decode one decoding-time-to-sample entry.
    pub fn parse(reader: &mut Reader) -> (r: Result<DecodingTimeToSampleEntry, Mp4Error>)
        requires
            old(reader).wf(),
        ensures
            final(reader).wf(),
            final(reader).bytes() == old(reader).bytes(),
            final(reader).cursor() >= old(reader).cursor(),
            ({
                let b = old(reader).bytes();
                let i = old(reader).cursor();
                &&& i + 8 <= b.len() ==> {
                    &&& r matches Ok(x) && x.sample_count == be32_at(b, i) && x.sample_delta
                        == be32_at(b, i + 4)
                    &&& final(reader).cursor() == i + 8
                }
                &&& i + 8 > b.len() ==> (r matches Err(e) && e matches Mp4Error::Truncated { .. })
            }),
    {
        let sample_count = reader.read_u32()?;
        let sample_delta = reader.read_u32()?;
        Ok(DecodingTimeToSampleEntry { sample_count, sample_delta })
    }
}

impl DecodingTimeToSampleBox {
    /// Decode the header: its entry count (version 0 only).  Entries are
    /// decoded on demand by [`Self::parse_entry`].
    pub fn parse_header(reader: &mut Reader) -> (r: Result<DecodingTimeToSampleBox, Mp4Error>)
        requires
            old(reader).wf(),
        ensures
            final(reader).wf(),
            final(reader).bytes() == old(reader).bytes(),
            final(reader).cursor() >= old(reader).cursor(),
            ({
                let b = old(reader).bytes();
                let i = old(reader).cursor();
                &&& i + 4 <= b.len() && b[i] == 1 ==> r == Err::<DecodingTimeToSampleBox, Mp4Error>(
                    Mp4Error::UnsupportedVersion { box_type: FOURCC_STTS, version: 1 },
                )
                &&& i + 4 <= b.len() && b[i] != 1 && i + 8 <= b.len() ==> {
                    &&& r matches Ok(x) && x.entry_count == be32_at(b, i + 4)
                    &&& final(reader).cursor() == i + 8
                }
                &&& (i + 4 > b.len() || (i + 4 <= b.len() && b[i] != 1 && i + 8 > b.len()))
                    ==> (r matches Err(e) && e matches Mp4Error::Truncated { .. })
                &&& r is Ok ==> i + 4 <= b.len() && b[i] != 1 && i + 8 <= b.len()
            }),
    {
        let full_box = FullBoxHeader::parse(reader)?;
        if full_box.version == 1 {
            return Err(Mp4Error::UnsupportedVersion { box_type: FOURCC_STTS, version: 1 });
        }
        let entry_count = reader.read_u32()?;
        Ok(DecodingTimeToSampleBox { entry_count })
    }

    /// Decode one entry of this table.
    pub fn parse_entry(&self, reader: &mut Reader) -> (r: Result<
        DecodingTimeToSampleEntry,
        Mp4Error,
    >)
        requires
            old(reader).wf(),
        ensures
            final(reader).wf(),
            final(reader).bytes() == old(reader).bytes(),
            final(reader).cursor() >= old(reader).cursor(),
            ({
                let b = old(reader).bytes();
                let i = old(reader).cursor();
                &&& i + 8 <= b.len() ==> {
                    &&& r matches Ok(x) && x.sample_count == be32_at(b, i) && x.sample_delta
                        == be32_at(b, i + 4)
                    &&& final(reader).cursor() == i + 8
                }
                &&& i + 8 > b.len() ==> (r matches Err(e) && e matches Mp4Error::Truncated { .. })
            }),
    {
        DecodingTimeToSampleEntry::parse(reader)
    }
}

/// stss
#[derive(Debug, Clone, Copy, PartialEq, Eq, Structural)]
pub struct SyncSampleBox {
    pub entry_count: u32,
}

impl SyncSampleBox {
    /// Decode the header: its entry count.
    pub fn parse_header(reader: &mut Reader) -> (r: Result<SyncSampleBox, Mp4Error>)
        requires
            old(reader).wf(),
        ensures
            final(reader).wf(),
            final(reader).bytes() == old(reader).bytes(),
            final(reader).cursor() >= old(reader).cursor(),
            ({
                let b = old(reader).bytes();
                let i = old(reader).cursor();
                &&& i + 8 <= b.len() ==> {
                    &&& r matches Ok(x) && x.entry_count == be32_at(b, i + 4)
                    &&& final(reader).cursor() == i + 8
                }
                &&& i + 8 > b.len() ==> (r matches Err(e) && e matches Mp4Error::Truncated { .. })
                &&& r is Ok ==> i + 8 <= b.len()
            }),
    {
        let _ = FullBoxHeader::parse(reader)?;
        let entry_count = reader.read_u32()?;
        Ok(SyncSampleBox { entry_count })
    }

    /// Skip this table's entries: four bytes per entry.
    pub fn skip_entries(&self, reader: &mut Reader) -> (r: Result<(), Mp4Error>)
        requires
            old(reader).wf(),
        ensures
            final(reader).wf(),
            final(reader).bytes() == old(reader).bytes(),
            final(reader).cursor() >= old(reader).cursor(),
            old(reader).cursor() + 4 * self.entry_count <= old(reader).bytes().len() ==> (r is Ok
                && final(reader).cursor() == old(reader).cursor() + 4 * self.entry_count),
            old(reader).cursor() + 4 * self.entry_count > old(reader).bytes().len() ==> (r
                matches Err(e) && e matches Mp4Error::Truncated { .. } && final(reader).cursor()
                == old(reader).cursor()),
    {
        reader.skip_bytes(4 * (self.entry_count as u64))
    }
}

/// ctts
#[derive(Debug, Clone, Copy, PartialEq, Eq, Structural)]
pub struct CompositionTimeToSampleBox {
    pub version: u8,
    pub entry_count: u32,
}

impl CompositionTimeToSampleBox {
    /// Decode the header: the box version and its entry count.
    pub fn parse_header(reader: &mut Reader) -> (r: Result<CompositionTimeToSampleBox, Mp4Error>)
        requires
            old(reader).wf(),
        ensures
            final(reader).wf(),
            final(reader).bytes() == old(reader).bytes(),
            final(reader).cursor() >= old(reader).cursor(),
            ({
                let b = old(reader).bytes();
                let i = old(reader).cursor();
                &&& i + 8 <= b.len() ==> {
                    &&& r matches Ok(x) && x.version == b[i] && x.entry_count == be32_at(b, i + 4)
                    &&& final(reader).cursor() == i + 8
                }
                &&& i + 8 > b.len() ==> (r matches Err(e) && e matches Mp4Error::Truncated { .. })
                &&& r is Ok ==> i + 8 <= b.len()
            }),
    {
        let full_box = FullBoxHeader::parse(reader)?;
        let entry_count = reader.read_u32()?;
        Ok(CompositionTimeToSampleBox { version: full_box.version, entry_count })
    }
}

/// stsc
#[derive(Debug, Clone, Copy, PartialEq, Eq, Structural)]
pub struct SampleToChunkBox {
    pub entry_count: u32,
}

impl SampleToChunkBox {
    /// Decode the header: its entry count.
    pub fn parse_header(reader: &mut Reader) -> (r: Result<SampleToChunkBox, Mp4Error>)
        requires
            old(reader).wf(),
        ensures
            final(reader).wf(),
            final(reader).bytes() == old(reader).bytes(),
            final(reader).cursor() >= old(reader).cursor(),
            ({
                let b = old(reader).bytes();
                let i = old(reader).cursor();
                &&& i + 8 <= b.len() ==> {
                    &&& r matches Ok(x) && x.entry_count == be32_at(b, i + 4)
                    &&& final(reader).cursor() == i + 8
                }
                &&& i + 8 > b.len() ==> (r matches Err(e) && e matches Mp4Error::Truncated { .. })
                &&& r is Ok ==> i + 8 <= b.len()
            }),
    {
        let _ = FullBoxHeader::parse(reader)?;
        let entry_count = reader.read_u32()?;
        Ok(SampleToChunkBox { entry_count })
    }
}

/// stsz
#[derive(Debug, Clone, Copy, PartialEq, Eq, Structural)]
pub struct SampleSizeBox {
    pub sample_size: u32,
    pub sample_count: u32,
}

impl SampleSizeBox {
    /// Decode the header: the constant sample size (zero when sizes vary)
    /// and the sample count.
    pub fn parse_header(reader: &mut Reader) -> (r: Result<SampleSizeBox, Mp4Error>)
        requires
            old(reader).wf(),
        ensures
            final(reader).wf(),
            final(reader).bytes() == old(reader).bytes(),
            final(reader).cursor() >= old(reader).cursor(),
            ({
                let b = old(reader).bytes();
                let i = old(reader).cursor();
                &&& i + 12 <= b.len() ==> {
                    &&& r matches Ok(x) && x.sample_size == be32_at(b, i + 4) && x.sample_count
                        == be32_at(b, i + 8)
                    &&& final(reader).cursor() == i + 12
                }
                &&& i + 12 > b.len() ==> (r matches Err(e) && e matches Mp4Error::Truncated { .. })
                &&& r is Ok ==> i + 12 <= b.len()
            }),
    {
        let _ = FullBoxHeader::parse(reader)?;
        let sample_size = reader.read_u32()?;
        let sample_count = reader.read_u32()?;
        Ok(SampleSizeBox { sample_size, sample_count })
    }
}

/// stco
#[derive(Debug, Clone, Copy, PartialEq, Eq, Structural)]
pub struct ChunkOffsetBox {
    pub entry_count: u32,
}

impl ChunkOffsetBox {
    /// Decode the header: its entry count.
    pub fn parse_header(reader: &mut Reader) -> (r: Result<ChunkOffsetBox, Mp4Error>)
        requires
            old(reader).wf(),
        ensures
            final(reader).wf(),
            final(reader).bytes() == old(reader).bytes(),
            final(reader).cursor() >= old(reader).cursor(),
            ({
                let b = old(reader).bytes();
                let i = old(reader).cursor();
                &&& i + 8 <= b.len() ==> {
                    &&& r matches Ok(x) && x.entry_count == be32_at(b, i + 4)
                    &&& final(reader).cursor() == i + 8
                }
                &&& i + 8 > b.len() ==> (r matches Err(e) && e matches Mp4Error::Truncated { .. })
                &&& r is Ok ==> i + 8 <= b.len()
            }),
    {
        let _ = FullBoxHeader::parse(reader)?;
        let entry_count = reader.read_u32()?;
        Ok(ChunkOffsetBox { entry_count })
    }
}

/// sgpd
#[derive(Debug, Clone, Copy, PartialEq, Eq, Structural)]
pub struct SampleGroupDescriptionBox {}

impl SampleGroupDescriptionBox {
    /// This box's interior is not modelled; nothing is consumed and the
    /// driver skips the payload.
    pub fn parse_header(_reader: &mut Reader) -> (r: SampleGroupDescriptionBox)
        ensures
            *final(_reader) == *old(_reader),
    {
        SampleGroupDescriptionBox {  }
    }
}

/// sbgp
#[derive(Debug, Clone, Copy, PartialEq, Eq, Structural)]
pub struct SampleToGroupBox {}

impl SampleToGroupBox {
    /// This box's interior is not modelled; nothing is consumed and the
    /// driver skips the payload.
    pub fn parse_header(_reader: &mut Reader) -> (r: SampleToGroupBox)
        ensures
            *final(_reader) == *old(_reader),
    {
        SampleToGroupBox {  }
    }
}

/// sdtp
#[derive(Debug, Clone, Copy, PartialEq, Eq, Structural)]
pub struct SampleDependencyTypeBox {}

impl SampleDependencyTypeBox {
    /// This box's interior is not modelled; nothing is consumed and the
    /// driver skips the payload.
    pub fn parse_header(_reader: &mut Reader) -> (r: SampleDependencyTypeBox)
        ensures
            *final(_reader) == *old(_reader),
    {
        SampleDependencyTypeBox {  }
    }
}

/// trex
#[derive(Debug, Clone, Copy, PartialEq, Eq, Structural)]
pub struct TrackExtendsBox {
    pub track_id: u32,
    pub default_sample_description_index: u32,
    pub default_sample_duration: u32,
    pub default_sample_size: u32,
    pub default_sample_flags: u32,
}

impl TrackExtendsBox {
    /// Decode a track-extends payload: the per-track fragment defaults.
    pub fn parse(reader: &mut Reader, _inner_size: u64) -> (r: Result<TrackExtendsBox, Mp4Error>)
        requires
            old(reader).wf(),
        ensures
            final(reader).wf(),
            final(reader).bytes() == old(reader).bytes(),
            final(reader).cursor() >= old(reader).cursor(),
            ({
                let b = old(reader).bytes();
                let i = old(reader).cursor();
                &&& i + 24 <= b.len() ==> {
                    &&& r matches Ok(x) && {
                        &&& x.track_id == be32_at(b, i + 4)
                        &&& x.default_sample_description_index == be32_at(b, i + 8)
                        &&& x.default_sample_duration == be32_at(b, i + 12)
                        &&& x.default_sample_size == be32_at(b, i + 16)
                        &&& x.default_sample_flags == be32_at(b, i + 20)
                    }
                    &&& final(reader).cursor() == i + 24
                }
                &&& i + 24 > b.len() ==> (r matches Err(e) && e matches Mp4Error::Truncated { .. })
                &&& r is Ok ==> i + 24 <= b.len()
            }),
    {
        let _ = FullBoxHeader::parse(reader)?;
        let track_id = reader.read_u32()?;
        let default_sample_description_index = reader.read_u32()?;
        let default_sample_duration = reader.read_u32()?;
        let default_sample_size = reader.read_u32()?;
        let default_sample_flags = reader.read_u32()?;
        Ok(TrackExtendsBox {
            track_id,
            default_sample_description_index,
            default_sample_duration,
            default_sample_size,
            default_sample_flags,
        })
    }
}

/// mfhd
#[derive(Debug, Clone, Copy, PartialEq, Eq, Structural)]
pub struct MovieFragmentHeaderBox {
    pub sequence_number: u32,
}

impl MovieFragmentHeaderBox {
    /// Decode a movie-fragment-header payload: the fragment sequence
    /// number.
    pub fn parse(
        reader: &mut Reader,
        _inner_size: u64,
    ) -> (r: Result<MovieFragmentHeaderBox, Mp4Error>)
        requires
            old(reader).wf(),
        ensures
            final(reader).wf(),
            final(reader).bytes() == old(reader).bytes(),
            final(reader).cursor() >= old(reader).cursor(),
            ({
                let b = old(reader).bytes();
                let i = old(reader).cursor();
                &&& i + 8 <= b.len() ==> {
                    &&& r matches Ok(x) && x.sequence_number == be32_at(b, i + 4)
                    &&& final(reader).cursor() == i + 8
                }
                &&& i + 8 > b.len() ==> (r matches Err(e) && e matches Mp4Error::Truncated { .. })
                &&& r is Ok ==> i + 8 <= b.len()
            }),
    {
        let _ = FullBoxHeader::parse(reader)?;
        let sequence_number = reader.read_u32()?;
        Ok(MovieFragmentHeaderBox { sequence_number })
    }
}

/// stsd
#[derive(Debug, Clone, Copy, PartialEq, Eq, Structural)]
pub struct SampleDescriptionBox {
    pub entry_count: u32,
}

impl SampleDescriptionBox {
    /// Decode the header: its entry count.  The entries are pseudo-boxes
    /// and are decoded by [`Self::parse_entry`].
    pub fn parse_header(
        reader: &mut Reader,
        _inner_size: u64,
    ) -> (r: Result<SampleDescriptionBox, Mp4Error>)
        requires
            old(reader).wf(),
        ensures
            final(reader).wf(),
            final(reader).bytes() == old(reader).bytes(),
            final(reader).cursor() >= old(reader).cursor(),
            ({
                let b = old(reader).bytes();
                let i = old(reader).cursor();
                &&& i + 8 <= b.len() ==> {
                    &&& r matches Ok(x) && x.entry_count == be32_at(b, i + 4)
                    &&& final(reader).cursor() == i + 8
                }
                &&& i + 8 > b.len() ==> (r matches Err(e) && e matches Mp4Error::Truncated { .. })
                &&& r is Ok ==> i + 8 <= b.len()
            }),
    {
        let _ = FullBoxHeader::parse(reader)?;
        let entry_count = reader.read_u32()?;
        Ok(SampleDescriptionBox { entry_count })
    }
}


/// A decoded sample-description entry: a pseudo-box reachable only from
/// inside an stsd box.  Its interior does not follow the full-box
/// convention.
#[derive(Debug, Clone, PartialEq, Eq)]
pub enum SampleEntry {
    Mp4a(Mp4aAudioSampleEntry),
    Avc1(Avc1VisualSampleEntry),
}

impl SampleEntry {
    /// A human-readable name for the entry kind.
    pub fn name(&self) -> (r: &'static str)
        ensures
            self is Mp4a ==> r@ == "AudioSampleEntry(mp4a)"@,
            self is Avc1 ==> r@ == "VisualSampleEntry(avc1)"@,
    {
        match self {
            SampleEntry::Mp4a(_) => "AudioSampleEntry(mp4a)",
            SampleEntry::Avc1(_) => "VisualSampleEntry(avc1)",
        }
    }
}

/// mp4a
#[derive(Debug, Clone, Copy, PartialEq, Eq, Structural)]
pub struct Mp4aAudioSampleEntry {
    pub data_reference_index: u16,
    pub channel_count: u16,
    pub sample_size: u16,
    pub sample_rate: Fixed1616,
}

impl Mp4aAudioSampleEntry {
    /// Decode an audio sample entry's interior: six reserved bytes and a
    /// data-reference index, then the audio fields.
    pub fn parse(reader: &mut Reader) -> (r: Result<Mp4aAudioSampleEntry, Mp4Error>)
        requires
            old(reader).wf(),
        ensures
            final(reader).wf(),
            final(reader).bytes() == old(reader).bytes(),
            final(reader).cursor() >= old(reader).cursor(),
            ({
                let b = old(reader).bytes();
                let i = old(reader).cursor();
                &&& i + 28 <= b.len() ==> {
                    &&& r matches Ok(x) && {
                        &&& x.data_reference_index == be16_at(b, i + 6)
                        &&& x.channel_count == be16_at(b, i + 16)
                        &&& x.sample_size == be16_at(b, i + 18)
                        &&& x.sample_rate.raw == be32_at(b, i + 24)
                    }
                    &&& final(reader).cursor() == i + 28
                }
                &&& i + 28 > b.len() ==> (r matches Err(e) && e matches Mp4Error::Truncated { .. })
                &&& r is Ok ==> i + 28 <= b.len()
            }),
    {
        reader.skip_bytes(6)?;
        let data_reference_index = reader.read_u16()?;
        reader.skip_bytes(8)?;
        let channel_count = reader.read_u16()?;
        let sample_size = reader.read_u16()?;
        reader.skip_bytes(2)?;
        reader.skip_bytes(2)?;
        let sample_rate = reader.read_fixed_point_16_16()?;
        Ok(Mp4aAudioSampleEntry { data_reference_index, channel_count, sample_size, sample_rate })
    }
}

/// avc1
#[derive(Debug, Clone, PartialEq, Eq)]
pub struct Avc1VisualSampleEntry {
    pub data_reference_index: u16,
    pub width: u16,
    pub height: u16,
    pub hor_resolution: Fixed1616,
    pub ver_resolution: Fixed1616,
    pub frame_count: u16,
    pub compressor_name: String,
    pub depth: u16,
}

impl Avc1VisualSampleEntry {
    /// Decode a visual sample entry's interior: six reserved bytes and a
    /// data-reference index, then the visual fields and the 32-byte
    /// compressor name.
    pub fn parse(reader: &mut Reader) -> (r: Result<Avc1VisualSampleEntry, Mp4Error>)
        requires
            old(reader).wf(),
        ensures
            final(reader).wf(),
            final(reader).bytes() == old(reader).bytes(),
            final(reader).cursor() >= old(reader).cursor(),
            ({
                let b = old(reader).bytes();
                let i = old(reader).cursor();
                &&& r matches Ok(x) ==> {
                    &&& i + 78 <= b.len()
                    &&& x.data_reference_index == be16_at(b, i + 6)
                    &&& x.width == be16_at(b, i + 24)
                    &&& x.height == be16_at(b, i + 26)
                    &&& x.hor_resolution.raw == be32_at(b, i + 28)
                    &&& x.ver_resolution.raw == be32_at(b, i + 32)
                    &&& x.frame_count == be16_at(b, i + 40)
                    &&& valid_utf8(b.subrange(i + 42, i + 74))
                    &&& x.compressor_name@ == decode_utf8(b.subrange(i + 42, i + 74))
                    &&& x.depth == be16_at(b, i + 74)
                    &&& final(reader).cursor() == i + 78
                }
                &&& i + 78 <= b.len() && valid_utf8(b.subrange(i + 42, i + 74)) ==> r is Ok
                &&& i + 78 > b.len() ==> (r matches Err(e) && (e matches Mp4Error::Truncated { .. }
                    || e matches Mp4Error::InvalidString { .. }))
            }),
    {
        reader.skip_bytes(6)?;
        let data_reference_index = reader.read_u16()?;
        reader.skip_bytes(2)?;
        reader.skip_bytes(2)?;
        reader.skip_bytes(12)?;
        let width = reader.read_u16()?;
        let height = reader.read_u16()?;
        let hor_resolution = reader.read_fixed_point_16_16()?;
        let ver_resolution = reader.read_fixed_point_16_16()?;
        reader.skip_bytes(4)?;
        let frame_count = reader.read_u16()?;
        let compressor_name = reader.read_string(32)?;
        let depth = reader.read_u16()?;
        reader.skip_bytes(2)?;
        Ok(Avc1VisualSampleEntry {
            data_reference_index,
            width,
            height,
            hor_resolution,
            ver_resolution,
            frame_count,
            compressor_name,
            depth,
        })
    }
}


impl SampleDescriptionBox {
    /// Decode one sample-description entry: a pseudo-box whose tag selects
    /// the interior grammar.  Only the audio (`mp4a`) and visual (`avc1`)
    /// entries are modelled; any other tag is a distinct unsupported
    /// condition.
    pub fn parse_entry(&self, reader: &mut Reader) -> (r: Result<SampleEntry, Mp4Error>)
        requires
            old(reader).wf(),
        ensures
            final(reader).wf(),
            final(reader).bytes() == old(reader).bytes(),
            final(reader).cursor() >= old(reader).cursor(),
            r is Ok ==> final(reader).cursor() >= old(reader).cursor() + 8,
            ({
                let b = old(reader).bytes();
                let i = old(reader).cursor();
                let s32 = be32_at(b, i);
                let tag = be32_at(b, i + 4);
                &&& i + 8 <= b.len() && s32 >= 8 ==> {
                    &&& tag != FOURCC_MP4A && tag != FOURCC_AVC1 ==> (r matches Err(e)
                        && e matches Mp4Error::UnsupportedSampleEntry { entry_type, size }
                        && entry_type == tag as u32 && size == s32 as u64)
                    &&& tag == FOURCC_MP4A ==> {
                        &&& i + 36 <= b.len() ==> (r matches Ok(se)
                            && se matches SampleEntry::Mp4a(x) && x.data_reference_index
                            == be16_at(b, i + 14) && x.channel_count == be16_at(b, i + 24)
                            && x.sample_size == be16_at(b, i + 26) && x.sample_rate.raw
                            == be32_at(b, i + 32) && final(reader).cursor() == i + 36)
                        &&& i + 36 > b.len() ==> (r matches Err(e)
                            && e matches Mp4Error::Truncated { .. })
                    }
                    &&& tag == FOURCC_AVC1 ==> {
                        &&& i + 86 <= b.len() && valid_utf8(b.subrange(i + 50, i + 82)) ==> (r
                            matches Ok(se) && se matches SampleEntry::Avc1(x)
                            && x.data_reference_index == be16_at(b, i + 14) && x.width == be16_at(
                            b,
                            i + 32,
                        ) && x.height == be16_at(b, i + 34) && x.hor_resolution.raw == be32_at(
                            b,
                            i + 36,
                        ) && x.ver_resolution.raw == be32_at(b, i + 40) && x.frame_count
                            == be16_at(b, i + 48) && x.compressor_name@ == decode_utf8(
                            b.subrange(i + 50, i + 82),
                        ) && x.depth == be16_at(b, i + 82) && final(reader).cursor() == i + 86)
                        &&& i + 86 > b.len() ==> (r matches Err(e) && (e
                            matches Mp4Error::Truncated { .. } || e
                            matches Mp4Error::InvalidString { .. }))
                    }
                }
                &&& i + 8 <= b.len() && s32 >= 8 ==> (r matches Ok(se2) ==> ((se2 is Mp4a
                    ==> tag == FOURCC_MP4A && i + 36 <= b.len()) && (se2 is Avc1 ==> tag
                    == FOURCC_AVC1 && i + 86 <= b.len() && valid_utf8(
                    b.subrange(i + 50, i + 82),
                ))))
            }),
    {
        let header = BoxHeader::parse(reader)?;
        if header.box_type == FOURCC_MP4A {
            let x = Mp4aAudioSampleEntry::parse(reader)?;
            Ok(SampleEntry::Mp4a(x))
        } else if header.box_type == FOURCC_AVC1 {
            let x = Avc1VisualSampleEntry::parse(reader)?;
            Ok(SampleEntry::Avc1(x))
        } else {
            Err(Mp4Error::UnsupportedSampleEntry {
                entry_type: header.box_type,
                size: header.box_size,
            })
        }
    }
}

/// Container box types: their whole payload is a run of child boxes, which
/// the driver walks by recursion.
pub open spec fn is_container_type(tag: u32) -> bool {
    ||| tag == FOURCC_MOOV
    ||| tag == FOURCC_TRAK
    ||| tag == FOURCC_EDTS
    ||| tag == FOURCC_MDIA
    ||| tag == FOURCC_MINF
    ||| tag == FOURCC_DINF
    ||| tag == FOURCC_STBL
    ||| tag == FOURCC_MVEX
    ||| tag == FOURCC_MOOF
    ||| tag == FOURCC_TRAF
    ||| tag == FOURCC_MFRA
    ||| tag == FOURCC_UDTA
    ||| tag == FOURCC_META
}

/// Box types with a known payload grammar.
pub open spec fn known_box_type(tag: u32) -> bool {
    ||| is_container_type(tag)
    ||| tag == FOURCC_FTYP
    ||| tag == FOURCC_FREE
    ||| tag == FOURCC_MDAT
    ||| tag == FOURCC_MVHD
    ||| tag == FOURCC_TKHD
    ||| tag == FOURCC_ELST
    ||| tag == FOURCC_MDHD
    ||| tag == FOURCC_HDLR
    ||| tag == FOURCC_VMHD
    ||| tag == FOURCC_SMHD
    ||| tag == FOURCC_DREF
    ||| tag == FOURCC_STSD
    ||| tag == FOURCC_STTS
    ||| tag == FOURCC_STSS
    ||| tag == FOURCC_CTTS
    ||| tag == FOURCC_STSC
    ||| tag == FOURCC_STSZ
    ||| tag == FOURCC_STCO
    ||| tag == FOURCC_SGPD
    ||| tag == FOURCC_SBGP
    ||| tag == FOURCC_SDTP
    ||| tag == FOURCC_TREX
    ||| tag == FOURCC_MFHD
    ||| tag == FOURCC_ILST
}


/// How many bytes the box header starting at `p` occupies: 16 when the
/// size field announces a 64-bit extension, else 8.
pub open spec fn spec_header_size(b: Seq<u8>, p: int) -> int {
    if be32_at(b, p) == 1 {
        16
    } else {
        8
    }
}

/// The declared size of the box starting at `p`, after the size extension
/// has been applied.
pub open spec fn spec_box_size(b: Seq<u8>, p: int) -> int {
    if be32_at(b, p) == 1 {
        be64_at(b, p + 8)
    } else {
        be32_at(b, p)
    }
}

/// The decoded value produced for tag `tag` from the payload of length
/// `inner` that begins at `i` agrees exactly with the bytes: the right
/// variant, every field equal to its big-endian source, and the byte
/// conditions under which the parse can have succeeded.
pub open spec fn box_data_matches(
    b: Seq<u8>,
    i: int,
    tag: u32,
    inner: u64,
    data: Mp4Box,
) -> bool {
    &&& is_container_type(tag) ==> data is Container
    &&& tag == FOURCC_ILST ==> data is QuickTimeMetadataItemList
    &&& tag == FOURCC_FREE ==> data is Free
    &&& tag == FOURCC_MDAT ==> data is Mdat
    &&& tag == FOURCC_SGPD ==> data is Sgpd
    &&& tag == FOURCC_SBGP ==> data is Sbgp
    &&& tag == FOURCC_SDTP ==> data is Sdtp
    &&& tag == FOURCC_FTYP ==> (data matches Mp4Box::Ftyp(x) && {
        let n_brands = (inner - 8) / 4;
        &&& inner >= 8
        &&& i + 8 + 4 * n_brands <= b.len()
        &&& valid_utf8(b.subrange(i, i + 4))
        &&& x.major_brand@ == decode_utf8(b.subrange(i, i + 4))
        &&& x.minor_version == be32_at(b, i + 4)
        &&& x.compatible_brands@.len() == n_brands
        &&& forall|k: int|
            0 <= k < n_brands ==> #[trigger] brand_slot_ok(b, i + 8, x.compatible_brands@, k)
    })
    &&& tag == FOURCC_MVHD ==> (data matches Mp4Box::Mvhd(x) && {
        &&& i + 100 <= b.len() && b[i] != 1
        &&& x.creation_time == be32_at(b, i + 4)
        &&& x.modification_time == be32_at(b, i + 8)
        &&& x.timescale == be32_at(b, i + 12)
        &&& x.duration == be32_at(b, i + 16)
        &&& x.rate.raw == be32_at(b, i + 20)
        &&& x.volume.raw == be16_at(b, i + 24)
        &&& x.matrix@.len() == 9
        &&& forall|j: int| 0 <= j < 9 ==> #[trigger] matrix_slot_ok(b, i + 36, x.matrix@, j)
        &&& x.next_track_id == be32_at(b, i + 96)
    })
    &&& tag == FOURCC_TKHD ==> (data matches Mp4Box::Tkhd(x) && {
        &&& i + 84 <= b.len() && b[i] != 1
        &&& x.track_enabled == ((b[i + 3] & 1) != 0)
        &&& x.track_in_movie == ((b[i + 3] & 2) != 0)
        &&& x.track_in_preview == ((b[i + 3] & 4) != 0)
        &&& x.creation_time == be32_at(b, i + 4)
        &&& x.modification_time == be32_at(b, i + 8)
        &&& x.track_id == be32_at(b, i + 12)
        &&& x.duration == be32_at(b, i + 20)
        &&& x.layer == be16_at(b, i + 32)
        &&& x.alternate_group == be16_at(b, i + 34)
        &&& x.volume.raw == be16_at(b, i + 36)
        &&& x.matrix@.len() == 9
        &&& forall|j: int| 0 <= j < 9 ==> #[trigger] matrix_slot_ok(b, i + 40, x.matrix@, j)
        &&& x.width == be32_at(b, i + 76)
        &&& x.height == be32_at(b, i + 80)
    })
    &&& tag == FOURCC_MDHD ==> (data matches Mp4Box::Mdhd(x) && {
        &&& i + 24 <= b.len() && b[i] != 1
        &&& x.creation_time == be32_at(b, i + 4)
        &&& x.modification_time == be32_at(b, i + 8)
        &&& x.timescale == be32_at(b, i + 12)
        &&& x.duration == be32_at(b, i + 16)
        &&& x.language@ == language_chars(be16_at(b, i + 20) as u16)
    })
    &&& tag == FOURCC_HDLR ==> (data matches Mp4Box::Hdlr(x) && {
        &&& inner >= 24
        &&& i + inner <= b.len()
        &&& valid_utf8(b.subrange(i + 8, i + 12))
        &&& x.handler_type@ == decode_utf8(b.subrange(i + 8, i + 12))
        &&& valid_utf8(b.subrange(i + 24, i + inner))
        &&& x.name@ == decode_utf8(b.subrange(i + 24, i + inner))
    })
    &&& tag == FOURCC_VMHD ==> (data matches Mp4Box::Vmhd(x) && i + 12 <= b.len()
        && x.graphicsmode == be16_at(b, i + 4) && x.opcolor@ == b.subrange(i + 6, i + 12))
    &&& tag == FOURCC_SMHD ==> (data matches Mp4Box::Smhd(x) && i + 8 <= b.len()
        && x.balance.raw == be16_at(b, i + 4))
    &&& tag == FOURCC_DREF ==> (data matches Mp4Box::Dref(x) && i + 8 <= b.len()
        && x.entry_count == be32_at(b, i + 4))
    &&& tag == FOURCC_STSD ==> (data matches Mp4Box::Stsd(x) && i + 8 <= b.len()
        && x.entry_count == be32_at(b, i + 4))
    &&& tag == FOURCC_ELST ==> (data matches Mp4Box::Elst(x) && i + 8 <= b.len() && b[i] != 1
        && x.entry_count == be32_at(b, i + 4))
    &&& tag == FOURCC_STTS ==> (data matches Mp4Box::Stts(x) && i + 8 <= b.len() && b[i] != 1
        && x.entry_count == be32_at(b, i + 4))
    &&& tag == FOURCC_STSS ==> (data matches Mp4Box::Stss(x) && i + 8 <= b.len()
        && x.entry_count == be32_at(b, i + 4))
    &&& tag == FOURCC_CTTS ==> (data matches Mp4Box::Ctts(x) && i + 8 <= b.len() && x.version
        == b[i] && x.entry_count == be32_at(b, i + 4))
    &&& tag == FOURCC_STSC ==> (data matches Mp4Box::Stsc(x) && i + 8 <= b.len()
        && x.entry_count == be32_at(b, i + 4))
    &&& tag == FOURCC_STSZ ==> (data matches Mp4Box::Stsz(x) && i + 12 <= b.len()
        && x.sample_size == be32_at(b, i + 4) && x.sample_count == be32_at(b, i + 8))
    &&& tag == FOURCC_STCO ==> (data matches Mp4Box::Stco(x) && i + 8 <= b.len()
        && x.entry_count == be32_at(b, i + 4))
    &&& tag == FOURCC_TREX ==> (data matches Mp4Box::Trex(x) && {
        &&& i + 24 <= b.len()
        &&& x.track_id == be32_at(b, i + 4)
        &&& x.default_sample_description_index == be32_at(b, i + 8)
        &&& x.default_sample_duration == be32_at(b, i + 12)
        &&& x.default_sample_size == be32_at(b, i + 16)
        &&& x.default_sample_flags == be32_at(b, i + 20)
    })
    &&& tag == FOURCC_MFHD ==> (data matches Mp4Box::Mfhd(x) && i + 8 <= b.len()
        && x.sequence_number == be32_at(b, i + 4))
}

/// One decoded box: a named container, a leaf with its decoded fields, or
/// one of the two structures whose entries the driver decodes itself.
#[derive(Debug, Clone, PartialEq, Eq)]
pub enum Mp4Box {
    QuickTimeMetadataItemList(MetadataItemList),
    Ftyp(FileTypeBox),
    Free,
    Mdat,
    Container(&'static str),
    Mvhd(MovieHeaderBox),
    Tkhd(TrackHeaderBox),
    Elst(EditListBox),
    Mdhd(MediaHeaderBox),
    Hdlr(HandlerReferenceBox),
    Vmhd(VideoMediaHandler),
    Smhd(SoundMediaHandler),
    Dref(DataReferenceBox),
    Stsd(SampleDescriptionBox),
    Stts(DecodingTimeToSampleBox),
    Stss(SyncSampleBox),
    Ctts(CompositionTimeToSampleBox),
    Stsc(SampleToChunkBox),
    Stsz(SampleSizeBox),
    Stco(ChunkOffsetBox),
    Sgpd(SampleGroupDescriptionBox),
    Sbgp(SampleToGroupBox),
    Sdtp(SampleDependencyTypeBox),
    Trex(TrackExtendsBox),
    Mfhd(MovieFragmentHeaderBox),
}

impl Mp4Box {
    /// Dispatch on the type tag and decode the payload that begins at the
    /// cursor.  Returns `Ok(None)` for a tag with no known mapping, leaving
    /// the cursor where it was: the caller's unknown-type policy decides
    /// what happens next.  Containers consume nothing here (the driver
    /// recurses over their range), except the meta box, whose payload opens
    /// with a full-box header.
    pub fn parse_contents(
        reader: &mut Reader,
        box_type: u32,
        inner_size: u64,
    ) -> (r: Result<Option<Mp4Box>, Mp4Error>)
        requires
            old(reader).wf(),
        ensures
            final(reader).wf(),
            final(reader).bytes() == old(reader).bytes(),
            final(reader).cursor() >= old(reader).cursor(),
            !known_box_type(box_type) ==> r == Ok::<Option<Mp4Box>, Mp4Error>(None)
                && final(reader).cursor() == old(reader).cursor(),
            r matches Ok(Some(bx)) ==> known_box_type(box_type),
            r matches Ok(None::<Mp4Box>) ==> !known_box_type(box_type) && final(reader).cursor()
                == old(reader).cursor(),
            is_container_type(box_type) && box_type != FOURCC_META ==> (r matches Ok(Some(bx))
                && bx is Container && final(reader).cursor() == old(reader).cursor()),
            box_type == FOURCC_META ==> {
                &&& old(reader).cursor() + 4 <= old(reader).bytes().len() ==> (r matches Ok(
                    Some(bx),
                ) && bx is Container && final(reader).cursor() == old(reader).cursor() + 4)
                &&& old(reader).cursor() + 4 > old(reader).bytes().len() ==> r is Err
            },
            box_type == FOURCC_ILST ==> (r matches Ok(Some(bx))
                && bx is QuickTimeMetadataItemList && final(reader).cursor() == old(
                reader,
            ).cursor()),
            r matches Ok(Some(bx7)) ==> box_data_matches(
                old(reader).bytes(),
                old(reader).cursor(),
                box_type,
                inner_size,
                bx7,
            ),
            ({
                let b = old(reader).bytes();
                let i = old(reader).cursor();
                let n_brands = (inner_size - 8) / 4;
                &&& box_type == FOURCC_FTYP && inner_size >= 8 && i + 8 + 4 * n_brands <= b.len()
                    && valid_utf8(b.subrange(i, i + 4)) && (forall|k: int|
                    0 <= k < n_brands ==> valid_utf8(#[trigger] brand_slot(b, i + 8, k))) ==> (r
                    matches Ok(Some(bx8)) && bx8 is Ftyp && final(reader).cursor() == i + 8 + 4
                    * n_brands)
                &&& box_type == FOURCC_HDLR && inner_size >= 24 && i + inner_size <= b.len()
                    && valid_utf8(b.subrange(i + 8, i + 12)) && valid_utf8(
                    b.subrange(i + 24, i + inner_size),
                ) ==> (r matches Ok(Some(bx9)) && bx9 is Hdlr && final(reader).cursor() == i
                    + inner_size)
            }),
            r matches Ok(Some(bx)) ==> {
                &&& box_type == FOURCC_FTYP ==> bx is Ftyp
                &&& box_type == FOURCC_FREE ==> bx is Free
                &&& box_type == FOURCC_MDAT ==> bx is Mdat
                &&& box_type == FOURCC_MVHD ==> bx is Mvhd
                &&& box_type == FOURCC_TKHD ==> bx is Tkhd
                &&& box_type == FOURCC_ELST ==> bx is Elst
                &&& box_type == FOURCC_MDHD ==> bx is Mdhd
                &&& box_type == FOURCC_HDLR ==> bx is Hdlr
                &&& box_type == FOURCC_VMHD ==> bx is Vmhd
                &&& box_type == FOURCC_SMHD ==> bx is Smhd
                &&& box_type == FOURCC_DREF ==> bx is Dref
                &&& box_type == FOURCC_STSD ==> bx is Stsd
                &&& box_type == FOURCC_STTS ==> bx is Stts
                &&& box_type == FOURCC_STSS ==> bx is Stss
                &&& box_type == FOURCC_CTTS ==> bx is Ctts
                &&& box_type == FOURCC_STSC ==> bx is Stsc
                &&& box_type == FOURCC_STSZ ==> bx is Stsz
                &&& box_type == FOURCC_STCO ==> bx is Stco
                &&& box_type == FOURCC_SGPD ==> bx is Sgpd
                &&& box_type == FOURCC_SBGP ==> bx is Sbgp
                &&& box_type == FOURCC_SDTP ==> bx is Sdtp
                &&& box_type == FOURCC_TREX ==> bx is Trex
                &&& box_type == FOURCC_MFHD ==> bx is Mfhd
                &&& is_container_type(box_type) ==> bx is Container
            },
            box_type == FOURCC_FREE ==> (r matches Ok(Some(bx2)) && bx2 is Free
                && final(reader).cursor() == old(reader).cursor()),
            box_type == FOURCC_MDAT && old(reader).cursor() + inner_size <= old(
                reader,
            ).bytes().len() ==> (r matches Ok(Some(bx3)) && bx3 is Mdat && final(reader).cursor()
                == old(reader).cursor() + inner_size),
            box_type == FOURCC_SGPD ==> (r matches Ok(Some(bx4)) && bx4 is Sgpd
                && final(reader).cursor() == old(reader).cursor()),
            box_type == FOURCC_SBGP ==> (r matches Ok(Some(bx5)) && bx5 is Sbgp
                && final(reader).cursor() == old(reader).cursor()),
            box_type == FOURCC_SDTP ==> (r matches Ok(Some(bx6)) && bx6 is Sdtp
                && final(reader).cursor() == old(reader).cursor()),
            ({
                let b = old(reader).bytes();
                let i = old(reader).cursor();
                &&& box_type == FOURCC_MVHD && i + 4 <= b.len() && b[i] != 1 && i + 100 <= b.len()
                    ==> (r matches Ok(Some(Mp4Box::Mvhd(x))) && {
                    &&& x.creation_time == be32_at(b, i + 4)
                    &&& x.modification_time == be32_at(b, i + 8)
                    &&& x.timescale == be32_at(b, i + 12)
                    &&& x.duration == be32_at(b, i + 16)
                    &&& x.rate.raw == be32_at(b, i + 20)
                    &&& x.volume.raw == be16_at(b, i + 24)
                    &&& x.next_track_id == be32_at(b, i + 96)
                    &&& final(reader).cursor() == i + 100
                })
                &&& box_type == FOURCC_TKHD && i + 4 <= b.len() && b[i] != 1 && i + 84 <= b.len()
                    ==> (r matches Ok(Some(Mp4Box::Tkhd(x))) && {
                    &&& x.track_enabled == ((b[i + 3] & 1) != 0)
                    &&& x.track_in_movie == ((b[i + 3] & 2) != 0)
                    &&& x.track_in_preview == ((b[i + 3] & 4) != 0)
                    &&& x.track_id == be32_at(b, i + 12)
                    &&& x.duration == be32_at(b, i + 20)
                    &&& x.layer == be16_at(b, i + 32)
                    &&& x.alternate_group == be16_at(b, i + 34)
                    &&& x.volume.raw == be16_at(b, i + 36)
                    &&& x.width == be32_at(b, i + 76)
                    &&& x.height == be32_at(b, i + 80)
                    &&& final(reader).cursor() == i + 84
                })
                &&& box_type == FOURCC_MDHD && i + 4 <= b.len() && b[i] != 1 && i + 24 <= b.len()
                    ==> (r matches Ok(Some(Mp4Box::Mdhd(x))) && {
                    &&& x.creation_time == be32_at(b, i + 4)
                    &&& x.modification_time == be32_at(b, i + 8)
                    &&& x.timescale == be32_at(b, i + 12)
                    &&& x.duration == be32_at(b, i + 16)
                    &&& x.language@ == language_chars(be16_at(b, i + 20) as u16)
                    &&& final(reader).cursor() == i + 24
                })
                &&& box_type == FOURCC_STSD && i + 8 <= b.len() ==> (r matches Ok(
                    Some(Mp4Box::Stsd(x)),
                ) && x.entry_count == be32_at(b, i + 4) && final(reader).cursor() == i + 8)
                &&& box_type == FOURCC_DREF && i + 8 <= b.len() ==> (r matches Ok(
                    Some(Mp4Box::Dref(x)),
                ) && x.entry_count == be32_at(b, i + 4) && final(reader).cursor() == i + 8)
                &&& box_type == FOURCC_STSS && i + 8 <= b.len() ==> (r matches Ok(
                    Some(Mp4Box::Stss(x)),
                ) && x.entry_count == be32_at(b, i + 4) && final(reader).cursor() == i + 8)
                &&& box_type == FOURCC_STSC && i + 8 <= b.len() ==> (r matches Ok(
                    Some(Mp4Box::Stsc(x)),
                ) && x.entry_count == be32_at(b, i + 4) && final(reader).cursor() == i + 8)
                &&& box_type == FOURCC_STCO && i + 8 <= b.len() ==> (r matches Ok(
                    Some(Mp4Box::Stco(x)),
                ) && x.entry_count == be32_at(b, i + 4) && final(reader).cursor() == i + 8)
                &&& box_type == FOURCC_CTTS && i + 8 <= b.len() ==> (r matches Ok(
                    Some(Mp4Box::Ctts(x)),
                ) && x.entry_count == be32_at(b, i + 4) && x.version == b[i]
                    && final(reader).cursor() == i + 8)
                &&& box_type == FOURCC_MFHD && i + 8 <= b.len() ==> (r matches Ok(
                    Some(Mp4Box::Mfhd(x)),
                ) && x.sequence_number == be32_at(b, i + 4) && final(reader).cursor() == i + 8)
                &&& box_type == FOURCC_STSZ && i + 12 <= b.len() ==> (r matches Ok(
                    Some(Mp4Box::Stsz(x)),
                ) && x.sample_size == be32_at(b, i + 4) && x.sample_count == be32_at(b, i + 8)
                    && final(reader).cursor() == i + 12)
                &&& box_type == FOURCC_ELST && i + 4 <= b.len() && b[i] != 1 && i + 8 <= b.len()
                    ==> (r matches Ok(Some(Mp4Box::Elst(x))) && x.entry_count == be32_at(b, i + 4)
                    && final(reader).cursor() == i + 8)
                &&& box_type == FOURCC_STTS && i + 4 <= b.len() && b[i] != 1 && i + 8 <= b.len()
                    ==> (r matches Ok(Some(Mp4Box::Stts(x))) && x.entry_count == be32_at(b, i + 4)
                    && final(reader).cursor() == i + 8)
                &&& box_type == FOURCC_TREX && i + 24 <= b.len() ==> (r matches Ok(
                    Some(Mp4Box::Trex(x)),
                ) && {
                    &&& x.track_id == be32_at(b, i + 4)
                    &&& x.default_sample_description_index == be32_at(b, i + 8)
                    &&& x.default_sample_duration == be32_at(b, i + 12)
                    &&& x.default_sample_size == be32_at(b, i + 16)
                    &&& x.default_sample_flags == be32_at(b, i + 20)
                    &&& final(reader).cursor() == i + 24
                })
                &&& box_type == FOURCC_SMHD && i + 8 <= b.len() ==> (r matches Ok(
                    Some(Mp4Box::Smhd(x)),
                ) && x.balance.raw == be16_at(b, i + 4) && final(reader).cursor() == i + 8)
                &&& box_type == FOURCC_VMHD && i + 12 <= b.len() ==> (r matches Ok(
                    Some(Mp4Box::Vmhd(x)),
                ) && x.graphicsmode == be16_at(b, i + 4) && x.opcolor@ == b.subrange(i + 6, i + 12)
                    && final(reader).cursor() == i + 12)
            }),
    {
        if box_type == FOURCC_FTYP {
            let b = FileTypeBox::parse(reader, inner_size)?;
            Ok(Some(Mp4Box::Ftyp(b)))
        } else if box_type == FOURCC_FREE {
            FreeSpaceBox::parse(reader, inner_size);
            Ok(Some(Mp4Box::Free))
        } else if box_type == FOURCC_MDAT {
            MediaDataBox::parse(reader, inner_size)?;
            Ok(Some(Mp4Box::Mdat))
        } else if box_type == FOURCC_MOOV {
            Ok(Some(Mp4Box::Container("Movie Box (container)")))
        } else if box_type == FOURCC_MVHD {
            let b = MovieHeaderBox::parse(reader, inner_size)?;
            Ok(Some(Mp4Box::Mvhd(b)))
        } else if box_type == FOURCC_TRAK {
            Ok(Some(Mp4Box::Container("Track Box (container)")))
        } else if box_type == FOURCC_TKHD {
            let b = TrackHeaderBox::parse(reader, inner_size)?;
            Ok(Some(Mp4Box::Tkhd(b)))
        } else if box_type == FOURCC_EDTS {
            Ok(Some(Mp4Box::Container("Edit Box (container)")))
        } else if box_type == FOURCC_ELST {
            let b = EditListBox::parse_header(reader)?;
            Ok(Some(Mp4Box::Elst(b)))
        } else if box_type == FOURCC_MDIA {
            Ok(Some(Mp4Box::Container("Media Box (container)")))
        } else if box_type == FOURCC_MDHD {
            let b = MediaHeaderBox::parse(reader, inner_size)?;
            Ok(Some(Mp4Box::Mdhd(b)))
        } else if box_type == FOURCC_HDLR {
            let b = HandlerReferenceBox::parse(reader, inner_size)?;
            Ok(Some(Mp4Box::Hdlr(b)))
        } else if box_type == FOURCC_MINF {
            Ok(Some(Mp4Box::Container("Media Information Box (container)")))
        } else if box_type == FOURCC_VMHD {
            let b = VideoMediaHandler::parse(reader, inner_size)?;
            Ok(Some(Mp4Box::Vmhd(b)))
        } else if box_type == FOURCC_SMHD {
            let b = SoundMediaHandler::parse(reader, inner_size)?;
            Ok(Some(Mp4Box::Smhd(b)))
        } else if box_type == FOURCC_DINF {
            Ok(Some(Mp4Box::Container("Data Information Box (container)")))
        } else if box_type == FOURCC_DREF {
            let b = DataReferenceBox::parse(reader)?;
            Ok(Some(Mp4Box::Dref(b)))
        } else if box_type == FOURCC_STBL {
            Ok(Some(Mp4Box::Container("Sample Table Box (container)")))
        } else if box_type == FOURCC_STSD {
            let b = SampleDescriptionBox::parse_header(reader, inner_size)?;
            Ok(Some(Mp4Box::Stsd(b)))
        } else if box_type == FOURCC_STTS {
            let b = DecodingTimeToSampleBox::parse_header(reader)?;
            Ok(Some(Mp4Box::Stts(b)))
        } else if box_type == FOURCC_STSS {
            let b = SyncSampleBox::parse_header(reader)?;
            Ok(Some(Mp4Box::Stss(b)))
        } else if box_type == FOURCC_CTTS {
            let b = CompositionTimeToSampleBox::parse_header(reader)?;
            Ok(Some(Mp4Box::Ctts(b)))
        } else if box_type == FOURCC_STSC {
            let b = SampleToChunkBox::parse_header(reader)?;
            Ok(Some(Mp4Box::Stsc(b)))
        } else if box_type == FOURCC_STSZ {
            let b = SampleSizeBox::parse_header(reader)?;
            Ok(Some(Mp4Box::Stsz(b)))
        } else if box_type == FOURCC_STCO {
            let b = ChunkOffsetBox::parse_header(reader)?;
            Ok(Some(Mp4Box::Stco(b)))
        } else if box_type == FOURCC_SGPD {
            let b = SampleGroupDescriptionBox::parse_header(reader);
            Ok(Some(Mp4Box::Sgpd(b)))
        } else if box_type == FOURCC_SBGP {
            let b = SampleToGroupBox::parse_header(reader);
            Ok(Some(Mp4Box::Sbgp(b)))
        } else if box_type == FOURCC_SDTP {
            let b = SampleDependencyTypeBox::parse_header(reader);
            Ok(Some(Mp4Box::Sdtp(b)))
        } else if box_type == FOURCC_MVEX {
            Ok(Some(Mp4Box::Container("Movie Extends Box (container)")))
        } else if box_type == FOURCC_TREX {
            let b = TrackExtendsBox::parse(reader, inner_size)?;
            Ok(Some(Mp4Box::Trex(b)))
        } else if box_type == FOURCC_MOOF {
            Ok(Some(Mp4Box::Container("Movie Fragment Box (container)")))
        } else if box_type == FOURCC_MFHD {
            let b = MovieFragmentHeaderBox::parse(reader, inner_size)?;
            Ok(Some(Mp4Box::Mfhd(b)))
        } else if box_type == FOURCC_TRAF {
            Ok(Some(Mp4Box::Container("Track Fragment Box (container)")))
        } else if box_type == FOURCC_MFRA {
            Ok(Some(Mp4Box::Container("Movie Fragment Random Access Box (container)")))
        } else if box_type == FOURCC_UDTA {
            Ok(Some(Mp4Box::Container("User Data Box (container)")))
        } else if box_type == FOURCC_META {
            let _ = FullBoxHeader::parse(reader)?;
            Ok(Some(Mp4Box::Container("The Meta Box (container)")))
        } else if box_type == FOURCC_ILST {
            Ok(Some(Mp4Box::QuickTimeMetadataItemList(MetadataItemList)))
        } else {
            Ok(None)
        }
    }

    /// A human-readable name for the box kind.
    pub fn name(&self) -> (r: &'static str)
        ensures
            self matches Mp4Box::Container(t) ==> r == t,
            self is QuickTimeMetadataItemList ==> r@ == "QuickTime Metadata Item List"@,
            self is Ftyp ==> r@ == "File Type Box"@,
            self is Mdat ==> r@ == "Media Data Box"@,
            self is Free ==> r@ == "Free Space Box"@,
            self is Mvhd ==> r@ == "Movie Header Box"@,
            self is Tkhd ==> r@ == "Track Header Box"@,
            self is Elst ==> r@ == "Edit List Box"@,
            self is Mdhd ==> r@ == "Media Header Box"@,
            self is Hdlr ==> r@ == "Handler Reference Box"@,
            self is Vmhd ==> r@ == "Video Media Header"@,
            self is Smhd ==> r@ == "Sound Media Header"@,
            self is Dref ==> r@ == "Data Reference Box"@,
            self is Stsd ==> r@ == "Sample Description Box"@,
            self is Stts ==> r@ == "Decoding Time to Sample Box"@,
            self is Stss ==> r@ == "Sync Sample Box"@,
            self is Ctts ==> r@ == "Composition Time to Sample Box"@,
            self is Stsc ==> r@ == "Sample To Chunk Box"@,
            self is Stsz ==> r@ == "Sample Size Box"@,
            self is Stco ==> r@ == "Chunk Offset Box"@,
            self is Sgpd ==> r@ == "Sample Group Description Box"@,
            self is Sbgp ==> r@ == "Sample To Group Box"@,
            self is Sdtp ==> r@ == "Sample Dependency Type Box"@,
            self is Trex ==> r@ == "Track Extends Box"@,
            self is Mfhd ==> r@ == "Movie Fragment Header Box"@,
    {
        match self {
            Mp4Box::QuickTimeMetadataItemList(_) => "QuickTime Metadata Item List",
            Mp4Box::Container(title) => title,
            Mp4Box::Ftyp(_) => "File Type Box",
            Mp4Box::Mdat => "Media Data Box",
            Mp4Box::Free => "Free Space Box",
            Mp4Box::Mvhd(_) => "Movie Header Box",
            Mp4Box::Tkhd(_) => "Track Header Box",
            Mp4Box::Elst(_) => "Edit List Box",
            Mp4Box::Mdhd(_) => "Media Header Box",
            Mp4Box::Hdlr(_) => "Handler Reference Box",
            Mp4Box::Vmhd(_) => "Video Media Header",
            Mp4Box::Smhd(_) => "Sound Media Header",
            Mp4Box::Dref(_) => "Data Reference Box",
            Mp4Box::Stsd(_) => "Sample Description Box",
            Mp4Box::Stts(_) => "Decoding Time to Sample Box",
            Mp4Box::Stss(_) => "Sync Sample Box",
            Mp4Box::Ctts(_) => "Composition Time to Sample Box",
            Mp4Box::Stsc(_) => "Sample To Chunk Box",
            Mp4Box::Stsz(_) => "Sample Size Box",
            Mp4Box::Stco(_) => "Chunk Offset Box",
            Mp4Box::Sgpd(_) => "Sample Group Description Box",
            Mp4Box::Sbgp(_) => "Sample To Group Box",
            Mp4Box::Sdtp(_) => "Sample Dependency Type Box",
            Mp4Box::Trex(_) => "Track Extends Box",
            Mp4Box::Mfhd(_) => "Movie Fragment Header Box",
        }
    }
}


/// One displayable attribute value.  Rendering to text is the caller's
/// business; the decoder only hands out plain values.
#[derive(Debug, Clone, PartialEq, Eq)]
pub enum AttrValue {
    Unsigned(u64),
    Signed(i64),
    Flag(bool),
    Text(String),
    Bytes(Vec<u8>),
    Fixed16(Fixed1616),
    Fixed8(Fixed88),
    /// Seconds since the 1904 epoch; see [`crate::timestamp::as_timestamp`].
    Time(u32),
    UnsignedList(Vec<u32>),
    TextList(Vec<String>),
}

/// One (label, value) attribute pair for display.
#[derive(Debug, Clone, PartialEq, Eq)]
pub struct Attr {
    pub label: &'static str,
    pub value: AttrValue,
}

impl FileTypeBox {
    /// The (label, value) pairs a consumer may display for this box.
    pub fn print_attributes(&self) -> (r: Vec<Attr>)
        ensures
            r@.len() == 3,
            r@[0].value matches AttrValue::Text(s) && s@ == self.major_brand@,
            r@[1].value == AttrValue::Unsigned(self.minor_version as u64),
            r@[2].value matches AttrValue::TextList(bs) && bs@.len()
                == self.compatible_brands@.len(),
    {
        let mut v: Vec<Attr> = Vec::new();
        v.push(Attr { label: "Major brand", value: AttrValue::Text(self.major_brand.clone()) });
        v.push(
            Attr { label: "Minor version", value: AttrValue::Unsigned(self.minor_version as u64) },
        );
        v.push(
            Attr { label: "Compatible", value: AttrValue::TextList(self.compatible_brands.clone()) },
        );
        v
    }
}

impl MovieHeaderBox {
    /// The (label, value) pairs a consumer may display for this box.
    pub fn print_attributes(&self) -> (r: Vec<Attr>)
        ensures
            r@.len() == 8,
            r@[0].value == AttrValue::Time(self.creation_time),
            r@[1].value == AttrValue::Time(self.modification_time),
            r@[2].value == AttrValue::Unsigned(self.timescale as u64),
            r@[3].value == AttrValue::Unsigned(self.duration as u64),
            r@[4].value == AttrValue::Fixed16(self.rate),
            r@[5].value == AttrValue::Fixed8(self.volume),
            r@[6].value matches AttrValue::UnsignedList(m) && m@ == self.matrix@,
            r@[7].value == AttrValue::Unsigned(self.next_track_id as u64),
    {
        let mut v: Vec<Attr> = Vec::new();
        v.push(Attr { label: "Created", value: AttrValue::Time(self.creation_time) });
        v.push(Attr { label: "Modified", value: AttrValue::Time(self.modification_time) });
        v.push(Attr { label: "Timescale", value: AttrValue::Unsigned(self.timescale as u64) });
        v.push(Attr { label: "Duration", value: AttrValue::Unsigned(self.duration as u64) });
        v.push(Attr { label: "Rate", value: AttrValue::Fixed16(self.rate) });
        v.push(Attr { label: "Volume", value: AttrValue::Fixed8(self.volume) });
        v.push(Attr { label: "Matrix", value: AttrValue::UnsignedList(self.matrix.clone()) });
        v.push(
            Attr { label: "Next track ID", value: AttrValue::Unsigned(self.next_track_id as u64) },
        );
        v
    }
}

impl TrackHeaderBox {
    /// The (label, value) pairs a consumer may display for this box.
    pub fn print_attributes(&self) -> (r: Vec<Attr>)
        ensures
            r@.len() == 13,
            r@[0].value == AttrValue::Flag(self.track_enabled),
            r@[1].value == AttrValue::Flag(self.track_in_movie),
            r@[2].value == AttrValue::Flag(self.track_in_preview),
            r@[3].value == AttrValue::Time(self.creation_time),
            r@[4].value == AttrValue::Time(self.modification_time),
            r@[5].value == AttrValue::Unsigned(self.track_id as u64),
            r@[6].value == AttrValue::Unsigned(self.duration as u64),
            r@[7].value == AttrValue::Unsigned(self.layer as u64),
            r@[8].value == AttrValue::Unsigned(self.alternate_group as u64),
            r@[9].value == AttrValue::Fixed8(self.volume),
            r@[10].value matches AttrValue::UnsignedList(m) && m@ == self.matrix@,
            r@[11].value == AttrValue::Unsigned(self.width as u64),
            r@[12].value == AttrValue::Unsigned(self.height as u64),
    {
        let mut v: Vec<Attr> = Vec::new();
        v.push(Attr { label: "Enabled", value: AttrValue::Flag(self.track_enabled) });
        v.push(Attr { label: "In movie", value: AttrValue::Flag(self.track_in_movie) });
        v.push(Attr { label: "In preview", value: AttrValue::Flag(self.track_in_preview) });
        v.push(Attr { label: "Created", value: AttrValue::Time(self.creation_time) });
        v.push(Attr { label: "Modified", value: AttrValue::Time(self.modification_time) });
        v.push(Attr { label: "Track ID", value: AttrValue::Unsigned(self.track_id as u64) });
        v.push(Attr { label: "Duration", value: AttrValue::Unsigned(self.duration as u64) });
        v.push(Attr { label: "Layer", value: AttrValue::Unsigned(self.layer as u64) });
        v.push(
            Attr {
                label: "Alternate group",
                value: AttrValue::Unsigned(self.alternate_group as u64),
            },
        );
        v.push(Attr { label: "Volume", value: AttrValue::Fixed8(self.volume) });
        v.push(Attr { label: "Matrix", value: AttrValue::UnsignedList(self.matrix.clone()) });
        v.push(Attr { label: "Width", value: AttrValue::Unsigned(self.width as u64) });
        v.push(Attr { label: "Height", value: AttrValue::Unsigned(self.height as u64) });
        v
    }
}

impl MediaHeaderBox {
    /// The (label, value) pairs a consumer may display for this box.
    pub fn print_attributes(&self) -> (r: Vec<Attr>)
        ensures
            r@.len() == 5,
            r@[0].value == AttrValue::Time(self.creation_time),
            r@[1].value == AttrValue::Time(self.modification_time),
            r@[2].value == AttrValue::Unsigned(self.timescale as u64),
            r@[3].value == AttrValue::Unsigned(self.duration as u64),
            r@[4].value matches AttrValue::Text(s) && s@ == self.language@,
    {
        let mut v: Vec<Attr> = Vec::new();
        v.push(Attr { label: "Created", value: AttrValue::Time(self.creation_time) });
        v.push(Attr { label: "Modified", value: AttrValue::Time(self.modification_time) });
        v.push(Attr { label: "Timescale", value: AttrValue::Unsigned(self.timescale as u64) });
        v.push(Attr { label: "Duration", value: AttrValue::Unsigned(self.duration as u64) });
        v.push(Attr { label: "Language", value: AttrValue::Text(self.language.clone()) });
        v
    }
}

impl HandlerReferenceBox {
    /// The (label, value) pairs a consumer may display for this box.
    pub fn print_attributes(&self) -> (r: Vec<Attr>)
        ensures
            r@.len() == 2,
            r@[0].value matches AttrValue::Text(s) && s@ == self.handler_type@,
            r@[1].value matches AttrValue::Text(s2) && s2@ == self.name@,
    {
        let mut v: Vec<Attr> = Vec::new();
        v.push(Attr { label: "Handler type", value: AttrValue::Text(self.handler_type.clone()) });
        v.push(Attr { label: "Name", value: AttrValue::Text(self.name.clone()) });
        v
    }
}

impl VideoMediaHandler {
    /// The (label, value) pairs a consumer may display for this box.
    pub fn print_attributes(&self) -> (r: Vec<Attr>)
        ensures
            r@.len() == 2,
            r@[0].value == AttrValue::Unsigned(self.graphicsmode as u64),
            r@[1].value matches AttrValue::Bytes(bs) && bs@ == self.opcolor@,
    {
        let mut v: Vec<Attr> = Vec::new();
        v.push(
            Attr { label: "Graphics mode", value: AttrValue::Unsigned(self.graphicsmode as u64) },
        );
        v.push(Attr { label: "Opcolor", value: AttrValue::Bytes(self.opcolor.clone()) });
        v
    }
}

impl SoundMediaHandler {
    /// The (label, value) pairs a consumer may display for this box.
    pub fn print_attributes(&self) -> (r: Vec<Attr>)
        ensures
            r@.len() == 1,
            r@[0].value == AttrValue::Fixed8(self.balance),
    {
        let mut v: Vec<Attr> = Vec::new();
        v.push(Attr { label: "Balance", value: AttrValue::Fixed8(self.balance) });
        v
    }
}

impl DataReferenceBox {
    /// The (label, value) pairs a consumer may display for this box.
    pub fn print_attributes(&self) -> (r: Vec<Attr>)
        ensures
            r@.len() == 1,
            r@[0].value == AttrValue::Unsigned(self.entry_count as u64),
    {
        let mut v: Vec<Attr> = Vec::new();
        v.push(Attr { label: "# entries", value: AttrValue::Unsigned(self.entry_count as u64) });
        v
    }
}

impl EditListEntry {
    /// The (label, value) pairs a consumer may display for this entry.
    pub fn print_attributes(&self) -> (r: Vec<Attr>)
        ensures
            r@.len() == 3,
            r@[0].value == AttrValue::Unsigned(self.segment_duration as u64),
            r@[1].value == AttrValue::Signed(self.media_time as i64),
            r@[2].value == AttrValue::Signed(self.media_rate_integer as i64),
    {
        let mut v: Vec<Attr> = Vec::new();
        v.push(
            Attr {
                label: "Segment duration",
                value: AttrValue::Unsigned(self.segment_duration as u64),
            },
        );
        v.push(Attr { label: "Media time", value: AttrValue::Signed(self.media_time as i64) });
        v.push(
            Attr { label: "Media rate", value: AttrValue::Signed(self.media_rate_integer as i64) },
        );
        v
    }
}

impl EditListBox {
    /// The (label, value) pairs a consumer may display for this box.
    pub fn print_attributes(&self) -> (r: Vec<Attr>)
        ensures
            r@.len() == 1,
            r@[0].value == AttrValue::Unsigned(self.entry_count as u64),
    {
        let mut v: Vec<Attr> = Vec::new();
        v.push(Attr { label: "# entries", value: AttrValue::Unsigned(self.entry_count as u64) });
        v
    }
}

impl DecodingTimeToSampleEntry {
    /// The (label, value) pairs a consumer may display for this entry.
    pub fn print_attributes(&self) -> (r: Vec<Attr>)
        ensures
            r@.len() == 2,
            r@[0].value == AttrValue::Unsigned(self.sample_count as u64),
            r@[1].value == AttrValue::Unsigned(self.sample_delta as u64),
    {
        let mut v: Vec<Attr> = Vec::new();
        v.push(Attr { label: "Sample count", value: AttrValue::Unsigned(self.sample_count as u64) });
        v.push(Attr { label: "Sample delta", value: AttrValue::Unsigned(self.sample_delta as u64) });
        v
    }
}

impl DecodingTimeToSampleBox {
    /// The (label, value) pairs a consumer may display for this box.
    pub fn print_attributes(&self) -> (r: Vec<Attr>)
        ensures
            r@.len() == 1,
            r@[0].value == AttrValue::Unsigned(self.entry_count as u64),
    {
        let mut v: Vec<Attr> = Vec::new();
        v.push(Attr { label: "# entries", value: AttrValue::Unsigned(self.entry_count as u64) });
        v
    }
}

impl SyncSampleBox {
    /// The (label, value) pairs a consumer may display for this box.
    pub fn print_attributes(&self) -> (r: Vec<Attr>)
        ensures
            r@.len() == 1,
            r@[0].value == AttrValue::Unsigned(self.entry_count as u64),
    {
        let mut v: Vec<Attr> = Vec::new();
        v.push(Attr { label: "# entries", value: AttrValue::Unsigned(self.entry_count as u64) });
        v
    }
}

impl CompositionTimeToSampleBox {
    /// The (label, value) pairs a consumer may display for this box.
    pub fn print_attributes(&self) -> (r: Vec<Attr>)
        ensures
            r@.len() == 1,
            r@[0].value == AttrValue::Unsigned(self.entry_count as u64),
    {
        let mut v: Vec<Attr> = Vec::new();
        v.push(Attr { label: "# entries", value: AttrValue::Unsigned(self.entry_count as u64) });
        v
    }
}

impl SampleToChunkBox {
    /// The (label, value) pairs a consumer may display for this box.
    pub fn print_attributes(&self) -> (r: Vec<Attr>)
        ensures
            r@.len() == 1,
            r@[0].value == AttrValue::Unsigned(self.entry_count as u64),
    {
        let mut v: Vec<Attr> = Vec::new();
        v.push(Attr { label: "# entries", value: AttrValue::Unsigned(self.entry_count as u64) });
        v
    }
}

impl SampleSizeBox {
    /// The (label, value) pairs a consumer may display for this box.
    pub fn print_attributes(&self) -> (r: Vec<Attr>)
        ensures
            r@.len() == 2,
            r@[0].value == AttrValue::Unsigned(self.sample_size as u64),
            r@[1].value == AttrValue::Unsigned(self.sample_count as u64),
    {
        let mut v: Vec<Attr> = Vec::new();
        v.push(Attr { label: "Sample size", value: AttrValue::Unsigned(self.sample_size as u64) });
        v.push(Attr { label: "# samples", value: AttrValue::Unsigned(self.sample_count as u64) });
        v
    }
}

impl ChunkOffsetBox {
    /// The (label, value) pairs a consumer may display for this box.
    pub fn print_attributes(&self) -> (r: Vec<Attr>)
        ensures
            r@.len() == 1,
            r@[0].value == AttrValue::Unsigned(self.entry_count as u64),
    {
        let mut v: Vec<Attr> = Vec::new();
        v.push(Attr { label: "# entries", value: AttrValue::Unsigned(self.entry_count as u64) });
        v
    }
}

impl SampleGroupDescriptionBox {
    /// This box exposes no attributes: its interior is not modelled.
    pub fn print_attributes(&self) -> (r: Vec<Attr>)
        ensures
            r@.len() == 0,
    {
        Vec::new()
    }
}

impl SampleToGroupBox {
    /// This box exposes no attributes: its interior is not modelled.
    pub fn print_attributes(&self) -> (r: Vec<Attr>)
        ensures
            r@.len() == 0,
    {
        Vec::new()
    }
}

impl SampleDependencyTypeBox {
    /// This box exposes no attributes: its interior is not modelled.
    pub fn print_attributes(&self) -> (r: Vec<Attr>)
        ensures
            r@.len() == 0,
    {
        Vec::new()
    }
}

impl TrackExtendsBox {
    /// The (label, value) pairs a consumer may display for this box.
    pub fn print_attributes(&self) -> (r: Vec<Attr>)
        ensures
            r@.len() == 5,
            r@[0].value == AttrValue::Unsigned(self.track_id as u64),
            r@[1].value == AttrValue::Unsigned(self.default_sample_description_index as u64),
            r@[2].value == AttrValue::Unsigned(self.default_sample_duration as u64),
            r@[3].value == AttrValue::Unsigned(self.default_sample_size as u64),
            r@[4].value == AttrValue::Unsigned(self.default_sample_flags as u64),
    {
        let mut v: Vec<Attr> = Vec::new();
        v.push(Attr { label: "Track ID", value: AttrValue::Unsigned(self.track_id as u64) });
        v.push(
            Attr {
                label: "Default smpl. descr. index",
                value: AttrValue::Unsigned(self.default_sample_description_index as u64),
            },
        );
        v.push(
            Attr {
                label: "Default sample duration",
                value: AttrValue::Unsigned(self.default_sample_duration as u64),
            },
        );
        v.push(
            Attr {
                label: "Default sample size",
                value: AttrValue::Unsigned(self.default_sample_size as u64),
            },
        );
        v.push(
            Attr {
                label: "Default sample flags",
                value: AttrValue::Unsigned(self.default_sample_flags as u64),
            },
        );
        v
    }
}

impl MovieFragmentHeaderBox {
    /// The (label, value) pairs a consumer may display for this box.
    pub fn print_attributes(&self) -> (r: Vec<Attr>)
        ensures
            r@.len() == 1,
            r@[0].value == AttrValue::Unsigned(self.sequence_number as u64),
    {
        let mut v: Vec<Attr> = Vec::new();
        v.push(
            Attr { label: "Sequence number", value: AttrValue::Unsigned(self.sequence_number as u64) },
        );
        v
    }
}

impl SampleDescriptionBox {
    /// The (label, value) pairs a consumer may display for this box.
    pub fn print_attributes(&self) -> (r: Vec<Attr>)
        ensures
            r@.len() == 1,
            r@[0].value == AttrValue::Unsigned(self.entry_count as u64),
    {
        let mut v: Vec<Attr> = Vec::new();
        v.push(Attr { label: "# entries", value: AttrValue::Unsigned(self.entry_count as u64) });
        v
    }
}

impl Mp4aAudioSampleEntry {
    /// The (label, value) pairs a consumer may display for this entry.
    pub fn print_attributes(&self) -> (r: Vec<Attr>)
        ensures
            r@.len() == 4,
            r@[0].value == AttrValue::Unsigned(self.data_reference_index as u64),
            r@[1].value == AttrValue::Unsigned(self.channel_count as u64),
            r@[2].value == AttrValue::Unsigned(self.sample_size as u64),
            r@[3].value == AttrValue::Fixed16(self.sample_rate),
    {
        let mut v: Vec<Attr> = Vec::new();
        v.push(
            Attr {
                label: "Data reference index",
                value: AttrValue::Unsigned(self.data_reference_index as u64),
            },
        );
        v.push(
            Attr { label: "Channel count", value: AttrValue::Unsigned(self.channel_count as u64) },
        );
        v.push(Attr { label: "Sample size", value: AttrValue::Unsigned(self.sample_size as u64) });
        v.push(Attr { label: "Sample rate", value: AttrValue::Fixed16(self.sample_rate) });
        v
    }
}

impl Avc1VisualSampleEntry {
    /// The (label, value) pairs a consumer may display for this entry.
    pub fn print_attributes(&self) -> (r: Vec<Attr>)
        ensures
            r@.len() == 8,
            r@[0].value == AttrValue::Unsigned(self.data_reference_index as u64),
            r@[1].value == AttrValue::Unsigned(self.width as u64),
            r@[2].value == AttrValue::Unsigned(self.height as u64),
            r@[3].value == AttrValue::Fixed16(self.hor_resolution),
            r@[4].value == AttrValue::Fixed16(self.ver_resolution),
            r@[5].value == AttrValue::Unsigned(self.frame_count as u64),
            r@[6].value matches AttrValue::Text(s) && s@ == self.compressor_name@,
            r@[7].value == AttrValue::Unsigned(self.depth as u64),
    {
        let mut v: Vec<Attr> = Vec::new();
        v.push(
            Attr {
                label: "Data reference index",
                value: AttrValue::Unsigned(self.data_reference_index as u64),
            },
        );
        v.push(Attr { label: "Width", value: AttrValue::Unsigned(self.width as u64) });
        v.push(Attr { label: "Height", value: AttrValue::Unsigned(self.height as u64) });
        v.push(Attr { label: "Hor. resolution", value: AttrValue::Fixed16(self.hor_resolution) });
        v.push(Attr { label: "Ver. resolution", value: AttrValue::Fixed16(self.ver_resolution) });
        v.push(Attr { label: "Frame count", value: AttrValue::Unsigned(self.frame_count as u64) });
        v.push(
            Attr { label: "Compressor name", value: AttrValue::Text(self.compressor_name.clone()) },
        );
        v.push(Attr { label: "Depth", value: AttrValue::Unsigned(self.depth as u64) });
        v
    }
}

impl SampleEntry {
    /// The (label, value) pairs a consumer may display for this entry.
    pub fn print_attributes(&self) -> (r: Vec<Attr>)
        ensures
            self matches SampleEntry::Mp4a(a) ==> {
                &&& r@.len() == 4
                &&& r@[0].value == AttrValue::Unsigned(a.data_reference_index as u64)
                &&& r@[1].value == AttrValue::Unsigned(a.channel_count as u64)
                &&& r@[2].value == AttrValue::Unsigned(a.sample_size as u64)
                &&& r@[3].value == AttrValue::Fixed16(a.sample_rate)
            },
            self matches SampleEntry::Avc1(v) ==> {
                &&& r@.len() == 8
                &&& r@[0].value == AttrValue::Unsigned(v.data_reference_index as u64)
                &&& r@[1].value == AttrValue::Unsigned(v.width as u64)
                &&& r@[2].value == AttrValue::Unsigned(v.height as u64)
                &&& r@[3].value == AttrValue::Fixed16(v.hor_resolution)
                &&& r@[4].value == AttrValue::Fixed16(v.ver_resolution)
                &&& r@[5].value == AttrValue::Unsigned(v.frame_count as u64)
                &&& (r@[6].value matches AttrValue::Text(s) && s@ == v.compressor_name@)
                &&& r@[7].value == AttrValue::Unsigned(v.depth as u64)
            },
    {
        match self {
            SampleEntry::Mp4a(mp4a) => mp4a.print_attributes(),
            SampleEntry::Avc1(avc1) => avc1.print_attributes(),
        }
    }
}

impl Mp4Box {
    /// The (label, value) pairs a consumer may display for this box.
    pub fn print_attributes(&self) -> (r: Vec<Attr>)
        ensures
            self is QuickTimeMetadataItemList ==> r@.len() == 0,
            self is Container ==> r@.len() == 0,
            self is Mdat ==> r@.len() == 0,
            self is Free ==> r@.len() == 0,
            self is Sgpd ==> r@.len() == 0,
            self is Sbgp ==> r@.len() == 0,
            self is Sdtp ==> r@.len() == 0,
            self matches Mp4Box::Ftyp(b) ==> {
                &&& r@.len() == 3
                &&& (r@[0].value matches AttrValue::Text(s) && s@ == b.major_brand@)
                &&& r@[1].value == AttrValue::Unsigned(b.minor_version as u64)
                &&& (r@[2].value matches AttrValue::TextList(bs) && bs@.len()
                    == b.compatible_brands@.len())
            },
            self matches Mp4Box::Mvhd(b) ==> {
                &&& r@.len() == 8
                &&& r@[0].value == AttrValue::Time(b.creation_time)
                &&& r@[1].value == AttrValue::Time(b.modification_time)
                &&& r@[2].value == AttrValue::Unsigned(b.timescale as u64)
                &&& r@[3].value == AttrValue::Unsigned(b.duration as u64)
                &&& r@[4].value == AttrValue::Fixed16(b.rate)
                &&& r@[5].value == AttrValue::Fixed8(b.volume)
                &&& (r@[6].value matches AttrValue::UnsignedList(m) && m@ == b.matrix@)
                &&& r@[7].value == AttrValue::Unsigned(b.next_track_id as u64)
            },
            self matches Mp4Box::Tkhd(b) ==> {
                &&& r@.len() == 13
                &&& r@[0].value == AttrValue::Flag(b.track_enabled)
                &&& r@[1].value == AttrValue::Flag(b.track_in_movie)
                &&& r@[2].value == AttrValue::Flag(b.track_in_preview)
                &&& r@[3].value == AttrValue::Time(b.creation_time)
                &&& r@[4].value == AttrValue::Time(b.modification_time)
                &&& r@[5].value == AttrValue::Unsigned(b.track_id as u64)
                &&& r@[6].value == AttrValue::Unsigned(b.duration as u64)
                &&& r@[7].value == AttrValue::Unsigned(b.layer as u64)
                &&& r@[8].value == AttrValue::Unsigned(b.alternate_group as u64)
                &&& r@[9].value == AttrValue::Fixed8(b.volume)
                &&& (r@[10].value matches AttrValue::UnsignedList(m) && m@ == b.matrix@)
                &&& r@[11].value == AttrValue::Unsigned(b.width as u64)
                &&& r@[12].value == AttrValue::Unsigned(b.height as u64)
            },
            self matches Mp4Box::Elst(b) ==> r@.len() == 1 && r@[0].value == AttrValue::Unsigned(
                b.entry_count as u64,
            ),
            self matches Mp4Box::Mdhd(b) ==> {
                &&& r@.len() == 5
                &&& r@[0].value == AttrValue::Time(b.creation_time)
                &&& r@[1].value == AttrValue::Time(b.modification_time)
                &&& r@[2].value == AttrValue::Unsigned(b.timescale as u64)
                &&& r@[3].value == AttrValue::Unsigned(b.duration as u64)
                &&& (r@[4].value matches AttrValue::Text(s) && s@ == b.language@)
            },
            self matches Mp4Box::Hdlr(b) ==> {
                &&& r@.len() == 2
                &&& (r@[0].value matches AttrValue::Text(s) && s@ == b.handler_type@)
                &&& (r@[1].value matches AttrValue::Text(s2) && s2@ == b.name@)
            },
            self matches Mp4Box::Vmhd(b) ==> {
                &&& r@.len() == 2
                &&& r@[0].value == AttrValue::Unsigned(b.graphicsmode as u64)
                &&& (r@[1].value matches AttrValue::Bytes(bs) && bs@ == b.opcolor@)
            },
            self matches Mp4Box::Smhd(b) ==> r@.len() == 1 && r@[0].value == AttrValue::Fixed8(
                b.balance,
            ),
            self matches Mp4Box::Dref(b) ==> r@.len() == 1 && r@[0].value == AttrValue::Unsigned(
                b.entry_count as u64,
            ),
            self matches Mp4Box::Stsd(b) ==> r@.len() == 1 && r@[0].value == AttrValue::Unsigned(
                b.entry_count as u64,
            ),
            self matches Mp4Box::Stts(b) ==> r@.len() == 1 && r@[0].value == AttrValue::Unsigned(
                b.entry_count as u64,
            ),
            self matches Mp4Box::Stss(b) ==> r@.len() == 1 && r@[0].value == AttrValue::Unsigned(
                b.entry_count as u64,
            ),
            self matches Mp4Box::Ctts(b) ==> r@.len() == 1 && r@[0].value == AttrValue::Unsigned(
                b.entry_count as u64,
            ),
            self matches Mp4Box::Stsc(b) ==> r@.len() == 1 && r@[0].value == AttrValue::Unsigned(
                b.entry_count as u64,
            ),
            self matches Mp4Box::Stsz(b) ==> {
                &&& r@.len() == 2
                &&& r@[0].value == AttrValue::Unsigned(b.sample_size as u64)
                &&& r@[1].value == AttrValue::Unsigned(b.sample_count as u64)
            },
            self matches Mp4Box::Stco(b) ==> r@.len() == 1 && r@[0].value == AttrValue::Unsigned(
                b.entry_count as u64,
            ),
            self matches Mp4Box::Trex(b) ==> {
                &&& r@.len() == 5
                &&& r@[0].value == AttrValue::Unsigned(b.track_id as u64)
                &&& r@[1].value == AttrValue::Unsigned(b.default_sample_description_index as u64)
                &&& r@[2].value == AttrValue::Unsigned(b.default_sample_duration as u64)
                &&& r@[3].value == AttrValue::Unsigned(b.default_sample_size as u64)
                &&& r@[4].value == AttrValue::Unsigned(b.default_sample_flags as u64)
            },
            self matches Mp4Box::Mfhd(b) ==> r@.len() == 1 && r@[0].value == AttrValue::Unsigned(
                b.sequence_number as u64,
            ),
    {
        match self {
            Mp4Box::QuickTimeMetadataItemList(_) => Vec::new(),
            Mp4Box::Container(_) => Vec::new(),
            Mp4Box::Ftyp(b) => b.print_attributes(),
            Mp4Box::Mdat => Vec::new(),
            Mp4Box::Free => Vec::new(),
            Mp4Box::Mvhd(b) => b.print_attributes(),
            Mp4Box::Tkhd(b) => b.print_attributes(),
            Mp4Box::Elst(b) => b.print_attributes(),
            Mp4Box::Mdhd(b) => b.print_attributes(),
            Mp4Box::Hdlr(b) => b.print_attributes(),
            Mp4Box::Vmhd(b) => b.print_attributes(),
            Mp4Box::Smhd(b) => b.print_attributes(),
            Mp4Box::Dref(b) => b.print_attributes(),
            Mp4Box::Stsd(b) => b.print_attributes(),
            Mp4Box::Stts(b) => b.print_attributes(),
            Mp4Box::Stss(b) => b.print_attributes(),
            Mp4Box::Ctts(b) => b.print_attributes(),
            Mp4Box::Stsc(b) => b.print_attributes(),
            Mp4Box::Stsz(b) => b.print_attributes(),
            Mp4Box::Stco(b) => b.print_attributes(),
            Mp4Box::Sgpd(b) => b.print_attributes(),
            Mp4Box::Sbgp(b) => b.print_attributes(),
            Mp4Box::Sdtp(b) => b.print_attributes(),
            Mp4Box::Trex(b) => b.print_attributes(),
            Mp4Box::Mfhd(b) => b.print_attributes(),
        }
    }
}

} // verus!
