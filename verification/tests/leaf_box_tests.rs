use mp4_parser::boxes::{
    DataReferenceBox, EditListBox, FileTypeBox, MediaHeaderBox, MovieHeaderBox,
    SampleDescriptionBox, SampleEntry, SampleSizeBox, SoundMediaHandler, TrackHeaderBox,
    VideoMediaHandler,
};
use mp4_parser::error::Mp4Error;
use mp4_parser::reader::Reader;

fn push_u16(v: &mut Vec<u8>, x: u16) {
    v.extend_from_slice(&x.to_be_bytes());
}

fn push_u32(v: &mut Vec<u8>, x: u32) {
    v.extend_from_slice(&x.to_be_bytes());
}

#[test]
fn ftyp_decodes_brands() {
    let mut p = Vec::new();
    p.extend_from_slice(b"isom");
    push_u32(&mut p, 512);
    p.extend_from_slice(b"iso2");
    p.extend_from_slice(b"mp41");
    let mut r = Reader::new(&p);
    let b = FileTypeBox::parse(&mut r, p.len() as u64).unwrap();
    assert_eq!(b.major_brand, "isom");
    assert_eq!(b.minor_version, 512);
    assert_eq!(b.compatible_brands, vec!["iso2".to_string(), "mp41".to_string()]);
    assert!(!b.is_quicktime());
}

#[test]
fn ftyp_quicktime_brand_is_flagged() {
    let mut p = Vec::new();
    p.extend_from_slice(b"qt  ");
    push_u32(&mut p, 0);
    let mut r = Reader::new(&p);
    let b = FileTypeBox::parse(&mut r, 8).unwrap();
    assert!(b.is_quicktime());
}

#[test]
fn ftyp_invalid_text_fails() {
    let p = vec![0xFF, 0xFE, 0xFD, 0xFC, 0, 0, 0, 0];
    let mut r = Reader::new(&p);
    let err = FileTypeBox::parse(&mut r, 8).unwrap_err();
    assert!(matches!(err, Mp4Error::InvalidString { .. }));
}

#[test]
fn ftyp_undersized_payload_is_malformed() {
    let p = vec![0u8; 8];
    let mut r = Reader::new(&p);
    let err = FileTypeBox::parse(&mut r, 7).unwrap_err();
    assert!(matches!(err, Mp4Error::MalformedBox { .. }));
}

#[test]
fn mvhd_decodes_fields() {
    let mut p = vec![0, 0, 0, 0];
    push_u32(&mut p, 86400); // creation
    push_u32(&mut p, 86460); // modification
    push_u32(&mut p, 1000); // timescale
    push_u32(&mut p, 5000); // duration
    push_u32(&mut p, 0x0001_0000); // rate 1.0
    push_u16(&mut p, 0x0100); // volume 1.0
    p.extend_from_slice(&[0u8; 10]); // reserved
    for k in 0..9u32 {
        push_u32(&mut p, k + 1); // matrix
    }
    p.extend_from_slice(&[0u8; 24]); // pre_defined
    push_u32(&mut p, 3); // next track id
    assert_eq!(p.len(), 100);
    let mut r = Reader::new(&p);
    let b = MovieHeaderBox::parse(&mut r, p.len() as u64).unwrap();
    assert_eq!(b.creation_time, 86400);
    assert_eq!(b.modification_time, 86460);
    assert_eq!(b.timescale, 1000);
    assert_eq!(b.duration, 5000);
    assert_eq!(b.rate.integer_part(), 1);
    assert_eq!(b.volume.integer_part(), 1);
    assert_eq!(b.matrix, vec![1, 2, 3, 4, 5, 6, 7, 8, 9]);
    assert_eq!(b.next_track_id, 3);
    assert_eq!(r.position(), 100);
}

#[test]
fn mvhd_version_one_is_unsupported() {
    let p = vec![1, 0, 0, 0];
    let mut r = Reader::new(&p);
    let err = MovieHeaderBox::parse(&mut r, 4).unwrap_err();
    assert_eq!(
        err,
        Mp4Error::UnsupportedVersion { box_type: 0x6D76_6864, version: 1 }
    );
}

#[test]
fn tkhd_decodes_flag_bits_and_fields() {
    let mut p = vec![0, 0, 0, 7]; // enabled | in movie | in preview
    push_u32(&mut p, 0); // creation
    push_u32(&mut p, 0); // modification
    push_u32(&mut p, 1); // track id
    p.extend_from_slice(&[0u8; 4]); // reserved
    push_u32(&mut p, 1234); // duration
    p.extend_from_slice(&[0u8; 8]); // reserved
    push_u16(&mut p, 5); // layer
    push_u16(&mut p, 6); // alternate group
    push_u16(&mut p, 0x0100); // volume
    p.extend_from_slice(&[0u8; 2]); // reserved
    p.extend_from_slice(&[0u8; 36]); // matrix
    push_u32(&mut p, 640 << 16); // width, 16.16
    push_u32(&mut p, 480 << 16); // height, 16.16
    assert_eq!(p.len(), 84);
    let mut r = Reader::new(&p);
    let b = TrackHeaderBox::parse(&mut r, p.len() as u64).unwrap();
    assert!(b.track_enabled);
    assert!(b.track_in_movie);
    assert!(b.track_in_preview);
    assert_eq!(b.track_id, 1);
    assert_eq!(b.duration, 1234);
    assert_eq!(b.layer, 5);
    assert_eq!(b.alternate_group, 6);
    assert_eq!(b.width, 640 << 16);
    assert_eq!(b.height, 480 << 16);
}

#[test]
fn mdhd_decodes_packed_language() {
    let mut p = vec![0, 0, 0, 0];
    push_u32(&mut p, 0); // creation
    push_u32(&mut p, 0); // modification
    push_u32(&mut p, 48000); // timescale
    push_u32(&mut p, 96000); // duration
    // 'u' 'n' 'd' as three 5-bit fields: 21, 14, 4.
    let packed: u16 = (21 << 10) | (14 << 5) | 4;
    push_u16(&mut p, packed);
    push_u16(&mut p, 0); // pre_defined
    let mut r = Reader::new(&p);
    let b = MediaHeaderBox::parse(&mut r, p.len() as u64).unwrap();
    assert_eq!(b.timescale, 48000);
    assert_eq!(b.duration, 96000);
    assert_eq!(b.language, "und");
}

#[test]
fn sound_and_video_media_handlers() {
    let p = vec![0, 0, 0, 0, 0x01, 0x80, 0, 0];
    let mut r = Reader::new(&p);
    let b = SoundMediaHandler::parse(&mut r, 8).unwrap();
    assert_eq!(b.balance.integer_part(), 1);
    assert_eq!(b.balance.fraction(), 0x80);

    let mut q = vec![0, 0, 0, 0];
    push_u16(&mut q, 0);
    q.extend_from_slice(&[1, 2, 3, 4, 5, 6]);
    let mut r2 = Reader::new(&q);
    let v = VideoMediaHandler::parse(&mut r2, q.len() as u64).unwrap();
    assert_eq!(v.graphicsmode, 0);
    assert_eq!(v.opcolor, vec![1, 2, 3, 4, 5, 6]);
}

#[test]
fn dref_url_entry_self_contained() {
    let mut p = vec![0, 0, 0, 0];
    push_u32(&mut p, 1);
    let mut r = Reader::new(&p);
    let d = DataReferenceBox::parse(&mut r).unwrap();
    assert_eq!(d.entry_count, 1);

    let mut e = Vec::new();
    push_u32(&mut e, 12);
    e.extend_from_slice(b"url ");
    e.extend_from_slice(&[0, 0, 0, 1]);
    let mut r2 = Reader::new(&e);
    let entry = DataReferenceBox::parse_entry(&mut r2).unwrap();
    assert!(entry.self_contained);
}

#[test]
fn dref_external_reference_is_unsupported() {
    let mut e = Vec::new();
    push_u32(&mut e, 12);
    e.extend_from_slice(b"url ");
    e.extend_from_slice(&[0, 0, 0, 0]);
    let mut r = Reader::new(&e);
    let err = DataReferenceBox::parse_entry(&mut r).unwrap_err();
    assert_eq!(err, Mp4Error::ExternalMediaReference { flags: [0, 0, 0] });
}

#[test]
fn dref_urn_entry_is_unsupported() {
    let mut e = Vec::new();
    push_u32(&mut e, 12);
    e.extend_from_slice(b"urn ");
    e.extend_from_slice(&[0, 0, 0, 1]);
    let mut r = Reader::new(&e);
    let err = DataReferenceBox::parse_entry(&mut r).unwrap_err();
    assert!(matches!(err, Mp4Error::UnsupportedBoxType { .. }));
}

#[test]
fn elst_header_and_entry() {
    let mut p = vec![0, 0, 0, 0];
    push_u32(&mut p, 2);
    let mut r = Reader::new(&p);
    let e = EditListBox::parse_header(&mut r).unwrap();
    assert_eq!(e.entry_count, 2);

    let mut q = Vec::new();
    push_u32(&mut q, 1000); // segment duration
    q.extend_from_slice(&(-1i32).to_be_bytes()); // media time
    q.extend_from_slice(&1i16.to_be_bytes());
    q.extend_from_slice(&0i16.to_be_bytes());
    let mut r2 = Reader::new(&q);
    let entry = e.parse_entry(&mut r2).unwrap();
    assert_eq!(entry.segment_duration, 1000);
    assert_eq!(entry.media_time, -1);
    assert_eq!(entry.media_rate_integer, 1);
    assert_eq!(entry.media_rate_fraction, 0);
}

#[test]
fn stsz_sample_counts() {
    let mut p = vec![0, 0, 0, 0];
    push_u32(&mut p, 0);
    push_u32(&mut p, 99);
    let mut r = Reader::new(&p);
    let s = SampleSizeBox::parse_header(&mut r).unwrap();
    assert_eq!(s.sample_size, 0);
    assert_eq!(s.sample_count, 99);
}

#[test]
fn stsd_audio_entry_decodes() {
    let mut p = vec![0, 0, 0, 0];
    push_u32(&mut p, 1);
    let mut r = Reader::new(&p);
    let sd = SampleDescriptionBox::parse_header(&mut r, 8).unwrap();
    assert_eq!(sd.entry_count, 1);

    let mut e = Vec::new();
    push_u32(&mut e, 36);
    e.extend_from_slice(b"mp4a");
    e.extend_from_slice(&[0u8; 6]); // reserved
    push_u16(&mut e, 1); // data reference index
    e.extend_from_slice(&[0u8; 8]); // reserved
    push_u16(&mut e, 2); // channels
    push_u16(&mut e, 16); // sample size
    e.extend_from_slice(&[0u8; 4]); // pre_defined + reserved
    push_u32(&mut e, 44100 << 16); // sample rate 16.16
    assert_eq!(e.len(), 36);
    let mut r2 = Reader::new(&e);
    match sd.parse_entry(&mut r2).unwrap() {
        SampleEntry::Mp4a(a) => {
            assert_eq!(a.data_reference_index, 1);
            assert_eq!(a.channel_count, 2);
            assert_eq!(a.sample_size, 16);
            assert_eq!(a.sample_rate.integer_part(), 44100);
            assert_eq!(a.sample_rate.fraction(), 0);
        }
        other => panic!("unexpected entry: {:?}", other),
    }
    assert_eq!(r2.position(), 36);
}

#[test]
fn stsd_visual_entry_decodes() {
    let sd = SampleDescriptionBox { entry_count: 1 };
    let mut e = Vec::new();
    push_u32(&mut e, 86);
    e.extend_from_slice(b"avc1");
    e.extend_from_slice(&[0u8; 6]); // reserved
    push_u16(&mut e, 1); // data reference index
    e.extend_from_slice(&[0u8; 16]); // pre_defined / reserved
    push_u16(&mut e, 1920); // width
    push_u16(&mut e, 1080); // height
    push_u32(&mut e, 72 << 16); // horizontal resolution
    push_u32(&mut e, 72 << 16); // vertical resolution
    e.extend_from_slice(&[0u8; 4]); // reserved
    push_u16(&mut e, 1); // frame count
    let mut name = [0u8; 32];
    name[..4].copy_from_slice(b"avc1");
    e.extend_from_slice(&name);
    push_u16(&mut e, 24); // depth
    e.extend_from_slice(&[0u8; 2]); // pre_defined
    assert_eq!(e.len(), 86);
    let mut r = Reader::new(&e);
    match sd.parse_entry(&mut r).unwrap() {
        SampleEntry::Avc1(v) => {
            assert_eq!(v.data_reference_index, 1);
            assert_eq!(v.width, 1920);
            assert_eq!(v.height, 1080);
            assert_eq!(v.hor_resolution.integer_part(), 72);
            assert_eq!(v.frame_count, 1);
            assert!(v.compressor_name.starts_with("avc1"));
            assert_eq!(v.depth, 24);
        }
        other => panic!("unexpected entry: {:?}", other),
    }
    assert_eq!(r.position(), 86);
}

#[test]
fn stsd_unknown_entry_is_unsupported() {
    let sd = SampleDescriptionBox { entry_count: 1 };
    let mut e = Vec::new();
    push_u32(&mut e, 16);
    e.extend_from_slice(b"zzzz");
    e.extend_from_slice(&[0u8; 8]);
    let mut r = Reader::new(&e);
    let err = sd.parse_entry(&mut r).unwrap_err();
    assert!(matches!(err, Mp4Error::UnsupportedSampleEntry { .. }));
}
