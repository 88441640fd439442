use mp4_parser::parser::parse_mp4;
use mp4_parser::summary::{track_summary, SummaryError, TrackInfo};

fn make_box(tag: &[u8; 4], payload: &[u8]) -> Vec<u8> {
    let mut v = Vec::new();
    v.extend_from_slice(&((payload.len() as u32 + 8).to_be_bytes()));
    v.extend_from_slice(tag);
    v.extend_from_slice(payload);
    v
}

fn tkhd_with_id(track_id: u32) -> Vec<u8> {
    let mut p = vec![0, 0, 0, 7];
    p.extend_from_slice(&0u32.to_be_bytes()); // creation
    p.extend_from_slice(&0u32.to_be_bytes()); // modification
    p.extend_from_slice(&track_id.to_be_bytes());
    p.extend_from_slice(&[0u8; 4]); // reserved
    p.extend_from_slice(&0u32.to_be_bytes()); // duration
    p.extend_from_slice(&[0u8; 8]); // reserved
    p.extend_from_slice(&[0u8; 2]); // layer
    p.extend_from_slice(&[0u8; 2]); // alternate group
    p.extend_from_slice(&[0x01, 0x00]); // volume
    p.extend_from_slice(&[0u8; 2]); // reserved
    p.extend_from_slice(&[0u8; 36]); // matrix
    p.extend_from_slice(&0u32.to_be_bytes()); // width
    p.extend_from_slice(&0u32.to_be_bytes()); // height
    make_box(b"tkhd", &p)
}

fn stsd_with_mp4a(channels: u16, rate_hz: u32) -> Vec<u8> {
    let mut entry = Vec::new();
    entry.extend_from_slice(&36u32.to_be_bytes());
    entry.extend_from_slice(b"mp4a");
    entry.extend_from_slice(&[0u8; 6]); // reserved
    entry.extend_from_slice(&1u16.to_be_bytes()); // data reference index
    entry.extend_from_slice(&[0u8; 8]); // reserved
    entry.extend_from_slice(&channels.to_be_bytes());
    entry.extend_from_slice(&16u16.to_be_bytes()); // sample size
    entry.extend_from_slice(&[0u8; 4]); // pre_defined + reserved
    entry.extend_from_slice(&(rate_hz << 16).to_be_bytes()); // 16.16
    let mut p = vec![0, 0, 0, 0];
    p.extend_from_slice(&1u32.to_be_bytes()); // entry count
    p.extend_from_slice(&entry);
    make_box(b"stsd", &p)
}

#[test]
fn audio_track_is_summarised() {
    let mut trak_children = tkhd_with_id(1);
    trak_children.extend_from_slice(&stsd_with_mp4a(2, 44100));
    let trak = make_box(b"trak", &trak_children);
    let buf = make_box(b"moov", &trak);

    let (events, outcome) = parse_mp4(&buf);
    assert!(outcome.is_ok(), "decode failed: {:?}", outcome);

    let info = track_summary(&events).unwrap();
    assert_eq!(info.tracks.len(), 1);
    let track = &info.tracks[0];
    assert_eq!(track.id, 1);
    match track.info {
        TrackInfo::Audio(a) => {
            assert_eq!(a.channel_count, 2);
            assert_eq!(a.sample_rate.integer_part(), 44100);
            let rate = a.sample_rate.raw as f64 / 65536.0;
            assert!((rate - 44100.0).abs() < 1e-9);
        }
        other => panic!("unexpected kind: {:?}", other),
    }
}

#[test]
fn track_without_header_fails() {
    let trak = make_box(b"trak", &stsd_with_mp4a(2, 44100));
    let buf = make_box(b"moov", &trak);
    let (events, outcome) = parse_mp4(&buf);
    assert!(outcome.is_ok());
    let err = track_summary(&events).unwrap_err();
    assert_eq!(err, SummaryError::MissingTrackHeader { offset: 8 });
}

#[test]
fn track_without_sample_description_fails() {
    let trak = make_box(b"trak", &tkhd_with_id(4));
    let buf = make_box(b"moov", &trak);
    let (events, outcome) = parse_mp4(&buf);
    assert!(outcome.is_ok());
    let err = track_summary(&events).unwrap_err();
    assert_eq!(err, SummaryError::MissingSampleDescription { offset: 8 });
}

#[test]
fn two_tracks_are_both_summarised() {
    let mut t1 = tkhd_with_id(1);
    t1.extend_from_slice(&stsd_with_mp4a(2, 48000));
    let mut t2 = tkhd_with_id(2);
    t2.extend_from_slice(&stsd_with_mp4a(1, 8000));
    let mut moov_children = make_box(b"trak", &t1);
    moov_children.extend_from_slice(&make_box(b"trak", &t2));
    let buf = make_box(b"moov", &moov_children);
    let (events, outcome) = parse_mp4(&buf);
    assert!(outcome.is_ok(), "decode failed: {:?}", outcome);
    let info = track_summary(&events).unwrap();
    assert_eq!(info.tracks.len(), 2);
    assert_eq!(info.tracks[0].id, 1);
    assert_eq!(info.tracks[1].id, 2);
}

#[test]
fn file_without_tracks_summarises_to_nothing() {
    let buf = make_box(b"moov", &[]);
    let (events, outcome) = parse_mp4(&buf);
    assert!(outcome.is_ok());
    let info = track_summary(&events).unwrap();
    assert!(info.tracks.is_empty());
}
