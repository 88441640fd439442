use mp4_parser::error::Mp4Error;
use mp4_parser::parser::{_parse, finish_box, parse_mp4, Event, HandleUnknown};
use mp4_parser::reader::Reader;

fn make_box(tag: &[u8; 4], payload: &[u8]) -> Vec<u8> {
    let mut v = Vec::new();
    v.extend_from_slice(&((payload.len() as u32 + 8).to_be_bytes()));
    v.extend_from_slice(tag);
    v.extend_from_slice(payload);
    v
}

fn ftyp_isom() -> Vec<u8> {
    let mut p = Vec::new();
    p.extend_from_slice(b"isom");
    p.extend_from_slice(&0u32.to_be_bytes());
    make_box(b"ftyp", &p)
}

#[test]
fn minimal_file_gives_two_events_and_consumes_everything() {
    let mut buf = ftyp_isom();
    buf.extend_from_slice(&make_box(b"free", &[]));
    let total = buf.len() as u64;

    let mut reader = Reader::new(&buf);
    let mut events: Vec<Event> = Vec::new();
    let outcome = _parse(&mut reader, &mut events, HandleUnknown::Fail, total, 0);
    assert!(outcome.is_ok());
    assert_eq!(reader.position(), total);
    assert_eq!(events.len(), 2);
    match &events[0] {
        Event::Decoded { offset, size, depth, .. } => {
            assert_eq!(*offset, 0);
            assert_eq!(*size, 16);
            assert_eq!(*depth, 0);
        }
        other => panic!("unexpected event: {:?}", other),
    }
    match &events[1] {
        Event::Decoded { offset, size, .. } => {
            assert_eq!(*offset, 16);
            assert_eq!(*size, 8);
        }
        other => panic!("unexpected event: {:?}", other),
    }
}

#[test]
fn unknown_under_standard_container_fails() {
    let inner = make_box(b"abcd", &[0xAA; 4]);
    let buf = make_box(b"moov", &inner);
    let (_events, outcome) = parse_mp4(&buf);
    assert_eq!(
        outcome.unwrap_err(),
        Mp4Error::UnsupportedBoxType { box_type: 0x6162_6364, size: 12 }
    );
}

#[test]
fn unknown_under_user_data_is_skipped_at_correct_offset() {
    let mut children = make_box(b"abcd", &[0xAA; 4]);
    children.extend_from_slice(&make_box(b"free", &[]));
    let udta = make_box(b"udta", &children);
    let buf = make_box(b"moov", &udta);
    let (events, outcome) = parse_mp4(&buf);
    assert!(outcome.is_ok());
    // moov, udta, the skipped unknown, and the free sibling after it.
    assert_eq!(events.len(), 4);
    match &events[2] {
        Event::UnknownSkipped { offset, size, box_type, depth } => {
            assert_eq!(*offset, 16);
            assert_eq!(*size, 12);
            assert_eq!(*box_type, 0x6162_6364);
            assert_eq!(*depth, 2);
        }
        other => panic!("unexpected event: {:?}", other),
    }
    match &events[3] {
        Event::Decoded { offset, .. } => assert_eq!(*offset, 28),
        other => panic!("unexpected event: {:?}", other),
    }
}

#[test]
fn unknown_at_top_level_fails() {
    let buf = make_box(b"abcd", &[0; 4]);
    let (_events, outcome) = parse_mp4(&buf);
    assert!(matches!(outcome.unwrap_err(), Mp4Error::UnsupportedBoxType { .. }));
}

#[test]
fn trailing_leaf_bytes_are_skipped_to_box_end() {
    // An stco box declaring four unconsumed trailing bytes: the driver must
    // leave the cursor exactly at the box end.
    let mut p = vec![0, 0, 0, 0];
    p.extend_from_slice(&1u32.to_be_bytes()); // entry count
    p.extend_from_slice(&[0xEE; 4]); // entry, not parsed eagerly
    let buf = make_box(b"stco", &p);
    let total = buf.len() as u64;
    let mut reader = Reader::new(&buf);
    let mut events: Vec<Event> = Vec::new();
    let outcome = _parse(&mut reader, &mut events, HandleUnknown::Fail, total, 0);
    assert!(outcome.is_ok());
    assert_eq!(reader.position(), total);
}

#[test]
fn finish_box_lands_exactly_on_box_end() {
    let buf = vec![0u8; 10];
    let mut r = Reader::new(&buf);
    finish_box(&mut r, 0x6672_6565, 0, 6).unwrap();
    assert_eq!(r.position(), 6);
    // Already past the declared end: a decoder defect, reported loudly.
    let err = finish_box(&mut r, 0x6672_6565, 0, 4).unwrap_err();
    assert_eq!(
        err,
        Mp4Error::CursorBeyondBoxEnd { box_type: 0x6672_6565, offset: 0, position: 6, box_end: 4 }
    );
    assert_eq!(r.position(), 6);
}

#[test]
fn leaf_overrunning_declared_size_fails() {
    // A movie header needs 100 payload bytes but its box declares only 50,
    // with more buffer available behind it: the leaf parser overruns the
    // box end and the driver reports the defect.
    let mut p = vec![0u8; 50];
    p[0] = 0; // version 0
    let mut buf = make_box(b"mvhd", &p);
    buf[3] = 58; // declared size stays 8 + 50
    buf.extend_from_slice(&[0u8; 80]); // enough bytes to read past the box
    let total = buf.len() as u64;
    let mut reader = Reader::new(&buf);
    let mut events: Vec<Event> = Vec::new();
    let outcome = _parse(&mut reader, &mut events, HandleUnknown::Fail, total, 0);
    assert!(matches!(
        outcome.unwrap_err(),
        Mp4Error::CursorBeyondBoxEnd { .. }
    ));
}

#[test]
fn sibling_run_overrunning_its_range_fails() {
    // A box whose declared size runs past the range it was given.
    let buf = make_box(b"mdat", &[0u8; 8]);
    let mut reader = Reader::new(&buf);
    let mut events: Vec<Event> = Vec::new();
    let outcome = _parse(&mut reader, &mut events, HandleUnknown::Fail, 12, 0);
    assert!(matches!(
        outcome.unwrap_err(),
        Mp4Error::CursorBeyondBoxEnd { .. }
    ));
}

#[test]
fn truncated_payload_reports_truncation() {
    let mut buf = make_box(b"mdat", &[]);
    buf[3] = 32; // declares 24 payload bytes that are not there
    let (_events, outcome) = parse_mp4(&buf);
    assert!(matches!(outcome.unwrap_err(), Mp4Error::Truncated { .. }));
}

#[test]
fn free_space_padding_is_skipped() {
    // Encoders pad with non-empty free boxes; the driver skips the payload
    // and continues with the next sibling at the correct offset.
    let mut buf = make_box(b"free", &[1, 2, 3, 4]);
    buf.extend_from_slice(&make_box(b"mdat", &[9, 9]));
    let (events, outcome) = parse_mp4(&buf);
    assert!(outcome.is_ok());
    assert_eq!(events.len(), 2);
    match &events[1] {
        Event::Decoded { offset, .. } => assert_eq!(*offset, 12),
        other => panic!("unexpected event: {:?}", other),
    }
}

#[test]
fn quicktime_brand_raises_warning_but_continues() {
    let mut p = Vec::new();
    p.extend_from_slice(b"qt  ");
    p.extend_from_slice(&0u32.to_be_bytes());
    let buf = make_box(b"ftyp", &p);
    let (events, outcome) = parse_mp4(&buf);
    assert!(outcome.is_ok());
    assert_eq!(events.len(), 2);
    assert!(matches!(events[0], Event::CompatibilityWarning { .. }));
}

#[test]
fn nesting_too_deep_fails_distinctly() {
    let mut inner: Vec<u8> = Vec::new();
    for _ in 0..70 {
        inner = make_box(b"moov", &inner);
    }
    let (_events, outcome) = parse_mp4(&inner);
    assert!(matches!(outcome.unwrap_err(), Mp4Error::NestingTooDeep { .. }));
}

#[test]
fn metadata_items_are_decoded() {
    // moov > udta > meta > ilst > one encoder tag.
    let mut tag_payload = Vec::new();
    tag_payload.extend_from_slice(&12u32.to_be_bytes());
    tag_payload.extend_from_slice(&[0xA9]);
    tag_payload.extend_from_slice(b"too");
    tag_payload.extend_from_slice(b"Test");
    let ilst = make_box(b"ilst", &tag_payload);
    let mut meta_payload = vec![0, 0, 0, 0]; // full-box header of meta
    meta_payload.extend_from_slice(&ilst);
    let meta = make_box(b"meta", &meta_payload);
    let udta = make_box(b"udta", &meta);
    let buf = make_box(b"moov", &udta);
    let (events, outcome) = parse_mp4(&buf);
    assert!(outcome.is_ok(), "decode failed: {:?}", outcome);
    let tag = events.iter().find_map(|e| match e {
        Event::MetadataTag { tag, .. } => Some(tag.clone()),
        _ => None,
    });
    assert_eq!(tag.unwrap().0, "Test");
}

#[test]
fn unknown_metadata_item_fails() {
    let mut tag_payload = Vec::new();
    tag_payload.extend_from_slice(&12u32.to_be_bytes());
    tag_payload.extend_from_slice(b"aaaa");
    tag_payload.extend_from_slice(b"Test");
    let ilst = make_box(b"ilst", &tag_payload);
    let buf = make_box(b"moov", &ilst);
    let (_events, outcome) = parse_mp4(&buf);
    assert!(matches!(
        outcome.unwrap_err(),
        Mp4Error::UnsupportedMetadataItem { .. }
    ));
}

#[test]
fn empty_buffer_is_a_successful_empty_decode() {
    let buf: Vec<u8> = Vec::new();
    let (events, outcome) = parse_mp4(&buf);
    assert!(outcome.is_ok());
    assert!(events.is_empty());
}

#[test]
fn unknown_under_track_fragment_is_skipped() {
    let child = make_box(b"abcd", &[0u8; 4]);
    let traf = make_box(b"traf", &child);
    let moof = make_box(b"moof", &traf);
    let (events, outcome) = parse_mp4(&moof);
    assert!(outcome.is_ok());
    assert!(events.iter().any(|e| matches!(e, Event::UnknownSkipped { .. })));
}

#[test]
fn unknown_under_fragment_random_access_is_skipped() {
    let child = make_box(b"abcd", &[0u8; 4]);
    let mfra = make_box(b"mfra", &child);
    let (events, outcome) = parse_mp4(&mfra);
    assert!(outcome.is_ok());
    assert!(events.iter().any(|e| matches!(e, Event::UnknownSkipped { .. })));
}
