use mp4_parser::boxes::{BoxHeader, FullBoxHeader, Mp4Box};
use mp4_parser::error::Mp4Error;
use mp4_parser::reader::Reader;

#[test]
fn minimal_header_has_empty_payload() {
    let buf = vec![0, 0, 0, 8, b'f', b'r', b'e', b'e'];
    let mut r = Reader::new(&buf);
    let h = BoxHeader::parse(&mut r).unwrap();
    assert_eq!(h.start_offset, 0);
    assert_eq!(h.box_size, 8);
    assert_eq!(h.inner_size, 0);
    assert_eq!(h.box_type, 0x6672_6565);
    assert_eq!(r.position(), 8);
}

#[test]
fn largesize_accounts_for_extension() {
    let mut buf = vec![0, 0, 0, 1, b'm', b'd', b'a', b't'];
    buf.extend_from_slice(&[0, 0, 0, 0, 0, 0, 0, 16]);
    let mut r = Reader::new(&buf);
    let h = BoxHeader::parse(&mut r).unwrap();
    assert_eq!(h.box_size, 16);
    // The 16 header bytes leave no payload.
    assert_eq!(h.inner_size, 0);
    assert_eq!(r.position(), 16);
}

#[test]
fn size_below_header_is_malformed() {
    let buf = vec![0, 0, 0, 7, b'f', b'r', b'e', b'e'];
    let mut r = Reader::new(&buf);
    let err = BoxHeader::parse(&mut r).unwrap_err();
    assert_eq!(
        err,
        Mp4Error::MalformedBox { box_type: 0x6672_6565, offset: 0, size: 7 }
    );
}

#[test]
fn largesize_below_extended_header_is_malformed() {
    let mut buf = vec![0, 0, 0, 1, b'm', b'd', b'a', b't'];
    buf.extend_from_slice(&[0, 0, 0, 0, 0, 0, 0, 15]);
    let mut r = Reader::new(&buf);
    let err = BoxHeader::parse(&mut r).unwrap_err();
    assert_eq!(
        err,
        Mp4Error::MalformedBox { box_type: 0x6D64_6174, offset: 0, size: 15 }
    );
}

#[test]
fn size_zero_is_unsupported_with_dump() {
    let buf = vec![0, 0, 0, 0, b'm', b'd', b'a', b't', 0xAA, 0xBB];
    let mut r = Reader::new(&buf);
    let err = BoxHeader::parse(&mut r).unwrap_err();
    match err {
        Mp4Error::SizeToEndOfFile { box_type, offset, next_bytes } => {
            assert_eq!(box_type, 0x6D64_6174);
            assert_eq!(offset, 0);
            assert_eq!(next_bytes, vec![0xAA, 0xBB]);
        }
        other => panic!("unexpected error: {:?}", other),
    }
}

#[test]
fn truncated_header() {
    let buf = vec![0, 0, 0, 8, b'f', b'r'];
    let mut r = Reader::new(&buf);
    let err = BoxHeader::parse(&mut r).unwrap_err();
    assert!(matches!(err, Mp4Error::Truncated { .. }));
}

#[test]
fn full_box_header_fields() {
    let buf = vec![1, 0xAA, 0xBB, 0xCC];
    let mut r = Reader::new(&buf);
    let h = FullBoxHeader::parse(&mut r).unwrap();
    assert_eq!(h.version, 1);
    assert_eq!(h.flags, [0xAA, 0xBB, 0xCC]);
    assert_eq!(r.position(), 4);
}

#[test]
fn header_type_string_decodes_ascii() {
    let buf = vec![0, 0, 0, 8, b'm', b'o', b'o', b'v'];
    let mut r = Reader::new(&buf);
    let h = BoxHeader::parse(&mut r).unwrap();
    assert_eq!(h.type_string(), "moov");
}

#[test]
fn box_names_are_stable() {
    assert_eq!(Mp4Box::Free.name(), "Free Space Box");
    assert_eq!(Mp4Box::Mdat.name(), "Media Data Box");
    assert_eq!(Mp4Box::Container("Movie Box (container)").name(), "Movie Box (container)");
}

#[test]
fn dispatcher_leaves_unknown_tags_alone() {
    let buf = vec![0u8; 16];
    let mut r = Reader::new(&buf);
    let outcome = Mp4Box::parse_contents(&mut r, 0x6162_6364, 8).unwrap();
    assert!(outcome.is_none());
    assert_eq!(r.position(), 0);
}
