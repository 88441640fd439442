use mp4_parser::error::Mp4Error;
use mp4_parser::reader::Reader;

#[test]
fn read_unsigned_big_endian() {
    let buf = vec![0x01, 0x02, 0x03, 0x04, 0x05, 0x06, 0x07, 0x08];
    let mut r = Reader::new(&buf);
    assert_eq!(r.read_u16().unwrap(), 0x0102);
    assert_eq!(r.position(), 2);
    assert_eq!(r.read_u32().unwrap(), 0x0304_0506);
    assert_eq!(r.position(), 6);
    assert_eq!(r.read_u8().unwrap(), 0x07);
    assert_eq!(r.remaining(), 1);
}

#[test]
fn read_u64_big_endian() {
    let buf = vec![0xDE, 0xAD, 0xBE, 0xEF, 0x01, 0x02, 0x03, 0x04];
    let mut r = Reader::new(&buf);
    assert_eq!(r.read_u64().unwrap(), 0xDEAD_BEEF_0102_0304);
    assert_eq!(r.position(), 8);
}

#[test]
fn read_signed_big_endian() {
    let buf = vec![0xFF, 0xFF, 0xFF, 0xFF, 0xFF, 0xFE];
    let mut r = Reader::new(&buf);
    assert_eq!(r.read_i16().unwrap(), -1);
    assert_eq!(r.read_i32().unwrap(), -2);
}

#[test]
fn truncated_read_reports_context() {
    let buf = vec![0x01, 0x02];
    let mut r = Reader::new(&buf);
    assert_eq!(r.read_u8().unwrap(), 0x01);
    let err = r.read_u32().unwrap_err();
    assert_eq!(
        err,
        Mp4Error::Truncated { requested: 4, position: 1, length: 2 }
    );
    // The failed read leaves the cursor where it was.
    assert_eq!(r.position(), 1);
}

#[test]
fn skip_bytes_checks_bounds() {
    let buf = vec![0u8; 10];
    let mut r = Reader::new(&buf);
    r.skip_bytes(6).unwrap();
    assert_eq!(r.position(), 6);
    let err = r.skip_bytes(5).unwrap_err();
    assert_eq!(
        err,
        Mp4Error::Truncated { requested: 5, position: 6, length: 10 }
    );
    assert_eq!(r.position(), 6);
    r.skip_bytes(4).unwrap();
    assert_eq!(r.position(), 10);
}

#[test]
fn read_string_decodes_utf8() {
    let buf = b"isomrest".to_vec();
    let mut r = Reader::new(&buf);
    assert_eq!(r.read_string(4).unwrap(), "isom");
    assert_eq!(r.position(), 4);
}

#[test]
fn read_string_rejects_invalid_utf8() {
    let buf = vec![0xFF, 0xFE, 0x41, 0x42];
    let mut r = Reader::new(&buf);
    let err = r.read_string(4).unwrap_err();
    assert_eq!(err, Mp4Error::InvalidString { position: 0, length: 4 });
}

#[test]
fn read_string_inexact_is_lossy_and_bounded() {
    let buf = vec![0x41, 0xFF, 0x42];
    let mut r = Reader::new(&buf);
    let s = r.read_string_inexact(10);
    // Invalid bytes are replaced, not returned unchanged.
    assert_eq!(s, "A\u{FFFD}B");
    assert_eq!(r.position(), 3);
}

#[test]
fn read_bytes_returns_exact_slice() {
    let buf = vec![1, 2, 3, 4, 5];
    let mut r = Reader::new(&buf);
    assert_eq!(r.read_bytes(3).unwrap(), vec![1, 2, 3]);
    assert_eq!(r.read_exact(2).unwrap(), vec![4, 5]);
}
