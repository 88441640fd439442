use mp4_parser::boxes::{FileTypeBox, MovieHeaderBox, TrackHeaderBox};
use mp4_parser::logger::{Logger, LOG_LEVEL_DEBUG};
use mp4_parser::reader::Reader;
use mp4_parser::strings::fourcc_to_string;

#[test]
fn ascii_tag_decodes_directly() {
    assert_eq!(fourcc_to_string(0x6D6F_6F76), "moov");
    assert_eq!(fourcc_to_string(0x6674_7970), "ftyp");
    assert_eq!(fourcc_to_string(0x7572_6C20), "url ");
}

#[test]
fn legacy_tag_falls_back_to_one_character_per_byte() {
    // 0xA9 is not valid UTF-8 on its own; the tag reads as the copyright
    // glyph followed by "too".
    let s = fourcc_to_string(0xA974_6F6F);
    assert_eq!(s, "\u{A9}too");
    assert_eq!(s.chars().count(), 4);
}

#[test]
fn attribute_lists_expose_decoded_fields() {
    let mut p = Vec::new();
    p.extend_from_slice(b"isom");
    p.extend_from_slice(&7u32.to_be_bytes());
    let mut r = Reader::new(&p);
    let b = FileTypeBox::parse(&mut r, 8).unwrap();
    let attrs = b.print_attributes();
    assert_eq!(attrs.len(), 3);
    assert_eq!(attrs[0].label, "Major brand");
    assert_eq!(
        attrs[1].value,
        mp4_parser::boxes::AttrValue::Unsigned(7)
    );
}

#[test]
fn movie_header_attribute_count() {
    let mut p = vec![0, 0, 0, 0];
    p.extend_from_slice(&[0u8; 96]);
    let mut r = Reader::new(&p);
    let b = MovieHeaderBox::parse(&mut r, p.len() as u64).unwrap();
    assert_eq!(b.print_attributes().len(), 8);
}

#[test]
fn track_header_attribute_count() {
    let mut p = vec![0, 0, 0, 0];
    p.extend_from_slice(&[0u8; 80]);
    let mut r = Reader::new(&p);
    let b = TrackHeaderBox::parse(&mut r, p.len() as u64).unwrap();
    assert_eq!(b.print_attributes().len(), 13);
}

#[test]
fn logger_indentation_tracks_nesting() {
    let mut logger = Logger::new(LOG_LEVEL_DEBUG);
    assert_eq!(logger.verbosity, LOG_LEVEL_DEBUG);
    assert_eq!(logger.indent, 4);
    logger.increase_indent();
    logger.increase_indent();
    assert_eq!(logger.indent, 12);
    logger.decrease_indent();
    assert_eq!(logger.indent, 8);
}
