//! Text decoding helpers: strict and lossy UTF-8 conversion, and decoding of
//! four-character box type tags, including the single-byte fallback used by
//! legacy tags that are not valid UTF-8.

use vstd::prelude::*;

use vstd::utf8::{
    decode_first_codepoint, decode_utf8, is_continuation_byte, is_leading_byte_width_1,
    is_leading_byte_width_2, length_of_first_scalar, not_overlong_encoding, not_surrogate,
    pop_first_scalar, valid_first_scalar, valid_leading_and_continuation_bytes_first_codepoint,
    valid_utf8,
};

verus! {

/// The characters obtained by reading each byte as one Unicode scalar value
/// with the byte's own code: the single-byte fallback used by legacy tags,
/// which coincides with UTF-8 on bytes below 0x80.
pub open spec fn byte_chars_of(b: Seq<u8>) -> Seq<char> {
    b.map(|i: int, c: u8| c as char)
}

/// What `String::from_utf8_lossy` yields on a byte sequence: a pure function
/// of the bytes alone, equal to the UTF-8 decoding wherever that is defined.
pub uninterp spec fn lossy_text_of(b: Seq<u8>) -> Seq<char>;

/// Relies on `String::from_utf8`: succeeds exactly on valid UTF-8 and then
/// yields the decoded characters.
#[verifier::external_body]
pub fn string_from_utf8(b: &Vec<u8>) -> (r: Option<String>)
    ensures
        r is Some <==> valid_utf8(b@),
        r matches Some(s) ==> s@ == decode_utf8(b@),
{
    String::from_utf8(b.clone()).ok()
}

/// Relies on `String::from_utf8_lossy`: the result depends on the bytes
/// alone, and valid UTF-8 input decodes without substitution.
#[verifier::external_body]
pub fn string_from_utf8_lossy(b: &Vec<u8>) -> (r: String)
    ensures
        r@ == lossy_text_of(b@),
        valid_utf8(b@) ==> r@ == decode_utf8(b@),
{
    String::from_utf8_lossy(b).to_string()
}

/// A sequence of bytes below 0x80 is valid UTF-8 and decodes to one
/// character per byte, each with the byte's own code.
pub proof fn lemma_ascii_bytes_decode(b: Seq<u8>)
    requires
        forall|i: int| 0 <= i < b.len() ==> b[i] < 0x80,
    ensures
        valid_utf8(b),
        decode_utf8(b) == byte_chars_of(b),
    decreases b.len(),
{
    if b.len() == 0 {
        assert(decode_utf8(b) =~= byte_chars_of(b));
    } else {
        assert(is_leading_byte_width_1(b[0]));
        assert(valid_first_scalar(b));
        assert(length_of_first_scalar(b) == 1);
        let rest = pop_first_scalar(b);
        assert(forall|i: int| 0 <= i < rest.len() ==> rest[i] < 0x80);
        lemma_ascii_bytes_decode(rest);
        let b0: u8 = b[0];
        assert(b0 & 0x7f == b0) by (bit_vector)
            requires
                b0 < 0x80,
        ;
        assert(decode_utf8(b) =~= byte_chars_of(b));
    }
}

/// The four bytes of a type tag, most significant first.
pub open spec fn tag_bytes(tag: u32) -> Seq<u8> {
    seq![(tag >> 24) as u8, (tag >> 16) as u8, (tag >> 8) as u8, tag as u8]
}

/// The UTF-8 encoding of the character whose code is the byte's own value:
/// one byte below 0x80, otherwise the two-byte encoding.
pub open spec fn latin1_unit(x: u8) -> Seq<u8> {
    if x < 0x80 {
        seq![x]
    } else {
        seq![(0xC0 | (x >> 6)) as u8, (0x80 | (x & 0x3F)) as u8]
    }
}

/// The UTF-8 encoding of a byte sequence read one character per byte.
pub open spec fn latin1_encode(b: Seq<u8>) -> Seq<u8>
    decreases b.len(),
{
    if b.len() == 0 {
        Seq::empty()
    } else {
        latin1_unit(b[0]) + latin1_encode(b.drop_first())
    }
}

/// Encoding each byte as the character with its own code yields valid
/// UTF-8 that decodes back to exactly those characters.
pub proof fn lemma_latin1_encode_decode(b: Seq<u8>)
    ensures
        valid_utf8(latin1_encode(b)),
        decode_utf8(latin1_encode(b)) == byte_chars_of(b),
    decreases b.len(),
{
    if b.len() == 0 {
        assert(decode_utf8(latin1_encode(b)) =~= byte_chars_of(b));
    } else {
        let x = b[0];
        let rest = b.drop_first();
        lemma_latin1_encode_decode(rest);
        let enc = latin1_encode(b);
        if x < 0x80 {
            assert(enc[0] == x);
            assert(is_leading_byte_width_1(enc[0]));
            assert(valid_first_scalar(enc));
            assert(length_of_first_scalar(enc) == 1);
            assert(pop_first_scalar(enc) =~= latin1_encode(rest));
            assert(x & 0x7f == x) by (bit_vector)
                requires
                    x < 0x80,
            ;
            assert(decode_utf8(enc) =~= byte_chars_of(b));
        } else {
            let u1: u8 = (0xC0 | (x >> 6)) as u8;
            let u2: u8 = (0x80 | (x & 0x3F)) as u8;
            assert(0xC0 <= u1 <= 0xDF && 0x80 <= u2 <= 0xBF && ((((u1 & 0x1F) as u32) << 6) | ((u2
                & 0x3f) as u32)) == x && x >= 0x80) by (bit_vector)
                requires
                    u1 == (0xC0 | (x >> 6)) as u8,
                    u2 == (0x80 | (x & 0x3F)) as u8,
                    x >= 0x80,
            ;
            assert(enc[0] == u1 && enc[1] == u2);
            assert(is_leading_byte_width_2(enc[0]) && is_continuation_byte(enc[1]));
            assert(!is_leading_byte_width_1(enc[0]));
            assert(valid_leading_and_continuation_bytes_first_codepoint(enc));
            assert(decode_first_codepoint(enc) == x as u32);
            assert(not_overlong_encoding(x as u32, 2));
            assert(not_surrogate(x as u32));
            assert(valid_first_scalar(enc));
            assert(length_of_first_scalar(enc) == 2);
            assert(pop_first_scalar(enc) =~= latin1_encode(rest));
            assert(decode_utf8(enc) =~= byte_chars_of(b));
        }
    }
}

/// Append the UTF-8 encoding of the character with the byte's own code.
fn push_latin1(enc: &mut Vec<u8>, x: u8)
    ensures
        final(enc)@ == old(enc)@ + latin1_unit(x),
{
    if x < 0x80 {
        enc.push(x);
        proof {
            assert(enc@ =~= old(enc)@ + latin1_unit(x));
        }
    } else {
        enc.push(0xC0 | (x >> 6));
        enc.push(0x80 | (x & 0x3F));
        proof {
            assert(enc@ =~= old(enc)@ + latin1_unit(x));
        }
    }
}

/// Decode a four-character type tag for display: as UTF-8 when its four
/// bytes are valid UTF-8, otherwise reading each raw byte as one character
/// with the byte's own code (the legacy single-byte fallback).
pub fn fourcc_to_string(tag: u32) -> (r: String)
    ensures
        valid_utf8(tag_bytes(tag)) ==> r@ == decode_utf8(tag_bytes(tag)),
        !valid_utf8(tag_bytes(tag)) ==> r@ == byte_chars_of(tag_bytes(tag)),
{
    let b0: u8 = (tag >> 24) as u8;
    let b1: u8 = (tag >> 16) as u8;
    let b2: u8 = (tag >> 8) as u8;
    let b3: u8 = tag as u8;
    let mut bytes: Vec<u8> = Vec::new();
    bytes.push(b0);
    bytes.push(b1);
    bytes.push(b2);
    bytes.push(b3);
    proof {
        assert(bytes@ =~= tag_bytes(tag));
    }
    match string_from_utf8(&bytes) {
        Some(s) => s,
        None => {
            let mut enc: Vec<u8> = Vec::new();
            push_latin1(&mut enc, b0);
            push_latin1(&mut enc, b1);
            push_latin1(&mut enc, b2);
            push_latin1(&mut enc, b3);
            proof {
                reveal_with_fuel(latin1_encode, 6);
                assert(tag_bytes(tag).drop_first() =~= seq![b1, b2, b3]);
                assert(seq![b1, b2, b3].drop_first() =~= seq![b2, b3]);
                assert(seq![b2, b3].drop_first() =~= seq![b3]);
                assert(seq![b3].drop_first() =~= Seq::<u8>::empty());
                assert(enc@ =~= latin1_encode(tag_bytes(tag)));
                lemma_latin1_encode_decode(tag_bytes(tag));
            }
            match string_from_utf8(&enc) {
                Some(s) => s,
                None => {
                    proof {
                        assert(false);
                    }
                    String::new()
                },
            }
        },
    }
}

} // verus!
