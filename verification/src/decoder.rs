//! Incremental UTF-8 decoding: one Unicode scalar value at a time from a byte source.
//!
//! Every call starts at a fresh leading byte. The decoder keeps nothing between calls but
//! what the source itself has not handed out yet.

use crate::error::Error;
use crate::transport::ByteSource;
use vstd::prelude::*;
use vstd::utf8::*;

verus! {

/// Mask for the leading byte of a sequence of one byte.
pub const MASK_1BYTE: u8 = 0b1000_0000;

/// What the leading byte of a sequence of one byte holds under its mask: `0xxxxxxx`.
pub const BITS_1BYTE: u8 = 0b0000_0000;

/// Mask for the leading byte of a sequence of two bytes.
pub const MASK_2BYTE: u8 = 0b1110_0000;

/// What the leading byte of a sequence of two bytes holds under its mask: `110xxxxx`.
pub const BITS_2BYTE: u8 = 0b1100_0000;

/// Mask for the leading byte of a sequence of three bytes.
pub const MASK_3BYTE: u8 = 0b1111_0000;

/// What the leading byte of a sequence of three bytes holds under its mask: `1110xxxx`.
pub const BITS_3BYTE: u8 = 0b1110_0000;

/// Mask for the leading byte of a sequence of four bytes.
pub const MASK_4BYTE: u8 = 0b1111_1000;

/// What the leading byte of a sequence of four bytes holds under its mask: `11110xxx`.
pub const BITS_4BYTE: u8 = 0b1111_0000;

/// Mask for a continuation byte.
pub const MASK_CONTINUATION: u8 = 0b1100_0000;

/// What a continuation byte holds under its mask: `10xxxxxx`.
pub const BITS_CONTINUATION: u8 = 0b1000_0000;

/// Contract of `char::from_u32` of the standard library, taken on trust: it returns the
/// character with the scalar value `i`, and `None` where `i` is no Unicode scalar value,
/// that is a surrogate (`0xD800` to `0xDFFF`) or a number above `0x10FFFF`.
pub assume_specification[ char::from_u32 ](i: u32) -> (c: Option<char>)
    ensures
        c == (if is_scalar(i) {
            Some(i as char)
        } else {
            None::<char>
        }),
;

/// Number of bytes of the sequence that the leading byte `lead` announces, or 0 where no
/// sequence starts with `lead`.
pub open spec fn sequence_width(lead: u8) -> nat {
    if is_leading_byte_width_1(lead) {
        1
    } else if is_leading_byte_width_2(lead) {
        2
    } else if is_leading_byte_width_3(lead) {
        3
    } else if is_leading_byte_width_4(lead) {
        4
    } else {
        0
    }
}

/// Whether `bytes` holds a continuation byte at `index`.
pub open spec fn continues_at(bytes: Seq<u8>, index: int) -> bool {
    index < bytes.len() && is_continuation_byte(bytes[index])
}

/// Where a sequence of `width` bytes at the front of `bytes` breaks off: the first index
/// behind the leading byte that `bytes` lacks or that holds no continuation byte, and
/// `width` itself where the sequence is whole.
pub open spec fn break_index(bytes: Seq<u8>, width: nat) -> nat {
    if width <= 1 || !continues_at(bytes, 1) {
        1
    } else if width <= 2 || !continues_at(bytes, 2) {
        2
    } else if width <= 3 || !continues_at(bytes, 3) {
        3
    } else {
        4
    }
}

/// What one decoding step does: its result, and the number of bytes that it takes from
/// the source.
pub ghost struct Decoded {
    pub result: Result<char, Error>,
    pub read: nat,
}

/// The decoding step on a source that still holds `bytes`.
///
/// An empty source is exhausted. A byte that starts no sequence is invalid, and is the
/// only byte taken. A sequence that breaks off is exhausted where the source ends there,
/// and invalid where another byte stands in place of a continuation byte; the offending
/// byte is taken too. A whole sequence gives its scalar value unless it is an overlong
/// form, a surrogate or a number above `0x10FFFF`.
pub open spec fn decode(bytes: Seq<u8>) -> Decoded {
    if bytes.len() == 0 {
        Decoded { result: Err(Error::SourceExhausted), read: 0 }
    } else {
        let width = sequence_width(bytes[0]);
        let stop = break_index(bytes, width);
        if width == 0 {
            Decoded { result: Err(Error::InvalidEncoding), read: 1 }
        } else if stop < width {
            if stop >= bytes.len() {
                Decoded { result: Err(Error::SourceExhausted), read: stop }
            } else {
                Decoded { result: Err(Error::InvalidEncoding), read: stop + 1 }
            }
        } else if valid_first_scalar(bytes) {
            Decoded { result: Ok(decode_first_scalar(bytes) as char), read: width }
        } else {
            Decoded { result: Err(Error::InvalidEncoding), read: width }
        }
    }
}

/// Reads one Unicode scalar value from `source`.
///
/// The leading byte decides how many bytes the sequence has. Each further byte is read
/// and checked in turn, so that a source that ends in the middle of a sequence
/// (`SourceExhausted`: more input may complete it) is told apart from malformed input
/// (`InvalidEncoding`).
pub fn try_read_char(source: &mut ByteSource) -> (res: Result<char, Error>)
    ensures
        res == decode(old(source)@).result,
        final(source)@ == old(source)@.skip(decode(old(source)@).read as int),
        final(source).taken() == old(source).taken() + decode(old(source)@).read,
{
    let ghost bytes = source@;
    let lead = match source.read_one_byte() {
        Ok(byte) => byte,
        Err(e) => {
            return Err(e);
        },
    };
    proof {
        utf8_byte_ranges_bitwise(lead);
    }
    let width: usize = if lead & MASK_1BYTE == BITS_1BYTE {
        1
    } else if lead & MASK_2BYTE == BITS_2BYTE {
        2
    } else if lead & MASK_3BYTE == BITS_3BYTE {
        3
    } else if lead & MASK_4BYTE == BITS_4BYTE {
        4
    } else {
        return Err(Error::InvalidEncoding);
    };
    let mut seq: [u8; 4] = [lead, 0, 0, 0];
    let mut count: usize = 1;
    while count < width
        invariant
            bytes == old(source)@,
            1 <= count <= width <= 4,
            width == sequence_width(bytes[0]),
            count <= bytes.len(),
            source@ == bytes.skip(count as int),
            source.taken() == old(source).taken() + count,
            forall|j: int| 1 <= j < count ==> continues_at(bytes, j),
            forall|j: int| 0 <= j < count ==> seq@[j] == bytes[j],
        decreases width - count,
    {
        let byte = match source.read_one_byte() {
            Ok(byte) => byte,
            Err(e) => {
                return Err(e);
            },
        };
        proof {
            utf8_byte_ranges_bitwise(byte);
        }
        if byte & MASK_CONTINUATION != BITS_CONTINUATION {
            return Err(Error::InvalidEncoding);
        }
        seq[count] = byte;
        count += 1;
    }
    let value: u32 = if width == 1 {
        (seq[0] & 0x7F) as u32
    } else if width == 2 {
        (((seq[0] & 0x1F) as u32) << 6) | ((seq[1] & 0x3F) as u32)
    } else if width == 3 {
        (((seq[0] & 0x0F) as u32) << 12) | (((seq[1] & 0x3F) as u32) << 6) | ((seq[2]
            & 0x3F) as u32)
    } else {
        (((seq[0] & 0x07) as u32) << 18) | (((seq[1] & 0x3F) as u32) << 12) | (((seq[2]
            & 0x3F) as u32) << 6) | ((seq[3] & 0x3F) as u32)
    };
    proof {
        lemma_codepoint_bounds(seq[0], seq[1], seq[2], seq[3]);
    }
    let overlong = (width == 2 && value < 0x80) || (width == 3 && value < 0x800) || (width == 4
        && value < 0x1_0000);
    if overlong {
        return Err(Error::InvalidEncoding);
    }
    match char::from_u32(value) {
        Some(c) => Ok(c),
        None => Err(Error::InvalidEncoding),
    }
}

/// A well-formed sequence at the front of the source decodes to its scalar value, and
/// exactly its bytes are taken.
pub proof fn lemma_decode_whole(bytes: Seq<u8>)
    requires
        valid_first_scalar(bytes),
    ensures
        decode(bytes) == (Decoded {
            result: Ok(decode_first_scalar(bytes) as char),
            read: length_of_first_scalar(bytes) as nat,
        }),
        1 <= length_of_first_scalar(bytes) <= 4,
        length_of_first_scalar(bytes) <= bytes.len(),
{
}

/// A well-formed sequence that is fed short by one byte or more exhausts the source:
/// every byte that is there is taken, and the input is not called invalid.
pub proof fn lemma_decode_cut_short(bytes: Seq<u8>, cut: int)
    requires
        valid_first_scalar(bytes),
        0 <= cut < length_of_first_scalar(bytes),
    ensures
        decode(bytes.take(cut)) == (Decoded {
            result: Err(Error::SourceExhausted),
            read: cut as nat,
        }),
{
    let short = bytes.take(cut);
    assert forall|j: int| 0 <= j < cut implies short[j] == bytes[j] by {}
}

/// A byte that starts no sequence is invalid wherever it leads; among these are the
/// bytes of the pattern `11111xxx` and the continuation bytes.
pub proof fn lemma_decode_bad_lead(bytes: Seq<u8>)
    requires
        bytes.len() > 0,
        bytes[0] & 0xF8 == 0xF8 || bytes[0] & 0xC0 == 0x80,
    ensures
        decode(bytes) == (Decoded { result: Err(Error::InvalidEncoding), read: 1 }),
{
    let lead = bytes[0];
    assert(lead & 0xF8 == 0xF8 ==> lead >= 0xF8) by (bit_vector);
    utf8_byte_ranges_bitwise(lead);
}

/// A byte that stands where a continuation byte is due, and is none, makes the input
/// invalid.
pub proof fn lemma_decode_bad_continuation(bytes: Seq<u8>, index: int)
    requires
        bytes.len() > 0,
        1 <= index < sequence_width(bytes[0]),
        index < bytes.len(),
        !is_continuation_byte(bytes[index]),
    ensures
        decode(bytes).result == Err::<char, Error>(Error::InvalidEncoding),
        decode(bytes).read <= index + 1,
{
}

/// Decoding undoes encoding: at the front of the UTF-8 encoding of a text the decoder
/// finds the first character of the text, takes exactly the bytes of that character, and
/// leaves the encoding of the rest of the text.
pub proof fn lemma_decode_text(text: Seq<char>)
    requires
        text.len() > 0,
    ensures
        decode(encode_utf8(text)) == (Decoded {
            result: Ok(text[0]),
            read: encode_scalar(text[0] as u32).len(),
        }),
        1 <= encode_scalar(text[0] as u32).len() <= 4,
        encode_utf8(text).skip(encode_scalar(text[0] as u32).len() as int) == encode_utf8(
            text.drop_first(),
        ),
        encode_utf8(text).len() == encode_scalar(text[0] as u32).len() + encode_utf8(
            text.drop_first(),
        ).len(),
{
    let bytes = encode_utf8(text);
    encode_utf8_first_scalar(text);
    lemma_decode_whole(bytes);
    char_u32_cast(text[0], decode_first_scalar(bytes));
    assert(bytes.skip(encode_scalar(text[0] as u32).len() as int) =~= encode_utf8(
        text.drop_first(),
    ));
}

/// How large the number assembled from a sequence of one, two or three bytes can get.
proof fn lemma_codepoint_bounds(b0: u8, b1: u8, b2: u8, b3: u8)
    ensures
        codepoint_width_1(b0) < 0x80,
        codepoint_width_2(b0, b1) < 0x800,
        codepoint_width_3(b0, b1, b2) < 0x1_0000,
{
    assert(codepoint_width_1(b0) < 0x80) by (bit_vector);
    assert(codepoint_width_2(b0, b1) < 0x800) by (bit_vector);
    assert(codepoint_width_3(b0, b1, b2) < 0x1_0000) by (bit_vector);
}

} // verus!
