//! A verified codec for PNG-style chunks: self-describing binary records of
//! the form `[length][type][payload][checksum]`.
//!
//! The wire layout of a chunk is a 4-byte big-endian payload length, a 4-byte
//! chunk-type tag of ASCII letters, the payload bytes, and a 4-byte big-endian
//! CRC-32 checksum. As the format contract of this codec, the checksum uses
//! the CRC-32/ISO-HDLC parameterization and covers the chunk-type bytes
//! followed by the payload bytes, on encode and decode alike.
//! [`chunk_type::ChunkType`] models the tag and its bit-convention queries;
//! [`chunk::Chunk`] models a whole record and converts to and from the byte
//! layout.

use vstd::prelude::*;

pub mod chunk;
pub mod chunk_type;

verus! {

/// A byte is an ASCII letter, upper or lower case.
pub open spec fn is_alphabetic_byte(b: u8) -> bool {
    is_uppercase_byte(b) || is_lowercase_byte(b)
}

/// A byte is an ASCII capital letter, `A`-`Z`.
pub open spec fn is_uppercase_byte(b: u8) -> bool {
    65 <= b <= 90
}

/// A byte is an ASCII small letter, `a`-`z`.
pub open spec fn is_lowercase_byte(b: u8) -> bool {
    97 <= b <= 122
}

/// Every byte of the sequence is an ASCII letter.
pub open spec fn all_alphabetic(s: Seq<u8>) -> bool {
    forall|i: int| 0 <= i < s.len() ==> is_alphabetic_byte(#[trigger] s[i])
}

/// How a chunk, or a chunk-type tag, can fail to parse or to build.
#[derive(Debug, Clone, Copy, PartialEq, Eq)]
pub enum ChunkError {
    /// A chunk-type string whose byte length is not exactly 4.
    WrongLength { actual: usize },
    /// A chunk-type tag with a byte that is not an ASCII letter.
    InvalidChunkType { bytes: [u8; 4] },
    /// A payload longer than the 32-bit length field can represent.
    PayloadTooLarge { actual: usize },
    /// A buffer shorter than the 12-byte minimum envelope.
    TooShort { actual: usize },
    /// A buffer too short for its declared payload length plus the checksum.
    Truncated { length: u32, actual: usize },
    /// The stored checksum disagrees with the one recomputed from the bytes.
    ChecksumMismatch { expected: u32, stored: u32 },
    /// A payload that is not valid UTF-8 was read as text.
    NotUtf8,
}

/// The big-endian 4-byte encoding of a 32-bit value.
pub open spec fn spec_u32_to_be_bytes(x: u32) -> Seq<u8> {
    seq![(x >> 24) as u8, (x >> 16) as u8, (x >> 8) as u8, x as u8]
}

/// The 32-bit value held by 4 bytes in big-endian order.
pub open spec fn spec_u32_from_be_bytes(s: Seq<u8>) -> u32
    recommends
        s.len() == 4,
{
    ((s[0] as u32) << 24) | ((s[1] as u32) << 16) | ((s[2] as u32) << 8) | (s[3] as u32)
}

/// Reading back the big-endian encoding of a value yields the value.
pub proof fn lemma_u32_be_bytes_round_trip(x: u32)
    ensures
        spec_u32_from_be_bytes(spec_u32_to_be_bytes(x)) == x,
{
    let s = spec_u32_to_be_bytes(x);
    assert((((x >> 24) as u8) as u32) << 24 | (((x >> 16) as u8) as u32) << 16 | (((x
        >> 8) as u8) as u32) << 8 | ((x as u8) as u32) == x) by (bit_vector);
    assert(spec_u32_from_be_bytes(s) == x);
}

/// Two distinct 4-byte sequences read back as distinct 32-bit values.
pub proof fn lemma_u32_from_be_bytes_injective(a: Seq<u8>, b: Seq<u8>)
    requires
        a.len() == 4,
        b.len() == 4,
        spec_u32_from_be_bytes(a) == spec_u32_from_be_bytes(b),
    ensures
        a == b,
{
    let (a0, a1, a2, a3) = (a[0], a[1], a[2], a[3]);
    let (b0, b1, b2, b3) = (b[0], b[1], b[2], b[3]);
    assert(((a0 as u32) << 24 | (a1 as u32) << 16 | (a2 as u32) << 8 | (a3 as u32)) == ((b0
        as u32) << 24 | (b1 as u32) << 16 | (b2 as u32) << 8 | (b3 as u32)) ==> a0 == b0 && a1
        == b1 && a2 == b2 && a3 == b3) by (bit_vector);
    assert(a =~= b);
}

/// The 32-bit value held by 4 bytes given in big-endian order.
pub fn u32_from_be(b0: u8, b1: u8, b2: u8, b3: u8) -> (r: u32)
    ensures
        r == spec_u32_from_be_bytes(seq![b0, b1, b2, b3]),
{
    ((b0 as u32) << 24) | ((b1 as u32) << 16) | ((b2 as u32) << 8) | (b3 as u32)
}

/// Relies on `String::from_utf8`: it returns the decoded string exactly
/// when the bytes are a valid UTF-8 encoding, and an error otherwise.
#[verifier::external_body]
pub(crate) fn bytes_to_string(bytes: Vec<u8>) -> (r: Result<String, ChunkError>)
    ensures
        r is Ok <==> vstd::utf8::valid_utf8(bytes@),
        r matches Ok(s) ==> s@ == vstd::utf8::decode_utf8(bytes@),
        r is Err ==> r->Err_0 == ChunkError::NotUtf8,
{
    match String::from_utf8(bytes) {
        Ok(s) => Ok(s),
        Err(_) => Err(ChunkError::NotUtf8),
    }
}

/// Each byte read as the character with the same code. Faithful only below
/// 128, where bytes and UTF-8 coincide.
pub open spec fn chars_of_bytes(b: Seq<u8>) -> Seq<char> {
    b.map_values(|x: u8| x as char)
}

/// A sequence of bytes below 128 is valid UTF-8 and decodes to one
/// character per byte, each with the byte's own code.
pub proof fn lemma_ascii_decodes_to_itself(b: Seq<u8>)
    requires
        forall|i: int| 0 <= i < b.len() ==> #[trigger] b[i] < 0x80,
    ensures
        vstd::utf8::valid_utf8(b),
        vstd::utf8::decode_utf8(b) == chars_of_bytes(b),
    decreases b.len(),
{
    if b.len() == 0 {
        assert(vstd::utf8::decode_utf8(b) =~= chars_of_bytes(b));
    } else {
        let b0 = b[0];
        assert(vstd::utf8::is_leading_byte_width_1(b0));
        assert(b0 < 0x80 ==> b0 & 0x7f == b0) by (bit_vector);
        assert(vstd::utf8::valid_first_scalar(b));
        assert(vstd::utf8::length_of_first_scalar(b) == 1);
        let rest = vstd::utf8::pop_first_scalar(b);
        assert(rest =~= b.subrange(1, b.len() as int));
        assert(forall|i: int| 0 <= i < rest.len() ==> #[trigger] rest[i] < 0x80);
        lemma_ascii_decodes_to_itself(rest);
        assert(vstd::utf8::decode_first_scalar(b) == b0 as u32);
        assert(vstd::utf8::decode_utf8(b) =~= chars_of_bytes(b));
    }
}

/// The decimal digits of `x`, as ASCII bytes, most significant first and
/// without leading zeros (a single `0` for zero itself).
pub open spec fn spec_decimal_bytes(x: nat) -> Seq<u8>
    decreases x,
{
    if x < 10 {
        seq![(48 + x) as u8]
    } else {
        spec_decimal_bytes(x / 10) + seq![(48 + x % 10) as u8]
    }
}

/// Every byte of a decimal rendering is an ASCII digit.
pub proof fn lemma_decimal_bytes_are_digits(x: nat)
    ensures
        forall|i: int|
            0 <= i < spec_decimal_bytes(x).len() ==> 48 <= #[trigger] spec_decimal_bytes(x)[i]
                <= 57,
    decreases x,
{
    let s = spec_decimal_bytes(x);
    if x < 10 {
        assert(s[0] == (48 + x) as u8);
    } else {
        lemma_decimal_bytes_are_digits(x / 10);
        let p = spec_decimal_bytes(x / 10);
        assert forall|i: int| 0 <= i < s.len() implies 48 <= #[trigger] s[i] <= 57 by {
            if i < p.len() {
                assert(s[i] == p[i]);
            } else {
                assert(s[i] == (48 + x % 10) as u8);
            }
        }
    }
}

/// Appends the decimal digits of `x` to `out`, most significant first.
fn push_decimal(out: &mut Vec<u8>, x: u32)
    ensures
        final(out)@ == old(out)@ + spec_decimal_bytes(x as nat),
    decreases x,
{
    if x >= 10 {
        push_decimal(out, x / 10);
    }
    out.push((x % 10) as u8 + 48);
    proof {
        assert(out@ =~= old(out)@ + spec_decimal_bytes(x as nat));
    }
}

/// Renders a 32-bit value in decimal, most significant digit first.
pub fn u32_to_decimal(x: u32) -> (r: String)
    ensures
        r@ == chars_of_bytes(spec_decimal_bytes(x as nat)),
{
    let mut digits: Vec<u8> = Vec::new();
    push_decimal(&mut digits, x);
    proof {
        lemma_decimal_bytes_are_digits(x as nat);
        lemma_ascii_decodes_to_itself(digits@);
    }
    match bytes_to_string(digits) {
        Ok(s) => s,
        Err(_) => {
            proof {
                assert(false);
            }
            String::new()
        },
    }
}

/// Appends the big-endian 4-byte encoding of `x` to `out`.
pub fn push_u32_be(out: &mut Vec<u8>, x: u32)
    ensures
        final(out)@ == old(out)@ + spec_u32_to_be_bytes(x),
{
    out.push((x >> 24) as u8);
    out.push((x >> 16) as u8);
    out.push((x >> 8) as u8);
    out.push(x as u8);
    proof {
        assert(out@ =~= old(out)@ + spec_u32_to_be_bytes(x));
    }
}

} // verus!
