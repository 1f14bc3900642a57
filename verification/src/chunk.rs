//! A whole chunk record: length, type, payload and checksum, with the
//! conversions to and from the wire byte layout.

use vstd::prelude::*;

use crate::all_alphabetic;
use crate::bytes_to_string;
use crate::chars_of_bytes;
use crate::chunk_type::ChunkType;
use crate::push_u32_be;
use crate::spec_decimal_bytes;
use crate::spec_u32_from_be_bytes;
use crate::spec_u32_to_be_bytes;
use crate::u32_from_be;
use crate::u32_to_decimal;
use crate::ChunkError;
use vstd::string::StringExecFns;
use vstd::utf8::decode_utf8;
use vstd::utf8::valid_utf8;

verus! {

/// The length field of a serialized chunk: its first 4 bytes, big-endian.
pub open spec fn parsed_length(buf: Seq<u8>) -> u32
    recommends
        buf.len() >= 4,
{
    spec_u32_from_be_bytes(buf.subrange(0, 4))
}

/// The chunk-type field of a serialized chunk: bytes 4 to 8.
pub open spec fn parsed_type(buf: Seq<u8>) -> Seq<u8>
    recommends
        buf.len() >= 8,
{
    buf.subrange(4, 8)
}

/// The payload field of a serialized chunk: as many bytes after the type
/// field as the length field declares.
pub open spec fn parsed_data(buf: Seq<u8>) -> Seq<u8>
    recommends
        buf.len() >= 12 + parsed_length(buf),
{
    buf.subrange(8, 8 + parsed_length(buf) as int)
}

/// The stored checksum of a serialized chunk: the 4 bytes after the
/// payload, big-endian.
pub open spec fn parsed_crc(buf: Seq<u8>) -> u32
    recommends
        buf.len() >= 12 + parsed_length(buf),
{
    spec_u32_from_be_bytes(
        buf.subrange(8 + parsed_length(buf) as int, 12 + parsed_length(buf) as int),
    )
}

/// A byte buffer begins with one well-formed serialized chunk: it reaches
/// the 12-byte minimum envelope, its type field holds ASCII letters, it
/// reaches the end of the declared payload plus the trailing checksum, and
/// the stored checksum equals the one recomputed over type and payload.
pub open spec fn valid_encoding(buf: Seq<u8>) -> bool {
    &&& buf.len() >= 12
    &&& all_alphabetic(parsed_type(buf))
    &&& buf.len() >= 12 + parsed_length(buf)
    &&& parsed_crc(buf) == crc32_of(parsed_type(buf) + parsed_data(buf))
}

/// The 32-bit checksum that `crc::Crc::<u32>::checksum` computes for the
/// given bytes with the CRC-32/ISO-HDLC parameters. The codec uses it over
/// the chunk-type bytes followed by the payload bytes.
pub uninterp spec fn crc32_of(bytes: Seq<u8>) -> u32;

/// Relies on `crc::Crc::<u32>::checksum`: with a fixed algorithm (the
/// CRC-32/ISO-HDLC parameters) the checksum is a pure function of the input
/// bytes.
#[verifier::external_body]
fn crc32(bytes: &[u8]) -> (r: u32)
    ensures
        r == crc32_of(bytes@),
{
    crc::Crc::<u32>::new(&crc::CRC_32_ISO_HDLC).checksum(bytes)
}

/// A parsed or to-be-serialized chunk record. Every constructed value is
/// well formed: the length field equals the payload length and the checksum
/// field equals the checksum of the type and payload bytes.
#[derive(Debug, Clone, PartialEq, Eq)]
pub struct Chunk {
    length: u32,
    chunk_type: ChunkType,
    data: Vec<u8>,
    crc: u32,
}

impl Chunk {
    /// The value of the length field.
    pub closed spec fn spec_length(&self) -> u32 {
        self.length
    }

    /// The chunk-type tag.
    pub closed spec fn spec_chunk_type(&self) -> ChunkType {
        self.chunk_type
    }

    /// The payload bytes.
    pub closed spec fn spec_data(&self) -> Seq<u8> {
        self.data@
    }

    /// The value of the checksum field.
    pub closed spec fn spec_crc(&self) -> u32 {
        self.crc
    }

    /// The invariant every constructed chunk satisfies: a well-formed tag,
    /// a length field that equals the payload length, and a checksum field
    /// that equals the checksum of the tag and payload bytes.
    pub open spec fn wf(&self) -> bool {
        &&& self.spec_chunk_type().wf()
        &&& self.spec_data().len() <= u32::MAX
        &&& self.spec_length() == self.spec_data().len()
        &&& self.spec_crc() == crc32_of(self.spec_chunk_type()@ + self.spec_data())
    }

    /// Builds a chunk from a validated tag and a payload, computing the
    /// length and checksum fields. Fails only when the payload is longer
    /// than the 32-bit length field can represent.
    pub fn new(chunk_type: ChunkType, data: Vec<u8>) -> (r: Result<Chunk, ChunkError>)
        requires
            chunk_type.wf(),
        ensures
            r is Ok <==> data@.len() <= u32::MAX,
            r matches Ok(c) ==> {
                &&& c.wf()
                &&& c.spec_chunk_type() == chunk_type
                &&& c.spec_data() == data@
                &&& c.spec_length() == data@.len()
                &&& c.spec_crc() == crc32_of(chunk_type@ + data@)
            },
            data@.len() > u32::MAX ==> r == Err::<Chunk, ChunkError>(
                ChunkError::PayloadTooLarge { actual: data@.len() as usize },
            ),
    {
        if data.len() > u32::MAX as usize {
            return Err(ChunkError::PayloadTooLarge { actual: data.len() });
        }
        let tag = chunk_type.bytes();
        let mut checked: Vec<u8> = Vec::new();
        checked.push(tag[0]);
        checked.push(tag[1]);
        checked.push(tag[2]);
        checked.push(tag[3]);
        let mut i: usize = 0;
        while i < data.len()
            invariant
                i <= data.len(),
                checked@ == chunk_type@ + data@.subrange(0, i as int),
            decreases data.len() - i,
        {
            checked.push(data[i]);
            proof {
                assert(checked@ =~= chunk_type@ + data@.subrange(0, i + 1 as int));
            }
            i += 1;
        }
        proof {
            assert(checked@ =~= chunk_type@ + data@);
        }
        let crc = crc32(checked.as_slice());
        Ok(Chunk { length: data.len() as u32, chunk_type, data, crc })
    }

    /// The length of the payload in bytes.
    pub fn length(&self) -> (r: u32)
        ensures
            r == self.spec_length(),
    {
        self.length
    }

    /// The chunk-type tag of this chunk.
    pub fn chunk_type(&self) -> (r: &ChunkType)
        ensures
            *r == self.spec_chunk_type(),
    {
        &self.chunk_type
    }

    /// The payload bytes of this chunk.
    pub fn data(&self) -> (r: &[u8])
        ensures
            r@ == self.spec_data(),
    {
        self.data.as_slice()
    }

    /// The stored checksum of this chunk.
    pub fn crc(&self) -> (r: u32)
        ensures
            r == self.spec_crc(),
    {
        self.crc
    }

    /// The payload read as text. Fails exactly when the payload is not a
    /// valid UTF-8 encoding; the payload itself is never assumed to be text.
    pub fn data_as_string(&self) -> (r: Result<String, ChunkError>)
        ensures
            r is Ok <==> valid_utf8(self.spec_data()),
            r matches Ok(s) ==> s@ == decode_utf8(self.spec_data()),
            r is Err ==> r == Err::<String, ChunkError>(ChunkError::NotUtf8),
    {
        bytes_to_string(self.data.clone())
    }

    /// The text of the human-readable summary: the length, the tag as text,
    /// the payload size and the checksum, one line each.
    pub open spec fn spec_summary(&self) -> Seq<char> {
        "Chunk {\n  Length: "@ + chars_of_bytes(spec_decimal_bytes(self.spec_length() as nat))
            + "\n  Type: "@ + chars_of_bytes(self.spec_chunk_type()@) + "\n  Data: "@
            + chars_of_bytes(spec_decimal_bytes(self.spec_length() as nat)) + " bytes\n  Crc: "@
            + chars_of_bytes(spec_decimal_bytes(self.spec_crc() as nat)) + "\n}\n"@
    }

    /// Renders a multi-line human-readable summary of the chunk for
    /// diagnostics; the wire encoding is [`Self::as_bytes`], never this.
    pub fn to_text(&self) -> (r: String)
        requires
            self.spec_chunk_type().wf(),
        ensures
            r@ == self.spec_summary(),
    {
        let mut s = String::new();
        s.append("Chunk {\n  Length: ");
        s.append(u32_to_decimal(self.length).as_str());
        s.append("\n  Type: ");
        s.append(self.chunk_type.to_text().as_str());
        s.append("\n  Data: ");
        s.append(u32_to_decimal(self.length).as_str());
        s.append(" bytes\n  Crc: ");
        s.append(u32_to_decimal(self.crc).as_str());
        s.append("\n}\n");
        s
    }

    /// The wire byte layout of this chunk: big-endian length, the 4 type
    /// bytes, the payload verbatim, and the big-endian checksum.
    pub open spec fn encoding(&self) -> Seq<u8> {
        spec_u32_to_be_bytes(self.spec_length()) + self.spec_chunk_type()@ + self.spec_data()
            + spec_u32_to_be_bytes(self.spec_crc())
    }

    /// Serializes this chunk to its wire byte layout.
    pub fn as_bytes(&self) -> (r: Vec<u8>)
        ensures
            r@ == self.encoding(),
    {
        let mut out: Vec<u8> = Vec::new();
        push_u32_be(&mut out, self.length);
        let tag = self.chunk_type.bytes();
        out.push(tag[0]);
        out.push(tag[1]);
        out.push(tag[2]);
        out.push(tag[3]);
        let mut i: usize = 0;
        while i < self.data.len()
            invariant
                i <= self.data.len(),
                out@ == spec_u32_to_be_bytes(self.spec_length()) + self.spec_chunk_type()@
                    + self.spec_data().subrange(0, i as int),
            decreases self.data.len() - i,
        {
            out.push(self.data[i]);
            proof {
                assert(out@ =~= spec_u32_to_be_bytes(self.spec_length())
                    + self.spec_chunk_type()@ + self.spec_data().subrange(0, i + 1 as int));
            }
            i += 1;
        }
        proof {
            assert(self.spec_data().subrange(0, self.spec_data().len() as int)
                =~= self.spec_data());
        }
        push_u32_be(&mut out, self.crc);
        proof {
            assert(out@ =~= self.encoding());
        }
        out
    }

    /// Parses one serialized chunk from the start of a byte buffer and
    /// verifies its structure and checksum. Succeeds exactly on the buffers
    /// that begin with a well-formed serialized chunk; each failure names
    /// the first rule, in wire order, that the buffer breaks.
    pub fn try_from(bytes: &[u8]) -> (r: Result<Chunk, ChunkError>)
        ensures
            r is Ok <==> valid_encoding(bytes@),
            r matches Ok(c) ==> {
                &&& c.wf()
                &&& c.spec_length() == parsed_length(bytes@)
                &&& c.spec_chunk_type()@ == parsed_type(bytes@)
                &&& c.spec_data() == parsed_data(bytes@)
                &&& c.spec_crc() == parsed_crc(bytes@)
            },
            bytes@.len() < 12 ==> r == Err::<Chunk, ChunkError>(
                ChunkError::TooShort { actual: bytes@.len() as usize },
            ),
            bytes@.len() >= 12 && !all_alphabetic(parsed_type(bytes@)) ==> (r matches Err(e)
                && (e matches ChunkError::InvalidChunkType { bytes: t } && t@ == parsed_type(
                bytes@,
            ))),
            bytes@.len() >= 12 && all_alphabetic(parsed_type(bytes@)) && bytes@.len() < 12
                + parsed_length(bytes@) ==> r == Err::<Chunk, ChunkError>(
                ChunkError::Truncated {
                    length: parsed_length(bytes@),
                    actual: bytes@.len() as usize,
                },
            ),
            bytes@.len() >= 12 && all_alphabetic(parsed_type(bytes@)) && bytes@.len() >= 12
                + parsed_length(bytes@) && parsed_crc(bytes@) != crc32_of(
                parsed_type(bytes@) + parsed_data(bytes@),
            ) ==> r == Err::<Chunk, ChunkError>(
                ChunkError::ChecksumMismatch {
                    expected: crc32_of(parsed_type(bytes@) + parsed_data(bytes@)),
                    stored: parsed_crc(bytes@),
                },
            ),
    {
        let n = bytes.len();
        if n < 12 {
            return Err(ChunkError::TooShort { actual: n });
        }
        let length = u32_from_be(bytes[0], bytes[1], bytes[2], bytes[3]);
        proof {
            assert(bytes@.subrange(0, 4) =~= seq![bytes@[0], bytes@[1], bytes@[2], bytes@[3]]);
        }
        let tag = [bytes[4], bytes[5], bytes[6], bytes[7]];
        proof {
            assert(tag@ =~= parsed_type(bytes@));
        }
        let chunk_type = match ChunkType::try_from(tag) {
            Ok(t) => t,
            Err(e) => {
                return Err(e);
            },
        };
        if n - 12 < length as usize {
            return Err(ChunkError::Truncated { length, actual: n });
        }
        let payload_end: usize = 8 + length as usize;
        let mut checked: Vec<u8> = Vec::new();
        checked.push(tag[0]);
        checked.push(tag[1]);
        checked.push(tag[2]);
        checked.push(tag[3]);
        let mut payload: Vec<u8> = Vec::new();
        let mut i: usize = 8;
        while i < payload_end
            invariant
                8 <= i <= payload_end,
                payload_end == 8 + parsed_length(bytes@),
                bytes@.len() >= 12 + parsed_length(bytes@),
                payload@ == bytes@.subrange(8, i as int),
                checked@ == parsed_type(bytes@) + payload@,
            decreases payload_end - i,
        {
            let b = bytes[i];
            payload.push(b);
            checked.push(b);
            proof {
                assert(payload@ =~= bytes@.subrange(8, i + 1 as int));
            }
            i += 1;
        }
        let computed = crc32(checked.as_slice());
        let stored = u32_from_be(
            bytes[payload_end],
            bytes[payload_end + 1],
            bytes[payload_end + 2],
            bytes[payload_end + 3],
        );
        proof {
            assert(bytes@.subrange(8 + parsed_length(bytes@) as int, 12 + parsed_length(
                bytes@,
            ) as int) =~= seq![
                bytes@[payload_end as int],
                bytes@[payload_end + 1],
                bytes@[payload_end + 2],
                bytes@[payload_end + 3],
            ]);
        }
        if stored != computed {
            return Err(ChunkError::ChecksumMismatch { expected: computed, stored });
        }
        Ok(Chunk { length, chunk_type, data: payload, crc: stored })
    }
}

/// Round-trip law: the wire encoding of a well-formed chunk is a valid
/// encoding, and parsing it back yields exactly the chunk's fields. Together
/// with the contract of [`Chunk::try_from`], decoding the bytes that
/// [`Chunk::as_bytes`] produced returns the chunk unchanged.
pub proof fn lemma_round_trip(c: Chunk)
    requires
        c.wf(),
    ensures
        valid_encoding(c.encoding()),
        parsed_length(c.encoding()) == c.spec_length(),
        parsed_type(c.encoding()) == c.spec_chunk_type()@,
        parsed_data(c.encoding()) == c.spec_data(),
        parsed_crc(c.encoding()) == c.spec_crc(),
{
    let e = c.encoding();
    assert(e.len() == 12 + c.spec_data().len());
    assert(e.subrange(0, 4) =~= spec_u32_to_be_bytes(c.spec_length()));
    crate::lemma_u32_be_bytes_round_trip(c.spec_length());
    assert(parsed_length(e) == c.spec_length());
    assert(parsed_type(e) =~= c.spec_chunk_type()@);
    assert(parsed_data(e) =~= c.spec_data());
    assert(e.subrange(8 + parsed_length(e) as int, 12 + parsed_length(e) as int)
        =~= spec_u32_to_be_bytes(c.spec_crc()));
    crate::lemma_u32_be_bytes_round_trip(c.spec_crc());
    assert(parsed_crc(e) == c.spec_crc());
}

/// Checksum determinism law: the checksum of a well-formed chunk depends
/// only on its type and payload bytes, never on the length field or on when
/// the chunk was built. Two chunks over the same type and payload carry the
/// same checksum.
pub proof fn lemma_checksum_deterministic(a: Chunk, b: Chunk)
    requires
        a.wf(),
        b.wf(),
        a.spec_chunk_type()@ == b.spec_chunk_type()@,
        a.spec_data() == b.spec_data(),
    ensures
        a.spec_crc() == b.spec_crc(),
{
}

/// Corruption-detection law for the checksum field: changing any single
/// byte of the stored checksum of a valid encoding leaves a buffer that no
/// longer decodes, since the stored checksum then disagrees with the
/// recomputed one. (Corruption of a payload byte is caught by the checksum
/// recomputation itself; how reliably is a property of the CRC-32 function,
/// which the codec does not model.)
pub proof fn lemma_checksum_corruption_detected(buf: Seq<u8>, corrupt: Seq<u8>, i: int)
    requires
        valid_encoding(buf),
        corrupt.len() == buf.len(),
        8 + parsed_length(buf) <= i < 12 + parsed_length(buf),
        corrupt[i] != buf[i],
        forall|j: int| 0 <= j < buf.len() && j != i ==> corrupt[j] == buf[j],
    ensures
        !valid_encoding(corrupt),
{
    assert(corrupt.subrange(0, 4) =~= buf.subrange(0, 4));
    assert(parsed_length(corrupt) == parsed_length(buf));
    assert(parsed_type(corrupt) =~= parsed_type(buf));
    assert(parsed_data(corrupt) =~= parsed_data(buf));
    let n = parsed_length(buf) as int;
    let sc = corrupt.subrange(8 + n, 12 + n);
    let sb = buf.subrange(8 + n, 12 + n);
    assert(sc[i - 8 - n] != sb[i - 8 - n]);
    if parsed_crc(corrupt) == parsed_crc(buf) {
        crate::lemma_u32_from_be_bytes_injective(sc, sb);
        assert(false);
    }
}

} // verus!
