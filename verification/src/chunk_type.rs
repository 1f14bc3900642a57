//! The 4-byte chunk-type tag and its bit-convention queries.

use vstd::prelude::*;

use crate::all_alphabetic;
use crate::bytes_to_string;
use crate::chars_of_bytes;
use crate::is_alphabetic_byte;
use crate::is_lowercase_byte;
use crate::is_uppercase_byte;
use crate::lemma_ascii_decodes_to_itself;
use crate::ChunkError;
use vstd::string::StringSliceAdditionalSpecFns;

verus! {

/// A 4-byte chunk-type tag. Every constructed value holds four ASCII
/// letters; the case of each byte (bit 5, `0x20`) encodes one property of
/// the chunk it tags.
#[derive(Debug, Clone, Copy, PartialEq, Eq)]
pub struct ChunkType([u8; 4]);

impl View for ChunkType {
    type V = Seq<u8>;

    closed spec fn view(&self) -> Seq<u8> {
        self.0@
    }
}

/// For an ASCII letter, bit 5 is clear exactly on the capitals.
proof fn lemma_case_bit(b: u8)
    requires
        is_alphabetic_byte(b),
    ensures
        (b & 0x20 == 0) <==> is_uppercase_byte(b),
        (b & 0x20 == 0x20) <==> is_lowercase_byte(b),
{
    assert((65 <= b && b <= 90) || (97 <= b && b <= 122) ==> ((b & 0x20 == 0) <==> (65 <= b && b
        <= 90))) by (bit_vector);
    assert((65 <= b && b <= 90) || (97 <= b && b <= 122) ==> ((b & 0x20 == 0x20) <==> (97 <= b
        && b <= 122))) by (bit_vector);
}

impl ChunkType {
    /// All four bytes of the tag are ASCII letters.
    pub open spec fn wf(&self) -> bool {
        self@.len() == 4 && all_alphabetic(self@)
    }

    /// Validates 4 raw bytes as a chunk-type tag: every byte must be an
    /// ASCII letter.
    pub fn try_from(value: [u8; 4]) -> (r: Result<ChunkType, ChunkError>)
        ensures
            r is Ok <==> all_alphabetic(value@),
            r matches Ok(t) ==> t@ == value@ && t.wf(),
            r is Err ==> r == Err::<ChunkType, ChunkError>(
                ChunkError::InvalidChunkType { bytes: value },
            ),
    {
        if Self::is_valid_type(value) {
            Ok(ChunkType(value))
        } else {
            Err(ChunkError::InvalidChunkType { bytes: value })
        }
    }

    /// Validates a chunk-type tag given as text: the string must be exactly
    /// 4 bytes long, each an ASCII letter. A multi-byte character fails the
    /// letter check through its encoding, so non-ASCII text is rejected.
    pub fn from_str(s: &str) -> (r: Result<ChunkType, ChunkError>)
        ensures
            r is Ok <==> s.spec_bytes().len() == 4 && all_alphabetic(s.spec_bytes()),
            r matches Ok(t) ==> t@ == s.spec_bytes() && t.wf(),
            s.spec_bytes().len() != 4 ==> r == Err::<ChunkType, ChunkError>(
                ChunkError::WrongLength { actual: s.spec_bytes().len() as usize },
            ),
            s.spec_bytes().len() == 4 && !all_alphabetic(s.spec_bytes()) ==> (r matches Err(e)
                && (e matches ChunkError::InvalidChunkType { bytes } && bytes@ == s.spec_bytes())),
    {
        let b = s.as_bytes();
        if b.len() != 4 {
            return Err(ChunkError::WrongLength { actual: b.len() });
        }
        let value = [b[0], b[1], b[2], b[3]];
        proof {
            assert(value@ =~= s.spec_bytes());
        }
        Self::try_from(value)
    }

    /// Whether 4 raw bytes would make a valid tag: all ASCII letters.
    pub fn is_valid_type(value: [u8; 4]) -> (r: bool)
        ensures
            r == all_alphabetic(value@),
    {
        let mut i: usize = 0;
        while i < 4
            invariant
                i <= 4,
                forall|j: int| 0 <= j < i ==> is_alphabetic_byte(#[trigger] value@[j]),
            decreases 4 - i,
        {
            let b = value[i];
            if !((b >= 65 && b <= 90) || (b >= 97 && b <= 122)) {
                return false;
            }
            i += 1;
        }
        true
    }

    /// The byte array representation of the tag.
    pub fn bytes(&self) -> (r: [u8; 4])
        ensures
            r@ == self@,
    {
        self.0
    }

    /// The first byte is a capital: the chunk is critical and every reader
    /// must process it.
    pub fn is_critical(&self) -> (r: bool)
        ensures
            r == (self@[0] & 0x20 == 0),
            self.wf() ==> (r <==> is_uppercase_byte(self@[0])),
    {
        proof {
            if self.wf() {
                lemma_case_bit(self@[0]);
            }
        }
        self.0[0] & 0x20 == 0
    }

    /// The first byte is a small letter: the chunk is ancillary and a reader
    /// may skip it. The complement of [`Self::is_critical`].
    pub fn is_ancillary(&self) -> (r: bool)
        ensures
            r == (self@[0] & 0x20 == 0x20),
            self.wf() ==> (r <==> is_lowercase_byte(self@[0])),
    {
        proof {
            if self.wf() {
                lemma_case_bit(self@[0]);
            }
        }
        self.0[0] & 0x20 == 0x20
    }

    /// The second byte is a capital: the tag belongs to the public registry.
    pub fn is_public(&self) -> (r: bool)
        ensures
            r == (self@[1] & 0x20 == 0),
            self.wf() ==> (r <==> is_uppercase_byte(self@[1])),
    {
        proof {
            if self.wf() {
                lemma_case_bit(self@[1]);
            }
        }
        self.0[1] & 0x20 == 0
    }

    /// The second byte is a small letter: the tag is private. The complement
    /// of [`Self::is_public`].
    pub fn is_private(&self) -> (r: bool)
        ensures
            r == (self@[1] & 0x20 == 0x20),
            self.wf() ==> (r <==> is_lowercase_byte(self@[1])),
    {
        proof {
            if self.wf() {
                lemma_case_bit(self@[1]);
            }
        }
        self.0[1] & 0x20 == 0x20
    }

    /// The third byte is a capital: the reserved bit has its conforming
    /// value. A small letter is reserved for future use.
    pub fn is_reserved_bit_valid(&self) -> (r: bool)
        ensures
            r == (self@[2] & 0x20 == 0),
            self.wf() ==> (r <==> is_uppercase_byte(self@[2])),
    {
        proof {
            if self.wf() {
                lemma_case_bit(self@[2]);
            }
        }
        self.0[2] & 0x20 == 0
    }

    /// The fourth byte is a small letter: an editor that does not recognise
    /// the chunk may still copy it.
    pub fn is_safe_to_copy(&self) -> (r: bool)
        ensures
            r == (self@[3] & 0x20 == 0x20),
            self.wf() ==> (r <==> is_lowercase_byte(self@[3])),
    {
        proof {
            if self.wf() {
                lemma_case_bit(self@[3]);
            }
        }
        self.0[3] & 0x20 == 0x20
    }

    /// Renders the tag as 4-character text for diagnostics. The wire
    /// encoding always uses the raw bytes, never this form.
    pub fn to_text(&self) -> (r: String)
        requires
            self.wf(),
        ensures
            r@ == chars_of_bytes(self@),
    {
        let tag = self.bytes();
        let mut v: Vec<u8> = Vec::new();
        v.push(tag[0]);
        v.push(tag[1]);
        v.push(tag[2]);
        v.push(tag[3]);
        proof {
            assert(v@ =~= self@);
            lemma_ascii_decodes_to_itself(v@);
        }
        match bytes_to_string(v) {
            Ok(s) => s,
            Err(_) => {
                proof {
                    assert(false);
                }
                String::new()
            },
        }
    }

    /// The composite validity check of the tag convention adopted here: the
    /// reserved bit must be valid and the fourth byte must be an ASCII
    /// letter. (The stricter mixed-case convention found in some variants of
    /// the format is deliberately not used.)
    pub fn is_valid(&self) -> (r: bool)
        ensures
            r == (self@[2] & 0x20 == 0 && is_alphabetic_byte(self@[3])),
            self.wf() ==> (r <==> is_uppercase_byte(self@[2])),
    {
        proof {
            if self.wf() {
                lemma_case_bit(self@[2]);
            }
        }
        let third = self.0[2];
        let fourth = self.0[3];
        third & 0x20 == 0 && ((fourth >= 65 && fourth <= 90) || (fourth >= 97 && fourth <= 122))
    }
}

} // verus!
