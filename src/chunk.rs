//! Chunk headers of a RIFF-style container: a four-byte tag followed by a
//! four-byte little-endian payload length, with odd payloads padded by one byte.

use vstd::prelude::*;

verus! {

/// Four raw bytes that identify the kind of a chunk.
#[derive(Clone, Copy, Debug, PartialEq, Eq)]
pub struct FourCC(pub [u8; 4]);

impl FourCC {
    pub open spec fn view(&self) -> Seq<u8> {
        self.0@
    }

    /// Byte-exact comparison of two tags.
    pub fn same(&self, other: &FourCC) -> (r: bool)
        ensures
            r == (self@ == other@),
    {
        let r = self.0[0] == other.0[0] && self.0[1] == other.0[1] && self.0[2] == other.0[2]
            && self.0[3] == other.0[3];
        proof {
            if r {
                assert(self@ =~= other@);
            }
        }
        r
    }
}

/// Length of a chunk's payload in bytes, without header and without pad byte.
#[derive(Clone, Copy, Debug, PartialEq, Eq)]
pub struct ChunkSize(pub u32);

/// The eight bytes that introduce every chunk.
#[derive(Clone, Copy, Debug, PartialEq, Eq)]
pub struct ChunkHeader {
    pub chunk_id: FourCC,
    pub chunk_size: ChunkSize,
}

/// Errors of the chunk parser.
#[derive(Clone, Copy, Debug, PartialEq, Eq)]
pub enum SoundFontReadError {
    /// Fewer bytes remain in the current scope than a header or payload needs.
    NotEnoughRemainingData,
    /// A child chunk carries a tag that the active schema does not list.
    CouldNotFindMatchingChunk,
    /// A required chunk (wrapper, form or mandatory child) is absent; holds its tag.
    MissingExpectedChunk(FourCC),
    /// A child slot of the active schema occurs more than once.
    DuplicateChunk(FourCC),
}

/// Size of a chunk header in bytes.
pub const HEADER_LEN: usize = 8;

/// The four bytes at `i`, as a tag.
pub open spec fn tag_at(s: Seq<u8>, i: int) -> Seq<u8> {
    s.subrange(i, i + 4)
}

/// The little-endian unsigned integer stored in the four bytes at `i`.
pub open spec fn u32_le_at(s: Seq<u8>, i: int) -> int {
    s[i] as int + 256 * s[i + 1] as int + 65536 * s[i + 2] as int + 16777216 * s[i + 3] as int
}

/// Pad bytes that follow a payload of `size` bytes.
pub open spec fn pad_of(size: int) -> int {
    if size % 2 == 1 {
        1
    } else {
        0
    }
}

/// Bytes that a chunk with a payload of `size` bytes occupies: header, payload, pad.
pub open spec fn span_of(size: int) -> int {
    8 + size + pad_of(size)
}

impl ChunkHeader {
    pub open spec fn size(&self) -> int {
        self.chunk_size.0 as int
    }

    /// The header as it is stored at offset `i` of `s`.
    pub open spec fn stored_at(&self, s: Seq<u8>, i: int) -> bool {
        &&& 0 <= i && i + 8 <= s.len()
        &&& self.chunk_id@ == tag_at(s, i)
        &&& self.size() == u32_le_at(s, i + 4)
    }

    /// Number of pad bytes that follow the payload: one when its length is odd.
    pub fn pad_len(&self) -> (r: u8)
        ensures
            r as int == pad_of(self.size()),
    {
        (self.chunk_size.0 % 2) as u8
    }

    /// Bytes from the start of this chunk's header to the next sibling header.
    pub fn span(&self) -> (r: u64)
        ensures
            r as int == span_of(self.size()),
    {
        8 + self.chunk_size.0 as u64 + (self.chunk_size.0 % 2) as u64
    }
}

/// Reads the little-endian `u32` stored at `pos`.
pub fn read_u32_le(buf: &[u8], pos: usize) -> (r: u32)
    requires
        pos + 4 <= buf@.len(),
    ensures
        r as int == u32_le_at(buf@, pos as int),
{
    buf[pos] as u32 + 256 * (buf[pos + 1] as u32) + 65536 * (buf[pos + 2] as u32) + 16777216 * (
    buf[pos + 3] as u32)
}

/// Reads the header at `pos` within the scope that ends at `end`.
/// Fails when fewer than eight bytes remain in that scope; the tag is not checked.
pub fn read_chunk(buf: &[u8], pos: usize, end: usize) -> (r: Result<ChunkHeader, SoundFontReadError>)
    requires
        pos <= end <= buf@.len(),
    ensures
        end - pos < 8 ==> r == Err::<ChunkHeader, SoundFontReadError>(
            SoundFontReadError::NotEnoughRemainingData,
        ),
        end - pos >= 8 ==> r is Ok && r->Ok_0.stored_at(buf@, pos as int),
{
    if end - pos < HEADER_LEN {
        return Err(SoundFontReadError::NotEnoughRemainingData);
    }
    let chunk_id = FourCC([buf[pos], buf[pos + 1], buf[pos + 2], buf[pos + 3]]);
    let chunk_size = ChunkSize(read_u32_le(buf, pos + 4));
    proof {
        assert(chunk_id@ =~= tag_at(buf@, pos as int));
    }
    Ok(ChunkHeader { chunk_id, chunk_size })
}

} // verus!
