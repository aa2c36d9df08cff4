//! Reconstruction of PCM sample data from the raw 16-bit chunk and its optional
//! low-byte extension.

use vstd::prelude::*;
use crate::chunk::SoundFontReadError;

verus! {

/// Errors of sample assembly.
#[derive(Clone, Copy, Debug, PartialEq, Eq)]
pub enum SoundFontError {
    /// The container itself could not be parsed.
    ParseError(SoundFontReadError),
    /// No 16-bit sample chunk is present.
    CouldNotFindSamples,
    /// The sample data has an odd number of bytes or of samples.
    OddNumberOfSamples,
    /// The extension chunk does not hold exactly one byte per 16-bit word.
    SampleCountsDoNotMatch,
    /// A sample header's `start..end` is reversed or lies beyond the pool.
    SampleOutOfRange,
}

/// The little-endian 16-bit word at index `i` of `b`.
pub open spec fn word_at(b: Seq<u8>, i: int) -> int {
    b[2 * i] as int + 256 * b[2 * i + 1] as int
}

/// A 16-bit word read as a two's-complement sample.
pub open spec fn signed16(w: int) -> int {
    if w < 32768 {
        w
    } else {
        w - 65536
    }
}

/// A 24-bit value read as a two's-complement sample.
pub open spec fn signed24(c: int) -> int {
    if c < 8388608 {
        c
    } else {
        c - 16777216
    }
}

/// The 24-bit value formed from a high word and a low byte: `(high << 8) | low`.
pub open spec fn combined(high: int, low: int) -> int {
    high * 256 + low
}

/// Outcome of assembling the pool from the raw chunks: its bit depth and its
/// signed samples.
pub open spec fn pool_spec(smpl: Seq<u8>, sm24: Option<Seq<u8>>) -> Result<(u32, Seq<int>), SoundFontError> {
    let n = smpl.len() / 2;
    if smpl.len() % 2 == 1 {
        Err(SoundFontError::OddNumberOfSamples)
    } else {
        match sm24 {
            Some(ext) => if ext.len() != n {
                Err(SoundFontError::SampleCountsDoNotMatch)
            } else if n % 2 == 1 {
                Err(SoundFontError::OddNumberOfSamples)
            } else {
                Ok((24u32, Seq::new(n, |i: int| signed24(combined(word_at(smpl, i), ext[i] as int)))))
            },
            None => if n % 2 == 1 {
                Err(SoundFontError::OddNumberOfSamples)
            } else {
                Ok((16u32, Seq::new(n, |i: int| signed16(word_at(smpl, i)))))
            },
        }
    }
}

/// Forms `(high << 8) | low`, the 24-bit value of one extended sample.
pub fn combine_24(high: u16, low: u8) -> (r: u32)
    ensures
        r as int == combined(high as int, low as int),
        r < 16777216,
{
    high as u32 * 256 + low as u32
}

/// Reads the bytes as little-endian 16-bit words; an odd byte count is an error.
pub fn words_le(bytes: &[u8]) -> (r: Result<Vec<u16>, SoundFontError>)
    ensures
        bytes@.len() % 2 == 1 ==> r == Err::<Vec<u16>, SoundFontError>(
            SoundFontError::OddNumberOfSamples,
        ),
        bytes@.len() % 2 == 0 ==> r is Ok && r->Ok_0@.len() == bytes@.len() / 2 && forall|i: int|
            0 <= i < bytes@.len() / 2 ==> r->Ok_0@[i] as int == #[trigger] word_at(bytes@, i),
{
    let len = bytes.len();
    if len % 2 == 1 {
        return Err(SoundFontError::OddNumberOfSamples);
    }
    let n = len / 2;
    let mut words: Vec<u16> = Vec::new();
    let mut i: usize = 0;
    while i < n
        invariant
            n == bytes@.len() / 2,
            len == bytes@.len(),
            i <= n,
            words@.len() == i,
            forall|j: int| 0 <= j < i ==> words@[j] as int == #[trigger] word_at(bytes@, j),
        decreases n - i,
    {
        let w = bytes[2 * i] as u16 + 256 * (bytes[2 * i + 1] as u16);
        words.push(w);
        i = i + 1;
    }
    Ok(words)
}

/// The decoded sample pool: every sample of the bank as a signed integer of
/// `bits` bits (16, or 24 with the extension chunk).
#[derive(Debug)]
pub struct SamplePool {
    pub bits: u32,
    pub data: Vec<i32>,
}

/// Combines the 16-bit words with the optional extension bytes into the pool.
pub fn meld_data(smpl: &Vec<u16>, sm24: Option<&[u8]>) -> (r: Result<SamplePool, SoundFontError>)
    ensures
        ({
            let n = smpl@.len();
            match sm24 {
                Some(ext) => if ext@.len() != n {
                    r == Err::<SamplePool, SoundFontError>(SoundFontError::SampleCountsDoNotMatch)
                } else if n % 2 == 1 {
                    r == Err::<SamplePool, SoundFontError>(SoundFontError::OddNumberOfSamples)
                } else {
                    r is Ok && r->Ok_0.bits == 24 && r->Ok_0.data@.len() == n && forall|i: int|
                        0 <= i < n ==> #[trigger] r->Ok_0.data@[i] as int == signed24(
                            combined(smpl@[i] as int, ext@[i] as int),
                        )
                },
                None => if n % 2 == 1 {
                    r == Err::<SamplePool, SoundFontError>(SoundFontError::OddNumberOfSamples)
                } else {
                    r is Ok && r->Ok_0.bits == 16 && r->Ok_0.data@.len() == n && forall|i: int|
                        0 <= i < n ==> #[trigger] r->Ok_0.data@[i] as int == signed16(smpl@[i] as int)
                },
            }
        }),
{
    let n = smpl.len();
    let mut data: Vec<i32> = Vec::new();
    match sm24 {
        Some(ext) => {
            if ext.len() != n {
                return Err(SoundFontError::SampleCountsDoNotMatch);
            }
            if n % 2 == 1 {
                return Err(SoundFontError::OddNumberOfSamples);
            }
            let mut i: usize = 0;
            while i < n
                invariant
                    n == smpl@.len(),
                    n == ext@.len(),
                    i <= n,
                    data@.len() == i,
                    forall|j: int|
                        0 <= j < i ==> #[trigger] data@[j] as int == signed24(
                            combined(smpl@[j] as int, ext@[j] as int),
                        ),
                decreases n - i,
            {
                let c = combine_24(smpl[i], ext[i]);
                let v: i32 = if c < 8388608 {
                    c as i32
                } else {
                    c as i32 - 16777216
                };
                data.push(v);
                i = i + 1;
            }
            Ok(SamplePool { bits: 24, data })
        },
        None => {
            if n % 2 == 1 {
                return Err(SoundFontError::OddNumberOfSamples);
            }
            let mut i: usize = 0;
            while i < n
                invariant
                    n == smpl@.len(),
                    i <= n,
                    data@.len() == i,
                    forall|j: int| 0 <= j < i ==> #[trigger] data@[j] as int == signed16(smpl@[j] as int),
                decreases n - i,
            {
                let w = smpl[i];
                let v: i32 = if w < 32768 {
                    w as i32
                } else {
                    w as i32 - 65536
                };
                data.push(v);
                i = i + 1;
            }
            Ok(SamplePool { bits: 16, data })
        },
    }
}

} // verus!
