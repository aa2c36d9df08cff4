//! Slicing of the sample pool into per-voice samples.

use vstd::prelude::*;
use crate::document::{decode_spec, Sfbk};
use crate::pool::{meld_data, pool_spec, words_le, SamplePool, SoundFontError};

verus! {

/// One record of the sample-header table, with offsets into the sample pool.
#[derive(Debug)]
pub struct SampleHeader {
    pub name: String,
    pub start: u32,
    pub end: u32,
    pub loop_start: u32,
    pub loop_end: u32,
    pub sample_rate: u32,
    pub origpitch: u8,
    pub pitchadj: i8,
    pub sample_link: u16,
    pub sample_type: u16,
}

/// One voice: its header's data rebased to its own start, and its slice of the pool.
#[derive(Debug)]
pub struct Sample {
    pub name: String,
    pub loop_start: usize,
    pub loop_end: usize,
    pub sample_rate: u32,
    pub orig_pitch: u8,
    pub pitch_adj: i8,
    pub sample_link: u16,
    pub sample_type: u16,
    pub bits: u32,
    pub data: Vec<i32>,
}

/// `x - y`, or zero where that would be negative.
pub open spec fn sat_sub(x: u32, y: u32) -> int {
    if x >= y {
        x - y
    } else {
        0
    }
}

/// The header's range lies within a pool of `len` samples.
pub open spec fn in_pool(h: SampleHeader, len: int) -> bool {
    h.start <= h.end && h.end <= len
}

/// `s` is the voice that header `h` selects from the pool `data` of depth `bits`.
pub open spec fn loaded_from(s: Sample, h: SampleHeader, bits: u32, data: Seq<i32>) -> bool {
    &&& s.name@ == h.name@
    &&& s.loop_start == sat_sub(h.loop_start, h.start)
    &&& s.loop_end == sat_sub(h.loop_end, h.start)
    &&& s.sample_rate == h.sample_rate
    &&& s.orig_pitch == h.origpitch
    &&& s.pitch_adj == h.pitchadj
    &&& s.sample_link == h.sample_link
    &&& s.sample_type == h.sample_type
    &&& s.bits == bits
    &&& s.data@ == data.subrange(h.start as int, h.end as int)
}

impl Sample {
    /// Slices the voice that `header` describes out of `pool`. Loop offsets are
    /// rebased to the voice's start by saturating subtraction, so a loop that
    /// begins before the voice clamps to zero.
    pub fn try_load(header: &SampleHeader, pool: &SamplePool) -> (r: Result<Sample, SoundFontError>)
        ensures
            in_pool(*header, pool.data@.len() as int) ==> r is Ok && loaded_from(
                r->Ok_0,
                *header,
                pool.bits,
                pool.data@,
            ),
            !in_pool(*header, pool.data@.len() as int) ==> r == Err::<Sample, SoundFontError>(
                SoundFontError::SampleOutOfRange,
            ),
    {
        if header.start > header.end || header.end as usize > pool.data.len() {
            return Err(SoundFontError::SampleOutOfRange);
        }
        let data = vstd::slice::slice_to_vec(
            vstd::slice::slice_subrange(pool.data.as_slice(), header.start as usize, header.end as usize),
        );
        Ok(Sample {
            name: header.name.clone(),
            loop_start: header.loop_start.saturating_sub(header.start) as usize,
            loop_end: header.loop_end.saturating_sub(header.start) as usize,
            sample_rate: header.sample_rate,
            orig_pitch: header.origpitch,
            pitch_adj: header.pitchadj,
            sample_link: header.sample_link,
            sample_type: header.sample_type,
            bits: pool.bits,
            data,
        })
    }
}

/// The decoded voices of a bank, in the order of its sample headers.
#[derive(Debug)]
pub struct SoundFont {
    pub samples: Vec<Sample>,
}

/// The bytes of an optional chunk.
pub open spec fn opt_view(o: Option<&[u8]>) -> Option<Seq<u8>> {
    match o {
        Some(e) => Some(e@),
        None => None,
    }
}

/// `r` is the outcome of assembling the voices of `headers` from the raw
/// 16-bit chunk `smpl` and the optional extension chunk `sm24`.
pub open spec fn assembled(
    smpl: Option<Seq<u8>>,
    sm24: Option<Seq<u8>>,
    headers: Seq<SampleHeader>,
    r: Result<SoundFont, SoundFontError>,
) -> bool {
    match smpl {
        None => r == Err::<SoundFont, SoundFontError>(SoundFontError::CouldNotFindSamples),
        Some(b) => match pool_spec(b, sm24) {
            Err(e) => r == Err::<SoundFont, SoundFontError>(e),
            Ok((bits, data)) => if forall|i: int|
                0 <= i < headers.len() ==> in_pool(#[trigger] headers[i], data.len() as int) {
                r is Ok && r->Ok_0.samples@.len() == headers.len() && forall|i: int|
                    0 <= i < headers.len() ==> loaded_from(
                        #[trigger] r->Ok_0.samples@[i],
                        headers[i],
                        bits,
                        Seq::new(data.len(), |j: int| data[j] as i32),
                    )
            } else {
                r == Err::<SoundFont, SoundFontError>(SoundFontError::SampleOutOfRange)
            },
        },
    }
}

impl SoundFont {
    /// Builds every voice from the raw 16-bit chunk `smpl`, the optional
    /// extension chunk `sm24` and the sample headers.
    pub fn assemble(smpl: Option<&[u8]>, sm24: Option<&[u8]>, headers: &Vec<SampleHeader>) -> (r: Result<
        SoundFont,
        SoundFontError,
    >)
        ensures
            assembled(opt_view(smpl), opt_view(sm24), headers@, r),
    {
        let b = match smpl {
            Some(b) => b,
            None => return Err(SoundFontError::CouldNotFindSamples),
        };
        let words = match words_le(b) {
            Ok(w) => w,
            Err(e) => return Err(e),
        };
        let pool = match meld_data(&words, sm24) {
            Ok(p) => p,
            Err(e) => return Err(e),
        };
        let ghost ext = opt_view(sm24);
        let ghost data = pool_spec(b@, ext)->Ok_0.1;
        proof {
            assert(pool.data@.len() == data.len());
            assert(pool.data@ =~= Seq::new(data.len(), |j: int| data[j] as i32));
        }
        let mut samples: Vec<Sample> = Vec::new();
        let mut i: usize = 0;
        while i < headers.len()
            invariant
                i <= headers@.len(),
                samples@.len() == i,
                smpl == Some(b),
                ext == opt_view(sm24),
                pool_spec(b@, ext) == Ok::<(u32, Seq<int>), SoundFontError>((pool.bits, data)),
                pool.data@ == Seq::new(data.len(), |j: int| data[j] as i32),
                forall|k: int| 0 <= k < i ==> in_pool(#[trigger] headers@[k], data.len() as int),
                forall|k: int|
                    0 <= k < i ==> loaded_from(#[trigger] samples@[k], headers@[k], pool.bits, pool.data@),
            decreases headers.len() - i,
        {
            let s = match Sample::try_load(&headers[i], &pool) {
                Ok(s) => s,
                Err(e) => {
                    proof {
                        assert(!in_pool(headers@[i as int], data.len() as int));
                        assert(!(forall|k: int|
                            0 <= k < headers@.len() ==> in_pool(#[trigger] headers@[k], data.len() as int)));
                    }
                    return Err(e);
                },
            };
            samples.push(s);
            i = i + 1;
        }
        Ok(SoundFont { samples })
    }

    /// Decodes the bank in `buf` and builds the voices that `headers` describe
    /// from its sample-data section.
    pub fn decode(buf: &[u8], headers: &Vec<SampleHeader>) -> (r: Result<SoundFont, SoundFontError>)
        ensures
            match decode_spec(buf@) {
                Err(e) => r == Err::<SoundFont, SoundFontError>(SoundFontError::ParseError(e)),
                Ok(doc) => assembled(doc.1[0], doc.1[1], headers@, r),
            },
    {
        let doc = match Sfbk::read(buf) {
            Ok(d) => d,
            Err(e) => return Err(SoundFontError::ParseError(e)),
        };
        let ext: Option<&[u8]> = match &doc.sdta.sm24 {
            Some(v) => Some(v.as_slice()),
            None => None,
        };
        proof {
            assert(opt_view(ext) == doc@.1[1]);
        }
        SoundFont::assemble(Some(doc.sdta.smpl.as_slice()), ext, headers)
    }
}

} // verus!
