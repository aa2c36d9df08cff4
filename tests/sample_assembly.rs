use makeshift_instrument::pool::{combine_24, meld_data, words_le, SoundFontError};
use makeshift_instrument::chunk::{FourCC, SoundFontReadError};
use makeshift_instrument::voices::{Sample, SampleHeader, SoundFont};

fn header(start: u32, end: u32, loop_start: u32, loop_end: u32) -> SampleHeader {
    SampleHeader {
        name: String::from("Piano C4"),
        start,
        end,
        loop_start,
        loop_end,
        sample_rate: 44100,
        origpitch: 60,
        pitchadj: -3,
        sample_link: 0,
        sample_type: 1,
    }
}

#[test]
fn extension_byte_extends_word_to_24_bits() {
    assert_eq!(combine_24(0x1234, 0xAB), 0x1234AB);
    let pool = meld_data(&vec![0x1234, 0x5678], Some(&[0xAB, 0xCD][..])).unwrap();
    assert_eq!(pool.bits, 24);
    assert_eq!(pool.data, vec![0x1234AB, 0x5678CD]);
    let normalized = pool.data[0] as f64 / (1u32 << 23) as f64;
    assert!((-1.0..=1.0).contains(&normalized));
    assert!((normalized - 0x1234AB as f64 / 8388608.0).abs() < 1e-12);
}

#[test]
fn short_extension_chunk_is_rejected() {
    let r = meld_data(&vec![0x1234, 0x5678], Some(&[0xAB][..]));
    assert_eq!(r.err(), Some(SoundFontError::SampleCountsDoNotMatch));
}

#[test]
fn high_values_are_negative() {
    let pool = meld_data(&vec![0xFFFF, 0x8000], Some(&[0xFF, 0x00][..])).unwrap();
    assert_eq!(pool.data, vec![-1, -8388608]);
    let pool = meld_data(&vec![0xFFFF, 0x7FFF, 0x8000, 0], None).unwrap();
    assert_eq!(pool.bits, 16);
    assert_eq!(pool.data, vec![-1, 32767, -32768, 0]);
}

#[test]
fn odd_sample_counts_are_rejected() {
    assert_eq!(meld_data(&vec![1, 2, 3], None).err(), Some(SoundFontError::OddNumberOfSamples));
    assert_eq!(words_le(&[1, 2, 3]).err(), Some(SoundFontError::OddNumberOfSamples));
}

#[test]
fn words_are_little_endian() {
    assert_eq!(words_le(&[0x34, 0x12, 0x78, 0x56]), Ok(vec![0x1234, 0x5678]));
    assert_eq!(words_le(&[]), Ok(vec![]));
}

#[test]
fn sample_is_sliced_and_loop_rebased() {
    let pool = meld_data(&vec![0, 1, 2, 3, 4, 5], None).unwrap();
    let s = Sample::try_load(&header(2, 5, 3, 4), &pool).unwrap();
    assert_eq!(s.data, vec![2, 3, 4]);
    assert_eq!((s.loop_start, s.loop_end), (1, 2));
    assert_eq!(s.name, "Piano C4");
    assert_eq!((s.sample_rate, s.orig_pitch, s.pitch_adj, s.sample_type, s.bits), (44100, 60, -3, 1, 16));
    let clamped = Sample::try_load(&header(2, 5, 0, 1), &pool).unwrap();
    assert_eq!((clamped.loop_start, clamped.loop_end), (0, 0));
}

#[test]
fn sample_outside_pool_is_rejected() {
    let pool = meld_data(&vec![0, 1, 2, 3], None).unwrap();
    assert_eq!(Sample::try_load(&header(2, 5, 0, 0), &pool).err(), Some(SoundFontError::SampleOutOfRange));
    assert_eq!(Sample::try_load(&header(3, 2, 0, 0), &pool).err(), Some(SoundFontError::SampleOutOfRange));
}

#[test]
fn assemble_builds_every_voice() {
    let smpl = [1, 0, 2, 0, 3, 0, 4, 0];
    let font = SoundFont::assemble(Some(&smpl[..]), None, &vec![header(0, 2, 0, 1), header(1, 4, 2, 3)]).unwrap();
    assert_eq!(font.samples.len(), 2);
    assert_eq!(font.samples[0].data, vec![1, 2]);
    assert_eq!(font.samples[1].data, vec![2, 3, 4]);
    assert_eq!(font.samples[1].loop_start, 1);
}

#[test]
fn assemble_reports_each_failure() {
    assert_eq!(SoundFont::assemble(None, None, &vec![]).err(), Some(SoundFontError::CouldNotFindSamples));
    assert_eq!(SoundFont::assemble(Some(&[1, 0, 2][..]), None, &vec![]).err(), Some(SoundFontError::OddNumberOfSamples));
    assert_eq!(
        SoundFont::assemble(Some(&[1, 0, 2, 0][..]), Some(&[1][..]), &vec![]).err(),
        Some(SoundFontError::SampleCountsDoNotMatch)
    );
    assert_eq!(
        SoundFont::assemble(Some(&[1, 0, 2, 0][..]), None, &vec![header(0, 3, 0, 0)]).err(),
        Some(SoundFontError::SampleOutOfRange)
    );
}

fn chunk(tag: &[u8; 4], payload: &[u8]) -> Vec<u8> {
    let mut v = Vec::new();
    v.extend_from_slice(tag);
    v.extend_from_slice(&(payload.len() as u32).to_le_bytes());
    v.extend_from_slice(payload);
    if payload.len() % 2 == 1 {
        v.push(0);
    }
    v
}

fn list(outer: &[u8; 4], form: &[u8; 4], children: &[Vec<u8>]) -> Vec<u8> {
    let mut payload = Vec::new();
    payload.extend_from_slice(form);
    for c in children {
        payload.extend_from_slice(c);
    }
    chunk(outer, &payload)
}

fn bank_with(sdta: Vec<Vec<u8>>) -> Vec<u8> {
    let info = vec![chunk(b"ifil", &[2, 0, 1, 0]), chunk(b"isng", b"E\0"), chunk(b"inam", b"B\0")];
    let tags: [&[u8; 4]; 9] =
        [b"phdr", b"pbag", b"pmod", b"pgen", b"inst", b"ibag", b"imod", b"igen", b"shdr"];
    let pdta: Vec<Vec<u8>> = tags.iter().map(|t| chunk(t, &[0, 0])).collect();
    list(b"RIFF", b"sfbk", &[list(b"LIST", b"INFO", &info), list(b"LIST", b"sdta", &sdta), list(b"LIST", b"pdta", &pdta)])
}

#[test]
fn decode_builds_voices_from_bank_bytes() {
    let buf = bank_with(vec![
        chunk(b"smpl", &[0x34, 0x12, 0x78, 0x56, 0, 0, 0xFF, 0xFF]),
        chunk(b"sm24", &[0xAB, 0xCD, 0x01, 0xFF]),
    ]);
    let font = SoundFont::decode(&buf, &vec![header(0, 2, 1, 2), header(2, 4, 0, 0)]).unwrap();
    assert_eq!(font.samples[0].data, vec![0x1234AB, 0x5678CD]);
    assert_eq!(font.samples[0].bits, 24);
    assert_eq!(font.samples[1].data, vec![1, -1]);
}

#[test]
fn decode_reports_parse_and_sample_errors() {
    let buf = bank_with(vec![chunk(b"smpl", &[1, 0, 2, 0]), chunk(b"sm24", &[1])]);
    assert_eq!(SoundFont::decode(&buf, &vec![]).err(), Some(SoundFontError::SampleCountsDoNotMatch));
    let buf = bank_with(vec![chunk(b"sm24", &[1])]);
    assert_eq!(
        SoundFont::decode(&buf, &vec![]).err(),
        Some(SoundFontError::ParseError(SoundFontReadError::MissingExpectedChunk(FourCC(*b"smpl"))))
    );
}
