use makeshift_instrument::chunk::{read_chunk, read_u32_le, ChunkHeader, ChunkSize, FourCC, SoundFontReadError};
use makeshift_instrument::document::Sfbk;
use makeshift_instrument::schema::{parse_list, read_layout, Slot};

fn chunk(tag: &[u8; 4], payload: &[u8]) -> Vec<u8> {
    let mut v = Vec::new();
    v.extend_from_slice(tag);
    v.extend_from_slice(&(payload.len() as u32).to_le_bytes());
    v.extend_from_slice(payload);
    if payload.len() % 2 == 1 {
        v.push(0);
    }
    v
}

fn list(outer: &[u8; 4], form: &[u8; 4], children: &[Vec<u8>]) -> Vec<u8> {
    let mut payload = Vec::new();
    payload.extend_from_slice(form);
    for c in children {
        payload.extend_from_slice(c);
    }
    chunk(outer, &payload)
}

fn info_children() -> Vec<Vec<u8>> {
    vec![
        chunk(b"ifil", &[2, 0, 1, 0]),
        chunk(b"isng", b"EMU8000\0"),
        chunk(b"inam", b"Bank\0"),
    ]
}

fn sdta_children() -> Vec<Vec<u8>> {
    vec![chunk(b"smpl", &[0x34, 0x12, 0x78, 0x56])]
}

fn pdta_children() -> Vec<Vec<u8>> {
    let tags: [&[u8; 4]; 9] =
        [b"phdr", b"pbag", b"pmod", b"pgen", b"inst", b"ibag", b"imod", b"igen", b"shdr"];
    tags.iter().enumerate().map(|(i, t)| chunk(t, &vec![i as u8; i + 1])).collect()
}

fn bank(info: Vec<Vec<u8>>, sdta: Vec<Vec<u8>>, pdta: Vec<Vec<u8>>) -> Vec<u8> {
    list(
        b"RIFF",
        b"sfbk",
        &[list(b"LIST", b"INFO", &info), list(b"LIST", b"sdta", &sdta), list(b"LIST", b"pdta", &pdta)],
    )
}

#[test]
fn header_is_tag_then_little_endian_size() {
    let buf = chunk(b"abcd", &[1, 2, 3]);
    let h = read_chunk(&buf, 0, buf.len()).unwrap();
    assert_eq!(h.chunk_id, FourCC(*b"abcd"));
    assert_eq!(h.chunk_size, ChunkSize(3));
    assert_eq!(read_u32_le(&[0x78, 0x56, 0x34, 0x12], 0), 0x12345678);
}

#[test]
fn header_needs_eight_bytes() {
    let buf = [b'a', b'b', b'c', b'd', 1, 0, 0];
    assert_eq!(read_chunk(&buf, 0, buf.len()), Err(SoundFontReadError::NotEnoughRemainingData));
}

#[test]
fn odd_payload_is_followed_by_one_pad_byte() {
    let seven = ChunkHeader { chunk_id: FourCC(*b"abcd"), chunk_size: ChunkSize(7) };
    let eight = ChunkHeader { chunk_id: FourCC(*b"abcd"), chunk_size: ChunkSize(8) };
    assert_eq!(seven.pad_len(), 1);
    assert_eq!(seven.span(), 16);
    assert_eq!(eight.pad_len(), 0);
    assert_eq!(eight.span(), 16);
    let mut buf = chunk(b"aaaa", &[9; 7]);
    assert_eq!(buf.len(), 16);
    buf.extend(chunk(b"bbbb", &[9; 8]));
    buf.extend(chunk(b"cccc", &[]));
    assert_eq!(read_layout(&buf, 0, buf.len()), Ok(vec![0, 16, 32]));
}

#[test]
fn layout_spans_add_up_to_the_scope() {
    let mut buf = Vec::new();
    for n in [0usize, 1, 2, 5, 7, 8] {
        buf.extend(chunk(b"data", &vec![3; n]));
    }
    let starts = read_layout(&buf, 0, buf.len()).unwrap();
    let mut total: u64 = 0;
    for s in &starts {
        total += read_chunk(&buf, *s, buf.len()).unwrap().span();
    }
    assert_eq!(total, buf.len() as u64);
    assert_eq!(starts.len(), 6);
}

#[test]
fn layout_rejects_payload_past_scope() {
    let mut buf = chunk(b"aaaa", &[1, 2, 3, 4]);
    buf.truncate(10);
    assert_eq!(read_layout(&buf, 0, buf.len()), Err(SoundFontReadError::NotEnoughRemainingData));
    let odd = chunk(b"aaaa", &[1, 2, 3]);
    assert_eq!(read_layout(&odd, 0, odd.len() - 1), Err(SoundFontReadError::NotEnoughRemainingData));
}

#[test]
fn decodes_a_well_formed_bank() {
    let buf = bank(info_children(), sdta_children(), pdta_children());
    let doc = Sfbk::read(&buf).unwrap();
    assert_eq!(doc.info.ifil, vec![2, 0, 1, 0]);
    assert_eq!(doc.info.isng, b"EMU8000\0".to_vec());
    assert_eq!(doc.info.inam, b"Bank\0".to_vec());
    assert_eq!(doc.info.irom, None);
    assert_eq!(doc.info.icmt, None);
    assert_eq!(doc.sdta.smpl, vec![0x34, 0x12, 0x78, 0x56]);
    assert_eq!(doc.sdta.sm24, None);
    assert_eq!(doc.pdta.phdr, vec![0]);
    assert_eq!(doc.pdta.shdr, vec![8; 9]);
}

#[test]
fn optional_children_are_kept() {
    let mut info = info_children();
    info.push(chunk(b"icmt", b"a comment"));
    let sdta = vec![chunk(b"sm24", &[0xAB, 0xCD]), chunk(b"smpl", &[0x34, 0x12, 0x78, 0x56])];
    let doc = Sfbk::read(&bank(info, sdta, pdta_children())).unwrap();
    assert_eq!(doc.info.icmt, Some(b"a comment".to_vec()));
    assert_eq!(doc.sdta.sm24, Some(vec![0xAB, 0xCD]));
}

#[test]
fn decoding_twice_gives_the_same_document() {
    let buf = bank(info_children(), sdta_children(), pdta_children());
    let a = Sfbk::read(&buf).unwrap();
    let b = Sfbk::read(&buf).unwrap();
    assert_eq!(format!("{:?}", a), format!("{:?}", b));
    let broken = &buf[..buf.len() - 3];
    assert_eq!(Sfbk::read(broken).err(), Sfbk::read(broken).err());
}

#[test]
fn missing_mandatory_child_is_reported() {
    let info = info_children()[1..].to_vec();
    let r = Sfbk::read(&bank(info, sdta_children(), pdta_children()));
    assert_eq!(r.err(), Some(SoundFontReadError::MissingExpectedChunk(FourCC(*b"ifil"))));
}

#[test]
fn missing_section_is_reported() {
    let buf = list(b"RIFF", b"sfbk", &[list(b"LIST", b"INFO", &info_children()), list(b"LIST", b"sdta", &sdta_children())]);
    assert_eq!(Sfbk::read(&buf).err(), Some(SoundFontReadError::MissingExpectedChunk(FourCC(*b"pdta"))));
}

#[test]
fn unknown_child_is_rejected() {
    let mut pdta = pdta_children();
    pdta.insert(3, chunk(b"zzzz", &[1, 2]));
    let r = Sfbk::read(&bank(info_children(), sdta_children(), pdta));
    assert_eq!(r.err(), Some(SoundFontReadError::CouldNotFindMatchingChunk));
}

#[test]
fn repeated_child_is_rejected() {
    let mut info = info_children();
    info.push(chunk(b"inam", b"Other\0"));
    let r = Sfbk::read(&bank(info, sdta_children(), pdta_children()));
    assert_eq!(r.err(), Some(SoundFontReadError::DuplicateChunk(FourCC(*b"inam"))));
}

#[test]
fn wrong_wrapper_or_form_is_missing_expected_chunk() {
    let mut buf = bank(info_children(), sdta_children(), pdta_children());
    buf[0] = b'X';
    assert_eq!(Sfbk::read(&buf).err(), Some(SoundFontReadError::MissingExpectedChunk(FourCC(*b"RIFF"))));
    let mut buf = bank(info_children(), sdta_children(), pdta_children());
    buf[8] = b'X';
    assert_eq!(Sfbk::read(&buf).err(), Some(SoundFontReadError::MissingExpectedChunk(FourCC(*b"sfbk"))));
}

#[test]
fn truncated_bank_is_not_enough_data() {
    let buf = bank(info_children(), sdta_children(), pdta_children());
    assert_eq!(Sfbk::read(&buf[..buf.len() - 1]).err(), Some(SoundFontReadError::NotEnoughRemainingData));
    assert_eq!(Sfbk::read(&buf[..4]).err(), Some(SoundFontReadError::NotEnoughRemainingData));
}

#[test]
fn generic_list_parser_reports_slots() {
    let buf = list(b"LIST", b"test", &[chunk(b"bbbb", &[1]), chunk(b"aaaa", &[2, 3])]);
    let schema = vec![
        Slot { key: FourCC(*b"aaaa"), mandatory: true },
        Slot { key: FourCC(*b"bbbb"), mandatory: false },
        Slot { key: FourCC(*b"cccc"), mandatory: false },
    ];
    let slots = parse_list(&buf, 0, buf.len(), FourCC(*b"LIST"), FourCC(*b"test"), &schema).unwrap();
    assert_eq!(slots, vec![Some(22), Some(12), None]);
}
