//! The instrument-bank document: a `RIFF` wrapper of form `sfbk` that holds
//! three list sections, each parsed against its own table of child slots.

use vstd::prelude::*;
use vstd::slice::{slice_subrange, slice_to_vec};
use crate::chunk::{FourCC, SoundFontReadError};
use crate::schema::{
    lemma_parsed_slots, next_at, parse_list, parse_list_spec, size_at, slots_view, Slot, LIST_TAG,
};

verus! {

// Tags of the bank's chunks and the form tags of its sections, as four ASCII bytes.
pub const RIFF: [u8; 4] = [82, 73, 70, 70];

pub const SFBK: [u8; 4] = [115, 102, 98, 107];

pub const INFO_FORM: [u8; 4] = [73, 78, 70, 79];
pub const IFIL: [u8; 4] = [105, 102, 105, 108];
pub const ISNG: [u8; 4] = [105, 115, 110, 103];
pub const INAM: [u8; 4] = [105, 110, 97, 109];
pub const IROM: [u8; 4] = [105, 114, 111, 109];
pub const IVER: [u8; 4] = [105, 118, 101, 114];
pub const ICRD: [u8; 4] = [105, 99, 114, 100];
pub const IENG: [u8; 4] = [105, 101, 110, 103];
pub const IPRD: [u8; 4] = [105, 112, 114, 100];
pub const ICOP: [u8; 4] = [105, 99, 111, 112];
pub const ICMT: [u8; 4] = [105, 99, 109, 116];
pub const ISFT: [u8; 4] = [105, 115, 102, 116];
pub const SDTA_FORM: [u8; 4] = [115, 100, 116, 97];
pub const SMPL: [u8; 4] = [115, 109, 112, 108];
pub const SM24: [u8; 4] = [115, 109, 50, 52];
pub const PDTA_FORM: [u8; 4] = [112, 100, 116, 97];
pub const PHDR: [u8; 4] = [112, 104, 100, 114];
pub const PBAG: [u8; 4] = [112, 98, 97, 103];
pub const PMOD: [u8; 4] = [112, 109, 111, 100];
pub const PGEN: [u8; 4] = [112, 103, 101, 110];
pub const INST: [u8; 4] = [105, 110, 115, 116];
pub const IBAG: [u8; 4] = [105, 98, 97, 103];
pub const IMOD: [u8; 4] = [105, 109, 111, 100];
pub const IGEN: [u8; 4] = [105, 103, 101, 110];
pub const SHDR: [u8; 4] = [115, 104, 100, 114];

/// The payload of the chunk whose header starts at `c`.
pub open spec fn payload_at(s: Seq<u8>, c: int) -> Seq<u8> {
    s.subrange(c + 8, c + 8 + size_at(s, c))
}

/// The payload of the child that fills a slot, if any.
pub open spec fn leaf_of(s: Seq<u8>, o: Option<int>) -> Option<Seq<u8>> {
    match o {
        Some(c) => Some(payload_at(s, c)),
        None => None,
    }
}

/// The bytes of an optional payload.
pub open spec fn opt_bytes(o: Option<Vec<u8>>) -> Option<Seq<u8>> {
    match o {
        Some(v) => Some(v@),
        None => None,
    }
}

/// Outcome of parsing the list section of form `form` at `start` within
/// `[start, end)`: the payload of the child in each slot of `schema`.
pub open spec fn section_spec(s: Seq<u8>, start: int, end: int, form: FourCC, schema: Seq<Slot>) -> Result<Seq<Option<Seq<u8>>>, SoundFontReadError> {
    match parse_list_spec(s, start, end, FourCC(LIST_TAG), form, schema) {
        Err(e) => Err(e),
        Ok(slots) => Ok(slots.map_values(|o: Option<int>| leaf_of(s, o))),
    }
}

/// Copies the payload of the chunk at `c` verbatim.
fn read_leaf(buf: &[u8], c: usize) -> (r: Vec<u8>)
    requires
        0 <= c,
        c + 8 <= buf@.len(),
        next_at(buf@, c as int) <= buf@.len(),
    ensures
        r@ == payload_at(buf@, c as int),
{
    let len = buf.len();
    let size = crate::chunk::read_u32_le(buf, c + 4) as usize;
    let from = c + 8;
    assert(from + size <= len);
    slice_to_vec(slice_subrange(buf, from, from + size))
}

fn read_slot(buf: &[u8], slots: &Vec<Option<usize>>, i: usize) -> (r: Option<Vec<u8>>)
    requires
        i < slots@.len(),
        slots@[i as int] matches Some(c) ==> c + 8 <= buf@.len() && next_at(buf@, c as int) <= buf@.len(),
    ensures
        opt_bytes(r) == leaf_of(buf@, slots_view(slots@)[i as int]),
{
    match slots[i] {
        Some(c) => Some(read_leaf(buf, c)),
        None => None,
    }
}

/// Metadata of the bank: version, engine, names and optional descriptive text.
#[derive(Debug)]
pub struct Info {
    pub ifil: Vec<u8>,
    pub isng: Vec<u8>,
    pub inam: Vec<u8>,
    pub irom: Option<Vec<u8>>,
    pub iver: Option<Vec<u8>>,
    pub icrd: Option<Vec<u8>>,
    pub ieng: Option<Vec<u8>>,
    pub iprd: Option<Vec<u8>>,
    pub icop: Option<Vec<u8>>,
    pub icmt: Option<Vec<u8>>,
    pub isft: Option<Vec<u8>>,
}

pub open spec fn info_schema() -> Seq<Slot> {
    seq![
        Slot { key: FourCC(IFIL), mandatory: true },
        Slot { key: FourCC(ISNG), mandatory: true },
        Slot { key: FourCC(INAM), mandatory: true },
        Slot { key: FourCC(IROM), mandatory: false },
        Slot { key: FourCC(IVER), mandatory: false },
        Slot { key: FourCC(ICRD), mandatory: false },
        Slot { key: FourCC(IENG), mandatory: false },
        Slot { key: FourCC(IPRD), mandatory: false },
        Slot { key: FourCC(ICOP), mandatory: false },
        Slot { key: FourCC(ICMT), mandatory: false },
        Slot { key: FourCC(ISFT), mandatory: false },
    ]
}

fn info_slots() -> (r: Vec<Slot>)
    ensures
        r@ == info_schema(),
{
    let r = vec![
        Slot { key: FourCC(IFIL), mandatory: true },
        Slot { key: FourCC(ISNG), mandatory: true },
        Slot { key: FourCC(INAM), mandatory: true },
        Slot { key: FourCC(IROM), mandatory: false },
        Slot { key: FourCC(IVER), mandatory: false },
        Slot { key: FourCC(ICRD), mandatory: false },
        Slot { key: FourCC(IENG), mandatory: false },
        Slot { key: FourCC(IPRD), mandatory: false },
        Slot { key: FourCC(ICOP), mandatory: false },
        Slot { key: FourCC(ICMT), mandatory: false },
        Slot { key: FourCC(ISFT), mandatory: false },
    ];
    proof {
        assert(r@ =~= info_schema());
    }
    r
}

impl Info {
    /// The payload of each slot, in the order of the section's schema.
    pub open spec fn view(&self) -> Seq<Option<Seq<u8>>> {
        seq![
            Some(self.ifil@),
            Some(self.isng@),
            Some(self.inam@),
            opt_bytes(self.irom),
            opt_bytes(self.iver),
            opt_bytes(self.icrd),
            opt_bytes(self.ieng),
            opt_bytes(self.iprd),
            opt_bytes(self.icop),
            opt_bytes(self.icmt),
            opt_bytes(self.isft),
        ]
    }

    /// Parses the `LIST` section of form `INFO` at `start`, bounded by `end`.
    pub fn read(buf: &[u8], start: usize, end: usize) -> (r: Result<Info, SoundFontReadError>)
        requires
            start <= end <= buf@.len(),
        ensures
            match section_spec(buf@, start as int, end as int, FourCC(INFO_FORM), info_schema()) {
                Ok(v) => r is Ok && r->Ok_0.view() == v,
                Err(e) => r == Err::<Info, SoundFontReadError>(e),
            },
    {
        let schema = info_slots();
        let slots = match parse_list(buf, start, end, FourCC(LIST_TAG), FourCC(INFO_FORM), &schema) {
            Ok(s) => s,
            Err(e) => return Err(e),
        };
        proof {
            lemma_parsed_slots(buf@, start as int, end as int, FourCC(LIST_TAG), FourCC(INFO_FORM), info_schema());
        }
        let ifil = read_slot(buf, &slots, 0).unwrap();
        let isng = read_slot(buf, &slots, 1).unwrap();
        let inam = read_slot(buf, &slots, 2).unwrap();
        let irom = read_slot(buf, &slots, 3);
        let iver = read_slot(buf, &slots, 4);
        let icrd = read_slot(buf, &slots, 5);
        let ieng = read_slot(buf, &slots, 6);
        let iprd = read_slot(buf, &slots, 7);
        let icop = read_slot(buf, &slots, 8);
        let icmt = read_slot(buf, &slots, 9);
        let isft = read_slot(buf, &slots, 10);
        let r = Info { ifil, isng, inam, irom, iver, icrd, ieng, iprd, icop, icmt, isft };
        proof {
            assert(r.view() =~= slots_view(slots@).map_values(|o: Option<int>| leaf_of(buf@, o)));
        }
        Ok(r)
    }
}

/// Raw sample data: 16-bit words and an optional low-byte extension.
#[derive(Debug)]
pub struct Sdta {
    pub smpl: Vec<u8>,
    pub sm24: Option<Vec<u8>>,
}

pub open spec fn sdta_schema() -> Seq<Slot> {
    seq![
        Slot { key: FourCC(SMPL), mandatory: true },
        Slot { key: FourCC(SM24), mandatory: false },
    ]
}

fn sdta_slots() -> (r: Vec<Slot>)
    ensures
        r@ == sdta_schema(),
{
    let r = vec![
        Slot { key: FourCC(SMPL), mandatory: true },
        Slot { key: FourCC(SM24), mandatory: false },
    ];
    proof {
        assert(r@ =~= sdta_schema());
    }
    r
}

impl Sdta {
    /// The payload of each slot, in the order of the section's schema.
    pub open spec fn view(&self) -> Seq<Option<Seq<u8>>> {
        seq![
            Some(self.smpl@),
            opt_bytes(self.sm24),
        ]
    }

    /// Parses the `LIST` section of form `sdta` at `start`, bounded by `end`.
    pub fn read(buf: &[u8], start: usize, end: usize) -> (r: Result<Sdta, SoundFontReadError>)
        requires
            start <= end <= buf@.len(),
        ensures
            match section_spec(buf@, start as int, end as int, FourCC(SDTA_FORM), sdta_schema()) {
                Ok(v) => r is Ok && r->Ok_0.view() == v,
                Err(e) => r == Err::<Sdta, SoundFontReadError>(e),
            },
    {
        let schema = sdta_slots();
        let slots = match parse_list(buf, start, end, FourCC(LIST_TAG), FourCC(SDTA_FORM), &schema) {
            Ok(s) => s,
            Err(e) => return Err(e),
        };
        proof {
            lemma_parsed_slots(buf@, start as int, end as int, FourCC(LIST_TAG), FourCC(SDTA_FORM), sdta_schema());
        }
        let smpl = read_slot(buf, &slots, 0).unwrap();
        let sm24 = read_slot(buf, &slots, 1);
        let r = Sdta { smpl, sm24 };
        proof {
            assert(r.view() =~= slots_view(slots@).map_values(|o: Option<int>| leaf_of(buf@, o)));
        }
        Ok(r)
    }
}

/// The fixed-record tables of presets, instruments and sample headers.
#[derive(Debug)]
pub struct Pdta {
    pub phdr: Vec<u8>,
    pub pbag: Vec<u8>,
    pub pmod: Vec<u8>,
    pub pgen: Vec<u8>,
    pub inst: Vec<u8>,
    pub ibag: Vec<u8>,
    pub imod: Vec<u8>,
    pub igen: Vec<u8>,
    pub shdr: Vec<u8>,
}

pub open spec fn pdta_schema() -> Seq<Slot> {
    seq![
        Slot { key: FourCC(PHDR), mandatory: true },
        Slot { key: FourCC(PBAG), mandatory: true },
        Slot { key: FourCC(PMOD), mandatory: true },
        Slot { key: FourCC(PGEN), mandatory: true },
        Slot { key: FourCC(INST), mandatory: true },
        Slot { key: FourCC(IBAG), mandatory: true },
        Slot { key: FourCC(IMOD), mandatory: true },
        Slot { key: FourCC(IGEN), mandatory: true },
        Slot { key: FourCC(SHDR), mandatory: true },
    ]
}

fn pdta_slots() -> (r: Vec<Slot>)
    ensures
        r@ == pdta_schema(),
{
    let r = vec![
        Slot { key: FourCC(PHDR), mandatory: true },
        Slot { key: FourCC(PBAG), mandatory: true },
        Slot { key: FourCC(PMOD), mandatory: true },
        Slot { key: FourCC(PGEN), mandatory: true },
        Slot { key: FourCC(INST), mandatory: true },
        Slot { key: FourCC(IBAG), mandatory: true },
        Slot { key: FourCC(IMOD), mandatory: true },
        Slot { key: FourCC(IGEN), mandatory: true },
        Slot { key: FourCC(SHDR), mandatory: true },
    ];
    proof {
        assert(r@ =~= pdta_schema());
    }
    r
}

impl Pdta {
    /// The payload of each slot, in the order of the section's schema.
    pub open spec fn view(&self) -> Seq<Option<Seq<u8>>> {
        seq![
            Some(self.phdr@),
            Some(self.pbag@),
            Some(self.pmod@),
            Some(self.pgen@),
            Some(self.inst@),
            Some(self.ibag@),
            Some(self.imod@),
            Some(self.igen@),
            Some(self.shdr@),
        ]
    }

    /// Parses the `LIST` section of form `pdta` at `start`, bounded by `end`.
    pub fn read(buf: &[u8], start: usize, end: usize) -> (r: Result<Pdta, SoundFontReadError>)
        requires
            start <= end <= buf@.len(),
        ensures
            match section_spec(buf@, start as int, end as int, FourCC(PDTA_FORM), pdta_schema()) {
                Ok(v) => r is Ok && r->Ok_0.view() == v,
                Err(e) => r == Err::<Pdta, SoundFontReadError>(e),
            },
    {
        let schema = pdta_slots();
        let slots = match parse_list(buf, start, end, FourCC(LIST_TAG), FourCC(PDTA_FORM), &schema) {
            Ok(s) => s,
            Err(e) => return Err(e),
        };
        proof {
            lemma_parsed_slots(buf@, start as int, end as int, FourCC(LIST_TAG), FourCC(PDTA_FORM), pdta_schema());
        }
        let phdr = read_slot(buf, &slots, 0).unwrap();
        let pbag = read_slot(buf, &slots, 1).unwrap();
        let pmod = read_slot(buf, &slots, 2).unwrap();
        let pgen = read_slot(buf, &slots, 3).unwrap();
        let inst = read_slot(buf, &slots, 4).unwrap();
        let ibag = read_slot(buf, &slots, 5).unwrap();
        let imod = read_slot(buf, &slots, 6).unwrap();
        let igen = read_slot(buf, &slots, 7).unwrap();
        let shdr = read_slot(buf, &slots, 8).unwrap();
        let r = Pdta { phdr, pbag, pmod, pgen, inst, ibag, imod, igen, shdr };
        proof {
            assert(r.view() =~= slots_view(slots@).map_values(|o: Option<int>| leaf_of(buf@, o)));
        }
        Ok(r)
    }
}

/// What a decoded document holds: the slot payloads of its three sections.
pub type DocumentView = (Seq<Option<Seq<u8>>>, Seq<Option<Seq<u8>>>, Seq<Option<Seq<u8>>>);

/// The whole bank: the `RIFF` wrapper of form `sfbk` and its three sections.
#[derive(Debug)]
pub struct Sfbk {
    pub info: Info,
    pub sdta: Sdta,
    pub pdta: Pdta,
}

pub open spec fn sfbk_schema() -> Seq<Slot> {
    seq![
        Slot { key: FourCC(INFO_FORM), mandatory: true },
        Slot { key: FourCC(SDTA_FORM), mandatory: true },
        Slot { key: FourCC(PDTA_FORM), mandatory: true },
    ]
}

/// Outcome of decoding the bank that starts at the first byte of `s`.
pub open spec fn decode_spec(s: Seq<u8>) -> Result<DocumentView, SoundFontReadError> {
    match parse_list_spec(s, 0, s.len() as int, FourCC(RIFF), FourCC(SFBK), sfbk_schema()) {
        Err(e) => Err(e),
        Ok(slots) => {
            let a = slots[0]->Some_0;
            let b = slots[1]->Some_0;
            let c = slots[2]->Some_0;
            match section_spec(s, a, next_at(s, a), FourCC(INFO_FORM), info_schema()) {
                Err(e) => Err(e),
                Ok(i) => match section_spec(s, b, next_at(s, b), FourCC(SDTA_FORM), sdta_schema()) {
                    Err(e) => Err(e),
                    Ok(d) => match section_spec(
                        s,
                        c,
                        next_at(s, c),
                        FourCC(PDTA_FORM),
                        pdta_schema(),
                    ) {
                        Err(e) => Err(e),
                        Ok(p) => Ok((i, d, p)),
                    },
                },
            }
        },
    }
}

/// Decoding is a function of the bytes alone: two decodings of equal buffers
/// give identical documents, or identical errors.
pub proof fn lemma_decode_deterministic(a: Seq<u8>, b: Seq<u8>)
    requires
        a == b,
    ensures
        decode_spec(a) == decode_spec(b),
{
}

/// Offset just past the chunk at `c`, pad byte included.
fn child_end(buf: &[u8], c: usize) -> (r: usize)
    requires
        c + 8 <= buf@.len(),
        next_at(buf@, c as int) <= buf@.len(),
    ensures
        r as int == next_at(buf@, c as int),
{
    let len = buf.len();
    let size = crate::chunk::read_u32_le(buf, c + 4) as usize;
    let pad = size % 2;
    assert(c + 8 + size + pad <= len);
    c + 8 + size + pad
}

impl Sfbk {
    pub open spec fn view(&self) -> DocumentView {
        (self.info.view(), self.sdta.view(), self.pdta.view())
    }

    /// Decodes the bank whose `RIFF` chunk starts at the first byte of `buf`.
    /// Bytes after that chunk are not read.
    pub fn read(buf: &[u8]) -> (r: Result<Sfbk, SoundFontReadError>)
        ensures
            match decode_spec(buf@) {
                Ok(v) => r is Ok && r->Ok_0.view() == v,
                Err(e) => r == Err::<Sfbk, SoundFontReadError>(e),
            },
    {
        let len = buf.len();
        let schema = vec![
            Slot { key: FourCC(INFO_FORM), mandatory: true },
            Slot { key: FourCC(SDTA_FORM), mandatory: true },
            Slot { key: FourCC(PDTA_FORM), mandatory: true },
        ];
        proof {
            assert(schema@ =~= sfbk_schema());
        }
        let slots = match parse_list(buf, 0, len, FourCC(RIFF), FourCC(SFBK), &schema) {
            Ok(s) => s,
            Err(e) => return Err(e),
        };
        proof {
            lemma_parsed_slots(buf@, 0, len as int, FourCC(RIFF), FourCC(SFBK), sfbk_schema());
            assert(sfbk_schema()[0].mandatory && sfbk_schema()[1].mandatory && sfbk_schema()[2].mandatory);
        }
        let a = slots[0].unwrap();
        let b = slots[1].unwrap();
        let c = slots[2].unwrap();
        let info = match Info::read(buf, a, child_end(buf, a)) {
            Ok(x) => x,
            Err(e) => return Err(e),
        };
        let sdta = match Sdta::read(buf, b, child_end(buf, b)) {
            Ok(x) => x,
            Err(e) => return Err(e),
        };
        let pdta = match Pdta::read(buf, c, child_end(buf, c)) {
            Ok(x) => x,
            Err(e) => return Err(e),
        };
        Ok(Sfbk { info, sdta, pdta })
    }
}

} // verus!
