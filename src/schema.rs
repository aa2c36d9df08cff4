//! The generic list parser: a bounded list chunk is read against a table of
//! child slots, each mandatory or optional and keyed by a tag.

use vstd::prelude::*;
use crate::chunk::{
    read_chunk, span_of, tag_at, u32_le_at, ChunkHeader, FourCC, SoundFontReadError,
};

verus! {

/// One child slot of a schema: the key that selects it and whether it must occur.
#[derive(Clone, Copy, Debug, PartialEq, Eq)]
pub struct Slot {
    pub key: FourCC,
    pub mandatory: bool,
}

/// Tag of a wrapper whose payload starts with a form tag and holds nested chunks.
pub const LIST_TAG: [u8; 4] = [76, 73, 83, 84];

/// The bytes of `LIST_TAG`.
pub open spec fn list_tag() -> Seq<u8> {
    seq![76u8, 73u8, 83u8, 84u8]
}

/// Size field of the header at `i`.
pub open spec fn size_at(s: Seq<u8>, i: int) -> int {
    u32_le_at(s, i + 4)
}

/// Offset just past the chunk whose header starts at `i`, pad byte included.
pub open spec fn next_at(s: Seq<u8>, i: int) -> int {
    i + span_of(size_at(s, i))
}

/// The start offsets of the consecutive chunks that fill `[pos, end)` exactly,
/// or `None` when a header or a padded payload would cross `end`.
pub open spec fn layout(s: Seq<u8>, pos: int, end: int) -> Option<Seq<int>>
    decreases end - pos,
{
    if pos >= end {
        Some(Seq::empty())
    } else if end - pos < 8 || next_at(s, pos) > end {
        None
    } else {
        match layout(s, next_at(s, pos), end) {
            Some(rest) => Some(seq![pos].add(rest)),
            None => None,
        }
    }
}

/// Total bytes that the chunks starting at `starts` occupy, headers and pads included.
pub open spec fn total_span(s: Seq<u8>, starts: Seq<int>) -> int
    decreases starts.len(),
{
    if starts.len() == 0 {
        0
    } else {
        span_of(size_at(s, starts[0])) + total_span(s, starts.drop_first())
    }
}

/// The chunks that a successful layout finds cover their scope exactly:
/// the headers, payloads and pad bytes add up to the scope's length, with no gap
/// and no overlap.
pub proof fn lemma_layout_covers_scope(s: Seq<u8>, pos: int, end: int)
    requires
        pos <= end,
        layout(s, pos, end) is Some,
    ensures
        pos + total_span(s, layout(s, pos, end)->Some_0) == end,
    decreases end - pos,
{
    if pos < end {
        lemma_layout_covers_scope(s, next_at(s, pos), end);
        let r = layout(s, pos, end)->Some_0;
        assert(r.drop_first() =~= layout(s, next_at(s, pos), end)->Some_0);
    }
}

spec fn prepend(acc: Seq<int>, r: Option<Seq<int>>) -> Option<Seq<int>> {
    match r {
        Some(t) => Some(acc.add(t)),
        None => None,
    }
}

/// Reads the headers of the consecutive chunks that fill `[start, end)`.
/// Returns their start offsets.
pub fn read_layout(buf: &[u8], start: usize, end: usize) -> (r: Result<Vec<usize>, SoundFontReadError>)
    requires
        start <= end <= buf@.len(),
    ensures
        match layout(buf@, start as int, end as int) {
            Some(l) => r is Ok && r->Ok_0@.map_values(|p: usize| p as int) == l && start + total_span(
                buf@,
                l,
            ) == end,
            None => r == Err::<Vec<usize>, SoundFontReadError>(
                SoundFontReadError::NotEnoughRemainingData,
            ),
        },
{
    let mut starts: Vec<usize> = Vec::new();
    let mut pos: usize = start;
    while pos < end
        invariant
            start <= pos <= end <= buf@.len(),
            layout(buf@, start as int, end as int) == prepend(
                starts@.map_values(|p: usize| p as int),
                layout(buf@, pos as int, end as int),
            ),
        decreases end - pos,
    {
        let ghost acc = starts@.map_values(|p: usize| p as int);
        let h = match read_chunk(buf, pos, end) {
            Ok(h) => h,
            Err(e) => return Err(e),
        };
        let span = h.span();
        if span > (end - pos) as u64 {
            return Err(SoundFontReadError::NotEnoughRemainingData);
        }
        proof {
            let rest = layout(buf@, next_at(buf@, pos as int), end as int);
            if let Some(t) = rest {
                assert(acc.add(seq![pos as int].add(t)) =~= acc.push(pos as int).add(t));
            }
        }
        starts.push(pos);
        proof {
            assert(starts@.map_values(|p: usize| p as int) =~= acc.push(pos as int));
        }
        pos = pos + span as usize;
    }
    proof {
        assert(starts@.map_values(|p: usize| p as int).add(Seq::<int>::empty()) =~= starts@.map_values(|p: usize| p as int));
        lemma_layout_covers_scope(buf@, start as int, end as int);
    }
    Ok(starts)
}

/// The key that selects a child's slot: the form tag for a list chunk, else its own tag.
pub open spec fn child_key(s: Seq<u8>, c: int) -> Seq<u8> {
    if tag_at(s, c) == list_tag() && size_at(s, c) >= 4 {
        tag_at(s, c + 8)
    } else {
        tag_at(s, c)
    }
}

/// Index of the first slot from `i` on whose key is `key`.
pub open spec fn find_slot(schema: Seq<Slot>, key: Seq<u8>, i: int) -> Option<int>
    decreases schema.len() - i,
{
    if i < 0 || i >= schema.len() {
        None
    } else if schema[i].key@ == key {
        Some(i)
    } else {
        find_slot(schema, key, i + 1)
    }
}

/// Index of the first mandatory slot from `i` on that holds no child.
pub open spec fn first_missing(schema: Seq<Slot>, slots: Seq<Option<int>>, i: int) -> Option<int>
    decreases schema.len() - i,
{
    if i < 0 || i >= schema.len() {
        None
    } else if schema[i].mandatory && slots[i] is None {
        Some(i)
    } else {
        first_missing(schema, slots, i + 1)
    }
}

/// Places the children, in file order, into their slots: an unknown key and a
/// second child for a filled slot are errors.
pub open spec fn assign(s: Seq<u8>, children: Seq<int>, schema: Seq<Slot>) -> Result<Seq<Option<int>>, SoundFontReadError>
    decreases children.len(),
{
    if children.len() == 0 {
        Ok(Seq::new(schema.len(), |i: int| None))
    } else {
        match assign(s, children.drop_last(), schema) {
            Err(e) => Err(e),
            Ok(slots) => {
                let c = children.last();
                match find_slot(schema, child_key(s, c), 0) {
                    None => Err(SoundFontReadError::CouldNotFindMatchingChunk),
                    Some(i) => if slots[i] is Some {
                        Err(SoundFontReadError::DuplicateChunk(schema[i].key))
                    } else {
                        Ok(slots.update(i, Some(c)))
                    },
                }
            },
        }
    }
}

/// Outcome of placing the children of a list: the filled slots, or the first error.
pub open spec fn place_children(s: Seq<u8>, children: Seq<int>, schema: Seq<Slot>) -> Result<Seq<Option<int>>, SoundFontReadError> {
    match assign(s, children, schema) {
        Err(e) => Err(e),
        Ok(slots) => match first_missing(schema, slots, 0) {
            Some(i) => Err(SoundFontReadError::MissingExpectedChunk(schema[i].key)),
            None => Ok(slots),
        },
    }
}

/// Outcome of parsing the list chunk at `start` within the scope `[start, end)`:
/// the start offset of the child that fills each slot.
pub open spec fn parse_list_spec(
    s: Seq<u8>,
    start: int,
    end: int,
    container: FourCC,
    form: FourCC,
    schema: Seq<Slot>,
) -> Result<Seq<Option<int>>, SoundFontReadError> {
    if end - start < 8 {
        Err(SoundFontReadError::NotEnoughRemainingData)
    } else if tag_at(s, start) != container@ {
        Err(SoundFontReadError::MissingExpectedChunk(container))
    } else if start + 8 + size_at(s, start) > end || size_at(s, start) < 4 {
        Err(SoundFontReadError::NotEnoughRemainingData)
    } else if tag_at(s, start + 8) != form@ {
        Err(SoundFontReadError::MissingExpectedChunk(form))
    } else {
        match layout(s, start + 12, start + 8 + size_at(s, start)) {
            None => Err(SoundFontReadError::NotEnoughRemainingData),
            Some(children) => place_children(s, children, schema),
        }
    }
}

/// An optional offset as a mathematical integer.
pub open spec fn opt_int(o: Option<usize>) -> Option<int> {
    match o {
        Some(p) => Some(p as int),
        None => None,
    }
}

/// The filled slots of a parse, as offsets.
pub open spec fn slots_view(v: Seq<Option<usize>>) -> Seq<Option<int>> {
    v.map_values(|o: Option<usize>| opt_int(o))
}

/// Key of the child whose header starts at `c`.
fn read_child_key(buf: &[u8], c: usize, h: &ChunkHeader) -> (r: FourCC)
    requires
        h.stored_at(buf@, c as int),
        c + span_of(h.size()) <= buf@.len(),
    ensures
        r@ == child_key(buf@, c as int),
{
    let list = FourCC(LIST_TAG);
    proof {
        assert(list@ =~= list_tag());
    }
    if h.chunk_id.same(&list) && h.chunk_size.0 >= 4 {
        let len = buf.len();
        assert(c + 12 <= len);
        let p: usize = c + 8;
        let k = FourCC([buf[p], buf[p + 1], buf[p + 2], buf[p + 3]]);
        proof {
            assert(k@ =~= tag_at(buf@, c + 8));
        }
        k
    } else {
        h.chunk_id
    }
}

/// Index of the first slot keyed by `key`.
fn find_slot_index(schema: &Vec<Slot>, key: &FourCC) -> (r: Option<usize>)
    ensures
        opt_int(r) == find_slot(schema@, key@, 0),
        r matches Some(i) ==> i < schema@.len(),
{
    let mut i: usize = 0;
    while i < schema.len()
        invariant
            i <= schema@.len(),
            find_slot(schema@, key@, 0) == find_slot(schema@, key@, i as int),
        decreases schema.len() - i,
    {
        if schema[i].key.same(key) {
            return Some(i);
        }
        i = i + 1;
    }
    None
}

/// Parses the list chunk at `start`, bounded by `end`: checks the wrapper tag
/// `container` and the form tag `form`, then places every child into the slot of
/// `schema` that its key selects. Each slot of the result holds the start offset
/// of its child, or `None` for an absent optional child.
pub fn parse_list(
    buf: &[u8],
    start: usize,
    end: usize,
    container: FourCC,
    form: FourCC,
    schema: &Vec<Slot>,
) -> (r: Result<Vec<Option<usize>>, SoundFontReadError>)
    requires
        start <= end <= buf@.len(),
    ensures
        match parse_list_spec(buf@, start as int, end as int, container, form, schema@) {
            Ok(slots) => r is Ok && slots_view(r->Ok_0@) == slots,
            Err(e) => r == Err::<Vec<Option<usize>>, SoundFontReadError>(e),
        },
{
    let h = match read_chunk(buf, start, end) {
        Ok(h) => h,
        Err(e) => return Err(e),
    };
    if !h.chunk_id.same(&container) {
        return Err(SoundFontReadError::MissingExpectedChunk(container));
    }
    let size = h.chunk_size.0 as usize;
    if size > end - start - 8 || size < 4 {
        return Err(SoundFontReadError::NotEnoughRemainingData);
    }
    let scope_end = start + 8 + size;
    let f = FourCC([buf[start + 8], buf[start + 9], buf[start + 10], buf[start + 11]]);
    proof {
        assert(f@ =~= tag_at(buf@, start + 8));
    }
    if !f.same(&form) {
        return Err(SoundFontReadError::MissingExpectedChunk(form));
    }
    let children = match read_layout(buf, start + 12, scope_end) {
        Ok(c) => c,
        Err(e) => return Err(e),
    };
    let ghost ch = children@.map_values(|p: usize| p as int);
    let ghost outcome = parse_list_spec(buf@, start as int, end as int, container, form, schema@);
    assert(outcome == place_children(buf@, ch, schema@));
    let mut slots: Vec<Option<usize>> = Vec::new();
    let mut k: usize = 0;
    while k < schema.len()
        invariant
            k <= schema@.len(),
            slots@.len() == k,
            forall|j: int| 0 <= j < k ==> slots@[j] is None,
        decreases schema.len() - k,
    {
        slots.push(None);
        k = k + 1;
    }
    proof {
        assert(slots_view(slots@) =~= assign(buf@, ch.take(0), schema@)->Ok_0);
    }
    let mut n: usize = 0;
    while n < children.len()
        invariant
            n <= children@.len(),
            ch == children@.map_values(|p: usize| p as int),
            layout(buf@, start + 12, scope_end as int) == Some(ch),
            start + 12 <= scope_end <= end <= buf@.len(),
            assign(buf@, ch.take(n as int), schema@) is Ok,
            slots_view(slots@) == assign(buf@, ch.take(n as int), schema@)->Ok_0,
            slots@.len() == schema@.len(),
            outcome == place_children(buf@, ch, schema@),
            outcome == parse_list_spec(buf@, start as int, end as int, container, form, schema@),
        decreases children.len() - n,
    {
        let c = children[n];
        proof {
            lemma_layout_member(buf@, start + 12, scope_end as int, n as int);
            assert(ch.take(n + 1).drop_last() =~= ch.take(n as int));
        }
        let ch_h = match read_chunk(buf, c, scope_end) {
            Ok(x) => x,
            Err(e) => return Err(e),
        };
        let key = read_child_key(buf, c, &ch_h);
        proof {
            assert(ch.take(n + 1).last() == c as int);
        }
        match find_slot_index(schema, &key) {
            None => {
                proof {
                    assert(assign(buf@, ch.take(n + 1), schema@) == Err::<Seq<Option<int>>, SoundFontReadError>(SoundFontReadError::CouldNotFindMatchingChunk));
                    lemma_assign_err_prefix(buf@, ch, schema@, n + 1);
                    assert(assign(buf@, ch, schema@) == Err::<Seq<Option<int>>, SoundFontReadError>(SoundFontReadError::CouldNotFindMatchingChunk));
                }
                return Err(SoundFontReadError::CouldNotFindMatchingChunk);
            },
            Some(i) => {
                if slots[i].is_some() {
                    proof {
                        assert(slots_view(slots@)[i as int] is Some);
                        lemma_assign_err_prefix(buf@, ch, schema@, n + 1);
                    }
                    return Err(SoundFontReadError::DuplicateChunk(schema[i].key));
                }
                slots.set(i, Some(c));
                proof {
                    assert(slots_view(slots@) =~= assign(buf@, ch.take(n + 1), schema@)->Ok_0);
                }
            },
        }
        n = n + 1;
    }
    proof {
        assert(ch.take(n as int) =~= ch);
    }
    let mut m: usize = 0;
    while m < schema.len()
        invariant
            m <= schema@.len(),
            slots@.len() == schema@.len(),
            first_missing(schema@, slots_view(slots@), 0) == first_missing(schema@, slots_view(slots@), m as int),
            assign(buf@, ch, schema@) == Ok::<Seq<Option<int>>, SoundFontReadError>(slots_view(slots@)),
            outcome == place_children(buf@, ch, schema@),
            outcome == parse_list_spec(buf@, start as int, end as int, container, form, schema@),
        decreases schema.len() - m,
    {
        if schema[m].mandatory && slots[m].is_none() {
            proof {
                assert(slots_view(slots@)[m as int] is None);
            }
            return Err(SoundFontReadError::MissingExpectedChunk(schema[m].key));
        }
        m = m + 1;
    }
    Ok(slots)
}

/// Once a prefix of the children fails to place, so do all of them, with the same error.
proof fn lemma_assign_err_prefix(s: Seq<u8>, ch: Seq<int>, schema: Seq<Slot>, n: int)
    requires
        0 <= n <= ch.len(),
        assign(s, ch.take(n), schema) is Err,
    ensures
        assign(s, ch, schema) == assign(s, ch.take(n), schema),
    decreases ch.len() - n,
{
    if n < ch.len() {
        assert(ch.take(n + 1).drop_last() =~= ch.take(n));
        lemma_assign_err_prefix(s, ch, schema, n + 1);
    } else {
        assert(ch.take(n) =~= ch);
    }
}

/// Placing children keeps one entry per slot, and each filled slot holds one of the children.
proof fn lemma_assign_members(s: Seq<u8>, ch: Seq<int>, schema: Seq<Slot>)
    requires
        assign(s, ch, schema) is Ok,
    ensures
        assign(s, ch, schema)->Ok_0.len() == schema.len(),
        forall|i: int|
            0 <= i < schema.len() && (#[trigger] assign(s, ch, schema)->Ok_0[i]) is Some
                ==> ch.contains(assign(s, ch, schema)->Ok_0[i]->Some_0),
    decreases ch.len(),
{
    if ch.len() > 0 {
        lemma_find_slot_range(schema, child_key(s, ch.last()), 0);
        lemma_assign_members(s, ch.drop_last(), schema);
        let prev = assign(s, ch.drop_last(), schema)->Ok_0;
        let cur = assign(s, ch, schema)->Ok_0;
        assert forall|i: int| 0 <= i < schema.len() && (#[trigger] cur[i]) is Some implies ch.contains(
            cur[i]->Some_0,
        ) by {
            if prev[i] is Some {
                let k = choose|k: int| 0 <= k < ch.drop_last().len() && ch.drop_last()[k] == prev[i]->Some_0;
                assert(ch[k] == cur[i]->Some_0);
            } else {
                assert(ch[ch.len() - 1] == cur[i]->Some_0);
            }
        }
    }
}

proof fn lemma_find_slot_range(schema: Seq<Slot>, key: Seq<u8>, i: int)
    requires
        0 <= i,
    ensures
        find_slot(schema, key, i) matches Some(j) ==> i <= j < schema.len(),
    decreases schema.len() - i,
{
    if i < schema.len() {
        lemma_find_slot_range(schema, key, i + 1);
    }
}

proof fn lemma_first_missing_none(schema: Seq<Slot>, slots: Seq<Option<int>>, i: int)
    requires
        0 <= i,
        first_missing(schema, slots, i) is None,
    ensures
        forall|j: int| i <= j < schema.len() && (#[trigger] schema[j]).mandatory ==> slots[j] is Some,
    decreases schema.len() - i,
{
    if i < schema.len() {
        lemma_first_missing_none(schema, slots, i + 1);
    }
}

/// A successful parse leaves no mandatory slot empty, and every child it places
/// lies, with its pad byte, inside the list's scope.
pub proof fn lemma_parsed_slots(
    s: Seq<u8>,
    start: int,
    end: int,
    container: FourCC,
    form: FourCC,
    schema: Seq<Slot>,
)
    requires
        0 <= start <= end,
        parse_list_spec(s, start, end, container, form, schema) is Ok,
    ensures
        ({
            let slots = parse_list_spec(s, start, end, container, form, schema)->Ok_0;
            &&& slots.len() == schema.len()
            &&& forall|j: int| 0 <= j < schema.len() && (#[trigger] schema[j]).mandatory ==> slots[j] is Some
            &&& forall|j: int|
                0 <= j < schema.len() && (#[trigger] slots[j]) is Some ==> {
                    &&& start <= slots[j]->Some_0
                    &&& slots[j]->Some_0 + 8 <= end
                    &&& next_at(s, slots[j]->Some_0) <= end
                }
        }),
{
    let e = start + 8 + size_at(s, start);
    let ch = layout(s, start + 12, e)->Some_0;
    let slots = parse_list_spec(s, start, end, container, form, schema)->Ok_0;
    lemma_assign_members(s, ch, schema);
    lemma_first_missing_none(schema, slots, 0);
    assert forall|j: int| 0 <= j < schema.len() && (#[trigger] slots[j]) is Some implies {
        &&& start <= slots[j]->Some_0
        &&& slots[j]->Some_0 + 8 <= end
        &&& next_at(s, slots[j]->Some_0) <= end
    } by {
        let k = choose|k: int| 0 <= k < ch.len() && ch[k] == slots[j]->Some_0;
        lemma_layout_member(s, start + 12, e, k);
    }
}

proof fn lemma_assign_all_known(s: Seq<u8>, ch: Seq<int>, schema: Seq<Slot>)
    requires
        assign(s, ch, schema) is Ok,
    ensures
        forall|k: int| 0 <= k < ch.len() ==> (#[trigger] find_slot(schema, child_key(s, ch[k]), 0)) is Some,
    decreases ch.len(),
{
    if ch.len() > 0 {
        lemma_assign_all_known(s, ch.drop_last(), schema);
        assert forall|k: int| 0 <= k < ch.len() implies (#[trigger] find_slot(schema, child_key(s, ch[k]), 0)) is Some by {
            if k < ch.len() - 1 {
                assert(ch.drop_last()[k] == ch[k]);
            }
        }
    }
}

/// A list parses only if each of its children carries a key of the schema:
/// an unknown child is never skipped.
pub proof fn lemma_unknown_child_never_parses(
    s: Seq<u8>,
    start: int,
    end: int,
    container: FourCC,
    form: FourCC,
    schema: Seq<Slot>,
)
    requires
        parse_list_spec(s, start, end, container, form, schema) is Ok,
    ensures
        ({
            let ch = layout(s, start + 12, start + 8 + size_at(s, start))->Some_0;
            forall|k: int| 0 <= k < ch.len() ==> (#[trigger] find_slot(schema, child_key(s, ch[k]), 0)) is Some
        }),
{
    lemma_assign_all_known(s, layout(s, start + 12, start + 8 + size_at(s, start))->Some_0, schema);
}

/// Every offset that a layout lists starts a chunk that lies within the scope.
proof fn lemma_layout_member(s: Seq<u8>, pos: int, end: int, n: int)
    requires
        layout(s, pos, end) is Some,
        0 <= n < layout(s, pos, end)->Some_0.len(),
        0 <= pos,
    ensures
        pos <= layout(s, pos, end)->Some_0[n],
        layout(s, pos, end)->Some_0[n] + 8 <= end,
        next_at(s, layout(s, pos, end)->Some_0[n]) <= end,
    decreases end - pos,
{
    if n > 0 {
        lemma_layout_member(s, next_at(s, pos), end, n - 1);
    }
}

} // verus!
