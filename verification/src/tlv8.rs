//! TLV8: tag, length and value triples with one-byte lengths.
//!
//! A value longer than 255 bytes is split into chunks that repeat its tag; reading joins the
//! chunks of one tag again.
use std::collections::HashMap;
use vstd::prelude::*;
use vstd::slice::slice_subrange;

verus! {

broadcast use vstd::std_specs::hash::group_hash_axioms;

pub const TLV_METHOD: u8 = 0x00;

pub const TLV_IDENTIFIER: u8 = 0x01;

pub const TLV_SALT: u8 = 0x02;

pub const TLV_PUBLIC_KEY: u8 = 0x03;

pub const TLV_PROOF: u8 = 0x04;

pub const TLV_ENCRYPTED_DATA: u8 = 0x05;

pub const TLV_STATE: u8 = 0x06;

pub const TLV_ERROR: u8 = 0x07;

pub const TLV_SIGNATURE: u8 = 0x0A;

pub const TLV_FLAGS: u8 = 0x13;

/// A tag and its value.
#[derive(Debug, Clone)]
pub struct Item {
    pub tag: u8,
    pub value: Vec<u8>,
}

impl View for Item {
    type V = (u8, Seq<u8>);

    open spec fn view(&self) -> (u8, Seq<u8>) {
        (self.tag, self.value@)
    }
}

impl Item {
    pub fn new(tag: u8, value: Vec<u8>) -> (r: Item)
        ensures
            r@ == (tag, value@),
    {
        Item { tag, value }
    }
}

/// The tags and values of a list of items.
pub open spec fn pairs(items: Seq<Item>) -> Seq<(u8, Seq<u8>)> {
    items.map_values(|i: Item| i@)
}

/// One value under its tag, in chunks of at most 255 bytes.
pub open spec fn encoded_item(tag: u8, value: Seq<u8>) -> Seq<u8>
    decreases value.len(),
{
    if value.len() <= 255 {
        seq![tag, value.len() as u8] + value
    } else {
        seq![tag, 255u8] + value.take(255) + encoded_item(tag, value.skip(255))
    }
}

/// All items one after another.
pub open spec fn encoded(items: Seq<(u8, Seq<u8>)>) -> Seq<u8>
    decreases items.len(),
{
    if items.len() == 0 {
        Seq::empty()
    } else {
        encoded_item(items[0].0, items[0].1) + encoded(items.skip(1))
    }
}

/// What stands under a tag, nothing when the tag is absent.
pub open spec fn value_of(m: Map<u8, Seq<u8>>, tag: u8) -> Seq<u8> {
    if m.contains_key(tag) {
        m[tag]
    } else {
        Seq::empty()
    }
}

/// The map with `value` appended to what stands under `tag`.
pub open spec fn appended(m: Map<u8, Seq<u8>>, tag: u8, value: Seq<u8>) -> Map<u8, Seq<u8>> {
    m.insert(tag, value_of(m, tag) + value)
}

/// The entries of `data` read into `m`, up to the first one that is cut short.
pub open spec fn decoded_into(data: Seq<u8>, m: Map<u8, Seq<u8>>) -> Map<u8, Seq<u8>>
    decreases data.len(),
{
    if data.len() < 2 || data.len() < 2 + data[1] {
        m
    } else {
        let n = 2 + data[1];
        decoded_into(data.skip(n), appended(m, data[0], data.subrange(2, n)))
    }
}

/// The values of `data` by tag.
pub open spec fn decoded(data: Seq<u8>) -> Map<u8, Seq<u8>> {
    decoded_into(data, Map::empty())
}

/// The values of a list of items by tag, items of one tag joined in order.
pub open spec fn joined(items: Seq<(u8, Seq<u8>)>, m: Map<u8, Seq<u8>>) -> Map<u8, Seq<u8>>
    decreases items.len(),
{
    if items.len() == 0 {
        m
    } else {
        joined(items.skip(1), appended(m, items[0].0, items[0].1))
    }
}

/// The values of a decoded map.
pub open spec fn values(m: Map<u8, Vec<u8>>) -> Map<u8, Seq<u8>> {
    m.map_values(|v: Vec<u8>| v@)
}

fn encode_item(buf: &mut Vec<u8>, tag: u8, value: &[u8])
    ensures
        final(buf)@ == old(buf)@ + encoded_item(tag, value@),
{
    let mut at: usize = 0;
    let ghost start = buf@;
    let ghost whole = encoded_item(tag, value@);
    assert(value@.skip(0) =~= value@);
    while value.len() - at > 255
        invariant
            at <= value@.len(),
            start + whole == buf@ + encoded_item(tag, value@.skip(at as int)),
        decreases value.len() - at,
    {
        let ghost rest = value@.skip(at as int);
        let ghost before = buf@;
        buf.push(tag);
        buf.push(255);
        buf.extend_from_slice(slice_subrange(value, at, at + 255));
        at += 255;
        proof {
            assert(rest.skip(255) =~= value@.skip(at as int));
            assert(buf@ =~= before + (seq![tag, 255u8] + rest.take(255)));
            assert(buf@ + encoded_item(tag, rest.skip(255)) =~= before + encoded_item(tag, rest));
        }
    }
    let ghost rest = value@.skip(at as int);
    let ghost before = buf@;
    buf.push(tag);
    buf.push((value.len() - at) as u8);
    buf.extend_from_slice(slice_subrange(value, at, value.len()));
    assert(rest =~= value@.subrange(at as int, value@.len() as int));
    assert(buf@ =~= before + encoded_item(tag, rest));
}

/// Encodes items in the order given.
pub fn encode(items: &[Item]) -> (r: Vec<u8>)
    ensures
        r@ == encoded(pairs(items@)),
{
    let mut buf: Vec<u8> = Vec::new();
    let mut i: usize = 0;
    let ghost all = pairs(items@);
    assert(all.skip(0) =~= all);
    while i < items.len()
        invariant
            i <= items@.len(),
            all == pairs(items@),
            buf@ + encoded(all.skip(i as int)) == encoded(all),
        decreases items.len() - i,
    {
        let ghost before = buf@;
        let ghost rest = all.skip(i as int);
        encode_item(&mut buf, items[i].tag, items[i].value.as_slice());
        i += 1;
        proof {
            assert(rest.skip(1) =~= all.skip(i as int));
            assert(rest[0] == items@[i - 1]@);
            assert(buf@ + encoded(rest.skip(1)) =~= before + encoded(rest));
        }
    }
    assert(buf@ + encoded(all.skip(i as int)) =~= buf@);
    buf
}

/// Decodes entries into values by tag, up to the first entry that is cut short.
pub fn decode(data: &[u8]) -> (r: HashMap<u8, Vec<u8>>)
    ensures
        values(r@) == decoded(data@),
{
    let mut result: HashMap<u8, Vec<u8>> = HashMap::new();
    let mut at: usize = 0;
    assert(data@.skip(0) =~= data@);
    assert(values(result@) =~= Map::empty());
    while data.len() - at >= 2
        invariant
            at <= data@.len(),
            decoded(data@) == decoded_into(data@.skip(at as int), values(result@)),
        decreases data.len() - at,
    {
        let ghost rest = data@.skip(at as int);
        let ghost before = values(result@);
        let tag: u8 = data[at];
        let n: usize = data[at + 1] as usize;
        if n > data.len() - at - 2 {
            return result;
        }
        let mut value: Vec<u8> = match result.remove(&tag) {
            Some(value) => value,
            None => Vec::new(),
        };
        let ghost held = value@;
        value.extend_from_slice(slice_subrange(data, at + 2, at + 2 + n));
        result.insert(tag, value);
        proof {
            assert(rest.skip(2 + n) =~= data@.skip(at + 2 + n));
            assert(rest.subrange(2, 2 + n) =~= data@.subrange(at + 2, at + 2 + n));
            assert(held == value_of(before, tag));
            assert(value@ =~= held + rest.subrange(2, 2 + n));
            assert(values(result@) =~= appended(before, tag, rest.subrange(2, 2 + n)));
        }
        at = at + 2 + n;
    }
    result
}

/// The value under a tag.
pub fn find(m: &HashMap<u8, Vec<u8>>, tag: u8) -> (r: Option<&Vec<u8>>)
    ensures
        r is Some <==> values(m@).contains_key(tag),
        r matches Some(v) ==> v@ == values(m@)[tag],
{
    m.get(&tag)
}

/// The code of an error entry, 0 when the entry is empty; `None` when there is no error entry.
pub open spec fn error_code(m: Map<u8, Seq<u8>>) -> Option<u8> {
    if m.contains_key(TLV_ERROR) {
        Some(
            if m[TLV_ERROR].len() > 0 {
                m[TLV_ERROR][0]
            } else {
                0
            },
        )
    } else {
        None
    }
}

pub fn find_error(m: &HashMap<u8, Vec<u8>>) -> (r: Option<u8>)
    ensures
        r == error_code(values(m@)),
{
    match find(m, TLV_ERROR) {
        Some(v) => Some(
            if v.len() > 0 {
                v[0]
            } else {
                0
            },
        ),
        None => None,
    }
}

proof fn lemma_append_twice(m: Map<u8, Seq<u8>>, tag: u8, a: Seq<u8>, b: Seq<u8>)
    ensures
        appended(appended(m, tag, a), tag, b) == appended(m, tag, a + b),
{
    assert(value_of(m, tag) + a + b =~= value_of(m, tag) + (a + b));
    assert(appended(appended(m, tag, a), tag, b) =~= appended(m, tag, a + b));
}

proof fn lemma_decode_item(tag: u8, value: Seq<u8>, rest: Seq<u8>, m: Map<u8, Seq<u8>>)
    ensures
        decoded_into(encoded_item(tag, value) + rest, m) == decoded_into(
            rest,
            appended(m, tag, value),
        ),
    decreases value.len(),
{
    let data = encoded_item(tag, value) + rest;
    if value.len() <= 255 {
        assert(data.skip(2 + value.len() as int) =~= rest);
        assert(data.subrange(2, 2 + value.len() as int) =~= value);
    } else {
        let head = value.take(255);
        let tail = value.skip(255);
        assert(data.skip(257) =~= encoded_item(tag, tail) + rest);
        assert(data.subrange(2, 257) =~= head);
        lemma_decode_item(tag, tail, rest, appended(m, tag, head));
        lemma_append_twice(m, tag, head, tail);
        assert(head + tail =~= value);
    }
}

proof fn lemma_decode_items(items: Seq<(u8, Seq<u8>)>, m: Map<u8, Seq<u8>>)
    ensures
        decoded_into(encoded(items), m) == joined(items, m),
    decreases items.len(),
{
    if items.len() > 0 {
        let rest = encoded(items.skip(1));
        lemma_decode_item(items[0].0, items[0].1, rest, m);
        lemma_decode_items(items.skip(1), appended(m, items[0].0, items[0].1));
    }
}

/// Decoding what was encoded gives every value back under its tag; items that share a tag come
/// back joined, in order.
pub proof fn lemma_decode_encode(items: Seq<(u8, Seq<u8>)>)
    ensures
        decoded(encoded(items)) == joined(items, Map::empty()),
{
    lemma_decode_items(items, Map::empty());
}

proof fn lemma_joined_distinct(items: Seq<(u8, Seq<u8>)>, m: Map<u8, Seq<u8>>, k: int)
    requires
        0 <= k < items.len(),
        forall|i: int, j: int| 0 <= i < j < items.len() ==> items[i].0 != items[j].0,
        !m.contains_key(items[k].0),
    ensures
        joined(items, m).contains_key(items[k].0),
        joined(items, m)[items[k].0] == items[k].1,
    decreases items.len(),
{
    let next = appended(m, items[0].0, items[0].1);
    let rest = items.skip(1);
    assert forall|i: int, j: int| 0 <= i < j < rest.len() implies rest[i].0 != rest[j].0 by {
        assert(rest[i] == items[i + 1] && rest[j] == items[j + 1]);
    }
    if k == 0 {
        assert(value_of(m, items[0].0) + items[0].1 =~= items[0].1);
        lemma_joined_frame(rest, next, items[0].0);
    } else {
        lemma_joined_distinct(rest, next, k - 1);
    }
}

proof fn lemma_joined_frame(items: Seq<(u8, Seq<u8>)>, m: Map<u8, Seq<u8>>, tag: u8)
    requires
        forall|i: int| 0 <= i < items.len() ==> items[i].0 != tag,
        m.contains_key(tag),
    ensures
        joined(items, m).contains_key(tag),
        joined(items, m)[tag] == m[tag],
    decreases items.len(),
{
    if items.len() > 0 {
        let rest = items.skip(1);
        assert forall|i: int| 0 <= i < rest.len() implies rest[i].0 != tag by {
            assert(rest[i] == items[i + 1]);
        }
        assert(items[0].0 != tag);
        lemma_joined_frame(rest, appended(m, items[0].0, items[0].1), tag);
    }
}

/// When no two items share a tag, each value comes back alone under its tag.
pub proof fn lemma_decode_encode_distinct(items: Seq<(u8, Seq<u8>)>, k: int)
    requires
        0 <= k < items.len(),
        forall|i: int, j: int| 0 <= i < j < items.len() ==> items[i].0 != items[j].0,
    ensures
        decoded(encoded(items)).contains_key(items[k].0),
        decoded(encoded(items))[items[k].0] == items[k].1,
{
    lemma_decode_encode(items);
    lemma_joined_distinct(items, Map::empty(), k);
}

} // verus!
