//! Splitting an H.264 byte stream into its units.
use crate::bytes::{be32_at, be_bytes32, be_u32, extend, extend_be32, low32};
use vstd::prelude::*;
use vstd::slice::{slice_subrange, slice_to_vec};

verus! {

/// Units whose length prefix is beyond this are taken for garbage.
pub const MAX_UNIT: u32 = 0x100_0000;

/// A buffer without a start code is cut back once it is longer than this,
pub const MAX_UNSTARTED: usize = 0x10_0000;

/// to this many bytes at its end.
pub const KEPT_UNSTARTED: usize = 0x2_0000;

/// Whether a start code of three or four bytes begins at `i`, with at least four bytes left.
pub open spec fn starts_at(b: Seq<u8>, i: int) -> bool {
    0 <= i && i + 3 < b.len() && b[i] == 0 && b[i + 1] == 0 && (b[i + 2] == 1 || (b[i + 2] == 0
        && b[i + 3] == 1))
}

/// Where the first start code from `i` on begins.
pub open spec fn start_from(b: Seq<u8>, i: int) -> Option<int>
    decreases b.len() - i,
{
    if i + 3 >= b.len() {
        None
    } else if starts_at(b, i) {
        Some(i)
    } else {
        start_from(b, i + 1)
    }
}

/// The rest of a buffer in which no unit has started: cut back when it is too long.
pub open spec fn unstarted(b: Seq<u8>) -> Seq<u8> {
    if b.len() > MAX_UNSTARTED {
        b.skip(b.len() - KEPT_UNSTARTED)
    } else {
        b
    }
}

/// How long the start code at `i` is.
pub open spec fn code_len(b: Seq<u8>, i: int) -> int {
    if b[i + 2] == 1 {
        3
    } else {
        4
    }
}

/// A unit behind a start code of four bytes.
pub open spec fn coded(raw: Seq<u8>) -> Seq<u8> {
    seq![0u8, 0u8, 0u8, 1u8] + raw
}

/// The units from `at` on that are delimited by start codes, and what is left for later. A unit
/// reaches from behind its start code to the next one; it gets a start code of four bytes,
/// whichever it had.
pub open spec fn annex_b(b: Seq<u8>, at: int) -> (Seq<Seq<u8>>, Seq<u8>)
    decreases b.len() - at,
    when 0 <= at <= b.len()
    via annex_b_ends
{
    match start_from(b, at) {
        None => (Seq::empty(), unstarted(b.skip(at))),
        Some(start) => match start_from(b, start + 3) {
            None => (Seq::empty(), b.skip(start)),
            Some(next) => {
                let (more, rest) = annex_b(b, next);
                (seq![coded(b.subrange(start + code_len(b, start), next))] + more, rest)
            },
        },
    }
}

#[via_fn]
proof fn annex_b_ends(b: Seq<u8>, at: int) {
    lemma_start_bounds(b, at);
    if let Some(start) = start_from(b, at) {
        lemma_start_bounds(b, start + 3);
    }
}

pub proof fn lemma_start_bounds(b: Seq<u8>, i: int)
    requires
        0 <= i,
    ensures
        match start_from(b, i) {
            Some(s) => i <= s && starts_at(b, s) && (forall|k: int|
                i <= k < s ==> !starts_at(b, k)),
            None => forall|k: int| i <= k ==> !starts_at(b, k),
        },
    decreases b.len() - i,
{
    if i + 3 < b.len() && !starts_at(b, i) {
        lemma_start_bounds(b, i + 1);
    }
}

/// The units from `at` on that carry a length prefix of four bytes, and what is left for later.
/// Each gets a start code in place of its prefix; an impossible length empties the buffer.
pub open spec fn avcc(b: Seq<u8>, at: int) -> (Seq<Seq<u8>>, Seq<u8>)
    decreases b.len() - at,
{
    if b.len() - at < 4 {
        (Seq::empty(), b.skip(at))
    } else {
        let n = be32_at(b, at);
        if n == 0 || n > MAX_UNIT {
            (Seq::empty(), Seq::empty())
        } else if b.len() - at < 4 + n {
            (Seq::empty(), b.skip(at))
        } else {
            let (more, rest) = avcc(b, at + 4 + n);
            (seq![coded(b.subrange(at + 4, at + 4 + n))] + more, rest)
        }
    }
}

/// What a buffer splits into: by start codes if it holds one, else by length prefixes.
pub open spec fn split(b: Seq<u8>) -> (Seq<Seq<u8>>, Seq<u8>) {
    if start_from(b, 0) is Some {
        annex_b(b, 0)
    } else {
        avcc(b, 0)
    }
}

/// A list of byte strings by their contents.
pub open spec fn contents(v: Seq<Vec<u8>>) -> Seq<Seq<u8>> {
    v.map_values(|u: Vec<u8>| u@)
}

/// Where the first start code from `from` on begins.
pub fn find_start_code(b: &[u8], from: usize) -> (r: Option<usize>)
    ensures
        match start_from(b@, from as int) {
            Some(i) => r matches Some(k) && k == i && i + 3 < b@.len() && from <= k,
            None => r is None,
        },
{
    let mut i: usize = from;
    while i < b.len() && b.len() - i > 3
        invariant
            from <= i,
            start_from(b@, from as int) == start_from(b@, i as int),
        decreases b.len() - i,
    {
        if b[i] == 0 && b[i + 1] == 0 && (b[i + 2] == 1 || (b[i + 2] == 0 && b[i + 3] == 1)) {
            return Some(i);
        }
        i += 1;
    }
    None
}

pub fn has_start_code(b: &[u8]) -> (r: bool)
    ensures
        r == (start_from(b@, 0) is Some),
{
    find_start_code(b, 0).is_some()
}

fn behind_code(raw: &[u8]) -> (r: Vec<u8>)
    ensures
        r@ == coded(raw@),
{
    let mut out: Vec<u8> = vec![0u8, 0u8, 0u8, 1u8];
    extend(&mut out, raw);
    assert(out@ =~= coded(raw@));
    out
}

/// Cuts a byte stream, which comes in pieces of any size, into units.
pub struct H264Parser {
    buf: Vec<u8>,
}

impl View for H264Parser {
    type V = Seq<u8>;

    /// The bytes that no unit has taken yet.
    closed spec fn view(&self) -> Seq<u8> {
        self.buf@
    }
}

impl H264Parser {
    pub fn new() -> (r: H264Parser)
        ensures
            r@ == Seq::<u8>::empty(),
    {
        let r = H264Parser { buf: Vec::new() };
        assert(r@ =~= Seq::<u8>::empty());
        r
    }

    fn keep_from(&mut self, at: usize)
        requires
            at <= old(self)@.len(),
        ensures
            final(self)@ == old(self)@.skip(at as int),
    {
        let rest: Vec<u8> = slice_to_vec(slice_subrange(self.buf.as_slice(), at, self.buf.len()));
        assert(rest@ =~= self.buf@.skip(at as int));
        self.buf = rest;
    }

    fn push_annex_b(&mut self) -> (r: Vec<Vec<u8>>)
        ensures
            (contents(r@), final(self)@) == annex_b(old(self)@, 0),
    {
        let mut out: Vec<Vec<u8>> = Vec::new();
        let mut at: usize = 0;
        let ghost b = self.buf@;
        assert(contents(out@) + annex_b(b, 0).0 =~= annex_b(b, 0).0);
        loop
            invariant
                b == self.buf@,
                b == old(self)@,
                at <= b.len(),
                annex_b(b, 0).0 == contents(out@) + annex_b(b, at as int).0,
                annex_b(b, 0).1 == annex_b(b, at as int).1,
            decreases b.len() - at,
        {
            let start: usize = match find_start_code(self.buf.as_slice(), at) {
                Some(start) => start,
                None => {
                    assert(contents(out@) + Seq::<Seq<u8>>::empty() =~= contents(out@));
                    let left: usize = self.buf.len() - at;
                    if left > MAX_UNSTARTED {
                        let from: usize = self.buf.len() - KEPT_UNSTARTED;
                        assert(b.skip(at as int).skip(left - KEPT_UNSTARTED) =~= b.skip(
                            from as int,
                        ));
                        self.keep_from(from);
                    } else {
                        self.keep_from(at);
                    }
                    return out;
                },
            };
            assert(start + 3 < self.buf.len());
            let next: usize = match find_start_code(self.buf.as_slice(), start + 3) {
                Some(next) => next,
                None => {
                    assert(contents(out@) + Seq::<Seq<u8>>::empty() =~= contents(out@));
                    self.keep_from(start);
                    return out;
                },
            };
            let ghost before = contents(out@);
            proof {
                lemma_start_bounds(b, at as int);
                lemma_start_bounds(b, start + 3);
            }
            let from: usize = if self.buf[start + 2] == 1 {
                start + 3
            } else {
                start + 4
            };
            let unit: Vec<u8> = behind_code(slice_subrange(self.buf.as_slice(), from, next));
            out.push(unit);
            proof {
                assert(contents(out@) =~= before.push(unit@));
                assert(contents(out@) + annex_b(b, next as int).0 =~= before + annex_b(
                    b,
                    at as int,
                ).0);
            }
            at = next;
        }
    }

    fn push_avcc(&mut self) -> (r: Vec<Vec<u8>>)
        ensures
            (contents(r@), final(self)@) == avcc(old(self)@, 0),
    {
        let mut out: Vec<Vec<u8>> = Vec::new();
        let mut at: usize = 0;
        let ghost b = self.buf@;
        assert(contents(out@) + avcc(b, 0).0 =~= avcc(b, 0).0);
        loop
            invariant
                b == self.buf@,
                b == old(self)@,
                at <= b.len(),
                avcc(b, 0).0 == contents(out@) + avcc(b, at as int).0,
                avcc(b, 0).1 == avcc(b, at as int).1,
            decreases b.len() - at,
        {
            assert(contents(out@) + Seq::<Seq<u8>>::empty() =~= contents(out@));
            let left: usize = self.buf.len() - at;
            if left < 4 {
                self.keep_from(at);
                return out;
            }
            let n: u32 = be_u32(self.buf.as_slice(), at);
            if n == 0 || n > MAX_UNIT {
                self.buf = Vec::new();
                assert(self@ =~= Seq::<u8>::empty());
                return out;
            }
            if left - 4 < n as usize {
                self.keep_from(at);
                return out;
            }
            let end: usize = at + 4 + n as usize;
            let ghost before = contents(out@);
            let unit: Vec<u8> = behind_code(slice_subrange(self.buf.as_slice(), at + 4, end));
            out.push(unit);
            proof {
                assert(contents(out@) =~= before.push(unit@));
                assert(contents(out@) + avcc(b, end as int).0 =~= before + avcc(b, at as int).0);
            }
            at = end;
        }
    }

    /// Takes more bytes and returns the units that are complete, each behind a start code of four
    /// bytes.
    pub fn push(&mut self, data: &[u8]) -> (r: Vec<Vec<u8>>)
        ensures
            (contents(r@), final(self)@) == split(old(self)@ + data@),
            forall|i: int| 0 <= i < r@.len() ==> is_coded((#[trigger] r@[i])@),
    {
        proof {
            lemma_units_coded(self@ + data@);
        }
        let r: Vec<Vec<u8>> = self.push_bytes(data);
        proof {
            let units = split(old(self)@ + data@).0;
            assert forall|i: int| 0 <= i < r@.len() implies is_coded((#[trigger] r@[i])@) by {
                assert(contents(r@)[i] == r@[i]@);
                assert(is_coded(units[i]));
            }
        }
        r
    }

    fn push_bytes(&mut self, data: &[u8]) -> (r: Vec<Vec<u8>>)
        ensures
            (contents(r@), final(self)@) == split(old(self)@ + data@),
    {
        extend(&mut self.buf, data);
        if has_start_code(self.buf.as_slice()) {
            self.push_annex_b()
        } else {
            self.push_avcc()
        }
    }
}

/// A unit without its start code.
pub open spec fn stripped(nal: Seq<u8>) -> Seq<u8> {
    if nal.len() > 4 && nal[0] == 0 && nal[1] == 0 && nal[2] == 0 && nal[3] == 1 {
        nal.skip(4)
    } else if nal.len() > 3 && nal[0] == 0 && nal[1] == 0 && nal[2] == 1 {
        nal.skip(3)
    } else {
        nal
    }
}

/// Takes the start code off a unit.
pub fn strip_start_code(nal: &[u8]) -> (r: Vec<u8>)
    ensures
        r@ == stripped(nal@),
{
    let from: usize = if nal.len() > 4 && nal[0] == 0 && nal[1] == 0 && nal[2] == 0 && nal[3] == 1 {
        4
    } else if nal.len() > 3 && nal[0] == 0 && nal[1] == 0 && nal[2] == 1 {
        3
    } else {
        0
    };
    let out: Vec<u8> = slice_to_vec(slice_subrange(nal, from, nal.len()));
    assert(out@ =~= stripped(nal@));
    out
}

/// A unit behind its length.
pub open spec fn length_prefixed(raw: Seq<u8>) -> Seq<u8> {
    be_bytes32(low32(raw.len() as usize)) + raw
}

/// Puts a unit's length before it.
pub fn avcc_wrap(raw: &[u8]) -> (r: Vec<u8>)
    ensures
        r@ == length_prefixed(raw@),
{
    let mut out: Vec<u8> = Vec::new();
    extend_be32(&mut out, low32(raw.len()));
    extend(&mut out, raw);
    assert(out@ =~= length_prefixed(raw@));
    out
}

/// The type of the unit behind the first start code whose 1 stands at or after `i`; 0 when there
/// is none.
pub open spec fn type_from(nal: Seq<u8>, i: int) -> u8
    decreases nal.len() - i,
{
    if i + 1 >= nal.len() {
        0
    } else if nal[i] == 1 && i >= 2 && nal[i - 1] == 0 && nal[i - 2] == 0 {
        nal[i + 1] & 0x1f
    } else {
        type_from(nal, i + 1)
    }
}

/// The type of a unit behind its start code.
pub fn nal_type(nal: &[u8]) -> (r: u8)
    ensures
        r == type_from(nal@, 0),
{
    let mut i: usize = 0;
    while i < nal.len() && nal.len() - i > 1
        invariant
            i <= nal@.len(),
            type_from(nal@, 0) == type_from(nal@, i as int),
        decreases nal.len() - i,
    {
        if nal[i] == 1 && i >= 2 && nal[i - 1] == 0 && nal[i - 2] == 0 {
            return nal[i + 1] & 0x1f;
        }
        i += 1;
    }
    0
}

/// Whether a slice starts a picture: the first bit after its header byte is set.
pub open spec fn starts_picture(raw: Seq<u8>) -> bool {
    raw.len() >= 2 && raw[1] & 0x80 != 0
}

/// Whether a slice starts a picture.
pub fn is_first_slice(raw: &[u8]) -> (r: bool)
    ensures
        r == starts_picture(raw@),
{
    raw.len() >= 2 && raw[1] & 0x80 != 0
}

pub open spec fn be_bytes16(n: nat) -> Seq<u8> {
    seq![((n / 256) % 256) as u8, (n % 256) as u8]
}

/// The decoder configuration of a parameter set pair, with the trailer that receivers expect.
pub open spec fn decoder_config(sps: Seq<u8>, pps: Seq<u8>) -> Seq<u8> {
    seq![1u8, sps[1], sps[2], sps[3], 0xffu8, 0xe1u8] + be_bytes16(sps.len()) + sps + seq![1u8]
        + be_bytes16(pps.len()) + pps + seq![2u8, 0u8, 0u8, 0u8]
}

fn extend_be16(out: &mut Vec<u8>, n: usize)
    ensures
        final(out)@ == old(out)@ + be_bytes16(n as nat),
{
    out.push(((n / 256) % 256) as u8);
    out.push((n % 256) as u8);
    assert(out@ =~= old(out)@ + be_bytes16(n as nat));
}

/// Builds the decoder configuration of a parameter set pair.
pub fn build_avcc_config(sps: &[u8], pps: &[u8]) -> (r: Vec<u8>)
    requires
        sps@.len() >= 4,
    ensures
        r@ == decoder_config(sps@, pps@),
{
    let mut out: Vec<u8> = vec![1u8, sps[1], sps[2], sps[3], 0xffu8, 0xe1u8];
    assert(out@ =~= seq![1u8, sps@[1], sps@[2], sps@[3], 0xffu8, 0xe1u8]);
    extend_be16(&mut out, sps.len());
    extend(&mut out, sps);
    let one: [u8; 1] = [1u8];
    extend(&mut out, &one);
    extend_be16(&mut out, pps.len());
    extend(&mut out, pps);
    let trailer: [u8; 4] = [2u8, 0u8, 0u8, 0u8];
    extend(&mut out, &trailer);
    assert(one@ =~= seq![1u8]);
    assert(trailer@ =~= seq![2u8, 0u8, 0u8, 0u8]);
    out
}

/// Whether a unit begins with a start code of four bytes.
pub open spec fn is_coded(unit: Seq<u8>) -> bool {
    unit.len() >= 4 && unit.take(4) == seq![0u8, 0u8, 0u8, 1u8]
}

proof fn lemma_coded(raw: Seq<u8>)
    ensures
        is_coded(coded(raw)),
{
    assert(coded(raw).take(4) =~= seq![0u8, 0u8, 0u8, 1u8]);
}

proof fn lemma_annex_b_coded(b: Seq<u8>, at: int)
    requires
        0 <= at <= b.len(),
    ensures
        forall|i: int|
            0 <= i < annex_b(b, at).0.len() ==> is_coded(#[trigger] annex_b(b, at).0[i]),
    decreases b.len() - at,
{
    lemma_start_bounds(b, at);
    if let Some(start) = start_from(b, at) {
        lemma_start_bounds(b, start + 3);
        if let Some(next) = start_from(b, start + 3) {
            lemma_annex_b_coded(b, next);
            lemma_coded(b.subrange(start + code_len(b, start), next));
            let more = annex_b(b, next).0;
            assert forall|i: int| 0 <= i < annex_b(b, at).0.len() implies is_coded(
                #[trigger] annex_b(b, at).0[i],
            ) by {
                if i > 0 {
                    assert(annex_b(b, at).0[i] == more[i - 1]);
                }
            }
        }
    }
}

proof fn lemma_avcc_coded(b: Seq<u8>, at: int)
    requires
        0 <= at <= b.len(),
    ensures
        forall|i: int| 0 <= i < avcc(b, at).0.len() ==> is_coded(#[trigger] avcc(b, at).0[i]),
    decreases b.len() - at,
{
    if b.len() - at >= 4 {
        let n = be32_at(b, at);
        if 0 < n <= MAX_UNIT && b.len() - at >= 4 + n {
            lemma_avcc_coded(b, at + 4 + n);
            lemma_coded(b.subrange(at + 4, at + 4 + n));
            let more = avcc(b, at + 4 + n).0;
            assert forall|i: int| 0 <= i < avcc(b, at).0.len() implies is_coded(
                #[trigger] avcc(b, at).0[i],
            ) by {
                if i > 0 {
                    assert(avcc(b, at).0[i] == more[i - 1]);
                }
            }
        }
    }
}

/// Every unit begins with a start code of four bytes, whatever the stream delimits it by.
pub proof fn lemma_units_coded(b: Seq<u8>)
    ensures
        forall|i: int| 0 <= i < split(b).0.len() ==> is_coded(#[trigger] split(b).0[i]),
{
    lemma_annex_b_coded(b, 0);
    lemma_avcc_coded(b, 0);
}

/// Where the units from `at` on that are delimited by start codes begin, the one that is left for
/// later among them.
pub open spec fn cuts(b: Seq<u8>, at: int) -> Seq<int>
    decreases b.len() - at,
    when 0 <= at <= b.len()
    via cuts_end
{
    match start_from(b, at) {
        None => Seq::empty(),
        Some(start) => match start_from(b, start + 3) {
            None => seq![start],
            Some(next) => seq![start] + cuts(b, next),
        },
    }
}

#[via_fn]
proof fn cuts_end(b: Seq<u8>, at: int) {
    lemma_start_bounds(b, at);
    if let Some(start) = start_from(b, at) {
        lemma_start_bounds(b, start + 3);
    }
}

/// Splitting by start codes loses nothing: each unit holds all that stands between its start code
/// and the next one, and what is left for later is the buffer from the last start code on.
pub proof fn lemma_split_loses_nothing(b: Seq<u8>, at: int)
    requires
        0 <= at <= b.len(),
        start_from(b, at) is Some,
    ensures
        ({
            let c = cuts(b, at);
            let (units, rest) = annex_b(b, at);
            &&& c.len() == units.len() + 1
            &&& c[0] == start_from(b, at)->Some_0
            &&& forall|i: int| 0 <= i < c.len() ==> starts_at(b, #[trigger] c[i])
            &&& forall|i: int|
                0 <= i < units.len() ==> (#[trigger] c[i]) + code_len(b, c[i]) <= c[i + 1]
            &&& forall|i: int|
                0 <= i < units.len() ==> #[trigger] units[i] == coded(
                    b.subrange(c[i] + code_len(b, c[i]), c[i + 1]),
                )
            &&& rest == b.skip(c.last())
        }),
    decreases b.len() - at,
{
    lemma_start_bounds(b, at);
    let start = start_from(b, at)->Some_0;
    lemma_start_bounds(b, start + 3);
    if start_from(b, start + 3) is None {
        assert(cuts(b, at) == seq![start]);
        assert(annex_b(b, at) == (Seq::<Seq<u8>>::empty(), b.skip(start)));
    }
    if let Some(next) = start_from(b, start + 3) {
        lemma_start_here(b, next);
        lemma_split_loses_nothing(b, next);
        let (more, rest) = annex_b(b, next);
        let later = cuts(b, next);
        let c = cuts(b, at);
        let units = annex_b(b, at).0;
        assert(start + code_len(b, start) <= next) by {
            assert(starts_at(b, start) && starts_at(b, next));
        }
        assert(c == seq![start] + later);
        assert(units == seq![coded(b.subrange(start + code_len(b, start), next))] + more);
        assert(c.last() == later.last());
        assert forall|i: int| 0 <= i < c.len() implies starts_at(b, #[trigger] c[i]) by {
            if i > 0 {
                assert(c[i] == later[i - 1]);
            }
        }
        assert forall|i: int| 0 <= i < units.len() implies (#[trigger] c[i]) + code_len(b, c[i])
            <= c[i + 1] by {
            if i > 0 {
                assert(c[i] == later[i - 1]);
            }
        }
        assert forall|i: int| 0 <= i < units.len() implies #[trigger] units[i] == coded(
            b.subrange(c[i] + code_len(b, c[i]), c[i + 1]),
        ) by {
            if i > 0 {
                assert(units[i] == more[i - 1]);
            }
        }
    }
}

/// Two splittings, one behind the other.
pub open spec fn split_then(first: (Seq<Seq<u8>>, Seq<u8>), second: (Seq<Seq<u8>>, Seq<u8>)) -> (
    Seq<Seq<u8>>,
    Seq<u8>,
) {
    (first.0 + second.0, second.1)
}

proof fn lemma_start_longer(b: Seq<u8>, c: Seq<u8>, i: int)
    requires
        0 <= i,
        start_from(b, i) is Some,
    ensures
        start_from(b + c, i) == start_from(b, i),
    decreases b.len() - i,
{
    if !starts_at(b, i) {
        assert(!starts_at(b + c, i));
        lemma_start_longer(b, c, i + 1);
    }
}

proof fn lemma_start_shifted(b: Seq<u8>, k: int, i: int)
    requires
        0 <= k <= b.len(),
        0 <= i,
    ensures
        start_from(b, k + i) == (match start_from(b.skip(k), i) {
            Some(s) => Some(k + s),
            None => None,
        }),
    decreases b.len() - k - i,
{
    if k + i + 3 < b.len() {
        assert(starts_at(b, k + i) == starts_at(b.skip(k), i));
        lemma_start_shifted(b, k, i + 1);
    }
}

proof fn lemma_annex_b_shifted(b: Seq<u8>, k: int, at: int)
    requires
        0 <= k <= b.len(),
        0 <= at <= b.len() - k,
    ensures
        annex_b(b, k + at) == annex_b(b.skip(k), at),
    decreases b.len() - k - at,
{
    let d = b.skip(k);
    lemma_start_shifted(b, k, at);
    lemma_start_bounds(d, at);
    assert(b.skip(k + at) =~= d.skip(at));
    if let Some(start) = start_from(d, at) {
        lemma_start_shifted(b, k, start + 3);
        lemma_start_bounds(d, start + 3);
        assert(b.skip(k + start) =~= d.skip(start));
        if let Some(next) = start_from(d, start + 3) {
            lemma_annex_b_shifted(b, k, next);
            let n = code_len(d, start);
            assert(b.subrange(k + start + n, k + next) =~= d.subrange(start + n, next));
        }
    }
}

proof fn lemma_annex_b_longer(b: Seq<u8>, c: Seq<u8>, at: int)
    requires
        starts_at(b, at),
    ensures
        starts_at(annex_b(b, at).1, 0),
        annex_b(b + c, at) == split_then(annex_b(b, at), annex_b(annex_b(b, at).1 + c, 0)),
    decreases b.len() - at,
{
    let d = b + c;
    lemma_start_here(b, at);
    assert(starts_at(d, at));
    lemma_start_here(d, at);
    lemma_start_bounds(b, at + 3);
    let (units, rest) = annex_b(b, at);
    match start_from(b, at + 3) {
        None => {
            assert(rest == b.skip(at));
            assert(rest + c =~= d.skip(at));
            lemma_annex_b_shifted(d, at, 0);
            assert(units + annex_b(rest + c, 0).0 =~= annex_b(rest + c, 0).0);
        },
        Some(next) => {
            lemma_start_longer(b, c, at + 3);
            lemma_annex_b_longer(b, c, next);
            let n = code_len(b, at);
            assert(d.subrange(at + n, next) =~= b.subrange(at + n, next));
            let more = annex_b(b, next).0;
            let last = annex_b(rest + c, 0).0;
            let one = seq![coded(b.subrange(at + n, next))];
            assert((one + more) + last =~= one + (more + last));
        },
    }
}

/// Whether no length prefix from `at` on is impossible.
pub open spec fn lengths_possible(b: Seq<u8>, at: int) -> bool
    decreases b.len() - at,
{
    if b.len() - at < 4 {
        true
    } else {
        let n = be32_at(b, at);
        0 < n <= MAX_UNIT && (b.len() - at >= 4 + n ==> lengths_possible(b, at + 4 + n))
    }
}

proof fn lemma_avcc_shifted(b: Seq<u8>, k: int, at: int)
    requires
        0 <= k <= b.len(),
        0 <= at <= b.len() - k,
    ensures
        avcc(b, k + at) == avcc(b.skip(k), at),
    decreases b.len() - k - at,
{
    let d = b.skip(k);
    assert(b.skip(k + at) =~= d.skip(at));
    if b.len() - k - at >= 4 {
        let n = be32_at(d, at);
        assert(be32_at(b, k + at) == n);
        if 0 < n <= MAX_UNIT && d.len() - at >= 4 + n {
            lemma_avcc_shifted(b, k, at + 4 + n);
            assert(b.subrange(k + at + 4, k + at + 4 + n) =~= d.subrange(at + 4, at + 4 + n));
        }
    }
}

proof fn lemma_avcc_longer(b: Seq<u8>, c: Seq<u8>, at: int)
    requires
        0 <= at <= b.len(),
        lengths_possible(b, at),
    ensures
        exists|k: int| at <= k <= b.len() && avcc(b, at).1 == #[trigger] b.skip(k),
        avcc(b + c, at) == split_then(avcc(b, at), avcc(avcc(b, at).1 + c, 0)),
    decreases b.len() - at,
{
    let d = b + c;
    let (units, rest) = avcc(b, at);
    let whole = b.len() - at >= 4 && b.len() - at >= 4 + be32_at(b, at);
    if whole {
        let n = be32_at(b, at);
        lemma_avcc_longer(b, c, at + 4 + n);
        assert(be32_at(d, at) == n);
        assert(d.subrange(at + 4, at + 4 + n) =~= b.subrange(at + 4, at + 4 + n));
        let more = avcc(b, at + 4 + n).0;
        let last = avcc(rest + c, 0).0;
        let one = seq![coded(b.subrange(at + 4, at + 4 + n))];
        assert((one + more) + last =~= one + (more + last));
    } else {
        assert(rest == b.skip(at));
        assert(rest + c =~= d.skip(at));
        lemma_avcc_shifted(d, at, 0);
        assert(units + avcc(rest + c, 0).0 =~= avcc(rest + c, 0).0);
    }
}

/// Where a stream is cut does not matter: the bytes pushed in two pieces give the units and the
/// rest that they give in one. This holds once a start code was seen, while nothing was taken yet,
/// and for length prefixes that are possible in a stream without a start code.
pub proof fn lemma_push_in_pieces(b: Seq<u8>, c: Seq<u8>)
    requires
        start_from(b, 0) is Some || split(b) == (Seq::<Seq<u8>>::empty(), b) || (start_from(
            b + c,
            0,
        ) is None && lengths_possible(b, 0)),
    ensures
        split(b + c) == split_then(split(b), split(split(b).1 + c)),
{
    let d = b + c;
    let (units, rest) = split(b);
    if start_from(b, 0) is Some {
        lemma_start_longer(b, c, 0);
        lemma_start_bounds(b, 0);
        let start = start_from(b, 0)->Some_0;
        lemma_start_here(b, start);
        assert(starts_at(d, start));
        lemma_start_here(d, start);
        lemma_annex_b_longer(b, c, start);
        assert(annex_b(b, 0) == annex_b(b, start));
        assert(annex_b(d, 0) == annex_b(d, start));
        assert(starts_at(rest + c, 0));
        lemma_start_here(rest + c, 0);
    } else if start_from(d, 0) is None && lengths_possible(b, 0) {
        lemma_avcc_longer(b, c, 0);
        let k = choose|k: int| 0 <= k <= b.len() && rest == #[trigger] b.skip(k);
        assert(rest + c =~= d.skip(k));
        lemma_start_bounds(d, 0);
        lemma_start_bounds(d, k);
        lemma_start_shifted(d, k, 0);
    } else {
        assert(units + split(rest + c).0 =~= split(rest + c).0);
    }
}

/// Byte strings one after another.
pub open spec fn concat(pieces: Seq<Seq<u8>>) -> Seq<u8>
    decreases pieces.len(),
{
    if pieces.len() == 0 {
        Seq::empty()
    } else {
        concat(pieces.drop_last()) + pieces.last()
    }
}

/// What the pieces of a stream give, pushed one after another.
pub open spec fn pushed(pieces: Seq<Seq<u8>>) -> (Seq<Seq<u8>>, Seq<u8>)
    decreases pieces.len(),
{
    if pieces.len() == 0 {
        (Seq::empty(), Seq::empty())
    } else {
        let before = pushed(pieces.drop_last());
        split_then(before, split(before.1 + pieces.last()))
    }
}

/// A stream that begins with a start code gives the same units however it is cut into pieces.
pub proof fn lemma_any_cut(pieces: Seq<Seq<u8>>)
    requires
        concat(pieces).len() < 4 || starts_at(concat(pieces), 0),
    ensures
        pushed(pieces) == split(concat(pieces)),
    decreases pieces.len(),
{
    if pieces.len() == 0 {
        let none = Seq::<u8>::empty();
        assert(none.skip(0) =~= none);
        assert(split(none) == (Seq::<Seq<u8>>::empty(), none));
    } else {
        let b = concat(pieces.drop_last());
        lemma_any_cut(pieces.drop_last());
        if b.len() < 4 {
            assert(b.skip(0) =~= b);
            assert(split(b) == (Seq::<Seq<u8>>::empty(), b));
        } else {
            lemma_start_here(b, 0);
        }
        lemma_push_in_pieces(b, pieces.last());
    }
}

proof fn lemma_start_here(b: Seq<u8>, i: int)
    requires
        starts_at(b, i),
    ensures
        start_from(b, i) == Some(i),
{
}

/// A unit that was given a length prefix comes back behind a start code, whatever follows it.
pub proof fn lemma_avcc_round_trip(raw: Seq<u8>, rest: Seq<u8>)
    requires
        0 < raw.len() <= MAX_UNIT,
    ensures
        avcc(length_prefixed(raw) + rest, 0).0 == seq![coded(raw)] + avcc(
            length_prefixed(raw) + rest,
            4 + raw.len() as int,
        ).0,
        (length_prefixed(raw) + rest).skip(4 + raw.len() as int) == rest,
{
    let b = length_prefixed(raw) + rest;
    let n = raw.len() as u32;
    crate::bytes::lemma_be32_inverse(n);
    assert(b[0] == be_bytes32(n)[0]);
    assert(b[1] == be_bytes32(n)[1]);
    assert(b[2] == be_bytes32(n)[2]);
    assert(b[3] == be_bytes32(n)[3]);
    assert(be32_at(b, 0) == n);
    assert(b.subrange(4, 4 + n) =~= raw);
    assert(b.skip(4 + n as int) =~= rest);
}

/// Taking the start code off a unit that was put behind one gives the unit back.
pub proof fn lemma_strip_start_code(raw: Seq<u8>)
    requires
        raw.len() > 0,
    ensures
        stripped(coded(raw)) == raw,
        type_from(coded(raw), 0) == raw[0] & 0x1f,
{
    let nal = coded(raw);
    assert(stripped(nal) =~= raw);
    reveal_with_fuel(type_from, 5);
}

} // verus!
