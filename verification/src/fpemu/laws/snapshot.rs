//! What a snapshot of the machine holds.
use crate::bytes::{le16_at, le64_at};
use crate::fpemu::laws::branches::address_at;
use crate::fpemu::laws::library::{holds_data, lemma_written_data};
use crate::fpemu::loader::{loaded, page_entry, page_list, page_spans, stub_list};
use crate::fpemu::mem::MemView;
use crate::mirror::laws::{little32, little64};
use crate::text::read_lossy;
use vstd::prelude::*;

verus! {

/// A function of the list is its address, the length of its name and its name; an address of zero
/// ends the list, and a list that is cut short is none.
pub proof fn law_function_list(b: Seq<u8>, pos: int, stubs: Map<u64, Seq<char>>, n: int)
    requires
        0 <= pos,
        pos + 8 <= b.len(),
        pos + 10 <= b.len() ==> n == b[pos + 8] + 0x100 * b[pos + 9],
    ensures
        little64(b, pos) == 0 ==> stub_list(b, pos, stubs) == Some((pos + 8, stubs)),
        little64(b, pos) != 0 && pos + 10 <= b.len() && pos + 10 + n <= b.len() ==> stub_list(
            b,
            pos,
            stubs,
        ) == stub_list(
            b,
            pos + 10 + n,
            stubs.insert(
                little64(b, pos) as u64,
                read_lossy(b.subrange(pos + 10, pos + 10 + n)),
            ),
        ),
        little64(b, pos) != 0 && (pos + 10 > b.len() || pos + 10 + n > b.len()) ==> stub_list(
            b,
            pos,
            stubs,
        ) is None,
{
    assert(le64_at(b, pos) == little64(b, pos));
    if pos + 10 <= b.len() {
        assert(le16_at(b, pos + 8) == n);
    }
}

/// A whole page is its address, a mark and its 4096 bytes, which then stand in memory.
pub proof fn law_whole_page(b: Seq<u8>, pos: int, m: MemView)
    requires
        0 <= pos,
        pos + 4106 <= b.len(),
        b[pos + 8] == 0xFF,
        b[pos + 9] == 0xFF,
        little64(b, pos) <= 0xFFFF_FFFF_FFFF_E000,
    ensures
        page_entry(b, pos, m) matches Some((end, after)) && end == pos + 4106 && holds_data(
            after,
            m,
            little64(b, pos) as u64,
            b.subrange(pos + 10, pos + 4106),
        ),
{
    let a = little64(b, pos) as u64;
    assert(le64_at(b, pos) == a);
    assert(le16_at(b, pos + 8) == 0xFFFF);
    lemma_written_data(m.with_range(a, 4096), a, b.subrange(pos + 10, pos + 4106));
}

/// A span of a page is its place in the page, its length and its bytes, which then stand there.
pub proof fn law_span(b: Seq<u8>, pos: int, a: u64, left: nat, m: MemView, place: int, n: int)
    requires
        0 <= pos,
        left > 0,
        pos + 4 <= b.len(),
        place == b[pos] + 0x100 * b[pos + 1],
        n == b[pos + 2] + 0x100 * b[pos + 3],
        pos + 4 + n <= b.len(),
    ensures
        exists|next: MemView|
            holds_data(next, m, address_at(a, place), b.subrange(pos + 4, pos + 4 + n)) && page_spans(
                b,
                pos,
                a,
                left,
                m,
            ) == #[trigger] page_spans(b, pos + 4 + n, a, (left - 1) as nat, next),
{
    assert(le16_at(b, pos) == place);
    assert(le16_at(b, pos + 2) == n);
    let at = a.wrapping_add(place as u64);
    assert(at == address_at(a, place));
    let next = m.written(at, b.subrange(pos + 4, pos + 4 + n));
    lemma_written_data(m, at, b.subrange(pos + 4, pos + 4 + n));
    assert(page_spans(b, pos, a, left, m) == page_spans(b, pos + 4 + n, a, (left - 1) as nat, next));
}

/// A snapshot starts with the number of its pages and where the heap goes on; the functions follow at
/// 20, and the pages behind them. The processor is idle.
pub proof fn law_snapshot(b: Seq<u8>)
    ensures
        b.len() < 20 ==> loaded(b) is None,
        loaded(b) matches Some(s) ==> {
            &&& s.heap_ptr == little64(b, 4)
            &&& stub_list(b, 20, Map::empty()) matches Some((pos, stubs)) && s.stubs == stubs
                && page_list(b, pos, little32(b, 0) as nat, crate::fpemu::loader::blank()) is Some
            &&& s.cpu.x.len() == 31 && s.cpu.vreg.len() == 32
            &&& forall|i: int| 0 <= i < 31 ==> #[trigger] s.cpu.x[i] == 0
            &&& s.sha_ctxs == Map::<u64, crate::fpemu::contexts::ShaView>::empty()
            &&& s.aes_ctxs == Map::<u64, crate::fpemu::contexts::AesCtrView>::empty()
            &&& s.mem.code_base == 0x1_a121_0000 && s.mem.code_end == 0x1_a131_6000
        },
{
    if b.len() >= 20 {
        assert(le64_at(b, 4) == little64(b, 4));
        assert(crate::bytes::le32_at(b, 0) == little32(b, 0));
    }
}

} // verus!
