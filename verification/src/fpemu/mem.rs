//! Paged memory.
use crate::bytes::{byte32, byte_of, le_bytes16, le_bytes64};
use std::collections::HashMap;
use vstd::prelude::*;

verus! {

broadcast use vstd::std_specs::hash::group_hash_axioms;

/// Memory of 2^64 bytes, allocated by pages of 4096 as they are written; bytes never written read
/// as 0, and reading them allocates nothing. Addresses wrap around at the top.
pub struct Mem {
    pages: HashMap<u64, Vec<u8>>,
    code_insts: Vec<u32>,
    code_base: u64,
    code_end: u64,
}

/// What memory holds: its bytes, its pages, and the instructions decoded ahead for the code region.
#[verifier::ext_equal]
pub struct MemView {
    /// Total: every address is in the domain.
    pub bytes: Map<u64, u8>,
    /// The numbers of the pages that are allocated: those written to or mapped.
    pub pages: Set<u64>,
    pub code: Seq<u32>,
    pub code_base: u64,
    pub code_end: u64,
}

/// How far `x` lies above `a`, going round the top of memory.
pub open spec fn distance(a: u64, x: u64) -> int {
    if x >= a {
        x - a
    } else {
        x - a + 0x1_0000_0000_0000_0000
    }
}

/// The number of the page that holds the byte `i` above `a`.
pub open spec fn page_at(a: u64, i: int) -> u64 {
    a.wrapping_add(i as u64) / 4096
}

impl MemView {
    /// The memory is laid out as its operations keep it.
    pub open spec fn wf(self) -> bool {
        &&& forall|a: u64| #[trigger] self.bytes.dom().contains(a)
        &&& forall|a: u64| !self.mapped(a) ==> #[trigger] self.bytes[a] == 0
        &&& self.code_base <= self.code_end
        &&& self.code.len() == (self.code_end - self.code_base) / 4
    }

    /// Whether the page that holds address `a` is allocated.
    pub open spec fn mapped(self, a: u64) -> bool {
        self.pages.contains(a / 4096)
    }

    pub open spec fn byte(self, a: u64) -> u8 {
        self.bytes[a]
    }

    /// The `n` bytes from `a` up.
    pub open spec fn read(self, a: u64, n: nat) -> Seq<u8> {
        Seq::new(n, |i: int| self.bytes[a.wrapping_add(i as u64)])
    }

    pub open spec fn read16(self, a: u64) -> u16 {
        (self.byte(a) + 0x100 * self.byte(a.wrapping_add(1))) as u16
    }

    pub open spec fn read32(self, a: u64) -> u32 {
        (self.byte(a) + 0x100 * self.byte(a.wrapping_add(1)) + 0x1_0000 * self.byte(
            a.wrapping_add(2),
        ) + 0x100_0000 * self.byte(a.wrapping_add(3))) as u32
    }

    pub open spec fn read64(self, a: u64) -> u64 {
        (self.read32(a) + 0x1_0000_0000 * self.read32(a.wrapping_add(4))) as u64
    }

    /// The memory with `data` written from `a` up.
    pub open spec fn written(self, a: u64, data: Seq<u8>) -> MemView {
        MemView {
            bytes: Map::new(
                |x: u64| true,
                |x: u64|
                    if distance(a, x) < data.len() {
                        data[distance(a, x)]
                    } else {
                        self.bytes[x]
                    },
            ),
            pages: Set::new(
                |p: u64|
                    self.pages.contains(p) || exists|i: int|
                        0 <= i < data.len() && #[trigger] page_at(a, i) == p,
            ),
            ..self
        }
    }

    /// The memory with the pages allocated that hold the `size` bytes from `a` up.
    pub open spec fn with_range(self, a: u64, size: u64) -> MemView {
        MemView {
            pages: Set::new(
                |p: u64| self.pages.contains(p) || (a / 4096 <= p && p * 4096 < a + size),
            ),
            ..self
        }
    }

    pub open spec fn write8(self, a: u64, v: u8) -> MemView {
        self.written(a, seq![v])
    }

    pub open spec fn write16(self, a: u64, v: u16) -> MemView {
        self.written(a, le_bytes16(v))
    }

    pub open spec fn write32(self, a: u64, v: u32) -> MemView {
        self.written(a, crate::bytes::le_bytes32(v))
    }

    pub open spec fn write64(self, a: u64, v: u64) -> MemView {
        self.written(a, le_bytes64(v))
    }

    /// The word at `a` by the page that holds its first byte; 0 when that page is not allocated.
    pub open spec fn word(self, a: u64) -> u32 {
        if self.mapped(a) {
            self.read32(a)
        } else {
            0
        }
    }

    /// Whether the word at `a` lies on one page, if its page is allocated.
    pub open spec fn whole(self, a: u64) -> bool {
        self.mapped(a) ==> a % 4096 <= 4092
    }

    /// The instruction at `pc`: from the code region as it was when the region was set, else the
    /// word there.
    pub open spec fn inst(self, pc: u64) -> u32 {
        if self.code_base <= pc < self.code_end {
            self.code[(pc - self.code_base) / 4]
        } else {
            self.word(pc)
        }
    }

    /// Whether an instruction can be fetched at `pc`: not from a last word of the code region that is
    /// cut short, and outside the region not across two pages.
    pub open spec fn fetchable(self, pc: u64) -> bool {
        if self.code_base <= pc < self.code_end {
            (pc - self.code_base) / 4 < self.code.len()
        } else {
            self.whole(pc)
        }
    }

    /// The memory with the words from `base` to `end` decoded ahead.
    pub open spec fn with_code(self, base: u64, end: u64) -> MemView {
        MemView {
            code: Seq::new(
                ((end - base) / 4) as nat,
                |i: int| self.word((base + 4 * i) as u64),
            ),
            code_base: base,
            code_end: end,
            ..self
        }
    }
}

impl View for Mem {
    type V = MemView;

    closed spec fn view(&self) -> MemView {
        MemView {
            bytes: Map::new(|a: u64| true, |a: u64| self.stored(a)),
            pages: self.pages@.dom(),
            code: self.code_insts@,
            code_base: self.code_base,
            code_end: self.code_end,
        }
    }
}

impl Mem {
    spec fn stored(&self, a: u64) -> u8 {
        if self.pages@.contains_key(a / 4096) {
            self.pages@[a / 4096]@[(a % 4096) as int]
        } else {
            0
        }
    }

    /// Every allocated page has its full size.
    pub closed spec fn wf(&self) -> bool {
        &&& forall|p: u64| #[trigger]
            self.pages@.contains_key(p) ==> self.pages@[p]@.len() == 4096
        &&& self@.wf()
    }

    pub proof fn lemma_wf_view(&self)
        requires
            self.wf(),
        ensures
            self@.wf(),
    {
    }

    /// Memory that is all zero, with no code region.
    pub fn new() -> (r: Mem)
        ensures
            r.wf(),
            r@ == (MemView {
                bytes: Map::new(|a: u64| true, |a: u64| 0u8),
                pages: Set::empty(),
                code: Seq::empty(),
                code_base: 0,
                code_end: 0,
            }),
    {
        let r = Mem { pages: HashMap::new(), code_insts: Vec::new(), code_base: 0, code_end: 0 };
        assert(r@.bytes =~= Map::new(|a: u64| true, |a: u64| 0u8));
        assert(r@.pages =~= Set::<u64>::empty());
        r
    }

    /// Whether an instruction can be fetched at `pc`.
    pub fn can_fetch(&self, pc: u64) -> (r: bool)
        ensures
            r == self@.fetchable(pc),
    {
        if pc >= self.code_base && pc < self.code_end {
            return ((pc - self.code_base) / 4) < self.code_insts.len() as u64;
        }
        pc % 4096 <= 4092 || !self.is_mapped(pc)
    }

    fn is_mapped(&self, a: u64) -> (r: bool)
        ensures
            r == self@.mapped(a),
    {
        self.pages.contains_key(&(a / 4096))
    }

    fn word(&self, a: u64) -> (r: u32)
        requires
            self.wf(),
        ensures
            r == self@.word(a),
    {
        if self.is_mapped(a) {
            self.read32(a)
        } else {
            0
        }
    }

    /// The instruction at `pc`.
    pub fn fetch_inst(&self, pc: u64) -> (r: u32)
        requires
            self.wf(),
            self@.fetchable(pc),
        ensures
            r == self@.inst(pc),
    {
        if pc >= self.code_base && pc < self.code_end {
            let k: u64 = (pc - self.code_base) / 4;
            assert(k < self.code_insts.len());
            return self.code_insts[k as usize];
        }
        self.word(pc)
    }

    pub fn read8(&self, a: u64) -> (r: u8)
        requires
            self.wf(),
        ensures
            r == self@.byte(a),
    {
        match self.pages.get(&(a / 4096)) {
            Some(page) => page[(a % 4096) as usize],
            None => 0,
        }
    }

    pub fn write8(&mut self, a: u64, v: u8)
        requires
            old(self).wf(),
        ensures
            final(self).wf(),
            final(self)@ == old(self)@.write8(a, v),
    {
        let ghost before = self@;
        let key: u64 = a / 4096;
        let mut page: Vec<u8> = match self.pages.remove(&key) {
            Some(page) => page,
            None => vec![0u8; 4096],
        };
        page[(a % 4096) as usize] = v;
        self.pages.insert(key, page);
        proof {
            assert forall|x: u64| #[trigger] self@.bytes[x] == before.write8(a, v).bytes[x] by {
                if x == a {
                } else if x / 4096 == key {
                    assert(x % 4096 != a % 4096);
                    assert(distance(a, x) >= 1);
                } else {
                    assert(distance(a, x) >= 1);
                }
            }
            assert(self@.bytes =~= before.write8(a, v).bytes);
            assert(page_at(a, 0) == key);
            assert(self@.pages =~= before.write8(a, v).pages);
        }
    }

    pub fn read16(&self, a: u64) -> (r: u16)
        requires
            self.wf(),
        ensures
            r == self@.read16(a),
    {
        self.read8(a) as u16 + 0x100 * (self.read8(a.wrapping_add(1)) as u16)
    }

    pub fn read32(&self, a: u64) -> (r: u32)
        requires
            self.wf(),
        ensures
            r == self@.read32(a),
    {
        self.read8(a) as u32 + 0x100 * (self.read8(a.wrapping_add(1)) as u32) + 0x1_0000 * (
        self.read8(a.wrapping_add(2)) as u32) + 0x100_0000 * (self.read8(
            a.wrapping_add(3),
        ) as u32)
    }

    pub fn read64(&self, a: u64) -> (r: u64)
        requires
            self.wf(),
        ensures
            r == self@.read64(a),
    {
        self.read32(a) as u64 + 0x1_0000_0000 * (self.read32(a.wrapping_add(4)) as u64)
    }

    pub fn write16(&mut self, a: u64, v: u16)
        requires
            old(self).wf(),
        ensures
            final(self).wf(),
            final(self)@ == old(self)@.write16(a, v),
    {
        let data: [u8; 2] = [(v % 0x100) as u8, (v / 0x100) as u8];
        assert(data@ =~= le_bytes16(v));
        self.write_n(a, &data);
    }

    pub fn write32(&mut self, a: u64, v: u32)
        requires
            old(self).wf(),
        ensures
            final(self).wf(),
            final(self)@ == old(self)@.write32(a, v),
    {
        let data: [u8; 4] = [byte_of(v, 0), byte_of(v, 1), byte_of(v, 2), byte_of(v, 3)];
        assert(data@ =~= crate::bytes::le_bytes32(v));
        self.write_n(a, &data);
    }

    pub fn write64(&mut self, a: u64, v: u64)
        requires
            old(self).wf(),
        ensures
            final(self).wf(),
            final(self)@ == old(self)@.write64(a, v),
    {
        let low: u32 = (v % 0x1_0000_0000) as u32;
        let high: u32 = (v / 0x1_0000_0000) as u32;
        let data: [u8; 8] = [
            byte_of(low, 0),
            byte_of(low, 1),
            byte_of(low, 2),
            byte_of(low, 3),
            byte_of(high, 0),
            byte_of(high, 1),
            byte_of(high, 2),
            byte_of(high, 3),
        ];
        assert(data@ =~= le_bytes64(v));
        self.write_n(a, &data);
    }

    /// Reads the `n` bytes from `addr` up.
    pub fn read_n(&self, addr: u64, n: usize) -> (r: Vec<u8>)
        requires
            self.wf(),
        ensures
            r@ == self@.read(addr, n as nat),
    {
        let mut out: Vec<u8> = Vec::new();
        let mut i: usize = 0;
        while i < n
            invariant
                i <= n,
                self.wf(),
                out@ =~= self@.read(addr, i as nat),
            decreases n - i,
        {
            out.push(self.read8(addr.wrapping_add(i as u64)));
            i += 1;
        }
        out
    }

    /// Writes `data` from `addr` up.
    pub fn write_n(&mut self, addr: u64, data: &[u8])
        requires
            old(self).wf(),
        ensures
            final(self).wf(),
            final(self)@ == old(self)@.written(addr, data@),
    {
        let ghost before = self@;
        let mut i: usize = 0;
        proof {
            self.lemma_wf_view();
            assert(before.written(addr, data@.take(0)) =~= before);
        }
        while i < data.len()
            invariant
                i <= data.len(),
                self.wf(),
                self@ == before.written(addr, data@.take(i as int)),
            decreases data.len() - i,
        {
            let at: u64 = addr.wrapping_add(i as u64);
            self.write8(at, data[i]);
            i += 1;
            proof {
                let done = before.written(addr, data@.take(i as int));
                let part = before.written(addr, data@.take(i - 1));
                assert(distance(addr, at) == i - 1);
                assert forall|x: u64| #[trigger] self@.bytes[x] == done.bytes[x] by {
                    if x != at {
                        assert(distance(at, x) >= 1);
                        assert(distance(addr, x) != i - 1);
                    }
                }
                assert(self@.bytes =~= done.bytes);
                let one = part.write8(at, data@[i - 1]);
                assert forall|p: u64| #[trigger] one.pages.contains(p) == done.pages.contains(p) by {
                    if p == at / 4096 {
                        assert(page_at(at, 0) == p);
                        assert(page_at(addr, i - 1) == p);
                    }
                    if done.pages.contains(p) && !before.pages.contains(p) {
                        let k = choose|k: int| 0 <= k < i && #[trigger] page_at(addr, k) == p;
                        assert(k == i - 1 || part.pages.contains(p));
                    }
                }
                assert(one.pages =~= done.pages);
            }
        }
        assert(data@.take(data@.len() as int) =~= data@);
    }

    /// Allocates the pages that hold the `size` bytes from `addr` up; no byte changes.
    pub fn map_range(&mut self, addr: u64, size: u64)
        requires
            old(self).wf(),
            addr + size <= 0xFFFF_FFFF_FFFF_F000,
        ensures
            final(self).wf(),
            final(self)@ == old(self)@.with_range(addr, size),
    {
        let ghost before = self@;
        let end: u64 = addr + size;
        let first: u64 = addr / 4096;
        let mut p: u64 = addr - addr % 4096;
        proof {
            self.lemma_wf_view();
        }
        assert(self@.pages =~= Set::new(
            |q: u64| before.pages.contains(q) || (first <= q && q * 4096 < p),
        ));
        while p < end
            invariant
                self.wf(),
                self@.bytes == before.bytes,
                self@.code == before.code,
                self@.code_base == before.code_base,
                self@.code_end == before.code_end,
                before.wf(),
                end <= 0xFFFF_FFFF_FFFF_F000,
                p % 4096 == 0,
                first <= p / 4096,
                p < end + 4096,
                self@.pages == Set::new(
                    |q: u64| before.pages.contains(q) || (first <= q && q * 4096 < p),
                ),
            decreases (if p < end { end - p } else { 0 }),
        {
            let ghost part = self@;
            let byte: u8 = self.read8(p);
            self.write8(p, byte);
            proof {
                assert forall|x: u64| #[trigger] self@.bytes[x] == before.bytes[x] by {
                    if x != p {
                        assert(distance(p, x) >= 1);
                    }
                }
                assert(self@.bytes =~= before.bytes);
                assert(page_at(p, 0) == p / 4096);
                assert(self@.pages =~= Set::new(
                    |q: u64| before.pages.contains(q) || (first <= q && q * 4096 < p + 4096),
                ));
            }
            p += 4096;
        }
        let ghost after = before.with_range(addr, size);
        assert forall|q: u64| #[trigger] self@.pages.contains(q) == after.pages.contains(q) by {
            assert(p / 4096 * 4096 == p);
            assert(q * 4096 < p <==> q < p / 4096);
        }
        assert(self@.pages =~= after.pages);
    }

    /// Decodes the words from `base` to `end` ahead, as they are now, for `fetch_inst`. None of them
    /// may lie across two pages, if its page is allocated.
    pub fn set_code_region(&mut self, base: u64, end: u64)
        requires
            old(self).wf(),
            base <= end,
            forall|a: u64|
                base <= a && a + 4 <= end && (a - base) % 4 == 0 ==> #[trigger] old(self)@.whole(a),
        ensures
            final(self).wf(),
            final(self)@ == old(self)@.with_code(base, end),
    {
        let n: u64 = (end - base) / 4;
        let mut insts: Vec<u32> = Vec::new();
        let mut i: u64 = 0;
        while i < n
            invariant
                i <= n,
                n == (end - base) / 4,
                base <= end,
                self.wf(),
                insts@ =~= Seq::new(i as nat, |k: int| self@.word((base + 4 * k) as u64)),
            decreases n - i,
        {
            insts.push(self.word(base + 4 * i));
            i += 1;
        }
        self.code_insts = insts;
        self.code_base = base;
        self.code_end = end;
        assert(self@.bytes =~= old(self)@.bytes);
    }
}

/// Reading back what was written gives it, wherever in memory it lies.
pub proof fn lemma_read_after_write(m: MemView, a: u64, data: Seq<u8>)
    requires
        data.len() <= 0x1_0000_0000_0000_0000,
    ensures
        m.written(a, data).read(a, data.len()) == data,
{
    let w = m.written(a, data);
    assert forall|i: int| 0 <= i < data.len() implies w.read(a, data.len())[i] == data[i] by {
        let x = a.wrapping_add(i as u64);
        assert(distance(a, x) == i);
    }
    assert(w.read(a, data.len()) =~= data);
}

/// A write leaves every byte outside it as it was.
pub proof fn lemma_write_frame(m: MemView, a: u64, data: Seq<u8>, x: u64)
    requires
        m.wf(),
        distance(a, x) >= data.len(),
    ensures
        m.written(a, data).byte(x) == m.byte(x),
{
}

proof fn lemma_distance_forward(a: u64, k: u64)
    ensures
        distance(a, a.wrapping_add(k)) == k,
{
}

/// A halfword reads back as it was written.
pub proof fn lemma_read16_after_write16(m: MemView, a: u64, v: u16)
    ensures
        m.write16(a, v).read16(a) == v,
{
    lemma_distance_forward(a, 1);
    let w = m.write16(a, v);
    assert(w.byte(a) == (v % 0x100) as u8);
    assert(w.byte(a.wrapping_add(1)) == (v / 0x100) as u8);
}

/// A word reads back as it was written.
pub proof fn lemma_read32_after_write32(m: MemView, a: u64, v: u32)
    ensures
        m.write32(a, v).read32(a) == v,
{
    lemma_distance_forward(a, 1);
    lemma_distance_forward(a, 2);
    lemma_distance_forward(a, 3);
    let w = m.write32(a, v);
    assert(w.byte(a) == byte32(v, 0));
    assert(w.byte(a.wrapping_add(1)) == byte32(v, 1));
    assert(w.byte(a.wrapping_add(2)) == byte32(v, 2));
    assert(w.byte(a.wrapping_add(3)) == byte32(v, 3));
}

proof fn lemma_read32_bytes(m: MemView, a: u64, v: u32)
    requires
        m.byte(a) == byte32(v, 0),
        m.byte(a.wrapping_add(1)) == byte32(v, 1),
        m.byte(a.wrapping_add(2)) == byte32(v, 2),
        m.byte(a.wrapping_add(3)) == byte32(v, 3),
    ensures
        m.read32(a) == v,
{
}

/// A doubleword reads back as it was written.
pub proof fn lemma_read64_after_write64(m: MemView, a: u64, v: u64)
    ensures
        m.write64(a, v).read64(a) == v,
{
    lemma_distance_forward(a, 1);
    lemma_distance_forward(a, 2);
    lemma_distance_forward(a, 3);
    lemma_distance_forward(a, 4);
    lemma_distance_forward(a, 5);
    lemma_distance_forward(a, 6);
    lemma_distance_forward(a, 7);
    let b = a.wrapping_add(4);
    assert(b.wrapping_add(1) == a.wrapping_add(5));
    assert(b.wrapping_add(2) == a.wrapping_add(6));
    assert(b.wrapping_add(3) == a.wrapping_add(7));
    let low = (v % 0x1_0000_0000) as u32;
    let high = (v / 0x1_0000_0000) as u32;
    let w = m.write64(a, v);
    let data = le_bytes64(v);
    assert(w.byte(a) == data[0]);
    assert(w.byte(a.wrapping_add(1)) == data[1]);
    assert(w.byte(a.wrapping_add(2)) == data[2]);
    assert(w.byte(a.wrapping_add(3)) == data[3]);
    assert(w.byte(b) == data[4]);
    assert(w.byte(a.wrapping_add(5)) == data[5]);
    assert(w.byte(a.wrapping_add(6)) == data[6]);
    assert(w.byte(a.wrapping_add(7)) == data[7]);
    lemma_read32_bytes(w, a, low);
    lemma_read32_bytes(w, b, high);
}

} // verus!
