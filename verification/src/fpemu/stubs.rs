//! The C library and CommonCrypto functions that the emulated program calls.
use crate::fpemu::contexts::{AesCtrCtx, AesCtrView, ShaCtx, ShaView};
use crate::fpemu::fault::Fault;
use crate::fpemu::mem::MemView;
use crate::fpemu::state::{State, StateView};
use crate::text::same;
use vstd::prelude::*;

verus! {

/// A library function.
#[derive(Clone, Copy, Debug, PartialEq, Eq, Structural)]
pub enum Stub {
    Malloc,
    Calloc,
    Realloc,
    Copy,
    Fill,
    Compare,
    Zero,
    StringLength,
    Sha1Init,
    Sha1Update,
    Sha1Final,
    Sha512Init,
    Sha512Update,
    Sha512Final,
    AesInit,
    AesUpdate,
    AesFinal,
    Abort,
    UpTime,
    Retain,
    RunOnce,
    DispatchOnce,
    /// Any other function: it does nothing and returns 0.
    Nothing,
}

/// The function of a given name.
pub open spec fn stub_of(name: Seq<char>) -> Stub {
    if name == "_malloc"@ {
        Stub::Malloc
    } else if name == "_calloc"@ {
        Stub::Calloc
    } else if name == "_realloc"@ {
        Stub::Realloc
    } else if name == "_memcpy"@ || name == "_memmove"@ || name == "___memcpy_chk"@ {
        Stub::Copy
    } else if name == "_memset"@ || name == "___memset_chk"@ {
        Stub::Fill
    } else if name == "_memcmp"@ {
        Stub::Compare
    } else if name == "_bzero"@ {
        Stub::Zero
    } else if name == "_strlen"@ {
        Stub::StringLength
    } else if name == "_CC_SHA1_Init"@ {
        Stub::Sha1Init
    } else if name == "_CC_SHA1_Update"@ {
        Stub::Sha1Update
    } else if name == "_CC_SHA1_Final"@ {
        Stub::Sha1Final
    } else if name == "_CC_SHA512_Init"@ {
        Stub::Sha512Init
    } else if name == "_CC_SHA512_Update"@ {
        Stub::Sha512Update
    } else if name == "_CC_SHA512_Final"@ {
        Stub::Sha512Final
    } else if name == "_AES_CTR_Init"@ {
        Stub::AesInit
    } else if name == "_AES_CTR_Update"@ {
        Stub::AesUpdate
    } else if name == "_AES_CTR_Final"@ {
        Stub::AesFinal
    } else if name == "_abort"@ {
        Stub::Abort
    } else if name == "_FigGetUpTimeNanoseconds"@ {
        Stub::UpTime
    } else if name == "_CFRetain"@ {
        Stub::Retain
    } else if name == "_pthread_once"@ || name == "_FigThreadRunOnce"@ {
        Stub::RunOnce
    } else if name == "_dispatch_once"@ {
        Stub::DispatchOnce
    } else {
        Stub::Nothing
    }
}

pub fn find_stub(name: &str) -> (r: Stub)
    ensures
        r == stub_of(name@),
{
    if same(name, "_malloc") {
        Stub::Malloc
    } else if same(name, "_calloc") {
        Stub::Calloc
    } else if same(name, "_realloc") {
        Stub::Realloc
    } else if same(name, "_memcpy") || same(name, "_memmove") || same(name, "___memcpy_chk") {
        Stub::Copy
    } else if same(name, "_memset") || same(name, "___memset_chk") {
        Stub::Fill
    } else if same(name, "_memcmp") {
        Stub::Compare
    } else if same(name, "_bzero") {
        Stub::Zero
    } else if same(name, "_strlen") {
        Stub::StringLength
    } else if same(name, "_CC_SHA1_Init") {
        Stub::Sha1Init
    } else if same(name, "_CC_SHA1_Update") {
        Stub::Sha1Update
    } else if same(name, "_CC_SHA1_Final") {
        Stub::Sha1Final
    } else if same(name, "_CC_SHA512_Init") {
        Stub::Sha512Init
    } else if same(name, "_CC_SHA512_Update") {
        Stub::Sha512Update
    } else if same(name, "_CC_SHA512_Final") {
        Stub::Sha512Final
    } else if same(name, "_AES_CTR_Init") {
        Stub::AesInit
    } else if same(name, "_AES_CTR_Update") {
        Stub::AesUpdate
    } else if same(name, "_AES_CTR_Final") {
        Stub::AesFinal
    } else if same(name, "_abort") {
        Stub::Abort
    } else if same(name, "_FigGetUpTimeNanoseconds") {
        Stub::UpTime
    } else if same(name, "_CFRetain") {
        Stub::Retain
    } else if same(name, "_pthread_once") || same(name, "_FigThreadRunOnce") {
        Stub::RunOnce
    } else if same(name, "_dispatch_once") {
        Stub::DispatchOnce
    } else {
        Stub::Nothing
    }
}

/// A request for no bytes gets 16.
pub open spec fn at_least_16(n: u64) -> u64 {
    if n == 0 {
        16
    } else {
        n
    }
}

/// How two byte strings of one length are ordered from position `i` on: all ones when the first is
/// less at the first byte that differs, 1 when it is greater, 0 when none differs.
pub open spec fn order_from(a: Seq<u8>, b: Seq<u8>, i: int) -> u64
    decreases a.len() - i,
{
    if i >= a.len() {
        0
    } else if a[i] < b[i] {
        u64::MAX
    } else if a[i] > b[i] {
        1
    } else {
        order_from(a, b, i + 1)
    }
}

/// The longest string that `strlen` walks.
pub const STRING_LIMIT: u64 = 0x10_0000;

/// The length of the string at `a`, counting on from `n`; one past the limit when it is longer.
pub open spec fn string_length(m: MemView, a: u64, n: u64) -> u64
    decreases STRING_LIMIT + 1 - n,
{
    if n > STRING_LIMIT || m.byte(a.wrapping_add(n)) == 0 {
        n
    } else {
        string_length(m, a, (n + 1) as u64)
    }
}

/// `n` times the byte `v`.
pub open spec fn fill(v: u8, n: nat) -> Seq<u8> {
    Seq::new(n, |i: int| v)
}

/// The state after an allocation of `n` bytes, its address in the result register.
pub open spec fn allocation(s: StateView, n: u64) -> StateView {
    s.allocated(n).with_x0(s.heap_ptr)
}

/// The state after `n` bytes from `from` are copied to `to`.
pub open spec fn copied(s: StateView, to: u64, from: u64, n: u64) -> StateView {
    if n > 0 && from != 0 && to != 0 {
        s.with_mem(s.mem.written(to, s.mem.read(from, (n as usize) as nat)))
    } else {
        s
    }
}

/// The hash context at `address`, or the given fresh one.
pub open spec fn hash_at(s: StateView, address: u64, fresh: ShaView) -> ShaView {
    if s.sha_ctxs.contains_key(address) {
        s.sha_ctxs[address]
    } else {
        fresh
    }
}

pub open spec fn with_hash(s: StateView, address: u64, ctx: ShaView) -> StateView {
    StateView { sha_ctxs: s.sha_ctxs.insert(address, ctx), ..s }
}

pub open spec fn without_hash(s: StateView, address: u64) -> StateView {
    StateView { sha_ctxs: s.sha_ctxs.remove(address), ..s }
}

/// More data for a SHA-1 hash; a context of the other algorithm is left alone.
pub open spec fn sha1_fed(ctx: ShaView, data: Seq<u8>) -> ShaView {
    match ctx {
        ShaView::Sha1(m) => ShaView::Sha1(m + data),
        ShaView::Sha512(_) => ctx,
    }
}

/// More data for a SHA-512 hash; a context of the other algorithm is left alone.
pub open spec fn sha512_fed(ctx: ShaView, data: Seq<u8>) -> ShaView {
    match ctx {
        ShaView::Sha1(_) => ctx,
        ShaView::Sha512(m) => ShaView::Sha512(m + data),
    }
}

pub open spec fn hash_stub(s: StateView, stub: Stub) -> StateView {
    let x0 = s.x(0);
    let x1 = s.x(1);
    let data = s.mem.read(x1, (s.x(2) as usize) as nat);
    let none = Seq::<u8>::empty();
    let after = match stub {
        Stub::Sha1Init => with_hash(s, x0, ShaView::Sha1(none)),
        Stub::Sha1Update => with_hash(
            s,
            x0,
            sha1_fed(hash_at(s, x0, ShaView::Sha1(none)), data),
        ),
        Stub::Sha1Final => without_hash(s, x1).with_mem(
            s.mem.written(
                x0,
                if s.sha_ctxs.contains_key(x1) {
                    s.sha_ctxs[x1].digest20()
                } else {
                    fill(0, 20)
                },
            ),
        ),
        Stub::Sha512Init => with_hash(s, x0, ShaView::Sha512(none)),
        Stub::Sha512Update => with_hash(
            s,
            x0,
            sha512_fed(hash_at(s, x0, ShaView::Sha512(none)), data),
        ),
        _ => without_hash(s, x1).with_mem(
            s.mem.written(
                x0,
                if s.sha_ctxs.contains_key(x1) {
                    s.sha_ctxs[x1].digest64()
                } else {
                    fill(0, 64)
                },
            ),
        ),
    };
    after.with_x0(1)
}

pub open spec fn cipher_stub(s: StateView, stub: Stub) -> Result<StateView, Fault> {
    let x0 = s.x(0);
    let x1 = s.x(1);
    let x3 = s.x(3);
    match stub {
        Stub::AesInit => {
            let key = s.mem.read(x1, (s.x(2) as usize) as nat);
            if key.len() == 16 || key.len() == 24 || key.len() == 32 {
                Ok(
                    StateView {
                        aes_ctxs: s.aes_ctxs.insert(
                            x0,
                            AesCtrView { key, iv: s.mem.read(x3, 16), position: 0 },
                        ),
                        ..s
                    }.with_x0(0),
                )
            } else {
                Ok(s.with_x0(u64::MAX))
            }
        },
        Stub::AesUpdate => {
            let data = s.mem.read(x1, (s.x(2) as usize) as nat);
            if s.x(2) > 0 && s.aes_ctxs.contains_key(x0) {
                let ctx = s.aes_ctxs[x0];
                if ctx.has_room(data.len()) {
                    Ok(
                        StateView {
                            aes_ctxs: s.aes_ctxs.insert(x0, ctx.after(data.len())),
                            mem: s.mem.written(x3, ctx.applied(data)),
                            ..s
                        }.with_x0(0),
                    )
                } else {
                    Err(Fault::KeystreamEnd)
                }
            } else {
                Ok(s.with_x0(0))
            }
        },
        _ => Ok(StateView { aes_ctxs: s.aes_ctxs.remove(x0), ..s }.with_x0(0)),
    }
}

/// What a library function does: it reads its arguments from the first registers and leaves its
/// result in register 0.
pub open spec fn stub_effect(s: StateView, stub: Stub) -> Result<StateView, Fault> {
    let x0 = s.x(0);
    let x1 = s.x(1);
    let x2 = s.x(2);
    match stub {
        Stub::Malloc => Ok(allocation(s, at_least_16(x0))),
        Stub::Calloc => {
            let total = at_least_16(x0.wrapping_mul(x1));
            let cleared = s.mem.written(s.heap_ptr, fill(0, (total as usize) as nat));
            Ok(allocation(s.with_mem(cleared), total))
        },
        Stub::Realloc => Ok(allocation(s, at_least_16(x1))),
        Stub::Copy => Ok(copied(s, x0, x1, x2)),
        Stub::Fill => Ok(s.with_mem(s.mem.written(x0, fill(x1 as u8, (x2 as usize) as nat)))),
        Stub::Compare => Ok(
            s.with_x0(
                order_from(
                    s.mem.read(x0, (x2 as usize) as nat),
                    s.mem.read(x1, (x2 as usize) as nat),
                    0,
                ),
            ),
        ),
        Stub::Zero => Ok(s.with_mem(s.mem.written(x0, fill(0, (x1 as usize) as nat)))),
        Stub::StringLength => Ok(s.with_x0(string_length(s.mem, x0, 0))),
        Stub::Sha1Init
        | Stub::Sha1Update
        | Stub::Sha1Final
        | Stub::Sha512Init
        | Stub::Sha512Update
        | Stub::Sha512Final => Ok(hash_stub(s, stub)),
        Stub::AesInit | Stub::AesUpdate | Stub::AesFinal => cipher_stub(s, stub),
        Stub::Abort => Err(Fault::Abort { lr: s.x(30) }),
        Stub::UpTime => Ok(s.with_x0(1_000_000_000)),
        Stub::Retain => Ok(s),
        Stub::RunOnce => Ok(
            if s.mem.byte(x0) == 0 {
                s.with_mem(s.mem.written(x0, seq![1u8, 0u8, 0u8, 0u8]))
            } else {
                s
            }.with_x0(0),
        ),
        Stub::DispatchOnce => Ok(
            if s.mem.read64(x0) == 0 {
                s.with_mem(s.mem.write64(x0, u64::MAX))
            } else {
                s
            }.with_x0(0),
        ),
        Stub::Nothing => Ok(s.with_x0(0)),
    }
}

/// The name under which a function that the snapshot does not list is taken, by where it stands
/// and what it is called with.
pub open spec fn unlisted(s: StateView, pc: u64) -> Seq<char> {
    let x0 = s.x(0);
    let x1 = s.x(1);
    let x2 = s.x(2);
    if 0x2000_0000 <= pc < 0x2001_0000 {
        "_nop"@
    } else if 0x1_a000_0000 <= x0 < 0x1_c000_0000 && (0x1_a121_0000 <= x1 < 0x1_a131_6000
        || 0x1_a121_0000 <= x2 < 0x1_a131_6000) {
        "_dispatch_once"@
    } else if 0 < x0 < 0x10_0000 {
        "_malloc"@
    } else {
        "_nop"@
    }
}

impl State {
    fn alloc_stub(&mut self, n: u64)
        requires
            old(self).wf(),
        ensures
            final(self).wf(),
            final(self)@ == allocation(old(self)@, n),
    {
        let addr: u64 = self.heap_alloc(n);
        self.set_x0(addr);
    }

    fn fill_memory(&mut self, addr: u64, v: u8, n: usize)
        requires
            old(self).wf(),
        ensures
            final(self).wf(),
            final(self)@ == old(self)@.with_mem(old(self)@.mem.written(addr, fill(v, n as nat))),
    {
        let data: Vec<u8> = vec![v; n];
        assert(data@ =~= fill(v, n as nat));
        self.mem.write_n(addr, data.as_slice());
    }

    fn compare_memory(&self, a: u64, b: u64, n: usize) -> (r: u64)
        requires
            self.wf(),
        ensures
            r == order_from(self@.mem.read(a, n as nat), self@.mem.read(b, n as nat), 0),
    {
        let first: Vec<u8> = self.mem.read_n(a, n);
        let second: Vec<u8> = self.mem.read_n(b, n);
        let mut i: usize = 0;
        while i < n
            invariant
                i <= n,
                first@.len() == n,
                second@.len() == n,
                first@ == self@.mem.read(a, n as nat),
                second@ == self@.mem.read(b, n as nat),
                order_from(first@, second@, 0) == order_from(first@, second@, i as int),
            decreases n - i,
        {
            if first[i] != second[i] {
                return if first[i] < second[i] {
                    u64::MAX
                } else {
                    1
                };
            }
            i += 1;
        }
        0
    }

    fn string_length(&self, a: u64) -> (r: u64)
        requires
            self.wf(),
        ensures
            r == string_length(self@.mem, a, 0),
    {
        let mut n: u64 = 0;
        while n <= STRING_LIMIT && self.mem.read8(a.wrapping_add(n)) != 0
            invariant
                self.wf(),
                n <= STRING_LIMIT + 1,
                string_length(self@.mem, a, 0) == string_length(self@.mem, a, n),
            decreases STRING_LIMIT + 1 - n,
        {
            n += 1;
        }
        n
    }

    fn feed_hash(&mut self, address: u64, data: &[u8], long: bool)
        requires
            old(self).wf(),
        ensures
            final(self).wf(),
            final(self)@ == (if long {
                with_hash(
                    old(self)@,
                    address,
                    sha512_fed(
                        hash_at(old(self)@, address, ShaView::Sha512(Seq::empty())),
                        data@,
                    ),
                )
            } else {
                with_hash(
                    old(self)@,
                    address,
                    sha1_fed(hash_at(old(self)@, address, ShaView::Sha1(Seq::empty())), data@),
                )
            }),
    {
        let found = self.take_sha(address);
        let ctx = match found {
            Some(ctx) => ctx,
            None => if long {
                ShaCtx::Sha512(Vec::new())
            } else {
                ShaCtx::Sha1(Vec::new())
            },
        };
        let ghost held = ctx@;
        let fed = match ctx {
            ShaCtx::Sha1(mut m) => {
                if !long {
                    m.extend_from_slice(data);
                    assert(m@ =~= held->Sha1_0 + data@);
                }
                ShaCtx::Sha1(m)
            },
            ShaCtx::Sha512(mut m) => {
                if long {
                    m.extend_from_slice(data);
                    assert(m@ =~= held->Sha512_0 + data@);
                }
                ShaCtx::Sha512(m)
            },
        };
        self.put_sha(address, fed);
        proof {
            let s = old(self)@;
            assert(s.sha_ctxs.remove(address).insert(address, fed@) =~= s.sha_ctxs.insert(
                address,
                fed@,
            ));
        }
    }

    fn run_hash_stub(&mut self, stub: Stub)
        requires
            old(self).wf(),
            stub is Sha1Init || stub is Sha1Update || stub is Sha1Final || stub is Sha512Init
                || stub is Sha512Update || stub is Sha512Final,
        ensures
            final(self).wf(),
            final(self)@ == hash_stub(old(self)@, stub),
    {
        let x0: u64 = self.cpu.x[0];
        let x1: u64 = self.cpu.x[1];
        let n: usize = self.cpu.x[2] as usize;
        match stub {
            Stub::Sha1Init => {
                self.put_sha(x0, ShaCtx::Sha1(Vec::new()));
            },
            Stub::Sha512Init => {
                self.put_sha(x0, ShaCtx::Sha512(Vec::new()));
            },
            Stub::Sha1Update => {
                let data: Vec<u8> = self.mem.read_n(x1, n);
                self.feed_hash(x0, data.as_slice(), false);
            },
            Stub::Sha512Update => {
                let data: Vec<u8> = self.mem.read_n(x1, n);
                self.feed_hash(x0, data.as_slice(), true);
            },
            Stub::Sha1Final => {
                let digest: Vec<u8> = match self.take_sha(x1) {
                    Some(ctx) => ctx.digest20(),
                    None => vec![0u8; 20],
                };
                assert(!old(self)@.sha_ctxs.contains_key(x1) ==> digest@ =~= fill(0, 20));
                self.mem.write_n(x0, digest.as_slice());
            },
            _ => {
                let digest: Vec<u8> = match self.take_sha(x1) {
                    Some(ctx) => ctx.digest64(),
                    None => vec![0u8; 64],
                };
                assert(!old(self)@.sha_ctxs.contains_key(x1) ==> digest@ =~= fill(0, 64));
                self.mem.write_n(x0, digest.as_slice());
            },
        }
        self.set_x0(1);
    }

    fn run_cipher_stub(&mut self, stub: Stub) -> (r: Result<(), Fault>)
        requires
            old(self).wf(),
            stub is AesInit || stub is AesUpdate || stub is AesFinal,
        ensures
            final(self).wf(),
            match cipher_stub(old(self)@, stub) {
                Ok(state) => r is Ok && final(self)@ == state,
                Err(fault) => r == Err::<(), Fault>(fault) && final(self)@ == old(self)@,
            },
    {
        let x0: u64 = self.cpu.x[0];
        let x1: u64 = self.cpu.x[1];
        let x2: u64 = self.cpu.x[2];
        let x3: u64 = self.cpu.x[3];
        match stub {
            Stub::AesInit => {
                let key: Vec<u8> = self.mem.read_n(x1, x2 as usize);
                let iv: Vec<u8> = self.mem.read_n(x3, 16);
                let iv: [u8; 16] = crate::bytes::array16(iv.as_slice());
                match AesCtrCtx::new(key.as_slice(), &iv) {
                    Some(ctx) => {
                        self.put_aes(x0, ctx);
                        self.set_x0(0);
                    },
                    None => {
                        self.set_x0(u64::MAX);
                    },
                }
            },
            Stub::AesUpdate => {
                if x2 > 0 {
                    let data: Vec<u8> = self.mem.read_n(x1, x2 as usize);
                    if let Some(mut ctx) = self.take_aes(x0) {
                        if !ctx.has_room(data.len()) {
                            self.put_aes(x0, ctx);
                            assert(self@.aes_ctxs =~= old(self)@.aes_ctxs);
                            return Err(Fault::KeystreamEnd);
                        }
                        let out: Vec<u8> = ctx.apply_keystream(data.as_slice());
                        self.put_aes(x0, ctx);
                        self.mem.write_n(x3, out.as_slice());
                        proof {
                            let s = old(self)@;
                            assert(s.aes_ctxs.remove(x0).insert(x0, ctx@) =~= s.aes_ctxs.insert(
                                x0,
                                ctx@,
                            ));
                        }
                    } else {
                        proof {
                            let s = old(self)@;
                            assert(s.aes_ctxs.remove(x0) =~= s.aes_ctxs);
                        }
                    }
                }
                self.set_x0(0);
            },
            _ => {
                let _ = self.take_aes(x0);
                self.set_x0(0);
            },
        }
        Ok(())
    }

    /// Performs the library function of the given name. An abort changes nothing.
    pub fn handle_stub(&mut self, name: &str) -> (r: Result<(), Fault>)
        requires
            old(self).wf(),
        ensures
            final(self).wf(),
            match stub_effect(old(self)@, stub_of(name@)) {
                Ok(state) => r is Ok && final(self)@ == state,
                Err(fault) => r == Err::<(), Fault>(fault) && final(self)@ == old(self)@,
            },
    {
        let x0: u64 = self.cpu.x[0];
        let x1: u64 = self.cpu.x[1];
        let x2: u64 = self.cpu.x[2];
        let stub = find_stub(name);
        match stub {
            Stub::Malloc => {
                self.alloc_stub(if x0 == 0 { 16 } else { x0 });
            },
            Stub::Calloc => {
                let product: u64 = x0.wrapping_mul(x1);
                let total: u64 = if product == 0 { 16 } else { product };
                let addr: u64 = self.heap_ptr;
                self.fill_memory(addr, 0, total as usize);
                self.alloc_stub(total);
            },
            Stub::Realloc => {
                self.alloc_stub(if x1 == 0 { 16 } else { x1 });
            },
            Stub::Copy => {
                if x2 > 0 && x1 != 0 && x0 != 0 {
                    let data: Vec<u8> = self.mem.read_n(x1, x2 as usize);
                    self.mem.write_n(x0, data.as_slice());
                }
            },
            Stub::Fill => {
                self.fill_memory(x0, x1 as u8, x2 as usize);
            },
            Stub::Compare => {
                let r: u64 = self.compare_memory(x0, x1, x2 as usize);
                self.set_x0(r);
            },
            Stub::Zero => {
                self.fill_memory(x0, 0, x1 as usize);
            },
            Stub::StringLength => {
                let n: u64 = self.string_length(x0);
                self.set_x0(n);
            },
            Stub::Sha1Init
            | Stub::Sha1Update
            | Stub::Sha1Final
            | Stub::Sha512Init
            | Stub::Sha512Update
            | Stub::Sha512Final => {
                self.run_hash_stub(stub);
            },
            Stub::AesInit | Stub::AesUpdate | Stub::AesFinal => {
                return self.run_cipher_stub(stub);
            },
            Stub::Abort => {
                return Err(Fault::Abort { lr: self.cpu.x[30] });
            },
            Stub::UpTime => {
                self.set_x0(1_000_000_000);
            },
            Stub::Retain => {},
            Stub::RunOnce => {
                if self.mem.read8(x0) == 0 {
                    let done: [u8; 4] = [1, 0, 0, 0];
                    assert(done@ =~= seq![1u8, 0u8, 0u8, 0u8]);
                    self.mem.write_n(x0, &done);
                }
                self.set_x0(0);
            },
            Stub::DispatchOnce => {
                if self.mem.read64(x0) == 0 {
                    self.mem.write64(x0, u64::MAX);
                }
                self.set_x0(0);
            },
            Stub::Nothing => {
                self.set_x0(0);
            },
        }
        Ok(())
    }

    /// The name under which the unlisted function at `pc` is taken.
    pub fn dyn_stub_classify(&self, pc: u64) -> (r: &'static str)
        ensures
            r@ == unlisted(self@, pc),
    {
        if pc >= 0x2000_0000 && pc < 0x2001_0000 {
            return "_nop";
        }
        let x0: u64 = self.cpu.x[0];
        let x1: u64 = self.cpu.x[1];
        let x2: u64 = self.cpu.x[2];
        let global: bool = x0 >= 0x1_a000_0000 && x0 < 0x1_c000_0000;
        let text1: bool = x1 >= 0x1_a121_0000 && x1 < 0x1_a131_6000;
        let text2: bool = x2 >= 0x1_a121_0000 && x2 < 0x1_a131_6000;
        if global && (text1 || text2) {
            return "_dispatch_once";
        }
        if x0 > 0 && x0 < 0x10_0000 {
            return "_malloc";
        }
        "_nop"
    }
}

/// No library function touches the link register, so every one returns to its caller.
pub proof fn lemma_stub_keeps_link(s: StateView, stub: Stub)
    requires
        s.cpu.x.len() == 31,
    ensures
        stub_effect(s, stub) matches Ok(after) ==> after.x(30) == s.x(30),
{
}

/// No library function touches the list of functions.
pub proof fn lemma_stub_keeps_list(s: StateView, stub: Stub)
    ensures
        stub_effect(s, stub) matches Ok(after) ==> after.stubs == s.stubs,
{
}

/// A context that the SHA-1 interface opened, fed and closed yields the digest of what it was fed.
pub proof fn lemma_sha1_of_pieces(a: Seq<u8>, b: Seq<u8>)
    ensures
        sha1_fed(sha1_fed(ShaView::Sha1(Seq::empty()), a), b).digest()
            == crate::crypto::sha1_of(a + b),
{
    assert(Seq::<u8>::empty() + a + b =~= a + b);
}

} // verus!
