//! What the library functions that the machine calls do.
use crate::crypto::{aes128_ctr_byte, sha1_of, sha512_of};
use crate::fpemu::contexts::{AesCtrView, ShaView};
use crate::fpemu::cpu::CpuView;
use crate::fpemu::fault::Fault;
use crate::fpemu::laws::branches::address_at;
use crate::fpemu::machine::{called, run_from, stepped, RunError};
use crate::fpemu::mem::{distance, MemView};
use crate::fpemu::state::StateView;
use crate::fpemu::stubs::{fill, order_from, string_length};
use vstd::prelude::*;

verus! {

proof fn lemma_function_names()
    ensures
        "_malloc"@.len() == 7,
        "_calloc"@.len() == 7,
        "_realloc"@.len() == 8,
        "_memcpy"@.len() == 7,
        "_memmove"@.len() == 8,
        "___memcpy_chk"@.len() == 13,
        "_memset"@.len() == 7,
        "___memset_chk"@.len() == 13,
        "_memcmp"@.len() == 7,
        "_bzero"@.len() == 6,
        "_strlen"@.len() == 7,
        "_CC_SHA1_Init"@.len() == 13,
        "_CC_SHA1_Update"@.len() == 15,
        "_CC_SHA1_Final"@.len() == 14,
        "_CC_SHA512_Init"@.len() == 15,
        "_CC_SHA512_Update"@.len() == 17,
        "_CC_SHA512_Final"@.len() == 16,
        "_AES_CTR_Init"@.len() == 13,
        "_AES_CTR_Update"@.len() == 15,
        "_AES_CTR_Final"@.len() == 14,
        "_abort"@.len() == 6,
        "_FigGetUpTimeNanoseconds"@.len() == 24,
        "_CFRetain"@.len() == 9,
        "_pthread_once"@.len() == 13,
        "_FigThreadRunOnce"@.len() == 17,
        "_dispatch_once"@.len() == 14,
        "_malloc"@ != "_calloc"@,
        "_malloc"@ != "_memcpy"@,
        "_malloc"@ != "_memset"@,
        "_malloc"@ != "_memcmp"@,
        "_malloc"@ != "_strlen"@,
        "_calloc"@ != "_memcpy"@,
        "_calloc"@ != "_memset"@,
        "_calloc"@ != "_memcmp"@,
        "_calloc"@ != "_strlen"@,
        "_realloc"@ != "_memmove"@,
        "_memcpy"@ != "_memset"@,
        "_memcpy"@ != "_memcmp"@,
        "_memcpy"@ != "_strlen"@,
        "___memcpy_chk"@ != "___memset_chk"@,
        "___memcpy_chk"@ != "_CC_SHA1_Init"@,
        "___memcpy_chk"@ != "_AES_CTR_Init"@,
        "___memcpy_chk"@ != "_pthread_once"@,
        "_memset"@ != "_memcmp"@,
        "_memset"@ != "_strlen"@,
        "___memset_chk"@ != "_CC_SHA1_Init"@,
        "___memset_chk"@ != "_AES_CTR_Init"@,
        "___memset_chk"@ != "_pthread_once"@,
        "_memcmp"@ != "_strlen"@,
        "_bzero"@ != "_abort"@,
        "_CC_SHA1_Init"@ != "_AES_CTR_Init"@,
        "_CC_SHA1_Init"@ != "_pthread_once"@,
        "_CC_SHA1_Update"@ != "_CC_SHA512_Init"@,
        "_CC_SHA1_Update"@ != "_AES_CTR_Update"@,
        "_CC_SHA1_Final"@ != "_AES_CTR_Final"@,
        "_CC_SHA1_Final"@ != "_dispatch_once"@,
        "_CC_SHA512_Init"@ != "_AES_CTR_Update"@,
        "_CC_SHA512_Update"@ != "_FigThreadRunOnce"@,
        "_AES_CTR_Init"@ != "_pthread_once"@,
        "_AES_CTR_Final"@ != "_dispatch_once"@,
{
    reveal_strlit("_malloc");
    reveal_strlit("_calloc");
    reveal_strlit("_realloc");
    reveal_strlit("_memcpy");
    reveal_strlit("_memmove");
    reveal_strlit("___memcpy_chk");
    reveal_strlit("_memset");
    reveal_strlit("___memset_chk");
    reveal_strlit("_memcmp");
    reveal_strlit("_bzero");
    reveal_strlit("_strlen");
    reveal_strlit("_CC_SHA1_Init");
    reveal_strlit("_CC_SHA1_Update");
    reveal_strlit("_CC_SHA1_Final");
    reveal_strlit("_CC_SHA512_Init");
    reveal_strlit("_CC_SHA512_Update");
    reveal_strlit("_CC_SHA512_Final");
    reveal_strlit("_AES_CTR_Init");
    reveal_strlit("_AES_CTR_Update");
    reveal_strlit("_AES_CTR_Final");
    reveal_strlit("_abort");
    reveal_strlit("_FigGetUpTimeNanoseconds");
    reveal_strlit("_CFRetain");
    reveal_strlit("_pthread_once");
    reveal_strlit("_FigThreadRunOnce");
    reveal_strlit("_dispatch_once");
    assert("_malloc"@[1] == 'm');
    assert("_calloc"@[1] == 'c');
    assert("_malloc"@[2] == 'a');
    assert("_memcpy"@[2] == 'e');
    assert("_memset"@[2] == 'e');
    assert("_memcmp"@[2] == 'e');
    assert("_strlen"@[1] == 's');
    assert("_memcpy"@[1] == 'm');
    assert("_memset"@[1] == 'm');
    assert("_memcmp"@[1] == 'm');
    assert("_realloc"@[1] == 'r');
    assert("_memmove"@[1] == 'm');
    assert("_memcpy"@[4] == 'c');
    assert("_memset"@[4] == 's');
    assert("_memcpy"@[5] == 'p');
    assert("_memcmp"@[5] == 'm');
    assert("___memcpy_chk"@[6] == 'c');
    assert("___memset_chk"@[6] == 's');
    assert("___memcpy_chk"@[1] == '_');
    assert("_CC_SHA1_Init"@[1] == 'C');
    assert("_AES_CTR_Init"@[1] == 'A');
    assert("_pthread_once"@[1] == 'p');
    assert("_memcmp"@[4] == 'c');
    assert("___memset_chk"@[1] == '_');
    assert("_bzero"@[1] == 'b');
    assert("_abort"@[1] == 'a');
    assert("_CC_SHA1_Update"@[7] == '1');
    assert("_CC_SHA512_Init"@[7] == '5');
    assert("_CC_SHA1_Update"@[1] == 'C');
    assert("_AES_CTR_Update"@[1] == 'A');
    assert("_CC_SHA1_Final"@[1] == 'C');
    assert("_AES_CTR_Final"@[1] == 'A');
    assert("_dispatch_once"@[1] == 'd');
    assert("_CC_SHA512_Init"@[1] == 'C');
    assert("_CC_SHA512_Update"@[1] == 'C');
    assert("_FigThreadRunOnce"@[1] == 'F');
}

/// Whether memory differs from what it was only in that `data` stands from `a` up.
pub open spec fn holds_data(m: MemView, before: MemView, a: u64, data: Seq<u8>) -> bool {
    &&& forall|d: int|
        0 <= d < data.len() ==> #[trigger] m.bytes[address_at(a, d)] == data[d]
    &&& forall|x: u64| distance(a, x) >= data.len() ==> #[trigger] m.bytes[x] == before.bytes[x]
    &&& m.code == before.code && m.code_base == before.code_base && m.code_end == before.code_end
}

/// The `n` bytes from `a` up.
pub open spec fn data_at(m: MemView, a: u64, n: int) -> Seq<u8> {
    Seq::new(n as nat, |d: int| m.bytes[address_at(a, d)])
}

/// A state that a function with a result returned to its caller.
pub open spec fn returned_with(s: StateView, result: u64) -> StateView {
    StateView {
        cpu: CpuView { pc: s.cpu.x[30], x: s.cpu.x.update(0, result), ..s.cpu },
        ..s
    }
}

/// A state that a function without a result returned to its caller.
pub open spec fn returned_from(s: StateView) -> StateView {
    StateView { cpu: CpuView { pc: s.cpu.x[30], ..s.cpu }, ..s }
}

pub(crate) proof fn lemma_written_data(m: MemView, a: u64, data: Seq<u8>)
    requires
        data.len() <= 0x1_0000_0000_0000_0000,
    ensures
        holds_data(m.written(a, data), m, a, data),
{
    assert forall|d: int| 0 <= d < data.len() implies #[trigger] m.written(
        a,
        data,
    ).bytes[address_at(a, d)] == data[d] by {
        assert(distance(a, address_at(a, d)) == d);
    }
}

proof fn lemma_read_data(m: MemView, a: u64, n: u64)
    ensures
        m.read(a, n as nat) == data_at(m, a, n as int),
{
    assert forall|i: int| 0 <= i < n implies m.bytes[a.wrapping_add(i as u64)]
        == #[trigger] data_at(m, a, n as int)[i] by {
        assert(a.wrapping_add(i as u64) == address_at(a, i));
    }
    assert(m.read(a, n as nat) =~= data_at(m, a, n as int));
}

/// `malloc`, `calloc` and `realloc` hand out the next piece of the heap, a multiple of 16 bytes that
/// is large enough; `calloc` clears it. No other memory changes.
pub proof fn law_allocate(s: StateView)
    requires
        s.cpu.x.len() == 31,
        s.cpu.x[0] <= usize::MAX,
        s.cpu.x[0] * s.cpu.x[1] <= usize::MAX,
        s.heap_ptr + s.cpu.x[0] + 32 <= u64::MAX,
        s.heap_ptr + s.cpu.x[1] + 32 <= u64::MAX,
        s.heap_ptr + s.cpu.x[0] * s.cpu.x[1] + 32 <= u64::MAX,
    ensures
        ({
            let (m, mr) = called(s, "_malloc"@);
            let (c, cr) = called(s, "_calloc"@);
            let (r, rr) = called(s, "_realloc"@);
            let total = s.cpu.x[0] * s.cpu.x[1];
            let room = |n: int, top: u64|
                s.heap_ptr + n <= top && top < s.heap_ptr + n + 16 + (if n == 0 {
                    1int
                } else {
                    0
                }) && (top - s.heap_ptr) % 16 == 0 && top > s.heap_ptr;
            &&& mr is Ok && cr is Ok && rr is Ok
            &&& m == returned_with(StateView { heap_ptr: m.heap_ptr, ..s }, s.heap_ptr)
            &&& r == returned_with(StateView { heap_ptr: r.heap_ptr, ..s }, s.heap_ptr)
            &&& c == returned_with(
                StateView { heap_ptr: c.heap_ptr, mem: c.mem, ..s },
                s.heap_ptr,
            )
            &&& room(s.cpu.x[0] as int, m.heap_ptr)
            &&& room(s.cpu.x[1] as int, r.heap_ptr)
            &&& room(total, c.heap_ptr)
            &&& forall|d: int|
                0 <= d < total ==> #[trigger] c.mem.bytes[address_at(s.heap_ptr, d)] == 0
            &&& forall|x: u64|
                distance(s.heap_ptr, x) >= c.heap_ptr - s.heap_ptr
                    ==> #[trigger] c.mem.bytes[x] == s.mem.bytes[x]
        }),
{
    lemma_function_names();
    let total = (s.cpu.x[0] * s.cpu.x[1]) as u64;
    assert(s.cpu.x[0].wrapping_mul(s.cpu.x[1]) == total) by {
        assert(0 <= s.cpu.x[0] * s.cpu.x[1]) by (nonlinear_arith);
    }
    let n = if total == 0 {
        16u64
    } else {
        total
    };
    assert(n as usize == n);
    lemma_written_data(s.mem, s.heap_ptr, fill(0, n as nat));
}

/// `memcpy`, `memmove` and their checked form copy what stood at the source before, `memset` and
/// `bzero` fill; no other memory changes, and the result is the destination.
pub proof fn law_copy_and_fill(s: StateView)
    requires
        s.cpu.x.len() == 31,
        s.cpu.x[2] <= usize::MAX,
        s.cpu.x[1] <= usize::MAX,
    ensures
        ({
            let (to, from, n) = (s.cpu.x[0], s.cpu.x[1], s.cpu.x[2]);
            let (c, cr) = called(s, "_memcpy"@);
            let (f, fr) = called(s, "_memset"@);
            let (z, zr) = called(s, "_bzero"@);
            &&& called(s, "_memmove"@) == called(s, "_memcpy"@)
            &&& called(s, "___memcpy_chk"@) == called(s, "_memcpy"@)
            &&& called(s, "___memset_chk"@) == called(s, "_memset"@)
            &&& cr is Ok && fr is Ok && zr is Ok
            &&& to != 0 && from != 0 ==> c == returned_from(StateView { mem: c.mem, ..s })
                && holds_data(c.mem, s.mem, to, data_at(s.mem, from, n as int))
            &&& to == 0 || from == 0 ==> c == returned_from(s)
            &&& f == returned_from(StateView { mem: f.mem, ..s }) && holds_data(
                f.mem,
                s.mem,
                to,
                Seq::new(n as nat, |d: int| (from % 0x100) as u8),
            )
            &&& z == returned_from(StateView { mem: z.mem, ..s }) && holds_data(
                z.mem,
                s.mem,
                to,
                Seq::new(from as nat, |d: int| 0u8),
            )
        }),
{
    lemma_function_names();
    let (to, from, n) = (s.cpu.x[0], s.cpu.x[1], s.cpu.x[2]);
    assert(n as usize == n && from as usize == from);
    lemma_read_data(s.mem, from, n);
    lemma_written_data(s.mem, to, data_at(s.mem, from, n as int));
    lemma_written_data(s.mem, to, fill(from as u8, n as nat));
    lemma_written_data(s.mem, to, fill(0, from as nat));
    assert(from as u8 == from % 0x100) by (bit_vector);
    assert(fill(from as u8, n as nat) =~= Seq::new(n as nat, |d: int| (from % 0x100) as u8));
    assert(fill(0, from as nat) =~= Seq::new(from as nat, |d: int| 0u8));
    if n == 0 {
        assert(data_at(s.mem, from, 0) =~= Seq::<u8>::empty());
    }
}

/// `memcmp` tells how two stretches of memory compare: 0 where they are equal, and else by the first
/// byte that differs, 1 where the first is greater there and all ones where it is less.
pub proof fn law_compare_memory(s: StateView, k: int)
    requires
        s.cpu.x.len() == 31,
        s.cpu.x[2] <= usize::MAX,
    ensures
        ({
            let n = s.cpu.x[2] as int;
            let a = data_at(s.mem, s.cpu.x[0], n);
            let b = data_at(s.mem, s.cpu.x[1], n);
            let (t, r) = called(s, "_memcmp"@);
            let result = t.cpu.x[0];
            &&& r is Ok && t == returned_with(s, result)
            &&& a == b ==> result == 0
            &&& 0 <= k < n && a.take(k) == b.take(k) && a[k] > b[k] ==> result == 1
            &&& 0 <= k < n && a.take(k) == b.take(k) && a[k] < b[k] ==> result == u64::MAX
        }),
{
    lemma_function_names();
    let n = s.cpu.x[2];
    assert(n as usize == n);
    lemma_read_data(s.mem, s.cpu.x[0], n);
    lemma_read_data(s.mem, s.cpu.x[1], n);
    let a = data_at(s.mem, s.cpu.x[0], n as int);
    let b = data_at(s.mem, s.cpu.x[1], n as int);
    if a == b {
        lemma_order(a, b, 0, n as int);
    } else if 0 <= k < n && a.take(k) == b.take(k) {
        assert forall|i: int| 0 <= i < k implies a[i] == b[i] by {
            assert(a.take(k)[i] == b.take(k)[i]);
        }
        lemma_order(a, b, 0, k);
    }
}

proof fn lemma_order(a: Seq<u8>, b: Seq<u8>, i: int, k: int)
    requires
        0 <= i <= k <= a.len(),
        a.len() == b.len(),
        forall|j: int| 0 <= j < k ==> a[j] == b[j],
    ensures
        order_from(a, b, i) == order_from(a, b, k),
    decreases k - i,
{
    if i < k {
        lemma_order(a, b, i + 1, k);
    }
}

/// `strlen` counts the bytes before the first zero, up to a limit of 1048577.
pub proof fn law_string_length(s: StateView, k: u64)
    requires
        s.cpu.x.len() == 31,
        k <= 0x10_0000,
        s.mem.bytes[address_at(s.cpu.x[0], k as int)] == 0,
        forall|d: int| 0 <= d < k ==> s.mem.bytes[#[trigger] address_at(s.cpu.x[0], d)] != 0,
    ensures
        called(s, "_strlen"@) == (returned_with(s, k), Ok::<(), Fault>(())),
{
    lemma_function_names();
    lemma_length(s.mem, s.cpu.x[0], 0, k);
}

proof fn lemma_length(m: MemView, a: u64, n: u64, k: u64)
    requires
        n <= k <= 0x10_0000,
        m.bytes[address_at(a, k as int)] == 0,
        forall|d: int| 0 <= d < k ==> m.bytes[#[trigger] address_at(a, d)] != 0,
    ensures
        string_length(m, a, n) == k,
    decreases k - n,
{
    assert(a.wrapping_add(n) == address_at(a, n as int));
    if n < k {
        lemma_length(m, a, (n + 1) as u64, k);
    }
}

/// A hash that is opened, fed and closed leaves the digest of all that it was fed.
pub proof fn law_hash_functions(s: StateView, fed: Seq<u8>)
    requires
        s.cpu.x.len() == 31,
        s.cpu.x[2] <= usize::MAX,
    ensures
        ({
            let (x0, x1) = (s.cpu.x[0], s.cpu.x[1]);
            let data = data_at(s.mem, x1, s.cpu.x[2] as int);
            let opened1 = called(s, "_CC_SHA1_Init"@);
            let opened512 = called(s, "_CC_SHA512_Init"@);
            let (f1, fr1) = called(s, "_CC_SHA1_Update"@);
            let (f512, fr512) = called(s, "_CC_SHA512_Update"@);
            let (c1, cr1) = called(s, "_CC_SHA1_Final"@);
            let (c512, cr512) = called(s, "_CC_SHA512_Final"@);
            let with = |hash: ShaView|
                returned_with(StateView { sha_ctxs: s.sha_ctxs.insert(x0, hash), ..s }, 1);
            &&& opened1 == (with(ShaView::Sha1(Seq::empty())), Ok::<(), Fault>(()))
            &&& opened512 == (with(ShaView::Sha512(Seq::empty())), Ok::<(), Fault>(()))
            &&& s.sha_ctxs.contains_key(x0) && s.sha_ctxs[x0] == ShaView::Sha1(fed) ==> fr1 is Ok
                && f1 == with(ShaView::Sha1(fed + data))
            &&& s.sha_ctxs.contains_key(x0) && s.sha_ctxs[x0] == ShaView::Sha512(fed) ==> fr512 is Ok
                && f512 == with(ShaView::Sha512(fed + data))
            &&& s.sha_ctxs.contains_key(x1) && s.sha_ctxs[x1] == ShaView::Sha1(fed) && sha1_of(
                fed,
            ).len() == 20 ==> cr1 is Ok && holds_data(c1.mem, s.mem, x0, sha1_of(fed))
                && !c1.sha_ctxs.contains_key(x1)
            &&& s.sha_ctxs.contains_key(x1) && s.sha_ctxs[x1] == ShaView::Sha512(fed) && sha512_of(
                fed,
            ).len() == 64 ==> cr512 is Ok && holds_data(c512.mem, s.mem, x0, sha512_of(fed))
                && !c512.sha_ctxs.contains_key(x1)
        }),
{
    lemma_function_names();
    let n = s.cpu.x[2];
    assert(n as usize == n);
    lemma_read_data(s.mem, s.cpu.x[1], n);
    if sha1_of(fed).len() == 20 {
        assert(sha1_of(fed).take(20) =~= sha1_of(fed));
        lemma_written_data(s.mem, s.cpu.x[0], sha1_of(fed));
    }
    if sha512_of(fed).len() == 64 {
        lemma_written_data(s.mem, s.cpu.x[0], sha512_of(fed));
    }
}

/// A cipher that was opened with a key of 16 bytes writes the data under the keystream from where it
/// stands, and then stands behind it.
pub proof fn law_cipher_functions(s: StateView, c: AesCtrView)
    requires
        s.cpu.x.len() == 31,
        s.cpu.x[2] <= usize::MAX,
        c.key.len() == 16,
        c.position + s.cpu.x[2] < 0x1_0000_0000_0000_0000_0000,
    ensures
        ({
            let (x0, x1, n, x3) = (s.cpu.x[0], s.cpu.x[1], s.cpu.x[2], s.cpu.x[3]);
            let data = data_at(s.mem, x1, n as int);
            let (o, or) = called(s, "_AES_CTR_Init"@);
            let (u, ur) = called(s, "_AES_CTR_Update"@);
            let (e, er) = called(s, "_AES_CTR_Final"@);
            &&& n == 16 ==> or is Ok && o.aes_ctxs == s.aes_ctxs.insert(
                x0,
                AesCtrView { key: data, iv: data_at(s.mem, x3, 16), position: 0 },
            ) && o.cpu.x[0] == 0 && o.mem == s.mem
            &&& n > 0 && s.aes_ctxs.contains_key(x0) && s.aes_ctxs[x0] == c ==> ur is Ok
                && u.cpu.x[0] == 0 && u.aes_ctxs == s.aes_ctxs.insert(
                x0,
                AesCtrView { position: c.position + n as nat, ..c },
            ) && holds_data(
                u.mem,
                s.mem,
                x3,
                Seq::new(
                    n as nat,
                    |d: int| data[d] ^ aes128_ctr_byte(c.key, c.iv, (c.position + d) as nat),
                ),
            )
            &&& er is Ok && !e.aes_ctxs.contains_key(x0)
        }),
{
    lemma_function_names();
    let (x0, x1, n, x3) = (s.cpu.x[0], s.cpu.x[1], s.cpu.x[2], s.cpu.x[3]);
    assert(n as usize == n);
    lemma_read_data(s.mem, x1, n);
    lemma_read_data(s.mem, x3, 16);
    let data = data_at(s.mem, x1, n as int);
    let out = Seq::new(
        n as nat,
        |d: int| data[d] ^ aes128_ctr_byte(c.key, c.iv, (c.position + d) as nat),
    );
    assert(c.applied(data) =~= out);
    lemma_written_data(s.mem, x3, out);
}

/// A run ends where it is told to, goes on behind every instruction that works, and fails on one that
/// does not; a hundred million instructions are its limit.
pub proof fn law_run(s: StateView, halt: u64, count: nat)
    ensures
        s.cpu.pc == halt ==> run_from(s, halt, count) == (s, Ok::<(), RunError>(())),
        s.cpu.pc != halt && !s.stubs.contains_key(s.cpu.pc) && s.mem.fetchable(s.cpu.pc)
            && s.mem.inst(s.cpu.pc) != 0 ==> ({
            let (after, r) = stepped(s, s.mem.inst(s.cpu.pc));
            &&& r is Err ==> run_from(s, halt, count).1 is Err
            &&& r is Ok && count < 100_000_000 ==> run_from(s, halt, count) == run_from(
                after,
                halt,
                count + 1,
            )
            &&& r is Ok && count >= 100_000_000 ==> run_from(s, halt, count).1 is Err
        }),
        s.cpu.pc != halt && s.stubs.contains_key(s.cpu.pc) && s.cpu.pc != s.cpu.x[30] ==> ({
            let (after, r) = called(s, s.stubs[s.cpu.pc]);
            &&& r is Err ==> run_from(s, halt, count).1 is Err
            &&& r is Ok ==> run_from(s, halt, count) == run_from(after, halt, count + 1)
        }),
{
}

} // verus!
