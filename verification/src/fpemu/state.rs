//! The whole machine: processor, memory, heap and the library contexts.
use crate::fpemu::contexts::{AesCtrCtx, AesCtrView, ShaCtx, ShaView};
use crate::fpemu::cpu::{Cpu, CpuView};
use crate::fpemu::mem::{Mem, MemView};
use std::collections::HashMap;
use vstd::prelude::*;

verus! {

broadcast use vstd::std_specs::hash::group_hash_axioms;

/// Where the entry sequence of the emulated call stands.
pub const FP_TRAMPOLINE_ADDR: u64 = 0x1000_0000;

pub const FP_STACK_BASE: u64 = 0x7000_0000;

pub const FP_STACK_SZ: u64 = 0x80_0000;

pub const FP_HEAP_BASE: u64 = 0x8000_0000;

pub const FP_CODE_BASE: u64 = 0x1_a121_0000;

pub const FP_CODE_END: u64 = 0x1_a131_6000;

pub const FP_DATA_BASE: u64 = 0x1_b10a_3000;

pub const FP_GOT_BASE: u64 = 0x1_aeab_6000;

/// The emulated routine.
pub const FP_ENTRY: u64 = 0x1_a12b_fb88;

pub struct State {
    pub cpu: Cpu,
    pub mem: Mem,
    /// The next free heap address.
    pub heap_ptr: u64,
    /// Hashes in progress, by the address of their context.
    pub sha_ctxs: HashMap<u64, ShaCtx>,
    /// Cipher streams, by the address of their context.
    pub aes_ctxs: HashMap<u64, AesCtrCtx>,
    /// The library functions that the program calls, by address.
    pub stubs: HashMap<u64, String>,
}

#[verifier::ext_equal]
pub struct StateView {
    pub cpu: CpuView,
    pub mem: MemView,
    pub heap_ptr: u64,
    pub sha_ctxs: Map<u64, ShaView>,
    pub aes_ctxs: Map<u64, AesCtrView>,
    pub stubs: Map<u64, Seq<char>>,
}

impl View for State {
    type V = StateView;

    open spec fn view(&self) -> StateView {
        StateView {
            cpu: self.cpu@,
            mem: self.mem@,
            heap_ptr: self.heap_ptr,
            sha_ctxs: self.sha_ctxs@.map_values(|c: ShaCtx| c@),
            aes_ctxs: self.aes_ctxs@.map_values(|c: AesCtrCtx| c@),
            stubs: self.stubs@.map_values(|n: String| n@),
        }
    }
}

/// The size of a heap block for `n` bytes: the next multiple of 16.
pub open spec fn block_size(n: u64) -> u64 {
    (n.wrapping_add(15) - n.wrapping_add(15) % 16) as u64
}

impl StateView {
    pub open spec fn x(self, n: int) -> u64 {
        self.cpu.x[n]
    }

    pub open spec fn with_x0(self, v: u64) -> StateView {
        StateView { cpu: self.cpu.with_reg(0, v), ..self }
    }

    pub open spec fn with_mem(self, mem: MemView) -> StateView {
        StateView { mem, ..self }
    }

    /// The state once a heap block for `n` bytes is taken.
    pub open spec fn allocated(self, n: u64) -> StateView {
        StateView { heap_ptr: self.heap_ptr.wrapping_add(block_size(n)), ..self }
    }

    /// The state once the called function has returned to the link register.
    pub open spec fn returned(self) -> StateView {
        StateView { cpu: self.cpu.with_pc(self.x(30)), ..self }
    }
}

impl State {
    pub open spec fn wf(&self) -> bool {
        self.mem.wf()
    }

    /// An idle machine: everything zero, the heap empty.
    pub fn new() -> (r: State)
        ensures
            r.wf(),
            r@.cpu == (CpuView {
                x: Seq::new(31, |i: int| 0u64),
                sp: 0,
                pc: 0,
                n: false,
                z: false,
                c: false,
                v: false,
                vreg: Seq::new(32, |i: int| (0u64, 0u64)),
            }),
            r@.mem == (MemView {
                bytes: Map::new(|a: u64| true, |a: u64| 0u8),
                pages: Set::empty(),
                code: Seq::empty(),
                code_base: 0,
                code_end: 0,
            }),
            r@.heap_ptr == FP_HEAP_BASE,
            r@.sha_ctxs == Map::<u64, ShaView>::empty(),
            r@.aes_ctxs == Map::<u64, AesCtrView>::empty(),
            r@.stubs == Map::<u64, Seq<char>>::empty(),
    {
        let r = State {
            cpu: Cpu::new(),
            mem: Mem::new(),
            heap_ptr: FP_HEAP_BASE,
            sha_ctxs: HashMap::new(),
            aes_ctxs: HashMap::new(),
            stubs: HashMap::new(),
        };
        assert(r@.sha_ctxs =~= Map::<u64, ShaView>::empty());
        assert(r@.aes_ctxs =~= Map::<u64, AesCtrView>::empty());
        assert(r@.stubs =~= Map::<u64, Seq<char>>::empty());
        r
    }

    /// Takes a heap block for `n` bytes and returns its address.
    pub fn heap_alloc(&mut self, n: u64) -> (r: u64)
        ensures
            r == old(self).heap_ptr,
            final(self)@ == old(self)@.allocated(n),
            final(self).mem == old(self).mem,
    {
        let top: u64 = n.wrapping_add(15);
        let addr: u64 = self.heap_ptr;
        self.heap_ptr = addr.wrapping_add(top - top % 16);
        addr
    }

    pub(crate) fn set_x0(&mut self, v: u64)
        ensures
            final(self)@ == old(self)@.with_x0(v),
            final(self).mem == old(self).mem,
    {
        self.cpu.set_reg(0, v);
    }

    pub(crate) fn add_stub(&mut self, address: u64, name: String)
        ensures
            final(self)@ == (StateView {
                stubs: old(self)@.stubs.insert(address, name@),
                ..old(self)@
            }),
            final(self).mem == old(self).mem,
    {
        self.stubs.insert(address, name);
        assert(self@.stubs =~= old(self)@.stubs.insert(address, name@));
    }

    pub(crate) fn put_sha(&mut self, address: u64, ctx: ShaCtx)
        ensures
            final(self)@ == (StateView {
                sha_ctxs: old(self)@.sha_ctxs.insert(address, ctx@),
                ..old(self)@
            }),
            final(self).mem == old(self).mem,
    {
        self.sha_ctxs.insert(address, ctx);
        assert(self@.sha_ctxs =~= old(self)@.sha_ctxs.insert(address, ctx@));
    }

    pub(crate) fn take_sha(&mut self, address: u64) -> (r: Option<ShaCtx>)
        ensures
            r is Some <==> old(self)@.sha_ctxs.contains_key(address),
            r matches Some(ctx) ==> ctx@ == old(self)@.sha_ctxs[address],
            final(self)@ == (StateView {
                sha_ctxs: old(self)@.sha_ctxs.remove(address),
                ..old(self)@
            }),
            final(self).mem == old(self).mem,
    {
        let r = self.sha_ctxs.remove(&address);
        assert(self@.sha_ctxs =~= old(self)@.sha_ctxs.remove(address));
        r
    }

    pub(crate) fn put_aes(&mut self, address: u64, ctx: AesCtrCtx)
        ensures
            final(self)@ == (StateView {
                aes_ctxs: old(self)@.aes_ctxs.insert(address, ctx@),
                ..old(self)@
            }),
            final(self).mem == old(self).mem,
    {
        self.aes_ctxs.insert(address, ctx);
        assert(self@.aes_ctxs =~= old(self)@.aes_ctxs.insert(address, ctx@));
    }

    pub(crate) fn take_aes(&mut self, address: u64) -> (r: Option<AesCtrCtx>)
        ensures
            r is Some <==> old(self)@.aes_ctxs.contains_key(address),
            r matches Some(ctx) ==> ctx@ == old(self)@.aes_ctxs[address],
            final(self)@ == (StateView {
                aes_ctxs: old(self)@.aes_ctxs.remove(address),
                ..old(self)@
            }),
            final(self).mem == old(self).mem,
    {
        let r = self.aes_ctxs.remove(&address);
        assert(self@.aes_ctxs =~= old(self)@.aes_ctxs.remove(address));
        r
    }
}

/// Heap blocks never overlap: a block ends where the next one starts, and is large enough.
pub proof fn lemma_heap_blocks_disjoint(s: StateView, n: u64)
    requires
        s.heap_ptr + n + 15 <= u64::MAX,
    ensures
        s.heap_ptr + n <= s.allocated(n).heap_ptr,
        s.heap_ptr % 16 == 0 ==> s.allocated(n).heap_ptr % 16 == 0,
{
}

} // verus!
