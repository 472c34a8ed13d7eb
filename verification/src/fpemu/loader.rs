//! Loading the snapshot of the emulated program, and the exchange it computes.
use crate::bytes::{le16_at, le32_at, le64_at, le_u16, le_u32, le_u64};
use crate::fpemu::cpu::CpuView;
use crate::fpemu::machine::{run, run_from, RunError};
use crate::fpemu::mem::{Mem, MemView};
use crate::fpemu::state::{
    State, StateView, FP_CODE_BASE, FP_CODE_END, FP_ENTRY, FP_STACK_BASE, FP_STACK_SZ,
    FP_TRAMPOLINE_ADDR,
};
use crate::fpemu::stubs::fill;
use crate::text::{from_utf8_lossy, read_lossy};
use vstd::prelude::*;
use vstd::slice::{slice_subrange, slice_to_vec};

verus! {

/// Regions that the snapshot leaves out because they repeat others: where each goes, where it is
/// copied from, and its length.
pub const DEDUP_FIXUPS: [(u64, u64, usize); 138] = [
    (0x1_b10a_8020, 0x1_b10a_6820, 256),
    (0x1_b10a_9420, 0x1_b10a_8c20, 256),
    (0x1_b10a_ac20, 0x1_b10a_5020, 256),
    (0x1_b10a_b820, 0x1_b10a_5420, 256),
    (0x1_b10a_c420, 0x1_b10a_a020, 256),
    (0x1_b10b_1980, 0x1_b10b_0d80, 128),
    (0x1_b10b_4180, 0x1_b10b_0d80, 128),
    (0x1_b10b_1080, 0x1_b10a_f880, 128),
    (0x1_b10a_5180, 0x1_b10a_3980, 128),
    (0x1_b10a_c180, 0x1_b10a_3980, 128),
    (0x1_b10a_9980, 0x1_b10a_7980, 128),
    (0x1_b10b_7480, 0x1_b10b_4880, 128),
    (0x1_b10b_2980, 0x1_b10b_0980, 128),
    (0x1_b10b_5480, 0x1_b10b_3080, 128),
    (0x1_b10b_5d80, 0x1_b10a_f980, 128),
    (0x1_b10b_7080, 0x1_b10b_3c80, 128),
    (0x1_b10b_2480, 0x1_b10b_1c80, 128),
    (0x1_b10b_6580, 0x1_b10b_2580, 128),
    (0x1_b10a_6980, 0x1_b10a_3d80, 128),
    (0x1_b10a_9580, 0x1_b10a_4580, 128),
    (0x1_b10b_5980, 0x1_b10b_5180, 128),
    (0x1_b10b_7180, 0x1_b10b_5180, 128),
    (0x1_b10a_8980, 0x1_b10a_7d80, 128),
    (0x1_b10a_b180, 0x1_b10a_7d80, 128),
    (0x1_a12c_6a80, 0x1_a12c_3140, 32),
    (0x1_a12c_daa0, 0x1_a12b_fb80, 32),
    (0x1_a12d_0aa0, 0x1_a12c_f5e0, 32),
    (0x1_a12d_4460, 0x1_a12c_c1a0, 96),
    (0x1_a12d_4620, 0x1_a12c_c360, 32),
    (0x1_a12d_4680, 0x1_a12c_c3c0, 32),
    (0x1_a12d_46e0, 0x1_a12c_c420, 32),
    (0x1_a12d_4940, 0x1_a12c_c680, 32),
    (0x1_a12d_49a0, 0x1_a12c_c6e0, 32),
    (0x1_a12d_4a60, 0x1_a12c_c7a0, 32),
    (0x1_a12d_8660, 0x1_a12c_da40, 32),
    (0x1_a12d_86a0, 0x1_a12c_da80, 32),
    (0x1_a12d_86c0, 0x1_a12c_3140, 32),
    (0x1_a130_c180, 0x1_a130_75a0, 96),
    (0x1_a131_51a0, 0x1_a130_85c0, 32),
    (0x1_b10a_3180, 0x1_b10a_30a0, 32),
    (0x1_b10a_3320, 0x1_b10a_30a0, 32),
    (0x1_b10a_3560, 0x1_b10a_3480, 32),
    (0x1_b10a_36a0, 0x1_b10a_30a0, 32),
    (0x1_b10a_3780, 0x1_b10a_34e0, 32),
    (0x1_b10a_5120, 0x1_b10a_3920, 96),
    (0x1_b10a_5200, 0x1_b10a_3a00, 32),
    (0x1_b10a_6920, 0x1_b10a_3d20, 96),
    (0x1_b10a_6a00, 0x1_b10a_3e00, 32),
    (0x1_b10a_8920, 0x1_b10a_7d20, 96),
    (0x1_b10a_8a00, 0x1_b10a_7e00, 32),
    (0x1_b10a_9520, 0x1_b10a_4520, 96),
    (0x1_b10a_9600, 0x1_b10a_4600, 32),
    (0x1_b10a_9920, 0x1_b10a_7920, 96),
    (0x1_b10a_9a00, 0x1_b10a_7a00, 32),
    (0x1_b10a_b120, 0x1_b10a_7d20, 96),
    (0x1_b10a_b200, 0x1_b10a_7e00, 32),
    (0x1_b10a_c120, 0x1_b10a_3920, 96),
    (0x1_b10a_c200, 0x1_b10a_3a00, 32),
    (0x1_b10b_0360, 0x1_b10a_fba0, 32),
    (0x1_b10b_03a0, 0x1_b10a_fb60, 32),
    (0x1_b10b_03e0, 0x1_b10a_fc20, 32),
    (0x1_b10b_0420, 0x1_b10a_fbe0, 32),
    (0x1_b10b_1060, 0x1_b10a_f860, 32),
    (0x1_b10b_1100, 0x1_b10a_f900, 64),
    (0x1_b10b_1260, 0x1_b10b_06e0, 96),
    (0x1_b10b_12e0, 0x1_b10b_0660, 96),
    (0x1_b10b_1560, 0x1_b10b_09e0, 96),
    (0x1_b10b_15e0, 0x1_b10b_0960, 96),
    (0x1_b10b_1960, 0x1_b10b_0d60, 32),
    (0x1_b10b_1a00, 0x1_b10b_0e00, 64),
    (0x1_b10b_2460, 0x1_b10b_1c60, 32),
    (0x1_b10b_2500, 0x1_b10b_1d00, 64),
    (0x1_b10b_2960, 0x1_b10b_0960, 32),
    (0x1_b10b_2a00, 0x1_b10b_0a00, 64),
    (0x1_b10b_3060, 0x1_b10b_2ce0, 32),
    (0x1_b10b_3100, 0x1_b10b_2c80, 64),
    (0x1_b10b_3360, 0x1_b10b_0fa0, 32),
    (0x1_b10b_33a0, 0x1_b10b_0f60, 32),
    (0x1_b10b_33e0, 0x1_b10b_1020, 32),
    (0x1_b10b_3420, 0x1_b10b_0fe0, 32),
    (0x1_b10b_3660, 0x1_b10a_fee0, 96),
    (0x1_b10b_36e0, 0x1_b10a_fe60, 96),
    (0x1_b10b_3a60, 0x1_b10b_16a0, 32),
    (0x1_b10b_3aa0, 0x1_b10b_1660, 32),
    (0x1_b10b_3ae0, 0x1_b10b_1720, 32),
    (0x1_b10b_3b20, 0x1_b10b_16e0, 32),
    (0x1_b10b_4160, 0x1_b10b_0d60, 32),
    (0x1_b10b_4200, 0x1_b10b_0e00, 64),
    (0x1_b10b_4660, 0x1_b10b_02a0, 32),
    (0x1_b10b_46a0, 0x1_b10b_0260, 32),
    (0x1_b10b_46e0, 0x1_b10b_0320, 32),
    (0x1_b10b_4720, 0x1_b10b_02e0, 32),
    (0x1_b10b_5460, 0x1_b10b_2ce0, 32),
    (0x1_b10b_5500, 0x1_b10b_2c80, 64),
    (0x1_b10b_5560, 0x1_b10b_49a0, 32),
    (0x1_b10b_55a0, 0x1_b10b_4960, 32),
    (0x1_b10b_55e0, 0x1_b10b_4a20, 32),
    (0x1_b10b_5620, 0x1_b10b_49e0, 32),
    (0x1_b10b_5660, 0x1_b10a_f2e0, 96),
    (0x1_b10b_56e0, 0x1_b10a_f260, 96),
    (0x1_b10b_5960, 0x1_b10b_5160, 32),
    (0x1_b10b_5a00, 0x1_b10b_5200, 64),
    (0x1_b10b_5d60, 0x1_b10a_f960, 32),
    (0x1_b10b_5e00, 0x1_b10a_fa00, 64),
    (0x1_b10b_6060, 0x1_b10b_18e0, 96),
    (0x1_b10b_60e0, 0x1_b10b_1860, 96),
    (0x1_b10b_6460, 0x1_b10b_58e0, 96),
    (0x1_b10b_64e0, 0x1_b10b_5860, 96),
    (0x1_b10b_6560, 0x1_b10b_2560, 32),
    (0x1_b10b_6600, 0x1_b10b_2600, 64),
    (0x1_b10b_6660, 0x1_b10b_0ea0, 32),
    (0x1_b10b_66a0, 0x1_b10b_0e60, 32),
    (0x1_b10b_66e0, 0x1_b10b_0f20, 32),
    (0x1_b10b_6720, 0x1_b10b_0ee0, 32),
    (0x1_b10b_6760, 0x1_b10b_13e0, 96),
    (0x1_b10b_67e0, 0x1_b10b_1360, 96),
    (0x1_b10b_6960, 0x1_b10a_f5a0, 32),
    (0x1_b10b_69a0, 0x1_b10a_f560, 32),
    (0x1_b10b_69e0, 0x1_b10a_f620, 32),
    (0x1_b10b_6a20, 0x1_b10a_f5e0, 32),
    (0x1_b10b_6a60, 0x1_b10a_faa0, 32),
    (0x1_b10b_6aa0, 0x1_b10a_fa60, 32),
    (0x1_b10b_6ae0, 0x1_b10a_fb20, 32),
    (0x1_b10b_6b20, 0x1_b10a_fae0, 32),
    (0x1_b10b_7060, 0x1_b10b_3c60, 32),
    (0x1_b10b_7100, 0x1_b10b_3d00, 64),
    (0x1_b10b_7160, 0x1_b10b_5160, 32),
    (0x1_b10b_7200, 0x1_b10b_5200, 64),
    (0x1_b10b_7260, 0x1_b10a_f6a0, 32),
    (0x1_b10b_72a0, 0x1_b10a_f660, 32),
    (0x1_b10b_72e0, 0x1_b10a_f720, 32),
    (0x1_b10b_7320, 0x1_b10a_f6e0, 32),
    (0x1_b10b_7460, 0x1_b10b_4860, 32),
    (0x1_b10b_7500, 0x1_b10b_4900, 64),
    (0x1_b10b_7760, 0x1_b10b_1c20, 32),
    (0x1_b10b_77a0, 0x1_b10b_1be0, 32),
    (0x1_b10b_77e0, 0x1_b10b_1ba0, 32),
    (0x1_b10b_7820, 0x1_b10b_1b60, 32),
];

/// What every m3 message starts with.
pub const M3_PREFIX: [u8; 144] = [
    0x46, 0x50, 0x4c, 0x59, 0x03, 0x01, 0x03, 0x00, 0x00, 0x00, 0x00, 0x98,
    0x03, 0x8f, 0x1a, 0x9c, 0x99, 0x1e, 0xa2, 0x2c, 0x51, 0x1e, 0x45, 0xba,
    0x97, 0xf1, 0xaf, 0x8d, 0xfb, 0x0f, 0x86, 0xf5, 0x50, 0xc5, 0x44, 0x86,
    0xfe, 0x6b, 0x3a, 0xb2, 0x33, 0xda, 0x43, 0x1e, 0xf8, 0xe5, 0xfc, 0x11,
    0x56, 0xdb, 0xa3, 0x21, 0xff, 0xfe, 0xab, 0xb1, 0xb3, 0x92, 0xb0, 0x9d,
    0x22, 0x7e, 0x88, 0xc7, 0x12, 0x20, 0x28, 0x66, 0xeb, 0x7b, 0xbf, 0x31,
    0x00, 0x15, 0xaa, 0x1d, 0x19, 0xa5, 0xdf, 0x36, 0xd5, 0xdf, 0xd8, 0xd3,
    0xca, 0x16, 0x39, 0xb3, 0x76, 0xea, 0xec, 0xe9, 0x46, 0xed, 0xfe, 0x8b,
    0x7a, 0x66, 0xcd, 0x30, 0x2d, 0x04, 0xaa, 0xc3, 0xc1, 0x25, 0x17, 0x14,
    0x01, 0x9b, 0xd5, 0xf2, 0xd4, 0x9b, 0x54, 0x3e, 0x11, 0xee, 0xd1, 0x64,
    0x62, 0x91, 0xec, 0x8e, 0xfd, 0x96, 0xb6, 0x91, 0x01, 0xb8, 0x49, 0xfd,
    0x93, 0xa0, 0x28, 0x60, 0xd1, 0xa0, 0xdf, 0xf5, 0xcd, 0x44, 0x14, 0xaa,
];

/// What every m2 message starts with.
pub const M2_HEADER: [u8; 14] = [
    0x46, 0x50, 0x4c, 0x59, 0x03, 0x01, 0x02, 0x00, 0x00, 0x00, 0x00, 0x82, 0x02, 0x03,
];

/// Why an exchange gave no answer.
#[derive(Clone, Copy, Debug, PartialEq, Eq, Structural)]
pub enum ExchangeError {
    /// The snapshot ends early, or names a page beyond the top of memory.
    MalformedSnapshot,
    /// The m2 message is shorter than it must be.
    ShortM2 { len: usize },
    /// The emulated program failed.
    Run(RunError),
}

/// The list of library functions at `pos`, added to `stubs`, and where it ends. Each entry is an
/// address, a name length and the name; an address of 0 ends the list.
pub open spec fn stub_list(b: Seq<u8>, pos: int, stubs: Map<u64, Seq<char>>) -> Option<
    (int, Map<u64, Seq<char>>),
>
    decreases b.len() - pos,
{
    if pos + 8 > b.len() {
        None
    } else if le64_at(b, pos) == 0 {
        Some((pos + 8, stubs))
    } else if pos + 10 > b.len() {
        None
    } else {
        let end = pos + 10 + le16_at(b, pos + 8);
        if end > b.len() {
            None
        } else {
            stub_list(
                b,
                end,
                stubs.insert(le64_at(b, pos), read_lossy(b.subrange(pos + 10, end))),
            )
        }
    }
}

/// The `n` spans of the page at `addr`, written into memory, and where they end. Each span is an
/// offset, a length and the bytes.
pub open spec fn page_spans(b: Seq<u8>, pos: int, addr: u64, n: nat, mem: MemView) -> Option<
    (int, MemView),
>
    decreases n,
{
    if n == 0 {
        Some((pos, mem))
    } else if pos + 4 > b.len() {
        None
    } else {
        let end = pos + 4 + le16_at(b, pos + 2);
        if end > b.len() {
            None
        } else {
            page_spans(
                b,
                end,
                addr,
                (n - 1) as nat,
                mem.written(addr.wrapping_add(le16_at(b, pos) as u64), b.subrange(pos + 4, end)),
            )
        }
    }
}

/// The page at `pos`, written into memory, and where it ends: an address, a number of spans and
/// the spans, or the whole page when the number is all ones.
pub open spec fn page_entry(b: Seq<u8>, pos: int, mem: MemView) -> Option<(int, MemView)> {
    if pos + 10 > b.len() {
        None
    } else {
        let addr = le64_at(b, pos);
        let spans = le16_at(b, pos + 8);
        if addr > 0xFFFF_FFFF_FFFF_E000 {
            None
        } else if spans == 0xFFFF {
            if pos + 4106 > b.len() {
                None
            } else {
                Some(
                    (
                        pos + 4106,
                        mem.with_range(addr, 4096).written(addr, b.subrange(pos + 10, pos + 4106)),
                    ),
                )
            }
        } else {
            page_spans(b, pos + 10, addr, spans as nat, mem.with_range(addr, 4096))
        }
    }
}

/// The `n` pages at `pos`, written into memory.
pub open spec fn page_list(b: Seq<u8>, pos: int, n: nat, mem: MemView) -> Option<MemView>
    decreases n,
{
    if n == 0 {
        Some(mem)
    } else {
        match page_entry(b, pos, mem) {
            None => None,
            Some((end, next)) => page_list(b, end, (n - 1) as nat, next),
        }
    }
}

/// Memory once the repeated regions from number `i` on are restored.
pub open spec fn restored(mem: MemView, i: int) -> MemView
    decreases DEDUP_FIXUPS@.len() - i,
{
    if i >= DEDUP_FIXUPS@.len() {
        mem
    } else {
        let (dst, src, n) = DEDUP_FIXUPS@[i];
        restored(mem.written(dst, mem.read(src, n as nat)), i + 1)
    }
}

/// Memory with the entry sequence (a call of register 8 and a breakpoint) and the region of
/// miscellany.
pub open spec fn with_entry(mem: MemView) -> MemView {
    mem.with_range(FP_TRAMPOLINE_ADDR, 0x1000).write32(FP_TRAMPOLINE_ADDR, 0xD63F_0100).write32(
        (FP_TRAMPOLINE_ADDR + 4) as u64,
        0xD420_0000,
    ).with_range(0x3000_0000, 0x1000).written(
        0x3000_0000,
        seq![0xDEu8, 0xADu8, 0xBEu8, 0xEFu8, 0xCAu8, 0xFEu8, 0xBAu8, 0xBEu8],
    ).write32(0x3000_0800, 0xD420_0000)
}

/// Memory that was never written.
pub open spec fn blank() -> MemView {
    MemView {
        bytes: Map::new(|a: u64| true, |a: u64| 0u8),
        pages: Set::empty(),
        code: Seq::empty(),
        code_base: 0,
        code_end: 0,
    }
}

/// The machine that a snapshot describes, its processor idle: the number of pages, the heap
/// pointer and the context address, then the list of functions, then the pages.
pub open spec fn loaded(b: Seq<u8>) -> Option<StateView> {
    if b.len() < 20 {
        None
    } else {
        match stub_list(b, 20, Map::empty()) {
            None => None,
            Some((pos, stubs)) => match page_list(b, pos, le32_at(b, 0) as nat, blank()) {
                None => None,
                Some(mem) => Some(
                    StateView {
                        cpu: CpuView {
                            x: Seq::new(31, |i: int| 0u64),
                            sp: 0,
                            pc: 0,
                            n: false,
                            z: false,
                            c: false,
                            v: false,
                            vreg: Seq::new(32, |i: int| (0u64, 0u64)),
                        },
                        mem: with_entry(restored(mem, 0)).with_code(FP_CODE_BASE, FP_CODE_END),
                        heap_ptr: le64_at(b, 4),
                        sha_ctxs: Map::empty(),
                        aes_ctxs: Map::empty(),
                        stubs,
                    },
                ),
            },
        }
    }
}

/// Where the arguments of the emulated call lie on the heap.
pub struct Frame {
    pub hw: u64,
    pub input: u64,
    pub out_ptr: u64,
    pub out_len: u64,
    pub rc: u64,
}

pub open spec fn frame(s: StateView) -> Frame {
    let a = s.allocated(24);
    let b = a.allocated(142);
    let c = b.allocated(8);
    let d = c.allocated(4);
    Frame {
        hw: s.heap_ptr,
        input: a.heap_ptr,
        out_ptr: b.heap_ptr,
        out_len: c.heap_ptr,
        rc: d.heap_ptr,
    }
}

/// The machine about to enter the exchange routine, called with version 3, blank hardware
/// information, the context, the framed payload and three places for results.
pub open spec fn entered(s: StateView, ctx: u64, payload: Seq<u8>) -> StateView {
    let f = frame(s);
    StateView {
        cpu: CpuView {
            x: s.cpu.x.update(0, 3).update(1, f.hw).update(2, ctx).update(3, f.input).update(
                4,
                142,
            ).update(5, f.out_ptr).update(6, f.out_len).update(7, f.rc).update(8, FP_ENTRY),
            sp: (FP_STACK_BASE + FP_STACK_SZ - 0x100) as u64,
            pc: FP_TRAMPOLINE_ADDR,
            ..s.cpu
        },
        mem: s.mem.written(f.hw, fill(0, 24)).written(f.input, M2_HEADER@ + payload).write64(
            f.out_ptr,
            0,
        ).write32(f.out_len, 0).write32(f.rc, 0),
        heap_ptr: s.allocated(24).allocated(142).allocated(8).allocated(4).allocated(4).heap_ptr,
        ..s
    }
}

/// The hash that the routine left behind: the last 20 bytes of its answer, or zeros when there is
/// no answer.
pub open spec fn answer(f: Frame, mem: MemView) -> Seq<u8> {
    let at = mem.read64(f.out_ptr);
    let n = mem.read32(f.out_len);
    if n >= 164 && at != 0 {
        mem.read(at, n as nat).subrange(144, 164)
    } else {
        fill(0, 20)
    }
}

/// What the exchange answers to a payload.
pub open spec fn exchange(snapshot: Seq<u8>, payload: Seq<u8>) -> Result<Seq<u8>, ExchangeError> {
    match loaded(snapshot) {
        None => Err(ExchangeError::MalformedSnapshot),
        Some(s) => {
            let (end, r) = run_from(
                entered(s, le64_at(snapshot, 12), payload),
                (FP_TRAMPOLINE_ADDR + 4) as u64,
                0,
            );
            match r {
                Err(e) => Err(ExchangeError::Run(e)),
                Ok(_) => Ok(answer(frame(s), end.mem)),
            }
        },
    }
}

fn load_stubs(s: &mut State, data: &[u8], start: usize) -> (r: Option<usize>)
    requires
        old(s).wf(),
        start <= data@.len(),
        old(s)@.stubs == Map::<u64, Seq<char>>::empty(),
    ensures
        final(s).wf(),
        match stub_list(data@, start as int, Map::empty()) {
            None => r is None,
            Some((pos, stubs)) => r matches Some(p) && p == pos && pos <= data@.len() && final(s)@
                == (StateView {
                stubs,
                ..old(s)@
            }),
        },
{
    let mut pos: usize = start;
    let ghost want = stub_list(data@, start as int, Map::empty());
    loop
        invariant
            s.wf(),
            pos <= data@.len(),
            want == stub_list(data@, start as int, Map::empty()),
            want == stub_list(data@, pos as int, s@.stubs),
            s@ == (StateView { stubs: s@.stubs, ..old(s)@ }),
        decreases data.len() - pos,
    {
        if data.len() - pos < 8 {
            return None;
        }
        let addr: u64 = le_u64(data, pos);
        if addr == 0 {
            return Some(pos + 8);
        }
        if data.len() - pos < 10 {
            return None;
        }
        let n: usize = le_u16(data, pos + 8) as usize;
        if data.len() - pos - 10 < n {
            return None;
        }
        let name = from_utf8_lossy(slice_subrange(data, pos + 10, pos + 10 + n));
        s.add_stub(addr, name);
        pos = pos + 10 + n;
    }
}

fn load_spans(m: &mut Mem, data: &[u8], start: usize, addr: u64, n: u16) -> (r: Option<usize>)
    requires
        old(m).wf(),
        start <= data@.len(),
    ensures
        final(m).wf(),
        match page_spans(data@, start as int, addr, n as nat, old(m)@) {
            None => r is None,
            Some((pos, mem)) => r matches Some(p) && p == pos && pos <= data@.len() && final(m)@
                == mem,
        },
{
    let mut pos: usize = start;
    let mut left: u16 = n;
    let ghost want = page_spans(data@, start as int, addr, n as nat, old(m)@);
    while left > 0
        invariant
            m.wf(),
            pos <= data@.len(),
            want == page_spans(data@, start as int, addr, n as nat, old(m)@),
            want == page_spans(data@, pos as int, addr, left as nat, m@),
        decreases left,
    {
        if data.len() - pos < 4 {
            return None;
        }
        let off: u64 = le_u16(data, pos) as u64;
        let len: usize = le_u16(data, pos + 2) as usize;
        if data.len() - pos - 4 < len {
            return None;
        }
        m.write_n(addr.wrapping_add(off), slice_subrange(data, pos + 4, pos + 4 + len));
        pos = pos + 4 + len;
        left = left - 1;
    }
    Some(pos)
}

fn load_page(m: &mut Mem, data: &[u8], pos: usize) -> (r: Option<usize>)
    requires
        old(m).wf(),
        pos <= data@.len(),
    ensures
        final(m).wf(),
        match page_entry(data@, pos as int, old(m)@) {
            None => r is None,
            Some((end, mem)) => r matches Some(p) && p == end && end <= data@.len() && final(m)@
                == mem,
        },
{
    if data.len() - pos < 10 {
        return None;
    }
    let addr: u64 = le_u64(data, pos);
    let spans: u16 = le_u16(data, pos + 8);
    if addr > 0xFFFF_FFFF_FFFF_E000 {
        return None;
    }
    m.map_range(addr, 4096);
    if spans == 0xFFFF {
        if data.len() - pos < 4106 {
            return None;
        }
        m.write_n(addr, slice_subrange(data, pos + 10, pos + 4106));
        Some(pos + 4106)
    } else {
        load_spans(m, data, pos + 10, addr, spans)
    }
}

fn load_pages(m: &mut Mem, data: &[u8], start: usize, n: u32) -> (r: bool)
    requires
        old(m).wf(),
        start <= data@.len(),
    ensures
        final(m).wf(),
        match page_list(data@, start as int, n as nat, old(m)@) {
            None => !r,
            Some(mem) => r && final(m)@ == mem,
        },
{
    let mut pos: usize = start;
    let mut left: u32 = n;
    let ghost want = page_list(data@, start as int, n as nat, old(m)@);
    while left > 0
        invariant
            m.wf(),
            pos <= data@.len(),
            want == page_list(data@, start as int, n as nat, old(m)@),
            want == page_list(data@, pos as int, left as nat, m@),
        decreases left,
    {
        match load_page(m, data, pos) {
            None => {
                return false;
            },
            Some(end) => {
                pos = end;
            },
        }
        left = left - 1;
    }
    true
}

fn restore_regions(m: &mut Mem)
    requires
        old(m).wf(),
    ensures
        final(m).wf(),
        final(m)@ == restored(old(m)@, 0),
{
    let mut i: usize = 0;
    while i < DEDUP_FIXUPS.len()
        invariant
            i <= DEDUP_FIXUPS@.len(),
            m.wf(),
            restored(old(m)@, 0) == restored(m@, i as int),
        decreases DEDUP_FIXUPS@.len() - i,
    {
        let (dst, src, n) = DEDUP_FIXUPS[i];
        let data: Vec<u8> = m.read_n(src, n);
        m.write_n(dst, data.as_slice());
        i += 1;
    }
}

fn write_entry(m: &mut Mem)
    requires
        old(m).wf(),
    ensures
        final(m).wf(),
        final(m)@ == with_entry(old(m)@),
{
    m.map_range(FP_TRAMPOLINE_ADDR, 0x1000);
    m.write32(FP_TRAMPOLINE_ADDR, 0xD63F_0100);
    m.write32(FP_TRAMPOLINE_ADDR + 4, 0xD420_0000);
    m.map_range(0x3000_0000, 0x1000);
    let mark: [u8; 8] = [0xDE, 0xAD, 0xBE, 0xEF, 0xCA, 0xFE, 0xBA, 0xBE];
    assert(mark@ =~= seq![0xDEu8, 0xADu8, 0xBEu8, 0xEFu8, 0xCAu8, 0xFEu8, 0xBAu8, 0xBEu8]);
    m.write_n(0x3000_0000, &mark);
    m.write32(0x3000_0800, 0xD420_0000);
}

/// Loads a snapshot.
pub fn load_snapshot(data: &[u8]) -> (r: Option<State>)
    ensures
        match loaded(data@) {
            None => r is None,
            Some(s) => r matches Some(state) && state.wf() && state@ == s,
        },
{
    if data.len() < 20 {
        return None;
    }
    let mut s = State::new();
    let pos: usize = match load_stubs(&mut s, data, 20) {
        Some(pos) => pos,
        None => {
            return None;
        },
    };
    if !load_pages(&mut s.mem, data, pos, le_u32(data, 0)) {
        return None;
    }
    restore_regions(&mut s.mem);
    write_entry(&mut s.mem);
    s.mem.set_code_region(FP_CODE_BASE, FP_CODE_END);
    s.heap_ptr = le_u64(data, 4);
    Some(s)
}

fn enter(s: &mut State, ctx: u64, payload: &[u8; 128]) -> (r: Frame)
    requires
        old(s).wf(),
        old(s)@.cpu.x.len() == 31,
    ensures
        final(s).wf(),
        r == frame(old(s)@),
        final(s)@ == entered(old(s)@, ctx, payload@),
{
    let hw: u64 = s.heap_alloc(24);
    let blank: [u8; 24] = [0u8; 24];
    assert(blank@ =~= fill(0, 24));
    s.mem.write_n(hw, &blank);
    let input: u64 = s.heap_alloc(142);
    let mut m2: Vec<u8> = slice_to_vec(&M2_HEADER);
    let mut tail: Vec<u8> = slice_to_vec(payload);
    m2.append(&mut tail);
    assert(m2@ =~= M2_HEADER@ + payload@);
    s.mem.write_n(input, m2.as_slice());
    let out_ptr: u64 = s.heap_alloc(8);
    let out_len: u64 = s.heap_alloc(4);
    let rc: u64 = s.heap_alloc(4);
    s.mem.write64(out_ptr, 0);
    s.mem.write32(out_len, 0);
    s.mem.write32(rc, 0);
    s.cpu.sp = FP_STACK_BASE + FP_STACK_SZ - 0x100;
    s.cpu.x[0] = 3;
    s.cpu.x[1] = hw;
    s.cpu.x[2] = ctx;
    s.cpu.x[3] = input;
    s.cpu.x[4] = 142;
    s.cpu.x[5] = out_ptr;
    s.cpu.x[6] = out_len;
    s.cpu.x[7] = rc;
    s.cpu.x[8] = FP_ENTRY;
    s.cpu.pc = FP_TRAMPOLINE_ADDR;
    Frame { hw, input, out_ptr, out_len, rc }
}

fn read_answer(m: &Mem, f: &Frame) -> (r: [u8; 20])
    requires
        m.wf(),
    ensures
        r@ == answer(*f, m@),
{
    let at: u64 = m.read64(f.out_ptr);
    let n: u32 = m.read32(f.out_len);
    let mut result: [u8; 20] = [0u8; 20];
    if n >= 164 && at != 0 {
        let out: Vec<u8> = m.read_n(at, n as usize);
        let mut i: usize = 0;
        while i < 20
            invariant
                i <= 20,
                out@.len() >= 164,
                forall|k: int| 0 <= k < i ==> result@[k] == out@[144 + k],
            decreases 20 - i,
        {
            result[i] = out[144 + i];
            i += 1;
        }
        assert(result@ =~= out@.subrange(144, 164));
    } else {
        assert(result@ =~= fill(0, 20));
    }
    result
}

/// The core of the SAP exchange: the hash that the emulated routine of `snapshot` answers to the
/// payload of an m2 message.
pub fn fp_sap_exchange_standalone(snapshot: &[u8], payload: &[u8; 128]) -> (r: Result<
    [u8; 20],
    ExchangeError,
>)
    ensures
        match exchange(snapshot@, payload@) {
            Ok(hash) => r matches Ok(h) && h@ == hash,
            Err(e) => r == Err::<[u8; 20], ExchangeError>(e),
        },
{
    let mut s = match load_snapshot(snapshot) {
        Some(s) => s,
        None => {
            return Err(ExchangeError::MalformedSnapshot);
        },
    };
    let f = enter(&mut s, le_u64(snapshot, 12), payload);
    match run(&mut s, FP_TRAMPOLINE_ADDR + 4) {
        Err(e) => Err(ExchangeError::Run(e)),
        Ok(_) => Ok(read_answer(&s.mem, &f)),
    }
}

/// The m3 message that answers an m2 message: a fixed prefix and the hash of the payload. It fails
/// when m2 is shorter than 142 bytes, and when the exchange itself fails.
pub fn fp_sap_exchange_m3(snapshot: &[u8], m2: &[u8]) -> (r: Result<Vec<u8>, ExchangeError>)
    ensures
        if m2@.len() < 142 {
            r == Err::<Vec<u8>, ExchangeError>(ExchangeError::ShortM2 { len: m2@.len() as usize })
        } else {
            match exchange(snapshot@, m2@.subrange(14, 142)) {
                Ok(hash) => r matches Ok(m3) && m3@ == M3_PREFIX@ + hash && m3@.len() == 164,
                Err(e) => r == Err::<Vec<u8>, ExchangeError>(e),
            }
        },
{
    if m2.len() < 142 {
        return Err(ExchangeError::ShortM2 { len: m2.len() });
    }
    let mut payload: [u8; 128] = [0u8; 128];
    let mut i: usize = 0;
    while i < 128
        invariant
            i <= 128,
            m2@.len() >= 142,
            forall|k: int| 0 <= k < i ==> payload@[k] == m2@[14 + k],
        decreases 128 - i,
    {
        payload[i] = m2[14 + i];
        i += 1;
    }
    assert(payload@ =~= m2@.subrange(14, 142));
    match fp_sap_exchange_standalone(snapshot, &payload) {
        Err(e) => Err(e),
        Ok(hash) => {
            let mut m3: Vec<u8> = slice_to_vec(&M3_PREFIX);
            let mut tail: Vec<u8> = slice_to_vec(&hash);
            m3.append(&mut tail);
            assert(m3@ =~= M3_PREFIX@ + hash@);
            Ok(m3)
        },
    }
}

} // verus!
