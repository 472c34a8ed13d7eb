//! Loads and stores of vector registers.
use crate::fpemu::cpu::Cpu;
use crate::fpemu::decode::branch::offset19;
use crate::fpemu::decode::ldst::{apply_index, indexed, load, loaded, pair_mode, store, stored};
use crate::fpemu::decode::{rd, rn};
use crate::fpemu::fault::{machine_outcome, Fault, MachineView};
use crate::fpemu::helpers::sign_extend;
use crate::fpemu::mem::Mem;
use vstd::prelude::*;

verus! {

broadcast use crate::bits::lemma_and_le_u32;

/// The size class of a vector access: 0 to 3 for 1, 2, 4 and 8 bytes, 4 for 16.
pub open spec fn simd_size(size: u32, opc: u32) -> u32 {
    if size == 0 && opc >= 2 {
        4
    } else {
        size
    }
}

/// The number of bytes of a size class.
pub open spec fn simd_bytes(class: u32) -> u64 {
    if class == 0 {
        1
    } else if class == 1 {
        2
    } else if class == 2 {
        4
    } else if class == 3 {
        8
    } else {
        16
    }
}

/// Memory with the low bytes of vector register `rt` stored at `addr`.
pub open spec fn simd_stored(s: MachineView, addr: u64, rt: u32, class: u32) -> MachineView {
    let mem = if class == 4 {
        let low = stored(s.mem, addr, 3, s.cpu.lo(rt));
        stored(low, addr.wrapping_add(8), 3, s.cpu.hi(rt))
    } else {
        stored(s.mem, addr, class, s.cpu.lo(rt))
    };
    MachineView { cpu: s.cpu, mem }
}

/// Vector register `rt` loaded from `addr`, its upper bytes cleared.
pub open spec fn simd_loaded(s: MachineView, addr: u64, rt: u32, class: u32) -> MachineView {
    let cpu = if class == 4 {
        s.cpu.with_vector(rt, loaded(s.mem, addr, 3), loaded(s.mem, addr.wrapping_add(8), 3))
    } else {
        s.cpu.with_vector(rt, loaded(s.mem, addr, class), 0)
    };
    MachineView { cpu, mem: s.mem }
}

pub open spec fn simd_accessed(s: MachineView, is_load: bool, addr: u64, rt: u32, class: u32) ->
    MachineView {
    if is_load {
        simd_loaded(s, addr, rt, class)
    } else {
        simd_stored(s, addr, rt, class)
    }
}

pub open spec fn advanced(s: MachineView) -> MachineView {
    MachineView { cpu: s.cpu.advanced(), mem: s.mem }
}

/// LDR and STR of a vector register with an unsigned offset.
pub open spec fn ldst_simd_unsigned(s: MachineView, inst: u32) -> MachineView {
    let opc = (inst >> 22) & 3;
    let class = simd_size((inst >> 30) & 3, opc);
    let offset = (((inst >> 10) & 0xFFF) * simd_bytes(class)) as u64;
    let addr = s.cpu.reg_sp(rn(inst)).wrapping_add(offset);
    advanced(simd_accessed(s, opc & 1 != 0, addr, rd(inst), class))
}

/// LDR and STR of a vector register, unscaled, post-indexed or pre-indexed.
pub open spec fn ldst_simd_imm9(s: MachineView, inst: u32) -> Result<MachineView, Fault> {
    let opc = (inst >> 22) & 3;
    let class = simd_size((inst >> 30) & 3, opc);
    let idx_type = (inst >> 10) & 3;
    let imm9 = sign_extend(((inst >> 12) & 0x1FF) as u64, 9);
    if idx_type == 2 {
        Err(Fault::ReservedSimdIndex { idx_type })
    } else {
        let (addr, cpu) = indexed(s.cpu, rn(inst), imm9, idx_type);
        let moved = MachineView { cpu, mem: s.mem };
        Ok(advanced(simd_accessed(moved, opc & 1 != 0, addr, rd(inst), class)))
    }
}

/// LDP and STP of vector registers.
pub open spec fn ldst_pair_simd(s: MachineView, inst: u32) -> Result<MachineView, Fault> {
    let opc = (inst >> 30) & 3;
    let pair_type = (inst >> 23) & 7;
    let class = (opc + 2) as u32;
    let imm7 = sign_extend(((inst >> 15) & 0x7F) as u64, 7);
    let offset = imm7.wrapping_mul(simd_bytes(class));
    let is_load = (inst >> 22) & 1 != 0;
    if opc == 3 {
        Err(Fault::ReservedSimdPair { opc })
    } else if pair_type == 0 || pair_type > 3 {
        Err(Fault::ReservedSimdPairType { pair_type })
    } else {
        let (addr, cpu) = indexed(s.cpu, rn(inst), offset, pair_mode(pair_type));
        let moved = MachineView { cpu, mem: s.mem };
        let first = simd_accessed(moved, is_load, addr, rd(inst), class);
        let second = addr.wrapping_add(simd_bytes(class));
        Ok(advanced(simd_accessed(first, is_load, second, (inst >> 10) & 0x1F, class)))
    }
}

/// LDR of a vector register from an address relative to the program counter.
pub open spec fn ldr_simd_literal(s: MachineView, inst: u32) -> MachineView {
    let opc = (inst >> 30) & 3;
    let addr = s.cpu.pc.wrapping_add(offset19(inst).wrapping_mul(4));
    if opc == 3 {
        advanced(MachineView { cpu: s.cpu.with_vector(rd(inst), 0, 0), mem: s.mem })
    } else {
        advanced(simd_loaded(s, addr, rd(inst), (opc + 2) as u32))
    }
}

fn access_class(size: u32, opc: u32) -> (r: u32)
    requires
        size <= 3,
    ensures
        r == simd_size(size, opc),
        r <= 4,
{
    if size == 0 && opc >= 2 {
        4
    } else {
        size
    }
}

/// The number of bytes that a vector access moves.
pub fn simd_access_size(size: u32, opc: u32) -> (r: usize)
    requires
        size <= 3,
    ensures
        r == simd_bytes(simd_size(size, opc)),
        r <= 16,
{
    match access_class(size, opc) {
        0 => 1,
        1 => 2,
        2 => 4,
        3 => 8,
        _ => 16,
    }
}

fn do_simd_store(c: &Cpu, m: &mut Mem, addr: u64, rt: u32, class: u32)
    requires
        old(m).wf(),
        rt <= 31,
    ensures
        final(m).wf(),
        (MachineView { cpu: c@, mem: final(m)@ }) == simd_stored(
            (MachineView { cpu: c@, mem: old(m)@ }),
            addr,
            rt,
            class,
        ),
{
    if class == 4 {
        store(m, addr, 3, c.lo(rt));
        store(m, addr.wrapping_add(8), 3, c.hi(rt));
    } else {
        store(m, addr, class, c.lo(rt));
    }
}

fn do_simd_load(c: &mut Cpu, m: &Mem, addr: u64, rt: u32, class: u32)
    requires
        m.wf(),
        rt <= 31,
    ensures
        (MachineView { cpu: final(c)@, mem: m@ }) == simd_loaded(
            (MachineView { cpu: old(c)@, mem: m@ }),
            addr,
            rt,
            class,
        ),
{
    if class == 4 {
        let low: u64 = load(m, addr, 3);
        let high: u64 = load(m, addr.wrapping_add(8), 3);
        c.set_vector(rt, low, high);
    } else {
        let low: u64 = load(m, addr, class);
        c.set_vector(rt, low, 0);
    }
}

fn access(c: &mut Cpu, m: &mut Mem, is_load: bool, addr: u64, rt: u32, class: u32)
    requires
        old(m).wf(),
        rt <= 31,
    ensures
        final(m).wf(),
        (MachineView { cpu: final(c)@, mem: final(m)@ }) == simd_accessed(
            (MachineView { cpu: old(c)@, mem: old(m)@ }),
            is_load,
            addr,
            rt,
            class,
        ),
{
    if is_load {
        do_simd_load(c, m, addr, rt, class);
    } else {
        do_simd_store(c, m, addr, rt, class);
    }
}

pub fn exec_ldst_simd_unsigned(c: &mut Cpu, m: &mut Mem, inst: u32)
    requires
        old(m).wf(),
    ensures
        final(m).wf(),
        (MachineView { cpu: final(c)@, mem: final(m)@ }) == ldst_simd_unsigned(
            (MachineView { cpu: old(c)@, mem: old(m)@ }),
            inst,
        ),
{
    let opc: u32 = (inst >> 22) & 3;
    let class: u32 = access_class((inst >> 30) & 3, opc);
    let bytes: u64 = simd_access_size((inst >> 30) & 3, opc) as u64;
    let imm12: u64 = ((inst >> 10) & 0xFFF) as u64;
    assert(imm12 * bytes <= 0xFFF * 16) by (nonlinear_arith)
        requires
            imm12 <= 0xFFF,
            bytes <= 16,
    ;
    let offset: u64 = imm12 * bytes;
    let addr: u64 = c.reg_sp(rn(inst)).wrapping_add(offset);
    access(c, m, opc & 1 != 0, addr, rd(inst), class);
    c.advance();
}

pub fn exec_ldst_simd_imm9(c: &mut Cpu, m: &mut Mem, inst: u32) -> (r: Result<(), Fault>)
    requires
        old(m).wf(),
    ensures
        final(m).wf(),
        machine_outcome(
            r,
            ldst_simd_imm9((MachineView { cpu: old(c)@, mem: old(m)@ }), inst),
            (MachineView { cpu: old(c)@, mem: old(m)@ }),
            (MachineView { cpu: final(c)@, mem: final(m)@ }),
        ),
{
    let opc: u32 = (inst >> 22) & 3;
    let class: u32 = access_class((inst >> 30) & 3, opc);
    let idx_type: u32 = (inst >> 10) & 3;
    let imm9: u64 = sign_extend(((inst >> 12) & 0x1FF) as u64, 9);
    if idx_type == 2 {
        return Err(Fault::ReservedSimdIndex { idx_type });
    }
    let addr: u64 = apply_index(c, rn(inst), imm9, idx_type);
    access(c, m, opc & 1 != 0, addr, rd(inst), class);
    c.advance();
    Ok(())
}

pub fn exec_ldst_pair_simd(c: &mut Cpu, m: &mut Mem, inst: u32) -> (r: Result<(), Fault>)
    requires
        old(m).wf(),
    ensures
        final(m).wf(),
        machine_outcome(
            r,
            ldst_pair_simd((MachineView { cpu: old(c)@, mem: old(m)@ }), inst),
            (MachineView { cpu: old(c)@, mem: old(m)@ }),
            (MachineView { cpu: final(c)@, mem: final(m)@ }),
        ),
{
    let opc: u32 = (inst >> 30) & 3;
    let pair_type: u32 = (inst >> 23) & 7;
    if opc == 3 {
        return Err(Fault::ReservedSimdPair { opc });
    }
    if pair_type == 0 || pair_type > 3 {
        return Err(Fault::ReservedSimdPairType { pair_type });
    }
    let class: u32 = opc + 2;
    let scale: u64 = match opc {
        0 => 4,
        1 => 8,
        _ => 16,
    };
    let is_load = (inst >> 22) & 1 != 0;
    let offset: u64 = sign_extend(((inst >> 15) & 0x7F) as u64, 7).wrapping_mul(scale);
    let mode: u32 = if pair_type == 2 {
        0
    } else {
        pair_type
    };
    let addr: u64 = apply_index(c, rn(inst), offset, mode);
    access(c, m, is_load, addr, rd(inst), class);
    access(c, m, is_load, addr.wrapping_add(scale), (inst >> 10) & 0x1F, class);
    c.advance();
    Ok(())
}

pub fn exec_ldr_simd_literal(c: &mut Cpu, m: &mut Mem, inst: u32)
    requires
        old(m).wf(),
    ensures
        final(m).wf(),
        (MachineView { cpu: final(c)@, mem: final(m)@ }) == ldr_simd_literal(
            (MachineView { cpu: old(c)@, mem: old(m)@ }),
            inst,
        ),
{
    let opc: u32 = (inst >> 30) & 3;
    let words: u64 = sign_extend(((inst >> 5) & 0x7FFFF) as u64, 19);
    let addr: u64 = c.pc.wrapping_add(words.wrapping_mul(4));
    if opc == 3 {
        c.set_vector(rd(inst), 0, 0);
    } else {
        do_simd_load(c, m, addr, rd(inst), opc + 2);
    }
    c.advance();
}

} // verus!
