//! Loads and stores of general registers.
use crate::fpemu::cpu::{Cpu, CpuView};
use crate::fpemu::decode::branch::offset19;
use crate::fpemu::decode::simd_ldst::{
    exec_ldr_simd_literal, exec_ldst_pair_simd, exec_ldst_simd_imm9, exec_ldst_simd_unsigned,
    ldr_simd_literal, ldst_pair_simd, ldst_simd_imm9, ldst_simd_unsigned,
};
use crate::fpemu::decode::{rd, rm, rn};
use crate::fpemu::fault::{machine_outcome, Fault, MachineView};
use crate::fpemu::helpers::{low, low_bits, sign_extend};
use crate::fpemu::mem::{Mem, MemView};
use vstd::prelude::*;

verus! {

broadcast use crate::bits::lemma_and_le_u32;

/// The number of bytes that a size field names.
pub open spec fn size_bytes(size: u32) -> u64 {
    if size == 0 {
        1
    } else if size == 1 {
        2
    } else if size == 2 {
        4
    } else {
        8
    }
}

/// The zero-extended value of the given size at `addr`.
pub open spec fn loaded(m: MemView, addr: u64, size: u32) -> u64 {
    if size == 0 {
        m.byte(addr) as u64
    } else if size == 1 {
        m.read16(addr) as u64
    } else if size == 2 {
        m.read32(addr) as u64
    } else {
        m.read64(addr)
    }
}

/// Memory with the low bytes of `v` stored at `addr`.
pub open spec fn stored(m: MemView, addr: u64, size: u32, v: u64) -> MemView {
    if size == 0 {
        m.write8(addr, v as u8)
    } else if size == 1 {
        m.write16(addr, v as u16)
    } else if size == 2 {
        m.write32(addr, v as u32)
    } else {
        m.write64(addr, v)
    }
}

/// The value of the given size at `addr`, sign-extended to 64 bits.
pub open spec fn loaded_signed(m: MemView, addr: u64, size: u32) -> u64 {
    sign_extend(loaded(m, addr, size), (8 * size_bytes(size)) as u32)
}

/// One access: `opc` 0 stores, 1 loads, 2 loads sign-extended to 64 bits and 3 to 32; a prefetch
/// or an unallocated combination does nothing.
pub open spec fn accessed(s: MachineView, size: u32, opc: u32, addr: u64, rt: u32) -> MachineView {
    if opc == 0 {
        MachineView {
            cpu: s.cpu.advanced(),
            mem: stored(s.mem, addr, size, s.cpu.reg(rt)),
        }
    } else {
        let cpu = if opc == 1 {
            s.cpu.with_reg(rt, loaded(s.mem, addr, size))
        } else if opc == 2 && size < 3 {
            s.cpu.with_reg(rt, loaded_signed(s.mem, addr, size))
        } else if opc == 3 && size < 2 {
            s.cpu.with_reg(rt, low_bits(loaded_signed(s.mem, addr, size), false))
        } else {
            s.cpu
        };
        MachineView { cpu: cpu.advanced(), mem: s.mem }
    }
}

/// LDR and STR with an unsigned offset.
pub open spec fn ldst_unsigned(s: MachineView, inst: u32) -> MachineView {
    let size = (inst >> 30) & 3;
    let offset = (((inst >> 10) & 0xFFF) * size_bytes(size)) as u64;
    let addr = s.cpu.reg_sp(rn(inst)).wrapping_add(offset);
    accessed(s, size, (inst >> 22) & 3, addr, rd(inst))
}

/// The address of an indexed access and the processor after the index update: unscaled (0), post-
/// indexed (1) or pre-indexed (3).
pub open spec fn indexed(c: CpuView, n: u32, offset: u64, mode: u32) -> (u64, CpuView) {
    let base = c.reg_sp(n);
    let moved = base.wrapping_add(offset);
    if mode == 0 {
        (moved, c)
    } else if mode == 1 {
        (base, c.with_reg_sp(n, moved))
    } else {
        (moved, c.with_reg_sp(n, moved))
    }
}

/// LDR and STR, unscaled, post-indexed or pre-indexed.
pub open spec fn ldst_imm9(s: MachineView, inst: u32) -> Result<MachineView, Fault> {
    let idx_type = (inst >> 10) & 3;
    let imm9 = sign_extend(((inst >> 12) & 0x1FF) as u64, 9);
    if idx_type == 2 {
        Err(Fault::ReservedIndex { idx_type })
    } else {
        let (addr, cpu) = indexed(s.cpu, rn(inst), imm9, idx_type);
        Ok(
            accessed(
                MachineView { cpu, mem: s.mem },
                (inst >> 30) & 3,
                (inst >> 22) & 3,
                addr,
                rd(inst),
            ),
        )
    }
}

/// LDR and STR with a register offset.
pub open spec fn ldst_reg_off(s: MachineView, inst: u32) -> MachineView {
    let size = (inst >> 30) & 3;
    let option = (inst >> 13) & 7;
    let index = s.cpu.reg(rm(inst));
    let extended = if option == 2 {
        index % 0x1_0000_0000
    } else if option == 6 {
        sign_extend(index % 0x1_0000_0000, 32)
    } else {
        index
    };
    let offset = if (inst >> 12) & 1 != 0 {
        extended << size
    } else {
        extended
    };
    let addr = s.cpu.reg_sp(rn(inst)).wrapping_add(offset);
    accessed(s, size, (inst >> 22) & 3, addr, rd(inst))
}

/// The index mode of a pair access: post-indexed (1), offset (2), pre-indexed (3).
pub open spec fn pair_mode(pair_type: u32) -> u32 {
    if pair_type == 2 {
        0
    } else {
        pair_type
    }
}

/// The two halves of LDP, LDPSW and STP. A store of signed words is not allocated and does
/// nothing.
pub open spec fn pair_accessed(s: MachineView, opc: u32, load: bool, addr: u64, rt: u32, rt2: u32) ->
    MachineView {
    let size: u32 = if opc == 2 {
        3
    } else {
        2
    };
    let second = addr.wrapping_add(size_bytes(size));
    if load {
        let (v1, v2) = if opc == 1 {
            (loaded_signed(s.mem, addr, size), loaded_signed(s.mem, second, size))
        } else {
            (loaded(s.mem, addr, size), loaded(s.mem, second, size))
        };
        MachineView { cpu: s.cpu.with_reg(rt, v1).with_reg(rt2, v2).advanced(), mem: s.mem }
    } else if opc == 1 {
        MachineView { cpu: s.cpu.advanced(), mem: s.mem }
    } else {
        let first = stored(s.mem, addr, size, s.cpu.reg(rt));
        MachineView {
            cpu: s.cpu.advanced(),
            mem: stored(first, second, size, s.cpu.reg(rt2)),
        }
    }
}

/// LDP, LDPSW and STP.
pub open spec fn ldst_pair(s: MachineView, inst: u32) -> Result<MachineView, Fault> {
    let opc = (inst >> 30) & 3;
    let pair_type = (inst >> 23) & 7;
    let scale: u64 = if opc == 2 {
        8
    } else {
        4
    };
    let offset = sign_extend(((inst >> 15) & 0x7F) as u64, 7).wrapping_mul(scale);
    if opc == 3 {
        Err(Fault::ReservedPair { opc })
    } else if pair_type == 0 || pair_type > 3 {
        Err(Fault::ReservedPairType { pair_type })
    } else {
        let (addr, cpu) = indexed(s.cpu, rn(inst), offset, pair_mode(pair_type));
        Ok(
            pair_accessed(
                MachineView { cpu, mem: s.mem },
                opc,
                (inst >> 22) & 1 != 0,
                addr,
                rd(inst),
                (inst >> 10) & 0x1F,
            ),
        )
    }
}

/// LDR and LDRSW from an address relative to the program counter.
pub open spec fn ldr_literal(s: MachineView, inst: u32) -> MachineView {
    let opc = (inst >> 30) & 3;
    let addr = s.cpu.pc.wrapping_add(offset19(inst).wrapping_mul(4));
    let cpu = if opc == 0 {
        s.cpu.with_reg(rd(inst), loaded(s.mem, addr, 2))
    } else if opc == 1 {
        s.cpu.with_reg(rd(inst), loaded(s.mem, addr, 3))
    } else if opc == 2 {
        s.cpu.with_reg(rd(inst), loaded_signed(s.mem, addr, 2))
    } else {
        s.cpu
    };
    MachineView { cpu: cpu.advanced(), mem: s.mem }
}

/// Loads and stores.
pub open spec fn load_store(s: MachineView, inst: u32) -> Result<MachineView, Fault> {
    let op1 = (inst >> 27) & 7;
    let v = (inst >> 26) & 1;
    if op1 == 5 && v == 0 {
        ldst_pair(s, inst)
    } else if op1 == 5 && v == 1 {
        ldst_pair_simd(s, inst)
    } else if op1 == 7 && v == 0 {
        if (inst >> 24) & 1 == 1 {
            Ok(ldst_unsigned(s, inst))
        } else if (inst >> 21) & 1 == 1 {
            Ok(ldst_reg_off(s, inst))
        } else {
            ldst_imm9(s, inst)
        }
    } else if op1 == 7 && v == 1 {
        if (inst >> 24) & 1 == 1 {
            Ok(ldst_simd_unsigned(s, inst))
        } else {
            ldst_simd_imm9(s, inst)
        }
    } else if op1 == 3 && v == 0 {
        Ok(ldr_literal(s, inst))
    } else if op1 == 3 && v == 1 {
        Ok(ldr_simd_literal(s, inst))
    } else {
        Err(Fault::UnhandledLoadStore { op1, v, inst })
    }
}

pub fn exec_load_store(c: &mut Cpu, m: &mut Mem, inst: u32) -> (r: Result<(), Fault>)
    requires
        old(m).wf(),
    ensures
        final(m).wf(),
        machine_outcome(
            r,
            load_store((MachineView { cpu: old(c)@, mem: old(m)@ }), inst),
            (MachineView { cpu: old(c)@, mem: old(m)@ }),
            (MachineView { cpu: final(c)@, mem: final(m)@ }),
        ),
{
    let op1: u32 = (inst >> 27) & 7;
    let v: u32 = (inst >> 26) & 1;
    if op1 == 5 && v == 0 {
        return exec_ldst_pair(c, m, inst);
    }
    if op1 == 5 && v == 1 {
        return exec_ldst_pair_simd(c, m, inst);
    }
    if op1 == 7 && v == 0 {
        if (inst >> 24) & 1 == 1 {
            exec_ldst_unsigned(c, m, inst);
            return Ok(());
        }
        if (inst >> 21) & 1 == 1 {
            exec_ldst_reg_off(c, m, inst);
            return Ok(());
        }
        return exec_ldst_imm9(c, m, inst);
    }
    if op1 == 7 && v == 1 {
        if (inst >> 24) & 1 == 1 {
            exec_ldst_simd_unsigned(c, m, inst);
            return Ok(());
        }
        return exec_ldst_simd_imm9(c, m, inst);
    }
    if op1 == 3 && v == 0 {
        exec_ldr_literal(c, m, inst);
        return Ok(());
    }
    if op1 == 3 && v == 1 {
        exec_ldr_simd_literal(c, m, inst);
        return Ok(());
    }
    Err(Fault::UnhandledLoadStore { op1, v, inst })
}

fn bytes_of_size(size: u32) -> (r: u64)
    ensures
        r == size_bytes(size),
{
    match size {
        0 => 1,
        1 => 2,
        2 => 4,
        _ => 8,
    }
}

pub fn load(m: &Mem, addr: u64, size: u32) -> (r: u64)
    requires
        m.wf(),
    ensures
        r == loaded(m@, addr, size),
{
    match size {
        0 => m.read8(addr) as u64,
        1 => m.read16(addr) as u64,
        2 => m.read32(addr) as u64,
        _ => m.read64(addr),
    }
}

fn load_signed(m: &Mem, addr: u64, size: u32) -> (r: u64)
    requires
        m.wf(),
    ensures
        r == loaded_signed(m@, addr, size),
{
    let bits: u32 = (8 * bytes_of_size(size)) as u32;
    sign_extend(load(m, addr, size), bits)
}

pub fn store(m: &mut Mem, addr: u64, size: u32, v: u64)
    requires
        old(m).wf(),
    ensures
        final(m).wf(),
        final(m)@ == stored(old(m)@, addr, size, v),
{
    match size {
        0 => m.write8(addr, v as u8),
        1 => m.write16(addr, v as u16),
        2 => m.write32(addr, v as u32),
        _ => m.write64(addr, v),
    }
}

fn do_load_store(c: &mut Cpu, m: &mut Mem, size: u32, opc: u32, addr: u64, rt: u32)
    requires
        old(m).wf(),
    ensures
        final(m).wf(),
        (MachineView { cpu: final(c)@, mem: final(m)@ }) == accessed(
            (MachineView { cpu: old(c)@, mem: old(m)@ }),
            size,
            opc,
            addr,
            rt,
        ),
{
    if opc == 0 {
        let v: u64 = c.reg(rt);
        store(m, addr, size, v);
    } else if opc == 1 {
        let v: u64 = load(m, addr, size);
        c.set_reg(rt, v);
    } else if opc == 2 && size < 3 {
        let v: u64 = load_signed(m, addr, size);
        c.set_reg(rt, v);
    } else if opc == 3 && size < 2 {
        let v: u64 = load_signed(m, addr, size);
        c.set_reg(rt, low(v, false));
    }
    c.advance();
}

fn exec_ldst_unsigned(c: &mut Cpu, m: &mut Mem, inst: u32)
    requires
        old(m).wf(),
    ensures
        final(m).wf(),
        (MachineView { cpu: final(c)@, mem: final(m)@ }) == ldst_unsigned(
            (MachineView { cpu: old(c)@, mem: old(m)@ }),
            inst,
        ),
{
    let size: u32 = (inst >> 30) & 3;
    let imm12: u64 = ((inst >> 10) & 0xFFF) as u64;
    let bytes: u64 = bytes_of_size(size);
    assert(imm12 * bytes <= 0xFFF * 8) by (nonlinear_arith)
        requires
            imm12 <= 0xFFF,
            bytes <= 8,
    ;
    let offset: u64 = imm12 * bytes;
    let addr: u64 = c.reg_sp(rn(inst)).wrapping_add(offset);
    do_load_store(c, m, size, (inst >> 22) & 3, addr, rd(inst));
}

pub fn apply_index(c: &mut Cpu, n: u32, offset: u64, mode: u32) -> (addr: u64)
    requires
        n <= 31,
    ensures
        (addr, final(c)@) == indexed(old(c)@, n, offset, mode),
{
    let base: u64 = c.reg_sp(n);
    let moved: u64 = base.wrapping_add(offset);
    if mode == 0 {
        moved
    } else if mode == 1 {
        c.set_reg_sp(n, moved);
        base
    } else {
        c.set_reg_sp(n, moved);
        moved
    }
}

fn exec_ldst_imm9(c: &mut Cpu, m: &mut Mem, inst: u32) -> (r: Result<(), Fault>)
    requires
        old(m).wf(),
    ensures
        final(m).wf(),
        machine_outcome(
            r,
            ldst_imm9((MachineView { cpu: old(c)@, mem: old(m)@ }), inst),
            (MachineView { cpu: old(c)@, mem: old(m)@ }),
            (MachineView { cpu: final(c)@, mem: final(m)@ }),
        ),
{
    let idx_type: u32 = (inst >> 10) & 3;
    let imm9: u64 = sign_extend(((inst >> 12) & 0x1FF) as u64, 9);
    if idx_type == 2 {
        return Err(Fault::ReservedIndex { idx_type });
    }
    let addr: u64 = apply_index(c, rn(inst), imm9, idx_type);
    do_load_store(c, m, (inst >> 30) & 3, (inst >> 22) & 3, addr, rd(inst));
    Ok(())
}

fn exec_ldst_reg_off(c: &mut Cpu, m: &mut Mem, inst: u32)
    requires
        old(m).wf(),
    ensures
        final(m).wf(),
        (MachineView { cpu: final(c)@, mem: final(m)@ }) == ldst_reg_off(
            (MachineView { cpu: old(c)@, mem: old(m)@ }),
            inst,
        ),
{
    let size: u32 = (inst >> 30) & 3;
    let option: u32 = (inst >> 13) & 7;
    let index: u64 = c.reg(rm(inst));
    let extended: u64 = if option == 2 {
        index % 0x1_0000_0000
    } else if option == 6 {
        sign_extend(index % 0x1_0000_0000, 32)
    } else {
        index
    };
    let offset: u64 = if (inst >> 12) & 1 != 0 {
        extended << size
    } else {
        extended
    };
    let addr: u64 = c.reg_sp(rn(inst)).wrapping_add(offset);
    do_load_store(c, m, size, (inst >> 22) & 3, addr, rd(inst));
}

fn access_pair(c: &mut Cpu, m: &mut Mem, opc: u32, is_load: bool, addr: u64, rt: u32, rt2: u32)
    requires
        old(m).wf(),
    ensures
        final(m).wf(),
        (MachineView { cpu: final(c)@, mem: final(m)@ }) == pair_accessed(
            (MachineView { cpu: old(c)@, mem: old(m)@ }),
            opc,
            is_load,
            addr,
            rt,
            rt2,
        ),
{
    let size: u32 = if opc == 2 {
        3
    } else {
        2
    };
    let second: u64 = addr.wrapping_add(bytes_of_size(size));
    if is_load {
        let v1: u64 = if opc == 1 {
            load_signed(m, addr, size)
        } else {
            load(m, addr, size)
        };
        let v2: u64 = if opc == 1 {
            load_signed(m, second, size)
        } else {
            load(m, second, size)
        };
        c.set_reg(rt, v1);
        c.set_reg(rt2, v2);
    } else if opc != 1 {
        let v1: u64 = c.reg(rt);
        let v2: u64 = c.reg(rt2);
        store(m, addr, size, v1);
        store(m, second, size, v2);
    }
    c.advance();
}

fn exec_ldst_pair(c: &mut Cpu, m: &mut Mem, inst: u32) -> (r: Result<(), Fault>)
    requires
        old(m).wf(),
    ensures
        final(m).wf(),
        machine_outcome(
            r,
            ldst_pair((MachineView { cpu: old(c)@, mem: old(m)@ }), inst),
            (MachineView { cpu: old(c)@, mem: old(m)@ }),
            (MachineView { cpu: final(c)@, mem: final(m)@ }),
        ),
{
    let opc: u32 = (inst >> 30) & 3;
    let pair_type: u32 = (inst >> 23) & 7;
    if opc == 3 {
        return Err(Fault::ReservedPair { opc });
    }
    if pair_type == 0 || pair_type > 3 {
        return Err(Fault::ReservedPairType { pair_type });
    }
    let scale: u64 = if opc == 2 {
        8
    } else {
        4
    };
    let offset: u64 = sign_extend(((inst >> 15) & 0x7F) as u64, 7).wrapping_mul(scale);
    let mode: u32 = if pair_type == 2 {
        0
    } else {
        pair_type
    };
    let addr: u64 = apply_index(c, rn(inst), offset, mode);
    access_pair(c, m, opc, (inst >> 22) & 1 != 0, addr, rd(inst), (inst >> 10) & 0x1F);
    Ok(())
}

fn exec_ldr_literal(c: &mut Cpu, m: &mut Mem, inst: u32)
    requires
        old(m).wf(),
    ensures
        final(m).wf(),
        (MachineView { cpu: final(c)@, mem: final(m)@ }) == ldr_literal(
            (MachineView { cpu: old(c)@, mem: old(m)@ }),
            inst,
        ),
{
    let opc: u32 = (inst >> 30) & 3;
    let words: u64 = sign_extend(((inst >> 5) & 0x7FFFF) as u64, 19);
    let addr: u64 = c.pc.wrapping_add(words.wrapping_mul(4));
    if opc == 0 {
        let v: u64 = load(m, addr, 2);
        c.set_reg(rd(inst), v);
    } else if opc == 1 {
        let v: u64 = load(m, addr, 3);
        c.set_reg(rd(inst), v);
    } else if opc == 2 {
        let v: u64 = load_signed(m, addr, 2);
        c.set_reg(rd(inst), v);
    }
    c.advance();
}

} // verus!
