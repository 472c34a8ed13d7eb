//! Data processing with an immediate operand.
use crate::fpemu::cpu::{Cpu, CpuView};
use crate::fpemu::decode::{rd, rm, rn, sf};
use crate::fpemu::fault::{cpu_outcome, Fault};
use crate::fpemu::helpers::{
    add_flagged, add_plain, bit_masks, decode_bit_masks, flagged_sum, low, low_bits, plain_sum,
    sign_extend,
};
use vstd::prelude::*;

verus! {

broadcast use crate::bits::lemma_and_le_u32;

/// ADR and ADRP: the program counter, or its page, plus a 21-bit offset.
pub open spec fn pcrel(c: CpuView, inst: u32) -> CpuView {
    let imm = sign_extend(((((inst >> 5) & 0x7FFFF) << 2) | ((inst >> 29) & 0x3)) as u64, 21);
    let value = if sf(inst) {
        (c.pc & !0xFFFu64).wrapping_add(imm << 12)
    } else {
        c.pc.wrapping_add(imm)
    };
    c.with_reg(rd(inst), value).advanced()
}

/// ADD and SUB with a 12-bit immediate, with or without flags.
pub open spec fn add_sub_imm(c: CpuView, inst: u32) -> CpuView {
    let imm12 = ((inst >> 10) & 0xFFF) as u64;
    let imm = if (inst >> 22) & 3 == 1 {
        imm12 << 12
    } else {
        imm12
    };
    let subtract = (inst >> 30) & 1 != 0;
    let a = c.reg_sp(rn(inst));
    if (inst >> 29) & 1 != 0 {
        let f = flagged_sum(a, imm, subtract, sf(inst));
        c.with_flags(f.n, f.z, f.c, f.v).with_reg(rd(inst), f.value).advanced()
    } else {
        c.with_reg_sp(rd(inst), plain_sum(a, imm, subtract, sf(inst))).advanced()
    }
}

/// Whether the top bit of a 64- or 32-bit value is set.
pub open spec fn is_negative(v: u64, is64: bool) -> bool {
    if is64 {
        v >= 0x8000_0000_0000_0000
    } else {
        v >= 0x8000_0000
    }
}

/// AND, ORR, EOR and ANDS: `opc` picks the operation on `a` and `b`.
pub open spec fn logical(opc: u32, a: u64, b: u64) -> u64 {
    if opc == 1 {
        a | b
    } else if opc == 2 {
        a ^ b
    } else {
        a & b
    }
}

pub open spec fn log_imm(c: CpuView, inst: u32) -> CpuView {
    let opc = (inst >> 29) & 0x3;
    let (wmask, _) = bit_masks(
        (inst >> 22) & 1,
        (inst >> 10) & 0x3F,
        (inst >> 16) & 0x3F,
        sf(inst),
    );
    let a = low_bits(c.reg(rn(inst)), sf(inst));
    let result = low_bits(logical(opc, a, wmask), sf(inst));
    if opc == 3 {
        c.with_flags(is_negative(result, sf(inst)), result == 0, false, false).with_reg(
            rd(inst),
            result,
        ).advanced()
    } else {
        c.with_reg_sp(rd(inst), result).advanced()
    }
}

/// MOVN, MOVZ and MOVK.
pub open spec fn move_wide(c: CpuView, inst: u32) -> Result<CpuView, Fault> {
    let opc = (inst >> 29) & 0x3;
    let shift = ((inst >> 21) & 0x3) * 16;
    let imm16 = ((inst >> 5) & 0xFFFF) as u64;
    if opc == 0 {
        Ok(c.with_reg(rd(inst), low_bits(!(imm16 << shift), sf(inst))).advanced())
    } else if opc == 2 {
        Ok(c.with_reg(rd(inst), imm16 << shift).advanced())
    } else if opc == 3 {
        let kept = c.reg(rd(inst)) & !(0xFFFFu64 << shift);
        Ok(c.with_reg(rd(inst), kept | (imm16 << shift)).advanced())
    } else {
        Err(Fault::ReservedMoveWide { opc })
    }
}

/// The register width in bits.
pub open spec fn width(is64: bool) -> u32 {
    if is64 {
        64
    } else {
        32
    }
}

/// `src` rotated right by `r` within the register width.
pub open spec fn rotated(src: u64, r: u32, is64: bool) -> u64 {
    if r == 0 {
        src
    } else {
        low_bits((src >> r) | (src << ((width(is64) - r) as u32)), is64)
    }
}

/// SBFM, BFM and UBFM.
pub open spec fn bitfield(c: CpuView, inst: u32) -> Result<CpuView, Fault> {
    let is64 = sf(inst);
    let opc = (inst >> 29) & 0x3;
    let immr = (inst >> 16) & 0x3F;
    let imms = (inst >> 10) & 0x3F;
    let (wmask, tmask) = bit_masks((inst >> 22) & 1, imms, immr, is64);
    let src = low_bits(c.reg(rn(inst)), is64);
    let rot = rotated(src, immr, is64);
    if immr > width(is64) {
        Err(Fault::ReservedPosition { inst })
    } else if opc == 0 {
        let top = if (src >> imms) & 1 != 0 {
            low_bits(!0u64, is64)
        } else {
            0
        };
        let result = (top & !tmask) | ((rot & wmask) & tmask);
        Ok(c.with_reg(rd(inst), low_bits(result, is64)).advanced())
    } else if opc == 1 {
        let dst = low_bits(c.reg(rd(inst)), is64);
        let bot = (dst & !wmask) | (rot & wmask);
        let result = (dst & !tmask) | (bot & tmask);
        Ok(c.with_reg(rd(inst), low_bits(result, is64)).advanced())
    } else if opc == 2 {
        Ok(c.with_reg(rd(inst), low_bits((rot & wmask) & tmask, is64)).advanced())
    } else {
        Err(Fault::ReservedBitfield { opc })
    }
}

/// EXTR: the register-wide window at bit `lsb` of two registers laid end to end.
pub open spec fn extract(c: CpuView, inst: u32) -> Result<CpuView, Fault> {
    let is64 = sf(inst);
    let lsb = (inst >> 10) & 0x3F;
    let hi = low_bits(c.reg(rn(inst)), is64);
    let lo = low_bits(c.reg(rm(inst)), is64);
    if lsb > width(is64) {
        Err(Fault::ReservedPosition { inst })
    } else {
        let result = if lsb == 0 {
            lo
        } else {
            low_bits((hi << ((width(is64) - lsb) as u32)) | (lo >> lsb), is64)
        };
        Ok(c.with_reg(rd(inst), result).advanced())
    }
}

/// Data processing with an immediate.
pub open spec fn dpimm(c: CpuView, inst: u32) -> Result<CpuView, Fault> {
    let op0 = (inst >> 23) & 0x7;
    if op0 == 0 || op0 == 1 {
        Ok(pcrel(c, inst))
    } else if op0 == 2 {
        Ok(add_sub_imm(c, inst))
    } else if op0 == 4 {
        Ok(log_imm(c, inst))
    } else if op0 == 5 {
        move_wide(c, inst)
    } else if op0 == 6 {
        bitfield(c, inst)
    } else if op0 == 7 {
        extract(c, inst)
    } else {
        Err(Fault::UnhandledDpImm { op0, inst })
    }
}

pub fn exec_dpimm(c: &mut Cpu, inst: u32) -> (r: Result<(), Fault>)
    ensures
        cpu_outcome(r, dpimm(old(c)@, inst), old(c)@, final(c)@),
{
    let op0: u32 = (inst >> 23) & 0x7;
    match op0 {
        0 | 1 => {
            exec_pcrel(c, inst);
            Ok(())
        },
        2 => {
            exec_add_sub_imm(c, inst);
            Ok(())
        },
        4 => {
            exec_log_imm(c, inst);
            Ok(())
        },
        5 => exec_move_wide(c, inst),
        6 => exec_bitfield(c, inst),
        7 => exec_extract(c, inst),
        _ => Err(Fault::UnhandledDpImm { op0, inst }),
    }
}

fn exec_pcrel(c: &mut Cpu, inst: u32)
    ensures
        final(c)@ == pcrel(old(c)@, inst),
{
    let immhi: u32 = (inst >> 5) & 0x7FFFF;
    let immlo: u32 = (inst >> 29) & 0x3;
    let imm: u64 = sign_extend(((immhi << 2) | immlo) as u64, 21);
    let value: u64 = if sf(inst) {
        (c.pc & !0xFFFu64).wrapping_add(imm << 12)
    } else {
        c.pc.wrapping_add(imm)
    };
    c.set_reg(rd(inst), value);
    c.advance();
}

fn exec_add_sub_imm(c: &mut Cpu, inst: u32)
    ensures
        final(c)@ == add_sub_imm(old(c)@, inst),
{
    let imm12: u64 = ((inst >> 10) & 0xFFF) as u64;
    let imm: u64 = if (inst >> 22) & 3 == 1 {
        imm12 << 12
    } else {
        imm12
    };
    let subtract = (inst >> 30) & 1 != 0;
    let a: u64 = c.reg_sp(rn(inst));
    if (inst >> 29) & 1 != 0 {
        let f = add_flagged(a, imm, subtract, sf(inst));
        c.set_flags(f.n, f.z, f.c, f.v);
        c.set_reg(rd(inst), f.value);
    } else {
        let value: u64 = add_plain(a, imm, subtract, sf(inst));
        c.set_reg_sp(rd(inst), value);
    }
    c.advance();
}

pub fn combine(opc: u32, a: u64, b: u64) -> (r: u64)
    ensures
        r == logical(opc, a, b),
{
    if opc == 1 {
        a | b
    } else if opc == 2 {
        a ^ b
    } else {
        a & b
    }
}

pub fn negative(v: u64, is64: bool) -> (r: bool)
    ensures
        r == is_negative(v, is64),
{
    if is64 {
        v >= 0x8000_0000_0000_0000
    } else {
        v >= 0x8000_0000
    }
}

fn exec_log_imm(c: &mut Cpu, inst: u32)
    ensures
        final(c)@ == log_imm(old(c)@, inst),
{
    let is64 = sf(inst);
    let opc: u32 = (inst >> 29) & 0x3;
    let (wmask, _tmask) = decode_bit_masks(
        (inst >> 22) & 1,
        (inst >> 10) & 0x3F,
        (inst >> 16) & 0x3F,
        is64,
    );
    let a: u64 = low(c.reg(rn(inst)), is64);
    let result: u64 = low(combine(opc, a, wmask), is64);
    if opc == 3 {
        c.set_flags(negative(result, is64), result == 0, false, false);
        c.set_reg(rd(inst), result);
    } else {
        c.set_reg_sp(rd(inst), result);
    }
    c.advance();
}

fn exec_move_wide(c: &mut Cpu, inst: u32) -> (r: Result<(), Fault>)
    ensures
        cpu_outcome(r, move_wide(old(c)@, inst), old(c)@, final(c)@),
{
    let opc: u32 = (inst >> 29) & 0x3;
    let shift: u32 = ((inst >> 21) & 0x3) * 16;
    let imm16: u64 = ((inst >> 5) & 0xFFFF) as u64;
    if opc == 0 {
        c.set_reg(rd(inst), low(!(imm16 << shift), sf(inst)));
    } else if opc == 2 {
        c.set_reg(rd(inst), imm16 << shift);
    } else if opc == 3 {
        let kept: u64 = c.reg(rd(inst)) & !(0xFFFFu64 << shift);
        c.set_reg(rd(inst), kept | (imm16 << shift));
    } else {
        return Err(Fault::ReservedMoveWide { opc });
    }
    c.advance();
    Ok(())
}

fn rotate(src: u64, r: u32, is64: bool) -> (out: u64)
    requires
        r <= width(is64),
        r < 64,
    ensures
        out == rotated(src, r, is64),
{
    let bits: u32 = if is64 {
        64
    } else {
        32
    };
    if r == 0 {
        src
    } else {
        low((src >> r) | (src << (bits - r)), is64)
    }
}

fn exec_bitfield(c: &mut Cpu, inst: u32) -> (r: Result<(), Fault>)
    ensures
        cpu_outcome(r, bitfield(old(c)@, inst), old(c)@, final(c)@),
{
    let is64 = sf(inst);
    let opc: u32 = (inst >> 29) & 0x3;
    let immr: u32 = (inst >> 16) & 0x3F;
    let imms: u32 = (inst >> 10) & 0x3F;
    if !is64 && immr > 32 {
        return Err(Fault::ReservedPosition { inst });
    }
    let (wmask, tmask) = decode_bit_masks((inst >> 22) & 1, imms, immr, is64);
    let src: u64 = low(c.reg(rn(inst)), is64);
    let rot: u64 = rotate(src, immr, is64);
    let result: u64 = if opc == 0 {
        let top: u64 = if (src >> imms) & 1 != 0 {
            low(!0u64, is64)
        } else {
            0
        };
        (top & !tmask) | ((rot & wmask) & tmask)
    } else if opc == 1 {
        let dst: u64 = low(c.reg(rd(inst)), is64);
        let bot: u64 = (dst & !wmask) | (rot & wmask);
        (dst & !tmask) | (bot & tmask)
    } else if opc == 2 {
        (rot & wmask) & tmask
    } else {
        return Err(Fault::ReservedBitfield { opc });
    };
    c.set_reg(rd(inst), low(result, is64));
    c.advance();
    Ok(())
}

fn exec_extract(c: &mut Cpu, inst: u32) -> (r: Result<(), Fault>)
    ensures
        cpu_outcome(r, extract(old(c)@, inst), old(c)@, final(c)@),
{
    let is64 = sf(inst);
    let lsb: u32 = (inst >> 10) & 0x3F;
    if !is64 && lsb > 32 {
        return Err(Fault::ReservedPosition { inst });
    }
    let bits: u32 = if is64 {
        64
    } else {
        32
    };
    let hi: u64 = low(c.reg(rn(inst)), is64);
    let lo: u64 = low(c.reg(rm(inst)), is64);
    let result: u64 = if lsb == 0 {
        lo
    } else {
        low((hi << (bits - lsb)) | (lo >> lsb), is64)
    };
    c.set_reg(rd(inst), result);
    c.advance();
    Ok(())
}

} // verus!
