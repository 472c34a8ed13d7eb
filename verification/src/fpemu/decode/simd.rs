//! Vector and floating-point register instructions.
use crate::fpemu::cpu::{Cpu, CpuView};
use crate::fpemu::decode::{rd, rm, rn};
use crate::fpemu::fault::{cpu_outcome, Fault};
use crate::fpemu::helpers::{ones, vfp_expand_imm32, vfp_expand_imm64};
use crate::fpemu::lanes::{
    is_lane_width, join, join_vector, joined, lanes, split, split_vector, vector_joined,
    vector_lanes,
};
use vstd::prelude::*;

verus! {

broadcast use crate::bits::lemma_and_le_u32;

/// The lane width that the low bits of an index field name: the lowest set bit picks 8, 16, 32 or
/// 64; 0 when none of the low four is set.
pub open spec fn lane_width(imm5: u32) -> int {
    if imm5 % 2 == 1 {
        8
    } else if imm5 % 4 == 2 {
        16
    } else if imm5 % 8 == 4 {
        32
    } else if imm5 % 16 == 8 {
        64
    } else {
        0
    }
}

/// The lane number in an index field: what stands above the bit that names the width.
pub open spec fn lane_index(imm5: u32) -> int {
    if imm5 % 2 == 1 {
        imm5 as int / 2
    } else if imm5 % 4 == 2 {
        imm5 as int / 4
    } else if imm5 % 8 == 4 {
        imm5 as int / 8
    } else {
        imm5 as int / 16
    }
}

/// 64 bits of `e`-bit lanes that all hold `elem`.
pub open spec fn filled(elem: u64, e: int) -> u64 {
    joined(Seq::new((64int / e) as nat, |i: int| elem), e)
}

/// The high half of a result, which 64-bit vectors clear.
pub open spec fn high_half(inst: u32, hi: u64) -> u64 {
    if (inst >> 30) & 1 != 0 {
        hi
    } else {
        0
    }
}

/// DUP: every lane takes the low bits of a general register.
pub open spec fn dup(c: CpuView, inst: u32) -> CpuView {
    let e = lane_width(rm(inst));
    let half = if e == 0 {
        0
    } else {
        filled(c.reg(rn(inst)) & ones(e as u32), e)
    };
    c.with_vector(rd(inst), half, high_half(inst, half)).advanced()
}

/// UMOV: a general register takes one lane.
pub open spec fn umov(c: CpuView, inst: u32) -> CpuView {
    let e = lane_width(rm(inst));
    let value = if e == 0 {
        0
    } else {
        vector_lanes(c.lo(rn(inst)), c.hi(rn(inst)), e)[lane_index(rm(inst))]
    };
    c.with_reg(rd(inst), value).advanced()
}

/// INS: one lane takes the low bits of a general register.
pub open spec fn ins(c: CpuView, inst: u32) -> CpuView {
    let e = lane_width(rm(inst));
    let (lo, hi) = if e == 0 {
        (c.lo(rd(inst)), c.hi(rd(inst)))
    } else {
        vector_joined(
            vector_lanes(c.lo(rd(inst)), c.hi(rd(inst)), e).update(
                lane_index(rm(inst)),
                c.reg(rn(inst)) & ones(e as u32),
            ),
            e,
        )
    };
    c.with_vector(rd(inst), lo, hi).advanced()
}

/// Every lane shifted left, bits beyond the lane dropped.
pub open spec fn lanes_shifted(v: u64, e: int, shift: u32) -> u64 {
    joined(lanes(v, e).map_values(|x: u64| (x << shift) & ones(e as u32)), e)
}

/// The lane width that a shift field names, or 0.
pub open spec fn shift_width(immh: u32) -> int {
    if immh >= 8 {
        64
    } else if immh >= 4 {
        32
    } else if immh >= 2 {
        16
    } else if immh == 1 {
        8
    } else {
        0
    }
}

/// SHL: lanes shifted left by an immediate.
pub open spec fn shl(c: CpuView, inst: u32) -> CpuView {
    let immh = (inst >> 19) & 0xF;
    let immhb = 8 * immh + ((inst >> 16) & 0x7);
    let e = shift_width(immh);
    if e == 0 {
        c.with_vector(rd(inst), 0, 0).advanced()
    } else {
        let shift = (immhb - e) as u32;
        let lo = lanes_shifted(c.lo(rn(inst)), e, shift);
        let hi = lanes_shifted(c.hi(rn(inst)), e, shift);
        c.with_vector(rd(inst), lo, high_half(inst, hi)).advanced()
    }
}

/// The 8-bit immediate, whose top three and low five bits stand apart.
#[verifier::allow_in_spec]
pub fn split_imm8(inst: u32) -> u32
    returns
        (((inst >> 16) & 0x7) << 5) | ((inst >> 5) & 0x1F),
{
    (((inst >> 16) & 0x7) << 5) | ((inst >> 5) & 0x1F)
}

/// The 64 bits that a modified immediate stands for.
pub open spec fn modified_immediate(imm8: u32, cmode: u32, op: u32) -> u64 {
    let imm = imm8 as u64;
    if cmode <= 7 {
        let elem = imm << ((cmode / 2) * 8);
        filled(
            if op == 1 {
                !elem & 0xFFFF_FFFF
            } else {
                elem
            },
            32,
        )
    } else if cmode <= 9 {
        let elem = imm << ((cmode % 2) * 8);
        filled(
            if op == 1 {
                !elem & 0xFFFF
            } else {
                elem & 0xFFFF
            },
            16,
        )
    } else if cmode <= 13 {
        let elem = if cmode % 2 == 0 {
            (imm << 8) | 0xFF
        } else {
            (imm << 16) | 0xFFFF
        };
        filled(
            if op == 1 {
                !elem & 0xFFFF_FFFF
            } else {
                elem
            },
            32,
        )
    } else if cmode == 14 {
        if op == 0 {
            filled(imm, 8)
        } else {
            joined(
                Seq::new(
                    8,
                    |i: int|
                        if (imm8 >> i) & 1 != 0 {
                            0xFFu64
                        } else {
                            0u64
                        },
                ),
                8,
            )
        }
    } else if op == 0 {
        filled(vfp_expand_imm32(imm8) as u64, 32)
    } else {
        vfp_expand_imm64(imm8)
    }
}

/// MOVI, MVNI and FMOV of a vector immediate.
pub open spec fn movi(c: CpuView, inst: u32) -> CpuView {
    let imm64 = modified_immediate(split_imm8(inst), (inst >> 12) & 0xF, (inst >> 29) & 1);
    c.with_vector(rd(inst), imm64, high_half(inst, imm64)).advanced()
}

/// The 64 bits made of the low halves of a vector's lanes of width `2 * e`.
pub open spec fn narrowed(lo: u64, hi: u64, e: int) -> u64 {
    joined(vector_lanes(lo, hi, 2 * e).map_values(|x: u64| x & ones(e as u32)), e)
}

/// XTN and XTN2: lanes narrowed into the low or the high half.
pub open spec fn xtn(c: CpuView, inst: u32) -> CpuView {
    let size = (inst >> 22) & 3;
    let (lo, hi) = (c.lo(rn(inst)), c.hi(rn(inst)));
    let narrow = if size == 0 {
        narrowed(lo, hi, 8)
    } else if size == 1 {
        narrowed(lo, hi, 16)
    } else if size == 2 {
        narrowed(lo, hi, 32)
    } else {
        0
    };
    if (inst >> 30) & 1 == 0 {
        c.with_vector(rd(inst), narrow, 0).advanced()
    } else {
        c.with_vector(rd(inst), c.lo(rd(inst)), narrow).advanced()
    }
}

/// EXT: 16 bytes out of two vectors laid end to end.
pub open spec fn ext(c: CpuView, inst: u32) -> CpuView {
    let bytes = vector_lanes(c.lo(rn(inst)), c.hi(rn(inst)), 8) + vector_lanes(
        c.lo(rm(inst)),
        c.hi(rm(inst)),
        8,
    );
    let start = ((inst >> 11) & 0xF) as int;
    let (lo, hi) = vector_joined(bytes.subrange(start, start + 16), 8);
    c.with_vector(rd(inst), lo, hi).advanced()
}

/// 64 bits with the order of their lanes reversed.
pub open spec fn lanes_reversed(v: u64, size: u32) -> u64 {
    if size == 0 {
        joined(lanes(v, 8).reverse(), 8)
    } else if size == 1 {
        joined(lanes(v, 16).reverse(), 16)
    } else if size == 2 {
        joined(lanes(v, 32).reverse(), 32)
    } else {
        v
    }
}

/// REV64.
pub open spec fn rev64_vec(c: CpuView, inst: u32) -> CpuView {
    let size = (inst >> 22) & 3;
    let lo = lanes_reversed(c.lo(rn(inst)), size);
    let hi = lanes_reversed(c.hi(rn(inst)), size);
    c.with_vector(rd(inst), lo, high_half(inst, hi)).advanced()
}

/// AND, BIC, ORR, ORN, EOR, BSL, BIT and BIF on 64 bits; `d` is the old destination.
pub open spec fn bitwise(kind: u32, a: u64, b: u64, d: u64) -> u64 {
    if kind == 0 {
        a & b
    } else if kind == 1 {
        a & !b
    } else if kind == 2 {
        a | b
    } else if kind == 3 {
        a | !b
    } else if kind == 4 {
        a ^ b
    } else if kind == 5 {
        (a & d) | (b & !d)
    } else if kind == 6 {
        (a & b) | (d & !b)
    } else {
        (a & !b) | (d & b)
    }
}

/// The lane width of a size field.
pub open spec fn size_width(size: u32) -> int {
    if size == 0 {
        8
    } else if size == 1 {
        16
    } else if size == 2 {
        32
    } else {
        64
    }
}

/// The lanes of `a` and `b` added or subtracted, each modulo its width.
pub open spec fn lanes_summed(a: u64, b: u64, size: u32, subtract: bool) -> u64 {
    let e = size_width(size);
    joined(
        Seq::new(
            (64int / e) as nat,
            |i: int|
                if subtract {
                    lanes(a, e)[i].wrapping_sub(lanes(b, e)[i]) & ones(e as u32)
                } else {
                    lanes(a, e)[i].wrapping_add(lanes(b, e)[i]) & ones(e as u32)
                },
        ),
        e,
    )
}

/// The three-operand vector instructions: bitwise operations, ADD and SUB.
pub open spec fn adv_simd_3same(c: CpuView, inst: u32) -> Result<CpuView, Fault> {
    let u = (inst >> 29) & 1;
    let size = (inst >> 22) & 3;
    let opcode = (inst >> 11) & 0x1F;
    let (a_lo, a_hi) = (c.lo(rn(inst)), c.hi(rn(inst)));
    let (b_lo, b_hi) = (c.lo(rm(inst)), c.hi(rm(inst)));
    if opcode == 3 {
        let kind = (4 * u + size) as u32;
        let lo = bitwise(kind, a_lo, b_lo, c.lo(rd(inst)));
        let hi = bitwise(kind, a_hi, b_hi, c.hi(rd(inst)));
        Ok(c.with_vector(rd(inst), lo, high_half(inst, hi)).advanced())
    } else if opcode == 16 {
        let lo = lanes_summed(a_lo, b_lo, size, u == 1);
        let hi = lanes_summed(a_hi, b_hi, size, u == 1);
        Ok(c.with_vector(rd(inst), lo, high_half(inst, hi)).advanced())
    } else {
        Err(Fault::UnhandledSimd3Same { opcode, u, inst })
    }
}

/// The moves between general and vector registers, by their fixed bits.
pub open spec fn fmov(c: CpuView, inst: u32) -> Option<CpuView> {
    let fixed = inst & 0xFFFF_FC00;
    if fixed == 0x9E67_0000 {
        Some(c.with_vector(rd(inst), c.reg(rn(inst)), 0).advanced())
    } else if fixed == 0x9E66_0000 {
        Some(c.with_reg(rd(inst), c.lo(rn(inst))).advanced())
    } else if fixed == 0x9EAF_0000 {
        Some(c.with_vector(rd(inst), c.lo(rd(inst)), c.reg(rn(inst))).advanced())
    } else if fixed == 0x9EAE_0000 {
        Some(c.with_reg(rd(inst), c.hi(rn(inst))).advanced())
    } else if fixed == 0x1E27_0000 {
        Some(c.with_vector(rd(inst), c.reg(rn(inst)) % 0x1_0000_0000, 0).advanced())
    } else if fixed == 0x1E26_0000 {
        Some(c.with_reg(rd(inst), c.lo(rn(inst)) % 0x1_0000_0000).advanced())
    } else {
        None
    }
}

/// Vector and floating-point register instructions.
pub open spec fn simd(c: CpuView, inst: u32) -> Result<CpuView, Fault> {
    if fmov(c, inst) is Some {
        Ok(fmov(c, inst)->Some_0)
    } else if inst & 0xBFE0_FC00 == 0x0E00_0C00 {
        Ok(dup(c, inst))
    } else if inst & 0xBFE0_FC00 == 0x0E00_3C00 {
        Ok(umov(c, inst))
    } else if inst & 0xBFE0_FC00 == 0x0E00_1C00 {
        Ok(ins(c, inst))
    } else if inst & 0xBF80_FC00 == 0x0F00_5400 {
        Ok(shl(c, inst))
    } else if inst & 0x9FF8_0400 == 0x0F00_0400 {
        Ok(movi(c, inst))
    } else if inst & 0xBF3F_FC00 == 0x0E21_2800 {
        Ok(xtn(c, inst))
    } else if inst & 0xBFE0_8400 == 0x2E00_0000 {
        Ok(ext(c, inst))
    } else if inst & 0xBF3F_FC00 == 0x0E20_0800 {
        Ok(rev64_vec(c, inst))
    } else if inst & 0x9F20_0400 == 0x0E20_0400 {
        adv_simd_3same(c, inst)
    } else if inst & 0x9F01_FC00 == 0x1E20_1000 {
        Ok(
            c.with_vector(
                rd(inst),
                vfp_expand_imm64((inst >> 13) & 0xFF),
                0,
            ).advanced(),
        )
    } else {
        Err(Fault::UnhandledSimd { inst })
    }
}

pub fn exec_simd(c: &mut Cpu, inst: u32) -> (r: Result<(), Fault>)
    ensures
        cpu_outcome(r, simd(old(c)@, inst), old(c)@, final(c)@),
{
    if exec_fmov(c, inst) {
    } else if inst & 0xBFE0_FC00 == 0x0E00_0C00 {
        exec_dup(c, inst);
    } else if inst & 0xBFE0_FC00 == 0x0E00_3C00 {
        exec_umov(c, inst);
    } else if inst & 0xBFE0_FC00 == 0x0E00_1C00 {
        exec_ins(c, inst);
    } else if inst & 0xBF80_FC00 == 0x0F00_5400 {
        exec_shl(c, inst);
    } else if inst & 0x9FF8_0400 == 0x0F00_0400 {
        exec_movi(c, inst);
    } else if inst & 0xBF3F_FC00 == 0x0E21_2800 {
        exec_xtn(c, inst);
    } else if inst & 0xBFE0_8400 == 0x2E00_0000 {
        exec_ext(c, inst);
    } else if inst & 0xBF3F_FC00 == 0x0E20_0800 {
        exec_rev64_vec(c, inst);
    } else if inst & 0x9F20_0400 == 0x0E20_0400 {
        return exec_adv_simd_3same(c, inst);
    } else if inst & 0x9F01_FC00 == 0x1E20_1000 {
        c.set_vector(rd(inst), vfp_expand_imm64((inst >> 13) & 0xFF), 0);
        c.advance();
    } else {
        return Err(Fault::UnhandledSimd { inst });
    }
    Ok(())
}

fn exec_fmov(c: &mut Cpu, inst: u32) -> (moved: bool)
    ensures
        match fmov(old(c)@, inst) {
            Some(state) => moved && final(c)@ == state,
            None => !moved && final(c)@ == old(c)@,
        },
{
    let fixed: u32 = inst & 0xFFFF_FC00;
    if fixed == 0x9E67_0000 {
        let v: u64 = c.reg(rn(inst));
        c.set_vector(rd(inst), v, 0);
    } else if fixed == 0x9E66_0000 {
        let v: u64 = c.lo(rn(inst));
        c.set_reg(rd(inst), v);
    } else if fixed == 0x9EAF_0000 {
        let v: u64 = c.reg(rn(inst));
        let lo: u64 = c.lo(rd(inst));
        c.set_vector(rd(inst), lo, v);
    } else if fixed == 0x9EAE_0000 {
        let v: u64 = c.hi(rn(inst));
        c.set_reg(rd(inst), v);
    } else if fixed == 0x1E27_0000 {
        let v: u64 = c.reg(rn(inst)) % 0x1_0000_0000;
        c.set_vector(rd(inst), v, 0);
    } else if fixed == 0x1E26_0000 {
        let v: u64 = c.lo(rn(inst)) % 0x1_0000_0000;
        c.set_reg(rd(inst), v);
    } else {
        return false;
    }
    c.advance();
    true
}

fn width_of(imm5: u32) -> (r: u32)
    ensures
        r == lane_width(imm5),
{
    if imm5 % 2 == 1 {
        8
    } else if imm5 % 4 == 2 {
        16
    } else if imm5 % 8 == 4 {
        32
    } else if imm5 % 16 == 8 {
        64
    } else {
        0
    }
}

fn index_of(imm5: u32) -> (r: usize)
    requires
        imm5 < 32,
        lane_width(imm5) != 0,
    ensures
        r == lane_index(imm5),
        r < 128int / lane_width(imm5),
{
    if imm5 % 2 == 1 {
        (imm5 / 2) as usize
    } else if imm5 % 4 == 2 {
        (imm5 / 4) as usize
    } else if imm5 % 8 == 4 {
        (imm5 / 8) as usize
    } else {
        (imm5 / 16) as usize
    }
}

fn fill(elem: u64, e: u32) -> (r: u64)
    requires
        is_lane_width(e as int),
    ensures
        r == filled(elem, e as int),
{
    let count: usize = (64 / e) as usize;
    let mut s: Vec<u64> = Vec::new();
    let mut i: usize = 0;
    while i < count
        invariant
            i <= count,
            s@ =~= Seq::new(i as nat, |k: int| elem),
        decreases count - i,
    {
        s.push(elem);
        i += 1;
    }
    join(s.as_slice(), e)
}

fn upper(inst: u32, hi: u64) -> (r: u64)
    ensures
        r == high_half(inst, hi),
{
    if (inst >> 30) & 1 != 0 {
        hi
    } else {
        0
    }
}

fn exec_dup(c: &mut Cpu, inst: u32)
    ensures
        final(c)@ == dup(old(c)@, inst),
{
    let e: u32 = width_of(rm(inst));
    let half: u64 = if e == 0 {
        0
    } else {
        fill(c.reg(rn(inst)) & ones(e), e)
    };
    c.set_vector(rd(inst), half, upper(inst, half));
    c.advance();
}

fn exec_umov(c: &mut Cpu, inst: u32)
    ensures
        final(c)@ == umov(old(c)@, inst),
{
    let e: u32 = width_of(rm(inst));
    let value: u64 = if e == 0 {
        0
    } else {
        let s = split_vector(c.lo(rn(inst)), c.hi(rn(inst)), e);
        let k: usize = index_of(rm(inst));
        s[k]
    };
    c.set_reg(rd(inst), value);
    c.advance();
}

fn exec_ins(c: &mut Cpu, inst: u32)
    ensures
        final(c)@ == ins(old(c)@, inst),
{
    let e: u32 = width_of(rm(inst));
    let lo: u64 = c.lo(rd(inst));
    let hi: u64 = c.hi(rd(inst));
    if e == 0 {
        c.set_vector(rd(inst), lo, hi);
    } else {
        let mut s = split_vector(lo, hi, e);
        let k: usize = index_of(rm(inst));
        s.set(k, c.reg(rn(inst)) & ones(e));
        let (new_lo, new_hi) = join_vector(&s, e);
        c.set_vector(rd(inst), new_lo, new_hi);
    }
    c.advance();
}

fn shift_lanes(v: u64, e: u32, shift: u32) -> (r: u64)
    requires
        is_lane_width(e as int),
        shift < 64,
    ensures
        r == lanes_shifted(v, e as int, shift),
{
    let s = split(v, e);
    let mut out: Vec<u64> = Vec::new();
    let mut i: usize = 0;
    while i < s.len()
        invariant
            i <= s.len(),
            shift < 64,
            out@ =~= s@.map_values(|x: u64| (x << shift) & ones(e)).take(i as int),
        decreases s.len() - i,
    {
        out.push((s[i] << shift) & ones(e));
        i += 1;
    }
    assert(out@ =~= s@.map_values(|x: u64| (x << shift) & ones(e)));
    join(out.as_slice(), e)
}

fn exec_shl(c: &mut Cpu, inst: u32)
    ensures
        final(c)@ == shl(old(c)@, inst),
{
    let immh: u32 = (inst >> 19) & 0xF;
    let immhb: u32 = 8 * immh + ((inst >> 16) & 0x7);
    let e: u32 = if immh >= 8 {
        64
    } else if immh >= 4 {
        32
    } else if immh >= 2 {
        16
    } else if immh == 1 {
        8
    } else {
        0
    };
    if e == 0 {
        c.set_vector(rd(inst), 0, 0);
    } else {
        let shift: u32 = immhb - e;
        let lo: u64 = shift_lanes(c.lo(rn(inst)), e, shift);
        let hi: u64 = shift_lanes(c.hi(rn(inst)), e, shift);
        c.set_vector(rd(inst), lo, upper(inst, hi));
    }
    c.advance();
}

fn byte_mask(imm8: u32) -> (r: u64)
    ensures
        r == joined(
            Seq::new(
                8,
                |i: int|
                    if (imm8 >> i) & 1 != 0 {
                        0xFFu64
                    } else {
                        0u64
                    },
            ),
            8,
        ),
{
    let ghost target = Seq::new(
        8,
        |i: int|
            if (imm8 >> i) & 1 != 0 {
                0xFFu64
            } else {
                0u64
            },
    );
    let mut s: Vec<u64> = Vec::new();
    let mut i: u32 = 0;
    while i < 8
        invariant
            i <= 8,
            target == Seq::new(
                8,
                |i: int|
                    if (imm8 >> i) & 1 != 0 {
                        0xFFu64
                    } else {
                        0u64
                    },
            ),
            s@ =~= target.take(i as int),
        decreases 8 - i,
    {
        if (imm8 >> i) & 1 != 0 {
            s.push(0xFF);
        } else {
            s.push(0);
        }
        i += 1;
    }
    assert(s@ =~= target);
    join(s.as_slice(), 8)
}

fn expand_immediate(imm8: u32, cmode: u32, op: u32) -> (r: u64)
    requires
        cmode <= 15,
    ensures
        r == modified_immediate(imm8, cmode, op),
{
    let imm: u64 = imm8 as u64;
    if cmode <= 7 {
        let elem: u64 = imm << ((cmode / 2) * 8);
        let elem: u64 = if op == 1 {
            !elem & 0xFFFF_FFFF
        } else {
            elem
        };
        fill(elem, 32)
    } else if cmode <= 9 {
        let elem: u64 = imm << ((cmode % 2) * 8);
        let elem: u64 = if op == 1 {
            !elem & 0xFFFF
        } else {
            elem & 0xFFFF
        };
        fill(elem, 16)
    } else if cmode <= 13 {
        let elem: u64 = if cmode % 2 == 0 {
            (imm << 8) | 0xFF
        } else {
            (imm << 16) | 0xFFFF
        };
        let elem: u64 = if op == 1 {
            !elem & 0xFFFF_FFFF
        } else {
            elem
        };
        fill(elem, 32)
    } else if cmode == 14 {
        if op == 0 {
            fill(imm, 8)
        } else {
            byte_mask(imm8)
        }
    } else if op == 0 {
        fill(vfp_expand_imm32(imm8) as u64, 32)
    } else {
        vfp_expand_imm64(imm8)
    }
}

fn exec_movi(c: &mut Cpu, inst: u32)
    ensures
        final(c)@ == movi(old(c)@, inst),
{
    let imm64: u64 = expand_immediate(split_imm8(inst), (inst >> 12) & 0xF, (inst >> 29) & 1);
    c.set_vector(rd(inst), imm64, upper(inst, imm64));
    c.advance();
}

fn narrow_lanes(lo: u64, hi: u64, e: u32) -> (r: u64)
    requires
        e == 8 || e == 16 || e == 32,
    ensures
        r == narrowed(lo, hi, e as int),
{
    let s = split_vector(lo, hi, 2 * e);
    let mut out: Vec<u64> = Vec::new();
    let mut i: usize = 0;
    while i < s.len()
        invariant
            i <= s.len(),
            out@ =~= s@.map_values(|x: u64| x & ones(e)).take(i as int),
        decreases s.len() - i,
    {
        out.push(s[i] & ones(e));
        i += 1;
    }
    assert(out@ =~= s@.map_values(|x: u64| x & ones(e)));
    join(out.as_slice(), e)
}

fn exec_xtn(c: &mut Cpu, inst: u32)
    ensures
        final(c)@ == xtn(old(c)@, inst),
{
    let size: u32 = (inst >> 22) & 3;
    let lo: u64 = c.lo(rn(inst));
    let hi: u64 = c.hi(rn(inst));
    let narrow: u64 = match size {
        0 => narrow_lanes(lo, hi, 8),
        1 => narrow_lanes(lo, hi, 16),
        2 => narrow_lanes(lo, hi, 32),
        _ => 0,
    };
    if (inst >> 30) & 1 == 0 {
        c.set_vector(rd(inst), narrow, 0);
    } else {
        let kept: u64 = c.lo(rd(inst));
        c.set_vector(rd(inst), kept, narrow);
    }
    c.advance();
}

fn exec_ext(c: &mut Cpu, inst: u32)
    ensures
        final(c)@ == ext(old(c)@, inst),
{
    let mut bytes = split_vector(c.lo(rn(inst)), c.hi(rn(inst)), 8);
    let mut second = split_vector(c.lo(rm(inst)), c.hi(rm(inst)), 8);
    bytes.append(&mut second);
    let start: usize = ((inst >> 11) & 0xF) as usize;
    let window = vstd::slice::slice_to_vec(
        vstd::slice::slice_subrange(bytes.as_slice(), start, start + 16),
    );
    let (lo, hi) = join_vector(&window, 8);
    c.set_vector(rd(inst), lo, hi);
    c.advance();
}

fn reverse_lanes(v: u64, e: u32) -> (r: u64)
    requires
        is_lane_width(e as int),
    ensures
        r == joined(lanes(v, e as int).reverse(), e as int),
{
    let s = split(v, e);
    let mut out: Vec<u64> = Vec::new();
    let mut i: usize = 0;
    while i < s.len()
        invariant
            i <= s.len(),
            out@ =~= s@.reverse().take(i as int),
        decreases s.len() - i,
    {
        out.push(s[s.len() - 1 - i]);
        i += 1;
    }
    assert(out@ =~= s@.reverse());
    join(out.as_slice(), e)
}

fn reverse_sized(v: u64, size: u32) -> (r: u64)
    ensures
        r == lanes_reversed(v, size),
{
    match size {
        0 => reverse_lanes(v, 8),
        1 => reverse_lanes(v, 16),
        2 => reverse_lanes(v, 32),
        _ => v,
    }
}

fn exec_rev64_vec(c: &mut Cpu, inst: u32)
    ensures
        final(c)@ == rev64_vec(old(c)@, inst),
{
    let size: u32 = (inst >> 22) & 3;
    let lo: u64 = reverse_sized(c.lo(rn(inst)), size);
    let hi: u64 = reverse_sized(c.hi(rn(inst)), size);
    c.set_vector(rd(inst), lo, upper(inst, hi));
    c.advance();
}

fn combine_bits(kind: u32, a: u64, b: u64, d: u64) -> (r: u64)
    ensures
        r == bitwise(kind, a, b, d),
{
    match kind {
        0 => a & b,
        1 => a & !b,
        2 => a | b,
        3 => a | !b,
        4 => a ^ b,
        5 => (a & d) | (b & !d),
        6 => (a & b) | (d & !b),
        _ => (a & !b) | (d & b),
    }
}

fn sum_lanes(a: u64, b: u64, size: u32, subtract: bool) -> (r: u64)
    ensures
        r == lanes_summed(a, b, size, subtract),
{
    let e: u32 = match size {
        0 => 8,
        1 => 16,
        2 => 32,
        _ => 64,
    };
    let sa = split(a, e);
    let sb = split(b, e);
    let ghost target = Seq::new(
        (64int / (e as int)) as nat,
        |i: int|
            if subtract {
                lanes(a, e as int)[i].wrapping_sub(lanes(b, e as int)[i]) & ones(e)
            } else {
                lanes(a, e as int)[i].wrapping_add(lanes(b, e as int)[i]) & ones(e)
            },
    );
    let mut out: Vec<u64> = Vec::new();
    let mut i: usize = 0;
    while i < sa.len()
        invariant
            i <= sa.len(),
            sa@ == lanes(a, e as int),
            sb@ == lanes(b, e as int),
            target == Seq::new(
                (64int / (e as int)) as nat,
                |i: int|
                    if subtract {
                        lanes(a, e as int)[i].wrapping_sub(lanes(b, e as int)[i]) & ones(e)
                    } else {
                        lanes(a, e as int)[i].wrapping_add(lanes(b, e as int)[i]) & ones(e)
                    },
            ),
            out@ =~= target.take(i as int),
        decreases sa.len() - i,
    {
        if subtract {
            out.push(sa[i].wrapping_sub(sb[i]) & ones(e));
        } else {
            out.push(sa[i].wrapping_add(sb[i]) & ones(e));
        }
        i += 1;
    }
    assert(out@ =~= target);
    join(out.as_slice(), e)
}

fn exec_adv_simd_3same(c: &mut Cpu, inst: u32) -> (r: Result<(), Fault>)
    ensures
        cpu_outcome(r, adv_simd_3same(old(c)@, inst), old(c)@, final(c)@),
{
    let u: u32 = (inst >> 29) & 1;
    let size: u32 = (inst >> 22) & 3;
    let opcode: u32 = (inst >> 11) & 0x1F;
    let a_lo: u64 = c.lo(rn(inst));
    let a_hi: u64 = c.hi(rn(inst));
    let b_lo: u64 = c.lo(rm(inst));
    let b_hi: u64 = c.hi(rm(inst));
    if opcode == 3 {
        let kind: u32 = 4 * u + size;
        let lo: u64 = combine_bits(kind, a_lo, b_lo, c.lo(rd(inst)));
        let hi: u64 = combine_bits(kind, a_hi, b_hi, c.hi(rd(inst)));
        c.set_vector(rd(inst), lo, upper(inst, hi));
    } else if opcode == 16 {
        let lo: u64 = sum_lanes(a_lo, b_lo, size, u == 1);
        let hi: u64 = sum_lanes(a_hi, b_hi, size, u == 1);
        c.set_vector(rd(inst), lo, upper(inst, hi));
    } else {
        return Err(Fault::UnhandledSimd3Same { opcode, u, inst });
    }
    c.advance();
    Ok(())
}

} // verus!
