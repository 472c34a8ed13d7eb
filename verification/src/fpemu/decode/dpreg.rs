//! Data processing on registers.
use crate::fpemu::cpu::{Cpu, CpuView};
use crate::fpemu::decode::dpimm::{combine, is_negative, logical, negative};
use crate::fpemu::decode::{rd, rm, rn, sf};
use crate::fpemu::fault::{cpu_outcome, Fault};
use crate::fpemu::helpers::{
    add_flagged, add_plain, bits_reversed32, bits_reversed64, clz32, clz64, flagged_sum, low,
    low_bits, modulus, mulhi64, plain_sum, rbit32, rbit64, rev16_32, rev16_64, rev32, rev64,
    shift_val, shifted, sign_extend, signed, signed_high_product, smulhi64,
};
use vstd::prelude::*;
use vstd::std_specs::bits::{u32_leading_zeros, u64_leading_zeros};

verus! {

broadcast use crate::bits::lemma_and_le_u32;

/// The second operand: a register, shifted.
pub open spec fn shifted_operand(c: CpuView, inst: u32) -> u64 {
    shifted(c.reg(rm(inst)), (inst >> 22) & 0x3, (inst >> 10) & 0x3F, sf(inst))
}

/// AND, BIC, ORR, ORN, EOR, EON, ANDS and BICS with a shifted register.
pub open spec fn log_shift_reg(c: CpuView, inst: u32) -> CpuView {
    let is64 = sf(inst);
    let opc = (inst >> 29) & 0x3;
    let operand = shifted_operand(c, inst);
    let b = if (inst >> 21) & 1 != 0 {
        low_bits(!operand, is64)
    } else {
        operand
    };
    let result = low_bits(logical(opc, low_bits(c.reg(rn(inst)), is64), b), is64);
    let flagged = if opc == 3 {
        c.with_flags(is_negative(result, is64), result == 0, false, false)
    } else {
        c
    };
    flagged.with_reg(rd(inst), result).advanced()
}

/// ADD, ADDS, SUB and SUBS with a shifted register.
pub open spec fn add_sub_shift_reg(c: CpuView, inst: u32) -> CpuView {
    let a = c.reg(rn(inst));
    let b = shifted_operand(c, inst);
    let subtract = (inst >> 30) & 1 != 0;
    if (inst >> 29) & 1 != 0 {
        let f = flagged_sum(a, b, subtract, sf(inst));
        c.with_flags(f.n, f.z, f.c, f.v).with_reg(rd(inst), f.value).advanced()
    } else {
        c.with_reg(rd(inst), plain_sum(a, b, subtract, sf(inst))).advanced()
    }
}

/// A register zero- or sign-extended from the width that `option` names.
pub open spec fn extended(v: u64, option: u32) -> u64 {
    if option == 0 {
        v % 0x100
    } else if option == 1 {
        v % 0x1_0000
    } else if option == 2 {
        v % 0x1_0000_0000
    } else if option == 4 {
        sign_extend(v % 0x100, 8)
    } else if option == 5 {
        sign_extend(v % 0x1_0000, 16)
    } else if option == 6 {
        sign_extend(v % 0x1_0000_0000, 32)
    } else {
        v
    }
}

/// ADD, ADDS, SUB and SUBS with an extended register.
pub open spec fn add_sub_ext_reg(c: CpuView, inst: u32) -> CpuView {
    let a = c.reg_sp(rn(inst));
    let b = extended(c.reg(rm(inst)), (inst >> 13) & 0x7) << ((inst >> 10) & 0x7);
    let subtract = (inst >> 30) & 1 != 0;
    if (inst >> 29) & 1 != 0 {
        let f = flagged_sum(a, b, subtract, sf(inst));
        c.with_flags(f.n, f.z, f.c, f.v).with_reg(rd(inst), f.value).advanced()
    } else {
        c.with_reg_sp(rd(inst), plain_sum(a, b, subtract, sf(inst))).advanced()
    }
}

/// CCMN and CCMP: compare when the condition holds, else set the given flags.
pub open spec fn cond_compare(c: CpuView, inst: u32) -> CpuView {
    let nzcv = inst & 0xF;
    if c.cond((inst >> 12) & 0xF) {
        let b = if (inst >> 11) & 1 != 0 {
            rm(inst) as u64
        } else {
            c.reg(rm(inst))
        };
        let f = flagged_sum(c.reg(rn(inst)), b, (inst >> 30) & 1 == 1, sf(inst));
        c.with_flags(f.n, f.z, f.c, f.v).advanced()
    } else {
        c.with_flags(
            (nzcv >> 3) & 1 != 0,
            (nzcv >> 2) & 1 != 0,
            (nzcv >> 1) & 1 != 0,
            nzcv & 1 != 0,
        ).advanced()
    }
}

/// CSEL, CSINC, CSINV and CSNEG.
pub open spec fn cond_select(c: CpuView, inst: u32) -> CpuView {
    let b = c.reg(rm(inst));
    let invert = (inst >> 30) & 1 != 0;
    let increment = (inst >> 10) & 1 != 0;
    let result = if c.cond((inst >> 12) & 0xF) {
        c.reg(rn(inst))
    } else if !invert && !increment {
        b
    } else if !invert {
        b.wrapping_add(1)
    } else if !increment {
        !b
    } else {
        0u64.wrapping_sub(b)
    };
    c.with_reg(rd(inst), low_bits(result, sf(inst))).advanced()
}

/// The quotient of `x` by `y` rounded towards zero.
pub open spec fn truncated_quotient(x: int, y: int) -> int {
    let magnitude = (if x < 0 {
        -x
    } else {
        x
    }) / (if y < 0 {
        -y
    } else {
        y
    });
    if (x < 0) == (y < 0) {
        magnitude
    } else {
        -magnitude
    }
}

/// The signed quotient of two registers; division by zero gives 0.
pub open spec fn signed_quotient(a: u64, b: u64, is64: bool) -> u64 {
    let w = modulus(is64);
    if b == 0 {
        0
    } else {
        (truncated_quotient(signed(a as int, w), signed(b as int, w)) % w) as u64
    }
}

/// UDIV, SDIV, LSLV, LSRV, ASRV and RORV.
pub open spec fn dp_2src(c: CpuView, inst: u32) -> Result<CpuView, Fault> {
    let is64 = sf(inst);
    let opcode = (inst >> 10) & 0x3F;
    let a = low_bits(c.reg(rn(inst)), is64);
    let b = low_bits(c.reg(rm(inst)), is64);
    let bits: u64 = if is64 {
        64
    } else {
        32
    };
    if opcode == 2 {
        let q = if b == 0 {
            0
        } else {
            a / b
        };
        Ok(c.with_reg(rd(inst), q).advanced())
    } else if opcode == 3 {
        Ok(c.with_reg(rd(inst), signed_quotient(a, b, is64)).advanced())
    } else if 8 <= opcode <= 11 {
        let value = shifted(a, (opcode - 8) as u32, (b % bits) as u32, is64);
        Ok(c.with_reg(rd(inst), value).advanced())
    } else {
        Err(Fault::UnhandledDp2 { opcode, inst })
    }
}

/// The result of RBIT, REV16, REV32, REV and CLZ.
pub open spec fn unary(opcode: u32, val: u64, is64: bool) -> u64 {
    if opcode == 0 {
        if is64 {
            bits_reversed64(val)
        } else {
            bits_reversed32(val as u32) as u64
        }
    } else if opcode == 1 {
        if is64 {
            rev16_64(val)
        } else {
            rev16_32(val as u32) as u64
        }
    } else if opcode == 2 {
        if is64 {
            (rev32(val as u32) as u64) | ((rev32((val >> 32) as u32) as u64) << 32)
        } else {
            rev32(val as u32) as u64
        }
    } else if opcode == 3 {
        rev64(val)
    } else if is64 {
        u64_leading_zeros(val) as u64
    } else {
        u32_leading_zeros(val as u32) as u64
    }
}

pub open spec fn dp_1src(c: CpuView, inst: u32) -> Result<CpuView, Fault> {
    let opcode = (inst >> 10) & 0x3F;
    if opcode > 4 {
        Err(Fault::UnhandledDp1 { opcode, inst })
    } else {
        let value = unary(opcode, c.reg(rn(inst)), sf(inst));
        Ok(c.with_reg(rd(inst), low_bits(value, sf(inst))).advanced())
    }
}

/// `addend + product` or `addend - product`.
pub open spec fn accumulated(addend: u64, product: u64, inst: u32) -> u64 {
    if (inst >> 15) & 1 == 0 {
        addend.wrapping_add(product)
    } else {
        addend.wrapping_sub(product)
    }
}

/// MADD, MSUB, SMADDL, SMSUBL, SMULH, UMADDL, UMSUBL and UMULH.
pub open spec fn dp_3src(c: CpuView, inst: u32) -> Result<CpuView, Fault> {
    let op31 = (inst >> 21) & 0x7;
    let a = c.reg(rn(inst));
    let b = c.reg(rm(inst));
    let addend = c.reg((inst >> 10) & 0x1F);
    if op31 == 0 {
        let product = low_bits(a, sf(inst)).wrapping_mul(low_bits(b, sf(inst)));
        let value = low_bits(accumulated(addend, product, inst), sf(inst));
        Ok(c.with_reg(rd(inst), value).advanced())
    } else if op31 == 1 {
        let product = ((((a as u32) as i32) as i64).wrapping_mul(((b as u32) as i32) as i64)) as u64;
        Ok(c.with_reg(rd(inst), accumulated(addend, product, inst)).advanced())
    } else if op31 == 2 {
        Ok(c.with_reg(rd(inst), signed_high_product(a, b)).advanced())
    } else if op31 == 5 {
        let product = ((a as u32) as u64).wrapping_mul((b as u32) as u64);
        Ok(c.with_reg(rd(inst), accumulated(addend, product, inst)).advanced())
    } else if op31 == 6 {
        Ok(c.with_reg(rd(inst), ((a * b) / 0x1_0000_0000_0000_0000) as u64).advanced())
    } else {
        Err(Fault::UnhandledDp3 { op31, inst })
    }
}

pub open spec fn dp_11010(c: CpuView, inst: u32) -> Result<CpuView, Fault> {
    let sub = (inst >> 21) & 7;
    if sub == 2 || sub == 3 {
        Ok(cond_compare(c, inst))
    } else if sub == 4 {
        Ok(cond_select(c, inst))
    } else if sub == 6 {
        if (inst >> 30) & 1 == 1 {
            dp_1src(c, inst)
        } else {
            dp_2src(c, inst)
        }
    } else {
        Err(Fault::Unhandled11010 { sub, inst })
    }
}

/// Data processing on registers.
pub open spec fn dpreg(c: CpuView, inst: u32) -> Result<CpuView, Fault> {
    let top5 = (inst >> 24) & 0x1F;
    if top5 == 0x0A {
        Ok(log_shift_reg(c, inst))
    } else if top5 == 0x0B {
        if (inst >> 21) & 1 == 0 {
            Ok(add_sub_shift_reg(c, inst))
        } else {
            Ok(add_sub_ext_reg(c, inst))
        }
    } else if top5 == 0x1A {
        dp_11010(c, inst)
    } else if top5 == 0x1B {
        dp_3src(c, inst)
    } else {
        Err(Fault::UnhandledDpReg { top5, inst })
    }
}

pub fn exec_dpreg(c: &mut Cpu, inst: u32) -> (r: Result<(), Fault>)
    ensures
        cpu_outcome(r, dpreg(old(c)@, inst), old(c)@, final(c)@),
{
    let top5: u32 = (inst >> 24) & 0x1F;
    match top5 {
        0x0A => {
            exec_log_shift_reg(c, inst);
            Ok(())
        },
        0x0B => {
            if (inst >> 21) & 1 == 0 {
                exec_add_sub_shift_reg(c, inst);
            } else {
                exec_add_sub_ext_reg(c, inst);
            }
            Ok(())
        },
        0x1A => exec_dp_11010(c, inst),
        0x1B => exec_dp_3src(c, inst),
        _ => Err(Fault::UnhandledDpReg { top5, inst }),
    }
}

fn shift_operand(c: &Cpu, inst: u32) -> (r: u64)
    ensures
        r == shifted_operand(c@, inst),
{
    shift_val(c.reg(rm(inst)), (inst >> 22) & 0x3, (inst >> 10) & 0x3F, sf(inst))
}

fn exec_log_shift_reg(c: &mut Cpu, inst: u32)
    ensures
        final(c)@ == log_shift_reg(old(c)@, inst),
{
    let is64 = sf(inst);
    let opc: u32 = (inst >> 29) & 0x3;
    let operand: u64 = shift_operand(c, inst);
    let b: u64 = if (inst >> 21) & 1 != 0 {
        low(!operand, is64)
    } else {
        operand
    };
    let a: u64 = low(c.reg(rn(inst)), is64);
    let result: u64 = low(combine(opc, a, b), is64);
    if opc == 3 {
        c.set_flags(negative(result, is64), result == 0, false, false);
    }
    c.set_reg(rd(inst), result);
    c.advance();
}

fn exec_add_sub_shift_reg(c: &mut Cpu, inst: u32)
    ensures
        final(c)@ == add_sub_shift_reg(old(c)@, inst),
{
    let a: u64 = c.reg(rn(inst));
    let b: u64 = shift_operand(c, inst);
    let subtract = (inst >> 30) & 1 != 0;
    if (inst >> 29) & 1 != 0 {
        let f = add_flagged(a, b, subtract, sf(inst));
        c.set_flags(f.n, f.z, f.c, f.v);
        c.set_reg(rd(inst), f.value);
    } else {
        let value: u64 = add_plain(a, b, subtract, sf(inst));
        c.set_reg(rd(inst), value);
    }
    c.advance();
}

fn extend(v: u64, option: u32) -> (r: u64)
    ensures
        r == extended(v, option),
{
    match option {
        0 => v % 0x100,
        1 => v % 0x1_0000,
        2 => v % 0x1_0000_0000,
        4 => sign_extend(v % 0x100, 8),
        5 => sign_extend(v % 0x1_0000, 16),
        6 => sign_extend(v % 0x1_0000_0000, 32),
        _ => v,
    }
}

fn exec_add_sub_ext_reg(c: &mut Cpu, inst: u32)
    ensures
        final(c)@ == add_sub_ext_reg(old(c)@, inst),
{
    let a: u64 = c.reg_sp(rn(inst));
    let b: u64 = extend(c.reg(rm(inst)), (inst >> 13) & 0x7) << ((inst >> 10) & 0x7);
    let subtract = (inst >> 30) & 1 != 0;
    if (inst >> 29) & 1 != 0 {
        let f = add_flagged(a, b, subtract, sf(inst));
        c.set_flags(f.n, f.z, f.c, f.v);
        c.set_reg(rd(inst), f.value);
    } else {
        let value: u64 = add_plain(a, b, subtract, sf(inst));
        c.set_reg_sp(rd(inst), value);
    }
    c.advance();
}

fn exec_dp_11010(c: &mut Cpu, inst: u32) -> (r: Result<(), Fault>)
    ensures
        cpu_outcome(r, dp_11010(old(c)@, inst), old(c)@, final(c)@),
{
    let sub: u32 = (inst >> 21) & 7;
    match sub {
        2 | 3 => {
            exec_cond_compare(c, inst);
            Ok(())
        },
        4 => {
            exec_cond_select(c, inst);
            Ok(())
        },
        6 => {
            if (inst >> 30) & 1 == 1 {
                exec_dp_1src(c, inst)
            } else {
                exec_dp_2src(c, inst)
            }
        },
        _ => Err(Fault::Unhandled11010 { sub, inst }),
    }
}

fn exec_cond_compare(c: &mut Cpu, inst: u32)
    ensures
        final(c)@ == cond_compare(old(c)@, inst),
{
    let nzcv: u32 = inst & 0xF;
    if c.cond_holds((inst >> 12) & 0xF) {
        let a: u64 = c.reg(rn(inst));
        let b: u64 = if (inst >> 11) & 1 != 0 {
            rm(inst) as u64
        } else {
            c.reg(rm(inst))
        };
        let f = add_flagged(a, b, (inst >> 30) & 1 == 1, sf(inst));
        c.set_flags(f.n, f.z, f.c, f.v);
    } else {
        c.set_flags(
            (nzcv >> 3) & 1 != 0,
            (nzcv >> 2) & 1 != 0,
            (nzcv >> 1) & 1 != 0,
            nzcv & 1 != 0,
        );
    }
    c.advance();
}

fn exec_cond_select(c: &mut Cpu, inst: u32)
    ensures
        final(c)@ == cond_select(old(c)@, inst),
{
    let b: u64 = c.reg(rm(inst));
    let invert = (inst >> 30) & 1 != 0;
    let increment = (inst >> 10) & 1 != 0;
    let result: u64 = if c.cond_holds((inst >> 12) & 0xF) {
        c.reg(rn(inst))
    } else if !invert && !increment {
        b
    } else if !invert {
        b.wrapping_add(1)
    } else if !increment {
        !b
    } else {
        0u64.wrapping_sub(b)
    };
    c.set_reg(rd(inst), low(result, sf(inst)));
    c.advance();
}

fn divide_signed(a: u64, b: u64, is64: bool) -> (r: u64)
    requires
        a < modulus(is64),
        b < modulus(is64),
    ensures
        r == signed_quotient(a, b, is64),
{
    if b == 0 {
        return 0;
    }
    let half: u64 = if is64 {
        0x8000_0000_0000_0000
    } else {
        0x8000_0000
    };
    let ma: u64 = if a < half {
        a
    } else {
        half - (a - half)
    };
    let mb: u64 = if b < half {
        b
    } else {
        half - (b - half)
    };
    let q: u64 = ma / mb;
    assert(q <= ma) by (nonlinear_arith)
        requires
            q == ma / mb,
            mb >= 1,
    ;
    if (a < half) == (b < half) {
        q
    } else if q == 0 {
        0
    } else {
        half + (half - q)
    }
}

fn exec_dp_2src(c: &mut Cpu, inst: u32) -> (r: Result<(), Fault>)
    ensures
        cpu_outcome(r, dp_2src(old(c)@, inst), old(c)@, final(c)@),
{
    let is64 = sf(inst);
    let opcode: u32 = (inst >> 10) & 0x3F;
    let a: u64 = low(c.reg(rn(inst)), is64);
    let b: u64 = low(c.reg(rm(inst)), is64);
    let bits: u64 = if is64 {
        64
    } else {
        32
    };
    let result: u64 = if opcode == 2 {
        if b == 0 {
            0
        } else {
            a / b
        }
    } else if opcode == 3 {
        divide_signed(a, b, is64)
    } else if opcode >= 8 && opcode <= 11 {
        shift_val(a, opcode - 8, (b % bits) as u32, is64)
    } else {
        return Err(Fault::UnhandledDp2 { opcode, inst });
    };
    c.set_reg(rd(inst), result);
    c.advance();
    Ok(())
}

fn apply_unary(opcode: u32, val: u64, is64: bool) -> (r: u64)
    requires
        opcode <= 4,
    ensures
        r == unary(opcode, val, is64),
{
    match opcode {
        0 => if is64 {
            rbit64(val)
        } else {
            rbit32(val as u32) as u64
        },
        1 => if is64 {
            rev16_64(val)
        } else {
            rev16_32(val as u32) as u64
        },
        2 => if is64 {
            (rev32(val as u32) as u64) | ((rev32((val >> 32) as u32) as u64) << 32)
        } else {
            rev32(val as u32) as u64
        },
        3 => rev64(val),
        _ => if is64 {
            clz64(val) as u64
        } else {
            clz32(val as u32) as u64
        },
    }
}

fn exec_dp_1src(c: &mut Cpu, inst: u32) -> (r: Result<(), Fault>)
    ensures
        cpu_outcome(r, dp_1src(old(c)@, inst), old(c)@, final(c)@),
{
    let opcode: u32 = (inst >> 10) & 0x3F;
    if opcode > 4 {
        return Err(Fault::UnhandledDp1 { opcode, inst });
    }
    let value: u64 = apply_unary(opcode, c.reg(rn(inst)), sf(inst));
    c.set_reg(rd(inst), low(value, sf(inst)));
    c.advance();
    Ok(())
}

fn accumulate(addend: u64, product: u64, inst: u32) -> (r: u64)
    ensures
        r == accumulated(addend, product, inst),
{
    if (inst >> 15) & 1 == 0 {
        addend.wrapping_add(product)
    } else {
        addend.wrapping_sub(product)
    }
}

fn exec_dp_3src(c: &mut Cpu, inst: u32) -> (r: Result<(), Fault>)
    ensures
        cpu_outcome(r, dp_3src(old(c)@, inst), old(c)@, final(c)@),
{
    let op31: u32 = (inst >> 21) & 0x7;
    let a: u64 = c.reg(rn(inst));
    let b: u64 = c.reg(rm(inst));
    let addend: u64 = c.reg((inst >> 10) & 0x1F);
    let result: u64 = if op31 == 0 {
        let product: u64 = low(a, sf(inst)).wrapping_mul(low(b, sf(inst)));
        low(accumulate(addend, product, inst), sf(inst))
    } else if op31 == 1 {
        let product: u64 = ((((a as u32) as i32) as i64).wrapping_mul(
            ((b as u32) as i32) as i64,
        )) as u64;
        accumulate(addend, product, inst)
    } else if op31 == 2 {
        smulhi64(a, b)
    } else if op31 == 5 {
        let product: u64 = ((a as u32) as u64).wrapping_mul((b as u32) as u64);
        accumulate(addend, product, inst)
    } else if op31 == 6 {
        mulhi64(a, b)
    } else {
        return Err(Fault::UnhandledDp3 { op31, inst });
    };
    c.set_reg(rd(inst), result);
    c.advance();
    Ok(())
}

} // verus!
