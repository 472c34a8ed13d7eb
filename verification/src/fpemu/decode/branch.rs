//! Branches.
use crate::fpemu::cpu::{Cpu, CpuView};
use crate::fpemu::decode::{rd, rn, sf};
use crate::fpemu::fault::{cpu_outcome, Fault};
use crate::fpemu::helpers::{low, low_bits, sign_extend};
use vstd::prelude::*;

verus! {

broadcast use crate::bits::lemma_and_le_u32;

/// The state after a jump by `words` instructions when `taken`, else after the next instruction.
pub open spec fn jumped(c: CpuView, words: u64, taken: bool) -> CpuView {
    if taken {
        c.with_pc(c.pc.wrapping_add(words.wrapping_mul(4)))
    } else {
        c.advanced()
    }
}

/// The state with the link register set to the next instruction.
pub open spec fn linked(c: CpuView) -> CpuView {
    c.with_reg(30, c.pc.wrapping_add(4))
}

/// B and BL.
pub open spec fn b_uncond(c: CpuView, inst: u32, link: bool) -> CpuView {
    let words = sign_extend((inst & 0x3FF_FFFF) as u64, 26);
    jumped(
        if link {
            linked(c)
        } else {
            c
        },
        words,
        true,
    )
}

/// The 19-bit offset field, in instructions.
pub open spec fn offset19(inst: u32) -> u64 {
    sign_extend(((inst >> 5) & 0x7FFFF) as u64, 19)
}

/// B.cond.
pub open spec fn b_cond(c: CpuView, inst: u32) -> CpuView {
    jumped(c, offset19(inst), c.cond(inst & 0xF))
}

/// CBZ and CBNZ.
pub open spec fn cbx(c: CpuView, inst: u32) -> CpuView {
    let zero = low_bits(c.reg(rd(inst)), sf(inst)) == 0;
    jumped(c, offset19(inst), zero == ((inst >> 24) & 1 == 0))
}

/// TBZ and TBNZ.
pub open spec fn tbx(c: CpuView, inst: u32) -> CpuView {
    let bit = 32 * ((inst >> 31) & 1) + ((inst >> 19) & 0x1F);
    let set = (c.reg(rd(inst)) >> bit) & 1 != 0;
    let words = sign_extend(((inst >> 5) & 0x3FFF) as u64, 14);
    jumped(c, words, set == ((inst >> 24) & 1 != 0))
}

/// BR, BLR and RET.
pub open spec fn branch_reg(c: CpuView, inst: u32) -> Result<CpuView, Fault> {
    let opc = (inst >> 21) & 0xF;
    let target = c.reg(rn(inst));
    if opc == 0 || opc == 2 {
        Ok(c.with_pc(target))
    } else if opc == 1 {
        Ok(linked(c).with_pc(target))
    } else {
        Err(Fault::UnhandledBranchReg { opc, inst })
    }
}

pub open spec fn branch(c: CpuView, inst: u32) -> Result<CpuView, Fault> {
    let top6 = (inst >> 26) & 0x3F;
    if top6 == 0x05 {
        Ok(b_uncond(c, inst, false))
    } else if top6 == 0x25 {
        Ok(b_uncond(c, inst, true))
    } else if (inst >> 25) & 0x3F == 0x1A {
        Ok(cbx(c, inst))
    } else if (inst >> 25) & 0x7F == 0x2A {
        Ok(b_cond(c, inst))
    } else if (inst >> 25) & 0x7F == 0x6B {
        branch_reg(c, inst)
    } else if (inst >> 25) & 0x3F == 0x1B {
        Ok(tbx(c, inst))
    } else {
        Err(Fault::UnhandledBranch { inst })
    }
}

pub fn exec_branch(c: &mut Cpu, inst: u32) -> (r: Result<(), Fault>)
    ensures
        cpu_outcome(r, branch(old(c)@, inst), old(c)@, final(c)@),
{
    let top6: u32 = (inst >> 26) & 0x3F;
    if top6 == 0x05 {
        exec_b_uncond(c, inst, false);
    } else if top6 == 0x25 {
        exec_b_uncond(c, inst, true);
    } else if (inst >> 25) & 0x3F == 0x1A {
        exec_cbx(c, inst);
    } else if (inst >> 25) & 0x7F == 0x2A {
        exec_b_cond(c, inst);
    } else if (inst >> 25) & 0x7F == 0x6B {
        return exec_branch_reg(c, inst);
    } else if (inst >> 25) & 0x3F == 0x1B {
        exec_tbx(c, inst);
    } else {
        return Err(Fault::UnhandledBranch { inst });
    }
    Ok(())
}

fn jump(c: &mut Cpu, words: u64, taken: bool)
    ensures
        final(c)@ == jumped(old(c)@, words, taken),
{
    if taken {
        let target: u64 = c.pc.wrapping_add(words.wrapping_mul(4));
        c.set_pc(target);
    } else {
        c.advance();
    }
}

fn link_next(c: &mut Cpu)
    ensures
        final(c)@ == linked(old(c)@),
{
    let next: u64 = c.pc.wrapping_add(4);
    c.set_reg(30, next);
}

fn exec_b_uncond(c: &mut Cpu, inst: u32, link: bool)
    ensures
        final(c)@ == b_uncond(old(c)@, inst, link),
{
    let words: u64 = sign_extend((inst & 0x3FF_FFFF) as u64, 26);
    if link {
        link_next(c);
    }
    jump(c, words, true);
}

fn word_offset19(inst: u32) -> (r: u64)
    ensures
        r == offset19(inst),
{
    sign_extend(((inst >> 5) & 0x7FFFF) as u64, 19)
}

fn exec_b_cond(c: &mut Cpu, inst: u32)
    ensures
        final(c)@ == b_cond(old(c)@, inst),
{
    let taken = c.cond_holds(inst & 0xF);
    jump(c, word_offset19(inst), taken);
}

fn exec_cbx(c: &mut Cpu, inst: u32)
    ensures
        final(c)@ == cbx(old(c)@, inst),
{
    let zero = low(c.reg(rd(inst)), sf(inst)) == 0;
    jump(c, word_offset19(inst), zero == ((inst >> 24) & 1 == 0));
}

fn exec_tbx(c: &mut Cpu, inst: u32)
    ensures
        final(c)@ == tbx(old(c)@, inst),
{
    let bit: u32 = 32 * ((inst >> 31) & 1) + ((inst >> 19) & 0x1F);
    let set = (c.reg(rd(inst)) >> bit) & 1 != 0;
    let words: u64 = sign_extend(((inst >> 5) & 0x3FFF) as u64, 14);
    jump(c, words, set == ((inst >> 24) & 1 != 0));
}

fn exec_branch_reg(c: &mut Cpu, inst: u32) -> (r: Result<(), Fault>)
    ensures
        cpu_outcome(r, branch_reg(old(c)@, inst), old(c)@, final(c)@),
{
    let opc: u32 = (inst >> 21) & 0xF;
    let target: u64 = c.reg(rn(inst));
    if opc == 1 {
        link_next(c);
    } else if opc != 0 && opc != 2 {
        return Err(Fault::UnhandledBranchReg { opc, inst });
    }
    c.set_pc(target);
    Ok(())
}

} // verus!
