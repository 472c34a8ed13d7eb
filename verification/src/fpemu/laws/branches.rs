//! Where branches lead.
use crate::bits::bit;
use crate::fpemu::cpu::CpuView;
use crate::fpemu::decode::branch::{b_cond, b_uncond, branch_reg, cbx, tbx};
use crate::fpemu::decode::dpimm::pcrel;
use crate::fpemu::fault::Fault;
use crate::fpemu::helpers::{lemma_sign_bits, sign_extend, sign_extended};
use crate::fpemu::laws::{lemma_class, put_value, span, value_in, with_processor};
use crate::fpemu::machine::{branch_step, immediate_step, stepped, with_cpu};
use crate::fpemu::state::StateView;
use vstd::prelude::*;

verus! {

broadcast use crate::bits::lemma_and_le_u32;

/// A number of so many values read as a signed one, as far as memory reaches.
pub open spec fn offset(field: u32, values: int) -> int {
    if 2 * field < values {
        field as int
    } else {
        field - values
    }
}

/// An address at a distance from another, around the top of memory.
pub open spec fn address_at(a: u64, distance: int) -> u64 {
    ((a + distance) % 0x1_0000_0000_0000_0000) as u64
}

/// The state with another instruction due.
pub open spec fn going_to(s: StateView, pc: u64) -> (StateView, Result<(), Fault>) {
    (StateView { cpu: CpuView { pc, ..s.cpu }, ..s }, Ok(()))
}

/// The state with another instruction due and the one behind this as the place to return to.
pub open spec fn calling(s: StateView, pc: u64) -> (StateView, Result<(), Fault>) {
    (
        StateView {
            cpu: CpuView { pc, x: s.cpu.x.update(30, address_at(s.cpu.pc, 4)), ..s.cpu },
            ..s
        },
        Ok(()),
    )
}

proof fn lemma_branch_class(inst: u32, v: u64, k: u64)
    by (bit_vector)
    ensures
        (inst >> 26) & 0x1F == 5 ==> inst & 0xFFE0_001F != 0xD420_0000 && ((inst >> 25) & 0xF) >> 1
            == 5 && ((inst >> 26) & 0x3F == 5 || (inst >> 26) & 0x3F == 0x25),
        (inst >> 26) & 0x3F == 5 ==> (inst >> 26) & 0x1F == 5 && (inst >> 31) & 1 == 0,
        (inst >> 26) & 0x3F == 0x25 ==> (inst >> 26) & 0x1F == 5 && (inst >> 31) & 1 == 1,
        (inst >> 25) & 0x3F == 0x1A || (inst >> 25) & 0x3F == 0x1B || (inst >> 25) & 0x7F == 0x2A || (
        inst >> 25) & 0x7F == 0x6B ==> inst & 0xFFE0_001F != 0xD420_0000 && ((inst >> 25) & 0xF)
            >> 1 == 5 && (inst >> 26) & 0x3F != 5 && (inst >> 26) & 0x3F != 0x25,
        (inst >> 25) & 0x7F == 0x2A ==> (inst >> 25) & 0x3F != 0x1A,
        (inst >> 25) & 0x7F == 0x6B ==> (inst >> 25) & 0x3F != 0x1A,
        (inst >> 25) & 0x3F == 0x1B ==> (inst >> 25) & 0x7F != 0x2A && (inst >> 25) & 0x7F != 0x6B,
        (inst >> 23) & 7 <= 1 && (inst >> 26) & 7 == 4 ==> inst & 0xFFE0_001F != 0xD420_0000,
        ((((inst >> 5) & 0x7FFFF) << 2) | ((inst >> 29) & 0x3)) == 4 * ((inst >> 5) & 0x7FFFF) + ((
        inst >> 29) & 0x3),
        (inst >> 31) & 1 <= 1,
        (v >> k) & 1 == 0 || (v >> k) & 1 == 1,
        (inst >> 24) & 1 == 0 || (inst >> 24) & 1 == 1,
        v << 12u32 == (v * 4096) % 0x1_0000_0000_0000_0000,
{
}

pub(crate) proof fn lemma_extension(val: u64, bits: u64, pc: u64)
    by (bit_vector)
    requires
        1 <= bits < 40,
    ensures
        val < 1u64 << bits ==> (((val >> ((bits - 1) as u64)) & 1 == 1) <==> 2 * val >= 1u64 << bits) && (val | (
        !0u64 << bits)) + (1u64 << bits) == val + 0x1_0000_0000_0000_0000,
        pc & !0xFFFu64 == pc - pc % 4096,
        1u64 << 7u64 == 0x80,
        1u64 << 8u64 == 0x100,
        1u64 << 9u64 == 0x200,
        1u64 << 14u64 == 0x4000,
        1u64 << 16u64 == 0x1_0000,
        1u64 << 19u64 == 0x8_0000,
        1u64 << 21u64 == 0x20_0000,
        1u64 << 26u64 == 0x400_0000,
        1u64 << 32u64 == 0x1_0000_0000,
{
}

/// Extending a sign keeps the number that the bits write.
pub proof fn lemma_sign_extension(field: u32, bits: u32, values: int)
    requires
        field < values,
        (bits == 7 && values == 0x80) || (bits == 8 && values == 0x100) || (bits == 9 && values
            == 0x200) || (bits == 14 && values == 0x4000) || (bits == 16 && values == 0x1_0000) || (bits
            == 19 && values == 0x8_0000) || (bits == 21 && values == 0x20_0000) || (bits == 26
            && values == 0x400_0000) || (bits == 32 && values == 0x1_0000_0000),
    ensures
        sign_extended(field as u64, bits as int) == offset(field, values)
            % 0x1_0000_0000_0000_0000,
{
    let val = field as u64;
    let b = bits as u64;
    lemma_extension(0, 1, 0);
    assert(1u64 << b == values);
    lemma_extension(val, b, 0);
    let r = if (val >> ((b - 1) as u64)) & 1 == 1 {
        val | (!0u64 << b)
    } else {
        val
    };
    let f = |i: int| bit(val, i) || (i >= bits && bit(val, bits - 1));
    assert forall|i: int| 0 <= i < 64 implies #[trigger] f(i) == bit(r, i) by {
        lemma_sign_bits(val, b, i as u64);
    }
    crate::bits::lemma_of_bits(r, f);
    crate::bits::lemma_same_bits(64, f, |i: int| bit(val, i) || (i >= bits && bit(val, bits - 1)));
}

proof fn lemma_jump(pc: u64, words: u64, distance: int)
    requires
        words == distance % 0x1_0000_0000_0000_0000,
        -0x1000_0000 <= distance <= 0x1000_0000,
    ensures
        pc.wrapping_add(words.wrapping_mul(4)) == address_at(pc, 4 * distance),
{
}

/// B and BL go to a place that lies a signed number of instructions away; BL notes where to return.
pub proof fn law_branch(s: StateView, inst: u32)
    requires
        (inst >> 26) & 0x1F == 5,
    ensures
        ({
            let target = address_at(s.cpu.pc, 4 * offset(inst & 0x3FF_FFFF, 0x400_0000));
            stepped(s, inst) == (if (inst >> 31) & 1 == 1 {
                calling(s, target)
            } else {
                going_to(s, target)
            })
        }),
{
    lemma_branch_class(inst, 0, 0);
    assert(stepped(s, inst) == with_processor(s, b_uncond(s.cpu, inst, (inst >> 31) & 1 == 1))) by {
        reveal(stepped);
        reveal(branch_step);
    }
    lemma_sign_extension(inst & 0x3FF_FFFF, 26, 0x400_0000);
    lemma_jump(
        s.cpu.pc,
        sign_extend((inst & 0x3FF_FFFF) as u64, 26),
        offset(inst & 0x3FF_FFFF, 0x400_0000),
    );
}

/// B.cond goes to its place where the condition holds, and else on to the next instruction.
pub proof fn law_branch_on_condition(s: StateView, inst: u32)
    requires
        (inst >> 25) & 0x7F == 0x2A,
    ensures
        stepped(s, inst) == going_to(
            s,
            address_at(
                s.cpu.pc,
                if s.cpu.cond(inst & 0xF) {
                    4 * offset((inst >> 5) & 0x7FFFF, 0x8_0000)
                } else {
                    4
                },
            ),
        ),
{
    lemma_branch_class(inst, 0, 0);
    assert(stepped(s, inst) == with_processor(s, b_cond(s.cpu, inst))) by {
        reveal(stepped);
        reveal(branch_step);
    }
    lemma_sign_extension((inst >> 5) & 0x7FFFF, 19, 0x8_0000);
    lemma_jump(
        s.cpu.pc,
        sign_extend(((inst >> 5) & 0x7FFFF) as u64, 19),
        offset((inst >> 5) & 0x7FFFF, 0x8_0000),
    );
}

/// CBZ goes to its place where the register is zero, CBNZ where it is not.
pub proof fn law_branch_on_zero(s: StateView, inst: u32)
    requires
        (inst >> 25) & 0x3F == 0x1A,
    ensures
        ({
            let zero = value_in(s, inst & 0x1F) % span(inst) == 0;
            let taken = if (inst >> 24) & 1 == 0 {
                zero
            } else {
                !zero
            };
            stepped(s, inst) == going_to(
                s,
                address_at(
                    s.cpu.pc,
                    if taken {
                        4 * offset((inst >> 5) & 0x7FFFF, 0x8_0000)
                    } else {
                        4
                    },
                ),
            )
        }),
{
    lemma_branch_class(inst, 0, 0);
    assert(stepped(s, inst) == with_processor(s, cbx(s.cpu, inst))) by {
        reveal(stepped);
        reveal(branch_step);
    }
    lemma_sign_extension((inst >> 5) & 0x7FFFF, 19, 0x8_0000);
    lemma_jump(
        s.cpu.pc,
        sign_extend(((inst >> 5) & 0x7FFFF) as u64, 19),
        offset((inst >> 5) & 0x7FFFF, 0x8_0000),
    );
}

/// TBZ goes to its place where a bit of the register is clear, TBNZ where it is set.
pub proof fn law_branch_on_bit(s: StateView, inst: u32)
    requires
        (inst >> 25) & 0x3F == 0x1B,
    ensures
        ({
            let place = 32 * ((inst >> 31) & 1) + ((inst >> 19) & 0x1F);
            let set = ((value_in(s, inst & 0x1F) as u64) >> (place as u64)) & 1 == 1;
            let taken = if (inst >> 24) & 1 == 0 {
                !set
            } else {
                set
            };
            stepped(s, inst) == going_to(
                s,
                address_at(
                    s.cpu.pc,
                    if taken {
                        4 * offset((inst >> 5) & 0x3FFF, 0x4000)
                    } else {
                        4
                    },
                ),
            )
        }),
{
    lemma_branch_class(inst, 0, 0);
    assert(stepped(s, inst) == with_processor(s, tbx(s.cpu, inst))) by {
        reveal(stepped);
        reveal(branch_step);
    }
    lemma_branch_class(
        inst,
        value_in(s, inst & 0x1F) as u64,
        (32 * ((inst >> 31) & 1) + ((inst >> 19) & 0x1F)) as u64,
    );
    lemma_sign_extension((inst >> 5) & 0x3FFF, 14, 0x4000);
    lemma_jump(
        s.cpu.pc,
        sign_extend(((inst >> 5) & 0x3FFF) as u64, 14),
        offset((inst >> 5) & 0x3FFF, 0x4000),
    );
}

/// BR and RET go where a register says; BLR does too, and notes where to return.
pub proof fn law_branch_to_register(s: StateView, inst: u32)
    requires
        (inst >> 25) & 0x7F == 0x6B,
    ensures
        ({
            let target = value_in(s, (inst >> 5) & 0x1F) as u64;
            let kind = (inst >> 21) & 0xF;
            &&& kind == 0 || kind == 2 ==> stepped(s, inst) == going_to(s, target)
            &&& kind == 1 ==> stepped(s, inst) == calling(s, target)
            &&& kind > 2 ==> stepped(s, inst).0 == s && stepped(s, inst).1 is Err
        }),
{
    lemma_branch_class(inst, 0, 0);
    assert(stepped(s, inst) == with_cpu(s, branch_reg(s.cpu, inst))) by {
        reveal(stepped);
        reveal(branch_step);
    }
}

/// ADR gives the address at a signed distance from the instruction, ADRP the start of the page at a
/// signed number of pages from its own.
pub proof fn law_address_of(s: StateView, inst: u32)
    requires
        (inst >> 26) & 7 == 4,
        (inst >> 23) & 7 <= 1,
    ensures
        ({
            let field = (4 * ((inst >> 5) & 0x7FFFF) + ((inst >> 29) & 0x3)) as u32;
            let distance = offset(field, 0x20_0000);
            let value = if inst >> 31 != 0 {
                address_at((s.cpu.pc - s.cpu.pc % 4096) as u64, 4096 * distance)
            } else {
                address_at(s.cpu.pc, distance)
            };
            stepped(s, inst) == (put_value(s, inst & 0x1F, value as int), Ok::<(), Fault>(()))
        }),
{
    lemma_class(inst);
    lemma_branch_class(inst, 0, 0);
    assert(stepped(s, inst) == with_processor(s, pcrel(s.cpu, inst))) by {
        reveal(stepped);
        reveal(immediate_step);
    }
    let field = (4 * ((inst >> 5) & 0x7FFFF) + ((inst >> 29) & 0x3)) as u32;
    let distance = offset(field, 0x20_0000);
    let imm = sign_extend(field as u64, 21);
    lemma_sign_extension(field, 21, 0x20_0000);
    lemma_extension(0, 1, s.cpu.pc);
    assert(imm == distance % 0x1_0000_0000_0000_0000);
    lemma_branch_class(inst, imm, 0);
    assert((s.cpu.pc & !0xFFFu64).wrapping_add(imm << 12) == address_at(
        (s.cpu.pc - s.cpu.pc % 4096) as u64,
        4096 * distance,
    ));
}

} // verus!
