//! What single instructions and library functions are for, in terms of registers and memory.
pub mod branches;
pub mod library;
pub mod logic;
pub mod memory;
pub mod snapshot;
pub mod vectors;

use crate::bits::bit;
use crate::fpemu::cpu::CpuView;
use crate::fpemu::decode::dpimm::add_sub_imm;
use crate::fpemu::decode::dpreg::{add_sub_shift_reg, cond_select, dp_3src, shifted_operand};
use crate::fpemu::fault::Fault;
use crate::fpemu::helpers::flagged_sum;
use crate::fpemu::machine::{immediate_step, register_step, stepped, with_cpu};
use crate::fpemu::state::StateView;
use vstd::prelude::*;

verus! {

broadcast use crate::bits::lemma_and_le_u32;

/// The number in a register, where register 31 stands for zero.
pub open spec fn value_in(s: StateView, n: u32) -> int {
    if n == 31 {
        0
    } else {
        s.cpu.x[n as int] as int
    }
}

/// How many numbers an instruction's width holds: 64 bits when its top bit is set, else 32.
pub open spec fn span(inst: u32) -> int {
    if inst >> 31 != 0 {
        0x1_0000_0000_0000_0000
    } else {
        0x1_0000_0000
    }
}

/// A number below `w` read as a signed one.
pub open spec fn as_signed(v: int, w: int) -> int {
    if 2 * v < w {
        v
    } else {
        v - w
    }
}

/// The state with the next instruction due and one register changed; register 31 never changes.
pub open spec fn put_value(s: StateView, d: u32, v: int) -> StateView {
    StateView {
        cpu: CpuView {
            x: if d == 31 {
                s.cpu.x
            } else {
                s.cpu.x.update(d as int, v as u64)
            },
            pc: s.cpu.pc.wrapping_add(4),
            ..s.cpu
        },
        ..s
    }
}

pub(crate) proof fn lemma_class(inst: u32)
    by (bit_vector)
    ensures
        ((inst >> 24) & 0x1F == 0x0A || (inst >> 24) & 0x1F == 0x0B || (inst >> 24) & 0x1F == 0x1A
            || (inst >> 24) & 0x1F == 0x1B) ==> inst & 0xFFE0_001F != 0xD420_0000 && ((inst >> 25)
            & 0xF) >> 1 != 4 && ((inst >> 25) & 0xF) >> 1 != 5 && ((inst >> 25) & 0xF) & 5 != 4 && ((
        inst >> 25) & 0xF) & 7 == 5,
        (inst >> 26) & 7 == 4 ==> inst & 0xFFE0_001F != 0xD420_0000 && ((inst >> 25) & 0xF) >> 1
            == 4,
        (inst >> 26) & 7 == 5 ==> ((inst >> 25) & 0xF) >> 1 == 5 && ((inst >> 25) & 0xF) >> 1 != 4,
        (inst >> 27) & 1 == 1 && (inst >> 25) & 1 == 0 ==> inst & 0xFFE0_001F != 0xD420_0000 && ((
        inst >> 25) & 0xF) >> 1 != 4 && ((inst >> 25) & 0xF) >> 1 != 5 && ((inst >> 25) & 0xF) & 5
            == 4,
        (inst >> 24) & 0x1F <= 0x1F,
{
}

pub(crate) proof fn lemma_not(b: u64)
    by (bit_vector)
    ensures
        !b == 0xFFFF_FFFF_FFFF_FFFF - b,
        b <= 0xFFF ==> b << 12 == b * 4096,
{
}

/// The state with another processor.
pub open spec fn with_processor(s: StateView, cpu: CpuView) -> (StateView, Result<(), Fault>) {
    (StateView { cpu, ..s }, Ok(()))
}

proof fn lemma_select_step(s: StateView, inst: u32)
    requires
        (inst >> 24) & 0x1F == 0x1A,
        (inst >> 21) & 7 == 4,
    ensures
        stepped(s, inst) == with_processor(s, cond_select(s.cpu, inst)),
{
    reveal(stepped);
    reveal(register_step);
    lemma_class(inst);
}

proof fn lemma_add_step(s: StateView, inst: u32)
    requires
        (inst >> 24) & 0x1F == 0x0B,
        (inst >> 21) & 1 == 0,
    ensures
        stepped(s, inst) == with_processor(s, add_sub_shift_reg(s.cpu, inst)),
{
    reveal(stepped);
    reveal(register_step);
    lemma_class(inst);
}

proof fn lemma_add_immediate_step(s: StateView, inst: u32)
    requires
        (inst >> 26) & 7 == 4,
        (inst >> 23) & 7 == 2,
    ensures
        stepped(s, inst) == with_processor(s, add_sub_imm(s.cpu, inst)),
{
    reveal(stepped);
    reveal(immediate_step);
    lemma_class(inst);
}

proof fn lemma_multiply_step(s: StateView, inst: u32)
    requires
        (inst >> 24) & 0x1F == 0x1B,
    ensures
        stepped(s, inst) == with_cpu(s, dp_3src(s.cpu, inst)),
{
    reveal(stepped);
    reveal(register_step);
    lemma_class(inst);
}

/// A sum or difference of two numbers of a width, and its flags.
pub(crate) proof fn lemma_sum(a: u64, b: u64, subtract: bool, is64: bool)
    ensures
        ({
            let w: int = if is64 {
                0x1_0000_0000_0000_0000
            } else {
                0x1_0000_0000
            };
            let (x, y) = (a as int % w, b as int % w);
            let exact = if subtract {
                x - y
            } else {
                x + y
            };
            let f = flagged_sum(a, b, subtract, is64);
            &&& f.value == exact % w
            &&& f.n == (as_signed(exact % w, w) < 0)
            &&& f.z == (exact % w == 0)
            &&& f.c == (if subtract {
                x >= y
            } else {
                exact >= w
            })
            &&& f.v == (as_signed(exact % w, w) != (if subtract {
                as_signed(x, w) - as_signed(y, w)
            } else {
                as_signed(x, w) + as_signed(y, w)
            }))
        }),
{
}

/// CSEL, CSINC, CSINV and CSNEG: where the condition holds the destination gets the first source,
/// else the second, the number after it, its complement or its negative.
pub proof fn law_conditional_select(s: StateView, inst: u32)
    requires
        (inst >> 24) & 0x1F == 0x1A,
        (inst >> 21) & 7 == 4,
    ensures
        ({
            let w = span(inst);
            let first = value_in(s, (inst >> 5) & 0x1F);
            let second = value_in(s, (inst >> 16) & 0x1F);
            let chosen = if s.cpu.cond((inst >> 12) & 0xF) {
                first
            } else if (inst >> 30) & 1 == 0 {
                if (inst >> 10) & 1 == 0 {
                    second
                } else {
                    second + 1
                }
            } else {
                if (inst >> 10) & 1 == 0 {
                    -1 - second
                } else {
                    -second
                }
            };
            stepped(s, inst) == (put_value(s, inst & 0x1F, chosen % w), Ok::<(), Fault>(()))
        }),
{
    lemma_select_step(s, inst);
    lemma_not(s.cpu.reg((inst >> 16) & 0x1F));
}

/// SUBS of two registers, and so CMP: the difference, and flags by which each condition code says
/// how the two compare.
#[verifier::rlimit(100)]
#[verifier::spinoff_prover]
pub proof fn law_compare(s: StateView, inst: u32)
    requires
        (inst >> 24) & 0x1F == 0x0B,
        (inst >> 21) & 7 == 0,
        (inst >> 10) & 0x3F == 0,
        (inst >> 29) & 3 == 3,
    ensures
        ({
            let w = span(inst);
            let a = value_in(s, (inst >> 5) & 0x1F) % w;
            let b = value_in(s, (inst >> 16) & 0x1F) % w;
            let (x, y) = (as_signed(a, w), as_signed(b, w));
            let after = stepped(s, inst).0;
            let difference = (a - b) % w;
            &&& stepped(s, inst).1 is Ok
            &&& after == (StateView {
                cpu: CpuView {
                    n: after.cpu.n,
                    z: after.cpu.z,
                    c: after.cpu.c,
                    v: after.cpu.v,
                    ..put_value(s, inst & 0x1F, difference).cpu
                },
                ..s
            })
            &&& after.cpu.cond(0) == (a == b)
            &&& after.cpu.cond(1) == (a != b)
            &&& after.cpu.cond(2) == (a >= b)
            &&& after.cpu.cond(3) == (a < b)
            &&& after.cpu.cond(4) == (as_signed(difference, w) < 0)
            &&& after.cpu.cond(5) == (as_signed(difference, w) >= 0)
            &&& after.cpu.cond(6) == (as_signed(difference, w) != x - y)
            &&& after.cpu.cond(7) == (as_signed(difference, w) == x - y)
            &&& after.cpu.cond(8) == (a > b)
            &&& after.cpu.cond(9) == (a <= b)
            &&& after.cpu.cond(10) == (x >= y)
            &&& after.cpu.cond(11) == (x < y)
            &&& after.cpu.cond(12) == (x > y)
            &&& after.cpu.cond(13) == (x <= y)
            &&& after.cpu.cond(14)
        }),
{
    lemma_fields(inst);
    lemma_add_step(s, inst);
    let a = s.cpu.reg((inst >> 5) & 0x1F);
    let b = s.cpu.reg((inst >> 16) & 0x1F);
    assert(shifted_operand(s.cpu, inst) == b);
    lemma_sum(a, b, true, inst >> 31 != 0);
}

pub(crate) proof fn lemma_fields(inst: u32)
    by (bit_vector)
    ensures
        (inst >> 21) & 7 == 0 ==> (inst >> 21) & 1 == 0 && (inst >> 22) & 3 == 0,
        (inst >> 29) & 3 == 3 ==> (inst >> 30) & 1 == 1 && (inst >> 29) & 1 == 1,
        (inst >> 29) & 3 == 2 ==> (inst >> 30) & 1 == 1 && (inst >> 29) & 1 == 0,
        (inst >> 29) & 3 == 1 ==> (inst >> 30) & 1 == 0 && (inst >> 29) & 1 == 1,
        (inst >> 29) & 3 == 0 ==> (inst >> 30) & 1 == 0 && (inst >> 29) & 1 == 0,
        (inst >> 23) & 0x3F == 0x22 ==> (inst >> 26) & 7 == 4 && (inst >> 23) & 7 == 2,
        (inst >> 23) & 0x3F == 0x25 ==> (inst >> 26) & 7 == 4 && (inst >> 23) & 7 == 5,
        (inst >> 24) & 0x1F == 0x10 ==> (inst >> 26) & 7 == 4 && ((inst >> 23) & 7 == 0 || (inst
            >> 23) & 7 == 1),
        (inst >> 23) & 0x3F == 0x26 ==> (inst >> 26) & 7 == 4 && (inst >> 23) & 7 == 6,
        (inst >> 23) & 0x3F == 0x24 ==> (inst >> 26) & 7 == 4 && (inst >> 23) & 7 == 4,
        (inst >> 29) & 3 == 0 || (inst >> 29) & 3 == 1 || (inst >> 29) & 3 == 2 || (inst >> 29) & 3
            == 3,
{
}

/// ADD, ADDS and SUB of two registers: the sum or the difference, and for ADDS the carry out of
/// it.
#[verifier::rlimit(100)]
#[verifier::spinoff_prover]
pub proof fn law_add_registers(s: StateView, inst: u32)
    requires
        (inst >> 24) & 0x1F == 0x0B,
        (inst >> 21) & 7 == 0,
        (inst >> 10) & 0x3F == 0,
        (inst >> 29) & 3 != 3,
    ensures
        ({
            let w = span(inst);
            let a = value_in(s, (inst >> 5) & 0x1F) % w;
            let b = value_in(s, (inst >> 16) & 0x1F) % w;
            let after = stepped(s, inst).0;
            let result = if (inst >> 29) & 3 == 2 {
                a - b
            } else {
                a + b
            };
            &&& stepped(s, inst).1 is Ok
            &&& (inst >> 29) & 3 != 1 ==> after == put_value(s, inst & 0x1F, result % w)
            &&& (inst >> 29) & 3 == 1 ==> after == (StateView {
                cpu: CpuView {
                    n: as_signed(result % w, w) < 0,
                    z: result % w == 0,
                    c: result >= w,
                    v: as_signed(a, w) + as_signed(b, w) != as_signed(result % w, w),
                    ..put_value(s, inst & 0x1F, result % w).cpu
                },
                ..s
            })
        }),
{
    lemma_fields(inst);
    lemma_add_step(s, inst);
    let a = s.cpu.reg((inst >> 5) & 0x1F);
    let b = s.cpu.reg((inst >> 16) & 0x1F);
    assert(shifted_operand(s.cpu, inst) == b);
    lemma_sum(a, b, (inst >> 30) & 1 != 0, inst >> 31 != 0);
}

/// The number in a register, where register 31 stands for the stack pointer.
pub open spec fn value_or_sp(s: StateView, n: u32) -> int {
    if n == 31 {
        s.cpu.sp as int
    } else {
        s.cpu.x[n as int] as int
    }
}

/// The state with the next instruction due and one register or the stack pointer changed.
pub open spec fn put_or_sp(s: StateView, d: u32, v: int) -> StateView {
    if d == 31 {
        StateView {
            cpu: CpuView { sp: v as u64, pc: s.cpu.pc.wrapping_add(4), ..s.cpu },
            ..s
        }
    } else {
        put_value(s, d, v)
    }
}

proof fn lemma_shifted_immediate(v: u64)
    requires
        v <= 0xFFF,
    ensures
        v << 12 == v * 4096,
{
    lemma_not(v);
}

/// ADD and SUB of an immediate, which may count in pages of 4096; with flags as those of a
/// comparison or a sum.
#[verifier::rlimit(100)]
#[verifier::spinoff_prover]
pub proof fn law_add_immediate(s: StateView, inst: u32)
    requires
        (inst >> 23) & 0x3F == 0x22,
    ensures
        ({
            let w = span(inst);
            let a = value_or_sp(s, (inst >> 5) & 0x1F) % w;
            let field = ((inst >> 10) & 0xFFF) as int;
            let b = if (inst >> 22) & 3 == 1 {
                field * 4096
            } else {
                field
            };
            let after = stepped(s, inst).0;
            let result = if (inst >> 30) & 1 == 1 {
                a - b
            } else {
                a + b
            };
            &&& stepped(s, inst).1 is Ok
            &&& (inst >> 29) & 1 == 0 ==> after == put_or_sp(s, inst & 0x1F, result % w)
            &&& (inst >> 29) & 1 == 1 ==> after == (StateView {
                cpu: CpuView {
                    n: as_signed(result % w, w) < 0,
                    z: result % w == 0,
                    c: if (inst >> 30) & 1 == 1 {
                        a >= b
                    } else {
                        result >= w
                    },
                    v: as_signed(result % w, w) != (if (inst >> 30) & 1 == 1 {
                        as_signed(a, w) - b
                    } else {
                        as_signed(a, w) + b
                    }),
                    ..put_value(s, inst & 0x1F, result % w).cpu
                },
                ..s
            })
        }),
{
    lemma_fields(inst);
    let imm12 = ((inst >> 10) & 0xFFF) as u64;
    lemma_shifted_immediate(imm12);
    let imm = if (inst >> 22) & 3 == 1 {
        imm12 << 12
    } else {
        imm12
    };
    let w = span(inst);
    assert(imm < 0x100_0000);
    assert(imm as int % w == imm && as_signed(imm as int, w) == imm);
    let subtract = (inst >> 30) & 1 != 0;
    let first = s.cpu.reg_sp((inst >> 5) & 0x1F);
    lemma_sum(first, imm, subtract, inst >> 31 != 0);
    lemma_immediate_effect(s, inst, flagged_sum(first, imm, subtract, inst >> 31 != 0));
}

proof fn lemma_immediate_effect(s: StateView, inst: u32, f: crate::fpemu::helpers::Flagged)
    requires
        (inst >> 26) & 7 == 4,
        (inst >> 23) & 7 == 2,
        f == flagged_sum(
            s.cpu.reg_sp((inst >> 5) & 0x1F),
            if (inst >> 22) & 3 == 1 {
                (((inst >> 10) & 0xFFF) as u64) << 12
            } else {
                ((inst >> 10) & 0xFFF) as u64
            },
            (inst >> 30) & 1 != 0,
            inst >> 31 != 0,
        ),
    ensures
        stepped(s, inst).1 is Ok,
        (inst >> 29) & 1 == 0 ==> stepped(s, inst).0 == put_or_sp(s, inst & 0x1F, f.value as int),
        (inst >> 29) & 1 != 0 ==> stepped(s, inst).0 == (StateView {
            cpu: CpuView {
                n: f.n,
                z: f.z,
                c: f.c,
                v: f.v,
                ..put_value(s, inst & 0x1F, f.value as int).cpu
            },
            ..s
        }),
{
    lemma_add_immediate_step(s, inst);
}

/// MADD and MSUB: the addend plus or minus the product of the two sources.
#[verifier::rlimit(100)]
#[verifier::spinoff_prover]
pub proof fn law_multiply(s: StateView, inst: u32)
    requires
        (inst >> 24) & 0x1F == 0x1B,
        (inst >> 21) & 7 == 0,
    ensures
        ({
            let w = span(inst);
            let product = (value_in(s, (inst >> 5) & 0x1F) % w) * (value_in(s, (inst >> 16) & 0x1F)
                % w);
            let addend = value_in(s, (inst >> 10) & 0x1F);
            let result = if (inst >> 15) & 1 == 0 {
                addend + product
            } else {
                addend - product
            };
            stepped(s, inst) == with_processor(s, put_value(s, inst & 0x1F, result % w).cpu)
        }),
{
    lemma_multiply_step(s, inst);
    let (a, b) = (s.cpu.reg((inst >> 5) & 0x1F), s.cpu.reg((inst >> 16) & 0x1F));
    let addend = s.cpu.reg((inst >> 10) & 0x1F) as int;
    let w = span(inst);
    lemma_accumulate(addend, (a as int % w) * (b as int % w), w);
}

/// SMADDL, SMSUBL, UMADDL and UMSUBL: the addend plus or minus the product of the low words, signed
/// or not.
#[verifier::rlimit(100)]
#[verifier::spinoff_prover]
pub proof fn law_multiply_words(s: StateView, inst: u32)
    requires
        (inst >> 24) & 0x1F == 0x1B,
        (inst >> 21) & 7 == 1 || (inst >> 21) & 7 == 5,
    ensures
        ({
            let w = 0x1_0000_0000int;
            let (a, b) = (
                value_in(s, (inst >> 5) & 0x1F) % w,
                value_in(s, (inst >> 16) & 0x1F) % w,
            );
            let product = if (inst >> 21) & 7 == 1 {
                as_signed(a, w) * as_signed(b, w)
            } else {
                a * b
            };
            let addend = value_in(s, (inst >> 10) & 0x1F);
            let result = if (inst >> 15) & 1 == 0 {
                addend + product
            } else {
                addend - product
            };
            stepped(s, inst) == with_processor(
                s,
                put_value(s, inst & 0x1F, result % 0x1_0000_0000_0000_0000).cpu,
            )
        }),
{
    lemma_multiply_step(s, inst);
    let (a, b) = (s.cpu.reg((inst >> 5) & 0x1F), s.cpu.reg((inst >> 16) & 0x1F));
    let addend = s.cpu.reg((inst >> 10) & 0x1F) as int;
    let w64 = 0x1_0000_0000_0000_0000int;
    lemma_words(a);
    lemma_words(b);
    if (inst >> 21) & 7 == 1 {
        let x = ((a as u32) as i32) as i64;
        let y = ((b as u32) as i32) as i64;
        let p = x * y;
        assert(-0x4000_0000_0000_0000 <= p <= 0x4000_0000_0000_0000) by (nonlinear_arith)
            requires
                p == x * y,
                -0x8000_0000 <= x < 0x8000_0000,
                -0x8000_0000 <= y < 0x8000_0000,
        ;
        lemma_two_complement(p as i64);
        lemma_accumulate(addend, p, w64);
        assert(p == as_signed(a as int % 0x1_0000_0000, 0x1_0000_0000) * as_signed(
            b as int % 0x1_0000_0000,
            0x1_0000_0000,
        ));
        assert(p % w64 == (p as i64) as u64);
    } else {
        let p = (a as int % 0x1_0000_0000) * (b as int % 0x1_0000_0000);
        assert(0 <= p < w64) by (nonlinear_arith)
            requires
                p == (a as int % 0x1_0000_0000) * (b as int % 0x1_0000_0000),
                w64 == 0x1_0000_0000_0000_0000int,
        ;
        lemma_accumulate(addend, p, w64);
    }
}

/// SMULH and UMULH: the high half of the product, signed or not.
#[verifier::rlimit(100)]
#[verifier::spinoff_prover]
pub proof fn law_multiply_high(s: StateView, inst: u32)
    requires
        (inst >> 24) & 0x1F == 0x1B,
        (inst >> 21) & 7 == 2 || (inst >> 21) & 7 == 6,
    ensures
        ({
            let w = 0x1_0000_0000_0000_0000int;
            let (a, b) = (value_in(s, (inst >> 5) & 0x1F), value_in(s, (inst >> 16) & 0x1F));
            let product = if (inst >> 21) & 7 == 2 {
                as_signed(a, w) * as_signed(b, w)
            } else {
                a * b
            };
            stepped(s, inst) == with_processor(
                s,
                put_value(s, inst & 0x1F, product / w % w).cpu,
            )
        }),
{
    lemma_multiply_step(s, inst);
    let (a, b) = (s.cpu.reg((inst >> 5) & 0x1F), s.cpu.reg((inst >> 16) & 0x1F));
    let w64 = 0x1_0000_0000_0000_0000int;
    let p = a * b;
    assert(0 <= p / w64 < w64) by (nonlinear_arith)
        requires
            p == a * b,
            w64 == 0x1_0000_0000_0000_0000int,
            0 <= a < 0x1_0000_0000_0000_0000int,
            0 <= b < 0x1_0000_0000_0000_0000int,
    ;
}

proof fn lemma_two_complement(p: i64)
    by (bit_vector)
    ensures
        p >= 0 ==> p as u64 == p,
        p < 0 ==> p as u64 == p + 0x1_0000_0000_0000_0000,
{
}

/// Adding or taking away modulo 2^64 first makes no difference modulo a width.
proof fn lemma_accumulate(addend: int, p: int, w: int)
    requires
        w == 0x1_0000_0000 || w == 0x1_0000_0000_0000_0000,
    ensures
        ((addend + p % 0x1_0000_0000_0000_0000) % 0x1_0000_0000_0000_0000) % w == (addend + p) % w,
        ((addend - p % 0x1_0000_0000_0000_0000) % 0x1_0000_0000_0000_0000) % w == (addend - p) % w,
{
    let big = 0x1_0000_0000_0000_0000int;
    vstd::arithmetic::div_mod::lemma_add_mod_noop_right(addend, p, big);
    vstd::arithmetic::div_mod::lemma_sub_mod_noop_right(addend, p, big);
    if w == 0x1_0000_0000 {
        vstd::arithmetic::div_mod::lemma_mod_mod(addend + p, w, w);
        vstd::arithmetic::div_mod::lemma_mod_mod(addend - p, w, w);
    }
}

proof fn lemma_words(a: u64)
    by (bit_vector)
    ensures
        (a as u32) as u64 == a % 0x1_0000_0000,
        a % 0x1_0000_0000 < 0x8000_0000 ==> ((a as u32) as i32) as i64 == a % 0x1_0000_0000,
        a % 0x1_0000_0000 >= 0x8000_0000 ==> ((a as u32) as i32) as i64 == a % 0x1_0000_0000
            - 0x1_0000_0000,
{
}

} // verus!
