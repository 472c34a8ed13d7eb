//! What instructions do to the single bits of registers.
use crate::fpemu::cpu::CpuView;
use crate::fpemu::decode::dpimm::{bitfield, extract, log_imm, move_wide, rotated};
use crate::fpemu::decode::dpreg::{
    cond_compare, dp_1src, dp_2src, log_shift_reg, shifted_operand, truncated_quotient,
};
use crate::fpemu::fault::Fault;
use crate::fpemu::helpers::{
    bit_masks, bits_reversed64, bytes_reversed64, halfwords_swapped64, low_bits, ones, repeated,
    shifted, top_bit,
};
use crate::fpemu::laws::{
    as_signed, lemma_class, lemma_fields, lemma_sum, put_or_sp, put_value, span, value_in,
    with_processor,
};
use crate::fpemu::machine::{immediate_step, register_step, stepped, with_cpu};
use crate::fpemu::state::StateView;
use vstd::prelude::*;
use vstd::std_specs::bits::u64_leading_zeros;

verus! {

broadcast use crate::bits::lemma_and_le_u32;

/// Whether a bit of a number is set.
pub open spec fn bit_set(v: u64, i: int) -> bool {
    (v >> (i as u64)) & 1 == 1
}

pub(crate) proof fn lemma_bits(x: u64, y: u64, n: u64, i: u64)
    by (bit_vector)
    requires
        i < 64,
        n < 64,
    ensures
        ((x & y) >> i) & 1 == 1 <==> (x >> i) & 1 == 1 && (y >> i) & 1 == 1,
        ((x | y) >> i) & 1 == 1 <==> (x >> i) & 1 == 1 || (y >> i) & 1 == 1,
        ((x ^ y) >> i) & 1 == 1 <==> ((x >> i) & 1 == 1) != ((y >> i) & 1 == 1),
        (!x >> i) & 1 == 1 <==> (x >> i) & 1 != 1,
        ((x << n) >> i) & 1 == 1 <==> i >= n && (x >> ((i - n) as u64)) & 1 == 1,
        ((x >> n) >> i) & 1 == 1 <==> i + n < 64 && (x >> ((i + n) as u64)) & 1 == 1,
        ((((x as i64) >> n) as u64) >> i) & 1 == 1 <==> (x >> (if i + n < 64 {
            (i + n) as u64
        } else {
            63u64
        })) & 1 == 1,
        n < 32 ==> ((((((x as u32) as i32) >> n) as u32 as u64) >> i) & 1 == 1 <==> i < 32 && (x
            >> (if i + n < 32 {
            (i + n) as u64
        } else {
            31u64
        })) & 1 == 1),
        ((((1u64 << n) - 1) as u64) >> i) & 1 == 1 <==> i < n,
        ((!0u64) >> i) & 1 == 1,
        (0u64 >> i) & 1 == 0,
        ((x % 0x1_0000_0000) >> i) & 1 == 1 <==> i < 32 && (x >> i) & 1 == 1,
        (x >> n) & 1 != 0 ==> (x >> n) & 1 == 1,
        ((x >> 63u64) & 1 == 1) == (x >= 0x8000_0000_0000_0000),
        x << 0u64 == x,
        x | 0u64 == x,
        0u64 | x == x,
        (x & y) % 0x1_0000_0000 == (x % 0x1_0000_0000) & (y % 0x1_0000_0000),
        (x | y) % 0x1_0000_0000 == (x % 0x1_0000_0000) | (y % 0x1_0000_0000),
        (x ^ y) % 0x1_0000_0000 == (x % 0x1_0000_0000) ^ (y % 0x1_0000_0000),
        (x % 0x1_0000_0000) % 0x1_0000_0000 == x % 0x1_0000_0000,
{
}

proof fn lemma_logical_step(s: StateView, inst: u32)
    requires
        (inst >> 24) & 0x1F == 0x0A,
    ensures
        stepped(s, inst) == with_processor(s, log_shift_reg(s.cpu, inst)),
{
    reveal(stepped);
    reveal(register_step);
    lemma_class(inst);
}

/// AND, ORR, EOR and ANDS of two registers, and BIC, ORN, EON and BICS with the second inverted;
/// ANDS and BICS also tell whether the result is negative or zero.
#[verifier::rlimit(100)]
#[verifier::spinoff_prover]
pub proof fn law_logical_registers(s: StateView, inst: u32)
    requires
        (inst >> 24) & 0x1F == 0x0A,
        (inst >> 10) & 0x3F == 0,
    ensures
        ({
            let w = span(inst);
            let a = value_in(s, (inst >> 5) & 0x1F) as u64;
            let register = value_in(s, (inst >> 16) & 0x1F) as u64;
            let b = if (inst >> 21) & 1 == 1 {
                !register
            } else {
                register
            };
            let opc = (inst >> 29) & 3;
            let r = (if opc == 1 {
                a | b
            } else if opc == 2 {
                a ^ b
            } else {
                a & b
            }) as int % w;
            &&& opc != 3 ==> stepped(s, inst) == (
                put_value(s, inst & 0x1F, r),
                Ok::<(), Fault>(()),
            )
            &&& opc == 3 ==> stepped(s, inst) == (
                StateView {
                    cpu: CpuView {
                        n: as_signed(r, w) < 0,
                        z: r == 0,
                        c: false,
                        v: false,
                        ..put_value(s, inst & 0x1F, r).cpu
                    },
                    ..s
                },
                Ok::<(), Fault>(()),
            )
        }),
{
    lemma_logical_step(s, inst);
    let a = value_in(s, (inst >> 5) & 0x1F) as u64;
    let register = value_in(s, (inst >> 16) & 0x1F) as u64;
    let b = if (inst >> 21) & 1 == 1 {
        !register
    } else {
        register
    };
    assert(shifted_operand(s.cpu, inst) == register);
    assert((inst >> 21) & 1 != 0 ==> (inst >> 21) & 1 == 1) by {
        assert((inst >> 21) & 1 <= 1);
    }
    lemma_bits(a, b, 0, 0);
    lemma_bits(a % 0x1_0000_0000, b, 0, 0);
    lemma_bits(a % 0x1_0000_0000, b % 0x1_0000_0000, 0, 0);
    assert(a as int % 0x1_0000_0000 == a % 0x1_0000_0000);
}

proof fn lemma_two_source_step(s: StateView, inst: u32)
    requires
        (inst >> 24) & 0x1F == 0x1A,
        (inst >> 21) & 7 == 6,
        (inst >> 30) & 1 == 0,
    ensures
        stepped(s, inst) == with_cpu(s, dp_2src(s.cpu, inst)),
{
    reveal(stepped);
    reveal(register_step);
    lemma_class(inst);
}

proof fn lemma_shifted_bits(x: u64, kind: u32, n: u32, is64: bool, i: int)
    requires
        0 <= i < 64,
        kind <= 3,
        is64 ==> n < 64,
        !is64 ==> n < 32 && x < 0x1_0000_0000,
    ensures
        ({
            let bits: int = if is64 {
                64
            } else {
                32
            };
            let r = shifted(x, kind, n, is64);
            &&& kind == 0 ==> (bit_set(r, i) <==> n <= i < bits && bit_set(x, i - n))
            &&& kind == 1 ==> (bit_set(r, i) <==> i + n < bits && bit_set(x, i + n))
            &&& kind == 2 ==> (bit_set(r, i) <==> i < bits && bit_set(
                x,
                if i + n < bits {
                    i + n
                } else {
                    bits - 1
                },
            ))
            &&& kind == 3 ==> (bit_set(r, i) <==> i < bits && bit_set(x, (i + n) % bits))
        }),
{
    let j = i as u64;
    let by = n as u64;
    lemma_bits(x, 0, by, j);
    lemma_bits(x, x, 0, j);
    if !is64 {
        lemma_bits(x << by, 0, 0, j);
        lemma_bits(x, 0, 0, j);
        assert(x % 0x1_0000_0000 == x);
        if i + n < 64 {
            lemma_bits(x, 0, 0, (i + n) as u64);
        }
    }
    if n > 0 {
        let bits: int = if is64 {
            64
        } else {
            32
        };
        let back = (bits - n) as u64;
        lemma_bits(x, 0, back, j);
        lemma_bits(x >> by, x << back, 0, j);
        lemma_bits((x >> by) | (x << back), 0, 0, j);
    }
}

/// LSLV, LSRV, ASRV and RORV: a register shifted left, right with zeros, right with its sign, or
/// rotated right, by another modulo the width, bit by bit.
pub proof fn law_shift_by_register(s: StateView, inst: u32, i: int)
    requires
        (inst >> 24) & 0x1F == 0x1A,
        (inst >> 21) & 7 == 6,
        (inst >> 30) & 1 == 0,
        8 <= (inst >> 10) & 0x3F <= 11,
        inst & 0x1F != 31,
        s.cpu.x.len() == 31,
        0 <= i < 64,
    ensures
        ({
            let bits: int = if inst >> 31 != 0 {
                64
            } else {
                32
            };
            let x = (value_in(s, (inst >> 5) & 0x1F) % span(inst)) as u64;
            let n = value_in(s, (inst >> 16) & 0x1F) % bits;
            let kind = (inst >> 10) & 0x3F;
            let r = stepped(s, inst).0.cpu.x[(inst & 0x1F) as int];
            &&& stepped(s, inst) == (put_value(s, inst & 0x1F, r as int), Ok::<(), Fault>(()))
            &&& kind == 8 ==> (bit_set(r, i) <==> n <= i < bits && bit_set(x, i - n))
            &&& kind == 9 ==> (bit_set(r, i) <==> i + n < bits && bit_set(x, i + n))
            &&& kind == 10 ==> (bit_set(r, i) <==> i < bits && bit_set(
                x,
                if i + n < bits {
                    i + n
                } else {
                    bits - 1
                },
            ))
            &&& kind == 11 ==> (bit_set(r, i) <==> i < bits && bit_set(x, (i + n) % bits))
        }),
{
    lemma_two_source_step(s, inst);
    let is64 = inst >> 31 != 0;
    let x = low_bits(s.cpu.reg((inst >> 5) & 0x1F), is64);
    let b = low_bits(s.cpu.reg((inst >> 16) & 0x1F), is64);
    let n = if is64 {
        (b % 64) as u32
    } else {
        (b % 32) as u32
    };
    assert(value_in(s, (inst >> 16) & 0x1F) % (if is64 {
        64
    } else {
        32
    }) == n);
    lemma_shifted_bits(x, (((inst >> 10) & 0x3F) - 8) as u32, n, is64, i);
}

/// UDIV and SDIV: the quotient without and with signs, rounded towards zero; by zero it is zero.
#[verifier::rlimit(100)]
#[verifier::spinoff_prover]
pub proof fn law_divide(s: StateView, inst: u32)
    requires
        (inst >> 24) & 0x1F == 0x1A,
        (inst >> 21) & 7 == 6,
        (inst >> 30) & 1 == 0,
        (inst >> 10) & 0x3F == 2 || (inst >> 10) & 0x3F == 3,
        inst & 0x1F != 31,
        s.cpu.x.len() == 31,
    ensures
        ({
            let w = span(inst);
            let a = value_in(s, (inst >> 5) & 0x1F) % w;
            let b = value_in(s, (inst >> 16) & 0x1F) % w;
            let (x, y) = (as_signed(a, w), as_signed(b, w));
            let r = stepped(s, inst).0.cpu.x[(inst & 0x1F) as int] as int;
            let q = as_signed(r, w);
            &&& stepped(s, inst) == (put_value(s, inst & 0x1F, r), Ok::<(), Fault>(()))
            &&& 0 <= r < w
            &&& b == 0 ==> r == 0
            &&& b != 0 && (inst >> 10) & 0x3F == 2 ==> r * b <= a < r * b + b
            &&& b != 0 && (inst >> 10) & 0x3F == 3 && !(2 * x == -w && y == -1) ==> {
                &&& x >= 0 && y > 0 ==> q * y <= x < q * y + y
                &&& x >= 0 && y < 0 ==> q * y <= x < q * y - y
                &&& x < 0 && y > 0 ==> q * y - y < x <= q * y
                &&& x < 0 && y < 0 ==> q * y + y < x <= q * y
            }
            &&& (inst >> 10) & 0x3F == 3 && 2 * x == -w && y == -1 ==> q == x
        }),
{
    lemma_two_source_step(s, inst);
    let w = span(inst);
    let is64 = inst >> 31 != 0;
    let a = low_bits(s.cpu.reg((inst >> 5) & 0x1F), is64);
    let b = low_bits(s.cpu.reg((inst >> 16) & 0x1F), is64);
    if b != 0 {
        lemma_quotient(a as int, b as int);
        let (x, y) = (as_signed(a as int, w), as_signed(b as int, w));
        let (m, d) = (if x < 0 {
            -x
        } else {
            x
        }, if y < 0 {
            -y
        } else {
            y
        });
        lemma_quotient(m, d);
        let k = m / d;
        let t = truncated_quotient(x, y);
        assert(t == if (x < 0) == (y < 0) {
            k
        } else {
            -k
        });
        lemma_signs(k, d, t, y);
        if !(2 * x == -w && y == -1) {
            assert(-w <= 2 * t < w);
            assert(as_signed(t % w, w) == t);
        } else {
            assert(2 * t == w);
            assert(t % w == t);
        }
    }
}

proof fn lemma_quotient(a: int, b: int)
    by (nonlinear_arith)
    requires
        a >= 0,
        b > 0,
    ensures
        (a / b) * b <= a < (a / b) * b + b,
        0 <= a / b <= a,
        b >= 2 ==> 2 * (a / b) <= a,
        b == 1 ==> a / b == a,
{
}

proof fn lemma_signs(k: int, d: int, t: int, y: int)
    by (nonlinear_arith)
    requires
        t == k || t == -k,
        y == d || y == -d,
    ensures
        t == k && y == d ==> t * y == k * d,
        t == k && y == -d ==> t * y == -(k * d),
        t == -k && y == d ==> t * y == -(k * d),
        t == -k && y == -d ==> t * y == k * d,
{
}

/// Sixteen bits of a number by their place.
pub open spec fn quarter(v: u64, k: u64) -> u64 {
    (v >> ((16 * k) as u64)) & 0xFFFF
}

proof fn lemma_quarters(imm: u64, old: u64, hw: u64, k: u64)
    by (bit_vector)
    requires
        imm <= 0xFFFF,
        hw < 4,
        k < 4,
    ensures
        ((imm << ((16 * hw) as u64)) >> ((16 * k) as u64)) & 0xFFFF == (if k == hw {
            imm
        } else {
            0
        }),
        (!(imm << ((16 * hw) as u64)) >> ((16 * k) as u64)) & 0xFFFF == (if k == hw {
            0xFFFF - imm
        } else {
            0xFFFF
        }),
        ((!(imm << ((16 * hw) as u64)) % 0x1_0000_0000) >> ((16 * k) as u64)) & 0xFFFF == (if k >= 2 {
            0
        } else if k == hw {
            0xFFFF - imm
        } else {
            0xFFFF
        }),
        (((old & !(0xFFFFu64 << ((16 * hw) as u64))) | (imm << ((16 * hw) as u64))) >> ((16
            * k) as u64)) & 0xFFFF == (if k == hw {
            imm
        } else {
            (old >> ((16 * k) as u64)) & 0xFFFF
        }),
{
}

/// MOVZ, MOVK and MOVN: one quarter of the register gets the immediate; the others become zero,
/// stay, or, inverted with it, become ones.
pub proof fn law_move_wide(s: StateView, inst: u32, k: u64)
    requires
        (inst >> 23) & 0x3F == 0x25,
        (inst >> 29) & 3 != 1,
        inst & 0x1F != 31,
        s.cpu.x.len() == 31,
        k < 4,
    ensures
        ({
            let imm = ((inst >> 5) & 0xFFFF) as u64;
            let chosen = k == (inst >> 21) & 3;
            let opc = (inst >> 29) & 3;
            let r = stepped(s, inst).0.cpu.x[(inst & 0x1F) as int];
            &&& stepped(s, inst) == (put_value(s, inst & 0x1F, r as int), Ok::<(), Fault>(()))
            &&& opc == 2 ==> quarter(r, k) == (if chosen {
                imm
            } else {
                0
            })
            &&& opc == 3 ==> quarter(r, k) == (if chosen {
                imm
            } else {
                quarter(s.cpu.x[(inst & 0x1F) as int], k)
            })
            &&& opc == 0 && inst >> 31 != 0 ==> quarter(r, k) == (if chosen {
                0xFFFF - imm
            } else {
                0xFFFF
            })
            &&& opc == 0 && inst >> 31 == 0 ==> quarter(r, k) == (if k >= 2 {
                0
            } else if chosen {
                0xFFFF - imm
            } else {
                0xFFFF
            })
        }),
{
    lemma_fields(inst);
    assert(stepped(s, inst) == with_cpu(s, move_wide(s.cpu, inst))) by {
        reveal(stepped);
        reveal(immediate_step);
        lemma_class(inst);
    }
    let imm = ((inst >> 5) & 0xFFFF) as u64;
    let hw = ((inst >> 21) & 3) as u64;
    assert(((inst >> 21) & 0x3) * 16 == 16 * hw);
    lemma_quarters(imm, s.cpu.x[(inst & 0x1F) as int], hw, k);
}

proof fn lemma_immediates(imms: u32, immr: u32, n: u32)
    by (bit_vector)
    requires
        imms < 64,
        immr < 64,
    ensures
        ((1u32 << 6u32) | ((!imms) & 0x3F)) & (1u32 << 6u32) != 0,
        imms < 32 ==> ((0u32 << 6u32) | ((!imms) & 0x3F)) & (1u32 << 6u32) == 0,
        imms < 32 ==> ((0u32 << 6u32) | ((!imms) & 0x3F)) & (1u32 << 5u32) != 0,
        1u32 << 6u32 == 64,
        1u32 << 5u32 == 32,
        imms & 63 == imms,
        immr & 63 == immr,
        imms < 32 ==> imms & 31 == imms,
        immr < 32 ==> immr & 31 == immr,
        imms >= immr ==> ((imms - immr) as u32) & 63 == imms - immr,
        imms < immr ==> ((0x1_0000_0000 + imms - immr) as u32) & 63 == 64 + imms - immr,
        imms >= immr ==> ((imms - immr) as u32) & 31 == (imms - immr) % 32,
        imms < immr && immr < 32 ==> ((0x1_0000_0000 + imms - immr) as u32) & 31 == 32 + imms - immr,
{
}

pub(crate) proof fn lemma_ones_bits(n: u32, i: int)
    requires
        0 <= i < 64,
        n <= 64,
    ensures
        bit_set(ones(n), i) == (i < n),
{
    lemma_bits(0, 0, if n < 64 {
        n as u64
    } else {
        0
    }, i as u64);
}

proof fn lemma_rotated_bits(x: u64, r: u32, i: int)
    requires
        r < 64,
        0 <= i < 64,
    ensures
        bit_set(rotated(x, r, true), i) == bit_set(x, (i + r) % 64),
{
    lemma_shifted_bits(x, 3, r, true, i);
}

/// The masks of an immediate whose element is the whole register.
proof fn lemma_whole_masks(imms: u32, immr: u32, i: int)
    requires
        imms < 64,
        immr < 64,
        0 <= i < 64,
    ensures
        ({
            let (wmask, tmask) = bit_masks(1, imms, immr, true);
            &&& bit_set(wmask, i) == ((i + immr) % 64 <= imms)
            &&& bit_set(tmask, i) == (i <= (if imms >= immr {
                imms - immr
            } else {
                64 + imms - immr
            }))
        }),
{
    lemma_immediates(imms, immr, 0);
    reveal_with_fuel(top_bit, 1);
    reveal_with_fuel(repeated, 2);
    let run = ones((imms + 1) as u32);
    let diff = (if imms >= immr {
        imms - immr
    } else {
        64 + imms - immr
    }) as u32;
    assert(imms.wrapping_sub(immr) & 63 == diff);
    let tmask = ones((diff + 1) as u32);
    lemma_ones_bits((diff + 1) as u32, i);
    lemma_ones_bits((imms + 1) as u32, (i + immr) % 64);
    lemma_ones_bits((imms + 1) as u32, i);
    lemma_ones_bits(64, i);
    let welem = if immr != 0 {
        ((run >> immr) | (run << ((64 - immr) as u32))) & ones(64)
    } else {
        run
    };
    lemma_rotated_bits(run, immr, i);
    lemma_bits(rotated(run, immr, true), ones(64), 0, i as u64);
    lemma_bits(welem, 0, 0, 0);
    lemma_bits(tmask, 0, 0, 0);
    let length = top_bit((1u32 << 6) | ((!imms) & 0x3F), 6);
    assert(length == 6);
    assert(repeated(welem, 64, 1) == repeated(welem, 64, 0) | (welem << 0));
    assert(repeated(tmask, 64, 1) == repeated(tmask, 64, 0) | (tmask << 0));
    assert(bit_masks(1, imms, immr, true) == (welem, tmask));
}

/// UBFM, SBFM and BFM of 64 bits, and so the shifts by a constant and the moves of fields: where the
/// second position is not below the first, the bits between them come down to the bottom; else the low
/// bits go up to the first position from the top. The other bits are clear, copies of the field's top
/// bit above it, or the destination's own.
#[verifier::rlimit(100)]
#[verifier::spinoff_prover]
pub proof fn law_bitfield(s: StateView, inst: u32, i: int)
    requires
        (inst >> 23) & 0x3F == 0x26,
        inst >> 31 != 0,
        (inst >> 22) & 1 == 1,
        (inst >> 29) & 3 != 3,
        inst & 0x1F != 31,
        s.cpu.x.len() == 31,
        0 <= i < 64,
    ensures
        ({
            let from = ((inst >> 16) & 0x3F) as int;
            let to = ((inst >> 10) & 0x3F) as int;
            let x = value_in(s, (inst >> 5) & 0x1F) as u64;
            let old_value = s.cpu.x[(inst & 0x1F) as int];
            let opc = (inst >> 29) & 3;
            let r = stepped(s, inst).0.cpu.x[(inst & 0x1F) as int];
            let (low, high) = if to >= from {
                (0int, to - from)
            } else {
                (64 - from, 64 - from + to)
            };
            &&& stepped(s, inst) == (put_value(s, inst & 0x1F, r as int), Ok::<(), Fault>(()))
            &&& low <= i <= high ==> bit_set(r, i) == bit_set(x, (i + from) % 64)
            &&& i < low || i > high ==> bit_set(r, i) == (if opc == 1 {
                bit_set(old_value, i)
            } else if opc == 0 {
                i > high && bit_set(x, to)
            } else {
                false
            })
        }),
{
    lemma_fields(inst);
    assert(stepped(s, inst) == with_cpu(s, bitfield(s.cpu, inst))) by {
        reveal(stepped);
        reveal(immediate_step);
        lemma_class(inst);
    }
    let immr = (inst >> 16) & 0x3F;
    let imms = (inst >> 10) & 0x3F;
    let x = value_in(s, (inst >> 5) & 0x1F) as u64;
    let dst = s.cpu.x[(inst & 0x1F) as int];
    let (wmask, tmask) = bit_masks(1, imms, immr, true);
    let rot = rotated(x, immr, true);
    let j = i as u64;
    lemma_whole_masks(imms, immr, i);
    lemma_rotated_bits(x, immr, i);
    let kept = rot & wmask;
    lemma_bits(rot, wmask, 0, j);
    lemma_bits(kept, tmask, 0, j);
    let top = if (x >> imms) & 1 != 0 {
        !0u64
    } else {
        0
    };
    lemma_bits(tmask, 0, 0, j);
    lemma_bits(wmask, 0, 0, j);
    lemma_bits(top, !tmask, 0, j);
    lemma_bits(top & !tmask, kept & tmask, 0, j);
    lemma_bits(dst, !wmask, 0, j);
    lemma_bits(dst & !wmask, kept, 0, j);
    let bot = (dst & !wmask) | kept;
    lemma_bits(bot, tmask, 0, j);
    lemma_bits(dst, !tmask, 0, j);
    lemma_bits(dst & !tmask, bot & tmask, 0, j);
    lemma_bits(x, 0, imms as u64, 0);
}

/// AND, ORR, EOR and ANDS of 64 bits with an immediate, which is a run of ones, rotated.
#[verifier::rlimit(100)]
#[verifier::spinoff_prover]
pub proof fn law_logical_immediate(s: StateView, inst: u32, i: int)
    requires
        (inst >> 23) & 0x3F == 0x24,
        inst >> 31 != 0,
        (inst >> 22) & 1 == 1,
        s.cpu.x.len() == 31,
        0 <= i < 64,
    ensures
        ({
            let mask = (i + ((inst >> 16) & 0x3F)) % 64 <= (inst >> 10) & 0x3F;
            let a = bit_set(value_in(s, (inst >> 5) & 0x1F) as u64, i);
            let opc = (inst >> 29) & 3;
            let d = inst & 0x1F;
            let after = stepped(s, inst).0;
            let r = if d == 31 {
                after.cpu.sp
            } else {
                after.cpu.x[d as int]
            };
            &&& stepped(s, inst).1 is Ok
            &&& opc != 3 ==> after == put_or_sp(s, d, r as int) && bit_set(r, i) == (if opc == 1 {
                a || mask
            } else if opc == 2 {
                a != mask
            } else {
                a && mask
            })
            &&& opc == 3 && d != 31 ==> bit_set(r, i) == (a && mask) && after == (StateView {
                cpu: CpuView {
                    n: bit_set(r, 63),
                    z: r == 0,
                    c: false,
                    v: false,
                    ..put_value(s, d, r as int).cpu
                },
                ..s
            })
        }),
{
    lemma_fields(inst);
    assert(stepped(s, inst) == with_processor(s, log_imm(s.cpu, inst))) by {
        reveal(stepped);
        reveal(immediate_step);
        lemma_class(inst);
    }
    let immr = (inst >> 16) & 0x3F;
    let imms = (inst >> 10) & 0x3F;
    let (wmask, _) = bit_masks(1, imms, immr, true);
    let a = value_in(s, (inst >> 5) & 0x1F) as u64;
    lemma_whole_masks(imms, immr, i);
    lemma_bits(a, wmask, 0, i as u64);
    lemma_bits(a & wmask, 0, 0, 0);
}

/// EXTR of 64 bits: the window at a position of two registers laid end to end.
pub proof fn law_extract(s: StateView, inst: u32, i: int)
    requires
        (inst >> 26) & 7 == 4,
        (inst >> 23) & 7 == 7,
        inst >> 31 != 0,
        inst & 0x1F != 31,
        s.cpu.x.len() == 31,
        0 <= i < 64,
    ensures
        ({
            let at = i + ((inst >> 10) & 0x3F);
            let high = value_in(s, (inst >> 5) & 0x1F) as u64;
            let low = value_in(s, (inst >> 16) & 0x1F) as u64;
            let r = stepped(s, inst).0.cpu.x[(inst & 0x1F) as int];
            &&& stepped(s, inst) == (put_value(s, inst & 0x1F, r as int), Ok::<(), Fault>(()))
            &&& bit_set(r, i) == (if at < 64 {
                bit_set(low, at)
            } else {
                bit_set(high, at - 64)
            })
        }),
{
    assert(stepped(s, inst) == with_cpu(s, extract(s.cpu, inst))) by {
        reveal(stepped);
        reveal(immediate_step);
        lemma_class(inst);
    }
    let lsb = (inst >> 10) & 0x3F;
    let hi = value_in(s, (inst >> 5) & 0x1F) as u64;
    let lo = value_in(s, (inst >> 16) & 0x1F) as u64;
    let j = i as u64;
    if lsb > 0 {
        let up = (64 - lsb) as u64;
        lemma_bits(hi, 0, up, j);
        lemma_bits(lo, 0, lsb as u64, j);
        lemma_bits(hi << up, lo >> lsb, 0, j);
    }
}

/// CCMN and CCMP: where the condition holds the flags are those of a sum or a difference, of a
/// register and a register or a small number, and else the ones that the instruction brings.
#[verifier::rlimit(100)]
#[verifier::spinoff_prover]
pub proof fn law_conditional_compare(s: StateView, inst: u32)
    requires
        (inst >> 24) & 0x1F == 0x1A,
        (inst >> 21) & 7 == 2 || (inst >> 21) & 7 == 3,
    ensures
        ({
            let w = span(inst);
            let a = value_in(s, (inst >> 5) & 0x1F) % w;
            let b = (if (inst >> 11) & 1 == 1 {
                ((inst >> 16) & 0x1F) as int
            } else {
                value_in(s, (inst >> 16) & 0x1F)
            }) % w;
            let subtract = (inst >> 30) & 1 == 1;
            let r = if subtract {
                a - b
            } else {
                a + b
            };
            let after = stepped(s, inst).0;
            &&& stepped(s, inst).1 is Ok
            &&& after == (StateView {
                cpu: CpuView {
                    n: after.cpu.n,
                    z: after.cpu.z,
                    c: after.cpu.c,
                    v: after.cpu.v,
                    pc: s.cpu.pc.wrapping_add(4),
                    ..s.cpu
                },
                ..s
            })
            &&& s.cpu.cond((inst >> 12) & 0xF) ==> {
                &&& after.cpu.n == (as_signed(r % w, w) < 0)
                &&& after.cpu.z == (r % w == 0)
                &&& after.cpu.c == (if subtract {
                    a >= b
                } else {
                    r >= w
                })
                &&& after.cpu.v == (as_signed(r % w, w) != (if subtract {
                    as_signed(a, w) - as_signed(b, w)
                } else {
                    as_signed(a, w) + as_signed(b, w)
                }))
            }
            &&& !s.cpu.cond((inst >> 12) & 0xF) ==> {
                &&& after.cpu.n == (inst & 0xF >= 8)
                &&& after.cpu.z == ((inst & 0xF) / 4 % 2 == 1)
                &&& after.cpu.c == ((inst & 0xF) / 2 % 2 == 1)
                &&& after.cpu.v == ((inst & 0xF) % 2 == 1)
            }
        }),
{
    assert(stepped(s, inst) == with_processor(s, cond_compare(s.cpu, inst))) by {
        reveal(stepped);
        reveal(register_step);
        lemma_class(inst);
    }
    lemma_flag_field(inst & 0xF, inst);
    let b = if (inst >> 11) & 1 != 0 {
        ((inst >> 16) & 0x1F) as u64
    } else {
        s.cpu.reg((inst >> 16) & 0x1F)
    };
    lemma_sum(s.cpu.reg((inst >> 5) & 0x1F), b, (inst >> 30) & 1 == 1, inst >> 31 != 0);
}

proof fn lemma_flag_field(f: u32, inst: u32)
    by (bit_vector)
    requires
        f <= 15,
    ensures
        (f >> 3) & 1 != 0 <==> f >= 8,
        (f >> 2) & 1 != 0 <==> f / 4 % 2 == 1,
        (f >> 1) & 1 != 0 <==> f / 2 % 2 == 1,
        f & 1 != 0 <==> f % 2 == 1,
        (inst >> 11) & 1 != 0 <==> (inst >> 11) & 1 == 1,
{
}

/// RBIT, REV16, REV and CLZ of 64 bits: the bits in reverse order, the bytes of each halfword
/// exchanged, the bytes in reverse order, and how many bits are clear above the highest that is set.
#[verifier::rlimit(100)]
#[verifier::spinoff_prover]
pub proof fn law_one_source(s: StateView, inst: u32, i: int)
    requires
        (inst >> 24) & 0x1F == 0x1A,
        (inst >> 21) & 7 == 6,
        (inst >> 30) & 1 == 1,
        inst >> 31 != 0,
        (inst >> 10) & 0x3F == 0 || (inst >> 10) & 0x3F == 1 || (inst >> 10) & 0x3F == 3 || (inst
            >> 10) & 0x3F == 4,
        inst & 0x1F != 31,
        s.cpu.x.len() == 31,
        0 <= i < 64,
    ensures
        ({
            let x = value_in(s, (inst >> 5) & 0x1F) as u64;
            let kind = (inst >> 10) & 0x3F;
            let r = stepped(s, inst).0.cpu.x[(inst & 0x1F) as int];
            &&& stepped(s, inst) == (put_value(s, inst & 0x1F, r as int), Ok::<(), Fault>(()))
            &&& kind == 0 ==> bit_set(r, i) == bit_set(x, 63 - i)
            &&& kind == 1 ==> bit_set(r, i) == bit_set(
                x,
                if i % 16 < 8 {
                    i + 8
                } else {
                    i - 8
                },
            )
            &&& kind == 3 ==> bit_set(r, i) == bit_set(x, 56 - 8 * (i / 8) + i % 8)
            &&& kind == 4 ==> r <= 64 && (i >= 64 - r ==> !bit_set(x, i)) && (r < 64 ==> bit_set(
                x,
                63 - r,
            ))
        }),
{
    assert(stepped(s, inst) == with_cpu(s, dp_1src(s.cpu, inst))) by {
        reveal(stepped);
        reveal(register_step);
        lemma_class(inst);
    }
    let x = value_in(s, (inst >> 5) & 0x1F) as u64;
    crate::bits::lemma_bits_of(64, |k: int| crate::bits::bit(x, 63 - k));
    crate::bits::lemma_bits_of(64, |k: int| crate::bits::bit(x, 8 * (7 - k / 8) + k % 8));
    crate::bits::lemma_bits_of(
        64,
        |k: int| crate::bits::bit(x, crate::fpemu::helpers::other_byte(k)),
    );
    assert(crate::bits::bit(bits_reversed64(x), i) == crate::bits::bit(x, 63 - i));
    assert(crate::bits::bit(bytes_reversed64(x), i) == crate::bits::bit(
        x,
        8 * (7 - i / 8) + i % 8,
    ));
    assert(crate::bits::bit(halfwords_swapped64(x), i) == crate::bits::bit(
        x,
        crate::fpemu::helpers::other_byte(i),
    ));
    vstd::std_specs::bits::axiom_u64_leading_zeros(x);
    let zeros = u64_leading_zeros(x);
    if zeros < 64 {
        lemma_bits(x, 0, (63 - zeros) as u64, 0);
    }
    if i >= 64 - zeros {
        assert((x >> (i as u64)) & 1u64 == 0u64);
    }
}

} // verus!
