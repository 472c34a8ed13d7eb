//! What vector instructions do, bit by bit.
use crate::fpemu::cpu::CpuView;
use crate::fpemu::decode::simd::{
    adv_simd_3same, dup, ext, ins, lanes_reversed, modified_immediate, movi, narrowed, rev64_vec,
    shl, umov, xtn,
};
use crate::fpemu::fault::Fault;
use crate::fpemu::helpers::ones;
use crate::fpemu::lanes::{joined, lanes, vector_joined, vector_lanes};
use crate::fpemu::laws::logic::{bit_set, lemma_bits, lemma_ones_bits};
use crate::fpemu::laws::{put_value, value_in, with_processor};
use crate::fpemu::machine::{stepped, vector_step, with_cpu};
use crate::fpemu::state::StateView;
use vstd::prelude::*;

verus! {

broadcast use crate::bits::lemma_and_le_u32;

/// Whether a bit of a vector register is set.
pub open spec fn vector_bit(c: CpuView, n: u32, j: int) -> bool {
    if j < 64 {
        bit_set(c.vreg[n as int].0, j)
    } else {
        bit_set(c.vreg[n as int].1, j - 64)
    }
}

/// The state with the next instruction due and one vector register changed.
pub open spec fn put_vector(s: StateView, d: u32, v: (u64, u64)) -> StateView {
    StateView {
        cpu: CpuView {
            vreg: s.cpu.vreg.update(d as int, v),
            pc: s.cpu.pc.wrapping_add(4),
            ..s.cpu
        },
        ..s
    }
}

/// Whether lanes have a width.
pub open spec fn a_width(e: int) -> bool {
    e == 8 || e == 16 || e == 32 || e == 64
}

/// How a lane is named: its number above a bit that names its width.
pub open spec fn lane_field(e: int, index: int) -> int {
    if e == 8 {
        2 * index + 1
    } else if e == 16 {
        4 * index + 2
    } else if e == 32 {
        8 * index + 4
    } else {
        16 * index + 8
    }
}

/// Whether no lane holds more than its width.
spec fn narrow(s: Seq<u64>, e: int) -> bool {
    forall|i: int, k: int|
        0 <= i < s.len() && e <= k < 64 ==> !#[trigger] bit_set(s[i], k)
}

proof fn lemma_joined_bits(s: Seq<u64>, e: int, j: int)
    requires
        a_width(e),
        s.len() * e <= 64,
        0 <= j < 64,
        narrow(s, e),
    ensures
        bit_set(joined(s, e), j) == (j / e < s.len() && bit_set(s[j / e], j % e)),
    decreases s.len(),
{
    if s.len() == 0 {
        lemma_bits(0, 0, 0, j as u64);
    } else {
        let n = s.len() - 1;
        let before = s.drop_last();
        assert(narrow(before, e)) by {
            assert forall|i: int, k: int| 0 <= i < before.len() && e <= k < 64 implies !#[trigger]
                bit_set(before[i], k) by {
                assert(before[i] == s[i]);
                assert(!bit_set(s[i], k));
            }
        }
        assert(before.len() * e <= 64 && 0 <= e * n < 64) by {
            assert(e == 8 || e == 16 || e == 32 || e == 64);
        }
        lemma_joined_bits(before, e, j);
        let by = (e * n) as u64;
        lemma_bits(s.last(), 0, by, j as u64);
        lemma_bits(joined(before, e), s.last() << by, 0, j as u64);
        let d = j - e * n;
        if d >= 0 {
            if d >= e {
                assert(!bit_set(s[n], d));
            }
            assert(d < e ==> j / e == n && j % e == d);
            assert(d >= e ==> j / e > n);
        } else {
            assert(j / e < n);
            assert(before[j / e] == s[j / e]);
        }
    }
}

proof fn lemma_lane_bits(v: u64, e: int, i: int, k: int)
    requires
        a_width(e),
        0 <= i < 64int / e,
        0 <= k < 64,
    ensures
        bit_set(lanes(v, e)[i], k) == (k < e && bit_set(v, e * i + k)),
{
    let by = (e * i) as u64;
    assert(0 <= e * i && e * i + e <= 64) by {
        assert(e == 8 || e == 16 || e == 32 || e == 64);
    }
    lemma_bits(v, 0, by, k as u64);
    lemma_ones_bits(e as u32, k);
    lemma_bits(v >> by, ones(e as u32), 0, k as u64);
}

proof fn lemma_masked(x: u64, e: int, k: int)
    requires
        a_width(e),
        0 <= k < 64,
    ensures
        bit_set(x & ones(e as u32), k) == (k < e && bit_set(x, k)),
{
    lemma_ones_bits(e as u32, k);
    lemma_bits(x, ones(e as u32), 0, k as u64);
}

proof fn lemma_vector_class(inst: u32)
    by (bit_vector)
    ensures
        inst & 0xBFE0_FC00 == 0x0E00_0C00 || inst & 0xBFE0_FC00 == 0x0E00_3C00 || inst & 0xBFE0_FC00
            == 0x0E00_1C00 || inst & 0xBF80_FC00 == 0x0F00_5400 || inst & 0xBF3F_FC00 == 0x0E21_2800
            || inst & 0xBFE0_8400 == 0x2E00_0000 || inst & 0xBF3F_FC00 == 0x0E20_0800 || inst
            & 0x9F20_0400 == 0x0E20_0400 ==> inst & 0xFFE0_001F != 0xD420_0000 && ((inst >> 25) & 0xF)
            >> 1 != 4 && ((inst >> 25) & 0xF) >> 1 != 5 && ((inst >> 25) & 0xF) & 5 != 4 && ((inst
            >> 25) & 0xF) & 7 == 7 && inst & 0xFFFF_FC00 != 0x9E67_0000 && inst & 0xFFFF_FC00
            != 0x9E66_0000 && inst & 0xFFFF_FC00 != 0x9EAF_0000 && inst & 0xFFFF_FC00 != 0x9EAE_0000
            && inst & 0xFFFF_FC00 != 0x1E27_0000 && inst & 0xFFFF_FC00 != 0x1E26_0000,
        inst & 0xBF80_FC00 == 0x0F00_5400 ==> inst & 0xBFE0_FC00 != 0x0E00_0C00 && inst & 0xBFE0_FC00
            != 0x0E00_3C00 && inst & 0xBFE0_FC00 != 0x0E00_1C00,
        inst & 0x9FF8_0400 == 0x0F00_0400 ==> inst & 0xFFE0_001F != 0xD420_0000 && ((inst >> 25)
            & 0xF) >> 1 != 4 && ((inst >> 25) & 0xF) >> 1 != 5 && ((inst >> 25) & 0xF) & 5 != 4 && ((
        inst >> 25) & 0xF) & 7 == 7 && inst & 0xFFFF_FC00 != 0x9E67_0000 && inst & 0xFFFF_FC00
            != 0x9E66_0000 && inst & 0xFFFF_FC00 != 0x9EAF_0000 && inst & 0xFFFF_FC00 != 0x9EAE_0000
            && inst & 0xFFFF_FC00 != 0x1E27_0000 && inst & 0xFFFF_FC00 != 0x1E26_0000 && inst
            & 0xBFE0_FC00 != 0x0E00_0C00 && inst & 0xBFE0_FC00 != 0x0E00_3C00 && inst & 0xBFE0_FC00
            != 0x0E00_1C00,
        (((inst >> 16) & 7) << 5) | ((inst >> 5) & 0x1F) == ((inst >> 16) & 7) * 32 + ((inst >> 5)
            & 0x1F),
        (inst >> 29) & 1 <= 1,
        inst & 0xBF3F_FC00 == 0x0E21_2800 || inst & 0xBFE0_8400 == 0x2E00_0000 || inst & 0xBF3F_FC00
            == 0x0E20_0800 || inst & 0x9F20_0400 == 0x0E20_0400 ==> inst & 0xBFE0_FC00 != 0x0E00_0C00
            && inst & 0xBFE0_FC00 != 0x0E00_3C00 && inst & 0xBFE0_FC00 != 0x0E00_1C00 && inst
            & 0xBF80_FC00 != 0x0F00_5400 && inst & 0x9FF8_0400 != 0x0F00_0400,
        inst & 0xBFE0_8400 == 0x2E00_0000 ==> inst & 0xBF3F_FC00 != 0x0E21_2800,
        inst & 0xBF3F_FC00 == 0x0E20_0800 ==> inst & 0xBF3F_FC00 != 0x0E21_2800 && inst & 0xBFE0_8400
            != 0x2E00_0000,
        inst & 0x9F20_0400 == 0x0E20_0400 ==> inst & 0xBF3F_FC00 != 0x0E21_2800 && inst & 0xBFE0_8400
            != 0x2E00_0000 && inst & 0xBF3F_FC00 != 0x0E20_0800,
        inst & 0xFFFF_FC00 == 0x9E67_0000 || inst & 0xFFFF_FC00 == 0x9E66_0000 || inst & 0xFFFF_FC00
            == 0x9EAF_0000 || inst & 0xFFFF_FC00 == 0x9EAE_0000 || inst & 0xFFFF_FC00 == 0x1E27_0000
            || inst & 0xFFFF_FC00 == 0x1E26_0000 ==> inst & 0xFFE0_001F != 0xD420_0000 && ((inst
            >> 25) & 0xF) >> 1 != 4 && ((inst >> 25) & 0xF) >> 1 != 5 && ((inst >> 25) & 0xF) & 5
            != 4 && ((inst >> 25) & 0xF) & 7 == 7,
{
}

/// DUP: every lane gets the low bits of a register; the upper half only of a whole vector.
#[verifier::rlimit(100)]
#[verifier::spinoff_prover]
pub proof fn law_duplicate(s: StateView, inst: u32, e: int, index: int, j: int)
    requires
        inst & 0xBFE0_FC00 == 0x0E00_0C00,
        a_width(e),
        index >= 0,
        (inst >> 16) & 0x1F == lane_field(e, index),
        s.cpu.vreg.len() == 32,
        0 <= j < 128,
    ensures
        ({
            let x = value_in(s, (inst >> 5) & 0x1F) as u64;
            let (after, r) = stepped(s, inst);
            &&& r is Ok && after == put_vector(
                s,
                inst & 0x1F,
                after.cpu.vreg[(inst & 0x1F) as int],
            )
            &&& vector_bit(after.cpu, inst & 0x1F, j) == ((j < 64 || (inst >> 30) & 1 != 0)
                && bit_set(x, j % e))
        }),
{
    lemma_vector_class(inst);
    assert(stepped(s, inst) == with_processor(s, dup(s.cpu, inst))) by {
        reveal(stepped);
        reveal(vector_step);
    }
    lemma_width_named((inst >> 16) & 0x1F, e, index);
    let x = value_in(s, (inst >> 5) & 0x1F) as u64;
    let elem = x & ones(e as u32);
    let all = Seq::new((64int / e) as nat, |i: int| elem);
    assert(narrow(all, e)) by {
        assert forall|i: int, k: int| 0 <= i < all.len() && e <= k < 64 implies !#[trigger] bit_set(
            all[i],
            k,
        ) by {
            lemma_masked(x, e, k);
        }
    }
    let k = j % 64;
    assert(all.len() * e == 64 && k / e < all.len() && k % e == j % e) by {
        assert(e == 8 || e == 16 || e == 32 || e == 64);
    }
    lemma_joined_bits(all, e, k);
    lemma_masked(x, e, k % e);
    lemma_bits(0, 0, 0, k as u64);
}

proof fn lemma_width_named(imm5: u32, e: int, index: int)
    requires
        a_width(e),
        index >= 0,
        imm5 == lane_field(e, index),
    ensures
        crate::fpemu::decode::simd::lane_width(imm5) == e,
        crate::fpemu::decode::simd::lane_index(imm5) == index,
{
}

/// UMOV: a register gets one lane of a vector, and zeros above it.
#[verifier::rlimit(100)]
#[verifier::spinoff_prover]
pub proof fn law_lane_out(s: StateView, inst: u32, e: int, index: int, k: int)
    requires
        inst & 0xBFE0_FC00 == 0x0E00_3C00,
        a_width(e),
        0 <= index,
        index * e < 128,
        (inst >> 16) & 0x1F == lane_field(e, index),
        inst & 0x1F != 31,
        s.cpu.x.len() == 31,
        0 <= k < 64,
    ensures
        ({
            let r = stepped(s, inst).0.cpu.x[(inst & 0x1F) as int];
            &&& stepped(s, inst) == (put_value(s, inst & 0x1F, r as int), Ok::<(), Fault>(()))
            &&& bit_set(r, k) == (k < e && vector_bit(s.cpu, (inst >> 5) & 0x1F, e * index + k))
        }),
{
    lemma_vector_class(inst);
    assert(stepped(s, inst) == with_processor(s, umov(s.cpu, inst))) by {
        reveal(stepped);
        reveal(vector_step);
    }
    lemma_width_named((inst >> 16) & 0x1F, e, index);
    let n = (inst >> 5) & 0x1F;
    lemma_vector_lane(s.cpu.lo(n), s.cpu.hi(n), e, index, k);
}

proof fn lemma_lane_place(e: int, index: int)
    requires
        a_width(e),
        0 <= index,
        index * e < 128,
    ensures
        index < 64int / e ==> e * index + e <= 64,
        index >= 64int / e ==> index - 64int / e < 64int / e && e * index == e * (index - 64int / e)
            + 64,
        2 * (64int / e) == 128int / e,
        index < 128int / e,
{
    if e == 8 {
        assert(index * 8 < 128);
    } else if e == 16 {
        assert(index * 16 < 128);
    } else if e == 32 {
        assert(index * 32 < 128);
    } else {
        assert(index * 64 < 128);
    }
}

proof fn lemma_vector_lane(lo: u64, hi: u64, e: int, index: int, k: int)
    requires
        a_width(e),
        0 <= index,
        index * e < 128,
        0 <= k < 64,
    ensures
        vector_lanes(lo, hi, e).len() == 128int / e,
        bit_set(vector_lanes(lo, hi, e)[index], k) == (k < e && (if e * index + k < 64 {
            bit_set(lo, e * index + k)
        } else {
            bit_set(hi, e * index + k - 64)
        })),
{
    let half = 64int / e;
    assert(lanes(lo, e).len() == half);
    lemma_lane_place(e, index);
    if index < half {
        lemma_lane_bits(lo, e, index, k);
    } else {
        lemma_lane_bits(hi, e, index - half, k);
    }
}

/// The bitwise vector instructions: AND, BIC, ORR, ORN, EOR, and the three that choose between two
/// sources by the bits of a third.
#[verifier::rlimit(100)]
#[verifier::spinoff_prover]
pub proof fn law_vector_bitwise(s: StateView, inst: u32, j: int)
    requires
        inst & 0x9F20_0400 == 0x0E20_0400,
        (inst >> 11) & 0x1F == 3,
        s.cpu.vreg.len() == 32,
        0 <= j < 128,
    ensures
        ({
            let a = vector_bit(s.cpu, (inst >> 5) & 0x1F, j);
            let b = vector_bit(s.cpu, (inst >> 16) & 0x1F, j);
            let d = vector_bit(s.cpu, inst & 0x1F, j);
            let size = (inst >> 22) & 3;
            let (after, r) = stepped(s, inst);
            let chosen = if (inst >> 29) & 1 == 0 {
                if size == 0 {
                    a && b
                } else if size == 1 {
                    a && !b
                } else if size == 2 {
                    a || b
                } else {
                    a || !b
                }
            } else {
                if size == 0 {
                    a != b
                } else if size == 1 {
                    if d {
                        a
                    } else {
                        b
                    }
                } else if size == 2 {
                    if b {
                        a
                    } else {
                        d
                    }
                } else {
                    if b {
                        d
                    } else {
                        a
                    }
                }
            };
            &&& r is Ok && after == put_vector(
                s,
                inst & 0x1F,
                after.cpu.vreg[(inst & 0x1F) as int],
            )
            &&& vector_bit(after.cpu, inst & 0x1F, j) == ((j < 64 || (inst >> 30) & 1 != 0) && chosen)
        }),
{
    lemma_vector_class(inst);
    assert(stepped(s, inst) == with_cpu(s, adv_simd_3same(s.cpu, inst))) by {
        reveal(stepped);
        reveal(vector_step);
    }
    let (n, m, d) = ((inst >> 5) & 0x1F, (inst >> 16) & 0x1F, inst & 0x1F);
    let k = j % 64;
    assert((inst >> 29) & 1 <= 1);
    lemma_bitwise_bits(s.cpu.lo(n), s.cpu.lo(m), s.cpu.lo(d), k);
    lemma_bitwise_bits(s.cpu.hi(n), s.cpu.hi(m), s.cpu.hi(d), k);
    lemma_bits(0, 0, 0, k as u64);
}

proof fn lemma_bitwise_bits(a: u64, b: u64, d: u64, k: int)
    requires
        0 <= k < 64,
    ensures
        bit_set(a & b, k) == (bit_set(a, k) && bit_set(b, k)),
        bit_set(a & !b, k) == (bit_set(a, k) && !bit_set(b, k)),
        bit_set(a | b, k) == (bit_set(a, k) || bit_set(b, k)),
        bit_set(a | !b, k) == (bit_set(a, k) || !bit_set(b, k)),
        bit_set(a ^ b, k) == (bit_set(a, k) != bit_set(b, k)),
        bit_set((a & d) | (b & !d), k) == (if bit_set(d, k) {
            bit_set(a, k)
        } else {
            bit_set(b, k)
        }),
        bit_set((a & b) | (d & !b), k) == (if bit_set(b, k) {
            bit_set(a, k)
        } else {
            bit_set(d, k)
        }),
        bit_set((a & !b) | (d & b), k) == (if bit_set(b, k) {
            bit_set(d, k)
        } else {
            bit_set(a, k)
        }),
{
    let j = k as u64;
    lemma_bits(a, b, 0, j);
    lemma_bits(b, b, 0, j);
    lemma_bits(d, d, 0, j);
    lemma_bits(a, !b, 0, j);
    lemma_bits(a, d, 0, j);
    lemma_bits(b, !d, 0, j);
    lemma_bits(a & d, b & !d, 0, j);
    lemma_bits(d, !b, 0, j);
    lemma_bits(a & b, d & !b, 0, j);
    lemma_bits(d, b, 0, j);
    lemma_bits(a & !b, d & b, 0, j);
}

/// SHL: each lane is shifted left within itself.
#[verifier::rlimit(100)]
#[verifier::spinoff_prover]
pub proof fn law_vector_shift(s: StateView, inst: u32, e: int, shift: int, j: int)
    requires
        inst & 0xBF80_FC00 == 0x0F00_5400,
        a_width(e),
        0 <= shift < e,
        8 * ((inst >> 19) & 0xF) + ((inst >> 16) & 0x7) == e + shift,
        s.cpu.vreg.len() == 32,
        0 <= j < 128,
    ensures
        ({
            let (after, r) = stepped(s, inst);
            &&& r is Ok && after == put_vector(
                s,
                inst & 0x1F,
                after.cpu.vreg[(inst & 0x1F) as int],
            )
            &&& vector_bit(after.cpu, inst & 0x1F, j) == ((j < 64 || (inst >> 30) & 1 != 0) && j % e
                >= shift && vector_bit(s.cpu, (inst >> 5) & 0x1F, j - shift))
        }),
{
    lemma_vector_class(inst);
    assert(stepped(s, inst) == with_processor(s, shl(s.cpu, inst))) by {
        reveal(stepped);
        reveal(vector_step);
    }
    let immh = (inst >> 19) & 0xF;
    assert(crate::fpemu::decode::simd::shift_width(immh) == e);
    let n = (inst >> 5) & 0x1F;
    let k = j % 64;
    lemma_shifted_lanes(s.cpu.lo(n), e, shift as u32, k);
    lemma_shifted_lanes(s.cpu.hi(n), e, shift as u32, k);
    lemma_bits(0, 0, 0, k as u64);
    assert(k % e == j % e) by {
        assert(e == 8 || e == 16 || e == 32 || e == 64);
    }
    assert(k % e <= k) by {
        assert(e == 8 || e == 16 || e == 32 || e == 64);
    }
}

proof fn lemma_shifted_lanes(v: u64, e: int, shift: u32, k: int)
    requires
        a_width(e),
        shift < e,
        0 <= k < 64,
    ensures
        bit_set(crate::fpemu::decode::simd::lanes_shifted(v, e, shift), k) == (k % e >= shift
            && bit_set(v, k - shift)),
{
    let f = |x: u64| (x << shift) & ones(e as u32);
    let all = lanes(v, e).map_values(f);
    assert(narrow(all, e)) by {
        assert forall|i: int, b: int| 0 <= i < all.len() && e <= b < 64 implies !#[trigger] bit_set(
            all[i],
            b,
        ) by {
            lemma_masked(lanes(v, e)[i] << shift, e, b);
        }
    }
    assert(all.len() * e == 64 && 0 <= k / e < all.len() && 0 <= k % e < e && e * (k / e) + k % e == k)
        by {
        assert(e == 8 || e == 16 || e == 32 || e == 64);
    }
    lemma_joined_bits(all, e, k);
    let lane = lanes(v, e)[k / e];
    lemma_masked(lane << shift, e, k % e);
    lemma_bits(lane, 0, shift as u64, (k % e) as u64);
    if k % e >= shift {
        lemma_lane_bits(v, e, k / e, k % e - shift);
    }
}

/// EXT: sixteen bytes out of two vectors, one behind the other.
#[verifier::rlimit(100)]
#[verifier::spinoff_prover]
pub proof fn law_vector_extract(s: StateView, inst: u32, j: int)
    requires
        inst & 0xBFE0_8400 == 0x2E00_0000,
        s.cpu.vreg.len() == 32,
        0 <= j < 128,
    ensures
        ({
            let (after, r) = stepped(s, inst);
            let at = j + 8 * ((inst >> 11) & 0xF);
            &&& r is Ok && after == put_vector(
                s,
                inst & 0x1F,
                after.cpu.vreg[(inst & 0x1F) as int],
            )
            &&& vector_bit(after.cpu, inst & 0x1F, j) == (if at < 128 {
                vector_bit(s.cpu, (inst >> 5) & 0x1F, at)
            } else {
                vector_bit(s.cpu, (inst >> 16) & 0x1F, at - 128)
            })
        }),
{
    lemma_vector_class(inst);
    assert(stepped(s, inst) == with_processor(s, ext(s.cpu, inst))) by {
        reveal(stepped);
        reveal(vector_step);
    }
    let (n, m) = ((inst >> 5) & 0x1F, (inst >> 16) & 0x1F);
    let first = vector_lanes(s.cpu.lo(n), s.cpu.hi(n), 8);
    let second = vector_lanes(s.cpu.lo(m), s.cpu.hi(m), 8);
    let start = ((inst >> 11) & 0xF) as int;
    lemma_vector_lane(s.cpu.lo(n), s.cpu.hi(n), 8, 0, 0);
    lemma_vector_lane(s.cpu.lo(m), s.cpu.hi(m), 8, 0, 0);
    let window = (first + second).subrange(start, start + 16);
    assert forall|i: int, b: int| 0 <= i < 16 && 8 <= b < 64 implies !#[trigger] bit_set(
        window[i],
        b,
    ) by {
        if start + i < 16 {
            assert(window[i] == first[start + i]);
            lemma_vector_lane(s.cpu.lo(n), s.cpu.hi(n), 8, start + i, b);
        } else {
            assert(window[i] == second[start + i - 16]);
            lemma_vector_lane(s.cpu.lo(m), s.cpu.hi(m), 8, start + i - 16, b);
        }
    }
    lemma_vector_joined(window, 8, j);
    let i = j / 8;
    if start + i < 16 {
        assert(window[i] == first[start + i]);
        lemma_vector_lane(s.cpu.lo(n), s.cpu.hi(n), 8, start + i, j % 8);
    } else {
        assert(window[i] == second[start + i - 16]);
        lemma_vector_lane(s.cpu.lo(m), s.cpu.hi(m), 8, start + i - 16, j % 8);
    }
}

proof fn lemma_vector_joined(s: Seq<u64>, e: int, j: int)
    requires
        a_width(e),
        s.len() == 128int / e,
        0 <= j < 128,
        narrow(s, e),
    ensures
        ({
            let v = vector_joined(s, e);
            (if j < 64 {
                bit_set(v.0, j)
            } else {
                bit_set(v.1, j - 64)
            }) == bit_set(s[j / e], j % e)
        }),
{
    let half = 64int / e;
    let low = s.take(half);
    let high = s.skip(half);
    assert forall|i: int, b: int| 0 <= i < low.len() && e <= b < 64 implies !#[trigger] bit_set(
        low[i],
        b,
    ) by {
        assert(!bit_set(s[i], b));
    }
    assert forall|i: int, b: int| 0 <= i < high.len() && e <= b < 64 implies !#[trigger] bit_set(
        high[i],
        b,
    ) by {
        assert(!bit_set(s[half + i], b));
    }
    assert(low.len() * e == 64 && high.len() * e == 64) by {
        assert(e == 8 || e == 16 || e == 32 || e == 64);
    }
    if j < 64 {
        lemma_joined_bits(low, e, j);
        assert(j / e < half && 0 <= j / e) by {
            assert(e == 8 || e == 16 || e == 32 || e == 64);
        }
    } else {
        lemma_joined_bits(high, e, j - 64);
        assert((j - 64) / e == j / e - half && (j - 64) % e == j % e && 0 <= j / e - half < half) by {
            assert(e == 8 || e == 16 || e == 32 || e == 64);
        }
    }
}

/// INS: one lane of a vector gets the low bits of a register, the others stay.
#[verifier::rlimit(100)]
#[verifier::spinoff_prover]
pub proof fn law_lane_in(s: StateView, inst: u32, e: int, index: int, j: int)
    requires
        inst & 0xBFE0_FC00 == 0x0E00_1C00,
        a_width(e),
        0 <= index,
        index * e < 128,
        (inst >> 16) & 0x1F == lane_field(e, index),
        s.cpu.vreg.len() == 32,
        0 <= j < 128,
    ensures
        ({
            let x = value_in(s, (inst >> 5) & 0x1F) as u64;
            let (after, r) = stepped(s, inst);
            &&& r is Ok && after == put_vector(
                s,
                inst & 0x1F,
                after.cpu.vreg[(inst & 0x1F) as int],
            )
            &&& vector_bit(after.cpu, inst & 0x1F, j) == (if j / e == index {
                bit_set(x, j % e)
            } else {
                vector_bit(s.cpu, inst & 0x1F, j)
            })
        }),
{
    lemma_vector_class(inst);
    assert(stepped(s, inst) == with_processor(s, ins(s.cpu, inst))) by {
        reveal(stepped);
        reveal(vector_step);
    }
    lemma_width_named((inst >> 16) & 0x1F, e, index);
    lemma_lane_place(e, index);
    let d = inst & 0x1F;
    let (lo, hi) = (s.cpu.lo(d), s.cpu.hi(d));
    let x = value_in(s, (inst >> 5) & 0x1F) as u64;
    let was = vector_lanes(lo, hi, e);
    lemma_vector_lane(lo, hi, e, index, 0);
    let is = was.update(index, x & ones(e as u32));
    assert forall|i: int, b: int| 0 <= i < is.len() && e <= b < 64 implies !#[trigger] bit_set(
        is[i],
        b,
    ) by {
        if i == index {
            lemma_masked(x, e, b);
        } else {
            assert(i * e < 128) by {
                assert(e == 8 || e == 16 || e == 32 || e == 64);
            }
            lemma_vector_lane(lo, hi, e, i, b);
        }
    }
    lemma_vector_joined(is, e, j);
    assert((j / e) * e < 128 && 0 <= j / e < is.len() && 0 <= j % e < e && e * (j / e) + j % e == j)
        by {
        assert(e == 8 || e == 16 || e == 32 || e == 64);
    }
    if j / e == index {
        lemma_masked(x, e, j % e);
    } else {
        lemma_vector_lane(lo, hi, e, j / e, j % e);
    }
}

/// REV64: the lanes of each half in reverse order.
#[verifier::rlimit(100)]
#[verifier::spinoff_prover]
pub proof fn law_lanes_reversed(v: u64, e: int, size: u32, j: int)
    requires
        (size == 0 && e == 8) || (size == 1 && e == 16) || (size == 2 && e == 32),
        0 <= j < 64,
    ensures
        bit_set(lanes_reversed(v, size), j) == bit_set(v, 64 - e - e * (j / e) + j % e),
{
    let r = lanes(v, e).reverse();
    let n = 64int / e;
    assert forall|i: int, b: int| 0 <= i < r.len() && e <= b < 64 implies !#[trigger] bit_set(
        r[i],
        b,
    ) by {
        assert(r[i] == lanes(v, e)[n - 1 - i]);
        lemma_lane_bits(v, e, n - 1 - i, b);
    }
    assert(r.len() * e == 64 && 0 <= j / e < n && 0 <= j % e < e && e * (n - 1 - j / e) == 64 - e - e
        * (j / e)) by {
        assert(e == 8 || e == 16 || e == 32);
    }
    lemma_joined_bits(r, e, j);
    assert(r[j / e] == lanes(v, e)[n - 1 - j / e]);
    lemma_lane_bits(v, e, n - 1 - j / e, j % e);
}

/// REV64 reverses the lanes of each half of a vector, and clears the upper half of a short one.
pub proof fn law_vector_reverse(s: StateView, inst: u32)
    requires
        inst & 0xBF3F_FC00 == 0x0E20_0800,
    ensures
        ({
            let n = ((inst >> 5) & 0x1F) as int;
            let size = (inst >> 22) & 3;
            stepped(s, inst) == (
                put_vector(
                    s,
                    inst & 0x1F,
                    (
                        lanes_reversed(s.cpu.vreg[n].0, size),
                        if (inst >> 30) & 1 != 0 {
                            lanes_reversed(s.cpu.vreg[n].1, size)
                        } else {
                            0
                        },
                    ),
                ),
                Ok::<(), Fault>(()),
            )
        }),
{
    lemma_vector_class(inst);
    assert(stepped(s, inst) == with_processor(s, rev64_vec(s.cpu, inst))) by {
        reveal(stepped);
        reveal(vector_step);
    }
}

/// XTN: the lower half of each lane.
#[verifier::rlimit(100)]
#[verifier::spinoff_prover]
pub proof fn law_narrowed(lo: u64, hi: u64, e: int, j: int)
    requires
        e == 8 || e == 16 || e == 32,
        0 <= j < 64,
    ensures
        bit_set(narrowed(lo, hi, e), j) == (if 2 * e * (j / e) + j % e < 64 {
            bit_set(lo, 2 * e * (j / e) + j % e)
        } else {
            bit_set(hi, 2 * e * (j / e) + j % e - 64)
        }),
{
    let wide = vector_lanes(lo, hi, 2 * e);
    let all = wide.map_values(|x: u64| x & ones(e as u32));
    lemma_vector_lane(lo, hi, 2 * e, 0, 0);
    assert forall|i: int, b: int| 0 <= i < all.len() && e <= b < 64 implies !#[trigger] bit_set(
        all[i],
        b,
    ) by {
        lemma_masked(wide[i], e, b);
    }
    assert(all.len() * e == 64 && 0 <= j / e < all.len() && 0 <= j % e < e && (j / e) * (2 * e) < 128
        && (2 * e) * (j / e) == 2 * e * (j / e)) by {
        assert(e == 8 || e == 16 || e == 32);
    }
    lemma_joined_bits(all, e, j);
    lemma_masked(wide[j / e], e, j % e);
    lemma_vector_lane(lo, hi, 2 * e, j / e, j % e);
}

/// XTN writes the narrowed lanes to the lower half and clears the upper; XTN2 writes them to the upper
/// half and leaves the lower.
pub proof fn law_vector_narrow(s: StateView, inst: u32, e: int)
    requires
        inst & 0xBF3F_FC00 == 0x0E21_2800,
        ((inst >> 22) & 3 == 0 && e == 8) || ((inst >> 22) & 3 == 1 && e == 16) || ((inst >> 22) & 3
            == 2 && e == 32),
    ensures
        ({
            let n = ((inst >> 5) & 0x1F) as int;
            let half = narrowed(s.cpu.vreg[n].0, s.cpu.vreg[n].1, e);
            stepped(s, inst) == (
                put_vector(
                    s,
                    inst & 0x1F,
                    if (inst >> 30) & 1 == 0 {
                        (half, 0)
                    } else {
                        (s.cpu.vreg[(inst & 0x1F) as int].0, half)
                    },
                ),
                Ok::<(), Fault>(()),
            )
        }),
{
    lemma_vector_class(inst);
    assert(stepped(s, inst) == with_processor(s, xtn(s.cpu, inst))) by {
        reveal(stepped);
        reveal(vector_step);
    }
}

/// The moves between registers and vectors: a whole register to or from the lower or the upper half,
/// or its low 32 bits; what a lower half is moved into is clear above it.
#[verifier::rlimit(100)]
#[verifier::spinoff_prover]
pub proof fn law_vector_moves(s: StateView, inst: u32)
    ensures
        ({
            let (n, d) = ((inst >> 5) & 0x1F, inst & 0x1F);
            let x = value_in(s, n) as u64;
            let v = s.cpu.vreg[n as int];
            let kind = inst & 0xFFFF_FC00;
            let to_vector = |h: (u64, u64)| (put_vector(s, d, h), Ok::<(), Fault>(()));
            let to_register = |r: int| (put_value(s, d, r), Ok::<(), Fault>(()));
            &&& kind == 0x9E67_0000 ==> stepped(s, inst) == to_vector((x, 0u64))
            &&& kind == 0x9E66_0000 ==> stepped(s, inst) == to_register(v.0 as int)
            &&& kind == 0x9EAF_0000 ==> stepped(s, inst) == to_vector((s.cpu.vreg[d as int].0, x))
            &&& kind == 0x9EAE_0000 ==> stepped(s, inst) == to_register(v.1 as int)
            &&& kind == 0x1E27_0000 ==> stepped(s, inst) == to_vector((x % 0x1_0000_0000, 0u64))
            &&& kind == 0x1E26_0000 ==> stepped(s, inst) == to_register(v.0 as int % 0x1_0000_0000)
        }),
{
    lemma_vector_class(inst);
    let kind = inst & 0xFFFF_FC00;
    if kind == 0x9E67_0000 || kind == 0x9E66_0000 || kind == 0x9EAF_0000 || kind == 0x9EAE_0000
        || kind == 0x1E27_0000 || kind == 0x1E26_0000 {
        assert(stepped(s, inst) == with_processor(
            s,
            crate::fpemu::decode::simd::fmov(s.cpu, inst)->Some_0,
        )) by {
            reveal(stepped);
            reveal(vector_step);
        }
    }
}

proof fn lemma_same_number(a: u64, b: u64)
    requires
        forall|k: int| 0 <= k < 64 ==> #[trigger] bit_set(a, k) == bit_set(b, k),
    ensures
        a == b,
{
    let f = |k: int| crate::bits::bit(a, k);
    crate::bits::lemma_of_bits(a, f);
    assert forall|k: int| 0 <= k < 64 implies #[trigger] f(k) == crate::bits::bit(b, k) by {
        assert(bit_set(a, k) == bit_set(b, k));
    }
    crate::bits::lemma_of_bits(b, f);
}

/// Lanes are added and subtracted each on its own: nothing is carried from one into the next.
#[verifier::rlimit(100)]
#[verifier::spinoff_prover]
pub proof fn law_lanes_summed(a: u64, b: u64, size: u32, e: int, subtract: bool, i: int)
    requires
        (size == 0 && e == 8) || (size == 1 && e == 16) || (size == 2 && e == 32) || (size == 3 && e
            == 64),
        0 <= i < 64int / e,
    ensures
        ({
            let (x, y) = (lanes(a, e)[i], lanes(b, e)[i]);
            let r = lanes(crate::fpemu::decode::simd::lanes_summed(a, b, size, subtract), e)[i];
            r == (if subtract {
                x.wrapping_sub(y)
            } else {
                x.wrapping_add(y)
            }) & ones(e as u32)
        }),
        ones(8) == 0xFF,
        ones(16) == 0xFFFF,
        ones(32) == 0xFFFF_FFFF,
        ones(64) == 0xFFFF_FFFF_FFFF_FFFF,
{
    let sum = |k: int|
        if subtract {
            lanes(a, e)[k].wrapping_sub(lanes(b, e)[k]) & ones(e as u32)
        } else {
            lanes(a, e)[k].wrapping_add(lanes(b, e)[k]) & ones(e as u32)
        };
    let all = Seq::new((64int / e) as nat, sum);
    assert forall|k: int, n: int| 0 <= k < all.len() && e <= n < 64 implies !#[trigger] bit_set(
        all[k],
        n,
    ) by {
        lemma_masked(
            if subtract {
                lanes(a, e)[k].wrapping_sub(lanes(b, e)[k])
            } else {
                lanes(a, e)[k].wrapping_add(lanes(b, e)[k])
            },
            e,
            n,
        );
    }
    let whole = joined(all, e);
    assert(all.len() * e == 64) by {
        assert(e == 8 || e == 16 || e == 32 || e == 64);
    }
    assert forall|n: int| 0 <= n < 64 implies #[trigger] bit_set(lanes(whole, e)[i], n) == bit_set(
        all[i],
        n,
    ) by {
        lemma_lane_bits(whole, e, i, n);
        if n < e {
            assert(0 <= e * i + n < 64 && (e * i + n) / e == i && (e * i + n) % e == n) by {
                assert(e == 8 || e == 16 || e == 32 || e == 64);
            }
            lemma_joined_bits(all, e, e * i + n);
        } else {
            assert(!bit_set(all[i], n));
        }
    }
    lemma_same_number(lanes(whole, e)[i], all[i]);
    crate::fpemu::laws::branches::lemma_extension(0, 1, 0);
    lemma_bits(0, 0, 0, 0);
    assert(!0u64 == 0xFFFF_FFFF_FFFF_FFFF) by {
        crate::fpemu::laws::lemma_not(0);
    }
}

proof fn lemma_constant_bits(imm: u64, k: u64)
    by (bit_vector)
    requires
        k < 64,
    ensures
        imm < 256 && k >= 8 ==> (imm >> k) & 1 != 1,
        (0u64 >> k) & 1 != 1,
        (0xFFu64 >> k) & 1 == 1 <==> k < 8,
        (0xFFFFu64 >> k) & 1 == 1 <==> k < 16,
        (0xFFFF_FFFFu64 >> k) & 1 == 1 <==> k < 32,
{
}

/// Whether a bit is set in a byte that stands so many bits up.
pub open spec fn byte_bit(imm: u64, up: int, k: int) -> bool {
    up <= k < up + 8 && bit_set(imm, k - up)
}

/// Whether a bit of the pattern is set that an immediate byte gives under a mode below 15.
pub open spec fn pattern_bit(imm: u64, cmode: int, op: int, k: int) -> bool {
    if cmode < 8 {
        byte_bit(imm, 8 * (cmode / 2), k % 32) != (op == 1)
    } else if cmode < 10 {
        byte_bit(imm, 8 * (cmode % 2), k % 16) != (op == 1)
    } else if cmode < 14 {
        let up = 8 + 8 * (cmode % 2);
        (k % 32 < up || byte_bit(imm, up, k % 32)) != (op == 1)
    } else if op == 0 {
        bit_set(imm, k % 8)
    } else {
        bit_set(imm, k / 8)
    }
}

proof fn lemma_filled_bits(elem: u64, e: int, k: int)
    requires
        e == 8 || e == 16 || e == 32,
        0 <= k < 64,
        forall|i: int| e <= i < 64 ==> !#[trigger] bit_set(elem, i),
    ensures
        bit_set(crate::fpemu::decode::simd::filled(elem, e), k) == bit_set(elem, k % e),
{
    let all = Seq::new((64int / e) as nat, |i: int| elem);
    assert(narrow(all, e));
    assert(all.len() * e == 64 && k / e < all.len());
    lemma_joined_bits(all, e, k);
}

proof fn lemma_element_bits(imm: u64, by: u64, low: u64, mask: u64, k: int)
    requires
        imm < 256,
        by <= 24,
        0 <= k < 64,
        low == 0 || (low == 0xFF && by == 8) || (low == 0xFFFF && by == 16),
        mask == 0xFFFF && by <= 8 || mask == 0xFFFF_FFFF,
    ensures
        bit_set((imm << by) | low, k) == ((low != 0 && k < by) || byte_bit(imm, by as int, k)),
        bit_set(imm << by, k) == byte_bit(imm, by as int, k),
        bit_set((imm << by) & mask, k) == byte_bit(imm, by as int, k),
        bit_set(!((imm << by) | low) & mask, k) == (k < (if mask == 0xFFFF {
            16int
        } else {
            32
        }) && !((low != 0 && k < by) || byte_bit(imm, by as int, k))),
        bit_set(!(imm << by) & mask, k) == (k < (if mask == 0xFFFF {
            16int
        } else {
            32
        }) && !byte_bit(imm, by as int, k)),
{
    let moved = imm << by;
    lemma_bits(imm, 0, by, k as u64);
    if k >= by {
        lemma_constant_bits(imm, (k - by) as u64);
    }
    lemma_constant_bits(0, k as u64);
    lemma_bits(moved, low, 0, k as u64);
    lemma_bits(moved, mask, 0, k as u64);
    lemma_bits(moved | low, 0, 0, k as u64);
    lemma_bits(!(moved | low), mask, 0, k as u64);
    lemma_bits(!moved, mask, 0, k as u64);
}

#[verifier::rlimit(100)]
#[verifier::spinoff_prover]
proof fn lemma_pattern(imm8: u32, cmode: u32, op: u32, k: int)
    requires
        imm8 < 256,
        cmode < 15,
        op <= 1,
        0 <= k < 64,
    ensures
        bit_set(modified_immediate(imm8, cmode, op), k) == pattern_bit(
            imm8 as u64,
            cmode as int,
            op as int,
            k,
        ),
{
    let imm = imm8 as u64;
    if cmode < 14 {
        let wide = cmode < 8 || cmode >= 10;
        let by = if cmode < 8 {
            ((cmode / 2) * 8) as u64
        } else if cmode < 10 {
            ((cmode % 2) * 8) as u64
        } else if cmode % 2 == 0 {
            8
        } else {
            16
        };
        let low = if cmode < 10 {
            0u64
        } else if cmode % 2 == 0 {
            0xFF
        } else {
            0xFFFF
        };
        let (e, mask) = if wide {
            (32int, 0xFFFF_FFFFu64)
        } else {
            (16int, 0xFFFFu64)
        };
        let plain = if cmode < 8 {
            imm << by
        } else if cmode < 10 {
            (imm << by) & mask
        } else {
            (imm << by) | low
        };
        let turned = if cmode < 10 {
            !(imm << by) & mask
        } else {
            !((imm << by) | low) & mask
        };
        let elem = if op == 1 {
            turned
        } else {
            plain
        };
        assert forall|i: int| e <= i < 64 implies !#[trigger] bit_set(elem, i) by {
            lemma_element_bits(imm, by, low, mask, i);
        }
        lemma_filled_bits(elem, e, k);
        lemma_element_bits(imm, by, low, mask, k % e);
        assert(modified_immediate(imm8, cmode, op) == crate::fpemu::decode::simd::filled(elem, e));
    } else if op == 0 {
        assert forall|i: int| 8 <= i < 64 implies !#[trigger] bit_set(imm, i) by {
            lemma_constant_bits(imm, i as u64);
        }
        lemma_filled_bits(imm, 8, k);
    } else {
        let all = Seq::new(
            8,
            |i: int|
                if (imm8 >> i) & 1 != 0 {
                    0xFFu64
                } else {
                    0u64
                },
        );
        assert forall|i: int, n: int| 0 <= i < all.len() && 8 <= n < 64 implies !#[trigger] bit_set(
            all[i],
            n,
        ) by {
            lemma_constant_bits(imm, n as u64);
        }
        lemma_joined_bits(all, 8, k);
        lemma_constant_bits(imm, (k % 8) as u64);
        let i = k / 8;
        crate::bits::lemma_and_le_u32(imm8 >> i, 1);
        assert((imm8 >> i) & 1 == (imm >> (i as u64)) & 1);
    }
}

/// MOVI and MVNI: the vector gets a pattern that an immediate byte and a mode give; the upper half
/// only of a whole vector.
#[verifier::rlimit(100)]
#[verifier::spinoff_prover]
pub proof fn law_vector_immediate(s: StateView, inst: u32, j: int)
    requires
        inst & 0x9FF8_0400 == 0x0F00_0400,
        inst & 0xBF80_FC00 != 0x0F00_5400,
        (inst >> 12) & 0xF < 15,
        s.cpu.vreg.len() == 32,
        0 <= j < 128,
    ensures
        ({
            let imm = ((inst >> 16) & 7) * 32 + ((inst >> 5) & 0x1F);
            let (after, r) = stepped(s, inst);
            &&& r is Ok && after == put_vector(
                s,
                inst & 0x1F,
                after.cpu.vreg[(inst & 0x1F) as int],
            )
            &&& vector_bit(after.cpu, inst & 0x1F, j) == ((j < 64 || (inst >> 30) & 1 != 0)
                && pattern_bit(
                imm as u64,
                ((inst >> 12) & 0xF) as int,
                ((inst >> 29) & 1) as int,
                j % 64,
            ))
        }),
{
    lemma_vector_class(inst);
    assert(stepped(s, inst) == with_processor(s, movi(s.cpu, inst))) by {
        reveal(stepped);
        reveal(vector_step);
    }
    let imm8 = crate::fpemu::decode::simd::split_imm8(inst);
    assert(imm8 == ((inst >> 16) & 7) * 32 + ((inst >> 5) & 0x1F));
    lemma_pattern(imm8, (inst >> 12) & 0xF, (inst >> 29) & 1, j % 64);
    lemma_bits(0, 0, 0, (j % 64) as u64);
}

} // verus!
