//! Arithmetic and bit operations of the A64 instruction set.
use crate::bits::{bit, lemma_of_bits, lemma_of_bits32, of_bits};
use vstd::prelude::*;
use vstd::std_specs::bits::{u32_leading_zeros, u64_leading_zeros};

verus! {

/// `val` with its bit `bits - 1` copied into every higher bit when it is set.
pub open spec fn sign_extended(val: u64, bits: int) -> u64 {
    of_bits(64, |i: int| bit(val, i) || (i >= bits && bit(val, bits - 1)))
}

/// `val` with its bit `bits - 1` copied into every higher bit when it is set.
#[verifier::allow_in_spec]
pub fn sign_extend(val: u64, bits: u32) -> u64
    requires
        bits >= 1,
    returns
        sign_extended(val, bits as int),
{
    let r: u64 = if bits >= 64 {
        val
    } else if val & (1u64 << (bits - 1)) != 0 {
        val | (!0u64 << bits)
    } else {
        val
    };
    proof {
        let f = |i: int| bit(val, i) || (i >= bits && bit(val, bits - 1));
        let b = bits as u64;
        assert forall|i: int| 0 <= i < 64 implies #[trigger] f(i) == bit(r, i) by {
            if bits < 64 {
                lemma_sign_bits(val, b, i as u64);
            }
        }
        lemma_of_bits(r, f);
    }
    r
}

pub(crate) proof fn lemma_sign_bits(val: u64, bits: u64, i: u64)
    by (bit_vector)
    requires
        1 <= bits < 64,
        i < 64,
    ensures
        (val & (1u64 << ((bits - 1) as u64)) != 0) == ((val >> ((bits - 1) as u64)) & 1 == 1),
        (((val | (!0u64 << bits)) >> i) & 1 == 1) == ((val >> i) & 1 == 1 || i >= bits),
{
}

/// `x` read as a signed number of the width whose modulus is `w`.
pub open spec fn signed(x: int, w: int) -> int {
    if x < w / 2 {
        x
    } else {
        x - w
    }
}

pub open spec fn modulus(is64: bool) -> int {
    if is64 {
        0x1_0000_0000_0000_0000
    } else {
        0x1_0000_0000
    }
}

/// The low 64 or 32 bits of `v`.
pub open spec fn low_bits(v: u64, is64: bool) -> u64 {
    if is64 {
        v
    } else {
        v % 0x1_0000_0000
    }
}

pub fn low(v: u64, is64: bool) -> (r: u64)
    ensures
        r == low_bits(v, is64),
{
    if is64 {
        v
    } else {
        v % 0x1_0000_0000
    }
}

/// A sum or difference with its condition flags.
pub struct Flagged {
    pub value: u64,
    pub n: bool,
    pub z: bool,
    pub c: bool,
    pub v: bool,
}

/// `a + b` or `a - b` in 64 or 32 bits. The carry of a difference is set when there is no borrow.
pub open spec fn flagged_sum(a: u64, b: u64, subtract: bool, is64: bool) -> Flagged {
    let w = modulus(is64);
    let x = low_bits(a, is64) as int;
    let y = low_bits(b, is64) as int;
    let exact = if subtract {
        x - y
    } else {
        x + y
    };
    let exact_signed = if subtract {
        signed(x, w) - signed(y, w)
    } else {
        signed(x, w) + signed(y, w)
    };
    let value = exact % w;
    Flagged {
        value: value as u64,
        n: value >= w / 2,
        z: value == 0,
        c: if subtract {
            x >= y
        } else {
            x + y >= w
        },
        v: exact_signed != signed(value, w),
    }
}

proof fn lemma_overflow64(x: u64, y: u64, r: u64)
    by (bit_vector)
    ensures
        (r >> 63) != 0 <==> r >= 0x8000_0000_0000_0000,
        ((((x ^ r) & (y ^ r)) >> 63) != 0) <==> (((x >= 0x8000_0000_0000_0000) != (r
            >= 0x8000_0000_0000_0000)) && ((y >= 0x8000_0000_0000_0000) != (r
            >= 0x8000_0000_0000_0000))),
{
}

proof fn lemma_overflow32(x: u32, y: u32, r: u32)
    by (bit_vector)
    ensures
        (r >> 31) != 0 <==> r >= 0x8000_0000,
        ((((x ^ r) & (y ^ r)) >> 31) != 0) <==> (((x >= 0x8000_0000) != (r >= 0x8000_0000)) && ((y
            >= 0x8000_0000) != (r >= 0x8000_0000))),
{
}

/// `x + y + carry` in 64 bits with its flags: (value, negative, zero, carry, overflow).
pub fn add_with_carry64(x: u64, y: u64, carry: u64) -> (r: (u64, bool, bool, bool, bool))
    ensures
        r.0 == (x + y + carry) % 0x1_0000_0000_0000_0000,
        r.1 == (r.0 >= 0x8000_0000_0000_0000),
        r.2 == (r.0 == 0),
        r.3 == (if carry == 0 {
            r.0 < x
        } else {
            r.0 <= x
        }),
        r.4 == ((((x ^ r.0) & (y ^ r.0)) >> 63) != 0),
        carry <= 1 ==> r.3 == (x + y + carry >= modulus(true)),
        carry <= 1 ==> r.4 == (signed(x as int, modulus(true)) + signed(y as int, modulus(true))
            + carry != signed(r.0 as int, modulus(true))),
{
    let result: u64 = x.wrapping_add(y).wrapping_add(carry);
    let n = (result >> 63) != 0;
    let z = result == 0;
    let c = if carry == 0 {
        result < x
    } else {
        result <= x
    };
    let v = (((x ^ result) & (y ^ result)) >> 63) != 0;
    proof {
        lemma_overflow64(x, y, result);
    }
    (result, n, z, c, v)
}

/// `x + y + carry` in 32 bits with its flags: (value, negative, zero, carry, overflow).
pub fn add_with_carry32(x: u32, y: u32, carry: u32) -> (r: (u32, bool, bool, bool, bool))
    ensures
        r.0 == (x + y + carry) % 0x1_0000_0000,
        r.1 == (r.0 >= 0x8000_0000),
        r.2 == (r.0 == 0),
        r.3 == (x + y + carry >= modulus(false)),
        r.4 == ((((x ^ r.0) & (y ^ r.0)) >> 31) != 0),
        carry <= 1 ==> r.4 == (signed(x as int, modulus(false)) + signed(y as int, modulus(false))
            + carry != signed(r.0 as int, modulus(false))),
{
    let s: u64 = x as u64 + y as u64 + carry as u64;
    let result: u32 = (s % 0x1_0000_0000) as u32;
    let n = (result >> 31) != 0;
    let z = result == 0;
    let c = s > 0xFFFF_FFFF;
    let v = (((x ^ result) & (y ^ result)) >> 31) != 0;
    proof {
        lemma_overflow32(x, y, result);
    }
    (result, n, z, c, v)
}

fn add_flagged64(a: u64, b: u64) -> (r: Flagged)
    ensures
        r == flagged_sum(a, b, false, true),
{
    let (value, n, z, c, v) = add_with_carry64(a, b, 0);
    Flagged { value, n, z, c, v }
}

fn sub_flagged64(a: u64, b: u64) -> (r: Flagged)
    ensures
        r == flagged_sum(a, b, true, true),
{
    let y: u64 = 0xFFFF_FFFF_FFFF_FFFF - b;
    let (value, n, z, c, v) = add_with_carry64(a, y, 1);
    proof {
        let w = modulus(true);
        assert(a + y + 1 == a - b + w);
        assert(value == (a - b) % w);
        assert(signed(y as int, w) + 1 == -signed(b as int, w));
    }
    Flagged { value, n, z, c, v }
}

fn add_flagged32(a: u32, b: u32) -> (r: Flagged)
    ensures
        r == flagged_sum(a as u64, b as u64, false, false),
{
    let (value, n, z, c, v) = add_with_carry32(a, b, 0);
    Flagged { value: value as u64, n, z, c, v }
}

fn sub_flagged32(a: u32, b: u32) -> (r: Flagged)
    ensures
        r == flagged_sum(a as u64, b as u64, true, false),
{
    let y: u32 = 0xFFFF_FFFF - b;
    let (value, n, z, c, v) = add_with_carry32(a, y, 1);
    proof {
        let w = modulus(false);
        assert(a + y + 1 == a - b + w);
        assert(value == (a - b) % w);
        assert(signed(y as int, w) + 1 == -signed(b as int, w));
    }
    Flagged { value: value as u64, n, z, c, v }
}

/// Adds or subtracts in 64 or 32 bits and sets the flags.
pub fn add_flagged(a: u64, b: u64, subtract: bool, is64: bool) -> (r: Flagged)
    ensures
        r == flagged_sum(a, b, subtract, is64),
{
    if is64 {
        if subtract {
            sub_flagged64(a, b)
        } else {
            add_flagged64(a, b)
        }
    } else {
        let x: u32 = (a % 0x1_0000_0000) as u32;
        let y: u32 = (b % 0x1_0000_0000) as u32;
        if subtract {
            sub_flagged32(x, y)
        } else {
            add_flagged32(x, y)
        }
    }
}

/// `a + b` or `a - b` in 64 or 32 bits.
pub open spec fn plain_sum(a: u64, b: u64, subtract: bool, is64: bool) -> u64 {
    flagged_sum(a, b, subtract, is64).value
}

pub fn add_plain(a: u64, b: u64, subtract: bool, is64: bool) -> (r: u64)
    ensures
        r == plain_sum(a, b, subtract, is64),
{
    let f = add_flagged(a, b, subtract, is64);
    f.value
}

/// The value whose low `n` bits are set.
#[verifier::allow_in_spec]
pub fn ones(n: u32) -> u64
    returns
        (if n >= 64 {
            !0u64
        } else {
            (((1u64 << n) - 1) as u64)
        }),
{
    if n >= 64 {
        !0u64
    } else {
        proof {
            assert(n < 64 ==> (1u64 << n) >= 1) by (bit_vector);
        }
        (1u64 << n) - 1
    }
}

/// `elem` repeated every `esize` bits, `k` times from bit 0 up.
pub open spec fn repeated(elem: u64, esize: int, k: nat) -> u64
    decreases k,
{
    if k == 0 {
        0
    } else {
        repeated(elem, esize, (k - 1) as nat) | (elem << (esize * (k - 1)))
    }
}

/// The position of the highest set bit among bits 1 to `i` of `x`, or 0.
pub open spec fn top_bit(x: u32, i: nat) -> u32
    decreases i,
{
    if i == 0 {
        0
    } else if x & (1u32 << (i as u32)) != 0 {
        i as u32
    } else {
        top_bit(x, (i - 1) as nat)
    }
}

/// The two masks that a logical or bitfield immediate stands for.
///
/// The fields name an element size, a run of `s + 1` ones and a right rotation by `r`; the first
/// mask repeats the rotated run over the register, the second repeats a run of `s - r + 1` ones.
pub open spec fn bit_masks(n_bit: u32, imms: u32, immr: u32, is64: bool) -> (u64, u64) {
    let length = top_bit((n_bit << 6) | ((!imms) & 0x3F), 6);
    let esize = 1u32 << length;
    let levels = (esize - 1) as u32;
    let s = imms & levels;
    let r = immr & levels;
    let diff = s.wrapping_sub(r) & levels;
    let run = ones((s + 1) as u32);
    let welem = if r != 0 {
        ((run >> r) | (run << ((esize - r) as u32))) & ones(esize)
    } else {
        run
    };
    let telem = ones((diff + 1) as u32);
    let count = (64u32 / esize) as nat;
    (
        low_bits(repeated(welem, esize as int, count), is64),
        low_bits(repeated(telem, esize as int, count), is64),
    )
}

proof fn lemma_element_size(length: u32)
    requires
        length <= 6,
    ensures
        1u32 << length == 1 || 1u32 << length == 2 || 1u32 << length == 4 || 1u32 << length == 8
            || 1u32 << length == 16 || 1u32 << length == 32 || 1u32 << length == 64,
{
    assert(length <= 6 ==> (1u32 << length == 1 || 1u32 << length == 2 || 1u32 << length == 4 || 1u32
        << length == 8 || 1u32 << length == 16 || 1u32 << length == 32 || 1u32 << length == 64))
        by (bit_vector);
}

fn find_top_bit(x: u32) -> (r: u32)
    ensures
        r == top_bit(x, 6),
        r <= 6,
{
    let mut i: u32 = 6;
    while i > 0
        invariant
            i <= 6,
            top_bit(x, 6) == top_bit(x, i as nat),
        decreases i,
    {
        if x & (1u32 << i) != 0 {
            return i;
        }
        i -= 1;
    }
    0
}

/// `elem` repeated every `esize` bits over 64 bits.
fn repeat(elem: u64, esize: u32) -> (r: u64)
    requires
        esize == 1 || esize == 2 || esize == 4 || esize == 8 || esize == 16 || esize == 32 || esize
            == 64,
    ensures
        r == repeated(elem, esize as int, (64u32 / esize) as nat),
{
    let count: u32 = 64 / esize;
    let mut out: u64 = 0;
    let mut k: u32 = 0;
    while k < count
        invariant
            k <= count,
            count == 64u32 / esize,
            esize == 1 || esize == 2 || esize == 4 || esize == 8 || esize == 16 || esize == 32
                || esize == 64,
            out == repeated(elem, esize as int, k as nat),
        decreases count - k,
    {
        assert(esize * k < 64) by (nonlinear_arith)
            requires
                k < 64u32 / esize,
                esize == 1 || esize == 2 || esize == 4 || esize == 8 || esize == 16 || esize == 32
                    || esize == 64,
        ;
        out = out | (elem << (esize * k));
        k += 1;
    }
    out
}

/// Decodes the fields of a logical or bitfield immediate.
pub fn decode_bit_masks(n_bit: u32, imms: u32, immr: u32, is64: bool) -> (r: (u64, u64))
    ensures
        r == bit_masks(n_bit, imms, immr, is64),
{
    let length: u32 = find_top_bit((n_bit << 6) | ((!imms) & 0x3F));
    let esize: u32 = 1u32 << length;
    proof {
        lemma_element_size(length);
    }
    let levels: u32 = esize - 1;
    let s: u32 = imms & levels;
    let r: u32 = immr & levels;
    let diff: u32 = s.wrapping_sub(r) & levels;
    proof {
        crate::bits::lemma_and_le_u32(imms, levels);
        crate::bits::lemma_and_le_u32(immr, levels);
        crate::bits::lemma_and_le_u32(s.wrapping_sub(r), levels);
    }
    let run: u64 = ones(s + 1);
    let welem: u64 = if r != 0 {
        ((run >> r) | (run << (esize - r))) & ones(esize)
    } else {
        run
    };
    let telem: u64 = ones(diff + 1);
    (low(repeat(welem, esize), is64), low(repeat(telem, esize), is64))
}

/// A register operand shifted left (0), right (1), arithmetically right (2) or rotated right (3)
/// by `amount` modulo the register's width. An amount of 0 leaves all 64 bits as they are.
pub open spec fn shifted(val: u64, shift_type: u32, amount: u32, is64: bool) -> u64 {
    let bits: u32 = if is64 {
        64
    } else {
        32
    };
    let x = low_bits(val, is64);
    let by = amount % bits;
    if amount == 0 {
        val
    } else if by == 0 {
        x
    } else if shift_type == 0 {
        low_bits(x << by, is64)
    } else if shift_type == 1 {
        x >> by
    } else if shift_type == 2 {
        if is64 {
            ((x as i64) >> by) as u64
        } else {
            (((x as u32) as i32) >> by) as u32 as u64
        }
    } else if shift_type == 3 {
        low_bits((x >> by) | (x << ((bits - by) as u32)), is64)
    } else {
        x
    }
}

pub fn shift_val(val: u64, shift_type: u32, amount: u32, is64: bool) -> (r: u64)
    ensures
        r == shifted(val, shift_type, amount, is64),
{
    if amount == 0 {
        return val;
    }
    let bits: u32 = if is64 {
        64
    } else {
        32
    };
    let x: u64 = low(val, is64);
    let by: u32 = amount % bits;
    if by == 0 {
        return x;
    }
    if shift_type == 0 {
        low(x << by, is64)
    } else if shift_type == 1 {
        x >> by
    } else if shift_type == 2 {
        if is64 {
            ((x as i64) >> by) as u64
        } else {
            (((x as u32) as i32) >> by) as u32 as u64
        }
    } else if shift_type == 3 {
        low((x >> by) | (x << (bits - by)), is64)
    } else {
        x
    }
}

/// `v` with its four bytes in reverse order.
pub open spec fn bytes_reversed32(v: u32) -> u32 {
    of_bits(32, |i: int| bit(v as u64, 8 * (3 - i / 8) + i % 8)) as u32
}

/// `v` with its four bytes in reverse order.
#[verifier::allow_in_spec]
pub fn rev32(v: u32) -> u32
    returns
        bytes_reversed32(v),
{
    let r: u32 = ((v >> 24) & 0xFF) | ((v >> 8) & 0xFF00) | ((v << 8) & 0xFF0000) | (v << 24);
    proof {
        let f = |i: int| bit(v as u64, 8 * (3 - i / 8) + i % 8);
        assert forall|i: int| 0 <= i < 32 implies #[trigger] f(i) == bit(r as u64, i) by {
            let k = i as u64;
            assert(((r as u64) >> k) & 1 == ((v as u64) >> ((8 * (3 - k / 8) + k % 8) as u64)) & 1)
                by (bit_vector)
                requires
                    k < 32,
                    r == ((v >> 24) & 0xFF) | ((v >> 8) & 0xFF00) | ((v << 8) & 0xFF0000) | (v
                        << 24),
            ;
        }
        lemma_of_bits32(r, f);
    }
    r
}

/// `v` with its eight bytes in reverse order.
pub open spec fn bytes_reversed64(v: u64) -> u64 {
    of_bits(64, |i: int| bit(v, 8 * (7 - i / 8) + i % 8))
}

/// `v` with its eight bytes in reverse order.
#[verifier::allow_in_spec]
pub fn rev64(v: u64) -> u64
    returns
        bytes_reversed64(v),
{
    let r: u64 = ((v & 0xFF) << 56) | ((v & 0xFF00) << 40) | ((v & 0xFF_0000) << 24) | ((v
        & 0xFF00_0000) << 8) | ((v >> 8) & 0xFF00_0000) | ((v >> 24) & 0xFF_0000) | ((v >> 40)
        & 0xFF00) | (v >> 56);
    proof {
        let f = |i: int| bit(v, 8 * (7 - i / 8) + i % 8);
        assert forall|i: int| 0 <= i < 64 implies #[trigger] f(i) == bit(r, i) by {
            let k = i as u64;
            assert((r >> k) & 1 == (v >> ((8 * (7 - k / 8) + k % 8) as u64)) & 1) by (bit_vector)
                requires
                    k < 64,
                    r == ((v & 0xFF) << 56) | ((v & 0xFF00) << 40) | ((v & 0xFF_0000) << 24) | ((v
                        & 0xFF00_0000) << 8) | ((v >> 8) & 0xFF00_0000) | ((v >> 24) & 0xFF_0000)
                        | ((v >> 40) & 0xFF00) | (v >> 56),
            ;
        }
        lemma_of_bits(r, f);
    }
    r
}

/// `v` with its 64 bits in reverse order.
pub open spec fn bits_reversed64(v: u64) -> u64 {
    of_bits(64, |i: int| bit(v, 63 - i))
}

/// `v` with its 64 bits in reverse order.
pub fn rbit64(v: u64) -> (r: u64)
    ensures
        r == bits_reversed64(v),
{
    let a: u64 = ((v & 0x5555_5555_5555_5555) << 1) | ((v & 0xAAAA_AAAA_AAAA_AAAA) >> 1);
    let b: u64 = ((a & 0x3333_3333_3333_3333) << 2) | ((a & 0xCCCC_CCCC_CCCC_CCCC) >> 2);
    let c: u64 = ((b & 0x0F0F_0F0F_0F0F_0F0F) << 4) | ((b & 0xF0F0_F0F0_F0F0_F0F0) >> 4);
    let r: u64 = rev64(c);
    proof {
        let f = |i: int| bit(v, 63 - i);
        let g = |i: int| bit(c, 8 * (7 - i / 8) + i % 8);
        assert forall|i: int| 0 <= i < 64 implies f(i) == #[trigger] g(i) by {
            let k = i as u64;
            assert((c >> ((8 * (7 - k / 8) + k % 8) as u64)) & 1 == (v >> ((63 - k) as u64)) & 1)
                by (bit_vector)
                requires
                    k < 64,
                    a == ((v & 0x5555_5555_5555_5555) << 1) | ((v & 0xAAAA_AAAA_AAAA_AAAA) >> 1),
                    b == ((a & 0x3333_3333_3333_3333) << 2) | ((a & 0xCCCC_CCCC_CCCC_CCCC) >> 2),
                    c == ((b & 0x0F0F_0F0F_0F0F_0F0F) << 4) | ((b & 0xF0F0_F0F0_F0F0_F0F0) >> 4),
            ;
        }
        crate::bits::lemma_same_bits(64, f, g);
    }
    r
}

/// `v` with its 32 bits in reverse order.
pub open spec fn bits_reversed32(v: u32) -> u32 {
    of_bits(32, |i: int| bit(v as u64, 31 - i)) as u32
}

/// `v` with its 32 bits in reverse order.
pub fn rbit32(v: u32) -> (r: u32)
    ensures
        r == bits_reversed32(v),
{
    let a: u32 = ((v & 0x5555_5555) << 1) | ((v & 0xAAAA_AAAA) >> 1);
    let b: u32 = ((a & 0x3333_3333) << 2) | ((a & 0xCCCC_CCCC) >> 2);
    let c: u32 = ((b & 0x0F0F_0F0F) << 4) | ((b & 0xF0F0_F0F0) >> 4);
    let r: u32 = rev32(c);
    proof {
        let f = |i: int| bit(v as u64, 31 - i);
        let g = |i: int| bit(c as u64, 8 * (3 - i / 8) + i % 8);
        assert forall|i: int| 0 <= i < 32 implies f(i) == #[trigger] g(i) by {
            let k = i as u64;
            assert(((c as u64) >> ((8 * (3 - k / 8) + k % 8) as u64)) & 1 == ((v as u64) >> ((31 - k)
                as u64)) & 1) by (bit_vector)
                requires
                    k < 32,
                    a == ((v & 0x5555_5555) << 1) | ((v & 0xAAAA_AAAA) >> 1),
                    b == ((a & 0x3333_3333) << 2) | ((a & 0xCCCC_CCCC) >> 2),
                    c == ((b & 0x0F0F_0F0F) << 4) | ((b & 0xF0F0_F0F0) >> 4),
            ;
        }
        crate::bits::lemma_same_bits(32, f, g);
    }
    r
}

/// Where a bit comes from when the two bytes of each halfword change places.
pub open spec fn other_byte(i: int) -> int {
    if i / 8 % 2 == 0 {
        i + 8
    } else {
        i - 8
    }
}

/// `v` with the two bytes of each of its halfwords exchanged.
pub open spec fn halfwords_swapped64(v: u64) -> u64 {
    of_bits(64, |i: int| bit(v, other_byte(i)))
}

/// `v` with the two bytes of each of its halfwords exchanged.
#[verifier::allow_in_spec]
pub fn rev16_64(v: u64) -> u64
    returns
        halfwords_swapped64(v),
{
    let r: u64 = ((v & 0xFF00_FF00_FF00_FF00) >> 8) | ((v & 0x00FF_00FF_00FF_00FF) << 8);
    proof {
        let f = |i: int| bit(v, other_byte(i));
        assert forall|i: int| 0 <= i < 64 implies #[trigger] f(i) == bit(r, i) by {
            let k = i as u64;
            assert((r >> k) & 1 == (if k / 8 % 2 == 0 {
                (v >> ((k + 8) as u64)) & 1
            } else {
                (v >> ((k - 8) as u64)) & 1
            })) by (bit_vector)
                requires
                    k < 64,
                    r == ((v & 0xFF00_FF00_FF00_FF00) >> 8) | ((v & 0x00FF_00FF_00FF_00FF) << 8),
            ;
        }
        lemma_of_bits(r, f);
    }
    r
}

/// `v` with the two bytes of each of its halfwords exchanged.
pub open spec fn halfwords_swapped32(v: u32) -> u32 {
    of_bits(32, |i: int| bit(v as u64, other_byte(i))) as u32
}

/// `v` with the two bytes of each of its halfwords exchanged.
#[verifier::allow_in_spec]
pub fn rev16_32(v: u32) -> u32
    returns
        halfwords_swapped32(v),
{
    let r: u32 = ((v & 0xFF00_FF00) >> 8) | ((v & 0x00FF_00FF) << 8);
    proof {
        let f = |i: int| bit(v as u64, other_byte(i));
        assert forall|i: int| 0 <= i < 32 implies #[trigger] f(i) == bit(r as u64, i) by {
            let k = i as u64;
            assert(((r as u64) >> k) & 1 == (if k / 8 % 2 == 0 {
                ((v as u64) >> ((k + 8) as u64)) & 1
            } else {
                ((v as u64) >> ((k - 8) as u64)) & 1
            })) by (bit_vector)
                requires
                    k < 32,
                    r == ((v & 0xFF00_FF00) >> 8) | ((v & 0x00FF_00FF) << 8),
            ;
        }
        lemma_of_bits32(r, f);
    }
    r
}

/// The number of zero bits above the highest set bit.
pub fn clz64(v: u64) -> (r: u32)
    ensures
        r == u64_leading_zeros(v),
{
    v.leading_zeros()
}

/// The number of zero bits above the highest set bit.
pub fn clz32(v: u32) -> (r: u32)
    ensures
        r == u32_leading_zeros(v),
{
    v.leading_zeros()
}

/// The high 64 bits of the product.
pub fn mulhi64(a: u64, b: u64) -> (r: u64)
    ensures
        r == (a * b) / 0x1_0000_0000_0000_0000,
{
    assert(0 <= a * b <= 0xFFFF_FFFF_FFFF_FFFFu64 * 0xFFFF_FFFF_FFFF_FFFFu64) by (nonlinear_arith)
        requires
            0 <= a <= 0xFFFF_FFFF_FFFF_FFFFu64,
            0 <= b <= 0xFFFF_FFFF_FFFF_FFFFu64,
    ;
    let product: u128 = (a as u128) * (b as u128);
    (product / 0x1_0000_0000_0000_0000) as u64
}

/// The high 64 bits of the product of `a` and `b` as signed numbers: the product divided by 2^64,
/// as an unsigned number again.
pub open spec fn signed_high_product(a: u64, b: u64) -> u64 {
    let w = modulus(true);
    (signed(a as int, w) * signed(b as int, w) / w % w) as u64
}

/// The high 64 bits of the product of `a` and `b` as signed numbers.
pub fn smulhi64(a: u64, b: u64) -> (r: u64)
    ensures
        r == signed_high_product(a, b),
{
    let high: u64 = mulhi64(a, b);
    let less: u64 = if a >= 0x8000_0000_0000_0000 {
        high.wrapping_sub(b)
    } else {
        high
    };
    let r: u64 = if b >= 0x8000_0000_0000_0000 {
        less.wrapping_sub(a)
    } else {
        less
    };
    proof {
        let w = modulus(true);
        let sa: int = if a >= 0x8000_0000_0000_0000 {
            1
        } else {
            0
        };
        let sb: int = if b >= 0x8000_0000_0000_0000 {
            1
        } else {
            0
        };
        lemma_signed_product(a as int, b as int, sa, sb, w);
        assert(signed(a as int, w) == a - sa * w);
        assert(signed(b as int, w) == b - sb * w);
        assert(high == (a * b) / w);
        let back = high - sa * b - sb * a;
        assert(sa * sb * w == 0 || sa * sb * w == w);
        assert((back + sa * sb * w) % w == back % w);
        assert(r == back % w);
    }
    r
}

proof fn lemma_signed_product(a: int, b: int, sa: int, sb: int, w: int)
    requires
        w > 0,
    ensures
        (a - sa * w) * (b - sb * w) / w == (a * b) / w - sa * b - sb * a + sa * sb * w,
{
    let k = sa * sb * w - sa * b - sb * a;
    assert((a - sa * w) * (b - sb * w) == a * b + w * k) by (nonlinear_arith)
        requires
            k == sa * sb * w - sa * b - sb * a,
    ;
    vstd::arithmetic::div_mod::lemma_hoist_over_denominator(a * b, k, w as nat);
    assert(w * k == k * w) by (nonlinear_arith);
}

/// The exponent of the number that an 8-bit immediate stands for: 1 to 4, or -3 to 0.
pub open spec fn imm_exponent(imm8: u32) -> int {
    let low = imm8 as int / 16 % 4;
    if imm8 / 64 % 2 == 0 {
        low + 1
    } else {
        low - 3
    }
}

/// The single-precision number, as bits, that an 8-bit immediate stands for: a sign, an exponent
/// and four bits of fraction.
pub open spec fn expanded32(imm8: u32) -> u32 {
    ((imm8 as int / 128 % 2) * 0x8000_0000 + (127 + imm_exponent(imm8)) * 0x80_0000 + (imm8 as int
        % 16) * 0x8_0000) as u32
}

/// The single-precision number, as bits, that an 8-bit immediate stands for.
#[verifier::allow_in_spec]
pub fn vfp_expand_imm32(imm8: u32) -> u32
    returns
        expanded32(imm8),
{
    let r: u32 = (((imm8 >> 7) & 1) << 31) | (if (imm8 >> 6) & 1 != 0 {
        0x1Fu32 << 25
    } else {
        1u32 << 30
    }) | ((imm8 & 0x3F) << 19);
    assert(r == (imm8 / 128 % 2) * 0x8000_0000 + (if imm8 / 64 % 2 == 0 {
        128 + imm8 / 16 % 4
    } else {
        124 + imm8 / 16 % 4
    }) * 0x80_0000 + (imm8 % 16) * 0x8_0000) by (bit_vector)
        requires
            r == (((imm8 >> 7) & 1) << 31) | (if (imm8 >> 6) & 1 != 0 {
                0x1Fu32 << 25
            } else {
                1u32 << 30
            }) | ((imm8 & 0x3F) << 19),
    ;
    r
}

/// The double-precision number, as bits, that an 8-bit immediate stands for: a sign, an exponent
/// and four bits of fraction.
pub open spec fn expanded64(imm8: u32) -> u64 {
    ((imm8 as int / 128 % 2) * 0x8000_0000_0000_0000 + (1023 + imm_exponent(imm8))
        * 0x10_0000_0000_0000 + (imm8 as int % 16) * 0x1_0000_0000_0000) as u64
}

/// The double-precision number, as bits, that an 8-bit immediate stands for.
#[verifier::allow_in_spec]
pub fn vfp_expand_imm64(imm8: u32) -> u64
    returns
        expanded64(imm8),
{
    let r: u64 = ((((imm8 >> 7) & 1) as u64) << 63) | (if (imm8 >> 6) & 1 != 0 {
        0xFFu64 << 54
    } else {
        1u64 << 62
    }) | (((imm8 & 0x3F) as u64) << 48);
    assert(r == (imm8 / 128 % 2) * 0x8000_0000_0000_0000 + (if imm8 / 64 % 2 == 0 {
        1024 + imm8 / 16 % 4
    } else {
        1020 + imm8 / 16 % 4
    }) * 0x10_0000_0000_0000 + (imm8 % 16) * 0x1_0000_0000_0000) by (bit_vector)
        requires
            r == ((((imm8 >> 7) & 1) as u64) << 63) | (if (imm8 >> 6) & 1 != 0 {
                0xFFu64 << 54
            } else {
                1u64 << 62
            }) | (((imm8 & 0x3F) as u64) << 48),
    ;
    r
}

/// Reversing the bytes of a word twice gives it back.
pub proof fn lemma_rev32_involution(v: u32)
    ensures
        rev32(rev32(v)) == v,
{
    let r = rev32(v);
    let f = |i: int| bit(v as u64, 8 * (3 - i / 8) + i % 8);
    let g = |i: int| bit(r as u64, 8 * (3 - i / 8) + i % 8);
    crate::bits::lemma_bits_of32(f);
    assert forall|i: int| 0 <= i < 32 implies #[trigger] g(i) == bit(v as u64, i) by {
        assert(f(8 * (3 - i / 8) + i % 8) == bit(v as u64, i));
    }
    lemma_of_bits32(v, g);
}

/// Exchanging the bytes of each halfword twice gives the value back.
pub proof fn lemma_rev16_involution(v: u64, w: u32)
    ensures
        rev16_64(rev16_64(v)) == v,
        rev16_32(rev16_32(w)) == w,
{
    let r = rev16_64(v);
    let f = |i: int| bit(v, other_byte(i));
    let g = |i: int| bit(r, other_byte(i));
    crate::bits::lemma_bits_of(64, f);
    assert forall|i: int| 0 <= i < 64 implies #[trigger] g(i) == bit(v, i) by {
        assert(f(other_byte(i)) == bit(v, i));
    }
    lemma_of_bits(v, g);
    let r = rev16_32(w);
    let f = |i: int| bit(w as u64, other_byte(i));
    let g = |i: int| bit(r as u64, other_byte(i));
    crate::bits::lemma_bits_of32(f);
    assert forall|i: int| 0 <= i < 32 implies #[trigger] g(i) == bit(w as u64, i) by {
        assert(f(other_byte(i)) == bit(w as u64, i));
    }
    lemma_of_bits32(w, g);
}

} // verus!
