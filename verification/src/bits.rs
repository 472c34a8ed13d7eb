//! Facts about bit operations that several modules share.
use vstd::prelude::*;

verus! {

/// Masking never raises a value above the mask.
pub broadcast proof fn lemma_and_le_u32(x: u32, m: u32)
    by (bit_vector)
    ensures
        #[trigger] (x & m) <= m,
{
}

/// Masking never raises a value above the mask.
pub broadcast proof fn lemma_and_le_u8(x: u8, m: u8)
    by (bit_vector)
    ensures
        #[trigger] (x & m) <= m,
{
}

/// The union of two values masked to three bits has three bits.
pub broadcast proof fn lemma_or_low_bits(x: u32, y: u32)
    by (bit_vector)
    ensures
        #[trigger] ((x & 7) | (y & 6)) < 8,
{
}

/// Gathering the differences of bytes with `|` leaves zero only when there is none.
pub proof fn lemma_difference(d: u8, a: u8, b: u8)
    by (bit_vector)
    ensures
        (d | (a ^ b)) == 0 <==> d == 0 && a == b,
{
}

pub proof fn lemma_xor_zero(a: u8)
    by (bit_vector)
    ensures
        0u8 ^ a == a,
{
}

pub proof fn lemma_xor_involution(a: u8, b: u8)
    by (bit_vector)
    ensures
        (a ^ b) ^ b == a,
{
}

/// Whether bit `i` of `v` is set.
pub open spec fn bit(v: u64, i: int) -> bool {
    (v >> i) & 1 == 1
}

/// The value whose bits below `n` are set where `f` holds, and whose other bits are clear.
pub open spec fn of_bits(n: nat, f: spec_fn(int) -> bool) -> u64
    decreases n,
{
    if n == 0 {
        0
    } else {
        of_bits((n - 1) as nat, f) | (if f(n - 1) {
            1u64 << (n - 1)
        } else {
            0
        })
    }
}

proof fn lemma_one_bit_more(v: u64, k: u64)
    by (bit_vector)
    requires
        k < 64,
    ensures
        k < 63 ==> ((v & (((1u64 << k) - 1) as u64)) | (if (v >> k) & 1 == 1 {
            1u64 << k
        } else {
            0u64
        })) == v & (((1u64 << ((k + 1) as u64)) - 1) as u64),
        k == 63 ==> ((v & (((1u64 << k) - 1) as u64)) | (if (v >> k) & 1 == 1 {
            1u64 << k
        } else {
            0u64
        })) == v,
        v & (((1u64 << 0u64) - 1) as u64) == 0,
        v < 0x1_0000_0000 ==> v & (((1u64 << 32u64) - 1) as u64) == v,
{
}

proof fn lemma_low_bits(v: u64, n: nat, f: spec_fn(int) -> bool)
    requires
        n <= 64,
        forall|i: int| 0 <= i < n ==> #[trigger] f(i) == bit(v, i),
    ensures
        n < 64 ==> of_bits(n, f) == v & (((1u64 << (n as u64)) - 1) as u64),
        n == 64 ==> of_bits(n, f) == v,
    decreases n,
{
    if n == 0 {
        lemma_one_bit_more(v, 0);
    } else {
        lemma_low_bits(v, (n - 1) as nat, f);
        lemma_one_bit_more(v, (n - 1) as u64);
        assert(f(n - 1) == bit(v, n - 1));
    }
}

/// A value is made of its own bits.
pub proof fn lemma_of_bits(v: u64, f: spec_fn(int) -> bool)
    requires
        forall|i: int| 0 <= i < 64 ==> #[trigger] f(i) == bit(v, i),
    ensures
        of_bits(64, f) == v,
{
    lemma_low_bits(v, 64, f);
}

/// A value of 32 bits is made of its own bits.
pub proof fn lemma_of_bits32(v: u32, f: spec_fn(int) -> bool)
    requires
        forall|i: int| 0 <= i < 32 ==> #[trigger] f(i) == bit(v as u64, i),
    ensures
        of_bits(32, f) == v,
{
    lemma_low_bits(v as u64, 32, f);
    lemma_one_bit_more(v as u64, 0);
}

/// Two values are equal when the same bits are set.
pub proof fn lemma_same_bits(n: nat, f: spec_fn(int) -> bool, g: spec_fn(int) -> bool)
    requires
        forall|i: int| 0 <= i < n ==> f(i) == #[trigger] g(i),
    ensures
        of_bits(n, f) == of_bits(n, g),
    decreases n,
{
    if n > 0 {
        lemma_same_bits((n - 1) as nat, f, g);
        assert(f(n - 1) == g(n - 1));
    }
}

proof fn lemma_set_bit(v: u64, k: u64, i: u64)
    by (bit_vector)
    requires
        k < 64,
        i < 64,
    ensures
        ((v | (1u64 << k)) >> i) & 1 == (if i == k {
            1
        } else {
            (v >> i) & 1
        }),
        (v | 0) == v,
        (0u64 >> i) & 1 == 0,
{
}

/// The bits of a value that was made of bits.
pub proof fn lemma_bits_of(n: nat, f: spec_fn(int) -> bool)
    requires
        n <= 64,
    ensures
        forall|i: int| 0 <= i < 64 ==> #[trigger] bit(of_bits(n, f), i) == (i < n && f(i)),
    decreases n,
{
    if n > 0 {
        lemma_bits_of((n - 1) as nat, f);
    }
    assert forall|i: int| 0 <= i < 64 implies #[trigger] bit(of_bits(n, f), i) == (i < n && f(
        i,
    )) by {
        if n == 0 {
            lemma_set_bit(0, 0, i as u64);
        } else {
            let rest = of_bits((n - 1) as nat, f);
            assert(bit(rest, i) == (i < n - 1 && f(i)));
            lemma_set_bit(rest, (n - 1) as u64, i as u64);
        }
    }
}

/// The bits of a value of 32 bits that was made of bits.
pub proof fn lemma_bits_of32(f: spec_fn(int) -> bool)
    ensures
        of_bits(32, f) <= u32::MAX,
        forall|i: int| 0 <= i < 32 ==> #[trigger] bit((of_bits(32, f) as u32) as u64, i) == f(i),
{
    lemma_bits_of(32, f);
    let v = of_bits(32, f);
    let own = |i: int| bit(v, i);
    lemma_same_bits(32, f, own);
    lemma_low_bits(v, 32, own);
    assert(v & (((1u64 << 32u64) - 1) as u64) <= 0xFFFF_FFFF) by (bit_vector);
}

} // verus!
