//! Vector registers as sequences of lanes.
use crate::fpemu::helpers::ones;
use vstd::prelude::*;

verus! {

/// The lane widths of a vector.
pub open spec fn is_lane_width(e: int) -> bool {
    e == 8 || e == 16 || e == 32 || e == 64
}

/// The `e`-bit lanes of `v`, the least significant first.
pub open spec fn lanes(v: u64, e: int) -> Seq<u64> {
    Seq::new((64int / e) as nat, |i: int| (v >> (e * i)) & ones(e as u32))
}

/// The value whose `e`-bit lanes are `s`, the least significant first.
pub open spec fn joined(s: Seq<u64>, e: int) -> u64
    decreases s.len(),
{
    if s.len() == 0 {
        0
    } else {
        joined(s.drop_last(), e) | (s.last() << (e * (s.len() - 1)))
    }
}

/// The `e`-bit lanes of the 128-bit vector with halves `lo` and `hi`.
pub open spec fn vector_lanes(lo: u64, hi: u64, e: int) -> Seq<u64> {
    lanes(lo, e) + lanes(hi, e)
}

/// The halves of the 128-bit vector whose `e`-bit lanes are `s`.
pub open spec fn vector_joined(s: Seq<u64>, e: int) -> (u64, u64) {
    let half = 64int / e;
    (joined(s.take(half), e), joined(s.skip(half), e))
}

proof fn lemma_lane_counts(e: int, i: int)
    requires
        is_lane_width(e),
        0 <= i < 64int / e,
    ensures
        0 <= e * i < 64,
        128int / e == 2 * (64int / e),
{
    assert(e == 8 ==> 64int / e == 8 && 128int / e == 16);
    assert(e == 16 ==> 64int / e == 4 && 128int / e == 8);
    assert(e == 32 ==> 64int / e == 2 && 128int / e == 4);
    assert(e == 64 ==> 64int / e == 1 && 128int / e == 2) by (nonlinear_arith);
    assert(0 <= e * i < 64) by (nonlinear_arith)
        requires
            0 <= i,
            e == 8 && i < 8 || e == 16 && i < 4 || e == 32 && i < 2 || e == 64 && i < 1,
    ;
}

pub fn split(v: u64, e: u32) -> (r: Vec<u64>)
    requires
        is_lane_width(e as int),
    ensures
        r@ == lanes(v, e as int),
{
    let count: u32 = 64 / e;
    let mut out: Vec<u64> = Vec::new();
    let mut i: u32 = 0;
    while i < count
        invariant
            is_lane_width(e as int),
            count == 64u32 / e,
            i <= count,
            out@ =~= lanes(v, e as int).take(i as int),
        decreases count - i,
    {
        proof {
            lemma_lane_counts(e as int, i as int);
        }
        out.push((v >> (e * i)) & ones(e));
        i += 1;
    }
    out
}

pub fn join(s: &[u64], e: u32) -> (r: u64)
    requires
        is_lane_width(e as int),
        s.len() <= 64int / (e as int),
    ensures
        r == joined(s@, e as int),
{
    let mut out: u64 = 0;
    let mut i: usize = 0;
    assert(s@.take(0) =~= Seq::<u64>::empty());
    while i < s.len()
        invariant
            is_lane_width(e as int),
            s.len() <= 64int / (e as int),
            i <= s.len(),
            out == joined(s@.take(i as int), e as int),
        decreases s.len() - i,
    {
        assert(s@.take(i + 1).drop_last() =~= s@.take(i as int));
        proof {
            lemma_lane_counts(e as int, i as int);
        }
        out = out | (s[i] << (e * (i as u32)));
        i += 1;
    }
    assert(s@.take(s@.len() as int) =~= s@);
    out
}

pub fn split_vector(lo: u64, hi: u64, e: u32) -> (r: Vec<u64>)
    requires
        is_lane_width(e as int),
    ensures
        r@ == vector_lanes(lo, hi, e as int),
{
    let mut out = split(lo, e);
    let mut high = split(hi, e);
    out.append(&mut high);
    out
}

pub fn join_vector(s: &Vec<u64>, e: u32) -> (r: (u64, u64))
    requires
        is_lane_width(e as int),
        s@.len() == 128int / (e as int),
    ensures
        r == vector_joined(s@, e as int),
{
    let half: usize = (64 / e) as usize;
    proof {
        lemma_lane_counts(e as int, 0);
    }
    let low = vstd::slice::slice_subrange(s.as_slice(), 0, half);
    let high = vstd::slice::slice_subrange(s.as_slice(), half, s.len());
    assert(low@ =~= s@.take(half as int));
    assert(high@ =~= s@.skip(half as int));
    (join(low, e), join(high, e))
}

/// Joining the lanes of a value gives the value back, for every lane width.
pub proof fn lemma_join_lanes(v: u64, e: int)
    requires
        is_lane_width(e),
    ensures
        joined(lanes(v, e), e) == v,
{
    let s = lanes(v, e);
    assert((1u64 << 8u32) == 0x100 && (1u64 << 16u32) == 0x1_0000 && (1u64 << 32u32)
        == 0x1_0000_0000) by (bit_vector);
    assert(e == 8 ==> 64int / e == 8);
    assert(e == 16 ==> 64int / e == 4);
    assert(e == 32 ==> 64int / e == 2);
    assert(e == 64 ==> 64int / e == 1);
    let s1 = seq![s[0]];
    assert(s1.drop_last() =~= Seq::<u64>::empty());
    assert(joined(Seq::<u64>::empty(), e) == 0);
    assert(joined(s1, e) == 0u64 | (s[0] << (e * 0)));
    if e == 64 {
        assert(s =~= s1);
        assert((0u64 | (((v >> 0u64) & !0u64) << 0u64)) == v) by (bit_vector);
        assert(s[0] == (v >> (e * 0)) & !0u64);
    } else {
        let s2 = seq![s[0], s[1]];
        assert(s2.drop_last() =~= s1);
        assert(joined(s2, e) == joined(s1, e) | (s[1] << (e * 1)));
        if e == 32 {
            assert(s =~= s2);
            assert(((0u64 | (((v >> 0u64) & 0xFFFF_FFFF) << 0u64)) | (((v >> 32u64) & 0xFFFF_FFFF)
                << 32u64)) == v) by (bit_vector);
        } else {
            let s3 = seq![s[0], s[1], s[2]];
            let s4 = seq![s[0], s[1], s[2], s[3]];
            assert(s3.drop_last() =~= s2);
            assert(s4.drop_last() =~= s3);
            assert(joined(s3, e) == joined(s2, e) | (s[2] << (e * 2)));
            assert(joined(s4, e) == joined(s3, e) | (s[3] << (e * 3)));
            if e == 16 {
                assert(s =~= s4);
                assert(((((0u64 | (((v >> 0u64) & 0xFFFF) << 0u64)) | (((v >> 16u64) & 0xFFFF)
                    << 16u64)) | (((v >> 32u64) & 0xFFFF) << 32u64)) | (((v >> 48u64) & 0xFFFF)
                    << 48u64)) == v) by (bit_vector);
            } else {
                let s5 = s4.push(s[4]);
                let s6 = s5.push(s[5]);
                let s7 = s6.push(s[6]);
                let s8 = s7.push(s[7]);
                assert(s5.drop_last() =~= s4);
                assert(s6.drop_last() =~= s5);
                assert(s7.drop_last() =~= s6);
                assert(s8.drop_last() =~= s7);
                assert(joined(s5, e) == joined(s4, e) | (s[4] << (e * 4)));
                assert(joined(s6, e) == joined(s5, e) | (s[5] << (e * 5)));
                assert(joined(s7, e) == joined(s6, e) | (s[6] << (e * 6)));
                assert(joined(s8, e) == joined(s7, e) | (s[7] << (e * 7)));
                assert(s =~= s8);
                assert(((((((((0u64 | (((v >> 0u64) & 0xFF) << 0u64)) | (((v >> 8u64) & 0xFF)
                    << 8u64)) | (((v >> 16u64) & 0xFF) << 16u64)) | (((v >> 24u64) & 0xFF)
                    << 24u64)) | (((v >> 32u64) & 0xFF) << 32u64)) | (((v >> 40u64) & 0xFF)
                    << 40u64)) | (((v >> 48u64) & 0xFF) << 48u64)) | (((v >> 56u64) & 0xFF)
                    << 56u64)) == v) by (bit_vector);
            }
        }
    }
}

} // verus!
