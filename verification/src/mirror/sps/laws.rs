//! What a parameter set says of the picture.
use crate::mirror::sps::{
    after_chroma, after_order_count, after_scaling, after_scaling_list, before_size, bit, bits,
    cropping, leading_zeros, picture_size, se, size_at, ue, unprevented, Bits,
};
use vstd::arithmetic::power2::pow2;
use vstd::prelude::*;

verus! {

/// A bit of a byte string, the highest of each byte first.
pub open spec fn set_at(b: Seq<u8>, p: int) -> bool {
    (b[p / 8] >> ((7 - p % 8) as u8)) & 1 == 1
}

/// The number that `n` bits from place `p` on write, the highest first.
pub open spec fn number_from(b: Seq<u8>, p: int, n: nat) -> nat
    decreases n,
{
    if n == 0 {
        0
    } else {
        2 * number_from(b, p, (n - 1) as nat) + (if set_at(b, p + n - 1) {
            1nat
        } else {
            0
        })
    }
}

proof fn lemma_zero_or_one(v: u8, k: u8)
    by (bit_vector)
    ensures
        (v >> k) & 1 == 0 || (v >> k) & 1 == 1,
{
}

proof fn lemma_bit(r: Bits)
    requires
        0 <= r.pos < 8 * r.data.len(),
    ensures
        bit(r) == (
            if set_at(r.data, r.pos) {
                1u8
            } else {
                0u8
            },
            Bits { pos: r.pos + 1, ..r },
        ),
{
    lemma_zero_or_one(r.data[r.pos / 8], (7 - r.pos % 8) as u8);
}

proof fn lemma_bits(r: Bits, n: nat)
    requires
        0 <= r.pos,
        r.pos + n <= 8 * r.data.len(),
    ensures
        bits(r, n) == (number_from(r.data, r.pos, n), Bits { pos: r.pos + n, ..r }),
    decreases n,
{
    if n > 0 {
        lemma_bits(r, (n - 1) as nat);
        lemma_bit(Bits { pos: r.pos + n - 1, ..r });
    }
}

proof fn lemma_zeros(r: Bits, from: nat, zeros: nat)
    requires
        0 <= r.pos,
        from <= zeros <= 31,
        r.pos + (zeros - from) < 8 * r.data.len(),
        !r.err,
        forall|i: int| r.pos <= i < r.pos + (zeros - from) ==> !#[trigger] set_at(r.data, i),
        set_at(r.data, r.pos + (zeros - from)),
    ensures
        leading_zeros(r, from) == (
            Some(zeros),
            Bits { pos: r.pos + (zeros - from) + 1, ..r },
        ),
    decreases zeros - from,
{
    lemma_bit(r);
    if from < zeros {
        assert(!set_at(r.data, r.pos));
        lemma_zeros(Bits { pos: r.pos + 1, ..r }, from + 1, zeros);
    }
}

/// A number in Exp-Golomb code is as many zeros as it has bits behind its first, that first bit, and
/// those bits, of the number after it; a signed one counts 0, 1, -1, 2, -2 and so on.
pub proof fn law_exp_golomb(r: Bits, zeros: nat)
    requires
        0 <= r.pos,
        zeros <= 31,
        r.pos + 2 * zeros + 1 <= 8 * r.data.len(),
        !r.err,
        forall|i: int| r.pos <= i < r.pos + zeros ==> !#[trigger] set_at(r.data, i),
        set_at(r.data, r.pos + zeros),
    ensures
        ({
            let n = pow2(zeros) + number_from(r.data, r.pos + zeros + 1, zeros) - 1;
            let after = Bits { pos: r.pos + 2 * zeros + 1, ..r };
            &&& ue(r) == (n as nat, after)
            &&& se(r).1 == after
            &&& se(r).0 > 0 ==> n == 2 * se(r).0 - 1
            &&& se(r).0 <= 0 ==> n == -2 * se(r).0
        }),
{
    lemma_zeros(r, 0, zeros);
    lemma_bits(Bits { pos: r.pos + zeros + 1, ..r }, zeros);
    vstd::arithmetic::power2::lemma_pow2_pos(zeros);
}

/// The size of a picture: 16 pixels for each macroblock, in both directions, doubled in height for
/// fields, less what is cropped in units of two.
pub proof fn law_picture_size(r: Bits)
    ensures
        ({
            let (wide, r1) = ue(r);
            let (high, r2) = ue(r1);
            let (frames, r3) = bit(r2);
            let cut = cropping(
                bit(
                    if frames == 0 {
                        bit(r3).1
                    } else {
                        r3
                    },
                ).1,
            );
            size_at(r) matches Some((w, h)) ==> {
                &&& w + 2 * cut.0 + 2 * cut.1 == 16 * wide + 16
                &&& frames == 1 ==> h + 2 * cut.2 + 2 * cut.3 == 16 * high + 16
                &&& frames == 0 ==> h + 4 * cut.2 + 4 * cut.3 == 32 * high + 32
                &&& w > 0 && h > 0
                &&& !cut.4.err
            }
        }),
{
    let (wide, r1) = ue(r);
    let (high, r2) = ue(r1);
    let (frames, r3) = bit(r2);
    lemma_fields(high as int, 1);
    lemma_fields(high as int, 2);
}

proof fn lemma_fields(n: int, f: int)
    by (nonlinear_arith)
    requires
        f == 1 || f == 2,
    ensures
        f * (n + 1) * 16 == 16 * f * n + 16 * f,
{
}

/// What is cropped is read in the order left, right, top, bottom, and only where it is said to be
/// there.
pub proof fn law_cropping(r: Bits)
    ensures
        ({
            let (present, r1) = bit(r);
            let (left, r2) = ue(r1);
            let (right, r3) = ue(r2);
            let (top, r4) = ue(r3);
            let (bottom, r5) = ue(r4);
            &&& present == 1 ==> cropping(r) == (left, right, top, bottom, r5)
            &&& present != 1 ==> cropping(r) == (0nat, 0nat, 0nat, 0nat, r1)
        }),
{
}

/// Bytes that hold no two zeros before a 3 stay as they are.
pub proof fn law_nothing_to_remove(b: Seq<u8>, i: int, zeros: nat)
    requires
        0 <= i <= b.len(),
        forall|k: int| i <= k < b.len() ==> #[trigger] b[k] != 3,
    ensures
        unprevented(b, i, zeros) == b.skip(i),
    decreases b.len() - i,
{
    if i < b.len() {
        law_nothing_to_remove(
            b,
            i + 1,
            if b[i] == 0 {
                zeros + 1
            } else {
                0
            },
        );
        assert(seq![b[i]] + b.skip(i + 1) =~= b.skip(i));
    } else {
        assert(b.skip(i) =~= Seq::<u8>::empty());
    }
}

/// A 3 that was put behind two zeros, before a byte of at most 3, is taken out again.
pub proof fn law_prevention_is_removed(b: Seq<u8>, i: int)
    requires
        0 <= i,
        i + 4 <= b.len(),
        b[i] == 0,
        b[i + 1] == 0,
        b[i + 2] == 3,
        b[i + 3] <= 3,
    ensures
        unprevented(b, i, 0) == seq![0u8, 0u8] + unprevented(b, i + 3, 0),
{
    reveal_with_fuel(unprevented, 4);
    assert(unprevented(b, i, 0) =~= seq![0u8, 0u8] + unprevented(b, i + 3, 0));
}

/// Only a parameter set has a size.
pub proof fn law_only_parameter_sets(sps: Seq<u8>)
    ensures
        sps.len() < 4 ==> picture_size(sps) is None,
        sps.len() >= 4 && sps[0] & 0x1f != 7 ==> picture_size(sps) is None,
{
}

/// What stands before the size: the profile and two more bytes, the number of the set, what only the
/// higher profiles have, the length of a frame number, what the order of the pictures needs, the
/// number of references and a mark.
pub proof fn law_before_the_size(r: Bits)
    ensures
        ({
            let (profile, r1) = bits(r, 8);
            let r2 = ue(bits(bits(r1, 8).1, 8).1).1;
            let plain = ue(r2).1;
            let high = ue(after_chroma(r2)).1;
            &&& profile == 66 || profile == 77 || profile == 88 ==> before_size(r) == bit(
                ue(after_order_count(plain)).1,
            ).1
            &&& profile == 100 || profile == 110 || profile == 122 || profile == 244 || profile
                == 44 ==> before_size(r) == bit(ue(after_order_count(high)).1).1
        }),
{
}

/// The order of the pictures is told in one of three ways: by a length, by a mark with two offsets and
/// a list of offsets, or not at all.
pub proof fn law_order_count(r: Bits)
    ensures
        ({
            let (kind, r1) = ue(r);
            let (n, listed) = ue(se(se(bit(r1).1).1).1);
            &&& kind == 0 ==> after_order_count(r) == ue(r1).1
            &&& kind == 1 && n == 0 ==> after_order_count(r) == listed
            &&& kind == 1 && n == 1 ==> after_order_count(r) == se(listed).1
            &&& kind >= 2 ==> after_order_count(r) == r1
        }),
{
    reveal_with_fuel(crate::mirror::sps::after_signed, 2);
}

/// Eight lists may follow, and twelve where the colours have the full size; only then a mark stands
/// behind the kind of the colours. A list is there where its mark is set: sixteen numbers in the
/// first six, and sixty-four in the others.
pub proof fn law_scaling_lists(r: Bits, i: nat, n: nat)
    requires
        i < n,
    ensures
        ({
            let (chroma, r1) = ue(r);
            let r2 = if chroma == 3 {
                bit(r1).1
            } else {
                r1
            };
            let (scaling, r3) = bit(bit(ue(ue(r2).1).1).1);
            &&& scaling == 0 ==> after_chroma(r) == r3
            &&& scaling == 1 && chroma == 3 ==> after_chroma(r) == after_scaling(r3, 0, 12)
            &&& scaling == 1 && chroma != 3 ==> after_chroma(r) == after_scaling(r3, 0, 8)
        }),
        ({
            let (present, after) = bit(r);
            &&& present == 0 ==> after_scaling(r, i, n) == after_scaling(after, i + 1, n)
            &&& present == 1 && i < 6 ==> after_scaling(r, i, n) == after_scaling(
                after_scaling_list(after, 16, 8, 8),
                i + 1,
                n,
            )
            &&& present == 1 && i >= 6 ==> after_scaling(r, i, n) == after_scaling(
                after_scaling_list(after, 64, 8, 8),
                i + 1,
                n,
            )
        }),
{
}

/// A list gives each number by how far it lies from the one before it; once a number is zero, the
/// list ends and nothing more is read.
pub proof fn law_scaling_list(r: Bits, left: nat, last: int, delta: int)
    requires
        left > 0,
        0 < last < 256,
        se(r).0 == delta,
        -128 <= delta < 128,
    ensures
        delta == -last || delta == 256 - last ==> after_scaling_list(r, left, last, last) == se(
            r,
        ).1,
        0 < last + delta < 256 ==> after_scaling_list(r, left, last, last) == after_scaling_list(
            se(r).1,
            (left - 1) as nat,
            last + delta,
            last + delta,
        ),
        after_scaling_list(r, left, last, 0) == r,
{
    lemma_list_ended(r, left, last);
    lemma_list_ended(se(r).1, (left - 1) as nat, last);
}

proof fn lemma_list_ended(r: Bits, left: nat, last: int)
    ensures
        after_scaling_list(r, left, last, 0) == r,
    decreases left,
{
    if left > 0 {
        lemma_list_ended(r, (left - 1) as nat, last);
    }
}

} // verus!
