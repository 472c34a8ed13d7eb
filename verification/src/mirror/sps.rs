//! The picture size that a sequence parameter set states.
pub mod laws;

use vstd::arithmetic::power2::pow2;
use vstd::prelude::*;
use vstd::slice::slice_subrange;

verus! {

broadcast use crate::bits::lemma_and_le_u8;

/// A position in a string of bits, most significant first. Reading past the end yields zeros and
/// marks the reader as failed.
#[verifier::ext_equal]
pub struct Bits {
    pub data: Seq<u8>,
    pub pos: int,
    pub err: bool,
}

/// The next bit and the position after it.
pub open spec fn bit(r: Bits) -> (u8, Bits) {
    if r.pos / 8 >= r.data.len() {
        (0, Bits { err: true, ..r })
    } else {
        (
            (r.data[r.pos / 8] >> ((7 - r.pos % 8) as u8)) & 1,
            Bits { pos: r.pos + 1, ..r },
        )
    }
}

/// The number that the next `n` bits spell, and the position after them.
pub open spec fn bits(r: Bits, n: nat) -> (nat, Bits)
    decreases n,
{
    if n == 0 {
        (0, r)
    } else {
        let (v, mid) = bits(r, (n - 1) as nat);
        let (b, after) = bit(mid);
        (v * 2 + b as nat, after)
    }
}

/// The number of zeros before the next one, counting on from `zeros`, and the position after that
/// one. More than 32 zeros, or none at all, mark the reader as failed.
pub open spec fn leading_zeros(r: Bits, zeros: nat) -> (Option<nat>, Bits)
    decreases 33 - zeros,
{
    let (b, after) = bit(r);
    if b == 1 {
        (Some(zeros), after)
    } else if after.err || zeros > 31 {
        (None, Bits { err: true, ..after })
    } else {
        leading_zeros(after, zeros + 1)
    }
}

/// An unsigned number in Exp-Golomb code. A number that does not fit 32 bits marks the reader as
/// failed.
pub open spec fn ue(r: Bits) -> (nat, Bits) {
    let (found, after) = leading_zeros(r, 0);
    match found {
        None => (0, after),
        Some(zeros) => if zeros == 32 {
            (0, Bits { err: true, ..after })
        } else {
            let (v, end) = bits(after, zeros);
            ((pow2(zeros) - 1 + v) as nat, end)
        },
    }
}

/// A signed number in Exp-Golomb code.
pub open spec fn se(r: Bits) -> (int, Bits) {
    let (k, after) = ue(r);
    (
        if k % 2 == 1 {
            (k as int + 1) / 2
        } else {
            -(k as int / 2)
        },
        after,
    )
}

/// Reads bits from bytes.
pub struct BitReader<'a> {
    pub data: &'a [u8],
    pub pos: u128,
    pub err: bool,
}

impl<'a> View for BitReader<'a> {
    type V = Bits;

    open spec fn view(&self) -> Bits {
        Bits { data: self.data@, pos: self.pos as int, err: self.err }
    }
}

proof fn lemma_bits_bound(r: Bits, n: nat)
    ensures
        bits(r, n).0 < pow2(n),
    decreases n,
{
    vstd::arithmetic::power2::lemma2_to64();
    if n > 0 {
        lemma_bits_bound(r, (n - 1) as nat);
        vstd::arithmetic::power2::lemma_pow2_unfold(n);
        let mid = bits(r, (n - 1) as nat).1;
        assert(bit(mid).0 <= 1);
    }
}

fn power_of_two(n: u32) -> (r: u64)
    requires
        n <= 32,
    ensures
        r == pow2(n as nat),
{
    let mut r: u64 = 1;
    let mut i: u32 = 0;
    proof {
        vstd::arithmetic::power2::lemma2_to64();
    }
    while i < n
        invariant
            i <= n,
            n <= 32,
            r == pow2(i as nat),
            r <= 0x1_0000_0000,
        decreases n - i,
    {
        proof {
            vstd::arithmetic::power2::lemma_pow2_unfold((i + 1) as nat);
            if i + 1 < 32 {
                vstd::arithmetic::power2::lemma_pow2_strictly_increases((i + 1) as nat, 32);
            }
            vstd::arithmetic::power2::lemma2_to64();
        }
        r = r * 2;
        i += 1;
    }
    r
}

impl<'a> BitReader<'a> {
    pub open spec fn wf(&self) -> bool {
        self.pos <= self.data@.len() * 8 && self.data@.len() <= u64::MAX
    }

    pub fn new(data: &'a [u8]) -> (r: BitReader<'a>)
        ensures
            r.wf(),
            r@ == (Bits { data: data@, pos: 0, err: false }),
    {
        let r = BitReader { data, pos: 0, err: false };
        assert(r.data.len() <= u64::MAX);
        r
    }

    pub fn read_bit(&mut self) -> (r: u8)
        requires
            old(self).wf(),
        ensures
            final(self).wf(),
            (r, final(self)@) == bit(old(self)@),
            r <= 1,
            final(self)@.data == old(self)@.data,
    {
        let at: u128 = self.pos / 8;
        if at >= self.data.len() as u128 {
            self.err = true;
            return 0;
        }
        let shift: u8 = (7 - self.pos % 8) as u8;
        let b: u8 = (self.data[at as usize] >> shift) & 1;
        self.pos = self.pos + 1;
        b
    }

    pub fn read_bits(&mut self, n: u32) -> (r: u32)
        requires
            old(self).wf(),
            n <= 32,
        ensures
            final(self).wf(),
            (r as nat, final(self)@) == bits(old(self)@, n as nat),
            r < pow2(n as nat),
    {
        let mut v: u64 = 0;
        let mut i: u32 = 0;
        proof {
            vstd::arithmetic::power2::lemma2_to64();
        }
        while i < n
            invariant
                i <= n,
                n <= 32,
                self.wf(),
                (v as nat, self@) == bits(old(self)@, i as nat),
                v < pow2(i as nat),
                v < 0x1_0000_0000,
            decreases n - i,
        {
            let b: u8 = self.read_bit();
            proof {
                lemma_bits_bound(old(self)@, (i + 1) as nat);
                if i + 1 < 32 {
                    vstd::arithmetic::power2::lemma_pow2_strictly_increases((i + 1) as nat, 32);
                }
                vstd::arithmetic::power2::lemma2_to64();
            }
            v = v * 2 + b as u64;
            i += 1;
        }
        v as u32
    }

    fn read_zeros(&mut self) -> (r: Option<u32>)
        requires
            old(self).wf(),
        ensures
            final(self).wf(),
            match leading_zeros(old(self)@, 0).0 {
                Some(z) => r matches Some(found) && found == z && z <= 32,
                None => r is None,
            },
            final(self)@ == leading_zeros(old(self)@, 0).1,
    {
        let mut zeros: u32 = 0;
        let ghost start = old(self)@;
        loop
            invariant
                self.wf(),
                zeros <= 32,
                start == old(self)@,
                leading_zeros(start, 0) == leading_zeros(self@, zeros as nat),
            decreases 33 - zeros,
        {
            let ghost before = self@;
            let b: u8 = self.read_bit();
            if b != 0 {
                assert(b == 1);
                return Some(zeros);
            }
            if self.err || zeros > 31 {
                self.err = true;
                return None;
            }
            zeros += 1;
        }
    }

    pub fn read_ue(&mut self) -> (r: u32)
        requires
            old(self).wf(),
        ensures
            final(self).wf(),
            (r as nat, final(self)@) == ue(old(self)@),
            r < u32::MAX,
    {
        match self.read_zeros() {
            None => 0,
            Some(zeros) => {
                if zeros == 32 {
                    self.err = true;
                    return 0;
                }
                let v: u32 = self.read_bits(zeros);
                let base: u64 = power_of_two(zeros);
                proof {
                    vstd::arithmetic::power2::lemma2_to64();
                    if zeros < 31 {
                        vstd::arithmetic::power2::lemma_pow2_strictly_increases(zeros as nat, 31);
                    }
                }
                (base - 1 + v as u64) as u32
            },
        }
    }

    pub fn read_se(&mut self) -> (r: i32)
        requires
            old(self).wf(),
        ensures
            final(self).wf(),
            (r as int, final(self)@) == se(old(self)@),
    {
        let k: u32 = self.read_ue();
        if k % 2 == 1 {
            ((k + 1) / 2) as i32
        } else {
            -((k / 2) as i32)
        }
    }
}

/// A byte string from `i` on without its emulation prevention: a 3 behind two zeros, before a byte
/// of at most 3, is left out. `zeros` is the number of zeros directly before `i`.
pub open spec fn unprevented(b: Seq<u8>, i: int, zeros: nat) -> Seq<u8>
    decreases b.len() - i,
{
    if i >= b.len() {
        Seq::empty()
    } else if zeros >= 2 && b[i] == 3 && i + 1 < b.len() && b[i + 1] <= 3 {
        unprevented(b, i + 1, 0)
    } else {
        seq![b[i]] + unprevented(
            b,
            i + 1,
            if b[i] == 0 {
                zeros + 1
            } else {
                0
            },
        )
    }
}

/// Takes the emulation prevention out of a byte string.
pub fn strip_emulation_prevention(b: &[u8]) -> (r: Vec<u8>)
    ensures
        r@ == unprevented(b@, 0, 0),
{
    let mut out: Vec<u8> = Vec::new();
    let mut zeros: usize = 0;
    let mut i: usize = 0;
    assert(Seq::<u8>::empty() + unprevented(b@, 0, 0) =~= unprevented(b@, 0, 0));
    while i < b.len()
        invariant
            i <= b@.len(),
            zeros <= i,
            out@ + unprevented(b@, i as int, zeros as nat) == unprevented(b@, 0, 0),
        decreases b.len() - i,
    {
        let ghost before = out@;
        let ghost rest = unprevented(b@, i as int, zeros as nat);
        if zeros >= 2 && b[i] == 3 && b.len() - i > 1 && b[i + 1] <= 3 {
            zeros = 0;
            i += 1;
        } else {
            let byte: u8 = b[i];
            zeros = if byte == 0 {
                zeros + 1
            } else {
                0
            };
            out.push(byte);
            i += 1;
            assert(out@ + unprevented(b@, i as int, zeros as nat) =~= before + rest);
        }
    }
    assert(out@ + unprevented(b@, i as int, zeros as nat) =~= out@);
    out
}

/// Whether a profile states its chroma format and scaling.
#[verifier::allow_in_spec]
pub fn is_high_profile(profile: u32) -> bool
    returns
        profile == 100 || profile == 110 || profile == 122 || profile == 244 || profile == 44
            || profile == 83 || profile == 86 || profile == 118 || profile == 128 || profile == 138
            || profile == 139 || profile == 134 || profile == 135,
{
    profile == 100 || profile == 110 || profile == 122 || profile == 244 || profile == 44
        || profile == 83 || profile == 86 || profile == 118 || profile == 128 || profile == 138
        || profile == 139 || profile == 134 || profile == 135
}

/// The remainder by 256, with the sign of the number.
pub open spec fn signed_rem(x: int) -> int {
    if x >= 0 {
        x % 256
    } else {
        -((-x) % 256)
    }
}

/// The position behind the `left` entries that remain of a scaling list.
pub open spec fn after_scaling_list(r: Bits, left: nat, last: int, next: int) -> Bits
    decreases left,
{
    if left == 0 {
        r
    } else {
        let (delta, read) = se(r);
        let after = if next != 0 {
            read
        } else {
            r
        };
        let scale = if next != 0 {
            signed_rem(last + delta + 256)
        } else {
            next
        };
        after_scaling_list(
            after,
            (left - 1) as nat,
            if scale != 0 {
                scale
            } else {
                last
            },
            scale,
        )
    }
}

/// The position behind the scaling lists from number `i` on, of `n` in all.
pub open spec fn after_scaling(r: Bits, i: nat, n: nat) -> Bits
    decreases n - i,
{
    if i >= n {
        r
    } else {
        let (present, after) = bit(r);
        after_scaling(
            if present == 1 {
                after_scaling_list(
                    after,
                    if i >= 6 {
                        64
                    } else {
                        16
                    },
                    8,
                    8,
                )
            } else {
                after
            },
            i + 1,
            n,
        )
    }
}

/// The position behind the chroma format and scaling of a high profile.
pub open spec fn after_chroma(r: Bits) -> Bits {
    let (chroma, r1) = ue(r);
    let r2 = if chroma == 3 {
        bit(r1).1
    } else {
        r1
    };
    let r3 = ue(r2).1;
    let r4 = ue(r3).1;
    let r5 = bit(r4).1;
    let (scaling, r6) = bit(r5);
    if scaling == 1 {
        after_scaling(
            r6,
            0,
            if chroma == 3 {
                12
            } else {
                8
            },
        )
    } else {
        r6
    }
}

/// The position behind `n` signed numbers.
pub open spec fn after_signed(r: Bits, n: nat) -> Bits
    decreases n,
{
    if n == 0 {
        r
    } else {
        after_signed(se(r).1, (n - 1) as nat)
    }
}

/// The position behind the picture order count.
pub open spec fn after_order_count(r: Bits) -> Bits {
    let (kind, r1) = ue(r);
    if kind == 0 {
        ue(r1).1
    } else if kind == 1 {
        let r2 = bit(r1).1;
        let r3 = se(r2).1;
        let r4 = se(r3).1;
        let (n, r5) = ue(r4);
        after_signed(r5, n)
    } else {
        r1
    }
}

/// The four cropping offsets (left, right, top, bottom) and the position behind them.
pub open spec fn cropping(r: Bits) -> (nat, nat, nat, nat, Bits) {
    let (present, r1) = bit(r);
    if present == 1 {
        let (left, r2) = ue(r1);
        let (right, r3) = ue(r2);
        let (top, r4) = ue(r3);
        let (bottom, r5) = ue(r4);
        (left, right, top, bottom, r5)
    } else {
        (0, 0, 0, 0, r1)
    }
}

/// The position behind everything that comes before the picture size.
pub open spec fn before_size(r: Bits) -> Bits {
    let (profile, r1) = bits(r, 8);
    let r2 = bits(r1, 8).1;
    let r3 = bits(r2, 8).1;
    let r4 = ue(r3).1;
    let r5 = if is_high_profile(profile as u32) {
        after_chroma(r4)
    } else {
        r4
    };
    let r6 = ue(r5).1;
    let r7 = after_order_count(r6);
    let r8 = ue(r7).1;
    bit(r8).1
}

/// The picture size at a position: in macroblocks, less the cropping. `None` when the reader failed
/// or the size is not positive or does not fit 32 bits.
pub open spec fn size_at(r: Bits) -> Option<(int, int)> {
    let (wide, r1) = ue(r);
    let (high, r2) = ue(r1);
    let (frames_only, r3) = bit(r2);
    let r4 = if frames_only == 0 {
        bit(r3).1
    } else {
        r3
    };
    let r5 = bit(r4).1;
    let (left, right, top, bottom, end) = cropping(r5);
    let fields = 2 - frames_only;
    let w = (wide + 1) * 16 - (left + right) * 2;
    let h = fields * (high + 1) * 16 - (top + bottom) * (2 * fields);
    if end.err || w <= 0 || h <= 0 || w > i32::MAX || h > i32::MAX {
        None
    } else {
        Some((w, h))
    }
}

/// The picture size of a parameter set, a unit of type 7 behind its header byte.
pub open spec fn picture_size(sps: Seq<u8>) -> Option<(int, int)> {
    if sps.len() < 4 || sps[0] & 0x1f != 7 {
        None
    } else {
        size_at(before_size(Bits { data: unprevented(sps.skip(1), 0, 0), pos: 0, err: false }))
    }
}

fn skip_scaling_list(r: &mut BitReader, size: u32)
    requires
        old(r).wf(),
    ensures
        final(r).wf(),
        final(r)@ == after_scaling_list(old(r)@, size as nat, 8, 8),
{
    let mut last: i64 = 8;
    let mut next: i64 = 8;
    let mut left: u32 = size;
    while left > 0
        invariant
            r.wf(),
            -256 < last < 256,
            -256 < next < 256,
            after_scaling_list(old(r)@, size as nat, 8, 8) == after_scaling_list(
                r@,
                left as nat,
                last as int,
                next as int,
            ),
        decreases left,
    {
        if next != 0 {
            let delta: i64 = r.read_se() as i64;
            let x: i64 = last + delta + 256;
            next = if x >= 0 {
                x % 256
            } else {
                let m: i64 = (-x) % 256;
                -m
            };
        }
        if next != 0 {
            last = next;
        }
        left -= 1;
    }
}

fn skip_scaling(r: &mut BitReader, n: u32)
    requires
        old(r).wf(),
    ensures
        final(r).wf(),
        final(r)@ == after_scaling(old(r)@, 0, n as nat),
{
    let mut i: u32 = 0;
    while i < n
        invariant
            i <= n,
            r.wf(),
            after_scaling(old(r)@, 0, n as nat) == after_scaling(r@, i as nat, n as nat),
        decreases n - i,
    {
        if r.read_bit() == 1 {
            skip_scaling_list(
                r,
                if i >= 6 {
                    64
                } else {
                    16
                },
            );
        }
        i += 1;
    }
}

fn skip_chroma(r: &mut BitReader)
    requires
        old(r).wf(),
    ensures
        final(r).wf(),
        final(r)@ == after_chroma(old(r)@),
{
    let chroma: u32 = r.read_ue();
    if chroma == 3 {
        let _ = r.read_bit();
    }
    let _ = r.read_ue();
    let _ = r.read_ue();
    let _ = r.read_bit();
    if r.read_bit() == 1 {
        skip_scaling(
            r,
            if chroma == 3 {
                12
            } else {
                8
            },
        );
    }
}

fn skip_order_count(r: &mut BitReader)
    requires
        old(r).wf(),
    ensures
        final(r).wf(),
        final(r)@ == after_order_count(old(r)@),
{
    let kind: u32 = r.read_ue();
    if kind == 0 {
        let _ = r.read_ue();
    } else if kind == 1 {
        let _ = r.read_bit();
        let _ = r.read_se();
        let _ = r.read_se();
        let mut n: u32 = r.read_ue();
        let ghost want = after_signed(r@, n as nat);
        while n > 0
            invariant
                r.wf(),
                want == after_signed(r@, n as nat),
            decreases n,
        {
            let _ = r.read_se();
            n -= 1;
        }
    }
}

fn skip_to_size(r: &mut BitReader)
    requires
        old(r).wf(),
    ensures
        final(r).wf(),
        final(r)@ == before_size(old(r)@),
{
    let profile: u32 = r.read_bits(8);
    let _ = r.read_bits(8);
    let _ = r.read_bits(8);
    let _ = r.read_ue();
    if is_high_profile(profile) {
        skip_chroma(r);
    }
    let _ = r.read_ue();
    skip_order_count(r);
    let _ = r.read_ue();
    let _ = r.read_bit();
}

fn read_cropping(r: &mut BitReader) -> (c: (u32, u32, u32, u32))
    requires
        old(r).wf(),
    ensures
        final(r).wf(),
        (c.0 as nat, c.1 as nat, c.2 as nat, c.3 as nat, final(r)@) == cropping(old(r)@),
{
    if r.read_bit() == 1 {
        let left: u32 = r.read_ue();
        let right: u32 = r.read_ue();
        let top: u32 = r.read_ue();
        let bottom: u32 = r.read_ue();
        (left, right, top, bottom)
    } else {
        (0, 0, 0, 0)
    }
}

fn read_size(r: &mut BitReader) -> (size: Option<(i32, i32)>)
    requires
        old(r).wf(),
    ensures
        match size_at(old(r)@) {
            Some((w, h)) => size matches Some(found) && found.0 == w && found.1 == h,
            None => size is None,
        },
{
    let wide: u32 = r.read_ue();
    let high: u32 = r.read_ue();
    let frames_only: u8 = r.read_bit();
    if frames_only == 0 {
        let _ = r.read_bit();
    }
    let _ = r.read_bit();
    let (left, right, top, bottom) = read_cropping(r);
    let fields: i64 = 2 - frames_only as i64;
    let w: i64 = (wide as i64 + 1) * 16 - (left as i64 + right as i64) * 2;
    let rows: i64 = high as i64 + 1;
    let crop: i64 = top as i64 + bottom as i64;
    assert(fields == 1 || fields == 2);
    let h: i64 = if fields == 1 {
        rows * 16 - crop * 2
    } else {
        rows * 32 - crop * 4
    };
    proof {
        assert(fields * (high + 1) * 16 - (top + bottom) * (2 * fields) == h) by (nonlinear_arith)
            requires
                fields == 1 || fields == 2,
                fields == 1 ==> h == (high + 1) * 16 - (top + bottom) * 2,
                fields == 2 ==> h == (high + 1) * 32 - (top + bottom) * 4,
        ;
    }
    if r.err || w <= 0 || h <= 0 || w > i32::MAX as i64 || h > i32::MAX as i64 {
        None
    } else {
        Some((w as i32, h as i32))
    }
}

/// The picture size that a sequence parameter set states, without its start code.
pub fn sps_dimensions(sps: &[u8]) -> (r: Option<(i32, i32)>)
    ensures
        match picture_size(sps@) {
            Some((w, h)) => r matches Some(found) && found.0 == w && found.1 == h,
            None => r is None,
        },
{
    if sps.len() < 4 || sps[0] & 0x1f != 7 {
        return None;
    }
    let body: &[u8] = slice_subrange(sps, 1, sps.len());
    assert(body@ =~= sps@.skip(1));
    let rbsp: Vec<u8> = strip_emulation_prevention(body);
    let mut r = BitReader::new(rbsp.as_slice());
    skip_to_size(&mut r);
    read_size(&mut r)
}

} // verus!
