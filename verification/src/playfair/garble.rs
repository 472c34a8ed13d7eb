//! The scrambling step of the SAP hash: a fixed straight-line program over five buffers.
//!
//! The program has no structure beyond its steps, so each group of steps is given by a spec
//! function over the buffers' contents, and `garble` is proved to run the groups in order.
use crate::playfair::buffers::{Garble, GarbleView};
use vstd::prelude::*;

verus! {

/// `input` rotated left by `count` bits.
#[verifier::allow_in_spec]
pub fn rol8(input: u8, count: u32) -> u8
    requires
        0 < count < 8,
    returns
        (((input as u32) << count) as u8) | (input >> ((8 - count) as u32)),
{
    (((input as u32) << count) as u8) | (input >> (8 - count))
}

/// `input` rotated left by `count` bits, widened.
#[verifier::allow_in_spec]
pub fn rol8x(input: u8, count: u32) -> u32
    requires
        0 < count < 8,
    returns
        (input.wrapping_shl(count) as u32) | ((input >> ((8 - count) as u32)) as u32),
{
    (input.wrapping_shl(count) as u32) | ((input >> (8 - count)) as u32)
}

/// A right rotation that keeps the bits shifted out above bit 7, and gives 0 for no shift.
#[verifier::allow_in_spec]
pub fn weird_ror8(input: u8, count: u32) -> u32
    requires
        count < 8,
    returns
        (if count == 0 {
            0
        } else {
            (((input >> count) & 0xff) as u32) | (((input & 0xff) as u32) << ((8 - count) as u32))
        }),
{
    if count == 0 {
        return 0;
    }
    (((input >> count) & 0xff) as u32) | (((input & 0xff) as u32) << (8 - count))
}

/// A left rotation that gives 0 for no shift.
#[verifier::allow_in_spec]
pub fn weird_rol8(input: u8, count: u32) -> u32
    requires
        count < 8,
    returns
        (if count == 0 {
            0
        } else {
            (((input as u32) << count) & 0xff) | (((input & 0xff) as u32) >> ((8 - count) as u32))
        }),
{
    if count == 0 {
        return 0;
    }
    (((input as u32) << count) & 0xff) | (((input & 0xff) as u32) >> (8 - count))
}

/// A left rotation that keeps the bits shifted out above bit 7, and gives 0 for no shift.
#[verifier::allow_in_spec]
pub fn weird_rol32(input: u8, count: u32) -> u32
    requires
        count < 8,
    returns
        (if count == 0 {
            0
        } else {
            ((input as u32) << count) ^ ((input as u32) >> ((8 - count) as u32))
        }),
{
    if count == 0 {
        return 0;
    }
    ((input as u32) << count) ^ ((input as u32) >> (8 - count))
}

/// Overwrites the first table-dependent bytes and reads the two values kept for `middle_scratch_bytes`.
pub open spec fn spec_early_buffers(g: GarbleView) -> (GarbleView, u32, u32) {
    let g = g.set2(12,
        0x14u32.wrapping_add(((g.b1(64) & 92) | ((g.b1(99) / 3) & 35)) & g.b4(rol8x(g.v4(g.b1(206) %
            21), 4) % 21)) as u8);
    let g = g.set1(4, (g.b1(99) / 5).wrapping_mul(g.b1(99) / 5).wrapping_mul(2) as u8);
    let g = g.set2(34, 0xb8);
    let g = g.set1(153,
        g.v1(153) ^ (g.b2(g.b1(203) % 35).wrapping_mul(g.b2(g.b1(203) % 35)).wrapping_mul(g.b1(190))
            as u8));
    let g = g.set0(3, g.v0(3).wrapping_sub((((g.b4(g.b1(205) % 21) >> 1) & 80) | 0x40) as u8));
    let g = g.set0(16, 0x93);
    let g = g.set0(13, 0x62);
    let g = g.set1(33, g.v1(33).wrapping_sub((g.b4(g.b1(36) % 21) & 0xf6) as u8));
    let tmp2: u32 = g.b2(g.b1(67) % 35);
    let g = g.set2(12, 0x07);
    let tmp: u32 = g.b0(g.b1(181) % 20);
    let g = g.set1(2, g.v1(2).wrapping_sub(0x40));
    let g = g.set0(19, g.b4(g.b1(58) % 21) as u8);
    (g, tmp, tmp2)
}

fn early_buffers(g: &mut Garble) -> (r: (u32, u32))
    ensures
        (final(g)@, r.0, r.1) == spec_early_buffers(old(g)@),
{
    broadcast use {crate::bits::lemma_and_le_u32, crate::bits::lemma_or_low_bits};

    let byte: u8 =
        0x14u32.wrapping_add(((g.b1(64) & 92) | ((g.b1(99) / 3) & 35)) & g.b4(rol8x(g.v4(g.b1(206) %
            21), 4) % 21)) as u8;
    g.set2(12, byte);
    let byte: u8 = (g.b1(99) / 5).wrapping_mul(g.b1(99) / 5).wrapping_mul(2) as u8;
    g.set1(4, byte);
    g.set2(34, 0xb8);
    let byte: u8 =
        g.v1(153) ^ (g.b2(g.b1(203) % 35).wrapping_mul(g.b2(g.b1(203) % 35)).wrapping_mul(g.b1(190))
            as u8);
    g.set1(153, byte);
    let byte: u8 = g.v0(3).wrapping_sub((((g.b4(g.b1(205) % 21) >> 1) & 80) | 0x40) as u8);
    g.set0(3, byte);
    g.set0(16, 0x93);
    g.set0(13, 0x62);
    let byte: u8 = g.v1(33).wrapping_sub((g.b4(g.b1(36) % 21) & 0xf6) as u8);
    g.set1(33, byte);
    let tmp2: u32 = g.b2(g.b1(67) % 35);
    g.set2(12, 0x07);
    let tmp: u32 = g.b0(g.b1(181) % 20);
    let byte: u8 = g.v1(2).wrapping_sub(0x40);
    g.set1(2, byte);
    let byte: u8 = g.b4(g.b1(58) % 21) as u8;
    g.set0(19, byte);
    (tmp, tmp2)
}

/// Fills the first two scratch bytes and folds them back into the buffers.
pub open spec fn spec_first_scratch_bytes(g: GarbleView) -> GarbleView {
    let g = g.set3(0, 92u32.wrapping_sub(g.b2(g.b1(32) % 35)) as u8);
    let g = g.set3(4, g.b2(g.b1(15) % 35).wrapping_add(0x9e) as u8);
    let g = g.set1(34,
        g.v1(34).wrapping_add((g.b4((g.b2(g.b1(15) % 35).wrapping_add(0x9e) & 0xff) % 21) / 5) as
            u8));
    let g = g.set0(19,
        g.v0(19).wrapping_add(0xfffffee6u32.wrapping_sub((g.b0(g.b3(4) % 20) >> 1) & 102) as u8));
    let shift_amt: u32 = g.b4(g.b1(190) % 21) & 7;
    let shifted: u32 =
        (g.b1(72) >> shift_amt) ^ g.b1(72).wrapping_shl(7u32.wrapping_sub(g.b4(g.b1(190) % 21)
            .wrapping_sub(1)) & 7);
    let g = g.set1(15,
        (3u32.wrapping_mul(shifted.wrapping_sub(3u32.wrapping_mul(g.b4(g.b1(126) % 21)))) ^
            g.b1(15)) as u8);
    let g = g.set0(15,
        g.v0(15) ^ (g.b2(g.b1(181) % 35).wrapping_mul(g.b2(g.b1(181) % 35))
            .wrapping_mul(g.b2(g.b1(181) % 35)) as u8));
    let g = g.set2(4, g.v2(4) ^ ((g.b1(202) / 3) as u8));
    let a: u32 = 92u32.wrapping_sub(g.b0(g.b3(0) % 20));
    let e: u32 = (a & 0xc6) | (!g.b1(105) & 0xc6) | (a & (!g.b1(105)));
    let g = g.set2(1, g.v2(1).wrapping_add(e.wrapping_mul(e).wrapping_mul(e) as u8));
    g
}

fn first_scratch_bytes(g: &mut Garble)
    ensures
        final(g)@ == spec_first_scratch_bytes(old(g)@),
{
    broadcast use {crate::bits::lemma_and_le_u32, crate::bits::lemma_or_low_bits};

    let byte: u8 = 92u32.wrapping_sub(g.b2(g.b1(32) % 35)) as u8;
    g.set3(0, byte);
    let byte: u8 = g.b2(g.b1(15) % 35).wrapping_add(0x9e) as u8;
    g.set3(4, byte);
    let byte: u8 =
        g.v1(34).wrapping_add((g.b4((g.b2(g.b1(15) % 35).wrapping_add(0x9e) & 0xff) % 21) / 5) as
            u8);
    g.set1(34, byte);
    let byte: u8 =
        g.v0(19).wrapping_add(0xfffffee6u32.wrapping_sub((g.b0(g.b3(4) % 20) >> 1) & 102) as u8);
    g.set0(19, byte);
    let shift_amt: u32 = g.b4(g.b1(190) % 21) & 7;
    let shifted: u32 =
        (g.b1(72) >> shift_amt) ^ g.b1(72).wrapping_shl(7u32.wrapping_sub(g.b4(g.b1(190) % 21)
            .wrapping_sub(1)) & 7);
    let byte: u8 =
        (3u32.wrapping_mul(shifted.wrapping_sub(3u32.wrapping_mul(g.b4(g.b1(126) % 21)))) ^
            g.b1(15)) as u8;
    g.set1(15, byte);
    let byte: u8 =
        g.v0(15) ^ (g.b2(g.b1(181) % 35).wrapping_mul(g.b2(g.b1(181) % 35))
            .wrapping_mul(g.b2(g.b1(181) % 35)) as u8);
    g.set0(15, byte);
    let byte: u8 = g.v2(4) ^ ((g.b1(202) / 3) as u8);
    g.set2(4, byte);
    let a: u32 = 92u32.wrapping_sub(g.b0(g.b3(0) % 20));
    let e: u32 = (a & 0xc6) | (!g.b1(105) & 0xc6) | (a & (!g.b1(105)));
    let byte: u8 = g.v2(1).wrapping_add(e.wrapping_mul(e).wrapping_mul(e) as u8);
    g.set2(1, byte);
}

/// Mixes table-indexed bytes into the buffers and fills scratch bytes 8 and 12.
pub open spec fn spec_mix_table_bytes(g: GarbleView) -> GarbleView {
    let g = g.set0(19,
        g.v0(19) ^ (((224u32 | (g.b4(g.b1(92) % 21) & 27)).wrapping_mul(g.b2(g.b1(41) % 35)) / 3) as
            u8));
    let g = g.set1(140, g.v1(140).wrapping_add(weird_ror8(92, g.b1(5) & 7) as u8));
    let g = g.set2(12,
        g.v2(12).wrapping_add((((((!g.b1(4)) ^ g.b2(g.b1(12) % 35)) | g.b1(182)) & 192) |
            (((!g.b1(4)) ^ g.b2(g.b1(12) % 35)) & g.b1(182))) as u8));
    let g = g.set1(36, g.v1(36).wrapping_add(125));
    let g = g.set1(124,
        rol8x((((74u32 & g.b1(138)) | ((74u32 | g.b1(138)) & g.b0(15))) & g.b0(g.b1(43) % 20)) as u8
            | ((((74u32 & g.b1(138)) | ((74u32 | g.b1(138)) & g.b0(15)) | g.b0(g.b1(43) % 20)) & 95)
            as u8), 4) as u8);
    let g = g.set3(8,
        ((((g.b0(g.b3(4) % 20) & 95) & ((g.b4(g.b1(68) % 21) & 46) << 1)) | 16) as u8) ^ 92);
    let a: u32 = g.b1(177).wrapping_add(g.b4(g.b1(79) % 21));
    let d: u32 =
        (((a >> 1) | (3u32.wrapping_mul(g.b1(148)) / 5)) & g.b2(1)) | ((a >> 1) & (3u32
            .wrapping_mul(g.b1(148)) / 5));
    let g = g.set3(12, (-34i32).wrapping_sub(d as i32) as u8);
    g
}

fn mix_table_bytes(g: &mut Garble)
    ensures
        final(g)@ == spec_mix_table_bytes(old(g)@),
{
    broadcast use {crate::bits::lemma_and_le_u32, crate::bits::lemma_or_low_bits};

    let byte: u8 =
        g.v0(19) ^ (((224u32 | (g.b4(g.b1(92) % 21) & 27)).wrapping_mul(g.b2(g.b1(41) % 35)) / 3) as
            u8);
    g.set0(19, byte);
    let byte: u8 = g.v1(140).wrapping_add(weird_ror8(92, g.b1(5) & 7) as u8);
    g.set1(140, byte);
    let byte: u8 =
        g.v2(12).wrapping_add((((((!g.b1(4)) ^ g.b2(g.b1(12) % 35)) | g.b1(182)) & 192) |
            (((!g.b1(4)) ^ g.b2(g.b1(12) % 35)) & g.b1(182))) as u8);
    g.set2(12, byte);
    let byte: u8 = g.v1(36).wrapping_add(125);
    g.set1(36, byte);
    let byte: u8 =
        rol8x((((74u32 & g.b1(138)) | ((74u32 | g.b1(138)) & g.b0(15))) & g.b0(g.b1(43) % 20)) as u8
            | ((((74u32 & g.b1(138)) | ((74u32 | g.b1(138)) & g.b0(15)) | g.b0(g.b1(43) % 20)) & 95)
            as u8), 4) as u8;
    g.set1(124, byte);
    let byte: u8 =
        ((((g.b0(g.b3(4) % 20) & 95) & ((g.b4(g.b1(68) % 21) & 46) << 1)) | 16) as u8) ^ 92;
    g.set3(8, byte);
    let a: u32 = g.b1(177).wrapping_add(g.b4(g.b1(79) % 21));
    let d: u32 =
        (((a >> 1) | (3u32.wrapping_mul(g.b1(148)) / 5)) & g.b2(1)) | ((a >> 1) & (3u32
            .wrapping_mul(g.b1(148)) / 5));
    let byte: u8 = (-34i32).wrapping_sub(d as i32) as u8;
    g.set3(12, byte);
}

/// Mixes rotated bytes into the buffers.
pub open spec fn spec_mix_rotations(g: GarbleView) -> GarbleView {
    let a: u32 = 8u32.wrapping_sub(g.b2(22) & 7);
    let b: u32 = g.b1(33) >> (a & 7);
    let c: u32 = g.b1(33).wrapping_shl(g.b2(22) & 7);
    let g = g.set2(16,
        g.v2(16).wrapping_add(((g.b2(g.b3(0) % 35) & 159) | g.b0(g.b3(4) % 20) | 8).wrapping_sub((b
            ^ c) | 128) as u8));
    let g = g.set0(14, g.v0(14) ^ (g.b2(g.b3(12) % 35) as u8));
    let a: u32 = weird_rol8(g.v4(g.b0(g.b1(201) % 20) % 21), (g.b2(g.b1(112) % 35) << 1) & 7);
    let d: u32 = (g.b0(g.b1(208) % 20) & 131) | (g.b0(g.b1(164) % 20) & 124);
    let g = g.set1(19, g.v1(19).wrapping_add(((a & (d / 5)) | ((a | (d / 5)) & 37)) as u8));
    let g = g.set2(8,
        weird_ror8(140, g.b4(g.b1(45) % 21).wrapping_add(92).wrapping_mul(g.b4(g.b1(45) % 21)
            .wrapping_add(92)) & 7) as u8);
    let g = g.set1(190, 56);
    let g = g.set2(8, g.v2(8) ^ g.v3(0));
    let g = g.set1(53, (!((g.b0(g.b1(83) % 20) | 204) / 5)) as u8);
    let g = g.set0(13, g.v0(13).wrapping_add(g.b0(g.b1(41) % 20) as u8));
    let g = g.set0(10,
        (((g.b2(g.b3(0) % 35) & g.b1(2)) | ((g.b2(g.b3(0) % 35) | g.b1(2)) & g.b3(12))) / 15) as u8);
    g
}

fn mix_rotations(g: &mut Garble)
    ensures
        final(g)@ == spec_mix_rotations(old(g)@),
{
    broadcast use {crate::bits::lemma_and_le_u32, crate::bits::lemma_or_low_bits};

    let a: u32 = 8u32.wrapping_sub(g.b2(22) & 7);
    let b: u32 = g.b1(33) >> (a & 7);
    let c: u32 = g.b1(33).wrapping_shl(g.b2(22) & 7);
    let byte: u8 =
        g.v2(16).wrapping_add(((g.b2(g.b3(0) % 35) & 159) | g.b0(g.b3(4) % 20) | 8).wrapping_sub((b
            ^ c) | 128) as u8);
    g.set2(16, byte);
    let byte: u8 = g.v0(14) ^ (g.b2(g.b3(12) % 35) as u8);
    g.set0(14, byte);
    let a: u32 = weird_rol8(g.v4(g.b0(g.b1(201) % 20) % 21), (g.b2(g.b1(112) % 35) << 1) & 7);
    let d: u32 = (g.b0(g.b1(208) % 20) & 131) | (g.b0(g.b1(164) % 20) & 124);
    let byte: u8 = g.v1(19).wrapping_add(((a & (d / 5)) | ((a | (d / 5)) & 37)) as u8);
    g.set1(19, byte);
    let byte: u8 =
        weird_ror8(140, g.b4(g.b1(45) % 21).wrapping_add(92).wrapping_mul(g.b4(g.b1(45) % 21)
            .wrapping_add(92)) & 7) as u8;
    g.set2(8, byte);
    g.set1(190, 56);
    let byte: u8 = g.v2(8) ^ g.v3(0);
    g.set2(8, byte);
    let byte: u8 = (!((g.b0(g.b1(83) % 20) | 204) / 5)) as u8;
    g.set1(53, byte);
    let byte: u8 = g.v0(13).wrapping_add(g.b0(g.b1(41) % 20) as u8);
    g.set0(13, byte);
    let byte: u8 =
        (((g.b2(g.b3(0) % 35) & g.b1(2)) | ((g.b2(g.b3(0) % 35) | g.b1(2)) & g.b3(12))) / 15) as u8;
    g.set0(10, byte);
}

/// Fills scratch bytes 16 to 36 and returns the value kept for `caffeine`.
pub open spec fn spec_middle_scratch_bytes(g: GarbleView, tmp: u32, tmp2: u32) -> (GarbleView, u32) {
    let a: u32 =
        (((56u32 | (g.b4(g.b1(2) % 21) & 68)) | g.b2(g.b3(8) % 35)) & 42) | (((g.b4(g.b1(2) % 21) &
            68) | 56) & g.b2(g.b3(8) % 35));
    let g = g.set3(16, a.wrapping_mul(a).wrapping_add(110) as u8);
    let g = g.set3(20, 202u32.wrapping_sub(g.b3(16)) as u8);
    let g = g.set3(24, g.v1(151));
    let g = g.set2(13, g.v2(13) ^ (g.b4(g.b3(0) % 21) as u8));
    let b: u32 = (g.b2(g.b1(179) % 35).wrapping_sub(38) & 177) | (g.b3(12) & 177);
    let c: u32 = g.b2(g.b1(179) % 35).wrapping_sub(38) & g.b3(12);
    let g = g.set3(28, 30u32.wrapping_add((b | c).wrapping_mul(b | c)) as u8);
    let g = g.set3(32, g.b3(28).wrapping_add(62) as u8);
    let a: u32 = (g.b3(20).wrapping_add(g.b3(0) & 74) | !g.b4(g.b3(0) % 21)) & 121;
    let b: u32 = g.b3(20).wrapping_add(g.b3(0) & 74) & !g.b4(g.b3(0) % 21);
    let tmp3: u32 = a | b;
    let c: u32 = ((((a | b) ^ 0xffffffa6) | g.b3(0)) & 4) | (((a | b) ^ 0xffffffa6) & g.b3(0));
    let g = g.set1(47, (g.b2(g.b1(89) % 35).wrapping_add(c) ^ g.b1(47)) as u8);
    let g = g.set3(36,
        (((rol8((tmp & 179).wrapping_add(68) as u8, 2) as u32) & g.b0(3)) | (tmp2 & !g.b0(3)))
            .wrapping_sub(15) as u8);
    let g = g.set1(123, g.v1(123) ^ 221);
    (g, tmp3)
}

fn middle_scratch_bytes(g: &mut Garble, tmp: u32, tmp2: u32) -> (r: u32)
    ensures
        (final(g)@, r) == spec_middle_scratch_bytes(old(g)@, tmp, tmp2),
{
    broadcast use {crate::bits::lemma_and_le_u32, crate::bits::lemma_or_low_bits};

    let a: u32 =
        (((56u32 | (g.b4(g.b1(2) % 21) & 68)) | g.b2(g.b3(8) % 35)) & 42) | (((g.b4(g.b1(2) % 21) &
            68) | 56) & g.b2(g.b3(8) % 35));
    let byte: u8 = a.wrapping_mul(a).wrapping_add(110) as u8;
    g.set3(16, byte);
    let byte: u8 = 202u32.wrapping_sub(g.b3(16)) as u8;
    g.set3(20, byte);
    let byte: u8 = g.v1(151);
    g.set3(24, byte);
    let byte: u8 = g.v2(13) ^ (g.b4(g.b3(0) % 21) as u8);
    g.set2(13, byte);
    let b: u32 = (g.b2(g.b1(179) % 35).wrapping_sub(38) & 177) | (g.b3(12) & 177);
    let c: u32 = g.b2(g.b1(179) % 35).wrapping_sub(38) & g.b3(12);
    let byte: u8 = 30u32.wrapping_add((b | c).wrapping_mul(b | c)) as u8;
    g.set3(28, byte);
    let byte: u8 = g.b3(28).wrapping_add(62) as u8;
    g.set3(32, byte);
    let a: u32 = (g.b3(20).wrapping_add(g.b3(0) & 74) | !g.b4(g.b3(0) % 21)) & 121;
    let b: u32 = g.b3(20).wrapping_add(g.b3(0) & 74) & !g.b4(g.b3(0) % 21);
    let tmp3: u32 = a | b;
    let c: u32 = ((((a | b) ^ 0xffffffa6) | g.b3(0)) & 4) | (((a | b) ^ 0xffffffa6) & g.b3(0));
    let byte: u8 = (g.b2(g.b1(89) % 35).wrapping_add(c) ^ g.b1(47)) as u8;
    g.set1(47, byte);
    let byte: u8 =
        (((rol8((tmp & 179).wrapping_add(68) as u8, 2) as u32) & g.b0(3)) | (tmp2 & !g.b0(3)))
            .wrapping_sub(15) as u8;
    g.set3(36, byte);
    let byte: u8 = g.v1(123) ^ 221;
    g.set1(123, byte);
    tmp3
}

/// Fills scratch bytes 40 to 64 and folds them back into the buffers.
pub open spec fn spec_caffeine(g: GarbleView, tmp3: u32) -> GarbleView {
    let a: u32 = (g.b4(g.b3(0) % 21) / 3).wrapping_sub(g.b2(g.b3(4) % 35));
    let c: u32 = ((g.b3(0) & 163).wrapping_add(92) & 246) | (g.b3(0) & 92);
    let e: u32 = ((c | g.b3(24)) & 54) | (c & g.b3(24));
    let g = g.set3(40, a.wrapping_sub(e) as u8);
    let g = g.set3(44, (tmp3 ^ 81 ^ ((g.b3(0) >> 1) & 101).wrapping_add(26)) as u8);
    let g = g.set3(48, (g.b2(g.b3(4) % 35) & 27) as u8);
    let g = g.set3(52, 27);
    let g = g.set3(56, 199);
    let g = g.set3(64,
        g.b3(4).wrapping_add(((((((g.b3(40) | g.b3(24)) & 177) | (g.b3(40) & g.b3(24))) &
            (((g.b4(g.b3(0) % 20) & 177) | 176) | (g.b4(g.b3(0) % 21) & !3u32))) | ((((g.b3(40) &
            g.b3(24)) | ((g.b3(40) | g.b3(24)) & 177)) & 199) | (((g.b4(g.b3(0) % 21) & 1)
            .wrapping_add(176) | (g.b4(g.b3(0) % 21) & !3u32)) & g.b3(56)))) & (!g.b3(52))) |
            g.b3(48)) as u8);
    let g = g.set2(33, g.v2(33) ^ g.v1(26));
    let g = g.set1(106, g.v1(106) ^ ((g.b3(20) ^ 133) as u8));
    let g = g.set2(30,
        ((g.b3(64) / 3).wrapping_sub(275u32 | (g.b3(0) & 247)) ^ g.b0(g.b1(122) % 20)) as u8);
    let g = g.set1(22, ((g.b2(g.b1(90) % 35) & 95) | 68) as u8);
    g
}

fn caffeine(g: &mut Garble, tmp3: u32)
    ensures
        final(g)@ == spec_caffeine(old(g)@, tmp3),
{
    broadcast use {crate::bits::lemma_and_le_u32, crate::bits::lemma_or_low_bits};

    let a: u32 = (g.b4(g.b3(0) % 21) / 3).wrapping_sub(g.b2(g.b3(4) % 35));
    let c: u32 = ((g.b3(0) & 163).wrapping_add(92) & 246) | (g.b3(0) & 92);
    let e: u32 = ((c | g.b3(24)) & 54) | (c & g.b3(24));
    let byte: u8 = a.wrapping_sub(e) as u8;
    g.set3(40, byte);
    let byte: u8 = (tmp3 ^ 81 ^ ((g.b3(0) >> 1) & 101).wrapping_add(26)) as u8;
    g.set3(44, byte);
    let byte: u8 = (g.b2(g.b3(4) % 35) & 27) as u8;
    g.set3(48, byte);
    g.set3(52, 27);
    g.set3(56, 199);
    let byte: u8 =
        g.b3(4).wrapping_add(((((((g.b3(40) | g.b3(24)) & 177) | (g.b3(40) & g.b3(24))) &
            (((g.b4(g.b3(0) % 20) & 177) | 176) | (g.b4(g.b3(0) % 21) & !3u32))) | ((((g.b3(40) &
            g.b3(24)) | ((g.b3(40) | g.b3(24)) & 177)) & 199) | (((g.b4(g.b3(0) % 21) & 1)
            .wrapping_add(176) | (g.b4(g.b3(0) % 21) & !3u32)) & g.b3(56)))) & (!g.b3(52))) |
            g.b3(48)) as u8;
    g.set3(64, byte);
    let byte: u8 = g.v2(33) ^ g.v1(26);
    g.set2(33, byte);
    let byte: u8 = g.v1(106) ^ ((g.b3(20) ^ 133) as u8);
    g.set1(106, byte);
    let byte: u8 =
        ((g.b3(64) / 3).wrapping_sub(275u32 | (g.b3(0) & 247)) ^ g.b0(g.b1(122) % 20)) as u8;
    g.set2(30, byte);
    let byte: u8 = ((g.b2(g.b1(90) % 35) & 95) | 68) as u8;
    g.set1(22, byte);
}

/// Mixes products of selected bytes into buffer 2.
pub open spec fn spec_mix_products(g: GarbleView) -> GarbleView {
    let a: u32 = (g.b4(g.b3(36) % 21) & 184) | (g.b2(g.b3(44) % 35) & !184u32);
    let g = g.set2(18, g.v2(18).wrapping_add((a.wrapping_mul(a).wrapping_mul(a) >> 1) as u8));
    let g = g.set2(5, g.v2(5).wrapping_sub(g.b4(g.b1(92) % 21) as u8));
    let a: u32 =
        (((g.b1(41) & !24u32) | (g.b2(g.b1(183) % 35) & 24)) & g.b3(16).wrapping_add(53)) |
            (g.b3(20) & g.b2(g.b3(20) % 35));
    let b: u32 = (g.b1(17) & (!g.b3(44))) | (g.b0(g.b1(59) % 20) & g.b3(44));
    let g = g.set2(18, g.v2(18) ^ (a.wrapping_mul(b) as u8));
    let a: u32 = weird_ror8(g.v1(11), g.b2(g.b1(28) % 35) & 7) & 7;
    let b: u32 = (((g.b0(g.b1(93) % 20) & !g.b0(14)) | (g.b0(14) & 150)) & !28u32) | (g.b1(7) & 28);
    let g = g.set2(22,
        (((b | weird_rol8(g.v2(g.b3(0) % 35), a)) & g.b2(33)) | (b & weird_rol8(g.v2(g.b3(0) % 35),
            a))).wrapping_add(74) as u8);
    let a: u32 = g.b4((g.b0(g.b1(39) % 20) ^ 217) % 21);
    let g = g.set0(15,
        g.v0(15).wrapping_sub((((((g.b3(20) | g.b3(0)) & 214) | (g.b3(20) & g.b3(0))) & a) |
            (((((g.b3(20) | g.b3(0)) & 214) | (g.b3(20) & g.b3(0))) | a) & g.b3(32))) as u8));
    g
}

fn mix_products(g: &mut Garble)
    ensures
        final(g)@ == spec_mix_products(old(g)@),
{
    broadcast use {crate::bits::lemma_and_le_u32, crate::bits::lemma_or_low_bits};

    let a: u32 = (g.b4(g.b3(36) % 21) & 184) | (g.b2(g.b3(44) % 35) & !184u32);
    let byte: u8 = g.v2(18).wrapping_add((a.wrapping_mul(a).wrapping_mul(a) >> 1) as u8);
    g.set2(18, byte);
    let byte: u8 = g.v2(5).wrapping_sub(g.b4(g.b1(92) % 21) as u8);
    g.set2(5, byte);
    let a: u32 =
        (((g.b1(41) & !24u32) | (g.b2(g.b1(183) % 35) & 24)) & g.b3(16).wrapping_add(53)) |
            (g.b3(20) & g.b2(g.b3(20) % 35));
    let b: u32 = (g.b1(17) & (!g.b3(44))) | (g.b0(g.b1(59) % 20) & g.b3(44));
    let byte: u8 = g.v2(18) ^ (a.wrapping_mul(b) as u8);
    g.set2(18, byte);
    let a: u32 = weird_ror8(g.v1(11), g.b2(g.b1(28) % 35) & 7) & 7;
    let b: u32 = (((g.b0(g.b1(93) % 20) & !g.b0(14)) | (g.b0(14) & 150)) & !28u32) | (g.b1(7) & 28);
    let byte: u8 =
        (((b | weird_rol8(g.v2(g.b3(0) % 35), a)) & g.b2(33)) | (b & weird_rol8(g.v2(g.b3(0) % 35),
            a))).wrapping_add(74) as u8;
    g.set2(22, byte);
    let a: u32 = g.b4((g.b0(g.b1(39) % 20) ^ 217) % 21);
    let byte: u8 =
        g.v0(15).wrapping_sub((((((g.b3(20) | g.b3(0)) & 214) | (g.b3(20) & g.b3(0))) & a) |
            (((((g.b3(20) | g.b3(0)) & 214) | (g.b3(20) & g.b3(0))) | a) & g.b3(32))) as u8);
    g.set0(15, byte);
}

/// Fills scratch byte 68 and reads the values that later steps mix in after the buffers have moved on.
pub open spec fn spec_save_values(g: GarbleView) -> (GarbleView, u32, u32, u32, u32, u32, u32, u32, u32, u32) {
    let b: u32 =
        ((g.b2(g.b1(57) % 35) & g.b0(g.b3(64) % 20)) | ((g.b0(g.b3(64) % 20) | g.b2(g.b1(57) % 35))
            & 95) | (g.b3(64) & 45) | 82) & 32;
    let c: u32 =
        ((g.b2(g.b1(57) % 35) & g.b0(g.b3(64) % 20)) | ((g.b2(g.b1(57) % 35) | g.b0(g.b3(64) % 20))
            & 95)) & ((g.b3(64) & 45) | 82);
    let d: u32 =
        (g.b3(0) / 3).wrapping_sub(g.b3(64) | g.b1(22)) ^ g.b3(28).wrapping_add(62) ^ (b | c);
    let t: u32 = g.b0((d & 0xff) % 20);
    let g = g.set3(68,
        (g.b0(g.b1(99) % 20).wrapping_mul(g.b0(g.b1(99) % 20)).wrapping_mul(g.b0(g.b1(99) % 20))
            .wrapping_mul(g.b0(g.b1(99) % 20)) | g.b2(g.b3(64) % 35)) as u8);
    let u: u32 = g.b0(g.b1(50) % 20);
    let w: u32 = g.b2(g.b1(138) % 35);
    let x: u32 = g.b4(g.b1(39) % 21);
    let y: u32 = g.b0(g.b1(4) % 20);
    let z: u32 = g.b4(g.b1(202) % 21);
    let v: u32 = g.b0(g.b1(151) % 20);
    let s: u32 = g.b2(g.b1(14) % 35);
    let r: u32 = g.b0(g.b1(145) % 20);
    (g, t, u, w, x, y, z, v, s, r)
}

fn save_values(g: &mut Garble) -> (r: (u32, u32, u32, u32, u32, u32, u32, u32, u32))
    ensures
        (final(g)@, r.0, r.1, r.2, r.3, r.4, r.5, r.6, r.7, r.8) == spec_save_values(old(g)@),
{
    broadcast use {crate::bits::lemma_and_le_u32, crate::bits::lemma_or_low_bits};

    let b: u32 =
        ((g.b2(g.b1(57) % 35) & g.b0(g.b3(64) % 20)) | ((g.b0(g.b3(64) % 20) | g.b2(g.b1(57) % 35))
            & 95) | (g.b3(64) & 45) | 82) & 32;
    let c: u32 =
        ((g.b2(g.b1(57) % 35) & g.b0(g.b3(64) % 20)) | ((g.b2(g.b1(57) % 35) | g.b0(g.b3(64) % 20))
            & 95)) & ((g.b3(64) & 45) | 82);
    let d: u32 =
        (g.b3(0) / 3).wrapping_sub(g.b3(64) | g.b1(22)) ^ g.b3(28).wrapping_add(62) ^ (b | c);
    let t: u32 = g.b0((d & 0xff) % 20);
    let byte: u8 =
        (g.b0(g.b1(99) % 20).wrapping_mul(g.b0(g.b1(99) % 20)).wrapping_mul(g.b0(g.b1(99) % 20))
            .wrapping_mul(g.b0(g.b1(99) % 20)) | g.b2(g.b3(64) % 35)) as u8;
    g.set3(68, byte);
    let u: u32 = g.b0(g.b1(50) % 20);
    let w: u32 = g.b2(g.b1(138) % 35);
    let x: u32 = g.b4(g.b1(39) % 21);
    let y: u32 = g.b0(g.b1(4) % 20);
    let z: u32 = g.b4(g.b1(202) % 21);
    let v: u32 = g.b0(g.b1(151) % 20);
    let s: u32 = g.b2(g.b1(14) % 35);
    let r: u32 = g.b0(g.b1(145) % 20);
    (t, u, w, x, y, z, v, s, r)
}

/// Fills scratch byte 72 from masked selections and folds it back into the buffers.
pub open spec fn spec_mix_selections(g: GarbleView) -> GarbleView {
    let a: u32 =
        (g.b2(g.b3(68) % 35) & g.b0(g.b1(209) % 20)) | ((g.b2(g.b3(68) % 35) | g.b0(g.b1(209) % 20))
            & 24);
    let b: u32 = weird_rol8(g.v4(g.b1(127) % 21), g.b2(g.b3(68) % 35) & 7);
    let c: u32 = (a & g.b0(10)) | (b & !g.b0(10));
    let d: u32 = 7u32 ^ (g.b4(g.b2(g.b3(36) % 35) % 21) << 1);
    let g = g.set3(72, ((c & 71) | (d & !71u32)) as u8);
    let g = g.set2(2,
        g.v2(2).wrapping_add(((((g.b0(g.b3(20) % 20) << 1) & 159) | (g.b4(g.b1(190) % 21) &
            !159u32)) & ((((g.b4(g.b3(64) % 21) & 110) | (g.b0(g.b1(25) % 20) & !110u32)) & !150u32)
            | (g.b1(25) & 150))) as u8));
    let g = g.set2(14,
        g.v2(14).wrapping_sub((((g.b2(g.b3(20) % 35) & (g.b3(72) ^ g.b2(g.b1(100) % 35))) & !34u32)
            | (g.b1(97) & 34)) as u8));
    let g = g.set0(17, 115);
    let p: u32 = g.b4(g.b1(17) % 21) | g.b0(g.b3(20) % 20);
    let q: u32 = g.b4(g.b1(17) % 21) & g.b0(g.b3(20) % 20);
    let inner: u32 = (p & g.b3(72)) | q;
    let val: u32 = ((inner & (g.b1(50) / 3)) | ((inner | (g.b1(50) / 3)) & 246)) << 1;
    let g = g.set1(23, g.v1(23) ^ (val as u8));
    let g = g.set0(13,
        ((((((g.b0(g.b3(40) % 20) | g.b1(10)) & 82) | (g.b0(g.b3(40) % 20) & g.b1(10))) & 209) |
            ((g.b0(g.b1(39) % 20) << 1) & 46)) >> 1) as u8);
    let g = g.set2(33, g.v2(33).wrapping_sub((g.b1(113) & 9) as u8));
    let g = g.set2(28,
        g.v2(28).wrapping_sub(((((2u32 | (g.b1(110) & 222)) >> 1) & !223u32) | (g.b3(20) & 223)) as
            u8));
    g
}

fn mix_selections(g: &mut Garble)
    ensures
        final(g)@ == spec_mix_selections(old(g)@),
{
    broadcast use {crate::bits::lemma_and_le_u32, crate::bits::lemma_or_low_bits};

    let a: u32 =
        (g.b2(g.b3(68) % 35) & g.b0(g.b1(209) % 20)) | ((g.b2(g.b3(68) % 35) | g.b0(g.b1(209) % 20))
            & 24);
    let b: u32 = weird_rol8(g.v4(g.b1(127) % 21), g.b2(g.b3(68) % 35) & 7);
    let c: u32 = (a & g.b0(10)) | (b & !g.b0(10));
    let d: u32 = 7u32 ^ (g.b4(g.b2(g.b3(36) % 35) % 21) << 1);
    let byte: u8 = ((c & 71) | (d & !71u32)) as u8;
    g.set3(72, byte);
    let byte: u8 =
        g.v2(2).wrapping_add(((((g.b0(g.b3(20) % 20) << 1) & 159) | (g.b4(g.b1(190) % 21) &
            !159u32)) & ((((g.b4(g.b3(64) % 21) & 110) | (g.b0(g.b1(25) % 20) & !110u32)) & !150u32)
            | (g.b1(25) & 150))) as u8);
    g.set2(2, byte);
    let byte: u8 =
        g.v2(14).wrapping_sub((((g.b2(g.b3(20) % 35) & (g.b3(72) ^ g.b2(g.b1(100) % 35))) & !34u32)
            | (g.b1(97) & 34)) as u8);
    g.set2(14, byte);
    g.set0(17, 115);
    let p: u32 = g.b4(g.b1(17) % 21) | g.b0(g.b3(20) % 20);
    let q: u32 = g.b4(g.b1(17) % 21) & g.b0(g.b3(20) % 20);
    let inner: u32 = (p & g.b3(72)) | q;
    let val: u32 = ((inner & (g.b1(50) / 3)) | ((inner | (g.b1(50) / 3)) & 246)) << 1;
    let byte: u8 = g.v1(23) ^ (val as u8);
    g.set1(23, byte);
    let byte: u8 =
        ((((((g.b0(g.b3(40) % 20) | g.b1(10)) & 82) | (g.b0(g.b3(40) % 20) & g.b1(10))) & 209) |
            ((g.b0(g.b1(39) % 20) << 1) & 46)) >> 1) as u8;
    g.set0(13, byte);
    let byte: u8 = g.v2(33).wrapping_sub((g.b1(113) & 9) as u8);
    g.set2(33, byte);
    let byte: u8 =
        g.v2(28).wrapping_sub(((((2u32 | (g.b1(110) & 222)) >> 1) & !223u32) | (g.b3(20) & 223)) as
            u8);
    g.set2(28, byte);
}

/// Mixes the saved values in and fills scratch bytes 76 to 88.
pub open spec fn spec_mix_saved_values(
    g: GarbleView,
    t: u32,
    u: u32,
    w: u32,
    x: u32,
    y: u32,
    z: u32,
    v: u32,
) -> GarbleView {
    let jj: u32 = weird_rol8((v | z) as u8, u & 7);
    let a: u32 = (g.b2(16) & t) | (w & (!g.b2(16)));
    let b: u32 = (g.b1(33) & 17) | (x & !17u32);
    let e: u32 = ((y | (a.wrapping_add(b) / 5)) & 147) | (y & (a.wrapping_add(b) / 5));
    let m: u32 =
        (g.b3(40) & g.b4((g.b3(8).wrapping_add(jj).wrapping_add(e) & 0xff) % 21)) | ((g.b3(40) |
            g.b4((g.b3(8).wrapping_add(jj).wrapping_add(e) & 0xff) % 21)) & g.b2(23));
    let g = g.set0(15,
        (((g.b4(g.b3(20) % 21).wrapping_sub(48) & (!g.b1(184))) | (g.b4(g.b3(20) % 21)
            .wrapping_sub(48) & 189) | (189u32 & !g.b1(184))) & m.wrapping_mul(m).wrapping_mul(m))
            as u8);
    let g = g.set2(22, g.v2(22).wrapping_add(g.v1(183)));
    let g = g.set3(76, (3u32.wrapping_mul(g.b4(g.b1(1) % 21)) ^ g.b3(0)) as u8);
    let a: u32 = g.b2((g.b3(8).wrapping_add(jj.wrapping_add(e)) & 0xff) % 35);
    let f: u32 =
        ((g.b4(g.b1(178) % 21) & a) | ((g.b4(g.b1(178) % 21) | a) & 209)).wrapping_mul(g.b0(g.b1(13)
            % 20)).wrapping_mul(g.b4(g.b1(26) % 21) >> 1);
    let k: u32 =
        f.wrapping_add(0x733ffff9).wrapping_mul(198).wrapping_sub(f.wrapping_add(0x733ffff9)
            .wrapping_mul(396).wrapping_add(212) & 212).wrapping_add(85);
    let g = g.set3(80,
        g.b3(36).wrapping_add(k ^ 148).wrapping_add((k ^ 107) << 1).wrapping_sub(127) as u8);
    let g = g.set3(84, ((g.b2(g.b3(64) % 35) & 245) | (g.b2(g.b3(20) % 35) & 10)) as u8);
    let a: u32 = g.b0(g.b3(68) % 20) | 81;
    let g = g.set2(18,
        g.v2(18).wrapping_sub(((a.wrapping_mul(a).wrapping_mul(a) & !g.b0(15)) | ((g.b3(80) / 15) &
            g.b0(15))) as u8));
    let g = g.set3(88,
        g.b3(8).wrapping_add(jj).wrapping_add(e).wrapping_sub(g.b0(g.b1(160) % 20))
            .wrapping_add(g.b4(g.b0((g.b3(8).wrapping_add(jj).wrapping_add(e) & 255) % 20) % 21) /
            3) as u8);
    g
}

fn mix_saved_values(g: &mut Garble, t: u32, u: u32, w: u32, x: u32, y: u32, z: u32, v: u32)
    ensures
        final(g)@ == spec_mix_saved_values(old(g)@, t, u, w, x, y, z, v),
{
    broadcast use {crate::bits::lemma_and_le_u32, crate::bits::lemma_or_low_bits};

    let jj: u32 = weird_rol8((v | z) as u8, u & 7);
    let a: u32 = (g.b2(16) & t) | (w & (!g.b2(16)));
    let b: u32 = (g.b1(33) & 17) | (x & !17u32);
    let e: u32 = ((y | (a.wrapping_add(b) / 5)) & 147) | (y & (a.wrapping_add(b) / 5));
    let m: u32 =
        (g.b3(40) & g.b4((g.b3(8).wrapping_add(jj).wrapping_add(e) & 0xff) % 21)) | ((g.b3(40) |
            g.b4((g.b3(8).wrapping_add(jj).wrapping_add(e) & 0xff) % 21)) & g.b2(23));
    let byte: u8 =
        (((g.b4(g.b3(20) % 21).wrapping_sub(48) & (!g.b1(184))) | (g.b4(g.b3(20) % 21)
            .wrapping_sub(48) & 189) | (189u32 & !g.b1(184))) & m.wrapping_mul(m).wrapping_mul(m))
            as u8;
    g.set0(15, byte);
    let byte: u8 = g.v2(22).wrapping_add(g.v1(183));
    g.set2(22, byte);
    let byte: u8 = (3u32.wrapping_mul(g.b4(g.b1(1) % 21)) ^ g.b3(0)) as u8;
    g.set3(76, byte);
    let a: u32 = g.b2((g.b3(8).wrapping_add(jj.wrapping_add(e)) & 0xff) % 35);
    let f: u32 =
        ((g.b4(g.b1(178) % 21) & a) | ((g.b4(g.b1(178) % 21) | a) & 209)).wrapping_mul(g.b0(g.b1(13)
            % 20)).wrapping_mul(g.b4(g.b1(26) % 21) >> 1);
    let k: u32 =
        f.wrapping_add(0x733ffff9).wrapping_mul(198).wrapping_sub(f.wrapping_add(0x733ffff9)
            .wrapping_mul(396).wrapping_add(212) & 212).wrapping_add(85);
    let byte: u8 =
        g.b3(36).wrapping_add(k ^ 148).wrapping_add((k ^ 107) << 1).wrapping_sub(127) as u8;
    g.set3(80, byte);
    let byte: u8 = ((g.b2(g.b3(64) % 35) & 245) | (g.b2(g.b3(20) % 35) & 10)) as u8;
    g.set3(84, byte);
    let a: u32 = g.b0(g.b3(68) % 20) | 81;
    let byte: u8 =
        g.v2(18).wrapping_sub(((a.wrapping_mul(a).wrapping_mul(a) & !g.b0(15)) | ((g.b3(80) / 15) &
            g.b0(15))) as u8);
    g.set2(18, byte);
    let byte: u8 =
        g.b3(8).wrapping_add(jj).wrapping_add(e).wrapping_sub(g.b0(g.b1(160) % 20))
            .wrapping_add(g.b4(g.b0((g.b3(8).wrapping_add(jj).wrapping_add(e) & 255) % 20) % 21) /
            3) as u8;
    g.set3(88, byte);
}

/// Mixes squared bytes in and fills scratch bytes 92 to 100.
pub open spec fn spec_mix_squares(g: GarbleView, r: u32, s: u32) -> GarbleView {
    let b: u32 = ((r ^ g.b3(72)) & !198u32) | (s.wrapping_mul(s) & 198);
    let f: u32 =
        (g.b4(g.b1(69) % 21) & g.b1(172)) | ((g.b4(g.b1(69) % 21) | g.b1(172)) & g.b3(12)
            .wrapping_sub(b).wrapping_add(77));
    let g = g.set0(16,
        147u32.wrapping_sub((g.b3(72) & ((f & 251) | 1)) | (((f & 250) | g.b3(72)) & 198)) as u8);
    let c: u32 =
        (g.b4(g.b1(168) % 21) & g.b0(g.b1(29) % 20) & 7) | ((g.b4(g.b1(168) % 21) | g.b0(g.b1(29) %
            20)) & 6);
    let f: u32 = (g.b4(g.b1(155) % 21) & g.b1(105)) | ((g.b4(g.b1(155) % 21) | g.b1(105)) & 141);
    let g = g.set0(3, g.v0(3).wrapping_sub(g.b4(weird_rol32(f as u8, c) % 21) as u8));
    let g = g.set1(5,
        (weird_ror8(g.v0(12), (g.b0(g.b1(61) % 20) / 5) & 7) ^ ((!g.b2(g.b3(84) % 35) & 0xffffffff)
            / 5)) as u8);
    let g = g.set1(198, g.v1(198).wrapping_add(g.v1(3)));
    let a: u32 = 162u32 | g.b2(g.b3(64) % 35);
    let g = g.set1(164, g.v1(164).wrapping_add((a.wrapping_mul(a) / 5) as u8));
    let k: u32 = weird_ror8(139, g.b3(80) & 7);
    let c: u32 =
        (g.b4(g.b3(64) % 21).wrapping_mul(g.b4(g.b3(64) % 21)).wrapping_mul(g.b4(g.b3(64) % 21)) &
            95) | (g.b0(g.b3(40) % 20) & !95u32);
    let g = g.set3(92,
        ((k & 12) | (g.b0(g.b3(20) % 20) & 12) | (k & g.b0(g.b3(20) % 20)) | c) as u8);
    let g = g.set2(12,
        g.v2(12).wrapping_add((((g.b1(103) & 32) | (g.b3(92) & (g.b1(103) | 60)) | 16) / 3) as u8));
    let g = g.set3(96, g.v1(143));
    let g = g.set3(100, 27);
    g
}

fn mix_squares(g: &mut Garble, r: u32, s: u32)
    ensures
        final(g)@ == spec_mix_squares(old(g)@, r, s),
{
    broadcast use {crate::bits::lemma_and_le_u32, crate::bits::lemma_or_low_bits};

    let b: u32 = ((r ^ g.b3(72)) & !198u32) | (s.wrapping_mul(s) & 198);
    let f: u32 =
        (g.b4(g.b1(69) % 21) & g.b1(172)) | ((g.b4(g.b1(69) % 21) | g.b1(172)) & g.b3(12)
            .wrapping_sub(b).wrapping_add(77));
    let byte: u8 =
        147u32.wrapping_sub((g.b3(72) & ((f & 251) | 1)) | (((f & 250) | g.b3(72)) & 198)) as u8;
    g.set0(16, byte);
    let c: u32 =
        (g.b4(g.b1(168) % 21) & g.b0(g.b1(29) % 20) & 7) | ((g.b4(g.b1(168) % 21) | g.b0(g.b1(29) %
            20)) & 6);
    let f: u32 = (g.b4(g.b1(155) % 21) & g.b1(105)) | ((g.b4(g.b1(155) % 21) | g.b1(105)) & 141);
    let byte: u8 = g.v0(3).wrapping_sub(g.b4(weird_rol32(f as u8, c) % 21) as u8);
    g.set0(3, byte);
    let byte: u8 =
        (weird_ror8(g.v0(12), (g.b0(g.b1(61) % 20) / 5) & 7) ^ ((!g.b2(g.b3(84) % 35) & 0xffffffff)
            / 5)) as u8;
    g.set1(5, byte);
    let byte: u8 = g.v1(198).wrapping_add(g.v1(3));
    g.set1(198, byte);
    let a: u32 = 162u32 | g.b2(g.b3(64) % 35);
    let byte: u8 = g.v1(164).wrapping_add((a.wrapping_mul(a) / 5) as u8);
    g.set1(164, byte);
    let k: u32 = weird_ror8(139, g.b3(80) & 7);
    let c: u32 =
        (g.b4(g.b3(64) % 21).wrapping_mul(g.b4(g.b3(64) % 21)).wrapping_mul(g.b4(g.b3(64) % 21)) &
            95) | (g.b0(g.b3(40) % 20) & !95u32);
    let byte: u8 = ((k & 12) | (g.b0(g.b3(20) % 20) & 12) | (k & g.b0(g.b3(20) % 20)) | c) as u8;
    g.set3(92, byte);
    let byte: u8 =
        g.v2(12).wrapping_add((((g.b1(103) & 32) | (g.b3(92) & (g.b1(103) | 60)) | 16) / 3) as u8);
    g.set2(12, byte);
    let byte: u8 = g.v1(143);
    g.set3(96, byte);
    g.set3(100, 27);
}

/// Fills scratch bytes 104 to 120.
pub open spec fn spec_late_scratch_bytes(g: GarbleView) -> GarbleView {
    let g = g.set3(104, ((((g.b3(40) & !g.b2(8)) | (g.b1(35) & g.b2(8))) & g.b3(64)) ^ 119) as u8);
    let g = g.set3(108,
        (238u32 & ((((g.b3(40) & !g.b2(8)) | (g.b1(35) & g.b2(8))) & g.b3(64)) << 1)) as u8);
    let g = g.set3(112, ((!g.b3(64) & (g.b3(84) / 3)) ^ 49) as u8);
    let g = g.set3(116, (98u32 & ((!g.b3(64) & (g.b3(84) / 3)) << 1)) as u8);
    let a: u32 = (g.b1(35) & g.b2(8)) | (g.b3(40) & !g.b2(8));
    let b: u32 = (a & g.b3(64)) | ((g.b3(84) / 3) & !g.b3(64));
    let g = g.set1(143,
        g.b3(96).wrapping_sub((b & 86u32.wrapping_add((g.b1(172) & 64) >> 1)) | (((((g.b1(172) & 65)
            >> 1) ^ 86) | ((!g.b3(64) & (g.b3(84) / 3)) | (((g.b3(40) & !g.b2(8)) | (g.b1(35) &
            g.b2(8))) & g.b3(64)))) & g.b3(100))) as u8);
    let g = g.set2(29, 162);
    let a: u32 = ((g.b4(g.b3(88) % 21) & 160) | (g.b0(g.b1(125) % 20) & 95)) >> 1;
    let b: u32 = g.b2(g.b1(149) % 35) ^ g.b1(43).wrapping_mul(g.b1(43));
    let g = g.set0(15, g.v0(15).wrapping_add(((b & a) | ((a | b) & 115)) as u8));
    let g = g.set3(120, g.b3(64).wrapping_sub(g.b0(g.b3(40) % 20)) as u8);
    let g = g.set1(95, g.b4(g.b3(20) % 21) as u8);
    g
}

fn late_scratch_bytes(g: &mut Garble)
    ensures
        final(g)@ == spec_late_scratch_bytes(old(g)@),
{
    broadcast use {crate::bits::lemma_and_le_u32, crate::bits::lemma_or_low_bits};

    let byte: u8 = ((((g.b3(40) & !g.b2(8)) | (g.b1(35) & g.b2(8))) & g.b3(64)) ^ 119) as u8;
    g.set3(104, byte);
    let byte: u8 =
        (238u32 & ((((g.b3(40) & !g.b2(8)) | (g.b1(35) & g.b2(8))) & g.b3(64)) << 1)) as u8;
    g.set3(108, byte);
    let byte: u8 = ((!g.b3(64) & (g.b3(84) / 3)) ^ 49) as u8;
    g.set3(112, byte);
    let byte: u8 = (98u32 & ((!g.b3(64) & (g.b3(84) / 3)) << 1)) as u8;
    g.set3(116, byte);
    let a: u32 = (g.b1(35) & g.b2(8)) | (g.b3(40) & !g.b2(8));
    let b: u32 = (a & g.b3(64)) | ((g.b3(84) / 3) & !g.b3(64));
    let byte: u8 =
        g.b3(96).wrapping_sub((b & 86u32.wrapping_add((g.b1(172) & 64) >> 1)) | (((((g.b1(172) & 65)
            >> 1) ^ 86) | ((!g.b3(64) & (g.b3(84) / 3)) | (((g.b3(40) & !g.b2(8)) | (g.b1(35) &
            g.b2(8))) & g.b3(64)))) & g.b3(100))) as u8;
    g.set1(143, byte);
    g.set2(29, 162);
    let a: u32 = ((g.b4(g.b3(88) % 21) & 160) | (g.b0(g.b1(125) % 20) & 95)) >> 1;
    let b: u32 = g.b2(g.b1(149) % 35) ^ g.b1(43).wrapping_mul(g.b1(43));
    let byte: u8 = g.v0(15).wrapping_add(((b & a) | ((a | b) & 115)) as u8);
    g.set0(15, byte);
    let byte: u8 = g.b3(64).wrapping_sub(g.b0(g.b3(40) % 20)) as u8;
    g.set3(120, byte);
    let byte: u8 = g.b4(g.b3(20) % 21) as u8;
    g.set1(95, byte);
}

/// Writes the last bytes of every buffer.
pub open spec fn spec_final_bytes(g: GarbleView) -> GarbleView {
    let a: u32 =
        weird_ror8(g.v2(g.b3(80) % 35), g.b2(g.b1(17) % 35).wrapping_mul(g.b2(g.b1(17) % 35))
            .wrapping_mul(g.b2(g.b1(17) % 35)) & 7);
    let g = g.set0(7, g.v0(7).wrapping_sub(a.wrapping_mul(a) as u8));
    let g = g.set2(8,
        g.b2(8).wrapping_sub(g.b1(184)).wrapping_add(g.b4(g.b1(202) % 21)
            .wrapping_mul(g.b4(g.b1(202) % 21)).wrapping_mul(g.b4(g.b1(202) % 21))) as u8);
    let g = g.set0(16, ((g.b2(g.b1(102) % 35) << 1) & 132) as u8);
    let g = g.set3(124, ((g.b4(g.b3(40) % 21) >> 1) ^ g.b3(68)) as u8);
    let g = g.set0(7,
        g.v0(7).wrapping_sub(g.b0(g.b1(191) % 20).wrapping_sub(((g.b4(g.b1(80) % 21) << 1) &
            !177u32) | (g.b4(g.b4(g.b3(88) % 21) % 21) & 177)) as u8));
    let g = g.set0(6, g.b0(g.b1(119) % 20) as u8);
    let a: u32 = (g.b4(g.b1(190) % 21) & !209u32) | (g.b1(118) & 209);
    let b: u32 = g.b0(g.b3(120) % 20).wrapping_mul(g.b0(g.b3(120) % 20));
    let g = g.set0(12,
        ((g.b0(g.b3(84) % 20) ^ g.b2(g.b1(71) % 35).wrapping_add(g.b2(g.b1(15) % 35))) & ((a & b) |
            ((a | b) & 27))) as u8);
    let b: u32 = (g.b1(32) & g.b2(g.b3(88) % 35)) | ((g.b1(32) | g.b2(g.b3(88) % 35)) & 23);
    let d: u32 = (g.b4(g.b1(57) % 21).wrapping_mul(231) & 169) | (b & 86);
    let f: u32 =
        (((g.b0(g.b1(82) % 20) & !29u32) | (g.b4(g.b3(124) % 21) & 29)) & 190) | (g.b4((d / 5) % 21)
            & !190u32);
    let h: u32 =
        g.b0(g.b3(40) % 20).wrapping_mul(g.b0(g.b3(40) % 20)).wrapping_mul(g.b0(g.b3(40) % 20));
    let k: u32 = (h & g.b1(82)) | (h & 92) | (g.b1(82) & 92);
    let g = g.set3(128, (((f & k) | ((f | k) & 192)) ^ (d / 5)) as u8);
    let g = g.set2(25,
        g.v2(25) ^ ((g.b0(g.b3(120) % 20) << 1).wrapping_mul(g.b1(5))
            .wrapping_sub(weird_rol8(g.b3(76) as u8, g.b4(g.b3(124) % 21) & 7) & g.b3(20)
            .wrapping_add(110)) as u8));
    g
}

fn final_bytes(g: &mut Garble)
    ensures
        final(g)@ == spec_final_bytes(old(g)@),
{
    broadcast use {crate::bits::lemma_and_le_u32, crate::bits::lemma_or_low_bits};

    let a: u32 =
        weird_ror8(g.v2(g.b3(80) % 35), g.b2(g.b1(17) % 35).wrapping_mul(g.b2(g.b1(17) % 35))
            .wrapping_mul(g.b2(g.b1(17) % 35)) & 7);
    let byte: u8 = g.v0(7).wrapping_sub(a.wrapping_mul(a) as u8);
    g.set0(7, byte);
    let byte: u8 =
        g.b2(8).wrapping_sub(g.b1(184)).wrapping_add(g.b4(g.b1(202) % 21)
            .wrapping_mul(g.b4(g.b1(202) % 21)).wrapping_mul(g.b4(g.b1(202) % 21))) as u8;
    g.set2(8, byte);
    let byte: u8 = ((g.b2(g.b1(102) % 35) << 1) & 132) as u8;
    g.set0(16, byte);
    let byte: u8 = ((g.b4(g.b3(40) % 21) >> 1) ^ g.b3(68)) as u8;
    g.set3(124, byte);
    let byte: u8 =
        g.v0(7).wrapping_sub(g.b0(g.b1(191) % 20).wrapping_sub(((g.b4(g.b1(80) % 21) << 1) &
            !177u32) | (g.b4(g.b4(g.b3(88) % 21) % 21) & 177)) as u8);
    g.set0(7, byte);
    let byte: u8 = g.b0(g.b1(119) % 20) as u8;
    g.set0(6, byte);
    let a: u32 = (g.b4(g.b1(190) % 21) & !209u32) | (g.b1(118) & 209);
    let b: u32 = g.b0(g.b3(120) % 20).wrapping_mul(g.b0(g.b3(120) % 20));
    let byte: u8 =
        ((g.b0(g.b3(84) % 20) ^ g.b2(g.b1(71) % 35).wrapping_add(g.b2(g.b1(15) % 35))) & ((a & b) |
            ((a | b) & 27))) as u8;
    g.set0(12, byte);
    let b: u32 = (g.b1(32) & g.b2(g.b3(88) % 35)) | ((g.b1(32) | g.b2(g.b3(88) % 35)) & 23);
    let d: u32 = (g.b4(g.b1(57) % 21).wrapping_mul(231) & 169) | (b & 86);
    let f: u32 =
        (((g.b0(g.b1(82) % 20) & !29u32) | (g.b4(g.b3(124) % 21) & 29)) & 190) | (g.b4((d / 5) % 21)
            & !190u32);
    let h: u32 =
        g.b0(g.b3(40) % 20).wrapping_mul(g.b0(g.b3(40) % 20)).wrapping_mul(g.b0(g.b3(40) % 20));
    let k: u32 = (h & g.b1(82)) | (h & 92) | (g.b1(82) & 92);
    let byte: u8 = (((f & k) | ((f | k) & 192)) ^ (d / 5)) as u8;
    g.set3(128, byte);
    let byte: u8 =
        g.v2(25) ^ ((g.b0(g.b3(120) % 20) << 1).wrapping_mul(g.b1(5))
            .wrapping_sub(weird_rol8(g.b3(76) as u8, g.b4(g.b3(124) % 21) & 7) & g.b3(20)
            .wrapping_add(110)) as u8);
    g.set2(25, byte);
}
/// The buffers after the whole program has run on `g`.
#[verifier::opaque]
pub open spec fn spec_garble(g: GarbleView) -> GarbleView {
    let (g, tmp, tmp2) = spec_early_buffers(g);
    let g = spec_first_scratch_bytes(g);
    let g = spec_mix_table_bytes(g);
    let g = spec_mix_rotations(g);
    let (g, tmp3) = spec_middle_scratch_bytes(g, tmp, tmp2);
    let g = spec_caffeine(g, tmp3);
    let g = spec_mix_products(g);
    let (g, t, u, w, x, y, z, v, s, r) = spec_save_values(g);
    let g = spec_mix_selections(g);
    let g = spec_mix_saved_values(g, t, u, w, x, y, z, v);
    let g = spec_mix_squares(g, r, s);
    let g = spec_late_scratch_bytes(g);
    spec_final_bytes(g)
}

/// Scrambles the five buffers in place.
pub fn garble(g: &mut Garble)
    ensures
        final(g)@ == spec_garble(old(g)@),
{
    reveal(spec_garble);
    let (tmp, tmp2) = early_buffers(g);
    first_scratch_bytes(g);
    mix_table_bytes(g);
    mix_rotations(g);
    let tmp3: u32 = middle_scratch_bytes(g, tmp, tmp2);
    caffeine(g, tmp3);
    mix_products(g);
    let (t, u, w, x, y, z, v, s, r) = save_values(g);
    mix_selections(g);
    mix_saved_values(g, t, u, w, x, y, z, v);
    mix_squares(g, r, s);
    late_scratch_bytes(g);
    final_bytes(g);
}

} // verus!
