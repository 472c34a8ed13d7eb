//! The SAP hash: 64 bytes to 16.
use crate::playfair::buffers::{Garble, GarbleView};
use crate::playfair::garble::{garble, rol8, spec_garble};
use vstd::prelude::*;

verus! {

pub const SAP_BUFFER0: [u8; 20] = [
    0x96, 0x5F, 0xC6, 0x53, 0xF8, 0x46, 0xCC, 0x18, 0xDF, 0xBE, 0xB2, 0xF8, 0x38, 0xD7, 0xEC, 0x22,
    0x03, 0xD1, 0x20, 0x8F,
];

pub const SAP_BUFFER2: [u8; 35] = [
    0x43, 0x54, 0x62, 0x7A, 0x18, 0xC3, 0xD6, 0xB3, 0x9A, 0x56, 0xF6, 0x1C, 0x14, 0x3F, 0x0C, 0x1D,
    0x3B, 0x36, 0x83, 0xB1, 0x39, 0x51, 0x4A, 0xAA, 0x09, 0x3E, 0xFE, 0x44, 0xAF, 0xDE, 0xC3, 0x20,
    0x9D, 0x42, 0x3A,
];

pub const SAP_BUFFER4: [u8; 21] = [
    0xED, 0x25, 0xD1, 0xBB, 0xBC, 0x27, 0x9F, 0x02, 0xA2, 0xA9, 0x11, 0x00, 0x0C, 0xB3, 0x52, 0xC0,
    0xBD, 0xE3, 0x1B, 0x49, 0xC7,
];

/// Which scratch words seed the first eleven output bytes.
pub const SAP_SEED_WORDS: [usize; 11] = [18, 22, 23, 0, 5, 19, 32, 31, 10, 21, 30];

/// The block stretched to 210 bytes, each of its words reversed.
pub open spec fn stretched(block: Seq<u8>) -> Seq<u8> {
    Seq::new(210, |i: int| block[4 * ((i % 64) / 4) + 3 - i % 4])
}

/// One scrambling step at position `i`.
pub open spec fn scramble_step(b: Seq<u8>, i: u32) -> Seq<u8> {
    let x = b[(i.wrapping_sub(155) % 210) as int];
    let y = b[(i.wrapping_sub(57) % 210) as int];
    let z = b[(i.wrapping_sub(13) % 210) as int];
    let w = b[(i % 210) as int];
    let val = (rol8(y, 5) as u32).wrapping_add((rol8(z, 3) as u32) ^ (w as u32)).wrapping_sub(
        rol8(x, 7) as u32,
    ) & 0xff;
    b.update((i % 210) as int, val as u8)
}

/// The stretched block after `n` scrambling steps.
pub open spec fn scrambled(b: Seq<u8>, n: nat) -> Seq<u8>
    decreases n,
{
    if n == 0 {
        b
    } else {
        scramble_step(scrambled(b, (n - 1) as nat), (n - 1) as u32)
    }
}

/// The buffers that `garble` starts from.
pub open spec fn sap_buffers(block: Seq<u8>) -> GarbleView {
    GarbleView {
        buffer0: SAP_BUFFER0@,
        buffer1: scrambled(stretched(block), 840),
        buffer2: SAP_BUFFER2@,
        buffer3: Seq::new(132, |i: int| 0u8),
        buffer4: SAP_BUFFER4@,
    }
}

/// The output bytes before the buffers are folded in.
pub open spec fn sap_seed(buffer3: Seq<u8>) -> Seq<u8> {
    Seq::new(
        16,
        |i: int|
            if i == 3 {
                0x3du8
            } else if i < 11 {
                0xE1u8.wrapping_add(buffer3[4 * SAP_SEED_WORDS@[i]])
            } else {
                0xE1u8
            },
    )
}

/// `key` with the first `n` bytes of `b` folded in, 16 at a time.
pub open spec fn folded(key: Seq<u8>, b: Seq<u8>, n: nat) -> Seq<u8>
    decreases n,
{
    if n == 0 {
        key
    } else {
        let before = folded(key, b, (n - 1) as nat);
        let i = (n - 1) % 16;
        before.update(i, before[i] ^ b[n - 1])
    }
}

/// One step of the closing mix, at position `i`.
pub open spec fn closing_step(key: Seq<u8>, i: int) -> Seq<u8> {
    let x = key[(i - 7) % 16];
    let y = key[i];
    let z = key[(i - 37) % 16];
    let w = key[(i - 177) % 16];
    key.update(i, rol8(x, 1) ^ y ^ rol8(z, 6) ^ rol8(w, 5))
}

/// `key` after `n` steps of the closing mix, which goes round the 16 bytes.
pub open spec fn closing_mix(key: Seq<u8>, n: nat) -> Seq<u8>
    decreases n,
{
    if n == 0 {
        key
    } else {
        closing_step(closing_mix(key, (n - 1) as nat), (n - 1) % 16)
    }
}

/// The 16 bytes that the first 64 bytes of `block` hash to.
pub open spec fn sap_result(block: Seq<u8>) -> Seq<u8> {
    let g = spec_garble(sap_buffers(block));
    let key = folded(sap_seed(g.buffer3), g.buffer0, 20);
    let key = folded(key, g.buffer2, 35);
    let key = folded(key, g.buffer1, 210);
    closing_mix(key, 256)
}

fn stretch(block: &[u8]) -> (r: [u8; 210])
    requires
        block.len() >= 64,
    ensures
        r@ == stretched(block@),
{
    let mut out: [u8; 210] = [0u8; 210];
    let mut i: usize = 0;
    while i < 210
        invariant
            i <= 210,
            block.len() >= 64,
            forall|k: int| 0 <= k < i ==> out@[k] == stretched(block@)[k],
        decreases 210 - i,
    {
        out[i] = block[4 * ((i % 64) / 4) + 3 - i % 4];
        i += 1;
    }
    assert(out@ =~= stretched(block@));
    out
}

fn scramble(b: &mut [u8; 210])
    ensures
        final(b)@ == scrambled(old(b)@, 840),
{
    let ghost start = b@;
    let mut i: u32 = 0;
    while i < 840
        invariant
            i <= 840,
            b@ == scrambled(start, i as nat),
        decreases 840 - i,
    {
        let x: u8 = b[(i.wrapping_sub(155) % 210) as usize];
        let y: u8 = b[(i.wrapping_sub(57) % 210) as usize];
        let z: u8 = b[(i.wrapping_sub(13) % 210) as usize];
        let w: u8 = b[(i % 210) as usize];
        let val: u32 = (rol8(y, 5) as u32).wrapping_add(
            (rol8(z, 3) as u32) ^ (w as u32),
        ).wrapping_sub(rol8(x, 7) as u32) & 0xff;
        b[(i % 210) as usize] = val as u8;
        i += 1;
    }
}

fn fold(key: &mut [u8; 16], b: &[u8])
    ensures
        final(key)@ == folded(old(key)@, b@, b@.len()),
{
    let ghost start = key@;
    let mut i: usize = 0;
    while i < b.len()
        invariant
            i <= b.len(),
            key@ == folded(start, b@, i as nat),
        decreases b.len() - i,
    {
        key[i % 16] = key[i % 16] ^ b[i];
        i += 1;
    }
}

/// The scratch word that seeds output byte `i`, as a position in the scratch buffer.
fn seed_position(i: usize) -> (r: usize)
    requires
        i < 11,
    ensures
        r == 4 * SAP_SEED_WORDS@[i as int],
        r < 132,
{
    assert(SAP_SEED_WORDS[0] == 18 && SAP_SEED_WORDS[1] == 22 && SAP_SEED_WORDS[2] == 23
        && SAP_SEED_WORDS[3] == 0 && SAP_SEED_WORDS[4] == 5 && SAP_SEED_WORDS[5] == 19
        && SAP_SEED_WORDS[6] == 32 && SAP_SEED_WORDS[7] == 31 && SAP_SEED_WORDS[8] == 10
        && SAP_SEED_WORDS[9] == 21 && SAP_SEED_WORDS[10] == 30);
    4 * SAP_SEED_WORDS[i]
}

fn seed(buffer3: &[u8; 132]) -> (r: [u8; 16])
    ensures
        r@ == sap_seed(buffer3@),
{
    let mut key: [u8; 16] = [0xE1u8; 16];
    let mut i: usize = 0;
    while i < 11
        invariant
            i <= 11,
            forall|k: int| 0 <= k < i ==> key@[k] == sap_seed(buffer3@)[k],
            forall|k: int| i <= k < 16 ==> key@[k] == 0xE1,
        decreases 11 - i,
    {
        if i == 3 {
            key[i] = 0x3d;
        } else {
            let p: usize = seed_position(i);
            key[i] = 0xE1u8.wrapping_add(buffer3[p]);
        }
        i += 1;
    }
    assert(key@ =~= sap_seed(buffer3@));
    key
}

fn close_step(key: &mut [u8; 16], i: usize)
    requires
        i < 16,
    ensures
        final(key)@ == closing_step(old(key)@, i as int),
{
    let x: u8 = key[(i + 9) % 16];
    let y: u8 = key[i];
    let z: u8 = key[(i + 11) % 16];
    let w: u8 = key[(i + 15) % 16];
    assert((i - 7) % 16 == (i + 9) % 16);
    assert((i - 37) % 16 == (i + 11) % 16);
    assert((i - 177) % 16 == (i + 15) % 16);
    key[i] = rol8(x, 1) ^ y ^ rol8(z, 6) ^ rol8(w, 5);
}

fn close(key: &mut [u8; 16])
    ensures
        final(key)@ == closing_mix(old(key)@, 256),
{
    let ghost start = key@;
    let mut n: usize = 0;
    while n < 256
        invariant
            n <= 256,
            key@ == closing_mix(start, n as nat),
        decreases 256 - n,
    {
        close_step(key, n % 16);
        n += 1;
    }
}

/// Hashes the first 64 bytes of `block`.
pub fn sap_hash(block: &[u8]) -> (r: [u8; 16])
    requires
        block.len() >= 64,
    ensures
        r@ == sap_result(block@),
{
    let mut buffer1 = stretch(block);
    scramble(&mut buffer1);
    let mut g = Garble {
        buffer0: SAP_BUFFER0,
        buffer1,
        buffer2: SAP_BUFFER2,
        buffer3: [0u8; 132],
        buffer4: SAP_BUFFER4,
    };
    assert(g@.buffer3 =~= sap_buffers(block@).buffer3);
    garble(&mut g);

    let mut key = seed(&g.buffer3);
    fold(&mut key, &g.buffer0);
    fold(&mut key, &g.buffer2);
    fold(&mut key, &g.buffer1);
    close(&mut key);
    key
}

} // verus!
