//! The block cipher that unwraps the stream key.
use crate::bytes::{byte32, byte_of};
use crate::playfair::tables::{
    block_of, block_words, shift_source, shift_source_of, words_block, words_of, xor_seq,
    PlayfairTables,
};
use vstd::prelude::*;

verus! {

/// The word that the key schedule adds to the first word of `k` in round `round`.
pub open spec fn schedule_word(t: &PlayfairTables, k: Seq<u32>, round: int) -> Seq<u8> {
    seq![
        t.s1@[256 * ((31 * (4 * round)) % 40) + byte32(k[3], 1)] ^ t.index_mangle@[round],
        t.s1@[256 * ((31 * (4 * round + 1)) % 40) + byte32(k[3], 2)],
        t.s1@[256 * ((31 * (4 * round + 2)) % 40) + byte32(k[3], 3)],
        t.s1@[256 * ((31 * (4 * round + 3)) % 40) + byte32(k[3], 0)],
    ]
}

/// The round key that follows `k`, the key of round `round`.
pub open spec fn next_round_key(t: &PlayfairTables, k: Seq<u32>, round: int) -> Seq<u32> {
    let extra = schedule_word(t, k, round);
    let first = Seq::new(4, |i: int| byte32(k[0], i) ^ extra[i]);
    let w0 = crate::bytes::le32_at(first, 0);
    let w1 = k[1] ^ w0;
    let w2 = k[2] ^ w1;
    seq![w0, w1, w2, k[3] ^ w2]
}

/// The key of round `round`: the words of the masked key material, stepped `round` times.
pub open spec fn round_key(t: &PlayfairTables, material: Seq<u8>, round: nat) -> Seq<u32>
    decreases round,
{
    if round == 0 {
        block_words(xor_seq(material, t.t_key@))
    } else {
        next_round_key(t, round_key(t, material, (round - 1) as nat), round - 1)
    }
}

/// The eleven round keys.
pub open spec fn key_schedule(t: &PlayfairTables, material: Seq<u8>) -> Seq<Seq<u32>> {
    Seq::new(11, |r: int| round_key(t, material, r as nat))
}

/// A block with the words of a round key added.
pub open spec fn add_round_key(b: Seq<u8>, k: Seq<u32>) -> Seq<u8> {
    words_block(Seq::new(4, |w: int| block_words(b)[w] ^ k[w]))
}

/// The opening substitution of a cycle, with its row shift.
pub open spec fn permuted1(t: &PlayfairTables, b: Seq<u8>) -> Seq<u8> {
    Seq::new(16, |i: int| t.s3@[256 * ((i + 4 * (i % 4)) % 16) + b[shift_source(i)]])
}

/// The substitution that closes round `round` of a cycle, with its row shift.
pub open spec fn permuted2(t: &PlayfairTables, b: Seq<u8>, round: int) -> Seq<u8> {
    Seq::new(16, |i: int| t.s4@[256 * ((71 * (16 * round + i)) % 144) + b[shift_source(i)]])
}

/// The column mix of a cycle round: each word is the sum of four table words, looked up under the
/// bytes of the round key.
pub open spec fn mixed_word(t: &PlayfairTables, b: Seq<u8>, k: Seq<u32>, w: int) -> u32 {
    t.s5@[(b[4 * w + 3] ^ byte32(k[w], 3)) as int] ^ t.s6@[(b[4 * w + 2] ^ byte32(k[w], 2)) as int]
        ^ t.s7@[(b[4 * w + 1] ^ byte32(k[w], 1)) as int] ^ t.s8@[(b[4 * w] ^ byte32(
        k[w],
        0,
    )) as int]
}

/// One round of a cycle under the round key `k`.
pub open spec fn cycle_round(t: &PlayfairTables, b: Seq<u8>, k: Seq<u32>, round: int) -> Seq<u8> {
    permuted2(t, words_block(Seq::new(4, |w: int| mixed_word(t, b, k, w))), round)
}

/// A block after the first `n` of the nine rounds, which take the round keys from the last but
/// one to the second.
pub open spec fn cycle_rounds(t: &PlayfairTables, b: Seq<u8>, ks: Seq<Seq<u32>>, n: nat) -> Seq<u8>
    decreases n,
{
    if n == 0 {
        b
    } else {
        cycle_round(t, cycle_rounds(t, b, ks, (n - 1) as nat), ks[10 - n], 9 - n)
    }
}

/// The block that `b` decrypts to under the round keys `ks`.
pub open spec fn cycled(t: &PlayfairTables, b: Seq<u8>, ks: Seq<Seq<u32>>) -> Seq<u8> {
    let opened = permuted1(t, add_round_key(b, ks[10]));
    add_round_key(cycle_rounds(t, opened, ks, 9), ks[0])
}

/// The eleven round keys as sequences.
pub open spec fn schedule_view(ks: Seq<[u32; 4]>) -> Seq<Seq<u32>> {
    Seq::new(ks.len(), |r: int| ks[r]@)
}

fn step_round_key(t: &PlayfairTables, k: &[u32; 4], round: usize) -> (r: [u32; 4])
    requires
        t.wf(),
        round < 11,
    ensures
        r@ == next_round_key(t, k@, round as int),
{
    let row0: usize = (31 * (4 * round)) % 40;
    let row1: usize = (31 * (4 * round + 1)) % 40;
    let row2: usize = (31 * (4 * round + 2)) % 40;
    let row3: usize = (31 * (4 * round + 3)) % 40;
    let first: [u8; 4] = [
        byte_of(k[0], 0) ^ (t.s1[256 * row0 + byte_of(k[3], 1) as usize] ^ t.index_mangle[round]),
        byte_of(k[0], 1) ^ t.s1[256 * row1 + byte_of(k[3], 2) as usize],
        byte_of(k[0], 2) ^ t.s1[256 * row2 + byte_of(k[3], 3) as usize],
        byte_of(k[0], 3) ^ t.s1[256 * row3 + byte_of(k[3], 0) as usize],
    ];
    proof {
        let extra = schedule_word(t, k@, round as int);
        assert(first@ =~= Seq::new(4, |i: int| byte32(k@[0], i) ^ extra[i]));
    }
    let w0: u32 = crate::bytes::le_u32(&first, 0);
    let w1: u32 = k[1] ^ w0;
    let w2: u32 = k[2] ^ w1;
    let r = [w0, w1, w2, k[3] ^ w2];
    assert(r@ =~= next_round_key(t, k@, round as int));
    r
}

/// Expands 16 bytes of key material into the eleven round keys.
pub fn generate_key_schedule(t: &PlayfairTables, material: &[u8; 16]) -> (r: Vec<[u32; 4]>)
    requires
        t.wf(),
    ensures
        schedule_view(r@) == key_schedule(t, material@),
{
    let mut masked: [u8; 16] = [0u8; 16];
    let mut i: usize = 0;
    while i < 16
        invariant
            i <= 16,
            t.wf(),
            forall|k: int| 0 <= k < i ==> masked@[k] == material@[k] ^ t.t_key@[k],
        decreases 16 - i,
    {
        masked[i] = material[i] ^ t.t_key[i];
        i += 1;
    }
    assert(masked@ =~= xor_seq(material@, t.t_key@));
    let mut key = words_of(&masked);
    let mut out: Vec<[u32; 4]> = Vec::new();
    let mut round: usize = 0;
    while round < 11
        invariant
            round <= 11,
            t.wf(),
            key@ == round_key(t, material@, round as nat),
            out@.len() == round,
            forall|k: int| 0 <= k < round ==> (#[trigger] out@[k])@ == round_key(t, material@, k as nat),
        decreases 11 - round,
    {
        out.push(key);
        key = step_round_key(t, &key, round);
        round += 1;
    }
    assert(schedule_view(out@) =~= key_schedule(t, material@));
    out
}

fn add_key(b: &[u8; 16], k: &[u32; 4]) -> (r: [u8; 16])
    ensures
        r@ == add_round_key(b@, k@),
{
    let words = words_of(b);
    let sum = [words[0] ^ k[0], words[1] ^ k[1], words[2] ^ k[2], words[3] ^ k[3]];
    assert(sum@ =~= Seq::new(4, |w: int| block_words(b@)[w] ^ k@[w]));
    block_of(&sum)
}

fn permute_block1(t: &PlayfairTables, b: &[u8; 16]) -> (r: [u8; 16])
    requires
        t.wf(),
    ensures
        r@ == permuted1(t, b@),
{
    let mut out: [u8; 16] = [0u8; 16];
    let mut i: usize = 0;
    while i < 16
        invariant
            i <= 16,
            t.wf(),
            forall|k: int| 0 <= k < i ==> out@[k] == permuted1(t, b@)[k],
        decreases 16 - i,
    {
        let s: usize = shift_source_of(i);
        let row: usize = (i + 4 * (i % 4)) % 16;
        out[i] = t.s3[256 * row + b[s] as usize];
        i += 1;
    }
    assert(out@ =~= permuted1(t, b@));
    out
}

fn permute_block2(t: &PlayfairTables, b: &[u8; 16], round: usize) -> (r: [u8; 16])
    requires
        t.wf(),
        round < 9,
    ensures
        r@ == permuted2(t, b@, round as int),
{
    let mut out: [u8; 16] = [0u8; 16];
    let mut i: usize = 0;
    while i < 16
        invariant
            i <= 16,
            t.wf(),
            round < 9,
            forall|k: int| 0 <= k < i ==> out@[k] == permuted2(t, b@, round as int)[k],
        decreases 16 - i,
    {
        let s: usize = shift_source_of(i);
        let row: usize = (71 * (16 * round + i)) % 144;
        out[i] = t.s4[256 * row + b[s] as usize];
        i += 1;
    }
    assert(out@ =~= permuted2(t, b@, round as int));
    out
}

fn mix_word(t: &PlayfairTables, b: &[u8; 16], k: &[u32; 4], w: usize) -> (r: u32)
    requires
        t.wf(),
        w < 4,
    ensures
        r == mixed_word(t, b@, k@, w as int),
{
    t.s5[(b[4 * w + 3] ^ byte_of(k[w], 3)) as usize] ^ t.s6[(b[4 * w + 2] ^ byte_of(
        k[w],
        2,
    )) as usize] ^ t.s7[(b[4 * w + 1] ^ byte_of(k[w], 1)) as usize] ^ t.s8[(b[4 * w] ^ byte_of(
        k[w],
        0,
    )) as usize]
}

fn run_round(t: &PlayfairTables, b: &[u8; 16], k: &[u32; 4], round: usize) -> (r: [u8; 16])
    requires
        t.wf(),
        round < 9,
    ensures
        r@ == cycle_round(t, b@, k@, round as int),
{
    let words = [mix_word(t, b, k, 0), mix_word(t, b, k, 1), mix_word(t, b, k, 2), mix_word(t, b, k, 3)];
    assert(words@ =~= Seq::new(4, |w: int| mixed_word(t, b@, k@, w)));
    let mixed = block_of(&words);
    permute_block2(t, &mixed, round)
}

/// Decrypts one block under the round keys.
pub fn cycle(t: &PlayfairTables, b: &[u8; 16], ks: &Vec<[u32; 4]>) -> (r: [u8; 16])
    requires
        t.wf(),
        ks@.len() == 11,
    ensures
        r@ == cycled(t, b@, schedule_view(ks@)),
{
    let added = add_key(b, &ks[10]);
    let mut state = permute_block1(t, &added);
    let ghost opened = state@;
    let mut n: usize = 0;
    while n < 9
        invariant
            n <= 9,
            t.wf(),
            ks@.len() == 11,
            state@ == cycle_rounds(t, opened, schedule_view(ks@), n as nat),
        decreases 9 - n,
    {
        state = run_round(t, &state, &ks[9 - n], 8 - n);
        n += 1;
        assert(schedule_view(ks@)[10 - n] == ks@[10 - n]@);
    }
    add_key(&state, &ks[0])
}

} // verus!
