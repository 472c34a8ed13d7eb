//! Decryption of the 128 payload bytes of a FairPlay message.
use crate::playfair::tables::{
    block_at, block_of, shift_source, shift_source_of, words_block, xor_blocks, xor_seq,
    PlayfairTables,
};
use vstd::prelude::*;

verus! {

/// A block after the keyed substitution of the round whose key bytes start at `base`.
pub open spec fn message_substitute(t: &PlayfairTables, mode: int, base: int, b: Seq<u8>) -> Seq<
    u8,
> {
    Seq::new(
        16,
        |i: int|
            t.s2@[256 * ((97 * (base + i)) % 144) + b[shift_source(i)]] ^ t.message_key@[144 * mode
                + base + i],
    )
}

/// The column mix of a message round: each word is the sum of four table words.
pub open spec fn message_mix(t: &PlayfairTables, b: Seq<u8>) -> Seq<u8> {
    words_block(
        Seq::new(
            4,
            |w: int|
                t.s9@[b[4 * w] as int] ^ t.s9@[0x100 + b[4 * w + 1]] ^ t.s9@[0x200 + b[4 * w + 2]]
                    ^ t.s9@[0x300 + b[4 * w + 3]],
        ),
    )
}

/// A block after the first `n` of its nine rounds.
pub open spec fn message_rounds(t: &PlayfairTables, mode: int, b: Seq<u8>, n: nat) -> Seq<u8>
    decreases n,
{
    if n == 0 {
        b
    } else {
        let before = message_rounds(t, mode, b, (n - 1) as nat);
        message_mix(t, message_substitute(t, mode, 0x80 - 0x10 * (n - 1), before))
    }
}

/// A block after the closing substitution.
pub open spec fn message_finish(t: &PlayfairTables, b: Seq<u8>) -> Seq<u8> {
    Seq::new(16, |i: int| t.s10@[256 * i + b[shift_source(i)]])
}

/// The block cipher that message payloads are decrypted with.
pub open spec fn message_block(t: &PlayfairTables, mode: int, b: Seq<u8>) -> Seq<u8> {
    message_finish(t, message_rounds(t, mode, b, 9))
}

/// The payload of a message: its bytes 16 to 143, decrypted in cipher block chaining mode with
/// the key and the initialisation vector of the message's mode (byte 12).
pub open spec fn decrypted_message(t: &PlayfairTables, message: Seq<u8>) -> Seq<u8> {
    let mode = message[12] as int;
    Seq::new(
        128,
        |p: int|
            {
                let k = p / 16;
                let previous = if k == 0 {
                    t.message_iv@.subrange(16 * mode, 16 * mode + 16)
                } else {
                    message.subrange(16 * k, 16 * k + 16)
                };
                message_block(t, mode, message.subrange(16 * k + 16, 16 * k + 32))[p % 16]
                    ^ previous[p % 16]
            },
    )
}

fn substitute(t: &PlayfairTables, mode: usize, base: usize, b: &[u8; 16]) -> (r: [u8; 16])
    requires
        t.wf(),
        mode < 4,
        base <= 0x80,
    ensures
        r@ == message_substitute(t, mode as int, base as int, b@),
{
    let mut out: [u8; 16] = [0u8; 16];
    let mut i: usize = 0;
    while i < 16
        invariant
            i <= 16,
            t.wf(),
            mode < 4,
            base <= 0x80,
            forall|k: int|
                0 <= k < i ==> out@[k] == message_substitute(t, mode as int, base as int, b@)[k],
        decreases 16 - i,
    {
        let s: usize = shift_source_of(i);
        let row: usize = (97 * (base + i)) % 144;
        out[i] = t.s2[256 * row + b[s] as usize] ^ t.message_key[144 * mode + base + i];
        i += 1;
    }
    assert(out@ =~= message_substitute(t, mode as int, base as int, b@));
    out
}

fn mix(t: &PlayfairTables, b: &[u8; 16]) -> (r: [u8; 16])
    requires
        t.wf(),
    ensures
        r@ == message_mix(t, b@),
{
    let mut words: [u32; 4] = [0u32; 4];
    let ghost target = Seq::new(
        4,
        |w: int|
            t.s9@[b@[4 * w] as int] ^ t.s9@[0x100 + b@[4 * w + 1]] ^ t.s9@[0x200 + b@[4 * w + 2]]
                ^ t.s9@[0x300 + b@[4 * w + 3]],
    );
    let mut w: usize = 0;
    while w < 4
        invariant
            w <= 4,
            t.wf(),
            target == Seq::new(
                4,
                |w: int|
                    t.s9@[b@[4 * w] as int] ^ t.s9@[0x100 + b@[4 * w + 1]] ^ t.s9@[0x200 + b@[4 * w
                        + 2]] ^ t.s9@[0x300 + b@[4 * w + 3]],
            ),
            forall|k: int| 0 <= k < w ==> words@[k] == target[k],
        decreases 4 - w,
    {
        words[w] = t.s9[b[4 * w] as usize] ^ t.s9[0x100 + b[4 * w + 1] as usize] ^ t.s9[0x200
            + b[4 * w + 2] as usize] ^ t.s9[0x300 + b[4 * w + 3] as usize];
        w += 1;
    }
    assert(words@ =~= target);
    block_of(&words)
}

fn decrypt_block(t: &PlayfairTables, mode: usize, b: &[u8; 16]) -> (r: [u8; 16])
    requires
        t.wf(),
        mode < 4,
    ensures
        r@ == message_block(t, mode as int, b@),
{
    let mut state: [u8; 16] = *b;
    let mut n: usize = 0;
    while n < 9
        invariant
            n <= 9,
            t.wf(),
            mode < 4,
            state@ == message_rounds(t, mode as int, b@, n as nat),
        decreases 9 - n,
    {
        let substituted = substitute(t, mode, 0x80 - 0x10 * n, &state);
        state = mix(t, &substituted);
        n += 1;
    }
    let mut out: [u8; 16] = [0u8; 16];
    let mut i: usize = 0;
    while i < 16
        invariant
            i <= 16,
            t.wf(),
            forall|k: int| 0 <= k < i ==> out@[k] == message_finish(t, state@)[k],
        decreases 16 - i,
    {
        let s: usize = shift_source_of(i);
        out[i] = t.s10[256 * i + state[s] as usize];
        i += 1;
    }
    assert(out@ =~= message_finish(t, state@));
    out
}

/// Decrypts the 128 payload bytes of a message.
pub fn decrypt_message(t: &PlayfairTables, message: &[u8]) -> (r: Vec<u8>)
    requires
        t.wf(),
        message.len() >= 144,
        message@[12] < 4,
    ensures
        r@ == decrypted_message(t, message@),
{
    let mode: usize = message[12] as usize;
    let mut out: Vec<u8> = Vec::new();
    let mut k: usize = 0;
    while k < 8
        invariant
            k <= 8,
            t.wf(),
            message.len() >= 144,
            mode < 4,
            mode == message@[12],
            out@ =~= decrypted_message(t, message@).take(16 * k),
        decreases 8 - k,
    {
        let encrypted = block_at(message, 16 * k + 16);
        let plain = decrypt_block(t, mode, &encrypted);
        let previous = if k == 0 {
            block_at(t.message_iv.as_slice(), 16 * mode)
        } else {
            block_at(message, 16 * k)
        };
        let block = xor_blocks(&plain, &previous);
        let mut i: usize = 0;
        while i < 16
            invariant
                i <= 16,
                k < 8,
                mode == message@[12],
                previous@ == (if k == 0 {
                    t.message_iv@.subrange(16 * mode, 16 * mode + 16)
                } else {
                    message@.subrange(16 * k, 16 * k + 16)
                }),
                block@ == xor_seq(
                    message_block(t, mode as int, message@.subrange(16 * k + 16, 16 * k + 32)),
                    previous@,
                ),
                out@ =~= decrypted_message(t, message@).take(16 * k + i),
            decreases 16 - i,
        {
            proof {
                let p = 16 * k + i;
                assert(p / 16 == k as int && p % 16 == i as int);
                assert(decrypted_message(t, message@)[p] == block@[i as int]);
                assert(decrypted_message(t, message@).take(p + 1) =~= decrypted_message(
                    t,
                    message@,
                ).take(p).push(block@[i as int]));
            }
            out.push(block[i]);
            i += 1;
        }
        k += 1;
    }
    assert(decrypted_message(t, message@).take(128) =~= decrypted_message(t, message@));
    out
}

} // verus!
