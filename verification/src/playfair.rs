//! Derivation of the AES stream key from a FairPlay message and a wrapped key.
pub mod buffers;
pub mod cipher;
pub mod garble;
pub mod laws;
pub mod md5;
pub mod message;
pub mod sap;
pub mod tables;

use crate::bytes::extend;
use crate::playfair::cipher::{cycle, cycled, generate_key_schedule, key_schedule, schedule_view};
use crate::playfair::md5::{md5_result, modified_md5};
use crate::playfair::message::{decrypt_message, decrypted_message};
use crate::playfair::sap::{sap_hash, sap_result};
use crate::playfair::tables::{
    block_at, block_of, block_words, words_block, words_of, xor_blocks, xor_seq, PlayfairTables,
};
use vstd::prelude::*;

verus! {

/// The 320 bytes that the session key is hashed from: the message's payload and the second half
/// of the old SAP between two constants.
pub open spec fn session_source(t: &PlayfairTables, sap: Seq<u8>, message: Seq<u8>) -> Seq<u8> {
    t.static_source1@ + decrypted_message(t, message) + sap.subrange(0x80, 0x100)
        + t.static_source2@
}

/// The session key after hashing the first `n` of the source's five 64-byte pieces.
pub open spec fn session_rounds(t: &PlayfairTables, source: Seq<u8>, n: nat) -> Seq<u8>
    decreases n,
{
    if n == 0 {
        t.initial_session_key@
    } else {
        let key = session_rounds(t, source, (n - 1) as nat);
        piece_key(t, source.subrange(64 * (n - 1), source.len() as int), key)
    }
}

/// The session key that follows `key` when a piece of the source is hashed: the word by word sum
/// of its SAP hash and its keyed digest.
pub open spec fn piece_key(t: &PlayfairTables, piece: Seq<u8>, key: Seq<u8>) -> Seq<u8> {
    let hash = block_words(sap_result(piece));
    let digest = block_words(md5_result(t, piece, key));
    words_block(Seq::new(4, |w: int| hash[w].wrapping_add(digest[w])))
}

/// The session key: the hashed source with the bytes of each word reversed and masked.
pub open spec fn session_key(t: &PlayfairTables, sap: Seq<u8>, message: Seq<u8>) -> Seq<u8> {
    let key = session_rounds(t, session_source(t, sap, message), 5);
    Seq::new(16, |i: int| key[4 * (i / 4) + 3 - i % 4] ^ 121)
}

/// The stream key that `ekey` wraps, given the message `m3` and the SAP it was wrapped under.
pub open spec fn unwrapped_key(
    t: &PlayfairTables,
    m3: Seq<u8>,
    ekey: Seq<u8>,
    sap: Seq<u8>,
) -> Seq<u8> {
    let ks = key_schedule(t, session_key(t, sap, m3));
    let block = cycled(t, xor_seq(ekey.subrange(56, 72), t.z_key@), ks);
    xor_seq(xor_seq(xor_seq(block, ekey.subrange(16, 32)), t.x_key@), t.z_key@)
}

fn hash_piece(t: &PlayfairTables, piece: &[u8], key: &[u8; 16]) -> (r: [u8; 16])
    requires
        t.wf(),
        piece.len() >= 64,
    ensures
        r@ == piece_key(t, piece@, key@),
{
    let digest_block = modified_md5(t, piece, key);
    let digest = words_of(&digest_block);
    let hash_block = sap_hash(piece);
    let hash = words_of(&hash_block);
    let sum = [
        hash[0].wrapping_add(digest[0]),
        hash[1].wrapping_add(digest[1]),
        hash[2].wrapping_add(digest[2]),
        hash[3].wrapping_add(digest[3]),
    ];
    assert(sum@ =~= Seq::new(4, |w: int| hash@[w].wrapping_add(digest@[w])));
    block_of(&sum)
}

/// Derives the session key from the SAP and the message.
pub fn generate_session_key(t: &PlayfairTables, sap: &[u8], message: &[u8]) -> (r: [u8; 16])
    requires
        t.wf(),
        sap.len() >= 0x100,
        message.len() >= 144,
        message@[12] < 4,
    ensures
        r@ == session_key(t, sap@, message@),
{
    let payload = decrypt_message(t, message);
    let mut source: Vec<u8> = Vec::new();
    extend(&mut source, t.static_source1.as_slice());
    extend(&mut source, payload.as_slice());
    extend(&mut source, vstd::slice::slice_subrange(sap, 0x80, 0x100));
    extend(&mut source, t.static_source2.as_slice());
    assert(source@ =~= session_source(t, sap@, message@));

    let mut key = block_at(t.initial_session_key.as_slice(), 0);
    assert(key@ =~= t.initial_session_key@);
    let mut n: usize = 0;
    while n < 5
        invariant
            n <= 5,
            t.wf(),
            source@.len() == 320,
            key@ == session_rounds(t, source@, n as nat),
        decreases 5 - n,
    {
        let piece = vstd::slice::slice_subrange(source.as_slice(), 64 * n, source.len());
        key = hash_piece(t, piece, &key);
        n += 1;
    }
    let mut out: [u8; 16] = [0u8; 16];
    let mut i: usize = 0;
    while i < 16
        invariant
            i <= 16,
            forall|k: int| 0 <= k < i ==> out@[k] == key@[4 * (k / 4) + 3 - k % 4] ^ 121,
        decreases 16 - i,
    {
        out[i] = key[4 * (i / 4) + 3 - i % 4] ^ 121;
        i += 1;
    }
    assert(out@ =~= session_key(t, sap@, message@));
    out
}

/// Unwraps the stream key that `ekey` carries, under the standard SAP.
pub fn playfair_decrypt(t: &PlayfairTables, m3: &[u8], ekey: &[u8]) -> (r: [u8; 16])
    requires
        t.wf(),
        m3.len() >= 144,
        m3@[12] < 4,
        ekey.len() >= 72,
    ensures
        r@ == unwrapped_key(t, m3@, ekey@, t.default_sap@),
{
    playfair_decrypt_with_sap(t, m3, ekey, t.default_sap.as_slice())
}

/// Unwraps the stream key that `ekey` carries.
pub fn playfair_decrypt_with_sap(t: &PlayfairTables, m3: &[u8], ekey: &[u8], sap: &[u8]) -> (r: [u8;
    16])
    requires
        t.wf(),
        m3.len() >= 144,
        m3@[12] < 4,
        ekey.len() >= 72,
        sap.len() >= 0x100,
    ensures
        r@ == unwrapped_key(t, m3@, ekey@, sap@),
{
    let chunk1 = block_at(ekey, 16);
    let chunk2 = block_at(ekey, 56);
    let z_key = block_at(t.z_key.as_slice(), 0);
    let x_key = block_at(t.x_key.as_slice(), 0);
    assert(z_key@ =~= t.z_key@);
    assert(x_key@ =~= t.x_key@);
    let sap_key = generate_session_key(t, sap, m3);
    let ks = generate_key_schedule(t, &sap_key);
    assert(ks@.len() == 11) by {
        assert(schedule_view(ks@).len() == key_schedule(t, sap_key@).len());
    }
    let block_in = xor_blocks(&chunk2, &z_key);
    let block = cycle(t, &block_in, &ks);
    let key_out = xor_blocks(&block, &chunk1);
    let key_out = xor_blocks(&key_out, &x_key);
    xor_blocks(&key_out, &z_key)
}

} // verus!
