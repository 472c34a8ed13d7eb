//! How the pieces of the key unwrapping depend on one another.
use crate::playfair::cipher::{key_schedule, round_key};
use crate::playfair::md5::{md5_start, swap_words, word_index};
use crate::playfair::message::decrypted_message;
use crate::playfair::sap::stretched;
use crate::playfair::tables::{block_words, shift_source, words_block, xor_seq, PlayfairTables};
use crate::playfair::{session_key, session_source, unwrapped_key};
use vstd::prelude::*;

verus! {

proof fn lemma_cancel(a: u8, b: u8, c: u8, d: u8, e: u8)
    by (bit_vector)
    ensures
        (((a ^ b) ^ d) ^ e) ^ (((a ^ c) ^ d) ^ e) == b ^ c,
        (a ^ b) ^ (a ^ c) == b ^ c,
{
}

/// Two wrapped keys with the same second chunk unwrap to keys that differ just where their first
/// chunks do: the first chunk is the vector of a chain of one block.
pub proof fn law_first_chunk(
    t: &PlayfairTables,
    m3: Seq<u8>,
    e: Seq<u8>,
    f: Seq<u8>,
    sap: Seq<u8>,
    i: int,
)
    requires
        e.len() == 72,
        f.len() == 72,
        e.subrange(56, 72) == f.subrange(56, 72),
        t.x_key@.len() == 16,
        t.z_key@.len() == 16,
        0 <= i < 16,
        unwrapped_key(t, m3, e, sap).len() == 16,
        unwrapped_key(t, m3, f, sap).len() == 16,
    ensures
        unwrapped_key(t, m3, e, sap)[i] ^ unwrapped_key(t, m3, f, sap)[i] == e[16 + i] ^ f[16 + i],
{
    let ks = key_schedule(t, session_key(t, sap, m3));
    let block = crate::playfair::cipher::cycled(
        t,
        xor_seq(e.subrange(56, 72), t.z_key@),
        ks,
    );
    lemma_cancel(block[i], e[16 + i], f[16 + i], t.x_key@[i], t.z_key@[i]);
    assert(e.subrange(16, 32)[i] == e[16 + i]);
    assert(f.subrange(16, 32)[i] == f[16 + i]);
}

/// The payload of a message is a chain: where two messages of a mode have the same block, their
/// payloads there differ just where the blocks before do; the first block goes by the vector of the
/// mode.
pub proof fn law_message_chain(t: &PlayfairTables, m: Seq<u8>, n: Seq<u8>, k: int, j: int)
    requires
        m.len() >= 144,
        n.len() >= 144,
        m[12] == n[12],
        0 <= k < 8,
        0 <= j < 16,
        m.subrange(16 * k + 16, 16 * k + 32) == n.subrange(16 * k + 16, 16 * k + 32),
    ensures
        decrypted_message(t, m).len() == 128,
        k > 0 ==> decrypted_message(t, m)[16 * k + j] ^ decrypted_message(t, n)[16 * k + j]
            == m[16 * k + j] ^ n[16 * k + j],
        k == 0 ==> decrypted_message(t, m)[j] == decrypted_message(t, n)[j],
{
    let p = 16 * k + j;
    assert(p / 16 == k && p % 16 == j);
    let d = crate::playfair::message::message_block(
        t,
        m[12] as int,
        m.subrange(16 * k + 16, 16 * k + 32),
    )[j];
    if k > 0 {
        assert(m.subrange(16 * k, 16 * k + 16)[j] == m[p]);
        assert(n.subrange(16 * k, 16 * k + 16)[j] == n[p]);
        lemma_cancel(d, m[p], n[p], 0, 0);
    }
}

/// The session key is hashed from the payload of the message and the second half of the SAP, between
/// two constants.
pub proof fn law_session_source(t: &PlayfairTables, sap: Seq<u8>, message: Seq<u8>)
    requires
        sap.len() == 0x100,
    ensures
        ({
            let a = t.static_source1@.len() as int;
            let s = session_source(t, sap, message);
            &&& s.take(a) == t.static_source1@
            &&& s.subrange(a, a + 128) == decrypted_message(t, message)
            &&& s.subrange(a + 128, a + 256) == sap.skip(0x80)
            &&& s.skip(a + 256) == t.static_source2@
        }),
{
    let a = t.static_source1@.len() as int;
    let s = session_source(t, sap, message);
    assert(s.take(a) =~= t.static_source1@);
    assert(s.subrange(a, a + 128) =~= decrypted_message(t, message));
    assert(s.subrange(a + 128, a + 256) =~= sap.skip(0x80));
    assert(s.skip(a + 256) =~= t.static_source2@);
}

/// Each word of a round key but the first is the word before it and the word at its place in the key
/// before, added without carry.
pub proof fn law_round_keys(t: &PlayfairTables, material: Seq<u8>, r: nat, w: int)
    requires
        1 <= w < 4,
    ensures
        round_key(t, material, r + 1)[w] == round_key(t, material, r)[w] ^ round_key(
            t,
            material,
            r + 1,
        )[w - 1],
        r < 10 ==> key_schedule(t, material)[r as int + 1] == round_key(t, material, r + 1),
        key_schedule(t, material).len() == 11,
{
    assert(w == 1 || w == 2 || w == 3);
}

/// In each sixteen steps of the digest every word of the block is used once.
pub proof fn law_words_used(i: int, j: int)
    requires
        0 <= i < j < 64,
        i / 16 == j / 16,
    ensures
        0 <= word_index(i) < 16,
        word_index(i) != word_index(j),
{
}

/// The digest starts from the words of the key, the lowest byte of each first, and the words of the
/// block, the highest first.
pub proof fn law_digest_start(block: Seq<u8>, key: Seq<u8>, i: int)
    requires
        0 <= i < 16,
        block.len() >= 64,
        key.len() == 16,
    ensures
        ({
            let s = md5_start(block, key);
            &&& s.a == key[0] + 0x100 * key[1] + 0x1_0000 * key[2] + 0x100_0000 * key[3]
            &&& s.b == key[4] + 0x100 * key[5] + 0x1_0000 * key[6] + 0x100_0000 * key[7]
            &&& s.c == key[8] + 0x100 * key[9] + 0x1_0000 * key[10] + 0x100_0000 * key[11]
            &&& s.d == key[12] + 0x100 * key[13] + 0x1_0000 * key[14] + 0x100_0000 * key[15]
            &&& s.words.len() == 16
            &&& s.words[i] == 0x100_0000 * block[4 * i] + 0x1_0000 * block[4 * i + 1] + 0x100
                * block[4 * i + 2] + block[4 * i + 3]
        }),
{
}

/// An exchange of two words done twice changes nothing.
pub proof fn law_exchange(words: Seq<u32>, x: int, y: int)
    requires
        0 <= x < words.len(),
        0 <= y < words.len(),
    ensures
        swap_words(words, x, y)[x] == words[y],
        swap_words(words, x, y)[y] == words[x],
        swap_words(swap_words(words, x, y), x, y) == words,
{
    assert(swap_words(swap_words(words, x, y), x, y) =~= words);
}

/// Stretching repeats the block, with the bytes of each word in reverse order.
pub proof fn law_stretched(block: Seq<u8>, i: int)
    requires
        0 <= i < 210,
    ensures
        stretched(block).len() == 210,
        i + 64 < 210 ==> stretched(block)[i + 64] == stretched(block)[i],
        i < 64 && i % 4 == 0 ==> stretched(block)[i] == block[i + 3],
        i < 64 && i % 4 == 1 ==> stretched(block)[i] == block[i + 1],
        i < 64 && i % 4 == 2 ==> stretched(block)[i] == block[i - 1],
        i < 64 && i % 4 == 3 ==> stretched(block)[i] == block[i - 3],
{
}

/// A block is its four words, the lowest byte of each first.
pub proof fn law_blocks(b: Seq<u8>, i: int)
    requires
        b.len() == 16,
        0 <= i < 4,
    ensures
        words_block(block_words(b)) == b,
        block_words(b)[i] == b[4 * i] + 0x100 * b[4 * i + 1] + 0x1_0000 * b[4 * i + 2] + 0x100_0000
            * b[4 * i + 3],
{
    assert forall|k: int| 0 <= k < 16 implies words_block(block_words(b))[k] == b[k] by {
        let w = k / 4;
        assert(block_words(b)[w] == b[4 * w] + 0x100 * b[4 * w + 1] + 0x1_0000 * b[4 * w + 2]
            + 0x100_0000 * b[4 * w + 3]);
        assert(4 * w + k % 4 == k);
        assert(k % 4 == 0 || k % 4 == 1 || k % 4 == 2 || k % 4 == 3);
    }
    assert(words_block(block_words(b)) =~= b);
}

/// A row shift leaves the first row, and moves each other by as many columns as its number, so that no
/// two bytes meet.
pub proof fn law_row_shift(i: int, j: int)
    requires
        0 <= i < 16,
        0 <= j < 16,
    ensures
        0 <= shift_source(i) < 16,
        shift_source(i) % 4 == i % 4,
        (shift_source(i) / 4 + i % 4) % 4 == i / 4,
        i != j ==> shift_source(i) != shift_source(j),
{
}

} // verus!
