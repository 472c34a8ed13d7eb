//! The constant tables that the key derivation looks its bytes up in.
use crate::bytes::{byte32, byte_of, le32_at, le_u32, le_bytes32};
use vstd::prelude::*;

verus! {

/// The constant tables of the key derivation.
pub struct PlayfairTables {
    /// 40 rows of 256 bytes: the key schedule's substitutions.
    pub s1: Vec<u8>,
    /// 144 rows of 256 bytes: the message rounds' substitutions.
    pub s2: Vec<u8>,
    /// 16 rows of 256 bytes: the first substitution of a cycle.
    pub s3: Vec<u8>,
    /// 144 rows of 256 bytes: the substitutions of a cycle's rounds.
    pub s4: Vec<u8>,
    pub s5: Vec<u32>,
    pub s6: Vec<u32>,
    pub s7: Vec<u32>,
    pub s8: Vec<u32>,
    /// 4 rows of 256 words: the message rounds' column mix.
    pub s9: Vec<u32>,
    /// 16 rows of 256 bytes: the last substitution of a message block.
    pub s10: Vec<u8>,
    /// 4 keys of 144 bytes, one per message mode.
    pub message_key: Vec<u8>,
    /// 4 initialisation vectors of 16 bytes, one per message mode.
    pub message_iv: Vec<u8>,
    pub z_key: Vec<u8>,
    pub x_key: Vec<u8>,
    pub t_key: Vec<u8>,
    pub default_sap: Vec<u8>,
    pub static_source1: Vec<u8>,
    pub static_source2: Vec<u8>,
    pub index_mangle: Vec<u8>,
    pub initial_session_key: Vec<u8>,
    pub md5_shift: Vec<u8>,
}

impl PlayfairTables {
    /// Every table has its size, and the shift counts are proper rotations.
    pub open spec fn wf(&self) -> bool {
        &&& self.s1@.len() == 40 * 256
        &&& self.s2@.len() == 144 * 256
        &&& self.s3@.len() == 16 * 256
        &&& self.s4@.len() == 144 * 256
        &&& self.s5@.len() == 256
        &&& self.s6@.len() == 256
        &&& self.s7@.len() == 256
        &&& self.s8@.len() == 256
        &&& self.s9@.len() == 4 * 256
        &&& self.s10@.len() == 16 * 256
        &&& self.message_key@.len() == 4 * 144
        &&& self.message_iv@.len() == 4 * 16
        &&& self.z_key@.len() == 16
        &&& self.x_key@.len() == 16
        &&& self.t_key@.len() == 16
        &&& self.default_sap@.len() == 280
        &&& self.static_source1@.len() == 17
        &&& self.static_source2@.len() == 47
        &&& self.index_mangle@.len() == 11
        &&& self.initial_session_key@.len() == 16
        &&& self.md5_shift@.len() == 64
        &&& forall|i: int| 0 <= i < 64 ==> 0 < #[trigger] self.md5_shift@[i] < 32
    }

    /// Tells whether every table has its size and every shift count is a proper rotation.
    pub fn check(&self) -> (r: bool)
        ensures
            r == self.wf(),
    {
        let sizes = self.s1.len() == 40 * 256 && self.s2.len() == 144 * 256 && self.s3.len() == 16
            * 256 && self.s4.len() == 144 * 256 && self.s5.len() == 256 && self.s6.len() == 256
            && self.s7.len() == 256 && self.s8.len() == 256 && self.s9.len() == 4 * 256
            && self.s10.len() == 16 * 256 && self.message_key.len() == 4 * 144
            && self.message_iv.len() == 4 * 16 && self.z_key.len() == 16 && self.x_key.len() == 16
            && self.t_key.len() == 16 && self.default_sap.len() == 280
            && self.static_source1.len() == 17 && self.static_source2.len() == 47
            && self.index_mangle.len() == 11 && self.initial_session_key.len() == 16
            && self.md5_shift.len() == 64;
        if !sizes {
            return false;
        }
        let mut i: usize = 0;
        while i < 64
            invariant
                i <= 64,
                self.md5_shift@.len() == 64,
                forall|k: int| 0 <= k < i ==> 0 < #[trigger] self.md5_shift@[k] < 32,
            decreases 64 - i,
        {
            if self.md5_shift[i] == 0 || self.md5_shift[i] >= 32 {
                assert(!(0 < self.md5_shift@[i as int] < 32));
                return false;
            }
            i += 1;
        }
        true
    }
}

/// The words whose little-endian bytes make up `s`, with any incomplete last word left out.
pub open spec fn le_words(s: Seq<u8>) -> Seq<u32> {
    Seq::new(s.len() / 4, |i: int| le32_at(s, 4 * i))
}

/// Reads a table of words from its little-endian dump.
pub fn load_u32_table(bytes: &[u8]) -> (r: Vec<u32>)
    ensures
        r@ == le_words(bytes@),
{
    let n: usize = bytes.len() / 4;
    let mut out: Vec<u32> = Vec::new();
    let mut i: usize = 0;
    while i < n
        invariant
            i <= n,
            n == bytes.len() / 4,
            out@.len() == i,
            forall|k: int| 0 <= k < i ==> out@[k] == le32_at(bytes@, 4 * k),
        decreases n - i,
    {
        out.push(le_u32(bytes, 4 * i));
        i += 1;
    }
    out
}

/// The four words of a block.
pub open spec fn block_words(block: Seq<u8>) -> Seq<u32> {
    Seq::new(4, |w: int| le32_at(block, 4 * w))
}

/// The block made of four words.
pub open spec fn words_block(words: Seq<u32>) -> Seq<u8> {
    Seq::new(16, |i: int| byte32(words[i / 4], i % 4))
}

/// The position in a block from which a byte moves to position `i` in a row shift: row `i % 4`
/// moves right by as many columns as its number.
pub open spec fn shift_source(i: int) -> int {
    (i + 12 * (i % 4)) % 16
}

/// The bytewise exclusive or of two sequences.
pub open spec fn xor_seq(a: Seq<u8>, b: Seq<u8>) -> Seq<u8> {
    Seq::new(a.len(), |i: int| a[i] ^ b[i])
}

pub fn shift_source_of(i: usize) -> (r: usize)
    requires
        i < 16,
    ensures
        r == shift_source(i as int),
        r < 16,
{
    (i + 12 * (i % 4)) % 16
}

pub fn words_of(block: &[u8; 16]) -> (r: [u32; 4])
    ensures
        r@ == block_words(block@),
{
    let r = [
        le_u32(block, 0),
        le_u32(block, 4),
        le_u32(block, 8),
        le_u32(block, 12),
    ];
    assert(r@ =~= block_words(block@));
    r
}

pub fn block_of(words: &[u32; 4]) -> (r: [u8; 16])
    ensures
        r@ == words_block(words@),
{
    let mut out: [u8; 16] = [0u8; 16];
    let mut i: usize = 0;
    while i < 16
        invariant
            i <= 16,
            forall|k: int| 0 <= k < i ==> out@[k] == byte32(words@[k / 4], k % 4),
        decreases 16 - i,
    {
        out[i] = byte_of(words[i / 4], i % 4);
        i += 1;
    }
    assert(out@ =~= words_block(words@));
    out
}

pub fn xor_blocks(a: &[u8; 16], b: &[u8; 16]) -> (r: [u8; 16])
    ensures
        r@ == xor_seq(a@, b@),
{
    let mut out: [u8; 16] = [0u8; 16];
    let mut i: usize = 0;
    while i < 16
        invariant
            i <= 16,
            forall|k: int| 0 <= k < i ==> out@[k] == a@[k] ^ b@[k],
        decreases 16 - i,
    {
        out[i] = a[i] ^ b[i];
        i += 1;
    }
    assert(out@ =~= xor_seq(a@, b@));
    out
}

/// Copies the 16 bytes at `b[i..]`.
pub fn block_at(b: &[u8], i: usize) -> (r: [u8; 16])
    requires
        i + 16 <= b.len(),
    ensures
        r@ == b@.subrange(i as int, i + 16),
{
    let mut out: [u8; 16] = [0u8; 16];
    let mut k: usize = 0;
    while k < 16
        invariant
            k <= 16,
            i + 16 <= b.len(),
            forall|j: int| 0 <= j < k ==> out@[j] == b@[i + j],
        decreases 16 - k,
    {
        out[k] = b[i + k];
        k += 1;
    }
    assert(out@ =~= b@.subrange(i as int, i + 16));
    out
}

/// A block survives being read as words and written back.
pub proof fn lemma_block_words_inverse(words: Seq<u32>)
    requires
        words.len() == 4,
    ensures
        block_words(words_block(words)) == words,
{
    let block = words_block(words);
    assert forall|w: int| 0 <= w < 4 implies block_words(block)[w] == words[w] by {
        crate::bytes::lemma_le32_inverse(words[w]);
        let b = le_bytes32(words[w]);
        assert forall|k: int| 0 <= k < 4 implies block[4 * w + k] == b[k] by {
            assert((4 * w + k) / 4 == w && (4 * w + k) % 4 == k);
        }
        assert(block[4 * w + 0] == b[0]);
        assert(block[4 * w + 1] == b[1]);
        assert(block[4 * w + 2] == b[2]);
        assert(block[4 * w + 3] == b[3]);
    }
    assert(block_words(block) =~= words);
}

} // verus!
