//! The cipher of the audio channel: ChaCha20 and Poly1305 with a nonce of 64 bits.
use crate::bytes::{array32, extend, extend_le64, le_bytes64};
use crate::crypto::{
    aes128_cbc, aes128_cbc_of, chacha_legacy, chacha_legacy_byte, poly1305_of, poly1305_tag,
};
use vstd::prelude::*;
use vstd::slice::{slice_subrange, slice_to_vec};

verus! {

/// How much longer a sealed message is.
pub const AUDIO_CHACHA_OVERHEAD: usize = 16;

/// The longest message that can be sealed: the keystream behind its first block.
pub const AUDIO_CHACHA_LIMIT: u64 = 0x3f_ffff_ff80;

/// `data` under the keystream from block 1 on.
pub open spec fn chacha_applied(key: Seq<u8>, nonce: Seq<u8>, data: Seq<u8>) -> Seq<u8> {
    Seq::new(
        data.len(),
        |i: int| data[i] ^ chacha_legacy_byte(key, nonce, (64 + i) as nat),
    )
}

/// The key of the tag: the start of block 0 of the keystream.
pub open spec fn tag_key(key: Seq<u8>, nonce: Seq<u8>) -> Seq<u8> {
    Seq::new(32, |i: int| chacha_legacy_byte(key, nonce, i as nat))
}

/// Data filled up with zeros to whole blocks.
pub open spec fn whole_blocks(data: Seq<u8>) -> Seq<u8> {
    data + Seq::new(((16 - data.len() % 16) % 16) as nat, |i: int| 0u8)
}

/// What the tag is taken over: the associated data and the ciphertext, each in whole blocks, and
/// their lengths.
pub open spec fn tag_input(aad: Seq<u8>, ct: Seq<u8>) -> Seq<u8> {
    whole_blocks(aad) + whole_blocks(ct) + le_bytes64(aad.len() as u64) + le_bytes64(
        ct.len() as u64,
    )
}

pub open spec fn tag_of(key: Seq<u8>, nonce: Seq<u8>, aad: Seq<u8>, ct: Seq<u8>) -> Seq<u8> {
    poly1305_of(tag_key(key, nonce), tag_input(aad, ct))
}

/// A sealed message: its ciphertext and the tag.
pub open spec fn audio_sealed(
    key: Seq<u8>,
    nonce: Seq<u8>,
    message: Seq<u8>,
    aad: Seq<u8>,
) -> Seq<u8> {
    let ct = chacha_applied(key, nonce, message);
    ct + tag_of(key, nonce, aad, ct)
}

/// What a sealed message opens to; `None` when its tag is not right.
pub open spec fn audio_opened(
    key: Seq<u8>,
    nonce: Seq<u8>,
    sealed: Seq<u8>,
    aad: Seq<u8>,
) -> Option<Seq<u8>> {
    if sealed.len() < AUDIO_CHACHA_OVERHEAD {
        None
    } else {
        let ct = sealed.take(sealed.len() - AUDIO_CHACHA_OVERHEAD);
        if sealed.skip(sealed.len() - AUDIO_CHACHA_OVERHEAD) == tag_of(key, nonce, aad, ct) {
            Some(chacha_applied(key, nonce, ct))
        } else {
            None
        }
    }
}

fn extend_whole_blocks(out: &mut Vec<u8>, data: &[u8])
    ensures
        final(out)@ == old(out)@ + whole_blocks(data@),
{
    extend(out, data);
    let gap: usize = (16 - data.len() % 16) % 16;
    let fill: Vec<u8> = vec![0u8; gap];
    extend(out, fill.as_slice());
    assert(whole_blocks(data@) =~= data@ + fill@);
    assert(out@ =~= old(out)@ + whole_blocks(data@));
}

/// The audio cipher.
#[derive(Clone, Copy)]
pub struct AudioChaCha64 {
    key: [u8; 32],
}

impl View for AudioChaCha64 {
    type V = Seq<u8>;

    closed spec fn view(&self) -> Seq<u8> {
        self.key@
    }
}

/// Why a message could not be sealed or opened.
#[derive(Clone, Copy, Debug, PartialEq, Eq, Structural)]
pub enum AudioCipherError {
    BadKeyLength { len: usize },
    /// The tag is not right.
    NotAuthentic,
}

impl AudioChaCha64 {
    /// A cipher; the key must have 32 bytes.
    pub fn new(key: &[u8]) -> (r: Result<AudioChaCha64, AudioCipherError>)
        ensures
            if key@.len() == 32 {
                r matches Ok(c) && c@ == key@
            } else {
                r is Err && r->Err_0 == (AudioCipherError::BadKeyLength { len: key@.len() as usize })
            },
    {
        if key.len() != 32 {
            return Err(AudioCipherError::BadKeyLength { len: key.len() });
        }
        Ok(AudioChaCha64 { key: array32(key) })
    }

    /// How much longer a sealed message is.
    pub fn overhead(&self) -> (r: usize)
        ensures
            r == AUDIO_CHACHA_OVERHEAD,
    {
        AUDIO_CHACHA_OVERHEAD
    }

    fn tag(&self, nonce: &[u8; 8], aad: &[u8], ct: &[u8]) -> (r: [u8; 16])
        ensures
            r@ == tag_of(self@, nonce@, aad@, ct@),
    {
        let blank: [u8; 32] = [0u8; 32];
        let start: Vec<u8> = chacha_legacy(&self.key, nonce, 0, &blank);
        let key: [u8; 32] = array32(start.as_slice());
        proof {
            assert forall|i: int| 0 <= i < 32 implies key@[i] == tag_key(self@, nonce@)[i] by {
                assert(blank@[i] == 0);
                crate::bits::lemma_xor_zero(chacha_legacy_byte(self@, nonce@, i as nat));
            }
            assert(key@ =~= tag_key(self@, nonce@));
        }
        let mut message: Vec<u8> = Vec::new();
        extend_whole_blocks(&mut message, aad);
        extend_whole_blocks(&mut message, ct);
        extend_le64(&mut message, aad.len() as u64);
        extend_le64(&mut message, ct.len() as u64);
        assert(message@ =~= tag_input(aad@, ct@));
        assert(whole_blocks(aad@).len() % 16 == 0);
        assert(whole_blocks(ct@).len() % 16 == 0);
        poly1305_tag(&key, message.as_slice())
    }

    fn apply(&self, nonce: &[u8; 8], data: &[u8]) -> (r: Vec<u8>)
        requires
            data@.len() <= AUDIO_CHACHA_LIMIT,
        ensures
            r@ == chacha_applied(self@, nonce@, data@),
    {
        let out: Vec<u8> = chacha_legacy(&self.key, nonce, 64, data);
        assert(out@ =~= chacha_applied(self@, nonce@, data@));
        out
    }

    /// Seals a message: the ciphertext and a tag of 16 bytes.
    pub fn seal(&self, nonce: &[u8; 8], plaintext: &[u8], aad: &[u8]) -> (r: Vec<u8>)
        requires
            plaintext@.len() <= AUDIO_CHACHA_LIMIT,
        ensures
            r@ == audio_sealed(self@, nonce@, plaintext@, aad@),
            r@.len() == plaintext@.len() + 16,
            audio_opened(self@, nonce@, r@, aad@) == Some(plaintext@),
    {
        let mut out: Vec<u8> = self.apply(nonce, plaintext);
        let tag: [u8; 16] = self.tag(nonce, aad, out.as_slice());
        extend(&mut out, &tag);
        proof {
            lemma_audio_opens(self@, nonce@, plaintext@, aad@);
        }
        out
    }

    /// Opens a sealed message, if its tag is right.
    pub fn open(&self, nonce: &[u8; 8], ciphertext: &[u8], aad: &[u8]) -> (r: Result<
        Vec<u8>,
        AudioCipherError,
    >)
        requires
            ciphertext@.len() <= AUDIO_CHACHA_LIMIT + AUDIO_CHACHA_OVERHEAD,
        ensures
            match audio_opened(self@, nonce@, ciphertext@, aad@) {
                Some(message) => r matches Ok(out) && out@ == message,
                None => r is Err && r->Err_0 == AudioCipherError::NotAuthentic,
            },
    {
        if ciphertext.len() < AUDIO_CHACHA_OVERHEAD {
            return Err(AudioCipherError::NotAuthentic);
        }
        let n: usize = ciphertext.len() - AUDIO_CHACHA_OVERHEAD;
        let ct: &[u8] = slice_subrange(ciphertext, 0, n);
        let given: &[u8] = slice_subrange(ciphertext, n, ciphertext.len());
        assert(ct@ =~= ciphertext@.take(n as int));
        assert(given@ =~= ciphertext@.skip(n as int));
        let expected: [u8; 16] = self.tag(nonce, aad, ct);
        if !same_tag(&expected, given) {
            return Err(AudioCipherError::NotAuthentic);
        }
        Ok(self.apply(nonce, ct))
    }
}

/// Compares a tag without stopping at the first difference.
fn same_tag(expected: &[u8; 16], given: &[u8]) -> (r: bool)
    requires
        given@.len() == 16,
    ensures
        r == (given@ == expected@),
{
    let mut diff: u8 = 0;
    let mut i: usize = 0;
    while i < 16
        invariant
            i <= 16,
            given@.len() == 16,
            diff == 0 <==> (forall|k: int| 0 <= k < i ==> given@[k] == expected@[k]),
        decreases 16 - i,
    {
        let before: u8 = diff;
        diff = diff | (expected[i] ^ given[i]);
        proof {
            crate::bits::lemma_difference(before, expected@[i as int], given@[i as int]);
        }
        i += 1;
    }
    assert(diff == 0 ==> given@ =~= expected@);
    diff == 0
}

/// A sealed message opens to what was sealed, under the same key, nonce and associated data.
pub proof fn lemma_audio_opens(key: Seq<u8>, nonce: Seq<u8>, message: Seq<u8>, aad: Seq<u8>)
    requires
        tag_of(key, nonce, aad, chacha_applied(key, nonce, message)).len() == 16,
    ensures
        audio_opened(key, nonce, audio_sealed(key, nonce, message, aad), aad) == Some(message),
{
    let ct = chacha_applied(key, nonce, message);
    let tag = tag_of(key, nonce, aad, ct);
    let sealed = audio_sealed(key, nonce, message, aad);
    assert(sealed.take(sealed.len() - 16) =~= ct);
    assert(sealed.skip(sealed.len() - 16) =~= tag);
    let back = chacha_applied(key, nonce, ct);
    assert forall|i: int| 0 <= i < message.len() implies back[i] == message[i] by {
        crate::bits::lemma_xor_involution(
            message[i],
            chacha_legacy_byte(key, nonce, (64 + i) as nat),
        );
    }
    assert(back =~= message);
}

/// A payload with its whole blocks encrypted and the bytes behind them in the clear.
pub open spec fn cbc_payload(key: Seq<u8>, iv: Seq<u8>, data: Seq<u8>) -> Seq<u8> {
    let whole = data.len() as int - data.len() as int % 16;
    if whole == 0 {
        data
    } else {
        aes128_cbc_of(key, iv, data.take(whole)) + data.skip(whole)
    }
}

/// Encrypts the whole blocks of a payload; the bytes behind them stay as they are.
pub fn aes_encrypt_audio_payload(key: &[u8; 16], iv: &[u8; 16], data: &[u8]) -> (r: Vec<u8>)
    ensures
        r@ == cbc_payload(key@, iv@, data@),
        r@.len() == data@.len(),
{
    let whole: usize = data.len() - data.len() % 16;
    if whole == 0 {
        return slice_to_vec(data);
    }
    let head: &[u8] = slice_subrange(data, 0, whole);
    let tail: &[u8] = slice_subrange(data, whole, data.len());
    assert(head@ =~= data@.take(whole as int));
    assert(tail@ =~= data@.skip(whole as int));
    let mut out: Vec<u8> = aes128_cbc(key, iv, head);
    extend(&mut out, tail);
    out
}

} // verus!
