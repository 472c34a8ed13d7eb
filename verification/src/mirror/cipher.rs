//! The ciphers of the video channel.
use crate::bytes::{array16, array32, counter_nonce, extend, nonce_of};
use crate::crypto::{
    aead_opened, aead_seal, aead_sealed, aes128_ctr, aes128_ctr_byte, hkdf_sha512, hkdf_sha512_of,
    keystream_end, sha512, sha512_of, AEAD_LIMIT,
};
use crate::pairing::label;
use crate::pairing::raw::keystreamed;
use crate::text::{decimal_of, push_decimal};
use vstd::prelude::*;
use vstd::slice::{slice_subrange, slice_to_vec};
use vstd::utf8::encode_utf8;

verus! {

/// A text followed by a stream's identifier, taken as unsigned.
pub open spec fn with_id(prefix: &str, id: i64) -> Seq<char> {
    prefix@ + decimal_of((id as u64) as nat)
}

fn push_id(prefix: &str, id: i64) -> (r: String)
    ensures
        r@ == with_id(prefix, id),
{
    let mut out: String = prefix.to_owned();
    push_decimal(&mut out, id as u64);
    out
}

/// 16 bytes of key material for a stream.
pub open spec fn stream_material(prefix: &str, id: i64, shk: Seq<u8>) -> Seq<u8> {
    sha512_of(encode_utf8(with_id(prefix, id)) + shk).take(16)
}

fn derive_material(prefix: &str, id: i64, shk: &[u8]) -> (r: [u8; 16])
    ensures
        r@ == stream_material(prefix, id, shk@),
{
    let text = push_id(prefix, id);
    let mut message: Vec<u8> = slice_to_vec(text.as_str().as_bytes());
    extend(&mut message, shk);
    let digest: [u8; 64] = sha512(message.as_slice());
    assert(digest@.subrange(0, 16) =~= digest@.take(16));
    array16(slice_subrange(&digest, 0, 16))
}

/// The AES key and first counter block of a video stream.
pub fn derive_video_keys(shk: &[u8], stream_connection_id: i64) -> (r: ([u8; 16], [u8; 16]))
    ensures
        r.0@ == stream_material("AirPlayStreamKey", stream_connection_id, shk@),
        r.1@ == stream_material("AirPlayStreamIV", stream_connection_id, shk@),
{
    (
        derive_material("AirPlayStreamKey", stream_connection_id, shk),
        derive_material("AirPlayStreamIV", stream_connection_id, shk),
    )
}

/// The ChaCha20-Poly1305 key of a video stream.
pub open spec fn chacha_key_of(ikm: Seq<u8>, id: i64) -> Seq<u8> {
    hkdf_sha512_of(
        ikm,
        encode_utf8(with_id("DataStream-Salt", id)),
        label("DataStream-Output-Encryption-Key"),
        32,
    )
}

/// The ChaCha20-Poly1305 key of a video stream.
pub fn derive_chacha_key(ikm: &[u8], stream_connection_id: i64) -> (r: [u8; 32])
    ensures
        r@ == chacha_key_of(ikm@, stream_connection_id),
{
    let salt = push_id("DataStream-Salt", stream_connection_id);
    let info = "DataStream-Output-Encryption-Key";
    array32(hkdf_sha512(ikm, salt.as_str().as_bytes(), info.as_bytes(), 32).as_slice())
}

/// AES-128 in counter mode over a row of frames. The rest of a block that a frame ends in serves
/// the start of the next frame; where that frame is shorter still, the rest after it is dropped.
pub struct MirrorCipher {
    key: [u8; 16],
    iv: [u8; 16],
    /// How many blocks of keystream were drawn.
    blocks: u128,
    /// The last block drawn: the end of it is unused keystream.
    og: [u8; 16],
    /// How many bytes of that block are unused.
    next_crypt_count: usize,
}

/// The key material, the keystream byte that comes next, and how many more come before the next
/// block.
#[verifier::ext_equal]
pub struct MirrorCipherView {
    pub key: Seq<u8>,
    pub iv: Seq<u8>,
    pub next: nat,
    pub spare: nat,
}

impl View for MirrorCipher {
    type V = MirrorCipherView;

    closed spec fn view(&self) -> MirrorCipherView {
        MirrorCipherView {
            key: self.key@,
            iv: self.iv@,
            next: (16 * self.blocks - self.next_crypt_count) as nat,
            spare: self.next_crypt_count as nat,
        }
    }
}

/// The cipher after a frame of `n` bytes.
pub open spec fn after_frame(c: MirrorCipherView, n: nat) -> MirrorCipherView {
    if n < c.spare {
        MirrorCipherView { next: c.next + c.spare, spare: 0, ..c }
    } else {
        let end = c.next + n;
        MirrorCipherView { next: end, spare: (16 - end % 16) as nat % 16, ..c }
    }
}

impl MirrorCipher {
    pub closed spec fn wf(&self) -> bool {
        &&& self.next_crypt_count < 16
        &&& self.next_crypt_count > 0 ==> self.blocks > 0
        &&& forall|i: int|
            16 - self.next_crypt_count <= i < 16 ==> #[trigger] self.og@[i] == aes128_ctr_byte(
                self.key@,
                self.iv@,
                (16 * self.blocks - 16 + i) as nat,
            )
    }

    pub fn new(key: &[u8; 16], iv: &[u8; 16]) -> (r: MirrorCipher)
        ensures
            r.wf(),
            r@ == (MirrorCipherView { key: key@, iv: iv@, next: 0, spare: 0 }),
    {
        MirrorCipher { key: *key, iv: *iv, blocks: 0, og: [0u8; 16], next_crypt_count: 0 }
    }

    /// Whether the keystream suffices for one more frame of `n` bytes.
    pub fn has_room(&self, n: usize) -> (r: bool)
        requires
            self.wf(),
        ensures
            r == (self@.next + n <= keystream_end()),
    {
        if n <= self.next_crypt_count {
            return true;
        }
        let fresh: usize = n - self.next_crypt_count;
        let needed: usize = fresh / 16 + (if fresh % 16 > 0 {
            1
        } else {
            0
        });
        needed as u128 <= u128::MAX - self.blocks
    }

    /// The prefix of a frame under the unused end of the last block.
    fn use_spare(&self, payload: &[u8], n: usize) -> (r: Vec<u8>)
        requires
            self.wf(),
            n <= payload@.len(),
            n <= self.next_crypt_count,
        ensures
            r@ == keystreamed(self@.key, self@.iv, self@.next, payload@.take(n as int)),
    {
        let mut out: Vec<u8> = Vec::new();
        let start: usize = 16 - self.next_crypt_count;
        let mut i: usize = 0;
        let ghost want = keystreamed(self@.key, self@.iv, self@.next, payload@.take(n as int));
        while i < n
            invariant
                i <= n,
                self.wf(),
                n <= payload@.len(),
                n <= self.next_crypt_count,
                start == 16 - self.next_crypt_count,
                out@ =~= want.take(i as int),
                want == keystreamed(self@.key, self@.iv, self@.next, payload@.take(n as int)),
            decreases n - i,
        {
            out.push(payload[i] ^ self.og[start + i]);
            assert((16 * self.blocks - 16 + (start + i)) as nat == self@.next + i);
            i += 1;
            assert(out@ =~= want.take(i as int));
        }
        assert(want.take(n as int) =~= want);
        out
    }

    /// Draws a block for the last bytes of a frame, keeping the rest of it for the next frame.
    fn use_partial(&mut self, rest: &[u8]) -> (r: Vec<u8>)
        requires
            old(self).wf(),
            old(self).blocks < u128::MAX,
            old(self).next_crypt_count == 0,
            0 < rest@.len() < 16,
        ensures
            final(self).wf(),
            final(self).key == old(self).key,
            final(self).iv == old(self).iv,
            final(self).blocks == old(self).blocks + 1,
            final(self).next_crypt_count == 16 - rest@.len(),
            r@ == keystreamed(
                old(self).key@,
                old(self).iv@,
                (16 * old(self).blocks) as nat,
                rest@,
            ),
    {
        let n: usize = rest.len();
        let mut block: [u8; 16] = [0u8; 16];
        let mut i: usize = 0;
        while i < n
            invariant
                i <= n,
                n == rest@.len(),
                n < 16,
                forall|k: int| 0 <= k < i ==> block@[k] == rest@[k],
                forall|k: int| i <= k < 16 ==> block@[k] == 0,
            decreases n - i,
        {
            block[i] = rest[i];
            i += 1;
        }
        let drawn: Vec<u8> = aes128_ctr(&self.key, &self.iv, self.blocks, 0, &block);
        let out: Vec<u8> = slice_to_vec(slice_subrange(drawn.as_slice(), 0, n));
        self.og = array16(drawn.as_slice());
        self.blocks = self.blocks + 1;
        self.next_crypt_count = 16 - n;
        proof {
            assert(out@ =~= keystreamed(
                old(self).key@,
                old(self).iv@,
                (16 * old(self).blocks) as nat,
                rest@,
            ));
            assert forall|k: int| 16 - self.next_crypt_count <= k < 16 implies #[trigger] self.og@[k]
                == aes128_ctr_byte(self.key@, self.iv@, (16 * self.blocks - 16 + k) as nat) by {
                assert(block@[k] == 0);
                crate::bits::lemma_xor_zero(
                    aes128_ctr_byte(self.key@, self.iv@, (16 * self.blocks - 16 + k) as nat),
                );
            }
        }
        out
    }

    /// Encrypts from a block boundary on: whole blocks first, then what is left over.
    fn use_blocks(&mut self, payload: &[u8]) -> (r: Vec<u8>)
        requires
            old(self).wf(),
            old(self)@.next + payload@.len() <= keystream_end(),
            old(self).next_crypt_count == 0,
        ensures
            final(self).wf(),
            r@ == keystreamed(old(self)@.key, old(self)@.iv, old(self)@.next, payload@),
            final(self)@ == after_frame(old(self)@, payload@.len()),
    {
        let ghost key = self.key@;
        let ghost iv = self.iv@;
        let ghost start = (16 * self.blocks) as nat;
        let total: usize = payload.len();
        let full: usize = total - total % 16;
        let head: &[u8] = slice_subrange(payload, 0, full);
        let tail: &[u8] = slice_subrange(payload, full, total);
        let mut out: Vec<u8> = aes128_ctr(&self.key, &self.iv, self.blocks, 0, head);
        self.blocks = self.blocks + (full / 16) as u128;
        proof {
            assert(out@ =~= keystreamed(key, iv, start, head@));
            crate::pairing::raw::lemma_keystream_pieces(key, iv, start, head@, tail@);
            assert(head@ + tail@ =~= payload@);
        }
        if total % 16 > 0 {
            let rest: Vec<u8> = self.use_partial(tail);
            extend(&mut out, rest.as_slice());
        } else {
            assert(keystreamed(key, iv, start + full as nat, tail@) =~= Seq::<u8>::empty());
            assert(out@ + Seq::<u8>::empty() =~= out@);
        }
        out
    }

    /// Encrypts a frame: each byte under the keystream byte that comes next.
    pub fn encrypt_frame(&mut self, payload: &[u8]) -> (r: Vec<u8>)
        requires
            old(self).wf(),
            old(self)@.next + payload@.len() <= keystream_end(),
        ensures
            final(self).wf(),
            r@ == keystreamed(old(self)@.key, old(self)@.iv, old(self)@.next, payload@),
            final(self)@ == after_frame(old(self)@, payload@.len()),
    {
        let ghost start = old(self)@;
        let total: usize = payload.len();
        let spare: usize = self.next_crypt_count;
        let used: usize = if spare < total {
            spare
        } else {
            total
        };
        let mut out: Vec<u8> = self.use_spare(payload, used);
        self.next_crypt_count = 0;
        let tail: &[u8] = slice_subrange(payload, used, total);
        let rest: Vec<u8> = self.use_blocks(tail);
        extend(&mut out, rest.as_slice());
        proof {
            let head = payload@.take(used as int);
            assert(head + tail@ =~= payload@);
            crate::pairing::raw::lemma_keystream_pieces(
                start.key,
                start.iv,
                start.next,
                head,
                tail@,
            );
            if used < spare {
                assert(tail@ =~= Seq::<u8>::empty());
                assert(keystreamed(start.key, start.iv, start.next + used as nat, tail@) =~= rest@);
            }
        }
        out
    }
}

/// Encrypting a ciphertext from the same state gives the frame back: the receiver, whose cipher
/// walks in step, reads what was sent.
pub proof fn lemma_frame_involution(c: MirrorCipherView, payload: Seq<u8>)
    ensures
        keystreamed(c.key, c.iv, c.next, keystreamed(c.key, c.iv, c.next, payload)) == payload,
{
    crate::pairing::raw::lemma_keystream_involution(c.key, c.iv, c.next, payload);
}

/// No keystream byte serves twice: the next frame starts behind the end of this one.
pub proof fn lemma_keystream_moves_on(c: MirrorCipherView, n: nat)
    ensures
        after_frame(c, n).next >= c.next + n,
{
}

/// The cipher of the video channel.
pub enum VideoCipher {
    /// Frames go as they are.
    Clear,
    AesCtr(MirrorCipher),
    /// Each frame is sealed under its own counter, with the frame header as associated data.
    ChaCha { key: [u8; 32], nonce: u64 },
}

pub enum VideoCipherView {
    Clear,
    AesCtr(MirrorCipherView),
    ChaCha { key: Seq<u8>, nonce: u64 },
}

impl View for VideoCipher {
    type V = VideoCipherView;

    open spec fn view(&self) -> VideoCipherView {
        match *self {
            VideoCipher::Clear => VideoCipherView::Clear,
            VideoCipher::AesCtr(c) => VideoCipherView::AesCtr(c@),
            VideoCipher::ChaCha { key, nonce } => VideoCipherView::ChaCha { key: key@, nonce },
        }
    }
}

/// What a cipher makes of a frame, and the cipher after it; `None` when its keystream or counter is
/// used up or the frame is too long.
pub open spec fn sealed_frame(c: VideoCipherView, header: Seq<u8>, frame: Seq<u8>) -> Option<
    (Seq<u8>, VideoCipherView),
> {
    match c {
        VideoCipherView::Clear => Some((frame, c)),
        VideoCipherView::AesCtr(m) => if m.next + frame.len() <= keystream_end() {
            Some(
                (
                    keystreamed(m.key, m.iv, m.next, frame),
                    VideoCipherView::AesCtr(after_frame(m, frame.len())),
                ),
            )
        } else {
            None
        },
        VideoCipherView::ChaCha { key, nonce } => if nonce < u64::MAX && frame.len() <= AEAD_LIMIT {
            Some(
                (
                    aead_sealed(key, nonce_of(nonce), header, frame),
                    VideoCipherView::ChaCha { key, nonce: (nonce + 1) as u64 },
                ),
            )
        } else {
            None
        },
    }
}

impl VideoCipherView {
    /// How much longer than the frame its ciphertext is.
    pub open spec fn overhead(self) -> nat {
        match self {
            VideoCipherView::ChaCha { .. } => 16,
            _ => 0,
        }
    }
}

impl VideoCipher {
    pub open spec fn wf(&self) -> bool {
        match *self {
            VideoCipher::AesCtr(c) => c.wf(),
            _ => true,
        }
    }

    /// How much longer than the frame its ciphertext is.
    pub fn overhead(&self) -> (r: usize)
        ensures
            r == self@.overhead(),
    {
        match self {
            VideoCipher::ChaCha { .. } => 16,
            _ => 0,
        }
    }

    /// Encrypts a frame. A sealed frame opens again under the same key, counter and header.
    pub fn seal(&mut self, header: &[u8], frame: &[u8]) -> (r: Option<Vec<u8>>)
        requires
            old(self).wf(),
        ensures
            final(self).wf(),
            match sealed_frame(old(self)@, header@, frame@) {
                Some((bytes, next)) => r matches Some(out) && out@ == bytes && final(self)@ == next
                    && out@.len() == frame@.len() + old(self)@.overhead(),
                None => r is None && final(self)@ == old(self)@,
            },
            r matches Some(out) ==> old(self)@ matches VideoCipherView::ChaCha { key, nonce }
                ==> aead_opened(key, nonce_of(nonce), header@, out@) == Some(frame@),
    {
        match self {
            VideoCipher::Clear => Some(slice_to_vec(frame)),
            VideoCipher::AesCtr(cipher) => {
                if cipher.has_room(frame.len()) {
                    Some(cipher.encrypt_frame(frame))
                } else {
                    None
                }
            },
            VideoCipher::ChaCha { key, nonce } => {
                if *nonce == u64::MAX || frame.len() as u64 > AEAD_LIMIT {
                    return None;
                }
                let n: [u8; 12] = counter_nonce(*nonce);
                let out: Vec<u8> = aead_seal(key, &n, header, frame);
                *nonce = *nonce + 1;
                Some(out)
            },
        }
    }
}

/// The cipher of a session: none where it is switched off, ChaCha20-Poly1305 where the control
/// channel is encrypted under a shared secret, else AES in counter mode under the stream key.
pub open spec fn chosen_cipher(
    no_encrypt: bool,
    encrypted: bool,
    shared_secret: Seq<u8>,
    stream_key: Seq<u8>,
    id: i64,
) -> VideoCipherView {
    if no_encrypt {
        VideoCipherView::Clear
    } else if encrypted && shared_secret.len() > 0 {
        VideoCipherView::ChaCha { key: chacha_key_of(shared_secret, id), nonce: 0 }
    } else {
        VideoCipherView::AesCtr(
            MirrorCipherView {
                key: stream_material("AirPlayStreamKey", id, stream_key),
                iv: stream_material("AirPlayStreamIV", id, stream_key),
                next: 0,
                spare: 0,
            },
        )
    }
}

/// Picks the cipher of a session.
pub fn choose_cipher(
    no_encrypt: bool,
    encrypted: bool,
    shared_secret: &[u8],
    stream_key: &[u8; 16],
    id: i64,
) -> (r: VideoCipher)
    ensures
        r.wf(),
        r@ == chosen_cipher(no_encrypt, encrypted, shared_secret@, stream_key@, id),
{
    if no_encrypt {
        VideoCipher::Clear
    } else if encrypted && shared_secret.len() > 0 {
        VideoCipher::ChaCha { key: derive_chacha_key(shared_secret, id), nonce: 0 }
    } else {
        let (key, iv) = derive_video_keys(stream_key, id);
        VideoCipher::AesCtr(MirrorCipher::new(&key, &iv))
    }
}

} // verus!
