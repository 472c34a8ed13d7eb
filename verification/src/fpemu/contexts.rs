//! The hash and cipher contexts that the emulated program keeps by address.
use crate::bytes::{array16, array24, array32};
use crate::crypto::{aes128_ctr, aes192_ctr, aes256_ctr, keystream_end, sha1, sha512};
use vstd::prelude::*;
use vstd::slice::slice_to_vec;

verus! {

/// A hash in progress: the message so far.
pub enum ShaCtx {
    Sha1(Vec<u8>),
    Sha512(Vec<u8>),
}

/// The algorithm of a hash in progress, and its message so far.
pub enum ShaView {
    Sha1(Seq<u8>),
    Sha512(Seq<u8>),
}

impl View for ShaCtx {
    type V = ShaView;

    open spec fn view(&self) -> ShaView {
        match *self {
            ShaCtx::Sha1(m) => ShaView::Sha1(m@),
            ShaCtx::Sha512(m) => ShaView::Sha512(m@),
        }
    }
}

impl ShaView {
    /// The digest of the message.
    pub open spec fn digest(self) -> Seq<u8> {
        match self {
            ShaView::Sha1(m) => crate::crypto::sha1_of(m),
            ShaView::Sha512(m) => crate::crypto::sha512_of(m),
        }
    }

    /// The first 20 bytes of the digest, as the SHA-1 interface hands it out.
    pub open spec fn digest20(self) -> Seq<u8> {
        self.digest().take(20)
    }

    /// The digest filled up with zeros to 64 bytes, as the SHA-512 interface hands it out.
    pub open spec fn digest64(self) -> Seq<u8> {
        match self {
            ShaView::Sha1(_) => self.digest() + Seq::new(44, |i: int| 0u8),
            ShaView::Sha512(_) => self.digest(),
        }
    }
}

impl ShaCtx {
    pub fn digest20(&self) -> (r: Vec<u8>)
        ensures
            r@ == self@.digest20(),
            r@.len() == 20,
    {
        match self {
            ShaCtx::Sha1(m) => {
                let d: [u8; 20] = sha1(m.as_slice());
                assert(d@.take(20) =~= d@);
                slice_to_vec(&d)
            },
            ShaCtx::Sha512(m) => {
                let d: [u8; 64] = sha512(m.as_slice());
                let out = slice_to_vec(vstd::slice::slice_subrange(&d, 0, 20));
                assert(d@.subrange(0, 20) =~= d@.take(20));
                out
            },
        }
    }

    pub fn digest64(&self) -> (r: Vec<u8>)
        ensures
            r@ == self@.digest64(),
            r@.len() == 64,
    {
        match self {
            ShaCtx::Sha1(m) => {
                let d: [u8; 20] = sha1(m.as_slice());
                let mut out = slice_to_vec(&d);
                let mut fill: Vec<u8> = vec![0u8; 44];
                out.append(&mut fill);
                assert(out@ =~= d@ + Seq::new(44, |i: int| 0u8));
                out
            },
            ShaCtx::Sha512(m) => {
                let d: [u8; 64] = sha512(m.as_slice());
                slice_to_vec(&d)
            },
        }
    }
}

/// An AES key, by its length.
pub enum AesKey {
    Aes128([u8; 16]),
    Aes192([u8; 24]),
    Aes256([u8; 32]),
}

impl View for AesKey {
    type V = Seq<u8>;

    open spec fn view(&self) -> Seq<u8> {
        match *self {
            AesKey::Aes128(k) => k@,
            AesKey::Aes192(k) => k@,
            AesKey::Aes256(k) => k@,
        }
    }
}

/// An AES stream in counter mode: its key, its first counter block, and how much of the keystream
/// is used up, in blocks and further bytes.
pub struct AesCtrCtx {
    pub key: AesKey,
    pub iv: [u8; 16],
    pub blocks: u128,
    pub bytes: u8,
}

#[verifier::ext_equal]
pub struct AesCtrView {
    pub key: Seq<u8>,
    pub iv: Seq<u8>,
    pub position: nat,
}

impl View for AesCtrCtx {
    type V = AesCtrView;

    open spec fn view(&self) -> AesCtrView {
        AesCtrView {
            key: self.key@,
            iv: self.iv@,
            position: (16 * self.blocks + self.bytes) as nat,
        }
    }
}

/// One byte of the keystream, by the key's length.
pub open spec fn aes_ctr_byte(key: Seq<u8>, iv: Seq<u8>, position: nat) -> u8 {
    if key.len() == 16 {
        crate::crypto::aes128_ctr_byte(key, iv, position)
    } else if key.len() == 24 {
        crate::crypto::aes192_ctr_byte(key, iv, position)
    } else {
        crate::crypto::aes256_ctr_byte(key, iv, position)
    }
}

impl AesCtrView {
    /// `data` under the keystream from the current position on.
    pub open spec fn applied(self, data: Seq<u8>) -> Seq<u8> {
        Seq::new(
            data.len(),
            |i: int| data[i] ^ aes_ctr_byte(self.key, self.iv, (self.position + i) as nat),
        )
    }

    /// The stream once `n` more bytes are used up.
    pub open spec fn after(self, n: nat) -> AesCtrView {
        AesCtrView { position: self.position + n, ..self }
    }

    /// Whether the keystream suffices for `n` more bytes.
    pub open spec fn has_room(self, n: nat) -> bool {
        self.position + n <= keystream_end()
    }
}

impl AesCtrCtx {
    /// A stream at its start; `None` when the key has none of the three lengths of AES.
    pub fn new(key: &[u8], iv: &[u8; 16]) -> (r: Option<AesCtrCtx>)
        ensures
            r is Some <==> key@.len() == 16 || key@.len() == 24 || key@.len() == 32,
            r matches Some(c) ==> c@ == (AesCtrView { key: key@, iv: iv@, position: 0 }),
    {
        let key = if key.len() == 16 {
            AesKey::Aes128(array16(key))
        } else if key.len() == 24 {
            AesKey::Aes192(array24(key))
        } else if key.len() == 32 {
            AesKey::Aes256(array32(key))
        } else {
            return None;
        };
        Some(AesCtrCtx { key, iv: *iv, blocks: 0, bytes: 0 })
    }

    /// Whether the keystream suffices for `n` more bytes.
    pub fn has_room(&self, n: usize) -> (r: bool)
        ensures
            r == self@.has_room(n as nat),
    {
        let used: u128 = self.bytes as u128 + n as u128;
        let needed: u128 = used / 16 + (if used % 16 > 0 {
            1
        } else {
            0
        });
        needed <= u128::MAX - self.blocks
    }

    /// Applies the keystream to `data` and moves past the bytes used.
    pub fn apply_keystream(&mut self, data: &[u8]) -> (r: Vec<u8>)
        requires
            old(self)@.has_room(data@.len()),
        ensures
            r@ == old(self)@.applied(data@),
            final(self)@ == old(self)@.after(data@.len()),
    {
        let block: u128 = self.blocks + (self.bytes / 16) as u128;
        let skip: usize = (self.bytes % 16) as usize;
        let out = match &self.key {
            AesKey::Aes128(key) => aes128_ctr(key, &self.iv, block, skip, data),
            AesKey::Aes192(key) => aes192_ctr(key, &self.iv, block, skip, data),
            AesKey::Aes256(key) => aes256_ctr(key, &self.iv, block, skip, data),
        };
        assert(out@ =~= old(self)@.applied(data@));
        let used: u128 = skip as u128 + data.len() as u128;
        self.blocks = block + used / 16;
        self.bytes = (used % 16) as u8;
        out
    }
}

/// Applying the same stretch of keystream twice gives the data back.
pub proof fn lemma_keystream_involution(stream: AesCtrView, data: Seq<u8>)
    ensures
        stream.applied(stream.applied(data)) == data,
{
    let twice = stream.applied(stream.applied(data));
    assert forall|i: int| 0 <= i < data.len() implies twice[i] == data[i] by {
        crate::bits::lemma_xor_involution(
            data[i],
            aes_ctr_byte(stream.key, stream.iv, (stream.position + i) as nat),
        );
    }
    assert(twice =~= data);
}

/// A stream applied piece by piece gives the same bytes as applied to the whole.
pub proof fn lemma_keystream_pieces(stream: AesCtrView, a: Seq<u8>, b: Seq<u8>)
    ensures
        stream.applied(a) + stream.after(a.len()).applied(b) == stream.applied(a + b),
{
    let pieces = stream.applied(a) + stream.after(a.len()).applied(b);
    let whole = stream.applied(a + b);
    assert forall|i: int| 0 <= i < whole.len() implies pieces[i] == whole[i] by {
        if i >= a.len() {
            assert(stream.after(a.len()).position + (i - a.len()) == stream.position + i);
        }
    }
    assert(pieces =~= whole);
}

} // verus!
