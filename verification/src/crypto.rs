//! Calls into the cryptographic crates.
//!
//! Each function here hands plain bytes to one outside function and takes plain bytes back. The
//! results are named by spec functions without a body: the library proves what is fed to each
//! primitive and what is done with its result, not the primitive itself.
use chacha20poly1305::aead::{Aead, KeyInit, Payload};
use cbc::cipher::block_padding::NoPadding;
use cbc::cipher::BlockEncryptMut;
use ctr::cipher::{
    KeyIvInit, StreamCipher, StreamCipherCoreWrapper, StreamCipherSeek, StreamCipherSeekCore,
};
use ed25519_dalek::{Signer, Verifier};
use poly1305::universal_hash::UniversalHash;
use rand::RngCore;
use sha1::Digest;
use vstd::prelude::*;

verus! {

/// The SHA-1 digest of a message.
pub uninterp spec fn sha1_of(message: Seq<u8>) -> Seq<u8>;

/// The SHA-512 digest of a message.
pub uninterp spec fn sha512_of(message: Seq<u8>) -> Seq<u8>;

/// One byte of the AES-128 keystream in counter mode, at a byte position.
pub uninterp spec fn aes128_ctr_byte(key: Seq<u8>, iv: Seq<u8>, position: nat) -> u8;

/// One byte of the AES-192 keystream in counter mode, at a byte position.
pub uninterp spec fn aes192_ctr_byte(key: Seq<u8>, iv: Seq<u8>, position: nat) -> u8;

/// One byte of the AES-256 keystream in counter mode, at a byte position.
pub uninterp spec fn aes256_ctr_byte(key: Seq<u8>, iv: Seq<u8>, position: nat) -> u8;

/// Calls `fill_bytes` of `rand::thread_rng`: as many bytes as asked for. What they are is left to
/// chance.
#[verifier::external_body]
pub(crate) fn random_bytes(n: usize) -> (r: Vec<u8>)
    ensures
        r@.len() == n,
{
    let mut out = vec![0u8; n];
    rand::thread_rng().fill_bytes(&mut out);
    out
}

/// Calls `sha1::Sha1::digest`: the digest of the whole message, 20 bytes that depend on the
/// message alone.
#[verifier::external_body]
pub(crate) fn sha1(message: &[u8]) -> (r: [u8; 20])
    ensures
        r@ == sha1_of(message@),
{
    sha1::Sha1::digest(message).into()
}

/// Calls `sha2::Sha512::digest`: the digest of the whole message, 64 bytes that depend on the
/// message alone.
#[verifier::external_body]
pub(crate) fn sha512(message: &[u8]) -> (r: [u8; 64])
    ensures
        r@ == sha512_of(message@),
{
    sha2::Sha512::digest(message).into()
}

/// How many bytes of keystream counter mode gives: 16 for each number below the largest of its
/// 128-bit block counter.
pub open spec fn keystream_end() -> nat {
    16 * (u128::MAX as nat)
}

/// Calls `ctr::CtrCore` over `aes::Aes128` with `ctr::flavors::Ctr128BE`, setting the block number
/// and then applying the keystream to the bytes to skip and to the data: each byte is exclusive-ored
/// with the keystream byte at its own position, which depends on the key, the initial counter block
/// and the position alone. Past the end of the keystream the call panics.
#[verifier::external_body]
pub(crate) fn aes128_ctr(key: &[u8; 16], iv: &[u8; 16], block: u128, skip: usize, data: &[u8]) -> (r:
    Vec<u8>)
    requires
        skip < 16,
        16 * block + skip + data@.len() <= keystream_end(),
    ensures
        r@.len() == data@.len(),
        forall|i: int|
            0 <= i < data@.len() ==> #[trigger] r@[i] == data@[i] ^ aes128_ctr_byte(
                key@,
                iv@,
                (16 * block + skip + i) as nat,
            ),
{
    let mut core = ctr::CtrCore::<aes::Aes128, ctr::flavors::Ctr128BE>::new(key.into(), iv.into());
    core.set_block_pos(block);
    let mut cipher = StreamCipherCoreWrapper::from_core(core);
    cipher.apply_keystream(&mut vec![0u8; skip]);
    let mut out = data.to_vec();
    cipher.apply_keystream(&mut out);
    out
}

/// Calls `ctr::CtrCore` over `aes::Aes192`; the claim is that of `aes128_ctr`.
#[verifier::external_body]
pub(crate) fn aes192_ctr(key: &[u8; 24], iv: &[u8; 16], block: u128, skip: usize, data: &[u8]) -> (r:
    Vec<u8>)
    requires
        skip < 16,
        16 * block + skip + data@.len() <= keystream_end(),
    ensures
        r@.len() == data@.len(),
        forall|i: int|
            0 <= i < data@.len() ==> #[trigger] r@[i] == data@[i] ^ aes192_ctr_byte(
                key@,
                iv@,
                (16 * block + skip + i) as nat,
            ),
{
    let mut core = ctr::CtrCore::<aes::Aes192, ctr::flavors::Ctr128BE>::new(key.into(), iv.into());
    core.set_block_pos(block);
    let mut cipher = StreamCipherCoreWrapper::from_core(core);
    cipher.apply_keystream(&mut vec![0u8; skip]);
    let mut out = data.to_vec();
    cipher.apply_keystream(&mut out);
    out
}

/// Calls `ctr::CtrCore` over `aes::Aes256`; the claim is that of `aes128_ctr`.
#[verifier::external_body]
pub(crate) fn aes256_ctr(key: &[u8; 32], iv: &[u8; 16], block: u128, skip: usize, data: &[u8]) -> (r:
    Vec<u8>)
    requires
        skip < 16,
        16 * block + skip + data@.len() <= keystream_end(),
    ensures
        r@.len() == data@.len(),
        forall|i: int|
            0 <= i < data@.len() ==> #[trigger] r@[i] == data@[i] ^ aes256_ctr_byte(
                key@,
                iv@,
                (16 * block + skip + i) as nat,
            ),
{
    let mut core = ctr::CtrCore::<aes::Aes256, ctr::flavors::Ctr128BE>::new(key.into(), iv.into());
    core.set_block_pos(block);
    let mut cipher = StreamCipherCoreWrapper::from_core(core);
    cipher.apply_keystream(&mut vec![0u8; skip]);
    let mut out = data.to_vec();
    cipher.apply_keystream(&mut out);
    out
}

/// The key material that HKDF over SHA-512 derives.
pub uninterp spec fn hkdf_sha512_of(
    secret: Seq<u8>,
    salt: Seq<u8>,
    info: Seq<u8>,
    length: nat,
) -> Seq<u8>;

/// Calls `hkdf::Hkdf::<Sha512>::new` and `expand`: as many bytes as asked for, which depend on the
/// secret, the salt, the info and the length alone. HKDF yields at most 255 blocks of 64 bytes.
#[verifier::external_body]
pub(crate) fn hkdf_sha512(secret: &[u8], salt: &[u8], info: &[u8], length: usize) -> (r: Vec<u8>)
    requires
        length <= 16320,
    ensures
        r@ == hkdf_sha512_of(secret@, salt@, info@, length as nat),
        r@.len() == length,
{
    let mut okm = vec![0u8; length];
    hkdf::Hkdf::<sha2::Sha512>::new(Some(salt), secret).expand(info, &mut okm).expect("length");
    okm
}

/// The longest message that ChaCha20-Poly1305 seals: one block short of what its 32-bit block
/// counter can number.
pub const AEAD_LIMIT: u64 = 0x3f_ffff_ff80;

/// A message sealed with ChaCha20-Poly1305: the ciphertext and its 16-byte tag.
pub uninterp spec fn aead_sealed(
    key: Seq<u8>,
    nonce: Seq<u8>,
    aad: Seq<u8>,
    message: Seq<u8>,
) -> Seq<u8>;

/// What opening a sealed message with ChaCha20-Poly1305 gives; `None` when it does not
/// authenticate.
pub uninterp spec fn aead_opened(
    key: Seq<u8>,
    nonce: Seq<u8>,
    aad: Seq<u8>,
    sealed: Seq<u8>,
) -> Option<Seq<u8>>;

/// Calls `encrypt` of `chacha20poly1305::ChaCha20Poly1305`. Within the limit it always succeeds;
/// the result is 16 bytes longer than the message and opens to it again under the same key, nonce
/// and associated data.
#[verifier::external_body]
pub(crate) fn aead_seal(key: &[u8; 32], nonce: &[u8; 12], aad: &[u8], message: &[u8]) -> (r: Vec<
    u8,
>)
    requires
        message@.len() <= AEAD_LIMIT,
    ensures
        r@ == aead_sealed(key@, nonce@, aad@, message@),
        r@.len() == message@.len() + 16,
        aead_opened(key@, nonce@, aad@, r@) == Some(message@),
{
    let cipher = chacha20poly1305::ChaCha20Poly1305::new(key.into());
    cipher.encrypt(nonce.into(), Payload { msg: message, aad }).expect("length")
}

/// Calls `decrypt` of `chacha20poly1305::ChaCha20Poly1305`: `None` when the message does not
/// authenticate, else the message, 16 bytes shorter. Only a sealing of that message opens to it.
#[verifier::external_body]
pub(crate) fn aead_open(key: &[u8; 32], nonce: &[u8; 12], aad: &[u8], sealed: &[u8]) -> (r: Option<
    Vec<u8>,
>)
    requires
        sealed@.len() <= AEAD_LIMIT + 16,
    ensures
        match r {
            Some(message) => aead_opened(key@, nonce@, aad@, sealed@) == Some(message@)
                && message@.len() + 16 == sealed@.len() && sealed@ == aead_sealed(
                key@,
                nonce@,
                aad@,
                message@,
            ),
            None => aead_opened(key@, nonce@, aad@, sealed@) is None,
        },
{
    let cipher = chacha20poly1305::ChaCha20Poly1305::new(key.into());
    cipher.decrypt(nonce.into(), Payload { msg: sealed, aad }).ok()
}

/// The Ed25519 public key of a seed.
pub uninterp spec fn ed25519_public_of(seed: Seq<u8>) -> Seq<u8>;

/// The Ed25519 signature of a message under a seed.
pub uninterp spec fn ed25519_signature_of(seed: Seq<u8>, message: Seq<u8>) -> Seq<u8>;

/// Whether an Ed25519 signature of a message holds under a public key.
pub uninterp spec fn ed25519_verifies(
    public: Seq<u8>,
    message: Seq<u8>,
    signature: Seq<u8>,
) -> bool;

/// Calls `ed25519_dalek::SigningKey::from_bytes` and `verifying_key`: the public key of a seed,
/// which depends on the seed alone.
#[verifier::external_body]
pub(crate) fn ed25519_public(seed: &[u8; 32]) -> (r: [u8; 32])
    ensures
        r@ == ed25519_public_of(seed@),
{
    ed25519_dalek::SigningKey::from_bytes(seed).verifying_key().to_bytes()
}

/// Calls `sign` of `ed25519_dalek::SigningKey`: the signature depends on the seed and the message
/// alone, and holds under the seed's public key.
#[verifier::external_body]
pub(crate) fn ed25519_sign(seed: &[u8; 32], message: &[u8]) -> (r: [u8; 64])
    ensures
        r@ == ed25519_signature_of(seed@, message@),
        ed25519_verifies(ed25519_public_of(seed@), message@, r@),
{
    ed25519_dalek::SigningKey::from_bytes(seed).sign(message).to_bytes()
}

/// Calls `ed25519_dalek::VerifyingKey::from_bytes` and `verify`: whether the bytes are a public key
/// and the signature holds under it.
#[verifier::external_body]
pub(crate) fn ed25519_verify(public: &[u8; 32], message: &[u8], signature: &[u8; 64]) -> (r: bool)
    ensures
        r == ed25519_verifies(public@, message@, signature@),
{
    match ed25519_dalek::VerifyingKey::from_bytes(public) {
        Ok(key) => key.verify(message, &ed25519_dalek::Signature::from_bytes(signature)).is_ok(),
        Err(_) => false,
    }
}

/// The X25519 public key of a secret.
pub uninterp spec fn x25519_public_of(secret: Seq<u8>) -> Seq<u8>;

/// The X25519 secret that two parties share.
pub uninterp spec fn x25519_shared_of(secret: Seq<u8>, public: Seq<u8>) -> Seq<u8>;

/// Calls `x25519_dalek::PublicKey::from` on a `StaticSecret`: the public key of a secret, which
/// depends on the secret alone.
#[verifier::external_body]
pub(crate) fn x25519_public(secret: &[u8; 32]) -> (r: [u8; 32])
    ensures
        r@ == x25519_public_of(secret@),
{
    x25519_dalek::PublicKey::from(&x25519_dalek::StaticSecret::from(*secret)).to_bytes()
}

/// Calls `diffie_hellman` of `x25519_dalek::StaticSecret`: the shared secret depends on the own
/// secret and the other public key alone, and the other party reaches the same one.
#[verifier::external_body]
pub(crate) fn x25519_shared(secret: &[u8; 32], public: &[u8; 32]) -> (r: [u8; 32])
    ensures
        r@ == x25519_shared_of(secret@, public@),
        forall|other: Seq<u8>|
            other.len() == 32 && public@ == #[trigger] x25519_public_of(other) ==> r@
                == x25519_shared_of(other, x25519_public_of(secret@)),
{
    let secret = x25519_dalek::StaticSecret::from(*secret);
    secret.diffie_hellman(&x25519_dalek::PublicKey::from(*public)).to_bytes()
}

/// How far the keystream of ChaCha20 reaches: its block counter has 32 bits.
pub const CHACHA_LIMIT: u64 = 0x3f_ffff_ffc0;

/// One byte of the keystream of ChaCha20 with a nonce of 8 bytes, at a byte position.
pub uninterp spec fn chacha_legacy_byte(key: Seq<u8>, nonce: Seq<u8>, position: nat) -> u8;

/// Calls `chacha20::ChaCha20Legacy`, seeking to a block and applying the keystream: each byte is
/// exclusive-ored with the keystream byte at its own position, which depends on the key, the nonce
/// and the position alone. The cipher panics beyond the limit, so that is left out.
#[verifier::external_body]
pub(crate) fn chacha_legacy(key: &[u8; 32], nonce: &[u8; 8], position: u64, data: &[u8]) -> (r: Vec<
    u8,
>)
    requires
        position % 64 == 0,
        position + data@.len() <= CHACHA_LIMIT,
    ensures
        r@.len() == data@.len(),
        forall|i: int|
            0 <= i < data@.len() ==> #[trigger] r@[i] == data@[i] ^ chacha_legacy_byte(
                key@,
                nonce@,
                (position + i) as nat,
            ),
{
    let mut cipher = chacha20::ChaCha20Legacy::new(key.into(), nonce.into());
    cipher.seek(position);
    let mut out = data.to_vec();
    cipher.apply_keystream(&mut out);
    out
}

/// The Poly1305 tag of a message of whole blocks.
pub uninterp spec fn poly1305_of(key: Seq<u8>, message: Seq<u8>) -> Seq<u8>;

/// Calls `poly1305::Poly1305`, feeding it whole blocks of 16 bytes: the tag depends on the key and
/// the message alone.
#[verifier::external_body]
pub(crate) fn poly1305_tag(key: &[u8; 32], message: &[u8]) -> (r: [u8; 16])
    requires
        message@.len() % 16 == 0,
    ensures
        r@ == poly1305_of(key@, message@),
{
    let mut poly = poly1305::Poly1305::new(key.into());
    poly.update_padded(message);
    poly.finalize().into()
}

/// A message of whole blocks encrypted with AES-128 in cipher block chaining.
pub uninterp spec fn aes128_cbc_of(key: Seq<u8>, iv: Seq<u8>, message: Seq<u8>) -> Seq<u8>;

/// Calls `encrypt_padded_b2b_mut` of `cbc::Encryptor` over `aes::Aes128`, without padding: the
/// result is as long as the message and depends on the key, the initialisation vector and the
/// message alone.
#[verifier::external_body]
pub(crate) fn aes128_cbc(key: &[u8; 16], iv: &[u8; 16], message: &[u8]) -> (r: Vec<u8>)
    requires
        message@.len() % 16 == 0,
    ensures
        r@ == aes128_cbc_of(key@, iv@, message@),
        r@.len() == message@.len(),
{
    let mut out = vec![0u8; message.len()];
    let cipher = cbc::Encryptor::<aes::Aes128>::new(key.into(), iv.into());
    cipher.encrypt_padded_b2b_mut::<NoPadding>(message, &mut out).expect("whole blocks");
    out
}

} // verus!
