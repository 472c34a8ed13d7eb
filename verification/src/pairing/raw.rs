//! The raw variants of pair-setup and pair-verify, which leave the control channel in the clear.
use crate::bytes::{array32, array64, extend};
use crate::crypto::{
    aes128_ctr, aes128_ctr_byte, ed25519_sign, ed25519_signature_of, ed25519_verifies,
    ed25519_verify, random_bytes, sha512, sha512_of, x25519_public, x25519_public_of, x25519_shared,
    x25519_shared_of,
};
use crate::pairing::{action_view, identity_of, PairAction, PairError, PairKeys, PairKeysView};
use vstd::prelude::*;
use vstd::slice::{slice_subrange, slice_to_vec};
use vstd::utf8::encode_utf8;

verus! {

/// The 16 bytes that a label and a secret give.
pub open spec fn derived16(salt: Seq<char>, secret: Seq<u8>) -> Seq<u8> {
    sha512_of(encode_utf8(salt) + secret).take(16)
}

/// Derives 16 bytes from a label and a secret.
pub fn sha512_derive_key16(salt: &str, secret: &[u8]) -> (r: [u8; 16])
    ensures
        r@ == derived16(salt@, secret@),
{
    let mut message: Vec<u8> = slice_to_vec(salt.as_bytes());
    extend(&mut message, secret);
    let digest: [u8; 64] = sha512(message.as_slice());
    assert(digest@.subrange(0, 16) =~= digest@.take(16));
    crate::bytes::array16(slice_subrange(&digest, 0, 16))
}

/// `data` under the AES-128 keystream from a byte position on.
pub open spec fn keystreamed(key: Seq<u8>, iv: Seq<u8>, position: nat, data: Seq<u8>) -> Seq<u8> {
    Seq::new(data.len(), |i: int| data[i] ^ aes128_ctr_byte(key, iv, (position + i) as nat))
}

/// Applies the AES-128 keystream from a byte position on.
pub fn apply_keystream(key: &[u8; 16], iv: &[u8; 16], position: u64, data: &[u8]) -> (r: Vec<u8>)
    ensures
        r@ == keystreamed(key@, iv@, position as nat, data@),
{
    assert(data@.len() == data.len());
    let out: Vec<u8> = aes128_ctr(key, iv, (position / 16) as u128, (position % 16) as usize, data);
    assert(out@ =~= keystreamed(key@, iv@, position as nat, data@));
    out
}

/// Applying one stretch of the keystream twice gives the data back.
pub proof fn lemma_keystream_involution(key: Seq<u8>, iv: Seq<u8>, position: nat, data: Seq<u8>)
    ensures
        keystreamed(key, iv, position, keystreamed(key, iv, position, data)) == data,
{
    let twice = keystreamed(key, iv, position, keystreamed(key, iv, position, data));
    assert forall|i: int| 0 <= i < data.len() implies twice[i] == data[i] by {
        crate::bits::lemma_xor_involution(
            data[i],
            aes128_ctr_byte(key, iv, (position + i) as nat),
        );
    }
    assert(twice =~= data);
}

/// One keystream over two pieces in a row is the keystream over each piece at its own position.
pub proof fn lemma_keystream_pieces(
    key: Seq<u8>,
    iv: Seq<u8>,
    position: nat,
    a: Seq<u8>,
    b: Seq<u8>,
)
    ensures
        keystreamed(key, iv, position, a + b) == keystreamed(key, iv, position, a) + keystreamed(
            key,
            iv,
            position + a.len(),
            b,
        ),
{
    let whole = keystreamed(key, iv, position, a + b);
    let pieces = keystreamed(key, iv, position, a) + keystreamed(key, iv, position + a.len(), b);
    assert forall|i: int| 0 <= i < whole.len() implies whole[i] == pieces[i] by {
        if i >= a.len() {
            assert(position + a.len() + (i - a.len()) == position + i);
        }
    }
    assert(whole =~= pieces);
}

/// Starts raw pair-setup with a fresh identity: the keys, and the message to post, which is the
/// public key itself.
pub fn raw_pair_setup() -> (r: (PairKeys, Vec<u8>))
    ensures
        exists|seed: Seq<u8>| seed.len() == 32 && r.0@ == #[trigger] identity_of(seed),
        r.1@ == r.0@.ed25519_public,
        r.1@.len() == 32,
{
    let seed: [u8; 32] = array32(random_bytes(32).as_slice());
    let keys = PairKeys::from_seed(&seed);
    assert(keys@ == identity_of(seed@));
    let message: Vec<u8> = slice_to_vec(keys.ed25519_public.as_slice());
    (keys, message)
}

/// Takes the reply of raw pair-setup: the receiver's public key, exactly 32 bytes.
pub fn raw_setup_reply(body: &[u8]) -> (r: Result<[u8; 32], PairError>)
    ensures
        if body@.len() == 32 {
            r matches Ok(public) && public@ == body@
        } else {
            r is Err && r->Err_0 == (PairError::RawSetupLength { len: body@.len() as usize })
        },
{
    if body.len() != 32 {
        return Err(PairError::RawSetupLength { len: body.len() });
    }
    Ok(array32(body))
}

/// The first message of raw pair-verify: four flag bytes and the sender's two public keys.
pub open spec fn raw_v1(x25519: Seq<u8>, ed25519: Seq<u8>) -> Seq<u8> {
    seq![1u8, 0u8, 0u8, 0u8] + x25519 + ed25519
}

pub fn raw_verify_v1(x25519: &[u8; 32], ed25519: &[u8; 32]) -> (r: Vec<u8>)
    ensures
        r@ == raw_v1(x25519@, ed25519@),
        r@.len() == 68,
{
    let mut out: Vec<u8> = vec![1u8, 0u8, 0u8, 0u8];
    extend(&mut out, x25519);
    extend(&mut out, ed25519);
    assert(out@ =~= raw_v1(x25519@, ed25519@));
    out
}

/// The third message of raw pair-verify: four zero bytes and the sender's sealed signature.
pub open spec fn raw_v3(sealed: Seq<u8>) -> Seq<u8> {
    seq![0u8, 0u8, 0u8, 0u8] + sealed
}

pub fn raw_verify_v3(sealed: &[u8]) -> (r: Vec<u8>)
    ensures
        r@ == raw_v3(sealed@),
        r@.len() == 4 + sealed@.len(),
{
    let mut out: Vec<u8> = vec![0u8, 0u8, 0u8, 0u8];
    extend(&mut out, sealed);
    assert(out@ =~= raw_v3(sealed@));
    out
}

/// Where raw pair-verify stands: which reply comes next.
pub enum RawPhase {
    AwaitV2,
    /// The shared secret is known.
    AwaitV4([u8; 32]),
    Done,
}

pub enum RawPhaseView {
    AwaitV2,
    AwaitV4(Seq<u8>),
    Done,
}

impl View for RawPhase {
    type V = RawPhaseView;

    open spec fn view(&self) -> RawPhaseView {
        match *self {
            RawPhase::AwaitV2 => RawPhaseView::AwaitV2,
            RawPhase::AwaitV4(shared) => RawPhaseView::AwaitV4(shared@),
            RawPhase::Done => RawPhaseView::Done,
        }
    }
}

/// A raw pair-verify in progress.
pub struct RawPairVerify {
    /// The ephemeral X25519 secret.
    pub secret: [u8; 32],
    /// The receiver's long-term public key; shorter than 32 bytes when it is not available.
    pub server_key: Vec<u8>,
    pub keys: PairKeys,
    pub phase: RawPhase,
}

#[verifier::ext_equal]
pub struct RawPairVerifyView {
    pub secret: Seq<u8>,
    pub server_key: Seq<u8>,
    pub keys: PairKeysView,
    pub phase: RawPhaseView,
}

impl View for RawPairVerify {
    type V = RawPairVerifyView;

    open spec fn view(&self) -> RawPairVerifyView {
        RawPairVerifyView {
            secret: self.secret@,
            server_key: self.server_key@,
            keys: self.keys@,
            phase: self.phase@,
        }
    }
}

/// What a reply does to a raw pair-verify. The second message brings the receiver's ephemeral key
/// and its signature, under the first 64 bytes of a keystream that the shared secret gives; the
/// sender's signature goes out under the next 64. A long-term key of fewer than 32 bytes counts as
/// unavailable, and the receiver's signature is then not checked.
pub open spec fn raw_verify_reply(s: RawPairVerifyView, body: Seq<u8>) -> Result<
    (RawPairVerifyView, Option<Seq<u8>>),
    PairError,
> {
    match s.phase {
        RawPhaseView::AwaitV2 => {
            let server_public = body.take(32);
            let client_public = x25519_public_of(s.secret);
            let shared = x25519_shared_of(s.secret, server_public);
            let key = derived16("Pair-Verify-AES-Key"@, shared);
            let iv = derived16("Pair-Verify-AES-IV"@, shared);
            if body.len() != 96 {
                Err(PairError::RawV2Length { len: body.len() as usize })
            } else if s.server_key.len() >= 32 && !ed25519_verifies(
                s.server_key.take(32),
                server_public + client_public,
                keystreamed(key, iv, 0, body.skip(32)),
            ) {
                Err(PairError::BadSignature)
            } else if s.keys.ed25519_seed.len() != 32 {
                Err(PairError::BadSeed)
            } else {
                let signature = ed25519_signature_of(
                    s.keys.ed25519_seed,
                    client_public + server_public,
                );
                Ok(
                    (
                        RawPairVerifyView { phase: RawPhaseView::AwaitV4(shared), ..s },
                        Some(raw_v3(keystreamed(key, iv, 64, signature))),
                    ),
                )
            }
        },
        RawPhaseView::AwaitV4(shared) => Ok(
            (
                RawPairVerifyView {
                    phase: RawPhaseView::Done,
                    keys: PairKeysView { shared_secret: shared, ..s.keys },
                    ..s
                },
                None,
            ),
        ),
        RawPhaseView::Done => Err(PairError::Finished),
    }
}

/// Starts raw pair-verify against a receiver's long-term key with a fresh ephemeral key. The second
/// result is the first message to post. It fails when the own public key does not have 32 bytes.
pub fn raw_pair_verify(keys: PairKeys, server_key: &[u8]) -> (r: Result<
    (RawPairVerify, Vec<u8>),
    PairError,
>)
    ensures
        keys@.ed25519_public.len() != 32 ==> r is Err && r->Err_0 == PairError::BadPublicKey,
        keys@.ed25519_public.len() == 32 ==> exists|secret: Seq<u8>|
            secret.len() == 32 && r is Ok && r->Ok_0.0@ == (RawPairVerifyView {
                secret,
                server_key: server_key@,
                keys: keys@,
                phase: RawPhaseView::AwaitV2,
            }) && r->Ok_0.1@ == raw_v1(#[trigger] x25519_public_of(secret), keys@.ed25519_public)
                && r->Ok_0.1@.len() == 68,
{
    let secret: [u8; 32] = array32(random_bytes(32).as_slice());
    raw_pair_verify_with(keys, server_key, &secret)
}

/// Starts raw pair-verify with a given ephemeral secret.
pub fn raw_pair_verify_with(keys: PairKeys, server_key: &[u8], secret: &[u8; 32]) -> (r: Result<
    (RawPairVerify, Vec<u8>),
    PairError,
>)
    ensures
        if keys@.ed25519_public.len() != 32 {
            r is Err && r->Err_0 == PairError::BadPublicKey
        } else {
            r is Ok && r->Ok_0.0@ == (RawPairVerifyView {
                secret: secret@,
                server_key: server_key@,
                keys: keys@,
                phase: RawPhaseView::AwaitV2,
            }) && r->Ok_0.1@ == raw_v1(x25519_public_of(secret@), keys@.ed25519_public)
                && r->Ok_0.1@.len() == 68
        },
{
    if keys.ed25519_public.len() != 32 {
        return Err(PairError::BadPublicKey);
    }
    let own: [u8; 32] = x25519_public(secret);
    let ed25519: [u8; 32] = array32(keys.ed25519_public.as_slice());
    let v1: Vec<u8> = raw_verify_v1(&own, &ed25519);
    let machine = RawPairVerify {
        secret: *secret,
        server_key: slice_to_vec(server_key),
        keys,
        phase: RawPhase::AwaitV2,
    };
    Ok((machine, v1))
}

fn joined(a: &[u8; 32], b: &[u8; 32]) -> (r: Vec<u8>)
    ensures
        r@ == a@ + b@,
{
    let mut out: Vec<u8> = slice_to_vec(a);
    extend(&mut out, b);
    out
}

impl RawPairVerify {
    fn take_v2(&self, body: &[u8]) -> (r: Result<([u8; 32], Vec<u8>), PairError>)
        requires
            self@.phase is AwaitV2,
        ensures
            match raw_verify_reply(self@, body@) {
                Ok((next, message)) => r matches Ok(found) && next == (RawPairVerifyView {
                    phase: RawPhaseView::AwaitV4(found.0@),
                    ..self@
                }) && message == Some(found.1@) && found.1@.len() == 68,
                Err(e) => r is Err && r->Err_0 == e,
            },
    {
        if body.len() != 96 {
            return Err(PairError::RawV2Length { len: body.len() });
        }
        assert(body@.subrange(0, 32) =~= body@.take(32));
        assert(body@.subrange(32, 96) =~= body@.skip(32));
        let public: [u8; 32] = array32(slice_subrange(body, 0, 32));
        let own: [u8; 32] = x25519_public(&self.secret);
        let shared: [u8; 32] = x25519_shared(&self.secret, &public);
        let key: [u8; 16] = sha512_derive_key16("Pair-Verify-AES-Key", &shared);
        let iv: [u8; 16] = sha512_derive_key16("Pair-Verify-AES-IV", &shared);
        let opened: Vec<u8> = apply_keystream(&key, &iv, 0, slice_subrange(body, 32, 96));
        let signature: [u8; 64] = array64(opened.as_slice());
        if self.server_key.len() >= 32 {
            assert(self.server_key@.subrange(0, 32) =~= self.server_key@.take(32));
            let server_key: [u8; 32] = array32(slice_subrange(self.server_key.as_slice(), 0, 32));
            if !ed25519_verify(&server_key, joined(&public, &own).as_slice(), &signature) {
                return Err(PairError::BadSignature);
            }
        }
        let seed: [u8; 32] = match self.keys.signing_seed() {
            Some(seed) => seed,
            None => {
                return Err(PairError::BadSeed);
            },
        };
        let proof_bytes: [u8; 64] = ed25519_sign(&seed, joined(&own, &public).as_slice());
        let sealed: Vec<u8> = apply_keystream(&key, &iv, 64, &proof_bytes);
        Ok((shared, raw_verify_v3(sealed.as_slice())))
    }

    /// Takes the receiver's next reply. On an error nothing changes.
    pub fn reply(&mut self, body: &[u8]) -> (r: Result<PairAction, PairError>)
        ensures
            match raw_verify_reply(old(self)@, body@) {
                Ok((next, message)) => r matches Ok(action) && action_view(action) == message
                    && final(self)@ == next,
                Err(e) => r is Err && r->Err_0 == e && final(self)@ == old(self)@,
            },
            r matches Ok(PairAction::Send(v3)) ==> v3@.len() == 68,
    {
        match &self.phase {
            RawPhase::AwaitV2 => {
                let (shared, v3) = match self.take_v2(body) {
                    Ok(found) => found,
                    Err(e) => {
                        return Err(e);
                    },
                };
                self.phase = RawPhase::AwaitV4(shared);
                Ok(PairAction::Send(v3))
            },
            RawPhase::AwaitV4(shared) => {
                self.keys.shared_secret = slice_to_vec(shared);
                self.phase = RawPhase::Done;
                Ok(PairAction::Done)
            },
            RawPhase::Done => Err(PairError::Finished),
        }
    }
}

} // verus!
