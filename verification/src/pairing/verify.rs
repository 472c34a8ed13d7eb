//! Pair-verify: a fresh shared secret, proved with the long-term keys, that encrypts the control
//! channel.
use crate::bytes::{array32, extend};
use crate::crypto::{
    aead_open, aead_opened, aead_sealed, ed25519_public_of, ed25519_sign, ed25519_signature_of,
    ed25519_verifies, hkdf_sha512_of, random_bytes, x25519_public, x25519_public_of, x25519_shared,
    x25519_shared_of, AEAD_LIMIT,
};
use crate::pairing::{
    action_view, derive32, label, seal_message, PairAction, PairError, PairKeys, PairKeysView,
};
use crate::tlv8::{
    decode, decoded, encode, encoded, error_code, find, find_error, Item, TLV_ENCRYPTED_DATA,
    TLV_IDENTIFIER, TLV_PUBLIC_KEY, TLV_SIGNATURE, TLV_STATE,
};
use vstd::prelude::*;
use vstd::slice::{slice_subrange, slice_to_vec};
use vstd::utf8::encode_utf8;

verus! {

/// The nonce of V2.
pub const PV_MSG02: [u8; 12] = [
    0x00, 0x00, 0x00, 0x00, 0x50, 0x56, 0x2d, 0x4d, 0x73, 0x67, 0x30, 0x32,
];

/// The nonce of V3.
pub const PV_MSG03: [u8; 12] = [
    0x00, 0x00, 0x00, 0x00, 0x50, 0x56, 0x2d, 0x4d, 0x73, 0x67, 0x30, 0x33,
];

/// Where pair-verify stands: which reply comes next.
pub enum VerifyPhase {
    AwaitV2,
    /// The shared secret is known.
    AwaitV4([u8; 32]),
    Done,
}

pub enum VerifyPhaseView {
    AwaitV2,
    AwaitV4(Seq<u8>),
    Done,
}

impl View for VerifyPhase {
    type V = VerifyPhaseView;

    open spec fn view(&self) -> VerifyPhaseView {
        match *self {
            VerifyPhase::AwaitV2 => VerifyPhaseView::AwaitV2,
            VerifyPhase::AwaitV4(shared) => VerifyPhaseView::AwaitV4(shared@),
            VerifyPhase::Done => VerifyPhaseView::Done,
        }
    }
}

/// A pair-verify in progress.
pub struct PairVerify {
    pub pairing_id: String,
    /// The ephemeral X25519 secret.
    pub secret: [u8; 32],
    pub keys: PairKeys,
    pub phase: VerifyPhase,
}

#[verifier::ext_equal]
pub struct PairVerifyView {
    pub pairing_id: Seq<char>,
    pub secret: Seq<u8>,
    pub keys: PairKeysView,
    pub phase: VerifyPhaseView,
}

impl View for PairVerify {
    type V = PairVerifyView;

    open spec fn view(&self) -> PairVerifyView {
        PairVerifyView {
            pairing_id: self.pairing_id@,
            secret: self.secret@,
            keys: self.keys@,
            phase: self.phase@,
        }
    }
}

/// The first message: the sender's ephemeral public key.
pub open spec fn verify_v1(secret: Seq<u8>) -> Seq<u8> {
    encoded(seq![(TLV_STATE, seq![1u8]), (TLV_PUBLIC_KEY, x25519_public_of(secret))])
}

/// The key that seals the messages of a pair-verify.
pub open spec fn verify_key(shared: Seq<u8>) -> Seq<u8> {
    hkdf_sha512_of(
        shared,
        label("Pair-Verify-Encrypt-Salt"),
        label("Pair-Verify-Encrypt-Info"),
        32,
    )
}

/// Whether sealed data opens; data longer than any sealing does not.
pub open spec fn opens(key: Seq<u8>, nonce: Seq<u8>, sealed: Seq<u8>) -> bool {
    sealed.len() <= AEAD_LIMIT + 16 && aead_opened(key, nonce, Seq::empty(), sealed) is Some
}

/// The receiver's ephemeral public key, from its second message. Sealed data that the message
/// brings must open.
pub open spec fn read_v2(body: Seq<u8>, secret: Seq<u8>) -> Result<Seq<u8>, PairError> {
    let v2 = decoded(body);
    match error_code(v2) {
        Some(code) => Err(PairError::V2Error(code)),
        None => if !v2.contains_key(TLV_PUBLIC_KEY) {
            Err(PairError::V2MissingKey)
        } else if v2[TLV_PUBLIC_KEY].len() < 32 {
            Err(PairError::V2ShortKey)
        } else {
            let public = v2[TLV_PUBLIC_KEY].take(32);
            let key = verify_key(x25519_shared_of(secret, public));
            if v2.contains_key(TLV_ENCRYPTED_DATA) && v2[TLV_ENCRYPTED_DATA].len() > 0 && !opens(
                key,
                PV_MSG02@,
                v2[TLV_ENCRYPTED_DATA],
            ) {
                Err(PairError::V2Undecryptable)
            } else {
                Ok(public)
            }
        },
    }
}

/// What V3 seals: the sender's identifier, and its signature of both ephemeral keys around it.
pub open spec fn v3_content(
    id: Seq<u8>,
    client_public: Seq<u8>,
    server_public: Seq<u8>,
    seed: Seq<u8>,
) -> Seq<u8> {
    encoded(
        seq![
            (TLV_IDENTIFIER, id),
            (TLV_SIGNATURE, ed25519_signature_of(seed, client_public + id + server_public)),
        ],
    )
}

/// The third message: the sender's proof, sealed.
pub open spec fn verify_v3(shared: Seq<u8>, content: Seq<u8>) -> Seq<u8> {
    encoded(
        seq![
            (TLV_STATE, seq![3u8]),
            (
                TLV_ENCRYPTED_DATA,
                aead_sealed(verify_key(shared), PV_MSG03@, Seq::empty(), content),
            ),
        ],
    )
}

/// The keys once the control channel is encrypted under a shared secret.
pub open spec fn with_channel(keys: PairKeysView, shared: Seq<u8>) -> PairKeysView {
    PairKeysView {
        shared_secret: shared,
        write_key: hkdf_sha512_of(
            shared,
            label("Control-Salt"),
            label("Control-Write-Encryption-Key"),
            32,
        ),
        read_key: hkdf_sha512_of(
            shared,
            label("Control-Salt"),
            label("Control-Read-Encryption-Key"),
            32,
        ),
        ..keys
    }
}

/// What a reply does to a pair-verify: the state after it and the message to post, none when the
/// exchange is over.
pub open spec fn verify_reply(s: PairVerifyView, body: Seq<u8>) -> Result<
    (PairVerifyView, Option<Seq<u8>>),
    PairError,
> {
    match s.phase {
        VerifyPhaseView::AwaitV2 => match read_v2(body, s.secret) {
            Err(e) => Err(e),
            Ok(public) => {
                let shared = x25519_shared_of(s.secret, public);
                let content = v3_content(
                    encode_utf8(s.pairing_id),
                    x25519_public_of(s.secret),
                    public,
                    s.keys.ed25519_seed,
                );
                if s.keys.ed25519_seed.len() != 32 {
                    Err(PairError::BadSeed)
                } else if content.len() > AEAD_LIMIT {
                    Err(PairError::SealFailed)
                } else {
                    Ok(
                        (
                            PairVerifyView { phase: VerifyPhaseView::AwaitV4(shared), ..s },
                            Some(verify_v3(shared, content)),
                        ),
                    )
                }
            },
        },
        VerifyPhaseView::AwaitV4(shared) => match error_code(decoded(body)) {
            Some(code) => Err(PairError::V4Error(code)),
            None => Ok(
                (
                    PairVerifyView {
                        phase: VerifyPhaseView::Done,
                        keys: with_channel(s.keys, shared),
                        ..s
                    },
                    None,
                ),
            ),
        },
        VerifyPhaseView::Done => Err(PairError::Finished),
    }
}

/// Starts pair-verify with a fresh ephemeral key. The second result is the first message to post.
pub fn pair_verify(pairing_id: &str, keys: PairKeys) -> (r: (PairVerify, Vec<u8>))
    ensures
        exists|secret: Seq<u8>|
            secret.len() == 32 && r.0@ == (PairVerifyView {
                pairing_id: pairing_id@,
                secret,
                keys: keys@,
                phase: VerifyPhaseView::AwaitV2,
            }) && r.1@ == #[trigger] verify_v1(secret),
{
    let secret: [u8; 32] = array32(random_bytes(32).as_slice());
    pair_verify_with(pairing_id, keys, &secret)
}

/// Starts pair-verify with a given ephemeral secret.
pub fn pair_verify_with(pairing_id: &str, keys: PairKeys, secret: &[u8; 32]) -> (r: (
    PairVerify,
    Vec<u8>,
))
    ensures
        r.0@ == (PairVerifyView {
            pairing_id: pairing_id@,
            secret: secret@,
            keys: keys@,
            phase: VerifyPhaseView::AwaitV2,
        }),
        r.1@ == verify_v1(secret@),
{
    let public: [u8; 32] = x25519_public(secret);
    let mut items: Vec<Item> = Vec::new();
    items.push(Item::new(TLV_STATE, vec![1u8]));
    items.push(Item::new(TLV_PUBLIC_KEY, slice_to_vec(&public)));
    assert(crate::tlv8::pairs(items@) =~~= seq![
        (TLV_STATE, seq![1u8]),
        (TLV_PUBLIC_KEY, public@),
    ]);
    let v1: Vec<u8> = encode(items.as_slice());
    let machine = PairVerify {
        pairing_id: pairing_id.to_owned(),
        secret: *secret,
        keys,
        phase: VerifyPhase::AwaitV2,
    };
    (machine, v1)
}

fn open_v2(shared: &[u8; 32], sealed: &[u8]) -> (r: bool)
    ensures
        r == opens(verify_key(shared@), PV_MSG02@, sealed@),
{
    if sealed.len() as u64 > AEAD_LIMIT + 16 {
        return false;
    }
    let key: [u8; 32] = derive32(shared, "Pair-Verify-Encrypt-Salt", "Pair-Verify-Encrypt-Info");
    let aad: [u8; 0] = [];
    assert(aad@ =~= Seq::<u8>::empty());
    aead_open(&key, &PV_MSG02, &aad, sealed).is_some()
}

/// The receiver's ephemeral public key and the secret shared with it. A receiver that holds the
/// secret of that key reaches the same shared secret.
pub fn take_v2(body: &[u8], secret: &[u8; 32]) -> (r: Result<([u8; 32], [u8; 32]), PairError>)
    ensures
        match read_v2(body@, secret@) {
            Ok(public) => r matches Ok(found) && found.0@ == public && found.1@ == x25519_shared_of(
                secret@,
                public,
            ),
            Err(e) => r is Err && r->Err_0 == e,
        },
        forall|other: Seq<u8>|
            r is Ok && other.len() == 32 && r->Ok_0.0@ == #[trigger] x25519_public_of(other)
                ==> r->Ok_0.1@ == x25519_shared_of(other, x25519_public_of(secret@)),
{
    let v2 = decode(body);
    if let Some(code) = find_error(&v2) {
        return Err(PairError::V2Error(code));
    }
    let public: [u8; 32] = match find(&v2, TLV_PUBLIC_KEY) {
        None => {
            return Err(PairError::V2MissingKey);
        },
        Some(v) => {
            if v.len() < 32 {
                return Err(PairError::V2ShortKey);
            }
            assert(v@.subrange(0, 32) =~= v@.take(32));
            array32(slice_subrange(v.as_slice(), 0, 32))
        },
    };
    let shared: [u8; 32] = x25519_shared(secret, &public);
    if let Some(sealed) = find(&v2, TLV_ENCRYPTED_DATA) {
        if sealed.len() > 0 && !open_v2(&shared, sealed.as_slice()) {
            return Err(PairError::V2Undecryptable);
        }
    }
    Ok((public, shared))
}

/// Builds V3; `None` when it is too long to be sealed. What it seals opens again under the key of
/// the exchange, and the signature in it holds under the public key of the seed.
pub fn build_v3(
    id: &[u8],
    client_public: &[u8; 32],
    server_public: &[u8; 32],
    shared: &[u8; 32],
    seed: &[u8; 32],
) -> (r: Option<Vec<u8>>)
    ensures
        ({
            let content = v3_content(id@, client_public@, server_public@, seed@);
            let key = verify_key(shared@);
            let signed = client_public@ + id@ + server_public@;
            match r {
                Some(v3) => content.len() <= AEAD_LIMIT && v3@ == verify_v3(shared@, content)
                    && aead_opened(
                    key,
                    PV_MSG03@,
                    Seq::empty(),
                    aead_sealed(key, PV_MSG03@, Seq::empty(), content),
                ) == Some(content) && ed25519_verifies(
                    ed25519_public_of(seed@),
                    signed,
                    ed25519_signature_of(seed@, signed),
                ),
                None => content.len() > AEAD_LIMIT,
            }
        }),
{
    let mut signed: Vec<u8> = slice_to_vec(client_public);
    extend(&mut signed, id);
    extend(&mut signed, server_public);
    let signature: [u8; 64] = ed25519_sign(seed, signed.as_slice());
    let mut items: Vec<Item> = Vec::new();
    items.push(Item::new(TLV_IDENTIFIER, slice_to_vec(id)));
    items.push(Item::new(TLV_SIGNATURE, slice_to_vec(&signature)));
    assert(crate::tlv8::pairs(items@) =~~= seq![
        (TLV_IDENTIFIER, id@),
        (TLV_SIGNATURE, signature@),
    ]);
    let content: Vec<u8> = encode(items.as_slice());
    let key: [u8; 32] = derive32(shared, "Pair-Verify-Encrypt-Salt", "Pair-Verify-Encrypt-Info");
    match seal_message(&key, &PV_MSG03, content.as_slice()) {
        None => None,
        Some(sealed) => {
            let mut outer: Vec<Item> = Vec::new();
            outer.push(Item::new(TLV_STATE, vec![3u8]));
            outer.push(Item::new(TLV_ENCRYPTED_DATA, sealed));
            assert(crate::tlv8::pairs(outer@) =~~= seq![
                (TLV_STATE, seq![3u8]),
                (TLV_ENCRYPTED_DATA, sealed@),
            ]);
            Some(encode(outer.as_slice()))
        },
    }
}

impl PairVerify {
    /// Takes the receiver's next reply. On an error nothing changes; at the end there are keys for
    /// both directions of the control channel.
    pub fn reply(&mut self, body: &[u8]) -> (r: Result<PairAction, PairError>)
        ensures
            r matches Ok(PairAction::Done) ==> final(self)@.keys.write_key.len() == 32
                && final(self)@.keys.read_key.len() == 32,
            match verify_reply(old(self)@, body@) {
                Ok((next, message)) => r matches Ok(action) && action_view(action) == message
                    && final(self)@ == next,
                Err(e) => r is Err && r->Err_0 == e && final(self)@ == old(self)@,
            },
    {
        match &self.phase {
            VerifyPhase::AwaitV2 => {
                let (public, shared) = match take_v2(body, &self.secret) {
                    Ok(found) => found,
                    Err(e) => {
                        return Err(e);
                    },
                };
                let seed: [u8; 32] = match self.keys.signing_seed() {
                    Some(seed) => seed,
                    None => {
                        return Err(PairError::BadSeed);
                    },
                };
                let own: [u8; 32] = x25519_public(&self.secret);
                let v3: Vec<u8> = match build_v3(
                    self.pairing_id.as_str().as_bytes(),
                    &own,
                    &public,
                    &shared,
                    &seed,
                ) {
                    Some(v3) => v3,
                    None => {
                        return Err(PairError::SealFailed);
                    },
                };
                self.phase = VerifyPhase::AwaitV4(shared);
                Ok(PairAction::Send(v3))
            },
            VerifyPhase::AwaitV4(shared) => {
                let v4 = decode(body);
                if let Some(code) = find_error(&v4) {
                    return Err(PairError::V4Error(code));
                }
                let shared: [u8; 32] = *shared;
                let write_key: [u8; 32] = derive32(
                    &shared,
                    "Control-Salt",
                    "Control-Write-Encryption-Key",
                );
                let read_key: [u8; 32] = derive32(
                    &shared,
                    "Control-Salt",
                    "Control-Read-Encryption-Key",
                );
                self.keys.shared_secret = slice_to_vec(&shared);
                self.keys.write_key = slice_to_vec(&write_key);
                self.keys.read_key = slice_to_vec(&read_key);
                self.phase = VerifyPhase::Done;
                Ok(PairAction::Done)
            },
            VerifyPhase::Done => Err(PairError::Finished),
        }
    }
}

} // verus!
