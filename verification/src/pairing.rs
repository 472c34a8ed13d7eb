//! Pairing with a receiver: SRP pair-setup, pair-verify, and the raw variants of both.
//!
//! Each exchange is a machine: it is started with what the sender brings, yields the message to
//! post, and is handed each reply until it is done.
pub mod attempt;
pub mod laws;
pub mod raw;
pub mod verify;

use crate::bytes::{array16, array32, extend, same_bytes};
use crate::crypto::{
    aead_opened, aead_seal, aead_sealed, ed25519_public, ed25519_public_of, ed25519_sign,
    ed25519_signature_of, ed25519_verifies, hkdf_sha512, hkdf_sha512_of, random_bytes, AEAD_LIMIT,
};
use crate::srp::{
    expected_server_proof, natural, pad_to, padded, server_proof, srp_exchange, srp_proof, SrpProof,
    SrpProofView,
};
use crate::text::{push_upper_hex, upper_hex_of};
use crate::tlv8::{
    decode, decoded, encode, encoded, error_code, find, find_error, Item,
    TLV_ENCRYPTED_DATA, TLV_FLAGS, TLV_IDENTIFIER, TLV_METHOD, TLV_PROOF, TLV_PUBLIC_KEY, TLV_SALT,
    TLV_SIGNATURE, TLV_STATE,
};
use vstd::prelude::*;
use vstd::slice::{slice_subrange, slice_to_vec};
use vstd::utf8::encode_utf8;

verus! {

/// Long-term and session keys.
pub struct PairKeys {
    /// The sender's Ed25519 public key.
    pub ed25519_public: Vec<u8>,
    /// The seed of the sender's Ed25519 key.
    pub ed25519_seed: Vec<u8>,
    /// The secret shared with the receiver; empty before pairing.
    pub shared_secret: Vec<u8>,
    /// The key of the control channel towards the receiver.
    pub write_key: Vec<u8>,
    /// The key of the control channel from the receiver.
    pub read_key: Vec<u8>,
}

#[verifier::ext_equal]
pub struct PairKeysView {
    pub ed25519_public: Seq<u8>,
    pub ed25519_seed: Seq<u8>,
    pub shared_secret: Seq<u8>,
    pub write_key: Seq<u8>,
    pub read_key: Seq<u8>,
}

impl View for PairKeys {
    type V = PairKeysView;

    open spec fn view(&self) -> PairKeysView {
        PairKeysView {
            ed25519_public: self.ed25519_public@,
            ed25519_seed: self.ed25519_seed@,
            shared_secret: self.shared_secret@,
            write_key: self.write_key@,
            read_key: self.read_key@,
        }
    }
}

/// The keys of a sender that has an identity and no session.
pub open spec fn identity_of(seed: Seq<u8>) -> PairKeysView {
    PairKeysView {
        ed25519_public: ed25519_public_of(seed),
        ed25519_seed: seed,
        shared_secret: Seq::empty(),
        write_key: Seq::empty(),
        read_key: Seq::empty(),
    }
}

impl Default for PairKeys {
    fn default() -> (r: PairKeys)
        ensures
            r@ == (PairKeysView {
                ed25519_public: Seq::empty(),
                ed25519_seed: Seq::empty(),
                shared_secret: Seq::empty(),
                write_key: Seq::empty(),
                read_key: Seq::empty(),
            }),
    {
        PairKeys {
            ed25519_public: Vec::new(),
            ed25519_seed: Vec::new(),
            shared_secret: Vec::new(),
            write_key: Vec::new(),
            read_key: Vec::new(),
        }
    }
}

impl PairKeys {
    /// The identity of a seed.
    pub fn from_seed(seed: &[u8; 32]) -> (r: PairKeys)
        ensures
            r@ == identity_of(seed@),
            r@.ed25519_public.len() == 32,
    {
        let public: [u8; 32] = ed25519_public(seed);
        PairKeys {
            ed25519_public: slice_to_vec(&public),
            ed25519_seed: slice_to_vec(seed),
            shared_secret: Vec::new(),
            write_key: Vec::new(),
            read_key: Vec::new(),
        }
    }

    /// The same keys once more.
    pub fn copy(&self) -> (r: PairKeys)
        ensures
            r@ == self@,
    {
        PairKeys {
            ed25519_public: slice_to_vec(self.ed25519_public.as_slice()),
            ed25519_seed: slice_to_vec(self.ed25519_seed.as_slice()),
            shared_secret: slice_to_vec(self.shared_secret.as_slice()),
            write_key: slice_to_vec(self.write_key.as_slice()),
            read_key: slice_to_vec(self.read_key.as_slice()),
        }
    }

    /// The seed, if it has its proper length.
    pub(crate) fn signing_seed(&self) -> (r: Option<[u8; 32]>)
        ensures
            r is Some <==> self@.ed25519_seed.len() == 32,
            r matches Some(seed) ==> seed@ == self@.ed25519_seed,
    {
        if self.ed25519_seed.len() == 32 {
            Some(array32(self.ed25519_seed.as_slice()))
        } else {
            None
        }
    }
}

/// Why pairing failed.
#[derive(Clone, Copy, Debug, PartialEq, Eq, Structural)]
pub enum PairError {
    /// The receiver answered the named message of pair-setup with an error code.
    M2Error(u8),
    M4Error(u8),
    M6Error(u8),
    M2MissingKey,
    M2MissingSalt,
    /// The receiver does not know the session key.
    ProofMismatch,
    /// The own seed does not have 32 bytes.
    BadSeed,
    /// A message is too long to be sealed.
    SealFailed,
    /// The receiver answered the named message of pair-verify with an error code.
    V2Error(u8),
    V4Error(u8),
    V2MissingKey,
    V2ShortKey,
    /// The receiver's sealed data does not open.
    V2Undecryptable,
    /// A raw reply does not have its fixed length.
    RawSetupLength { len: usize },
    RawV2Length { len: usize },
    /// The own public key does not have 32 bytes.
    BadPublicKey,
    /// The receiver's signature does not hold.
    BadSignature,
    /// A reply came after the exchange was over.
    Finished,
}

/// What a reply leads to.
pub enum PairAction {
    /// Post this message next.
    Send(Vec<u8>),
    /// The exchange is over.
    Done,
}

/// The message of an action, none when the exchange is over.
pub open spec fn action_view(a: PairAction) -> Option<Seq<u8>> {
    match a {
        PairAction::Send(m) => Some(m@),
        PairAction::Done => None,
    }
}

/// A random identifier's bytes with the version and variant bits of a random UUID.
pub open spec fn uuid_bytes(b: Seq<u8>) -> Seq<u8> {
    b.update(6, (b[6] & 0x0f) | 0x40).update(8, (b[8] & 0x3f) | 0x80)
}

/// A UUID's text: upper-case hexadecimal in groups of 8, 4, 4, 4 and 12 digits.
pub open spec fn uuid_text(b: Seq<u8>) -> Seq<char> {
    upper_hex_of(b.subrange(0, 4)) + seq!['-'] + upper_hex_of(b.subrange(4, 6)) + seq!['-']
        + upper_hex_of(b.subrange(6, 8)) + seq!['-'] + upper_hex_of(b.subrange(8, 10)) + seq!['-']
        + upper_hex_of(b.subrange(10, 16))
}

/// The UUID that 16 random bytes give.
pub fn format_uuid(random: &[u8; 16]) -> (r: String)
    ensures
        r@ == uuid_text(uuid_bytes(random@)),
{
    let mut b: [u8; 16] = *random;
    b[6] = (b[6] & 0x0f) | 0x40;
    b[8] = (b[8] & 0x3f) | 0x80;
    assert(b@ =~= uuid_bytes(random@));
    let mut out = String::new();
    push_upper_hex(&mut out, slice_subrange(&b, 0, 4));
    out.push('-');
    push_upper_hex(&mut out, slice_subrange(&b, 4, 6));
    out.push('-');
    push_upper_hex(&mut out, slice_subrange(&b, 6, 8));
    out.push('-');
    push_upper_hex(&mut out, slice_subrange(&b, 8, 10));
    out.push('-');
    push_upper_hex(&mut out, slice_subrange(&b, 10, 16));
    assert(out@ =~= uuid_text(b@));
    out
}

/// A fresh UUID.
pub fn generate_uuid() -> (r: String)
    ensures
        exists|random: Seq<u8>|
            random.len() == 16 && r@ == #[trigger] uuid_text(uuid_bytes(random)),
{
    let random: [u8; 16] = array16(random_bytes(16).as_slice());
    format_uuid(&random)
}

proof fn lemma_version_bits(x: u8)
    by (bit_vector)
    ensures
        ((x & 0x0f) | 0x40) / 16 == 4,
{
}

/// Every UUID has 36 characters and states version 4.
pub proof fn lemma_uuid_shape(random: Seq<u8>)
    requires
        random.len() == 16,
    ensures
        uuid_text(uuid_bytes(random)).len() == 36,
        uuid_text(uuid_bytes(random))[14] == '4',
{
    let b = uuid_bytes(random);
    lemma_version_bits(random[6]);
    assert(b[6] == (random[6] & 0x0f) | 0x40);
    let text = uuid_text(b);
    assert(text[14] == upper_hex_of(b.subrange(6, 8))[0]);
    assert(b.subrange(6, 8)[0] == b[6]);
}

/// The bytes of a text.
pub open spec fn label(s: &str) -> Seq<u8> {
    encode_utf8(s@)
}

/// The nonce of M5.
pub const PS_MSG05: [u8; 12] = [
    0x00, 0x00, 0x00, 0x00, 0x50, 0x53, 0x2d, 0x4d, 0x73, 0x67, 0x30, 0x35,
];

/// Derives a key of 32 bytes.
pub(crate) fn derive32(secret: &[u8], salt: &str, info: &str) -> (r: [u8; 32])
    ensures
        r@ == hkdf_sha512_of(secret@, label(salt), label(info), 32),
{
    array32(hkdf_sha512(secret, salt.as_bytes(), info.as_bytes(), 32).as_slice())
}

/// Seals a message without associated data; `None` when it is too long.
pub(crate) fn seal_message(key: &[u8; 32], nonce: &[u8; 12], message: &[u8]) -> (r: Option<Vec<u8>>)
    ensures
        match r {
            Some(sealed) => message@.len() <= AEAD_LIMIT && sealed@ == aead_sealed(
                key@,
                nonce@,
                Seq::empty(),
                message@,
            ) && aead_opened(key@, nonce@, Seq::empty(), sealed@) == Some(message@),
            None => message@.len() > AEAD_LIMIT,
        },
{
    if message.len() as u64 > AEAD_LIMIT {
        return None;
    }
    let aad: [u8; 0] = [];
    assert(aad@ =~= Seq::<u8>::empty());
    Some(aead_seal(key, nonce, &aad, message))
}

// --- Pair-setup -----------------------------------------------------------------------------

/// The transient pairing flag.
pub const PAIRING_FLAG_TRANSIENT: u32 = 0x10;

/// Where pair-setup stands: which reply comes next.
pub enum SetupPhase {
    AwaitM2,
    AwaitM4(SrpProof),
    AwaitM6(SrpProof),
    Done,
}

pub enum SetupPhaseView {
    AwaitM2,
    AwaitM4(SrpProofView),
    AwaitM6(SrpProofView),
    Done,
}

impl View for SetupPhase {
    type V = SetupPhaseView;

    open spec fn view(&self) -> SetupPhaseView {
        match *self {
            SetupPhase::AwaitM2 => SetupPhaseView::AwaitM2,
            SetupPhase::AwaitM4(srp) => SetupPhaseView::AwaitM4(srp@),
            SetupPhase::AwaitM6(srp) => SetupPhaseView::AwaitM6(srp@),
            SetupPhase::Done => SetupPhaseView::Done,
        }
    }
}

/// A pair-setup in progress. An empty PIN is the transient variant.
pub struct PairSetup {
    pub pairing_id: String,
    pub pin: String,
    pub keys: PairKeys,
    pub phase: SetupPhase,
}

#[verifier::ext_equal]
pub struct PairSetupView {
    pub pairing_id: Seq<char>,
    pub pin: Seq<char>,
    pub keys: PairKeysView,
    pub phase: SetupPhaseView,
}

impl View for PairSetup {
    type V = PairSetupView;

    open spec fn view(&self) -> PairSetupView {
        PairSetupView {
            pairing_id: self.pairing_id@,
            pin: self.pin@,
            keys: self.keys@,
            phase: self.phase@,
        }
    }
}

/// The first message: method 0, state 1, and the flag when there is no PIN.
pub open spec fn setup_m1(pin: Seq<char>) -> Seq<u8> {
    encoded(
        if pin.len() == 0 {
            seq![
                (TLV_METHOD, seq![0u8]),
                (TLV_STATE, seq![1u8]),
                (TLV_FLAGS, seq![0x10u8, 0u8, 0u8, 0u8]),
            ]
        } else {
            seq![(TLV_METHOD, seq![0u8]), (TLV_STATE, seq![1u8])]
        },
    )
}

/// The salt and public value of the receiver's second message. Only the transient variant does
/// without a salt.
pub open spec fn read_m2(body: Seq<u8>, pin: Seq<char>) -> Result<(Seq<u8>, Seq<u8>), PairError> {
    let m2 = decoded(body);
    match error_code(m2) {
        Some(code) => Err(PairError::M2Error(code)),
        None => if pin.len() > 0 && !m2.contains_key(TLV_SALT) {
            Err(PairError::M2MissingSalt)
        } else if !m2.contains_key(TLV_PUBLIC_KEY) {
            Err(PairError::M2MissingKey)
        } else {
            Ok((crate::tlv8::value_of(m2, TLV_SALT), m2[TLV_PUBLIC_KEY]))
        },
    }
}

/// The third message: the sender's public value and proof.
pub open spec fn setup_m3(srp: SrpProofView) -> Seq<u8> {
    encoded(
        seq![
            (TLV_STATE, seq![3u8]),
            (TLV_PUBLIC_KEY, padded(natural(srp.public), 384)),
            (TLV_PROOF, srp.proof),
        ],
    )
}

/// Whether the receiver's fourth message lets the exchange go on: no error, and the right proof
/// where it brings one.
pub open spec fn check_m4(body: Seq<u8>, srp: SrpProofView) -> Result<(), PairError> {
    let m4 = decoded(body);
    match error_code(m4) {
        Some(code) => Err(PairError::M4Error(code)),
        None => if m4.contains_key(TLV_PROOF) && m4[TLV_PROOF] != server_proof(
            srp.public,
            srp.proof,
            srp.key,
        ) {
            Err(PairError::ProofMismatch)
        } else {
            Ok(())
        },
    }
}

/// What the sender signs in M5: a key of the session, its identifier and its public key.
pub open spec fn m5_signed(key: Seq<u8>, id: Seq<u8>, public: Seq<u8>) -> Seq<u8> {
    hkdf_sha512_of(
        key,
        label("Pair-Setup-Controller-Sign-Salt"),
        label("Pair-Setup-Controller-Sign-Info"),
        32,
    ) + id + public
}

/// What M5 seals: the sender's identifier, public key and signature.
pub open spec fn m5_content(key: Seq<u8>, id: Seq<u8>, public: Seq<u8>, seed: Seq<u8>) -> Seq<u8> {
    encoded(
        seq![
            (TLV_IDENTIFIER, id),
            (TLV_PUBLIC_KEY, public),
            (TLV_SIGNATURE, ed25519_signature_of(seed, m5_signed(key, id, public))),
        ],
    )
}

pub open spec fn m5_key(key: Seq<u8>) -> Seq<u8> {
    hkdf_sha512_of(key, label("Pair-Setup-Encrypt-Salt"), label("Pair-Setup-Encrypt-Info"), 32)
}

/// The fifth message: the sender's identity, sealed.
pub open spec fn setup_m5(key: Seq<u8>, content: Seq<u8>) -> Seq<u8> {
    encoded(
        seq![
            (TLV_STATE, seq![5u8]),
            (TLV_ENCRYPTED_DATA, aead_sealed(m5_key(key), PS_MSG05@, Seq::empty(), content)),
        ],
    )
}

/// What a reply does to a pair-setup: the state after it and the message to post, none when the
/// exchange is over. `secret` is the private exponent, drawn when M2 comes.
pub open spec fn setup_reply(s: PairSetupView, body: Seq<u8>, secret: Seq<u8>) -> Result<
    (PairSetupView, Option<Seq<u8>>),
    PairError,
> {
    match s.phase {
        SetupPhaseView::AwaitM2 => match read_m2(body, s.pin) {
            Err(e) => Err(e),
            Ok((salt, public)) => {
                let srp = srp_exchange(secret, encode_utf8(s.pin), salt, public);
                Ok(
                    (
                        PairSetupView { phase: SetupPhaseView::AwaitM4(srp), ..s },
                        Some(setup_m3(srp)),
                    ),
                )
            },
        },
        SetupPhaseView::AwaitM4(srp) => match check_m4(body, srp) {
            Err(e) => Err(e),
            Ok(_) => {
                let content = m5_content(
                    srp.key,
                    encode_utf8(s.pairing_id),
                    s.keys.ed25519_public,
                    s.keys.ed25519_seed,
                );
                if s.keys.ed25519_seed.len() != 32 {
                    Err(PairError::BadSeed)
                } else if content.len() > AEAD_LIMIT {
                    Err(PairError::SealFailed)
                } else {
                    Ok(
                        (
                            PairSetupView { phase: SetupPhaseView::AwaitM6(srp), ..s },
                            Some(setup_m5(srp.key, content)),
                        ),
                    )
                }
            },
        },
        SetupPhaseView::AwaitM6(srp) => match error_code(decoded(body)) {
            Some(code) => Err(PairError::M6Error(code)),
            None => Ok(
                (
                    PairSetupView {
                        phase: SetupPhaseView::Done,
                        keys: PairKeysView { shared_secret: srp.key, ..s.keys },
                        ..s
                    },
                    None,
                ),
            ),
        },
        SetupPhaseView::Done => Err(PairError::Finished),
    }
}

fn build_m1(pin: &str) -> (r: Vec<u8>)
    ensures
        r@ == setup_m1(pin@),
{
    let mut items: Vec<Item> = Vec::new();
    items.push(Item::new(TLV_METHOD, vec![0u8]));
    items.push(Item::new(TLV_STATE, vec![1u8]));
    if pin.is_empty() {
        items.push(Item::new(TLV_FLAGS, vec![0x10u8, 0u8, 0u8, 0u8]));
        assert(crate::tlv8::pairs(items@) =~~= seq![
            (TLV_METHOD, seq![0u8]),
            (TLV_STATE, seq![1u8]),
            (TLV_FLAGS, seq![0x10u8, 0u8, 0u8, 0u8]),
        ]);
    } else {
        assert(crate::tlv8::pairs(items@) =~~= seq![
            (TLV_METHOD, seq![0u8]),
            (TLV_STATE, seq![1u8]),
        ]);
    }
    encode(items.as_slice())
}

fn take_m2(body: &[u8], pin: &str) -> (r: Result<(Vec<u8>, Vec<u8>), PairError>)
    ensures
        match read_m2(body@, pin@) {
            Ok((salt, public)) => r matches Ok(found) && found.0@ == salt && found.1@ == public,
            Err(e) => r is Err && r->Err_0 == e,
        },
{
    let m2 = decode(body);
    if let Some(code) = find_error(&m2) {
        return Err(PairError::M2Error(code));
    }
    let salt: Vec<u8> = match find(&m2, TLV_SALT) {
        Some(v) => slice_to_vec(v.as_slice()),
        None => {
            if !pin.is_empty() {
                return Err(PairError::M2MissingSalt);
            }
            Vec::new()
        },
    };
    match find(&m2, TLV_PUBLIC_KEY) {
        Some(v) => Ok((salt, slice_to_vec(v.as_slice()))),
        None => Err(PairError::M2MissingKey),
    }
}

fn build_m3(srp: &SrpProof) -> (r: Vec<u8>)
    requires
        srp.wf(),
    ensures
        r@ == setup_m3(srp@),
{
    let mut items: Vec<Item> = Vec::new();
    items.push(Item::new(TLV_STATE, vec![3u8]));
    items.push(Item::new(TLV_PUBLIC_KEY, pad_to(srp.public.as_slice(), 384)));
    items.push(Item::new(TLV_PROOF, slice_to_vec(&srp.proof)));
    assert(crate::tlv8::pairs(items@) =~~= seq![
        (TLV_STATE, seq![3u8]),
        (TLV_PUBLIC_KEY, padded(natural(srp@.public), 384)),
        (TLV_PROOF, srp@.proof),
    ]);
    encode(items.as_slice())
}

fn accept_m4(body: &[u8], srp: &SrpProof) -> (r: Result<(), PairError>)
    requires
        srp.wf(),
    ensures
        match check_m4(body@, srp@) {
            Ok(_) => r is Ok,
            Err(e) => r is Err && r->Err_0 == e,
        },
{
    let m4 = decode(body);
    if let Some(code) = find_error(&m4) {
        return Err(PairError::M4Error(code));
    }
    let expected: [u8; 64] = expected_server_proof(srp);
    if let Some(proof_bytes) = find(&m4, TLV_PROOF) {
        if !same_bytes(proof_bytes.as_slice(), &expected) {
            return Err(PairError::ProofMismatch);
        }
    }
    Ok(())
}

/// Builds M5 for a session key; `None` when it is too long to be sealed. What it seals opens again
/// under the session's key, and the signature in it holds under the public key of the seed.
pub fn build_m5(key: &[u8; 64], id: &[u8], public: &[u8], seed: &[u8; 32]) -> (r: Option<Vec<u8>>)
    ensures
        ({
            let content = m5_content(key@, id@, public@, seed@);
            let sealed = aead_sealed(m5_key(key@), PS_MSG05@, Seq::empty(), content);
            match r {
                Some(m5) => content.len() <= AEAD_LIMIT && m5@ == setup_m5(key@, content)
                    && aead_opened(m5_key(key@), PS_MSG05@, Seq::empty(), sealed) == Some(content)
                    && ed25519_verifies(
                    ed25519_public_of(seed@),
                    m5_signed(key@, id@, public@),
                    ed25519_signature_of(seed@, m5_signed(key@, id@, public@)),
                ),
                None => content.len() > AEAD_LIMIT,
            }
        }),
{
    let session: [u8; 32] = derive32(key, "Pair-Setup-Encrypt-Salt", "Pair-Setup-Encrypt-Info");
    let sign_key: [u8; 32] = derive32(
        key,
        "Pair-Setup-Controller-Sign-Salt",
        "Pair-Setup-Controller-Sign-Info",
    );
    let mut signed: Vec<u8> = slice_to_vec(&sign_key);
    extend(&mut signed, id);
    extend(&mut signed, public);
    let signature: [u8; 64] = ed25519_sign(seed, signed.as_slice());
    let mut items: Vec<Item> = Vec::new();
    items.push(Item::new(TLV_IDENTIFIER, slice_to_vec(id)));
    items.push(Item::new(TLV_PUBLIC_KEY, slice_to_vec(public)));
    items.push(Item::new(TLV_SIGNATURE, slice_to_vec(&signature)));
    assert(crate::tlv8::pairs(items@) =~~= seq![
        (TLV_IDENTIFIER, id@),
        (TLV_PUBLIC_KEY, public@),
        (TLV_SIGNATURE, signature@),
    ]);
    let content: Vec<u8> = encode(items.as_slice());
    match seal_message(&session, &PS_MSG05, content.as_slice()) {
        None => None,
        Some(sealed) => {
            let mut outer: Vec<Item> = Vec::new();
            outer.push(Item::new(TLV_STATE, vec![5u8]));
            outer.push(Item::new(TLV_ENCRYPTED_DATA, sealed));
            assert(crate::tlv8::pairs(outer@) =~~= seq![
                (TLV_STATE, seq![5u8]),
                (TLV_ENCRYPTED_DATA, sealed@),
            ]);
            Some(encode(outer.as_slice()))
        },
    }
}

/// Starts pair-setup with a fresh identity; an empty PIN is the transient variant. The second
/// result is the first message to post.
pub fn pair_setup(pairing_id: &str, pin: &str) -> (r: (PairSetup, Vec<u8>))
    ensures
        r.0.wf(),
        exists|seed: Seq<u8>|
            seed.len() == 32 && r.0@ == (PairSetupView {
                pairing_id: pairing_id@,
                pin: pin@,
                keys: #[trigger] identity_of(seed),
                phase: SetupPhaseView::AwaitM2,
            }),
        r.1@ == setup_m1(pin@),
{
    pair_setup_with_identity(pairing_id, pin, None)
}

/// Starts pair-setup with the identity of a saved seed, or with a fresh one.
pub fn pair_setup_with_identity(pairing_id: &str, pin: &str, reuse_seed: Option<[u8; 32]>) -> (r: (
    PairSetup,
    Vec<u8>,
))
    ensures
        r.0.wf(),
        exists|seed: Seq<u8>|
            seed.len() == 32 && (reuse_seed matches Some(saved) ==> seed == saved@) && r.0@ == (
            PairSetupView {
                pairing_id: pairing_id@,
                pin: pin@,
                keys: #[trigger] identity_of(seed),
                phase: SetupPhaseView::AwaitM2,
            }),
        r.1@ == setup_m1(pin@),
{
    let seed: [u8; 32] = match reuse_seed {
        Some(seed) => seed,
        None => array32(random_bytes(32).as_slice()),
    };
    let r: (PairSetup, Vec<u8>) = pair_setup_with_seed(pairing_id, pin, &seed);
    assert(r.0@.keys == identity_of(seed@));
    r
}

/// Starts pair-setup with the identity of a seed.
pub fn pair_setup_with_seed(pairing_id: &str, pin: &str, seed: &[u8; 32]) -> (r: (
    PairSetup,
    Vec<u8>,
))
    ensures
        r.0.wf(),
        r.0@ == (PairSetupView {
            pairing_id: pairing_id@,
            pin: pin@,
            keys: identity_of(seed@),
            phase: SetupPhaseView::AwaitM2,
        }),
        r.1@ == setup_m1(pin@),
{
    let setup = PairSetup {
        pairing_id: pairing_id.to_owned(),
        pin: pin.to_owned(),
        keys: PairKeys::from_seed(seed),
        phase: SetupPhase::AwaitM2,
    };
    (setup, build_m1(pin))
}

impl PairSetup {
    pub open spec fn wf(&self) -> bool {
        match self.phase {
            SetupPhase::AwaitM4(srp) => srp.wf(),
            SetupPhase::AwaitM6(srp) => srp.wf(),
            _ => true,
        }
    }

    /// Takes the receiver's next reply. On an error nothing changes.
    pub fn reply(&mut self, body: &[u8]) -> (r: Result<PairAction, PairError>)
        requires
            old(self).wf(),
        ensures
            final(self).wf(),
            exists|secret: Seq<u8>|
                secret.len() == 32 && match #[trigger] setup_reply(old(self)@, body@, secret) {
                    Ok((next, message)) => r matches Ok(action) && action_view(action) == message
                        && final(self)@ == next,
                    Err(e) => r is Err && r->Err_0 == e && final(self)@ == old(self)@,
                },
    {
        let secret: [u8; 32] = array32(random_bytes(32).as_slice());
        self.complete_srp_exchange(body, &secret)
    }

    /// Takes the receiver's next reply, with the private exponent to use. On an error nothing
    /// changes.
    pub fn complete_srp_exchange(&mut self, body: &[u8], secret: &[u8; 32]) -> (r: Result<
        PairAction,
        PairError,
    >)
        requires
            old(self).wf(),
        ensures
            final(self).wf(),
            match setup_reply(old(self)@, body@, secret@) {
                Ok((next, message)) => r matches Ok(action) && action_view(action) == message
                    && final(self)@ == next,
                Err(e) => r is Err && r->Err_0 == e && final(self)@ == old(self)@,
            },
    {
        match &self.phase {
            SetupPhase::AwaitM2 => {
                let (salt, public) = match take_m2(body, self.pin.as_str()) {
                    Ok(found) => found,
                    Err(e) => {
                        return Err(e);
                    },
                };
                let srp = srp_proof(
                    secret,
                    self.pin.as_str().as_bytes(),
                    salt.as_slice(),
                    public.as_slice(),
                );
                let m3: Vec<u8> = build_m3(&srp);
                self.phase = SetupPhase::AwaitM4(srp);
                Ok(PairAction::Send(m3))
            },
            SetupPhase::AwaitM4(srp) => {
                match accept_m4(body, srp) {
                    Ok(_) => {},
                    Err(e) => {
                        return Err(e);
                    },
                }
                let seed: [u8; 32] = match self.keys.signing_seed() {
                    Some(seed) => seed,
                    None => {
                        return Err(PairError::BadSeed);
                    },
                };
                let m5: Vec<u8> = match build_m5(
                    &srp.key,
                    self.pairing_id.as_str().as_bytes(),
                    self.keys.ed25519_public.as_slice(),
                    &seed,
                ) {
                    Some(m5) => m5,
                    None => {
                        return Err(PairError::SealFailed);
                    },
                };
                let kept = SrpProof {
                    public: slice_to_vec(srp.public.as_slice()),
                    proof: srp.proof,
                    key: srp.key,
                };
                self.phase = SetupPhase::AwaitM6(kept);
                Ok(PairAction::Send(m5))
            },
            SetupPhase::AwaitM6(srp) => {
                let m6 = decode(body);
                if let Some(code) = find_error(&m6) {
                    return Err(PairError::M6Error(code));
                }
                self.keys.shared_secret = slice_to_vec(&srp.key);
                self.phase = SetupPhase::Done;
                Ok(PairAction::Done)
            },
            SetupPhase::Done => Err(PairError::Finished),
        }
    }
}

} // verus!
