use airfry::pairing::attempt::{do_pairing, AttemptError, Exchange, PairAttempt};
use airfry::pairing::raw::{
    apply_keystream, raw_pair_setup, raw_pair_verify, raw_pair_verify_with, raw_setup_reply, raw_verify_v1,
    raw_verify_v3, sha512_derive_key16,
};
use airfry::pairing::verify::pair_verify_with;
use airfry::pairing::{
    format_uuid, generate_uuid, pair_setup_with_identity, pair_setup_with_seed, PairAction,
    PairError, PairKeys,
};
use airfry::srp::SRP_N;
use airfry::tlv8::{
    decode, encode, Item, TLV_ENCRYPTED_DATA, TLV_ERROR, TLV_FLAGS, TLV_IDENTIFIER, TLV_PROOF,
    TLV_PUBLIC_KEY, TLV_SALT, TLV_SIGNATURE, TLV_STATE,
};
use chacha20poly1305::aead::{Aead, KeyInit};
use ed25519_dalek::{Signer, Verifier};
use num_bigint::BigUint;
use sha2::{Digest, Sha512};

const SEED: [u8; 32] = [
    0x9d, 0x61, 0xb1, 0x9d, 0xef, 0xfd, 0x5a, 0x60, 0xba, 0x84, 0x4a, 0xf4, 0x92, 0xec, 0x2c, 0xc4,
    0x44, 0x49, 0xc5, 0x69, 0x7b, 0x32, 0x69, 0x19, 0x70, 0x3b, 0xac, 0x03, 0x1c, 0xae, 0x7f, 0x60,
];

const PUBLIC: [u8; 32] = [
    0xd7, 0x5a, 0x98, 0x01, 0x82, 0xb1, 0x0a, 0xb7, 0xd5, 0x4b, 0xfe, 0xd3, 0xc9, 0x64, 0x07, 0x3a,
    0x0e, 0xe1, 0x72, 0xf3, 0xda, 0xa6, 0x23, 0x25, 0xaf, 0x02, 0x1a, 0x68, 0xf7, 0x07, 0x51, 0x1a,
];

fn sha512(parts: &[&[u8]]) -> Vec<u8> {
    let mut h = Sha512::new();
    for p in parts {
        h.update(p);
    }
    h.finalize().to_vec()
}

fn hkdf(secret: &[u8], salt: &str, info: &str) -> [u8; 32] {
    let mut out = [0u8; 32];
    hkdf::Hkdf::<Sha512>::new(Some(salt.as_bytes()), secret)
        .expand(info.as_bytes(), &mut out)
        .unwrap();
    out
}

fn nonce(label: &[u8; 8]) -> [u8; 12] {
    let mut n = [0u8; 12];
    n[4..].copy_from_slice(label);
    n
}

fn open(key: &[u8; 32], label: &[u8; 8], sealed: &[u8]) -> Vec<u8> {
    chacha20poly1305::ChaCha20Poly1305::new(key.into())
        .decrypt((&nonce(label)).into(), sealed)
        .unwrap()
}

fn seal(key: &[u8; 32], label: &[u8; 8], message: &[u8]) -> Vec<u8> {
    chacha20poly1305::ChaCha20Poly1305::new(key.into())
        .encrypt((&nonce(label)).into(), message)
        .unwrap()
}

fn padded(n: &BigUint) -> Vec<u8> {
    let b = n.to_bytes_be();
    let mut out = vec![0u8; 384 - b.len()];
    out.extend_from_slice(&b);
    out
}

/// The receiver's side of the password exchange.
struct Receiver {
    n: BigUint,
    b: BigUint,
    v: BigUint,
    salt: Vec<u8>,
}

impl Receiver {
    fn new(pin: &str) -> Receiver {
        let n = BigUint::from_bytes_be(&SRP_N);
        let salt = vec![0x5a; 16];
        let inner = sha512(&[b"Pair-Setup:", pin.as_bytes()]);
        let x = BigUint::from_bytes_be(&sha512(&[&salt, &inner]));
        let v = BigUint::from(5u32).modpow(&x, &n);
        Receiver { n, b: BigUint::from_bytes_be(&[0x37; 32]), v, salt }
    }

    fn public(&self) -> BigUint {
        let k = BigUint::from_bytes_be(&sha512(&[&padded(&self.n), &padded(&BigUint::from(5u32))]));
        (k * &self.v + BigUint::from(5u32).modpow(&self.b, &self.n)) % &self.n
    }

    fn m2(&self) -> Vec<u8> {
        encode(&[
            Item::new(TLV_STATE, vec![2]),
            Item::new(TLV_SALT, self.salt.clone()),
            Item::new(TLV_PUBLIC_KEY, self.public().to_bytes_be()),
        ])
    }

    /// The session key, the proof that the sender owes, and the one that it is owed.
    fn proofs(&self, a: &[u8]) -> (Vec<u8>, Vec<u8>, Vec<u8>) {
        let a = BigUint::from_bytes_be(a);
        let u = BigUint::from_bytes_be(&sha512(&[&padded(&a), &padded(&self.public())]));
        let s = (&a * self.v.modpow(&u, &self.n)).modpow(&self.b, &self.n);
        let key = sha512(&[&s.to_bytes_be()]);
        let hn = sha512(&[&self.n.to_bytes_be()]);
        let hg = sha512(&[&[5u8]]);
        let mixed: Vec<u8> = hn.iter().zip(hg.iter()).map(|(x, y)| x ^ y).collect();
        let m1 = sha512(&[
            &mixed,
            &sha512(&[b"Pair-Setup"]),
            &self.salt,
            &a.to_bytes_be(),
            &self.public().to_bytes_be(),
            &key,
        ]);
        let m2 = sha512(&[&a.to_bytes_be(), &m1, &key]);
        (key, m1, m2)
    }
}

fn sent(action: PairAction) -> Vec<u8> {
    match action {
        PairAction::Send(body) => body,
        PairAction::Done => panic!("the exchange is not over"),
    }
}

#[test]
fn raw_verify_v1_layout() {
    let client_x25519 = [0xAAu8; 32];
    let client_ed25519 = [0xBBu8; 32];
    let v1 = raw_verify_v1(&client_x25519, &client_ed25519);

    assert_eq!(v1.len(), 68);
    assert_eq!(&v1[0..4], &[0x01, 0x00, 0x00, 0x00]);
    assert_eq!(&v1[4..36], &client_x25519);
    assert_eq!(&v1[36..68], &client_ed25519);
}

#[test]
fn raw_verify_v3_layout() {
    let enc_client_sig = [0xCDu8; 64];
    let v3 = raw_verify_v3(&enc_client_sig);

    assert_eq!(v3.len(), 68);
    assert_eq!(&v3[0..4], &[0x00, 0x00, 0x00, 0x00]);
    assert_eq!(&v3[4..68], &enc_client_sig);
}

#[test]
fn raw_verify_aes_ctr_offset_64() {
    let key = [0x11u8; 16];
    let iv = [0x22u8; 16];
    let server_sig = [0x33u8; 64]; // decrypted at offset 0
    let client_sig = [0x44u8; 64]; // encrypted at offset 64

    // A fresh stream from its 64th byte on.
    let enc_client_a = apply_keystream(&key, &iv, 64, &client_sig);

    // One contiguous stream over [server_sig(64) || client_sig(64)]; the second half must match.
    let mut combined = [0u8; 128];
    combined[..64].copy_from_slice(&server_sig);
    combined[64..].copy_from_slice(&client_sig);
    let combined = apply_keystream(&key, &iv, 0, &combined);
    assert_eq!(&combined[64..128], &enc_client_a[..]);

    // And the server-side offset-0 decryption is just the first 64 bytes.
    let dec_server = apply_keystream(&key, &iv, 0, &server_sig);
    assert_eq!(&combined[0..64], &dec_server[..]);
}

#[test]
fn sha512_derive_key16_len() {
    let k = sha512_derive_key16("Pair-Verify-AES-Key", &[0u8; 32]);
    assert_eq!(k.len(), 16);
    let iv = sha512_derive_key16("Pair-Verify-AES-IV", &[0u8; 32]);
    // Different salts must yield different first-16-bytes.
    assert_ne!(k, iv);
}

#[test]
fn a_derived_key_is_the_start_of_the_hash() {
    assert_eq!(
        sha512_derive_key16("Pair-Verify-AES-Key", &[0u8; 32]),
        [
            0x82, 0x86, 0xf2, 0xeb, 0x61, 0xa6, 0xb4, 0x24, 0x21, 0xf8, 0x48, 0x7d, 0xd4, 0xc0,
            0xab, 0x93
        ]
    );
}

#[test]
fn a_keystream_undoes_itself() {
    let data: Vec<u8> = (0..100u8).collect();
    let once = apply_keystream(&[1; 16], &[2; 16], 7, &data);
    assert_ne!(once, data);
    assert_eq!(apply_keystream(&[1; 16], &[2; 16], 7, &once), data);
    let mut longer = vec![0; 7];
    longer.extend_from_slice(&data);
    assert_eq!(&apply_keystream(&[1; 16], &[2; 16], 0, &longer)[7..], &once[..]);
}

#[test]
fn a_seed_gives_its_public_key() {
    let keys = PairKeys::from_seed(&SEED);
    assert_eq!(keys.ed25519_public, PUBLIC.to_vec());
    assert_eq!(keys.ed25519_seed, SEED.to_vec());
    assert!(keys.shared_secret.is_empty());
    let again = keys.copy();
    assert_eq!(again.ed25519_public, keys.ed25519_public);
}

#[test]
fn an_identifier_has_version_and_variant() {
    assert_eq!(format_uuid(&[0; 16]), "00000000-0000-4000-8000-000000000000");
    assert_eq!(format_uuid(&[0xff; 16]), "FFFFFFFF-FFFF-4FFF-BFFF-FFFFFFFFFFFF");
    let id = generate_uuid();
    assert_eq!(id.len(), 36);
    assert_eq!(id.as_bytes()[14], b'4');
    assert_ne!(id, generate_uuid());
}

#[test]
fn setup_with_a_pin_agrees_with_the_receiver() {
    let receiver = Receiver::new("3939");
    let (mut setup, m1) = pair_setup_with_seed("ID-1", "3939", &SEED);
    let m1 = decode(&m1);
    assert_eq!(m1[&TLV_STATE], vec![1]);
    assert!(!m1.contains_key(&TLV_FLAGS));

    let m3 = sent(setup.complete_srp_exchange(&receiver.m2(), &[0x21; 32]).unwrap());
    let m3 = decode(&m3);
    let (key, owed, mine) = receiver.proofs(&m3[&TLV_PUBLIC_KEY]);
    assert_eq!(m3[&TLV_PROOF], owed);

    let m4 = encode(&[Item::new(TLV_STATE, vec![4]), Item::new(TLV_PROOF, mine)]);
    let m5 = decode(&sent(setup.reply(&m4).unwrap()));
    let content = decode(&open(
        &hkdf(&key, "Pair-Setup-Encrypt-Salt", "Pair-Setup-Encrypt-Info"),
        b"PS-Msg05",
        &m5[&TLV_ENCRYPTED_DATA],
    ));
    assert_eq!(content[&TLV_IDENTIFIER], b"ID-1".to_vec());
    assert_eq!(content[&TLV_PUBLIC_KEY], PUBLIC.to_vec());
    let mut signed = hkdf(
        &key,
        "Pair-Setup-Controller-Sign-Salt",
        "Pair-Setup-Controller-Sign-Info",
    )
    .to_vec();
    signed.extend_from_slice(b"ID-1");
    signed.extend_from_slice(&PUBLIC);
    let signature = ed25519_dalek::Signature::from_slice(&content[&TLV_SIGNATURE]).unwrap();
    ed25519_dalek::VerifyingKey::from_bytes(&PUBLIC)
        .unwrap()
        .verify(&signed, &signature)
        .unwrap();

    let m6 = encode(&[Item::new(TLV_STATE, vec![6])]);
    assert!(matches!(setup.reply(&m6), Ok(PairAction::Done)));
    assert_eq!(setup.keys.shared_secret, key);
    assert_eq!(setup.reply(&m6).err(), Some(PairError::Finished));
}

#[test]
fn a_wrong_pin_shows_in_the_proof() {
    let receiver = Receiver::new("3939");
    let (mut setup, _) = pair_setup_with_seed("ID-1", "1111", &SEED);
    let m3 = decode(&sent(setup.complete_srp_exchange(&receiver.m2(), &[0x21; 32]).unwrap()));
    let (_, owed, mine) = receiver.proofs(&m3[&TLV_PUBLIC_KEY]);
    assert_ne!(m3[&TLV_PROOF], owed);
    let m4 = encode(&[Item::new(TLV_STATE, vec![4]), Item::new(TLV_PROOF, mine)]);
    assert_eq!(setup.reply(&m4).err(), Some(PairError::ProofMismatch));
}

#[test]
fn setup_without_a_pin_is_transient() {
    let (setup, m1) = pair_setup_with_identity("ID-1", "", None);
    assert_eq!(decode(&m1)[&TLV_FLAGS], vec![0x10, 0, 0, 0]);
    assert_eq!(setup.keys.ed25519_public.len(), 32);
}

#[test]
fn setup_names_what_is_missing() {
    let failure = |body: Vec<u8>| {
        let (mut setup, _) = pair_setup_with_seed("ID", "1234", &SEED);
        setup.reply(&body).err().unwrap()
    };
    assert_eq!(failure(encode(&[Item::new(TLV_ERROR, vec![2])])), PairError::M2Error(2));
    assert_eq!(
        failure(encode(&[Item::new(TLV_PUBLIC_KEY, vec![2])])),
        PairError::M2MissingSalt
    );
    assert_eq!(failure(encode(&[Item::new(TLV_SALT, vec![2])])), PairError::M2MissingKey);

    let receiver = Receiver::new("1234");
    let (mut setup, _) = pair_setup_with_seed("ID", "1234", &SEED);
    setup.reply(&receiver.m2()).ok().unwrap();
    let refused = encode(&[Item::new(TLV_ERROR, vec![6])]);
    assert_eq!(setup.reply(&refused).err(), Some(PairError::M4Error(6)));

    let (mut setup, _) = pair_setup_with_seed("ID", "1234", &SEED);
    setup.reply(&receiver.m2()).ok().unwrap();
    setup.reply(&encode(&[Item::new(TLV_STATE, vec![4])])).ok().unwrap();
    assert_eq!(setup.reply(&refused).err(), Some(PairError::M6Error(6)));

    let (mut setup, _) = pair_setup_with_seed("ID", "1234", &SEED);
    setup.keys.ed25519_seed = vec![1, 2];
    setup.reply(&receiver.m2()).ok().unwrap();
    assert_eq!(
        setup.reply(&encode(&[Item::new(TLV_STATE, vec![4])])).err(),
        Some(PairError::BadSeed)
    );
}

#[test]
fn verify_agrees_with_the_receiver() {
    let server = x25519_dalek::StaticSecret::from([0x51; 32]);
    let server_public = x25519_dalek::PublicKey::from(&server);
    let (mut machine, v1) = pair_verify_with("ID-2", PairKeys::from_seed(&SEED), &[0x62; 32]);
    let v1 = decode(&v1);
    let client: [u8; 32] = v1[&TLV_PUBLIC_KEY].clone().try_into().unwrap();
    let shared = server.diffie_hellman(&x25519_dalek::PublicKey::from(client));
    let key = hkdf(shared.as_bytes(), "Pair-Verify-Encrypt-Salt", "Pair-Verify-Encrypt-Info");

    let v2 = encode(&[
        Item::new(TLV_STATE, vec![2]),
        Item::new(TLV_PUBLIC_KEY, server_public.as_bytes().to_vec()),
        Item::new(TLV_ENCRYPTED_DATA, seal(&key, b"PV-Msg02", b"whatever")),
    ]);
    let v3 = decode(&sent(machine.reply(&v2).unwrap()));
    let content = decode(&open(&key, b"PV-Msg03", &v3[&TLV_ENCRYPTED_DATA]));
    assert_eq!(content[&TLV_IDENTIFIER], b"ID-2".to_vec());
    let mut signed = client.to_vec();
    signed.extend_from_slice(b"ID-2");
    signed.extend_from_slice(server_public.as_bytes());
    let signature = ed25519_dalek::Signature::from_slice(&content[&TLV_SIGNATURE]).unwrap();
    ed25519_dalek::VerifyingKey::from_bytes(&PUBLIC)
        .unwrap()
        .verify(&signed, &signature)
        .unwrap();

    assert!(matches!(machine.reply(&encode(&[Item::new(TLV_STATE, vec![4])])), Ok(PairAction::Done)));
    assert_eq!(machine.keys.shared_secret, shared.as_bytes().to_vec());
    assert_eq!(
        machine.keys.write_key,
        hkdf(shared.as_bytes(), "Control-Salt", "Control-Write-Encryption-Key").to_vec()
    );
    assert_eq!(
        machine.keys.read_key,
        hkdf(shared.as_bytes(), "Control-Salt", "Control-Read-Encryption-Key").to_vec()
    );
    assert_eq!(machine.reply(&[]).err(), Some(PairError::Finished));
}

#[test]
fn verify_names_what_is_wrong() {
    let failure = |items: &[Item]| {
        let (mut machine, _) = pair_verify_with("ID", PairKeys::from_seed(&SEED), &[1; 32]);
        machine.reply(&encode(items)).err().unwrap()
    };
    assert_eq!(failure(&[Item::new(TLV_ERROR, vec![4])]), PairError::V2Error(4));
    assert_eq!(failure(&[]), PairError::V2MissingKey);
    assert_eq!(failure(&[Item::new(TLV_PUBLIC_KEY, vec![0; 31])]), PairError::V2ShortKey);
    assert_eq!(
        failure(&[
            Item::new(TLV_PUBLIC_KEY, vec![9; 32]),
            Item::new(TLV_ENCRYPTED_DATA, vec![0; 40]),
        ]),
        PairError::V2Undecryptable
    );
    let (mut machine, _) = pair_verify_with("ID", PairKeys::from_seed(&SEED), &[1; 32]);
    machine.reply(&encode(&[Item::new(TLV_PUBLIC_KEY, vec![9; 32])])).ok().unwrap();
    let refused = encode(&[Item::new(TLV_ERROR, vec![3])]);
    assert_eq!(machine.reply(&refused).err(), Some(PairError::V4Error(3)));
}

#[test]
fn raw_verify_checks_the_receivers_signature() {
    let server_sign = ed25519_dalek::SigningKey::from_bytes(&[0x44; 32]);
    let server_secret = x25519_dalek::StaticSecret::from([0x45; 32]);
    let server_public = x25519_dalek::PublicKey::from(&server_secret).to_bytes();
    let server_key = server_sign.verifying_key().to_bytes();
    let client_secret = x25519_dalek::StaticSecret::from([0x46; 32]);
    let client_public = x25519_dalek::PublicKey::from(&client_secret).to_bytes();
    let shared = server_secret.diffie_hellman(&x25519_dalek::PublicKey::from(client_public));

    let key = sha512_derive_key16("Pair-Verify-AES-Key", shared.as_bytes());
    let iv = sha512_derive_key16("Pair-Verify-AES-IV", shared.as_bytes());
    let mut signed = server_public.to_vec();
    signed.extend_from_slice(&client_public);
    let sealed = apply_keystream(&key, &iv, 0, &server_sign.sign(&signed).to_bytes());
    let mut v2 = server_public.to_vec();
    v2.extend_from_slice(&sealed);

    let (mut machine, v1) =
        raw_pair_verify_with(PairKeys::from_seed(&SEED), &server_key, &[0x46; 32]).ok().unwrap();
    assert_eq!(v1, raw_verify_v1(&client_public, &PUBLIC));
    let v3 = sent(machine.reply(&v2).unwrap());
    assert_eq!(v3.len(), 68);
    assert_eq!(&v3[..4], &[0; 4]);
    let signature = apply_keystream(&key, &iv, 64, &v3[4..]);
    let mut mine = client_public.to_vec();
    mine.extend_from_slice(&server_public);
    ed25519_dalek::VerifyingKey::from_bytes(&PUBLIC)
        .unwrap()
        .verify(&mine, &ed25519_dalek::Signature::from_slice(&signature).unwrap())
        .unwrap();
    assert!(matches!(machine.reply(&[]), Ok(PairAction::Done)));
    assert_eq!(machine.keys.shared_secret, shared.as_bytes().to_vec());

    let start = || {
        raw_pair_verify_with(PairKeys::from_seed(&SEED), &server_key, &[0x46; 32]).ok().unwrap().0
    };
    assert_eq!(start().reply(&[0; 3]).err(), Some(PairError::RawV2Length { len: 3 }));
    v2[40] ^= 1;
    assert_eq!(start().reply(&v2).err(), Some(PairError::BadSignature));
}

#[test]
fn raw_verify_without_the_receivers_key_skips_the_signature() {
    let start = |server_key: &[u8]| {
        raw_pair_verify_with(PairKeys::from_seed(&SEED), server_key, &[0x46; 32])
    };
    let mut v2 = x25519_dalek::PublicKey::from(&x25519_dalek::StaticSecret::from([0x45; 32]))
        .to_bytes()
        .to_vec();
    v2.extend_from_slice(&[0; 64]);
    let (mut machine, _) = start(&[1; 31]).ok().unwrap();
    assert_eq!(sent(machine.reply(&v2).unwrap()).len(), 68);
    let (mut machine, _) = start(&PUBLIC).ok().unwrap();
    assert_eq!(machine.reply(&v2).err(), Some(PairError::BadSignature));
}

#[test]
fn the_raw_setup_answers_with_a_key() {
    let (keys, body) = raw_pair_setup();
    assert_eq!(body, keys.ed25519_public);
    assert_eq!(body.len(), 32);
    let (_, v1) = raw_pair_verify(keys, &[7; 32]).ok().unwrap();
    assert_eq!(v1.len(), 68);
    assert_eq!(raw_setup_reply(&[7; 32]).ok(), Some([7; 32]));
    assert_eq!(raw_setup_reply(&[7; 31]).err(), Some(PairError::RawSetupLength { len: 31 }));
}

#[test]
fn with_a_pin_the_raw_exchange_is_not_tried() {
    let (attempt, request) = do_pairing("ID", "1234", Some(SEED));
    assert_eq!(request.uri, "/pair-setup");
    assert_eq!(decode(&request.body)[&TLV_STATE], vec![1]);
    assert_eq!(attempt.pin, "1234");
    assert_eq!(attempt.reuse_seed, Some(SEED));
}

#[test]
fn without_a_pin_the_raw_exchange_comes_first() {
    let (mut attempt, request) = do_pairing("ID", "", None);
    assert_eq!(request.uri, "/pair-setup");
    assert_eq!(request.body.len(), 32);
    // The receiver does not know it: the exchange with items is next.
    let next = attempt.step(None).ok().unwrap().unwrap();
    assert_eq!(next.uri, "/pair-setup");
    assert_eq!(decode(&next.body)[&TLV_FLAGS], vec![0x10, 0, 0, 0]);
    assert_eq!(attempt.step(None).err(), Some(AttemptError::Refused(Exchange::Setup)));
}

#[test]
fn a_failed_attempt_says_what_failed() {
    let (mut attempt, _): (PairAttempt, _) = do_pairing("ID", "1234", Some(SEED));
    let refused = encode(&[Item::new(TLV_ERROR, vec![2])]);
    assert_eq!(
        attempt.step(Some(&refused)).err(),
        Some(AttemptError::Failed(Exchange::Setup, PairError::M2Error(2)))
    );
}

#[test]
fn an_attempt_goes_from_setup_to_verify() {
    let receiver = Receiver::new("1234");
    let (mut attempt, _) = do_pairing("ID", "1234", Some(SEED));
    let m3 = attempt.step_with(Some(&receiver.m2()), &[0x21; 32]).ok().unwrap().unwrap();
    let (_, _, mine) = receiver.proofs(&decode(&m3.body)[&TLV_PUBLIC_KEY]);
    let m4 = encode(&[Item::new(TLV_STATE, vec![4]), Item::new(TLV_PROOF, mine)]);
    attempt.step(Some(&m4)).ok().unwrap().unwrap();
    let v1 = attempt
        .step_with(Some(&encode(&[Item::new(TLV_STATE, vec![6])])), &[0x33; 32])
        .ok()
        .unwrap()
        .unwrap();
    assert_eq!(v1.uri, "/pair-verify");
    let server_public =
        x25519_dalek::PublicKey::from(&x25519_dalek::StaticSecret::from([0x51; 32]));
    let v2 = encode(&[
        Item::new(TLV_STATE, vec![2]),
        Item::new(TLV_PUBLIC_KEY, server_public.as_bytes().to_vec()),
    ]);
    attempt.step(Some(&v2)).ok().unwrap().unwrap();
    assert!(attempt.step(Some(&[])).ok().unwrap().is_none());
    assert_eq!(attempt.step(Some(&[])).err(), Some(AttemptError::Finished));
}
