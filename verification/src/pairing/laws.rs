//! What the messages of pairing bring to a receiver that follows the protocol.
use crate::bignum::be_value;
use crate::crypto::{
    aead_sealed, ed25519_signature_of, ed25519_verifies, hkdf_sha512_of, sha512_of,
    x25519_public_of, x25519_shared_of,
};
use crate::pairing::raw::{raw_v1, raw_verify_reply, RawPairVerifyView, RawPhaseView};
use crate::pairing::verify::{verify_reply, verify_v1, PairVerifyView, VerifyPhaseView};
use crate::pairing::{setup_m1, setup_reply, PairSetupView, SetupPhaseView};
use crate::srp::{natural, padded, srp_exchange, srp_n};
use crate::tlv8::{decoded, encoded, encoded_item, lemma_decode_encode_distinct};
use vstd::arithmetic::power::pow;
use vstd::prelude::*;
use vstd::utf8::encode_utf8;

verus! {

/// An item is its tag, its length and its value; one that is longer than a byte can count starts
/// with a full chunk of 255 bytes, and what follows is the rest under the same tag.
pub proof fn law_item_layout(tag: u8, value: Seq<u8>)
    ensures
        encoded_item(tag, value)[0] == tag,
        value.len() <= 255 ==> encoded_item(tag, value)[1] == value.len() && encoded_item(
            tag,
            value,
        ).skip(2) == value,
        value.len() > 255 ==> encoded_item(tag, value)[1] == 255 && encoded_item(
            tag,
            value,
        ).subrange(2, 257) == value.take(255) && encoded_item(tag, value).skip(257)
            == encoded_item(tag, value.skip(255)),
        encoded(seq![(tag, value)]) == encoded_item(tag, value),
        forall|items: Seq<(u8, Seq<u8>)>| #[trigger]
            encoded(items + seq![(tag, value)]) == encoded(items) + encoded_item(tag, value),
{
    let e = encoded_item(tag, value);
    if value.len() <= 255 {
        assert(e.skip(2) =~= value);
    } else {
        assert(e.subrange(2, 257) =~= value.take(255));
        assert(e.skip(257) =~= encoded_item(tag, value.skip(255)));
    }
    assert forall|items: Seq<(u8, Seq<u8>)>| #[trigger]
        encoded(items + seq![(tag, value)]) == encoded(items) + encoded_item(tag, value) by {
        lemma_item_behind(items, tag, value);
    }
    assert(Seq::<(u8, Seq<u8>)>::empty() + seq![(tag, value)] =~= seq![(tag, value)]);
    lemma_item_behind(Seq::empty(), tag, value);
    assert(encoded(Seq::empty()) + e =~= e);
}

proof fn lemma_item_behind(items: Seq<(u8, Seq<u8>)>, tag: u8, value: Seq<u8>)
    ensures
        encoded(items + seq![(tag, value)]) == encoded(items) + encoded_item(tag, value),
    decreases items.len(),
{
    let all = items + seq![(tag, value)];
    if items.len() == 0 {
        assert(all.skip(1) =~= Seq::empty());
        assert(encoded(all) =~= encoded_item(tag, value) + encoded(all.skip(1)));
        assert(encoded(all) =~= encoded(items) + encoded_item(tag, value));
    } else {
        assert(all.skip(1) =~= items.skip(1) + seq![(tag, value)]);
        lemma_item_behind(items.skip(1), tag, value);
        assert(encoded(all) =~= encoded(items) + encoded_item(tag, value));
    }
}

proof fn lemma_two(a: (u8, Seq<u8>), b: (u8, Seq<u8>))
    requires
        a.0 != b.0,
    ensures
        decoded(encoded(seq![a, b])).contains_key(a.0),
        decoded(encoded(seq![a, b])).contains_key(b.0),
        decoded(encoded(seq![a, b]))[a.0] == a.1,
        decoded(encoded(seq![a, b]))[b.0] == b.1,
{
    lemma_decode_encode_distinct(seq![a, b], 0);
    lemma_decode_encode_distinct(seq![a, b], 1);
}

proof fn lemma_three(a: (u8, Seq<u8>), b: (u8, Seq<u8>), c: (u8, Seq<u8>))
    requires
        a.0 != b.0,
        b.0 != c.0,
        a.0 != c.0,
    ensures
        ({
            let m = decoded(encoded(seq![a, b, c]));
            &&& m.contains_key(a.0) && m.contains_key(b.0) && m.contains_key(c.0)
            &&& m[a.0] == a.1 && m[b.0] == b.1 && m[c.0] == c.1
        }),
{
    lemma_decode_encode_distinct(seq![a, b, c], 0);
    lemma_decode_encode_distinct(seq![a, b, c], 1);
    lemma_decode_encode_distinct(seq![a, b, c], 2);
}

/// The first message of pair-setup states the method (tag 0) and the first state (tag 6); that
/// pairing is transient (tag 19) it says where there is no code.
pub proof fn law_setup_starts(pin: Seq<char>)
    ensures
        ({
            let m = decoded(setup_m1(pin));
            &&& m.contains_key(0) && m[0] == seq![0u8]
            &&& m.contains_key(6) && m[6] == seq![1u8]
            &&& pin.len() == 0 ==> m.contains_key(19) && m[19] == seq![0x10u8, 0, 0, 0]
        }),
{
    if pin.len() == 0 {
        lemma_three((0, seq![0u8]), (6, seq![1u8]), (0x13, seq![0x10u8, 0, 0, 0]));
    } else {
        lemma_two((0, seq![0u8]), (6, seq![1u8]));
    }
}

/// A receiver that holds the verifier of a code reaches the sender's session key and finds its proof
/// right. It knows the salt, draws an exponent `b`, and answers with the public value for it.
pub proof fn law_srp_with_receiver(secret: Seq<u8>, password: Seq<u8>, salt: Seq<u8>, b: nat)
    ensures
        ({
            let n = srp_n() as int;
            let user = seq![0x50u8, 0x61, 0x69, 0x72, 0x2d, 0x53, 0x65, 0x74, 0x75, 0x70];
            let x = be_value(sha512_of(salt + sha512_of(user + seq![0x3au8] + password)));
            let k = be_value(
                sha512_of(padded(natural(srp_n()), 384) + padded(natural(5), 384)),
            );
            let verifier = pow(5, x) % n;
            let b_pub = ((k * verifier + pow(5, b)) % n) as nat;
            let r = srp_exchange(secret, password, salt, natural(b_pub));
            let u = be_value(
                sha512_of(padded(natural(r.public), 384) + padded(natural(b_pub), 384)),
            );
            let shared = (pow(r.public * pow(verifier, u), b) % n) as nat;
            &&& r.public == pow(5, be_value(secret)) % n
            &&& shared > 0 ==> r.key == sha512_of(natural(shared))
            &&& r.proof == sha512_of(
                Seq::new(
                    64,
                    |i: int| sha512_of(natural(srp_n()))[i] ^ sha512_of(natural(5))[i],
                ) + sha512_of(user) + salt + natural(r.public) + natural(b_pub) + r.key,
            )
        }),
{
    let user = seq![0x50u8, 0x61, 0x69, 0x72, 0x2d, 0x53, 0x65, 0x74, 0x75, 0x70];
    assert(crate::srp::SRP_USER@ =~= user);
    let n = srp_n() as int;
    let a = be_value(secret);
    let x = crate::srp::srp_x(salt, password);
    let verifier = pow(5, x) % n;
    let b_pub = ((crate::srp::srp_k() * verifier + pow(5, b)) % n) as nat;
    crate::srp::lemma_natural(b_pub);
    crate::srp::lemma_srp_agreement(a, b, x);
    crate::srp::lemma_group();
    vstd::arithmetic::power::lemma_pow_positive(5, a);
    assert(crate::srp::xor64(sha512_of(natural(srp_n())), sha512_of(natural(5))) =~= Seq::new(
        64,
        |i: int| sha512_of(natural(srp_n()))[i] ^ sha512_of(natural(5))[i],
    ));
}

/// The third message of pair-setup brings the sender's public value (tag 3), filled up to the size of
/// the group, and its proof (tag 4), both of the exchange with the salt (tag 2) and the public value
/// (tag 3) that the receiver sent.
pub proof fn law_setup_proves(s: PairSetupView, body: Seq<u8>, secret: Seq<u8>)
    requires
        s.phase is AwaitM2,
    ensures
        setup_reply(s, body, secret) matches Ok((next, message)) ==> {
            let told = decoded(body);
            let m = decoded(message->Some_0);
            let salt = if told.contains_key(2) {
                told[2]
            } else {
                Seq::empty()
            };
            let srp = srp_exchange(secret, encode_utf8(s.pin), salt, told[3]);
            &&& message is Some
            &&& told.contains_key(3)
            &&& s.pin.len() > 0 ==> told.contains_key(2)
            &&& m.contains_key(6) && m[6] == seq![3u8]
            &&& m.contains_key(3) && m[3] == padded(natural(srp.public), 384)
            &&& m.contains_key(4) && m[4] == srp.proof
            &&& next == (PairSetupView { phase: SetupPhaseView::AwaitM4(srp), ..s })
        },
{
    if let Ok((next, message)) = setup_reply(s, body, secret) {
        let srp = next.phase->AwaitM4_0;
        lemma_three((6, seq![3u8]), (3, padded(natural(srp.public), 384)), (4, srp.proof));
    }
}

/// A receiver that does not know the session key is refused: where its fourth message brings a proof
/// (tag 4), it must be the hash of the sender's public value, the sender's proof and the key.
pub proof fn law_setup_checks_the_receiver(s: PairSetupView, body: Seq<u8>, secret: Seq<u8>)
    requires
        s.phase is AwaitM4,
        decoded(body).contains_key(4),
        setup_reply(s, body, secret) is Ok,
    ensures
        ({
            let srp = s.phase->AwaitM4_0;
            decoded(body)[4] == sha512_of(natural(srp.public) + srp.proof + srp.key)
        }),
{
}

/// The fifth message of pair-setup seals (tag 5), under a key of the session, the sender's identifier
/// (tag 1), its public key (tag 3) and its signature (tag 10) of both behind another key of the
/// session.
pub proof fn law_setup_introduces(s: PairSetupView, body: Seq<u8>, secret: Seq<u8>)
    requires
        s.phase is AwaitM4,
    ensures
        setup_reply(s, body, secret) matches Ok((next, message)) ==> {
            let key = s.phase->AwaitM4_0.key;
            let id = encode_utf8(s.pairing_id);
            let m = decoded(message->Some_0);
            &&& message is Some
            &&& m.contains_key(6) && m[6] == seq![5u8]
            &&& m.contains_key(5)
            &&& exists|content: Seq<u8>|
                {
                    &&& m[5] == aead_sealed(
                        hkdf_sha512_of(
                            key,
                            encode_utf8("Pair-Setup-Encrypt-Salt"@),
                            encode_utf8("Pair-Setup-Encrypt-Info"@),
                            32,
                        ),
                        seq![0u8, 0, 0, 0, 0x50, 0x53, 0x2d, 0x4d, 0x73, 0x67, 0x30, 0x35],
                        Seq::empty(),
                        content,
                    )
                    &&& (#[trigger] decoded(content)).contains_key(1) && decoded(content)[1] == id
                    &&& decoded(content).contains_key(3) && decoded(content)[3]
                        == s.keys.ed25519_public
                    &&& decoded(content).contains_key(10) && decoded(content)[10]
                        == ed25519_signature_of(
                        s.keys.ed25519_seed,
                        hkdf_sha512_of(
                            key,
                            encode_utf8("Pair-Setup-Controller-Sign-Salt"@),
                            encode_utf8("Pair-Setup-Controller-Sign-Info"@),
                            32,
                        ) + id + s.keys.ed25519_public,
                    )
                }
            &&& next.phase == SetupPhaseView::AwaitM6(s.phase->AwaitM4_0)
            &&& next.keys == s.keys && next.pairing_id == s.pairing_id
        },
{
    if let Ok((next, message)) = setup_reply(s, body, secret) {
        let key = s.phase->AwaitM4_0.key;
        let id = encode_utf8(s.pairing_id);
        let signature = ed25519_signature_of(
            s.keys.ed25519_seed,
            crate::pairing::m5_signed(key, id, s.keys.ed25519_public),
        );
        let content = crate::pairing::m5_content(
            key,
            id,
            s.keys.ed25519_public,
            s.keys.ed25519_seed,
        );
        lemma_three((1, id), (3, s.keys.ed25519_public), (10, signature));
        let nonce = seq![0u8, 0, 0, 0, 0x50, 0x53, 0x2d, 0x4d, 0x73, 0x67, 0x30, 0x35];
        assert(crate::pairing::PS_MSG05@ =~= nonce);
        let sealed = aead_sealed(crate::pairing::m5_key(key), nonce, Seq::empty(), content);
        lemma_two((6, seq![5u8]), (5, sealed));
    }
}

/// An error of the receiver (tag 7) ends pair-setup; without one its sixth message ends it well, and
/// the session key is the shared secret.
pub proof fn law_setup_ends(s: PairSetupView, body: Seq<u8>, secret: Seq<u8>)
    requires
        s.phase is AwaitM6,
    ensures
        !decoded(body).contains_key(7) ==> (setup_reply(s, body, secret) matches Ok((next, message))
            && message is None && next.keys.shared_secret == s.phase->AwaitM6_0.key
            && next.keys.ed25519_seed == s.keys.ed25519_seed && next.keys.ed25519_public
            == s.keys.ed25519_public),
        decoded(body).contains_key(7) && decoded(body)[7].len() > 0 && decoded(body)[7][0] != 0
            ==> setup_reply(s, body, secret) is Err,
{
}

/// The first message of pair-verify states its state (tag 6) and brings the sender's ephemeral key
/// (tag 3).
pub proof fn law_verify_starts(secret: Seq<u8>)
    ensures
        ({
            let m = decoded(verify_v1(secret));
            &&& m.contains_key(6) && m[6] == seq![1u8]
            &&& m.contains_key(3) && m[3] == x25519_public_of(secret)
        }),
{
    lemma_two((6, seq![1u8]), (3, x25519_public_of(secret)));
}

/// The third message of pair-verify seals (tag 5), under a key of the secret shared with the
/// receiver's ephemeral key (tag 3 of its message), the sender's identifier (tag 1) and its signature
/// (tag 10) of the sender's ephemeral key, the identifier and the receiver's.
pub proof fn law_verify_proves(s: PairVerifyView, body: Seq<u8>)
    requires
        s.phase is AwaitV2,
    ensures
        verify_reply(s, body) matches Ok((next, message)) ==> {
            let theirs = decoded(body)[3].take(32);
            let shared = x25519_shared_of(s.secret, theirs);
            let id = encode_utf8(s.pairing_id);
            let m = decoded(message->Some_0);
            &&& message is Some
            &&& decoded(body).contains_key(3) && decoded(body)[3].len() >= 32
            &&& m.contains_key(6) && m[6] == seq![3u8]
            &&& m.contains_key(5)
            &&& exists|content: Seq<u8>|
                {
                    &&& m[5] == aead_sealed(
                        hkdf_sha512_of(
                            shared,
                            encode_utf8("Pair-Verify-Encrypt-Salt"@),
                            encode_utf8("Pair-Verify-Encrypt-Info"@),
                            32,
                        ),
                        seq![0u8, 0, 0, 0, 0x50, 0x56, 0x2d, 0x4d, 0x73, 0x67, 0x30, 0x33],
                        Seq::empty(),
                        content,
                    )
                    &&& (#[trigger] decoded(content)).contains_key(1) && decoded(content)[1] == id
                    &&& decoded(content).contains_key(10) && decoded(content)[10]
                        == ed25519_signature_of(
                        s.keys.ed25519_seed,
                        x25519_public_of(s.secret) + id + theirs,
                    )
                }
            &&& next == (PairVerifyView { phase: VerifyPhaseView::AwaitV4(shared), ..s })
        },
{
    if let Ok((next, message)) = verify_reply(s, body) {
        let theirs = decoded(body)[3].take(32);
        let shared = x25519_shared_of(s.secret, theirs);
        let id = encode_utf8(s.pairing_id);
        let ours = x25519_public_of(s.secret);
        let signature = ed25519_signature_of(s.keys.ed25519_seed, ours + id + theirs);
        let content = crate::pairing::verify::v3_content(id, ours, theirs, s.keys.ed25519_seed);
        lemma_two((1, id), (10, signature));
        let nonce = seq![0u8, 0, 0, 0, 0x50, 0x56, 0x2d, 0x4d, 0x73, 0x67, 0x30, 0x33];
        assert(crate::pairing::verify::PV_MSG03@ =~= nonce);
        let sealed = aead_sealed(
            crate::pairing::verify::verify_key(shared),
            nonce,
            Seq::empty(),
            content,
        );
        lemma_two((6, seq![3u8]), (5, sealed));
    }
}

/// Pair-verify ends with the keys of the channel: the sender writes under the key for writing and
/// reads under the key for reading, both of the shared secret; an error of the receiver (tag 7) ends
/// it without them.
pub proof fn law_verify_ends(s: PairVerifyView, body: Seq<u8>)
    requires
        s.phase is AwaitV4,
    ensures
        ({
            let shared = s.phase->AwaitV4_0;
            let salt = encode_utf8("Control-Salt"@);
            !decoded(body).contains_key(7) ==> (verify_reply(s, body) matches Ok((next, message))
                && message is None && next.keys.shared_secret == shared && next.keys.write_key
                == hkdf_sha512_of(
                shared,
                salt,
                encode_utf8("Control-Write-Encryption-Key"@),
                32,
            ) && next.keys.read_key == hkdf_sha512_of(
                shared,
                salt,
                encode_utf8("Control-Read-Encryption-Key"@),
                32,
            ) && next.keys.ed25519_seed == s.keys.ed25519_seed && next.keys.ed25519_public
                == s.keys.ed25519_public)
        }),
        decoded(body).contains_key(7) && decoded(body)[7].len() > 0 && decoded(body)[7][0] != 0
            ==> verify_reply(s, body) is Err,
{
}

/// The first message of the raw pair-verify is four bytes, the first of them 1, and the sender's two
/// public keys, the ephemeral one first.
pub proof fn law_raw_starts(x25519: Seq<u8>, ed25519: Seq<u8>)
    requires
        x25519.len() == 32,
        ed25519.len() == 32,
    ensures
        raw_v1(x25519, ed25519).len() == 68,
        raw_v1(x25519, ed25519).take(4) == seq![1u8, 0, 0, 0],
        raw_v1(x25519, ed25519).subrange(4, 36) == x25519,
        raw_v1(x25519, ed25519).skip(36) == ed25519,
{
    let m = raw_v1(x25519, ed25519);
    assert(m.take(4) =~= seq![1u8, 0, 0, 0]);
    assert(m.subrange(4, 36) =~= x25519);
    assert(m.skip(36) =~= ed25519);
}

/// The raw pair-verify goes on only behind a signature of the receiver's long-term key, where that is
/// known, over its ephemeral key and the sender's; it answers with the sender's signature over the
/// two the other way round. Both lie under one AES keystream of the shared secret, the receiver's
/// first.
pub proof fn law_raw_proves(s: RawPairVerifyView, body: Seq<u8>)
    requires
        s.phase is AwaitV2,
        s.server_key.len() == 32,
    ensures
        raw_verify_reply(s, body) matches Ok((next, message)) ==> {
            let theirs = body.take(32);
            let ours = x25519_public_of(s.secret);
            let shared = x25519_shared_of(s.secret, theirs);
            let key = sha512_of(encode_utf8("Pair-Verify-AES-Key"@) + shared).take(16);
            let iv = sha512_of(encode_utf8("Pair-Verify-AES-IV"@) + shared).take(16);
            let stream = |i: int| crate::crypto::aes128_ctr_byte(key, iv, i as nat);
            &&& body.len() == 96
            &&& ed25519_verifies(
                s.server_key,
                theirs + ours,
                Seq::new(64, |i: int| body[32 + i] ^ stream(i)),
            )
            &&& message is Some
            &&& message->Some_0.take(4) == seq![0u8, 0, 0, 0]
            &&& message->Some_0.len() == 68 ==> message->Some_0.skip(4) == Seq::new(
                64,
                |i: int|
                    ed25519_signature_of(s.keys.ed25519_seed, ours + theirs)[i] ^ stream(64 + i),
            )
            &&& next == (RawPairVerifyView { phase: RawPhaseView::AwaitV4(shared), ..s })
        },
{
    if let Ok((next, message)) = raw_verify_reply(s, body) {
        let theirs = body.take(32);
        let ours = x25519_public_of(s.secret);
        let shared = x25519_shared_of(s.secret, theirs);
        let key = sha512_of(encode_utf8("Pair-Verify-AES-Key"@) + shared).take(16);
        let iv = sha512_of(encode_utf8("Pair-Verify-AES-IV"@) + shared).take(16);
        let stream = |i: int| crate::crypto::aes128_ctr_byte(key, iv, i as nat);
        let signature = ed25519_signature_of(s.keys.ed25519_seed, ours + theirs);
        assert(s.server_key.take(32) =~= s.server_key);
        assert(crate::pairing::raw::keystreamed(key, iv, 0, body.skip(32)) =~= Seq::new(
            64,
            |i: int| body[32 + i] ^ stream(i),
        ));
        let sealed = crate::pairing::raw::keystreamed(key, iv, 64, signature);
        assert(message->Some_0.take(4) =~= seq![0u8, 0, 0, 0]);
        assert(message->Some_0.skip(4) =~= sealed);
        if message->Some_0.len() == 68 {
            assert(sealed =~= Seq::new(64, |i: int| signature[i] ^ stream(64 + i)));
        }
    }
}

} // verus!
