//! What holds of a connection from one event to the next.
use crate::connect::{
    connect_begun, connect_next, ConnectActionView, ConnectError, ConnectEventView,
    ConnectPhaseView, ConnectView,
};
use crate::credentials::SavedCredentialsView;
use crate::crypto::{ed25519_public_of, hkdf_sha512_of, x25519_public_of, x25519_shared_of};
use crate::pairing::attempt::{attempt_begun, attempt_next, AttemptPhaseView, PairAttemptView};
use crate::pairing::verify::{PairVerifyView, VerifyPhaseView};
use crate::pairing::PairKeysView;
use crate::rtsp::request::ControlRequestView;
use crate::tlv8::decoded;
use vstd::prelude::*;
use vstd::utf8::encode_utf8;

verus! {

/// The exchange of pair-verify that a connection is in, if it is in one.
pub open spec fn verify_exchange(phase: ConnectPhaseView) -> Option<PairVerifyView> {
    match phase {
        ConnectPhaseView::SavedVerify(m) => Some(m),
        ConnectPhaseView::Pairing(
            PairAttemptView { phase: AttemptPhaseView::Verify(m), .. },
        ) => Some(m),
        ConnectPhaseView::Transient(
            PairAttemptView { phase: AttemptPhaseView::Verify(m), .. },
        ) => Some(m),
        _ => None,
    }
}

/// A key of the control channel.
pub open spec fn control_key(shared: Seq<u8>, purpose: Seq<char>) -> Seq<u8> {
    hkdf_sha512_of(shared, encode_utf8("Control-Salt"@), encode_utf8(purpose), 32)
}

/// The channel is encrypted with what pair-verify agreed on: the sender writes under the key for
/// writing and reads under the key for reading, both of the secret that is shared with the receiver.
#[verifier::rlimit(100)]
#[verifier::spinoff_prover]
pub proof fn law_channel_keys(s: ConnectView, e: ConnectEventView, secret: Seq<u8>, shared: Seq<u8>)
    requires
        verify_exchange(s.phase) matches Some(m) && m.phase == VerifyPhaseView::AwaitV4(shared),
    ensures
        connect_next(s, e, secret) matches Ok(
            (_, ConnectActionView::Encrypt { write_key, read_key }),
        ) ==> write_key == control_key(shared, "Control-Write-Encryption-Key"@) && read_key
            == control_key(shared, "Control-Read-Encryption-Key"@),
        e matches ConnectEventView::Replied(body) ==> !decoded(body).contains_key(7) && control_key(
            shared,
            "Control-Write-Encryption-Key"@,
        ).len() > 0 ==> (connect_next(s, e, secret) matches Ok((_, action)) && action is Encrypt),
{
}

/// The shared secret is the one of the sender's ephemeral key and the receiver's, the first 32 bytes
/// under tag 3 of its message.
#[verifier::rlimit(100)]
#[verifier::spinoff_prover]
pub proof fn law_shared_secret(
    s: ConnectView,
    body: Seq<u8>,
    secret: Seq<u8>,
    m: PairVerifyView,
    next: ConnectView,
    n: PairVerifyView,
)
    requires
        verify_exchange(s.phase) == Some(m),
        m.phase is AwaitV2,
        connect_next(s, ConnectEventView::Replied(body), secret) matches Ok((after, _)) && after
            == next,
        verify_exchange(next.phase) == Some(n),
    ensures
        n.phase == VerifyPhaseView::AwaitV4(
            x25519_shared_of(m.secret, decoded(body)[3].subrange(0, 32)),
        ),
        decoded(body).contains_key(3),
        n.keys == m.keys,
        n.secret == m.secret,
        n.pairing_id == m.pairing_id,
{
    assert(decoded(body)[3].take(32) =~= decoded(body)[3].subrange(0, 32));
}

/// What was agreed on is what the receiver is paired with: the keys stay as they are while the
/// channel is encrypted and the identity is kept, and whatever is handed out on the way is theirs.
#[verifier::rlimit(100)]
#[verifier::spinoff_prover]
pub proof fn law_keys_stay(s: ConnectView, e: ConnectEventView, secret: Seq<u8>, keys: PairKeysView)
    requires
        s.phase == ConnectPhaseView::Save(keys) || (s.phase matches ConnectPhaseView::Encrypt {
            keys: k,
            ..
        } && k == keys),
    ensures
        connect_next(s, e, secret) matches Ok((next, action)) ==> match action {
            ConnectActionView::Save { public, seed } => next.phase == ConnectPhaseView::Save(keys)
                && public == keys.ed25519_public && seed == keys.ed25519_seed
                && s.phase is Encrypt,
            ConnectActionView::Paired => next.phase == ConnectPhaseView::Paired(keys),
            _ => false,
        },
        s.phase is Save && e is Done ==> connect_next(s, e, secret) is Ok,
        s.phase is Encrypt && e is Done ==> connect_next(s, e, secret) is Ok,
        s.phase is Encrypt && e is Failed ==> connect_next(s, e, secret) is Err,
        s.phase matches ConnectPhaseView::Encrypt { save, .. } ==> (connect_next(
            s,
            e,
            secret,
        ) matches Ok((_, action)) ==> (action is Save <==> save)),
{
}

/// An identity is kept only where the user paired with a code; one that is saved, or made for one
/// session, is not.
#[verifier::rlimit(100)]
#[verifier::spinoff_prover]
pub proof fn law_what_is_kept(s: ConnectView, e: ConnectEventView, secret: Seq<u8>)
    ensures
        connect_next(s, e, secret) matches Ok((next, _)) ==> (next.phase matches
            ConnectPhaseView::Encrypt { save, .. } ==> (save <==> s.phase is Pairing)),
        connect_next(s, e, secret) matches Ok((_, action)) ==> (action is Encrypt
            ==> s.phase is Pairing || s.phase is Transient || s.phase is SavedVerify),
{
}

/// A connection starts by dialling, then asks the receiver what it is. What it answers is remembered;
/// the key that it announced stands in for one that it leaves out.
#[verifier::rlimit(100)]
#[verifier::spinoff_prover]
pub proof fn law_first_steps(
    pin: Seq<char>,
    pk: Seq<u8>,
    saved: Option<SavedCredentialsView>,
    force: bool,
    id: Seq<char>,
    secret: Seq<u8>,
    e: ConnectEventView,
)
    ensures
        ({
            let s = connect_begun(pin, pk, saved, force, id);
            &&& s.phase is Dial
            &&& s.pin == pin
            &&& force || saved is None ==> s.identity is None && s.pairing_id == id
            &&& !force && saved is Some && s.identity is Some ==> s.pairing_id
                == saved->Some_0.pairing_id && s.identity->Some_0.public
                == saved->Some_0.ed25519_public && s.identity->Some_0.seed
                == saved->Some_0.ed25519_seed
            &&& connect_next(s, ConnectEventView::Failed, secret) == Err::<
                (ConnectView, ConnectActionView),
                ConnectError,
            >(ConnectError::Unreachable)
            &&& connect_next(s, ConnectEventView::Connected, secret) matches Ok(
                (asked, ConnectActionView::Request(q)),
            ) && asked == (ConnectView { phase: ConnectPhaseView::Info, ..s }) && q.method == "GET"@
                && q.uri == "/info"@ && (connect_next(asked, ConnectEventView::Failed, secret) matches
            Ok((known, _)) && known.info.pk == pk) && (connect_next(asked, e, secret) matches Ok(
                (known, _),
            ) ==> known.info.pk == pk || (e is Replied && known.info.pk.len() > 0))
        }),
{
}

/// Which way pairing goes behind what the receiver said of itself. A code that was given is used;
/// without one a saved identity is proved; without that the receiver is asked to show a code.
#[verifier::rlimit(100)]
#[verifier::spinoff_prover]
pub proof fn law_way_to_pair(s: ConnectView, secret: Seq<u8>)
    requires
        s.phase is Info,
    ensures
        connect_next(s, ConnectEventView::Failed, secret) matches Ok(
            (next, ConnectActionView::Request(q)),
        ) && {
            &&& q.method == "POST"@
            &&& s.pin.len() > 0 ==> q.uri == "/pair-setup"@ && (next.phase matches
                ConnectPhaseView::Pairing(m) && m.pin == s.pin && m.pairing_id == s.pairing_id)
            &&& s.pin.len() == 0 && s.identity is Some ==> q.uri == "/pair-verify"@ && (
            next.phase matches ConnectPhaseView::SavedVerify(m) && m.phase is AwaitV2 && m.secret
                == secret && m.pairing_id == s.pairing_id && m.keys.ed25519_seed
                == s.identity->Some_0.seed && m.keys.ed25519_public == s.identity->Some_0.public)
            &&& s.pin.len() == 0 && s.identity is None ==> q.uri == "/pair-pin-start"@
                && q.body.len() == 0
        },
{
}

/// The code that the receiver shows is asked for once it was told to show it, whether or not it
/// answered; no code, or one of white space alone, ends the connection.
pub proof fn law_code_is_asked_for(s: ConnectView, e: ConnectEventView, secret: Seq<u8>)
    ensures
        s.phase is ShowPin && (e is Replied || e is Failed) ==> (connect_next(s, e, secret) matches
            Ok((next, action)) && next.phase is AskPin && action is AskPin),
        s.phase is AskPin && e == ConnectEventView::Code(None) ==> connect_next(s, e, secret) == Err::<
            (ConnectView, ConnectActionView),
            ConnectError,
        >(ConnectError::NoCode),
        s.phase is AskPin && (connect_next(s, e, secret) is Ok) ==> (e matches
            ConnectEventView::Code(Some(c)) && c.len() > 0),
{
}

/// A connection behind so many failures to reach the receiver.
pub open spec fn after_failures(s: ConnectView, secret: Seq<u8>, n: nat) -> Result<
    ConnectView,
    ConnectError,
>
    decreases n,
{
    if n == 0 {
        Ok(s)
    } else {
        match after_failures(s, secret, (n - 1) as nat) {
            Err(e) => Err(e),
            Ok(t) => match connect_next(t, ConnectEventView::Failed, secret) {
                Ok((next, _)) => Ok(next),
                Err(e) => Err(e),
            },
        }
    }
}

proof fn lemma_one_failure(s: ConnectView, secret: Seq<u8>, code: Seq<char>, left: u8)
    requires
        s.phase == (ConnectPhaseView::Retry { left, code }),
        left >= 1,
    ensures
        left > 1 ==> connect_next(s, ConnectEventView::Failed, secret) == Ok::<
            (ConnectView, ConnectActionView),
            ConnectError,
        >(
            (
                ConnectView {
                    phase: ConnectPhaseView::Retry { left: (left - 1) as u8, code },
                    ..s
                },
                ConnectActionView::Dial { pause: true },
            ),
        ),
        left == 1 ==> connect_next(s, ConnectEventView::Failed, secret) == Err::<
            (ConnectView, ConnectActionView),
            ConnectError,
        >(ConnectError::NotReachedAgain),
{
}

#[verifier::spinoff_prover]
proof fn lemma_failures(s: ConnectView, secret: Seq<u8>, code: Seq<char>, left: u8, n: nat)
    requires
        s.phase == (ConnectPhaseView::Retry { left, code }),
        n < left,
    ensures
        after_failures(s, secret, n) == Ok::<ConnectView, ConnectError>(
            ConnectView {
                phase: ConnectPhaseView::Retry { left: (left - n) as u8, code },
                ..s
            },
        ),
    decreases n,
{
    if n > 0 {
        lemma_failures(s, secret, code, left, (n - 1) as nat);
        let t = ConnectView {
            phase: ConnectPhaseView::Retry { left: (left - (n - 1)) as u8, code },
            ..s
        };
        lemma_one_failure(t, secret, code, (left - (n - 1)) as u8);
    }
}

/// A receiver that was told to show its code is dialled twelve times with that code, with a pause
/// before each but the first; the twelfth failure is the last.
#[verifier::rlimit(100)]
#[verifier::spinoff_prover]
pub proof fn law_dialled_twelve_times(s: ConnectView, secret: Seq<u8>, code: Seq<char>, n: nat)
    requires
        s.phase == (ConnectPhaseView::AskPin { anew: true }),
        connect_next(s, ConnectEventView::Code(Some(code)), secret) is Ok,
    ensures
        ({
            let (dialled, action) = connect_next(s, ConnectEventView::Code(Some(code)), secret)->Ok_0;
            &&& action == (ConnectActionView::Dial { pause: false })
            &&& n < 12 ==> (after_failures(dialled, secret, n) matches Ok(t) && t.phase is Retry)
            &&& n < 11 ==> (connect_next(
                after_failures(dialled, secret, n)->Ok_0,
                ConnectEventView::Failed,
                secret,
            ) matches Ok((_, again)) && again == (ConnectActionView::Dial { pause: true }))
            &&& after_failures(dialled, secret, 12) == Err::<ConnectView, ConnectError>(
                ConnectError::NotReachedAgain,
            )
        }),
{
    let (dialled, _) = connect_next(s, ConnectEventView::Code(Some(code)), secret)->Ok_0;
    let text = dialled.phase->Retry_code;
    if n < 12 {
        lemma_failures(dialled, secret, text, 12, n);
    }
    lemma_failures(dialled, secret, text, 12, 11);
    lemma_one_failure(after_failures(dialled, secret, 11)->Ok_0, secret, text, 1);
    if n < 11 {
        lemma_one_failure(after_failures(dialled, secret, n)->Ok_0, secret, text, (12 - n) as u8);
    }
}

/// A request of pairing is posted as bytes; all but those of the raw exchange carry the header that
/// names the kind of pairing.
pub open spec fn pairing_request(q: ControlRequestView) -> bool {
    &&& q.method == "POST"@
    &&& q.content_type == "application/octet-stream"@
    &&& q.uri == "/pair-setup"@ || q.uri == "/pair-verify"@
    &&& q.headers == Seq::<(Seq<char>, Seq<char>)>::empty() || q.headers == seq![
        ("X-Apple-HKP"@, "3"@),
    ]
}

/// An attempt with a code starts with pair-setup under the saved identity or a fresh one; one
/// without a code posts the raw public key first.
pub proof fn law_attempt_starts(
    id: Seq<char>,
    pin: Seq<char>,
    seed: Option<Seq<u8>>,
    secret: Seq<u8>,
)
    ensures
        ({
            let (s, q) = attempt_begun(id, pin, seed, secret);
            &&& pairing_request(q)
            &&& q.uri == "/pair-setup"@
            &&& s.pairing_id == id && s.pin == pin
            &&& pin.len() == 0 ==> q.body == ed25519_public_of(secret) && q.headers.len() == 0
            &&& pin.len() > 0 ==> q.headers.len() == 1 && (s.phase matches AttemptPhaseView::Setup(m)
                && m.pin == pin && m.pairing_id == id && m.keys.ed25519_seed == (match seed {
                Some(kept) => kept,
                None => secret,
            }) && m.keys.ed25519_public == ed25519_public_of(m.keys.ed25519_seed))
        }),
{
}

/// An attempt keeps to its identity and posts its messages where they belong: pair-verify follows
/// pair-setup, with the same keys and a fresh secret, and what pair-verify or the raw exchange leaves
/// is what the attempt ends with.
#[verifier::rlimit(100)]
#[verifier::spinoff_prover]
pub proof fn law_attempt_goes_on(s: PairAttemptView, reply: Option<Seq<u8>>, secret: Seq<u8>)
    ensures
        attempt_next(s, reply, secret) matches Ok((next, Some(q))) ==> pairing_request(q)
            && next.pairing_id == s.pairing_id && next.pin == s.pin && match next.phase {
            AttemptPhaseView::Setup(m) => q.uri == "/pair-setup"@ && (s.phase is RawSetup ==>
                m.pairing_id == s.pairing_id && m.pin == s.pin) && !q.raw && q.headers.len() == 1,
            AttemptPhaseView::Verify(m) => q.uri == "/pair-verify"@ && !q.raw && q.headers.len() == 1
                && (s.phase matches AttemptPhaseView::Setup(before) ==> m.secret == secret
                && m.pairing_id == s.pairing_id && m.keys.ed25519_seed == before.keys.ed25519_seed
                && m.phase is AwaitV2),
            AttemptPhaseView::RawVerify(m) => q.uri == "/pair-verify"@ && q.raw && q.headers.len()
                == 0 && (s.phase is RawSetup ==> m.server_key == reply->Some_0 && m.secret == secret
                && next.server_pk == reply && m.keys == s.phase->RawSetup_0 && q.body == seq![
                1u8,
                0,
                0,
                0,
            ] + x25519_public_of(secret) + s.phase->RawSetup_0.ed25519_public),
            _ => false,
        },
        attempt_next(s, reply, secret) matches Ok((next, None)) ==> next.phase is Done && (
        s.phase is Verify || s.phase is RawVerify),
        reply is None && s.phase is RawSetup ==> (attempt_next(s, reply, secret) matches Ok((next, _))
            && next.phase is Setup),
        reply is None && !(s.phase is RawSetup) ==> attempt_next(s, reply, secret) is Err,
{
    if let Ok((next, Some(q))) = attempt_next(s, reply, secret) {
        if s.phase is RawSetup && next.phase is RawVerify {
            assert(q.body =~= seq![1u8, 0, 0, 0] + x25519_public_of(secret)
                + s.phase->RawSetup_0.ed25519_public);
        }
    }
}

} // verus!
