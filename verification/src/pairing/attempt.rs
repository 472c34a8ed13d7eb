//! One attempt to pair: the exchanges that are tried, in their order.
use crate::bytes::array32;
use crate::crypto::{random_bytes, x25519_public_of};
use crate::pairing::raw::{
    raw_pair_verify_with, raw_setup_reply, raw_v1, raw_verify_reply, RawPairVerify, RawPairVerifyView,
    RawPhaseView,
};
use crate::pairing::verify::{
    pair_verify_with, verify_reply, verify_v1, PairVerify, PairVerifyView, VerifyPhaseView,
};
use crate::pairing::{
    identity_of, pair_setup_with_seed, setup_m1, setup_reply, PairAction, PairError,
    PairKeys, PairKeysView, PairSetup, PairSetupView, SetupPhaseView,
};
use crate::rtsp::request::{
    add_header, post_request, posted, with_header, ControlRequest, ControlRequestView,
};
use vstd::prelude::*;
use vstd::slice::slice_to_vec;

verus! {

/// Where pairing requests go.
pub const PAIR_SETUP_PATH: &'static str = "/pair-setup";

pub const PAIR_VERIFY_PATH: &'static str = "/pair-verify";

/// The exchanges of an attempt.
#[derive(Clone, Copy, Debug, PartialEq, Eq, Structural)]
pub enum Exchange {
    RawVerify,
    Setup,
    Verify,
}

/// Why an attempt failed.
#[derive(Clone, Copy, Debug, PartialEq, Eq, Structural)]
pub enum AttemptError {
    /// A request of the exchange got no answer that can be used.
    Refused(Exchange),
    /// The exchange itself failed.
    Failed(Exchange, PairError),
    /// A reply came after the attempt was over.
    Finished,
}

/// Where an attempt stands.
pub enum AttemptPhase {
    /// The receiver's public key is waited for.
    RawSetup(PairKeys),
    RawVerify(RawPairVerify),
    Setup(PairSetup),
    Verify(PairVerify),
    Done(PairKeys),
}

pub enum AttemptPhaseView {
    RawSetup(PairKeysView),
    RawVerify(RawPairVerifyView),
    Setup(PairSetupView),
    Verify(PairVerifyView),
    Done(PairKeysView),
}

impl View for AttemptPhase {
    type V = AttemptPhaseView;

    open spec fn view(&self) -> AttemptPhaseView {
        match *self {
            AttemptPhase::RawSetup(keys) => AttemptPhaseView::RawSetup(keys@),
            AttemptPhase::RawVerify(m) => AttemptPhaseView::RawVerify(m@),
            AttemptPhase::Setup(m) => AttemptPhaseView::Setup(m@),
            AttemptPhase::Verify(m) => AttemptPhaseView::Verify(m@),
            AttemptPhase::Done(keys) => AttemptPhaseView::Done(keys@),
        }
    }
}

/// An attempt to pair. Without a PIN the raw exchanges are tried first.
pub struct PairAttempt {
    pub pairing_id: String,
    pub pin: String,
    /// The seed of an identity that is used again.
    pub reuse_seed: Option<[u8; 32]>,
    /// The receiver's public key, where the raw exchange brought it.
    pub server_pk: Option<[u8; 32]>,
    pub phase: AttemptPhase,
}

#[verifier::ext_equal]
pub struct PairAttemptView {
    pub pairing_id: Seq<char>,
    pub pin: Seq<char>,
    pub reuse_seed: Option<Seq<u8>>,
    pub server_pk: Option<Seq<u8>>,
    pub phase: AttemptPhaseView,
}

/// A value of 32 bytes, if there is one.
pub open spec fn opt_bytes(v: Option<[u8; 32]>) -> Option<Seq<u8>> {
    match v {
        Some(b) => Some(b@),
        None => None,
    }
}

impl View for PairAttempt {
    type V = PairAttemptView;

    open spec fn view(&self) -> PairAttemptView {
        PairAttemptView {
            pairing_id: self.pairing_id@,
            pin: self.pin@,
            reuse_seed: opt_bytes(self.reuse_seed),
            server_pk: opt_bytes(self.server_pk),
            phase: self.phase@,
        }
    }
}

/// A pairing request says which kind of pairing it belongs to.
pub open spec fn marked(q: ControlRequestView) -> ControlRequestView {
    with_header(q, "X-Apple-HKP"@, "3"@)
}

pub(crate) fn mark(q: ControlRequest) -> (r: ControlRequest)
    ensures
        r@ == marked(q@),
{
    add_header(q, "X-Apple-HKP", "3")
}

/// A message of a raw pair-verify.
pub open spec fn raw_post(body: Seq<u8>) -> ControlRequestView {
    ControlRequestView { raw: true, ..posted(PAIR_VERIFY_PATH@, body) }
}

fn raw_request(body: Vec<u8>) -> (r: ControlRequest)
    ensures
        r@ == raw_post(body@),
{
    let mut q: ControlRequest = post_request(PAIR_VERIFY_PATH, body);
    q.raw = true;
    q
}

/// Pair-setup begins, with the identity that is used again or with a fresh one.
pub open spec fn setup_begun(s: PairAttemptView, secret: Seq<u8>) -> (
    PairAttemptView,
    ControlRequestView,
) {
    let seed = match s.reuse_seed {
        Some(saved) => saved,
        None => secret,
    };
    (
        PairAttemptView {
            phase: AttemptPhaseView::Setup(
                PairSetupView {
                    pairing_id: s.pairing_id,
                    pin: s.pin,
                    keys: identity_of(seed),
                    phase: SetupPhaseView::AwaitM2,
                },
            ),
            ..s
        },
        marked(posted(PAIR_SETUP_PATH@, setup_m1(s.pin))),
    )
}

/// Pair-verify begins.
pub open spec fn verify_begun(s: PairAttemptView, keys: PairKeysView, secret: Seq<u8>) -> (
    PairAttemptView,
    ControlRequestView,
) {
    (
        PairAttemptView {
            phase: AttemptPhaseView::Verify(
                PairVerifyView {
                    pairing_id: s.pairing_id,
                    secret,
                    keys,
                    phase: VerifyPhaseView::AwaitV2,
                },
            ),
            ..s
        },
        marked(posted(PAIR_VERIFY_PATH@, verify_v1(secret))),
    )
}

/// An attempt begins.
pub open spec fn attempt_begun(
    pairing_id: Seq<char>,
    pin: Seq<char>,
    reuse_seed: Option<Seq<u8>>,
    secret: Seq<u8>,
) -> (PairAttemptView, ControlRequestView) {
    let s = PairAttemptView {
        pairing_id,
        pin,
        reuse_seed,
        server_pk: None,
        phase: AttemptPhaseView::RawSetup(identity_of(secret)),
    };
    if pin.len() == 0 {
        (s, posted(PAIR_SETUP_PATH@, identity_of(secret).ed25519_public))
    } else {
        setup_begun(s, secret)
    }
}

/// What a reply does to an attempt, `None` when a request got none: the state after it and the
/// request to make next, none when the attempt is over. `secret` is what is drawn at random on the
/// way.
pub open spec fn attempt_next(s: PairAttemptView, reply: Option<Seq<u8>>, secret: Seq<u8>) -> Result<
    (PairAttemptView, Option<ControlRequestView>),
    AttemptError,
> {
    match s.phase {
        AttemptPhaseView::RawSetup(keys) => match reply {
            Some(body) => if body.len() != 32 {
                let (next, request) = setup_begun(s, secret);
                Ok((next, Some(request)))
            } else if keys.ed25519_public.len() != 32 {
                Err(AttemptError::Failed(Exchange::RawVerify, PairError::BadPublicKey))
            } else {
                Ok(
                    (
                        PairAttemptView {
                            server_pk: Some(body),
                            phase: AttemptPhaseView::RawVerify(
                                RawPairVerifyView {
                                    secret,
                                    server_key: body,
                                    keys,
                                    phase: RawPhaseView::AwaitV2,
                                },
                            ),
                            ..s
                        },
                        Some(raw_post(raw_v1(x25519_public_of(secret), keys.ed25519_public))),
                    ),
                )
            },
            None => {
                let (next, request) = setup_begun(s, secret);
                Ok((next, Some(request)))
            },
        },
        AttemptPhaseView::RawVerify(m) => match reply {
            None => Err(AttemptError::Refused(Exchange::RawVerify)),
            Some(body) => match raw_verify_reply(m, body) {
                Err(e) => Err(AttemptError::Failed(Exchange::RawVerify, e)),
                Ok((next, Some(message))) => Ok(
                    (
                        PairAttemptView { phase: AttemptPhaseView::RawVerify(next), ..s },
                        Some(raw_post(message)),
                    ),
                ),
                Ok((next, None)) => Ok(
                    (PairAttemptView { phase: AttemptPhaseView::Done(next.keys), ..s }, None),
                ),
            },
        },
        AttemptPhaseView::Setup(m) => match reply {
            None => Err(AttemptError::Refused(Exchange::Setup)),
            Some(body) => match setup_reply(m, body, secret) {
                Err(e) => Err(AttemptError::Failed(Exchange::Setup, e)),
                Ok((next, Some(message))) => Ok(
                    (
                        PairAttemptView { phase: AttemptPhaseView::Setup(next), ..s },
                        Some(marked(posted(PAIR_SETUP_PATH@, message))),
                    ),
                ),
                Ok((next, None)) => {
                    let (after, request) = verify_begun(s, next.keys, secret);
                    Ok((after, Some(request)))
                },
            },
        },
        AttemptPhaseView::Verify(m) => match reply {
            None => Err(AttemptError::Refused(Exchange::Verify)),
            Some(body) => match verify_reply(m, body) {
                Err(e) => Err(AttemptError::Failed(Exchange::Verify, e)),
                Ok((next, Some(message))) => Ok(
                    (
                        PairAttemptView { phase: AttemptPhaseView::Verify(next), ..s },
                        Some(marked(posted(PAIR_VERIFY_PATH@, message))),
                    ),
                ),
                Ok((next, None)) => Ok(
                    (PairAttemptView { phase: AttemptPhaseView::Done(next.keys), ..s }, None),
                ),
            },
        },
        AttemptPhaseView::Done(_) => Err(AttemptError::Finished),
    }
}

/// The bytes of a reply, if there is one.
pub open spec fn reply_bytes(body: Option<&[u8]>) -> Option<Seq<u8>> {
    match body {
        Some(b) => Some(b@),
        None => None,
    }
}

/// The request of a step, if there is one.
pub open spec fn request_view(q: Option<ControlRequest>) -> Option<ControlRequestView> {
    match q {
        Some(q) => Some(q@),
        None => None,
    }
}

/// Begins an attempt that draws what it needs at random. The second result is its first request.
pub fn do_pairing(pairing_id: &str, pin: &str, reuse_seed: Option<[u8; 32]>) -> (r: (
    PairAttempt,
    ControlRequest,
))
    ensures
        r.0.wf(),
        exists|secret: Seq<u8>|
            secret.len() == 32 && (r.0@, r.1@) == #[trigger] attempt_begun(
                pairing_id@,
                pin@,
                opt_bytes(reuse_seed),
                secret,
            ),
{
    let secret: [u8; 32] = array32(random_bytes(32).as_slice());
    PairAttempt::begin(pairing_id, pin, reuse_seed, &secret)
}

impl PairAttempt {
    pub open spec fn wf(&self) -> bool {
        match self.phase {
            AttemptPhase::Setup(m) => m.wf(),
            _ => true,
        }
    }

    /// Begins an attempt with what is drawn at random. The second result is its first request.
    pub fn begin(
        pairing_id: &str,
        pin: &str,
        reuse_seed: Option<[u8; 32]>,
        secret: &[u8; 32],
    ) -> (r: (PairAttempt, ControlRequest))
        ensures
            r.0.wf(),
            (r.0@, r.1@) == attempt_begun(pairing_id@, pin@, opt_bytes(reuse_seed), secret@),
    {
        let keys = PairKeys::from_seed(secret);
        let public: Vec<u8> = slice_to_vec(keys.ed25519_public.as_slice());
        let mut s = PairAttempt {
            pairing_id: pairing_id.to_owned(),
            pin: pin.to_owned(),
            reuse_seed,
            server_pk: None,
            phase: AttemptPhase::RawSetup(keys),
        };
        if pin.is_empty() {
            return (s, post_request(PAIR_SETUP_PATH, public));
        }
        let request: ControlRequest = s.begin_setup(secret);
        (s, request)
    }

    fn begin_setup(&mut self, secret: &[u8; 32]) -> (r: ControlRequest)
        ensures
            final(self).wf(),
            (final(self)@, r@) == setup_begun(old(self)@, secret@),
    {
        let seed: [u8; 32] = match self.reuse_seed {
            Some(saved) => saved,
            None => *secret,
        };
        let (setup, m1) = pair_setup_with_seed(self.pairing_id.as_str(), self.pin.as_str(), &seed);
        self.phase = AttemptPhase::Setup(setup);
        mark(post_request(PAIR_SETUP_PATH, m1))
    }

    fn begin_verify(&mut self, keys: PairKeys, secret: &[u8; 32]) -> (r: ControlRequest)
        ensures
            final(self).wf(),
            (final(self)@, r@) == verify_begun(old(self)@, keys@, secret@),
    {
        let (verify, v1) = pair_verify_with(self.pairing_id.as_str(), keys, secret);
        self.phase = AttemptPhase::Verify(verify);
        mark(post_request(PAIR_VERIFY_PATH, v1))
    }

    fn raw_setup_replied(&mut self, keys: PairKeys, body: Option<&[u8]>, secret: &[u8; 32]) -> (r:
        Result<Option<ControlRequest>, AttemptError>)
        requires
            old(self).wf(),
            old(self)@.phase == AttemptPhaseView::RawSetup(keys@),
        ensures
            final(self).wf(),
            match attempt_next(old(self)@, reply_bytes(body), secret@) {
                Ok((next, request)) => r matches Ok(q) && request_view(q) == request && final(self)@
                    == next,
                Err(e) => r is Err && r->Err_0 == e && final(self)@ == old(self)@,
            },
    {
        let public: Option<[u8; 32]> = match body {
            Some(b) => match raw_setup_reply(b) {
                Ok(public) => Some(public),
                Err(_) => None,
            },
            None => None,
        };
        match public {
            None => Ok(Some(self.begin_setup(secret))),
            Some(public) => match raw_pair_verify_with(keys, &public, secret) {
                Ok((verify, v1)) => {
                    self.server_pk = Some(public);
                    self.phase = AttemptPhase::RawVerify(verify);
                    Ok(Some(raw_request(v1)))
                },
                Err(e) => Err(AttemptError::Failed(Exchange::RawVerify, e)),
            },
        }
    }

    /// Takes a reply, `None` when the request got none, with what is drawn at random on the way.
    /// The result is the next request, or nothing when the attempt is over. On an error nothing
    /// changes. An attempt that ends in pair-verify ends with keys for both directions of the
    /// control channel.
    pub fn step_with(&mut self, body: Option<&[u8]>, secret: &[u8; 32]) -> (r: Result<
        Option<ControlRequest>,
        AttemptError,
    >)
        requires
            old(self).wf(),
        ensures
            final(self).wf(),
            old(self)@.phase is Verify && final(self)@.phase is Done ==> {
                let keys = final(self)@.phase->Done_0;
                keys.write_key.len() == 32 && keys.read_key.len() == 32
            },
            match attempt_next(old(self)@, reply_bytes(body), secret@) {
                Ok((next, request)) => r matches Ok(q) && request_view(q) == request && final(self)@
                    == next,
                Err(e) => r is Err && r->Err_0 == e && final(self)@ == old(self)@,
            },
    {
        match &mut self.phase {
            AttemptPhase::RawSetup(keys) => {
                let keys: PairKeys = keys.copy();
                self.raw_setup_replied(keys, body, secret)
            },
            AttemptPhase::RawVerify(m) => match body {
                None => Err(AttemptError::Refused(Exchange::RawVerify)),
                Some(b) => match m.reply(b) {
                    Err(e) => Err(AttemptError::Failed(Exchange::RawVerify, e)),
                    Ok(PairAction::Send(message)) => Ok(Some(raw_request(message))),
                    Ok(PairAction::Done) => {
                        let keys: PairKeys = m.keys.copy();
                        self.phase = AttemptPhase::Done(keys);
                        Ok(None)
                    },
                },
            },
            AttemptPhase::Setup(m) => match body {
                None => Err(AttemptError::Refused(Exchange::Setup)),
                Some(b) => match m.complete_srp_exchange(b, secret) {
                    Err(e) => Err(AttemptError::Failed(Exchange::Setup, e)),
                    Ok(PairAction::Send(message)) => Ok(
                        Some(mark(post_request(PAIR_SETUP_PATH, message))),
                    ),
                    Ok(PairAction::Done) => {
                        let keys: PairKeys = m.keys.copy();
                        Ok(Some(self.begin_verify(keys, secret)))
                    },
                },
            },
            AttemptPhase::Verify(m) => match body {
                None => Err(AttemptError::Refused(Exchange::Verify)),
                Some(b) => match m.reply(b) {
                    Err(e) => Err(AttemptError::Failed(Exchange::Verify, e)),
                    Ok(PairAction::Send(message)) => Ok(
                        Some(mark(post_request(PAIR_VERIFY_PATH, message))),
                    ),
                    Ok(PairAction::Done) => {
                        let keys: PairKeys = m.keys.copy();
                        self.phase = AttemptPhase::Done(keys);
                        Ok(None)
                    },
                },
            },
            AttemptPhase::Done(_) => Err(AttemptError::Finished),
        }
    }

    /// Takes a reply, `None` when the request got none.
    pub fn step(&mut self, body: Option<&[u8]>) -> (r: Result<Option<ControlRequest>, AttemptError>)
        requires
            old(self).wf(),
        ensures
            final(self).wf(),
            exists|secret: Seq<u8>|
                secret.len() == 32 && match #[trigger] attempt_next(
                    old(self)@,
                    reply_bytes(body),
                    secret,
                ) {
                    Ok((next, request)) => r matches Ok(q) && request_view(q) == request
                        && final(self)@ == next,
                    Err(e) => r is Err && r->Err_0 == e && final(self)@ == old(self)@,
                },
    {
        let secret: [u8; 32] = array32(random_bytes(32).as_slice());
        self.step_with(body, &secret)
    }
}

/// With a PIN the raw exchanges are never tried.
pub proof fn lemma_pin_is_never_raw(
    s: PairAttemptView,
    reply: Option<Seq<u8>>,
    secret: Seq<u8>,
)
    requires
        s.phase !is RawSetup && s.phase !is RawVerify,
    ensures
        attempt_next(s, reply, secret) matches Ok((next, request)) ==> next.phase !is RawSetup
            && next.phase !is RawVerify && (request matches Some(q) ==> !q.raw),
{
}

/// An attempt keeps the identity of the sender from its setup to its end: the keys that pair-verify
/// starts from are those that pair-setup ends with.
pub proof fn lemma_identity_kept(s: PairAttemptView, reply: Option<Seq<u8>>, secret: Seq<u8>)
    requires
        s.phase is Setup || s.phase is Verify,
    ensures
        attempt_next(s, reply, secret) matches Ok((next, request)) ==> identity_in(next.phase)
            == identity_in(s.phase),
{
}

/// The long-term public key and seed that an attempt goes by.
pub open spec fn identity_in(phase: AttemptPhaseView) -> (Seq<u8>, Seq<u8>) {
    match phase {
        AttemptPhaseView::RawSetup(keys) => (keys.ed25519_public, keys.ed25519_seed),
        AttemptPhaseView::RawVerify(m) => (m.keys.ed25519_public, m.keys.ed25519_seed),
        AttemptPhaseView::Setup(m) => (m.keys.ed25519_public, m.keys.ed25519_seed),
        AttemptPhaseView::Verify(m) => (m.keys.ed25519_public, m.keys.ed25519_seed),
        AttemptPhaseView::Done(keys) => (keys.ed25519_public, keys.ed25519_seed),
    }
}

} // verus!
