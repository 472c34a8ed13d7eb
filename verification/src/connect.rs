//! The way from a receiver's address to a paired session.
pub mod laws;

use crate::bytes::array32;
use crate::credentials::{usable, SavedCredentials, SavedCredentialsView};
use crate::crypto::random_bytes;
use crate::fairplay::FairPlayKeys;
use crate::info::{
    info_of, parse_info, unknown_receiver, ReceiverInfo, ReceiverInfoView, INFO_CONTENT_TYPE,
    INFO_PATH,
};
use crate::pairing::attempt::{
    attempt_begun, attempt_next, marked, mark, AttemptError, AttemptPhase, AttemptPhaseView,
    PairAttempt, PairAttemptView, PAIR_VERIFY_PATH,
};
use crate::pairing::verify::{
    pair_verify_with, verify_reply, verify_v1, PairVerify, PairVerifyView, VerifyPhaseView,
};
use crate::pairing::{PairAction, PairKeys, PairKeysView};
use crate::property_list::plist_parsed;
use crate::rtsp::request::{
    bare, bare_request, post_request, posted, ControlRequest, ControlRequestView,
};
use crate::text::{chars, from_chars, trim, trimmed};
use vstd::prelude::*;
use vstd::slice::slice_to_vec;

verus! {

/// How often a receiver that is getting ready is dialled.
pub const RECONNECT_ATTEMPTS: u8 = 12;

/// The pause between two of these attempts, in milliseconds.
pub const RECONNECT_PAUSE_MS: u64 = 600;

/// What may be chosen for a connection.
#[derive(Debug)]
pub struct ConnectOptions {
    /// Pair anew, whatever is saved.
    pub force_pair: bool,
    /// The file of the credentials, if not the default one.
    pub creds_path: Option<Vec<u8>>,
    /// Keep credentials in the system's keyring.
    pub keyring: bool,
}

impl Default for ConnectOptions {
    fn default() -> (r: ConnectOptions)
        ensures
            !r.force_pair && r.creds_path is None && !r.keyring,
    {
        ConnectOptions { force_pair: false, creds_path: None, keyring: false }
    }
}

/// A long-term identity.
pub struct Identity {
    pub public: Vec<u8>,
    pub seed: [u8; 32],
}

#[verifier::ext_equal]
pub struct IdentityView {
    pub public: Seq<u8>,
    pub seed: Seq<u8>,
}

impl View for Identity {
    type V = IdentityView;

    open spec fn view(&self) -> IdentityView {
        IdentityView { public: self.public@, seed: self.seed@ }
    }
}

/// The keys of an identity before any exchange.
pub open spec fn identity_keys(id: IdentityView) -> PairKeysView {
    PairKeysView {
        ed25519_public: id.public,
        ed25519_seed: id.seed,
        shared_secret: Seq::empty(),
        write_key: Seq::empty(),
        read_key: Seq::empty(),
    }
}

/// Where a connection stands.
pub enum ConnectPhase {
    Dial,
    Info,
    /// The saved identity is tried.
    SavedVerify(PairVerify),
    /// The receiver is dialled again behind a failure.
    Redial,
    Reinfo,
    /// Pairing without a code is tried.
    Transient(PairAttempt),
    /// The receiver is asked to show its code, and dialled anew for it where that is said.
    ShowPin { anew: bool },
    AskPin { anew: bool },
    Retry { left: u8, code: String },
    RetryInfo { code: String },
    Pairing(PairAttempt),
    Encrypt { keys: PairKeys, save: bool },
    Save(PairKeys),
    Paired(PairKeys),
}

pub enum ConnectPhaseView {
    Dial,
    Info,
    SavedVerify(PairVerifyView),
    Redial,
    Reinfo,
    Transient(PairAttemptView),
    ShowPin { anew: bool },
    AskPin { anew: bool },
    Retry { left: u8, code: Seq<char> },
    RetryInfo { code: Seq<char> },
    Pairing(PairAttemptView),
    Encrypt { keys: PairKeysView, save: bool },
    Save(PairKeysView),
    Paired(PairKeysView),
}

impl View for ConnectPhase {
    type V = ConnectPhaseView;

    open spec fn view(&self) -> ConnectPhaseView {
        match *self {
            ConnectPhase::Dial => ConnectPhaseView::Dial,
            ConnectPhase::Info => ConnectPhaseView::Info,
            ConnectPhase::SavedVerify(m) => ConnectPhaseView::SavedVerify(m@),
            ConnectPhase::Redial => ConnectPhaseView::Redial,
            ConnectPhase::Reinfo => ConnectPhaseView::Reinfo,
            ConnectPhase::Transient(m) => ConnectPhaseView::Transient(m@),
            ConnectPhase::ShowPin { anew } => ConnectPhaseView::ShowPin { anew },
            ConnectPhase::AskPin { anew } => ConnectPhaseView::AskPin { anew },
            ConnectPhase::Retry { left, code } => ConnectPhaseView::Retry { left, code: code@ },
            ConnectPhase::RetryInfo { code } => ConnectPhaseView::RetryInfo { code: code@ },
            ConnectPhase::Pairing(m) => ConnectPhaseView::Pairing(m@),
            ConnectPhase::Encrypt { keys, save } => ConnectPhaseView::Encrypt { keys: keys@, save },
            ConnectPhase::Save(keys) => ConnectPhaseView::Save(keys@),
            ConnectPhase::Paired(keys) => ConnectPhaseView::Paired(keys@),
        }
    }
}

/// A connection being made.
pub struct Connect {
    /// The code that was given beforehand; empty when none was.
    pub pin: String,
    pub pairing_id: String,
    /// The saved identity, where there is one that can be used.
    pub identity: Option<Identity>,
    /// The public key that the receiver announces.
    pub announced_pk: Vec<u8>,
    pub info: ReceiverInfo,
    pub phase: ConnectPhase,
}

#[verifier::ext_equal]
pub struct ConnectView {
    pub pin: Seq<char>,
    pub pairing_id: Seq<char>,
    pub identity: Option<IdentityView>,
    pub announced_pk: Seq<u8>,
    pub info: ReceiverInfoView,
    pub phase: ConnectPhaseView,
}

impl View for Connect {
    type V = ConnectView;

    open spec fn view(&self) -> ConnectView {
        ConnectView {
            pin: self.pin@,
            pairing_id: self.pairing_id@,
            identity: match self.identity {
                Some(id) => Some(id@),
                None => None,
            },
            announced_pk: self.announced_pk@,
            info: self.info@,
            phase: self.phase@,
        }
    }
}

/// What happened.
pub enum ConnectEvent {
    Connected,
    /// The receiver answered a request.
    Replied(Vec<u8>),
    /// What was tried did not succeed.
    Failed,
    /// The code that was asked for, if one was given.
    Code(Option<String>),
    /// What was to be done is done.
    Done,
}

pub enum ConnectEventView {
    Connected,
    Replied(Seq<u8>),
    Failed,
    Code(Option<Seq<char>>),
    Done,
}

impl View for ConnectEvent {
    type V = ConnectEventView;

    open spec fn view(&self) -> ConnectEventView {
        match *self {
            ConnectEvent::Connected => ConnectEventView::Connected,
            ConnectEvent::Replied(b) => ConnectEventView::Replied(b@),
            ConnectEvent::Failed => ConnectEventView::Failed,
            ConnectEvent::Code(Some(s)) => ConnectEventView::Code(Some(s@)),
            ConnectEvent::Code(None) => ConnectEventView::Code(None),
            ConnectEvent::Done => ConnectEventView::Done,
        }
    }
}

/// What is to be done next.
pub enum ConnectAction {
    /// Drop the connection that there is and make a new one, behind a pause where that is said.
    Dial { pause: bool },
    Request(ControlRequest),
    /// Ask for the code that the receiver shows.
    AskPin,
    /// Encrypt the control channel.
    Encrypt { write_key: Vec<u8>, read_key: Vec<u8> },
    /// Keep the identity for the next time.
    Save { public: Vec<u8>, seed: Vec<u8> },
    /// The receiver is paired.
    Paired,
}

pub enum ConnectActionView {
    Dial { pause: bool },
    Request(ControlRequestView),
    AskPin,
    Encrypt { write_key: Seq<u8>, read_key: Seq<u8> },
    Save { public: Seq<u8>, seed: Seq<u8> },
    Paired,
}

impl View for ConnectAction {
    type V = ConnectActionView;

    open spec fn view(&self) -> ConnectActionView {
        match *self {
            ConnectAction::Dial { pause } => ConnectActionView::Dial { pause },
            ConnectAction::Request(q) => ConnectActionView::Request(q@),
            ConnectAction::AskPin => ConnectActionView::AskPin,
            ConnectAction::Encrypt { write_key, read_key } => ConnectActionView::Encrypt {
                write_key: write_key@,
                read_key: read_key@,
            },
            ConnectAction::Save { public, seed } => ConnectActionView::Save {
                public: public@,
                seed: seed@,
            },
            ConnectAction::Paired => ConnectActionView::Paired,
        }
    }
}

/// Why there is no session.
#[derive(Clone, Copy, Debug, PartialEq, Eq, Structural)]
pub enum ConnectError {
    /// The receiver cannot be reached.
    Unreachable,
    /// The receiver cannot be reached again.
    NotReachedAgain,
    /// The code that the receiver shows was not given.
    NoCode,
    Pairing(AttemptError),
    /// What happened does not fit what was waited for.
    Unexpected,
}

/// What a connection starts from. A saved identity is used unless pairing anew is asked for.
pub open spec fn connect_begun(
    pin: Seq<char>,
    announced_pk: Seq<u8>,
    saved: Option<SavedCredentialsView>,
    force_pair: bool,
    fresh_id: Seq<char>,
) -> ConnectView {
    let known = !force_pair && saved is Some && usable(saved->Some_0);
    ConnectView {
        pin,
        pairing_id: if known {
            saved->Some_0.pairing_id
        } else {
            fresh_id
        },
        identity: if known {
            Some(
                IdentityView {
                    public: saved->Some_0.ed25519_public,
                    seed: saved->Some_0.ed25519_seed,
                },
            )
        } else {
            None
        },
        announced_pk,
        info: unknown_receiver(),
        phase: ConnectPhaseView::Dial,
    }
}

pub open spec fn info_request_view() -> ControlRequestView {
    ControlRequestView { content_type: INFO_CONTENT_TYPE@, ..bare("GET"@, INFO_PATH@) }
}

/// What a reply tells of the receiver, if it can be read.
pub open spec fn info_read(body: Seq<u8>) -> Option<ReceiverInfoView> {
    match plist_parsed(body) {
        Some(v) => if v is Dictionary {
            Some(info_of(v))
        } else {
            None
        },
        None => None,
    }
}

/// What is known of the receiver behind its answer, if it gave one. The announced key stands in for
/// one that it does not state.
pub open spec fn info_taken(s: ConnectView, info: Option<ReceiverInfoView>) -> ConnectView {
    let read = match info {
        Some(i) => i,
        None => unknown_receiver(),
    };
    ConnectView {
        info: ReceiverInfoView {
            pk: if read.pk.len() == 0 {
                s.announced_pk
            } else {
                read.pk
            },
            ..read
        },
        ..s
    }
}

/// The receiver is asked to show its code.
pub open spec fn show_pin(s: ConnectView, anew: bool) -> (ConnectView, ConnectActionView) {
    (
        ConnectView { phase: ConnectPhaseView::ShowPin { anew }, ..s },
        ConnectActionView::Request(bare("POST"@, "/pair-pin-start"@)),
    )
}

pub open spec fn reuse_seed_of(s: ConnectView) -> Option<Seq<u8>> {
    match s.identity {
        Some(id) => Some(id.seed),
        None => None,
    }
}

/// Pairing with a code begins.
pub open spec fn pair_with(s: ConnectView, code: Seq<char>, secret: Seq<u8>) -> (
    ConnectView,
    ConnectActionView,
) {
    let (attempt, request) = attempt_begun(s.pairing_id, code, reuse_seed_of(s), secret);
    (
        ConnectView { phase: ConnectPhaseView::Pairing(attempt), ..s },
        ConnectActionView::Request(request),
    )
}

/// The way to pair: with the code that was given, or else with the saved identity, or else with
/// the code that the receiver shows.
pub open spec fn choose_pairing(s: ConnectView, secret: Seq<u8>) -> (
    ConnectView,
    ConnectActionView,
) {
    if s.pin.len() > 0 {
        pair_with(s, s.pin, secret)
    } else {
        match s.identity {
            Some(id) => (
                ConnectView {
                    phase: ConnectPhaseView::SavedVerify(
                        PairVerifyView {
                            pairing_id: s.pairing_id,
                            secret,
                            keys: identity_keys(id),
                            phase: VerifyPhaseView::AwaitV2,
                        },
                    ),
                    ..s
                },
                ConnectActionView::Request(marked(posted(PAIR_VERIFY_PATH@, verify_v1(secret)))),
            ),
            None => show_pin(s, false),
        }
    }
}

/// The keys are agreed on: the channel is encrypted where there are keys for it.
pub open spec fn agreed(s: ConnectView, keys: PairKeysView, save: bool) -> (
    ConnectView,
    ConnectActionView,
) {
    if keys.write_key.len() > 0 {
        (
            ConnectView { phase: ConnectPhaseView::Encrypt { keys, save }, ..s },
            ConnectActionView::Encrypt { write_key: keys.write_key, read_key: keys.read_key },
        )
    } else {
        encrypted(s, keys, save)
    }
}

/// What follows: the identity is kept, or the receiver is paired.
pub open spec fn encrypted(s: ConnectView, keys: PairKeysView, save: bool) -> (
    ConnectView,
    ConnectActionView,
) {
    if save {
        (
            ConnectView { phase: ConnectPhaseView::Save(keys), ..s },
            ConnectActionView::Save { public: keys.ed25519_public, seed: keys.ed25519_seed },
        )
    } else {
        (ConnectView { phase: ConnectPhaseView::Paired(keys), ..s }, ConnectActionView::Paired)
    }
}

/// The receiver is dialled again.
pub open spec fn redial(s: ConnectView) -> (ConnectView, ConnectActionView) {
    (
        ConnectView { phase: ConnectPhaseView::Redial, ..s },
        ConnectActionView::Dial { pause: false },
    )
}

/// The reply in an event, if it brings one.
pub open spec fn reply_in(e: ConnectEventView) -> Option<Seq<u8>> {
    match e {
        ConnectEventView::Replied(b) => Some(b),
        _ => None,
    }
}

/// Whether an event is the outcome of a request.
pub open spec fn answered(e: ConnectEventView) -> bool {
    e is Replied || e is Failed
}

/// What the receiver says of itself in an event.
pub open spec fn info_in(e: ConnectEventView) -> Option<ReceiverInfoView> {
    match e {
        ConnectEventView::Replied(b) => info_read(b),
        _ => None,
    }
}

/// The saved identity is tried; where it fails, the receiver is dialled again.
pub open spec fn saved_verify_next(s: ConnectView, m: PairVerifyView, reply: Option<Seq<u8>>) -> (
    ConnectView,
    ConnectActionView,
) {
    match reply {
        None => redial(s),
        Some(body) => match verify_reply(m, body) {
            Err(_) => redial(s),
            Ok((next, Some(message))) => (
                ConnectView { phase: ConnectPhaseView::SavedVerify(next), ..s },
                ConnectActionView::Request(marked(posted(PAIR_VERIFY_PATH@, message))),
            ),
            Ok((next, None)) => agreed(s, next.keys, false),
        },
    }
}

/// The receiver's key, where the raw exchange brought one.
pub open spec fn with_server_pk(s: ConnectView, pk: Option<Seq<u8>>) -> ConnectView {
    match pk {
        Some(pk) => ConnectView { info: ReceiverInfoView { pk, ..s.info }, ..s },
        None => s,
    }
}

/// An attempt goes on; where it ends well the keys are agreed on.
pub open spec fn pairing_next(
    s: ConnectView,
    m: PairAttemptView,
    reply: Option<Seq<u8>>,
    secret: Seq<u8>,
    transient: bool,
) -> Result<(ConnectView, ConnectActionView), AttemptError> {
    match attempt_next(m, reply, secret) {
        Err(e) => Err(e),
        Ok((next, Some(request))) => Ok(
            (
                ConnectView {
                    phase: if transient {
                        ConnectPhaseView::Transient(next)
                    } else {
                        ConnectPhaseView::Pairing(next)
                    },
                    ..s
                },
                ConnectActionView::Request(request),
            ),
        ),
        Ok((next, None)) => match next.phase {
            AttemptPhaseView::Done(keys) => Ok(
                agreed(with_server_pk(s, next.server_pk), keys, !transient),
            ),
            _ => Err(AttemptError::Finished),
        },
    }
}

/// The code that was asked for. It is tried on the connection that there is, or on a new one.
pub open spec fn code_given(s: ConnectView, code: Option<Seq<char>>, anew: bool, secret: Seq<u8>) -> Result<
    (ConnectView, ConnectActionView),
    ConnectError,
> {
    let text = match code {
        Some(c) => trimmed(c),
        None => Seq::empty(),
    };
    if text.len() == 0 {
        Err(ConnectError::NoCode)
    } else if anew {
        Ok(
            (
                ConnectView {
                    phase: ConnectPhaseView::Retry { left: RECONNECT_ATTEMPTS, code: text },
                    ..s
                },
                ConnectActionView::Dial { pause: false },
            ),
        )
    } else {
        Ok(pair_with(s, text, secret))
    }
}

/// Whether pair-verify is what is under way.
pub open spec fn verifying(phase: ConnectPhaseView) -> bool {
    match phase {
        ConnectPhaseView::SavedVerify(_) => true,
        ConnectPhaseView::Pairing(m) => m.phase is Verify,
        ConnectPhaseView::Transient(m) => m.phase is Verify,
        _ => false,
    }
}

/// Whether what follows pair-verify does so by way of encryption: with keys of their full length,
/// and before anything is kept or the receiver counts as paired.
pub open spec fn channel_kept_secret(before: ConnectPhaseView, action: ConnectActionView) -> bool {
    verifying(before) ==> match action {
        ConnectActionView::Encrypt { write_key, read_key } => write_key.len() == 32
            && read_key.len() == 32,
        ConnectActionView::Save { .. } => false,
        ConnectActionView::Paired => false,
        _ => true,
    }
}

/// What an event does: the state after it and what is to be done next. `secret` is what is drawn
/// at random on the way.
pub open spec fn connect_next(s: ConnectView, e: ConnectEventView, secret: Seq<u8>) -> Result<
    (ConnectView, ConnectActionView),
    ConnectError,
> {
    match s.phase {
        ConnectPhaseView::Dial => match e {
            ConnectEventView::Connected => Ok(
                (
                    ConnectView { phase: ConnectPhaseView::Info, ..s },
                    ConnectActionView::Request(info_request_view()),
                ),
            ),
            ConnectEventView::Failed => Err(ConnectError::Unreachable),
            _ => Err(ConnectError::Unexpected),
        },
        ConnectPhaseView::Info => if answered(e) {
            Ok(choose_pairing(info_taken(s, info_in(e)), secret))
        } else {
            Err(ConnectError::Unexpected)
        },
        ConnectPhaseView::SavedVerify(m) => if answered(e) {
            Ok(saved_verify_next(s, m, reply_in(e)))
        } else {
            Err(ConnectError::Unexpected)
        },
        ConnectPhaseView::Redial => match e {
            ConnectEventView::Connected => Ok(
                (
                    ConnectView { phase: ConnectPhaseView::Reinfo, ..s },
                    ConnectActionView::Request(info_request_view()),
                ),
            ),
            ConnectEventView::Failed => Err(ConnectError::NotReachedAgain),
            _ => Err(ConnectError::Unexpected),
        },
        ConnectPhaseView::Reinfo => if answered(e) {
            Ok(show_pin(info_taken(s, info_in(e)), false))
        } else {
            Err(ConnectError::Unexpected)
        },
        ConnectPhaseView::Transient(m) => if answered(e) {
            match pairing_next(s, m, reply_in(e), secret, true) {
                Ok(next) => Ok(next),
                Err(_) => Ok(show_pin(s, true)),
            }
        } else {
            Err(ConnectError::Unexpected)
        },
        ConnectPhaseView::ShowPin { anew } => if answered(e) {
            Ok(
                (
                    ConnectView { phase: ConnectPhaseView::AskPin { anew }, ..s },
                    ConnectActionView::AskPin,
                ),
            )
        } else {
            Err(ConnectError::Unexpected)
        },
        ConnectPhaseView::AskPin { anew } => match e {
            ConnectEventView::Code(code) => code_given(s, code, anew, secret),
            _ => Err(ConnectError::Unexpected),
        },
        ConnectPhaseView::Retry { left, code } => match e {
            ConnectEventView::Connected => Ok(
                (
                    ConnectView { phase: ConnectPhaseView::RetryInfo { code }, ..s },
                    ConnectActionView::Request(info_request_view()),
                ),
            ),
            ConnectEventView::Failed => if left <= 1 {
                Err(ConnectError::NotReachedAgain)
            } else {
                Ok(
                    (
                        ConnectView {
                            phase: ConnectPhaseView::Retry { left: (left - 1) as u8, code },
                            ..s
                        },
                        ConnectActionView::Dial { pause: true },
                    ),
                )
            },
            _ => Err(ConnectError::Unexpected),
        },
        ConnectPhaseView::RetryInfo { code } => if answered(e) {
            Ok(pair_with(info_taken(s, info_in(e)), code, secret))
        } else {
            Err(ConnectError::Unexpected)
        },
        ConnectPhaseView::Pairing(m) => if answered(e) {
            match pairing_next(s, m, reply_in(e), secret, false) {
                Ok(next) => Ok(next),
                Err(error) => Err(ConnectError::Pairing(error)),
            }
        } else {
            Err(ConnectError::Unexpected)
        },
        ConnectPhaseView::Encrypt { keys, save } => match e {
            ConnectEventView::Done => Ok(encrypted(s, keys, save)),
            _ => Err(ConnectError::Unexpected),
        },
        ConnectPhaseView::Save(keys) => if e is Done || e is Failed {
            Ok((ConnectView { phase: ConnectPhaseView::Paired(keys), ..s }, ConnectActionView::Paired))
        } else {
            Err(ConnectError::Unexpected)
        },
        ConnectPhaseView::Paired(_) => Err(ConnectError::Unexpected),
    }
}

fn info_request() -> (r: ControlRequest)
    ensures
        r@ == info_request_view(),
{
    let mut r: ControlRequest = bare_request("GET", INFO_PATH);
    r.content_type = INFO_CONTENT_TYPE;
    r
}

impl Connect {
    pub open spec fn wf(&self) -> bool {
        match self.phase {
            ConnectPhase::Transient(m) => m.wf(),
            ConnectPhase::Pairing(m) => m.wf(),
            _ => true,
        }
    }

    /// Starts a connection. The first thing to do is to dial the receiver.
    pub fn begin(
        pin: &str,
        announced_pk: &[u8],
        saved: Option<&SavedCredentials>,
        force_pair: bool,
        fresh_id: &str,
    ) -> (r: Connect)
        ensures
            r.wf(),
            r@ == connect_begun(
                pin@,
                announced_pk@,
                match saved {
                    Some(c) => Some(c@),
                    None => None,
                },
                force_pair,
                fresh_id@,
            ),
    {
        let mut pairing_id: String = fresh_id.to_owned();
        let mut identity: Option<Identity> = None;
        if let Some(c) = saved {
            if !force_pair && c.has_pairing_credentials() {
                pairing_id = c.pairing_id.clone();
                if let Some((public, seed)) = c.ed25519_keys() {
                    identity = Some(Identity { public, seed });
                }
            }
        }
        Connect {
            pin: pin.to_owned(),
            pairing_id,
            identity,
            announced_pk: slice_to_vec(announced_pk),
            info: ReceiverInfo::default(),
            phase: ConnectPhase::Dial,
        }
    }

    fn reuse_seed(&self) -> (r: Option<[u8; 32]>)
        ensures
            crate::pairing::attempt::opt_bytes(r) == reuse_seed_of(self@),
    {
        match &self.identity {
            Some(id) => Some(id.seed),
            None => None,
        }
    }

    /// Tries to pair without a code on a connection that is made, and with the code that the
    /// receiver shows where that fails.
    pub fn cascade_transient_then_pin(&mut self, secret: &[u8; 32]) -> (r: ConnectAction)
        ensures
            final(self).wf(),
            ({
                let (attempt, request) = attempt_begun(
                    old(self)@.pairing_id,
                    Seq::empty(),
                    reuse_seed_of(old(self)@),
                    secret@,
                );
                final(self)@ == (ConnectView {
                    phase: ConnectPhaseView::Transient(attempt),
                    ..old(self)@
                }) && r@ == ConnectActionView::Request(request)
            }),
    {
        let none: String = String::new();
        assert(none@ =~= Seq::<char>::empty());
        let (attempt, request) = PairAttempt::begin(
            self.pairing_id.as_str(),
            none.as_str(),
            self.reuse_seed(),
            secret,
        );
        self.phase = ConnectPhase::Transient(attempt);
        ConnectAction::Request(request)
    }

    /// Takes what the receiver says of itself, if it said anything that can be read.
    pub fn take_info(&mut self, info: Option<ReceiverInfo>)
        requires
            old(self).wf(),
        ensures
            final(self).wf(),
            final(self)@ == info_taken(
                old(self)@,
                match info {
                    Some(i) => Some(i@),
                    None => None,
                },
            ),
    {
        let mut read: ReceiverInfo = match info {
            Some(i) => i,
            None => ReceiverInfo::default(),
        };
        read.fill_pk(self.announced_pk.as_slice());
        self.info = read;
    }

    fn read_info(&mut self, body: Option<&[u8]>)
        requires
            old(self).wf(),
        ensures
            final(self).wf(),
            final(self)@ == info_taken(
                old(self)@,
                match body {
                    Some(b) => info_read(b@),
                    None => None,
                },
            ),
    {
        match body {
            Some(b) => match parse_info(b) {
                Ok(info) => self.take_info(Some(info)),
                Err(_) => self.take_info(None),
            },
            None => self.take_info(None),
        }
    }

    /// Asks the receiver to show its code.
    fn pair_pin_display(&mut self, anew: bool) -> (r: ConnectAction)
        ensures
            final(self).wf(),
            (final(self)@, r@) == show_pin(old(self)@, anew),
    {
        self.phase = ConnectPhase::ShowPin { anew };
        ConnectAction::Request(bare_request("POST", "/pair-pin-start"))
    }

    fn pair_with(&mut self, code: &str, secret: &[u8; 32]) -> (r: ConnectAction)
        ensures
            final(self).wf(),
            (final(self)@, r@) == pair_with(old(self)@, code@, secret@),
    {
        let (attempt, request) = PairAttempt::begin(
            self.pairing_id.as_str(),
            code,
            self.reuse_seed(),
            secret,
        );
        self.phase = ConnectPhase::Pairing(attempt);
        ConnectAction::Request(request)
    }

    /// Chooses the way to pair.
    pub fn choose_pairing(&mut self, secret: &[u8; 32]) -> (r: ConnectAction)
        ensures
            final(self).wf(),
            (final(self)@, r@) == choose_pairing(old(self)@, secret@),
    {
        if !self.pin.as_str().is_empty() {
            let code: String = self.pin.clone();
            return self.pair_with(code.as_str(), secret);
        }
        match &self.identity {
            Some(id) => {
                let mut keys = PairKeys::default();
                keys.ed25519_public = slice_to_vec(id.public.as_slice());
                keys.ed25519_seed = slice_to_vec(&id.seed);
                let (verify, v1) = pair_verify_with(self.pairing_id.as_str(), keys, secret);
                self.phase = ConnectPhase::SavedVerify(verify);
                ConnectAction::Request(mark(post_request(PAIR_VERIFY_PATH, v1)))
            },
            None => self.pair_pin_display(false),
        }
    }

    fn encrypted(&mut self, keys: PairKeys, save: bool) -> (r: ConnectAction)
        ensures
            final(self).wf(),
            (final(self)@, r@) == encrypted(old(self)@, keys@, save),
    {
        if save {
            let public: Vec<u8> = slice_to_vec(keys.ed25519_public.as_slice());
            let seed: Vec<u8> = slice_to_vec(keys.ed25519_seed.as_slice());
            self.phase = ConnectPhase::Save(keys);
            ConnectAction::Save { public, seed }
        } else {
            self.phase = ConnectPhase::Paired(keys);
            ConnectAction::Paired
        }
    }

    fn agreed(&mut self, keys: PairKeys, save: bool) -> (r: ConnectAction)
        ensures
            final(self).wf(),
            (final(self)@, r@) == agreed(old(self)@, keys@, save),
    {
        if keys.write_key.len() > 0 {
            let write_key: Vec<u8> = slice_to_vec(keys.write_key.as_slice());
            let read_key: Vec<u8> = slice_to_vec(keys.read_key.as_slice());
            self.phase = ConnectPhase::Encrypt { keys, save };
            ConnectAction::Encrypt { write_key, read_key }
        } else {
            self.encrypted(keys, save)
        }
    }

    fn redial(&mut self) -> (r: ConnectAction)
        ensures
            final(self).wf(),
            (final(self)@, r@) == redial(old(self)@),
    {
        self.phase = ConnectPhase::Redial;
        ConnectAction::Dial { pause: false }
    }

    fn saved_verify_step(&mut self, body: Option<&[u8]>) -> (r: ConnectAction)
        requires
            old(self)@.phase is SavedVerify,
        ensures
            final(self).wf(),
            channel_kept_secret(old(self)@.phase, r@),
            (final(self)@, r@) == saved_verify_next(
                old(self)@,
                old(self)@.phase->SavedVerify_0,
                match body {
                    Some(b) => Some(b@),
                    None => None,
                },
            ),
    {
        let body: &[u8] = match body {
            Some(b) => b,
            None => {
                return self.redial();
            },
        };
        let mut keys: Option<PairKeys> = None;
        if let ConnectPhase::SavedVerify(m) = &mut self.phase {
            match m.reply(body) {
                Ok(PairAction::Send(message)) => {
                    return ConnectAction::Request(mark(post_request(PAIR_VERIFY_PATH, message)));
                },
                Ok(PairAction::Done) => {
                    keys = Some(m.keys.copy());
                },
                Err(_) => {},
            }
        }
        match keys {
            Some(keys) => self.agreed(keys, false),
            None => self.redial(),
        }
    }

    fn pairing_step(&mut self, body: Option<&[u8]>, secret: &[u8; 32]) -> (r: Result<
        ConnectAction,
        AttemptError,
    >)
        requires
            old(self).wf(),
            old(self)@.phase is Pairing || old(self)@.phase is Transient,
        ensures
            final(self).wf(),
            r matches Ok(action) ==> channel_kept_secret(old(self)@.phase, action@),
            ({
                let transient = old(self)@.phase is Transient;
                let m = if transient {
                    old(self)@.phase->Transient_0
                } else {
                    old(self)@.phase->Pairing_0
                };
                match pairing_next(
                    old(self)@,
                    m,
                    crate::pairing::attempt::reply_bytes(body),
                    secret@,
                    transient,
                ) {
                    Ok((next, action)) => r matches Ok(a) && a@ == action && final(self)@ == next,
                    Err(e) => r is Err && r->Err_0 == e && final(self)@ == old(self)@,
                }
            }),
    {
        let mut keys: Option<PairKeys> = None;
        let mut server_pk: Option<[u8; 32]> = None;
        let mut transient: bool = false;
        match &mut self.phase {
            ConnectPhase::Pairing(m) => match m.step_with(body, secret) {
                Err(e) => {
                    return Err(e);
                },
                Ok(Some(request)) => {
                    return Ok(ConnectAction::Request(request));
                },
                Ok(None) => {
                    if let AttemptPhase::Done(k) = &m.phase {
                        keys = Some(k.copy());
                        server_pk = m.server_pk;
                    }
                },
            },
            ConnectPhase::Transient(m) => {
                transient = true;
                match m.step_with(body, secret) {
                    Err(e) => {
                        return Err(e);
                    },
                    Ok(Some(request)) => {
                        return Ok(ConnectAction::Request(request));
                    },
                    Ok(None) => {
                        if let AttemptPhase::Done(k) = &m.phase {
                            keys = Some(k.copy());
                            server_pk = m.server_pk;
                        }
                    },
                }
            },
            _ => {},
        }
        match keys {
            Some(keys) => {
                if let Some(pk) = server_pk {
                    self.info.pk = slice_to_vec(&pk);
                }
                Ok(self.agreed(keys, !transient))
            },
            None => Err(AttemptError::Finished),
        }
    }

    fn code_step(&mut self, code: Option<String>, anew: bool, secret: &[u8; 32]) -> (r: Result<
        ConnectAction,
        ConnectError,
    >)
        ensures
            match code_given(
                old(self)@,
                match code {
                    Some(c) => Some(c@),
                    None => None,
                },
                anew,
                secret@,
            ) {
                Ok((next, action)) => r matches Ok(a) && a@ == action && final(self)@ == next
                    && final(self).wf(),
                Err(e) => r is Err && r->Err_0 == e && *final(self) == *old(self),
            },
    {
        let text: String = match code {
            Some(c) => {
                let all: Vec<char> = chars(c.as_str());
                let kept: Vec<char> = trim(all.as_slice());
                from_chars(kept.as_slice())
            },
            None => {
                let none = String::new();
                assert(none@ =~= Seq::<char>::empty());
                none
            },
        };
        if text.as_str().is_empty() {
            Err(ConnectError::NoCode)
        } else if anew {
            self.phase = ConnectPhase::Retry { left: RECONNECT_ATTEMPTS, code: text };
            Ok(ConnectAction::Dial { pause: false })
        } else {
            Ok(self.pair_with(text.as_str(), secret))
        }
    }

    fn answered_step(&mut self, body: Option<&[u8]>, secret: &[u8; 32]) -> (r: Result<
        ConnectAction,
        ConnectError,
    >)
        requires
            old(self).wf(),
        ensures
            final(self).wf(),
            r matches Ok(action) ==> channel_kept_secret(old(self)@.phase, action@),
            ({
                let e = match body {
                    Some(b) => ConnectEventView::Replied(b@),
                    None => ConnectEventView::Failed,
                };
                match connect_next(old(self)@, e, secret@) {
                    Ok((next, action)) => r matches Ok(a) && a@ == action && final(self)@ == next,
                    Err(e) => r is Err && r->Err_0 == e && final(self)@ == old(self)@,
                }
            }),
    {
        match &self.phase {
            ConnectPhase::Info => {
                self.read_info(body);
                Ok(self.choose_pairing(secret))
            },
            ConnectPhase::SavedVerify(_) => Ok(self.saved_verify_step(body)),
            ConnectPhase::Reinfo => {
                self.read_info(body);
                Ok(self.pair_pin_display(false))
            },
            ConnectPhase::Transient(_) => match self.pairing_step(body, secret) {
                Ok(action) => Ok(action),
                Err(_) => Ok(self.pair_pin_display(true)),
            },
            ConnectPhase::ShowPin { anew } => {
                let anew: bool = *anew;
                self.phase = ConnectPhase::AskPin { anew };
                Ok(ConnectAction::AskPin)
            },
            ConnectPhase::RetryInfo { code } => {
                let code: String = code.clone();
                self.read_info(body);
                Ok(self.pair_with(code.as_str(), secret))
            },
            ConnectPhase::Pairing(_) => match self.pairing_step(body, secret) {
                Ok(action) => Ok(action),
                Err(e) => Err(ConnectError::Pairing(e)),
            },
            ConnectPhase::Dial => if body.is_none() {
                Err(ConnectError::Unreachable)
            } else {
                Err(ConnectError::Unexpected)
            },
            ConnectPhase::Redial => if body.is_none() {
                Err(ConnectError::NotReachedAgain)
            } else {
                Err(ConnectError::Unexpected)
            },
            ConnectPhase::Retry { left, code } => if body.is_some() {
                Err(ConnectError::Unexpected)
            } else if *left <= 1 {
                Err(ConnectError::NotReachedAgain)
            } else {
                let left: u8 = *left - 1;
                let code: String = code.clone();
                self.phase = ConnectPhase::Retry { left, code };
                Ok(ConnectAction::Dial { pause: true })
            },
            ConnectPhase::Save(keys) => if body.is_none() {
                let keys: PairKeys = keys.copy();
                self.phase = ConnectPhase::Paired(keys);
                Ok(ConnectAction::Paired)
            } else {
                Err(ConnectError::Unexpected)
            },
            _ => Err(ConnectError::Unexpected),
        }
    }

    fn connected_step(&mut self) -> (r: Result<ConnectAction, ConnectError>)
        requires
            old(self).wf(),
        ensures
            final(self).wf(),
            forall|secret: Seq<u8>|
                match #[trigger] connect_next(old(self)@, ConnectEventView::Connected, secret) {
                    Ok((next, action)) => r matches Ok(a) && a@ == action && final(self)@ == next,
                    Err(e) => r is Err && r->Err_0 == e && final(self)@ == old(self)@,
                },
    {
        match &self.phase {
            ConnectPhase::Dial => {
                self.phase = ConnectPhase::Info;
            },
            ConnectPhase::Redial => {
                self.phase = ConnectPhase::Reinfo;
            },
            ConnectPhase::Retry { left: _, code } => {
                let code: String = code.clone();
                self.phase = ConnectPhase::RetryInfo { code };
            },
            _ => {
                return Err(ConnectError::Unexpected);
            },
        }
        Ok(ConnectAction::Request(info_request()))
    }

    fn done_step(&mut self) -> (r: Result<ConnectAction, ConnectError>)
        requires
            old(self).wf(),
        ensures
            final(self).wf(),
            forall|secret: Seq<u8>|
                match #[trigger] connect_next(old(self)@, ConnectEventView::Done, secret) {
                    Ok((next, action)) => r matches Ok(a) && a@ == action && final(self)@ == next,
                    Err(e) => r is Err && r->Err_0 == e && final(self)@ == old(self)@,
                },
    {
        match &self.phase {
            ConnectPhase::Encrypt { keys, save } => {
                let keys: PairKeys = keys.copy();
                let save: bool = *save;
                Ok(self.encrypted(keys, save))
            },
            ConnectPhase::Save(keys) => {
                let keys: PairKeys = keys.copy();
                self.phase = ConnectPhase::Paired(keys);
                Ok(ConnectAction::Paired)
            },
            _ => Err(ConnectError::Unexpected),
        }
    }

    /// Takes what happened, with what is drawn at random on the way, and says what to do next. On an
    /// error nothing changes. Behind pair-verify the control channel is encrypted first.
    pub fn step_with(&mut self, event: ConnectEvent, secret: &[u8; 32]) -> (r: Result<
        ConnectAction,
        ConnectError,
    >)
        requires
            old(self).wf(),
        ensures
            final(self).wf(),
            r matches Ok(action) ==> channel_kept_secret(old(self)@.phase, action@),
            match connect_next(old(self)@, event@, secret@) {
                Ok((next, action)) => r matches Ok(a) && a@ == action && final(self)@ == next,
                Err(e) => r is Err && r->Err_0 == e && final(self)@ == old(self)@,
            },
    {
        match event {
            ConnectEvent::Connected => self.connected_step(),
            ConnectEvent::Replied(body) => self.answered_step(Some(body.as_slice()), secret),
            ConnectEvent::Failed => self.answered_step(None, secret),
            ConnectEvent::Code(code) => {
                let anew: bool = match &self.phase {
                    ConnectPhase::AskPin { anew } => *anew,
                    _ => {
                        return Err(ConnectError::Unexpected);
                    },
                };
                self.code_step(code, anew, secret)
            },
            ConnectEvent::Done => self.done_step(),
        }
    }

    /// Takes what happened and says what to do next.
    pub fn step(&mut self, event: ConnectEvent) -> (r: Result<ConnectAction, ConnectError>)
        requires
            old(self).wf(),
        ensures
            final(self).wf(),
            r matches Ok(action) ==> channel_kept_secret(old(self)@.phase, action@),
            exists|secret: Seq<u8>|
                secret.len() == 32 && match #[trigger] connect_next(old(self)@, event@, secret) {
                    Ok((next, action)) => r matches Ok(a) && a@ == action && final(self)@ == next,
                    Err(e) => r is Err && r->Err_0 == e && final(self)@ == old(self)@,
                },
    {
        let secret: [u8; 32] = array32(random_bytes(32).as_slice());
        self.step_with(event, &secret)
    }

    /// The session of a receiver that is paired, with the keys of the handshake behind pairing.
    pub fn finish(self, fp: FairPlayKeys, session_id: &str) -> (r: Option<Session>)
        ensures
            match self@.phase {
                ConnectPhaseView::Paired(keys) => r matches Some(s) && s.pair_keys@ == keys
                    && s.stream_key == fp.stream_key && s.iv == fp.iv && s.ekey == fp.ekey
                    && s.fp_aes_key@ == fp.aes_key@ && s.pairing_id@ == self@.pairing_id
                    && s.session_id@ == session_id@ && s.info@ == self@.info,
                _ => r is None,
            },
    {
        match self.phase {
            ConnectPhase::Paired(keys) => Some(
                Session {
                    pair_keys: keys,
                    stream_key: fp.stream_key,
                    iv: fp.iv,
                    ekey: fp.ekey,
                    fp_aes_key: slice_to_vec(&fp.aes_key),
                    pairing_id: self.pairing_id,
                    session_id: session_id.to_owned(),
                    info: self.info,
                },
            ),
            _ => None,
        }
    }
}

/// A paired session, ready to mirror.
pub struct Session {
    pub pair_keys: PairKeys,
    /// The key of the video stream.
    pub stream_key: [u8; 16],
    pub iv: [u8; 16],
    /// The wrapped key that the receiver unwraps; empty where there is none.
    pub ekey: Vec<u8>,
    /// The unwrapped key, before the pairing secret is mixed in.
    pub fp_aes_key: Vec<u8>,
    pub pairing_id: String,
    pub session_id: String,
    pub info: ReceiverInfo,
}

/// An identity is saved only behind an exchange with a code, and what is saved is the identity of
/// that exchange.
pub proof fn lemma_saved_identity(s: ConnectView, e: ConnectEventView, secret: Seq<u8>)
    requires
        connect_next(s, e, secret) matches Ok((next, action)) && action is Save,
    ensures
        connect_next(s, e, secret) matches Ok((next, action)) && next.phase matches
            ConnectPhaseView::Save(keys) && action == (ConnectActionView::Save {
            public: keys.ed25519_public,
            seed: keys.ed25519_seed,
        }),
        s.phase is Pairing || (s.phase matches ConnectPhaseView::Encrypt { save, .. } && save),
{
}

/// A code that was given beforehand is used before anything that is saved, and without a code a
/// saved identity is tried before a code is asked for.
pub proof fn lemma_pairing_order(s: ConnectView, secret: Seq<u8>)
    ensures
        s.pin.len() > 0 ==> choose_pairing(s, secret).0.phase is Pairing,
        s.pin.len() == 0 && s.identity is Some ==> choose_pairing(s, secret).0.phase is SavedVerify,
        s.pin.len() == 0 && s.identity is None ==> choose_pairing(s, secret).0.phase is ShowPin,
{
}

/// A failure of the saved identity is never the end: the receiver is dialled again.
pub proof fn lemma_saved_failure_redials(s: ConnectView, secret: Seq<u8>)
    requires
        s.phase is SavedVerify,
    ensures
        connect_next(s, ConnectEventView::Failed, secret) == Ok::<
            (ConnectView, ConnectActionView),
            ConnectError,
        >(redial(s)),
{
}

} // verus!
