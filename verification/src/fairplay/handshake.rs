//! The round trips of the handshake, and what stands in for its keys where a receiver does not
//! speak it.
use crate::fairplay::{
    fair_play_m3, fair_play_setup, stream_key_of, FairPlayError, FairPlayKeys, FAIRPLAY_M1,
};
use crate::fpemu::loader::{exchange, ExchangeError, M3_PREFIX};
use crate::playfair::tables::PlayfairTables;
use crate::playfair::unwrapped_key;
use crate::rtsp::request::{
    add_header, post_request, posted, with_header, ControlRequest, ControlRequestView,
};
use vstd::prelude::*;
use vstd::slice::slice_to_vec;

verus! {

/// Where the messages of the handshake go.
pub const FP_SETUP_PATH: &'static str = "/fp-setup";

/// Where the handshake stands.
pub enum FairPlayPhase {
    AwaitM2,
    /// The m3 that was sent.
    AwaitM4(Vec<u8>),
    Done,
}

pub enum FairPlayPhaseView {
    AwaitM2,
    AwaitM4(Seq<u8>),
    Done,
}

impl View for FairPlayPhase {
    type V = FairPlayPhaseView;

    open spec fn view(&self) -> FairPlayPhaseView {
        match *self {
            FairPlayPhase::AwaitM2 => FairPlayPhaseView::AwaitM2,
            FairPlayPhase::AwaitM4(m3) => FairPlayPhaseView::AwaitM4(m3@),
            FairPlayPhase::Done => FairPlayPhaseView::Done,
        }
    }
}

/// A handshake in progress.
pub struct FairPlayHandshake {
    pub phase: FairPlayPhase,
}

/// Why a handshake did not end in keys.
#[derive(Clone, Copy, Debug, PartialEq, Eq, Structural)]
pub enum HandshakeError {
    /// A message got no answer that can be used.
    Refused,
    Failed(FairPlayError),
    /// A reply came after the handshake was over.
    Finished,
}

/// A message of the handshake as it is posted.
pub open spec fn fp_post(message: Seq<u8>) -> ControlRequestView {
    with_header(posted(FP_SETUP_PATH@, message), "X-Apple-ET"@, "32"@)
}

fn fp_request(message: Vec<u8>) -> (r: ControlRequest)
    ensures
        r@ == fp_post(message@),
{
    add_header(post_request(FP_SETUP_PATH, message), "X-Apple-ET", "32")
}

/// The m3 that answers an m2.
pub open spec fn m3_of(snapshot: Seq<u8>, m2: Seq<u8>) -> Result<Seq<u8>, FairPlayError> {
    if m2.len() < 12 {
        Err(FairPlayError::ShortM2 { len: m2.len() as usize })
    } else if m2.len() < 142 {
        Err(FairPlayError::Exchange(ExchangeError::ShortM2 { len: m2.len() as usize }))
    } else {
        match exchange(snapshot, m2.subrange(14, 142)) {
            Ok(hash) => Ok(M3_PREFIX@ + hash),
            Err(e) => Err(FairPlayError::Exchange(e)),
        }
    }
}

/// What a step of the handshake leads to.
pub enum HandshakeStep {
    Post(ControlRequest),
    Keys(FairPlayKeys),
}

/// The keys that stand in for those of a handshake: none but a counter block.
pub open spec fn no_keys(k: FairPlayKeys, iv: [u8; 16]) -> bool {
    &&& k.stream_key@ == Seq::new(16, |i: int| 0u8)
    &&& k.aes_key@ == Seq::new(16, |i: int| 0u8)
    &&& k.iv == iv
    &&& k.ekey@.len() == 0
    &&& k.m3@.len() == 0
}

fn soft_keys(iv: [u8; 16]) -> (r: FairPlayKeys)
    ensures
        no_keys(r, iv),
{
    let zero: [u8; 16] = [0u8; 16];
    assert(zero@ =~= Seq::new(16, |i: int| 0u8));
    FairPlayKeys { stream_key: zero, iv, ekey: Vec::new(), aes_key: zero, m3: Vec::new() }
}

/// What a failed handshake means: the end for a receiver that speaks it, and no keys for another,
/// whose streams go without them.
pub fn fair_play_fallback(error: HandshakeError, supports_fairplay_sap: bool, iv: [u8; 16]) -> (r:
    Result<FairPlayKeys, HandshakeError>)
    ensures
        match r {
            Ok(keys) => !supports_fairplay_sap && no_keys(keys, iv),
            Err(e) => supports_fairplay_sap && e == error,
        },
{
    if supports_fairplay_sap {
        Err(error)
    } else {
        Ok(soft_keys(iv))
    }
}

impl FairPlayHandshake {
    pub open spec fn wf(&self) -> bool {
        self.phase matches FairPlayPhase::AwaitM4(m3) ==> m3@.len() == 164 && m3@[12] < 4
    }

    /// Starts the handshake. The second result is the first request.
    pub fn begin() -> (r: (FairPlayHandshake, ControlRequest))
        ensures
            r.0.wf(),
            r.0.phase@ == FairPlayPhaseView::AwaitM2,
            r.1@ == fp_post(FAIRPLAY_M1@),
    {
        (
            FairPlayHandshake { phase: FairPlayPhase::AwaitM2 },
            fp_request(slice_to_vec(&FAIRPLAY_M1)),
        )
    }

    fn take_m2(&mut self, snapshot: &[u8], m2: &[u8]) -> (r: Result<ControlRequest, FairPlayError>)
        requires
            old(self).wf(),
        ensures
            final(self).wf(),
            match m3_of(snapshot@, m2@) {
                Ok(m3) => r matches Ok(q) && q@ == fp_post(m3) && final(self).phase@
                    == FairPlayPhaseView::AwaitM4(m3),
                Err(e) => r is Err && r->Err_0 == e && *final(self) == *old(self),
            },
    {
        match fair_play_m3(snapshot, m2) {
            Ok(m3) => {
                let request: ControlRequest = fp_request(slice_to_vec(m3.as_slice()));
                self.phase = FairPlayPhase::AwaitM4(m3);
                Ok(request)
            },
            Err(e) => Err(e),
        }
    }

    /// Takes a reply, `None` when the message got none. `iv` and `ekey` are what the sender makes
    /// up. On an error nothing changes.
    pub fn reply(
        &mut self,
        body: Option<&[u8]>,
        snapshot: &[u8],
        tables: &PlayfairTables,
        iv: [u8; 16],
        ekey: [u8; 72],
        shared_secret: &[u8],
    ) -> (r: Result<HandshakeStep, HandshakeError>)
        requires
            old(self).wf(),
            tables.wf(),
        ensures
            final(self).wf(),
            r is Err ==> *final(self) == *old(self),
            match (old(self).phase@, body) {
                (FairPlayPhaseView::Done, _) => r is Err && r->Err_0 == HandshakeError::Finished,
                (_, None) => r is Err && r->Err_0 == HandshakeError::Refused,
                (FairPlayPhaseView::AwaitM2, Some(m2)) => match m3_of(snapshot@, m2@) {
                    Ok(m3) => r matches Ok(HandshakeStep::Post(q)) && q@ == fp_post(m3)
                        && final(self).phase@ == FairPlayPhaseView::AwaitM4(m3),
                    Err(e) => r is Err && r->Err_0 == HandshakeError::Failed(e),
                },
                (FairPlayPhaseView::AwaitM4(m3), Some(m4)) => if m4@.len() < 12 {
                    r is Err && r->Err_0 == HandshakeError::Failed(
                        FairPlayError::ShortM4 { len: m4@.len() as usize },
                    )
                } else {
                    let aes_key = unwrapped_key(tables, m3, ekey@, tables.default_sap@);
                    r matches Ok(HandshakeStep::Keys(keys)) && keys.aes_key@ == aes_key
                        && keys.stream_key@ == stream_key_of(aes_key, shared_secret@) && keys.iv
                        == iv && keys.ekey@ == ekey@ && keys.m3@ == m3 && final(self).phase@
                        == FairPlayPhaseView::Done
                },
            },
    {
        let body: &[u8] = match body {
            Some(b) => b,
            None => {
                return match self.phase {
                    FairPlayPhase::Done => Err(HandshakeError::Finished),
                    _ => Err(HandshakeError::Refused),
                };
            },
        };
        match &self.phase {
            FairPlayPhase::AwaitM2 => match self.take_m2(snapshot, body) {
                Ok(request) => Ok(HandshakeStep::Post(request)),
                Err(e) => Err(HandshakeError::Failed(e)),
            },
            FairPlayPhase::AwaitM4(m3) => match fair_play_setup(
                tables,
                m3.as_slice(),
                body,
                iv,
                ekey,
                shared_secret,
            ) {
                Ok(keys) => {
                    self.phase = FairPlayPhase::Done;
                    Ok(HandshakeStep::Keys(keys))
                },
                Err(e) => Err(HandshakeError::Failed(e)),
            },
            FairPlayPhase::Done => Err(HandshakeError::Finished),
        }
    }
}

} // verus!
