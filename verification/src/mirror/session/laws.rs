//! In which order a mirror session is set up, and what is said on the way.
use crate::latency::Duration;
use crate::mirror::session::{
    first_request, heartbeat_request_of, initial_setup, setup_next, MirrorSetupView,
    SetupActionView, SetupError, SetupEventView, SetupPhase,
};
use crate::mirror::setup::{
    audio_setup_of, event_port_of, video_port_of, video_setup_of, SetupParamsView,
};
use crate::property_list::{plist_binary, plist_parsed, PlistView};
use crate::rtsp::request::ControlRequestView;
use crate::text::decimal_of;
use vstd::prelude::*;

verus! {

/// The address of a stream: the receiver's, and the number of the stream.
pub open spec fn address(p: SetupParamsView, id: i64) -> Seq<char> {
    "rtsp://"@ + p.host + ":"@ + decimal_of(p.port as nat) + "/"@ + decimal_of(id as nat)
}

/// Whether a request sets up what a property list describes.
pub open spec fn sets_up(q: ControlRequestView, uri: Seq<char>, what: PlistView) -> bool {
    &&& q.method == "SETUP"@
    &&& q.uri == uri
    &&& q.content_type == "application/x-apple-binary-plist"@
    &&& plist_binary(what) == Some(q.body)
}

/// Whether a request sets the volume to a text.
pub open spec fn sets_volume(q: ControlRequestView, uri: Seq<char>, volume: Seq<char>) -> bool {
    &&& q.method == "SET_PARAMETER"@
    &&& q.uri == uri
    &&& q.content_type == "text/parameters"@
    &&& q.body.len() == volume.len()
    &&& forall|i: int| 0 <= i < volume.len() ==> #[trigger] q.body[i] == volume[i] as u8
}

proof fn lemma_volumes()
    ensures
        crate::mirror::session::volume_of(false).len() == "volume: 0.000000\r\n"@.len(),
        forall|i: int|
            0 <= i < "volume: 0.000000\r\n"@.len() ==> #[trigger] crate::mirror::session::volume_of(
                false,
            )[i] == "volume: 0.000000\r\n"@[i] as u8,
        crate::mirror::session::volume_of(true).len() == "volume: -144.000000\r\n"@.len(),
        forall|i: int|
            0 <= i < "volume: -144.000000\r\n"@.len()
                ==> #[trigger] crate::mirror::session::volume_of(true)[i]
                == "volume: -144.000000\r\n"@[i] as u8,
{
    reveal_strlit("volume: 0.000000\r\n");
    reveal_strlit("volume: -144.000000\r\n");
}

/// A session starts with the setup of the sound, in a stream whose number is the time, with the
/// latency in samples.
pub proof fn law_session_starts(p: SetupParamsView, latency: Duration, now: u64)
    requires
        now < 0x8000_0000_0000_0000,
    ensures
        ({
            let s = initial_setup(p, latency, now);
            &&& s.phase == SetupPhase::AudioSetup && s.audio_id == now && s.params == p
            &&& s.audio_ports == (0u16, 0u16) && s.event_port == 0 && s.data_port is None
            &&& first_request(s) matches Some(q) ==> sets_up(
                q,
                address(p, now as i64),
                audio_setup_of(p, now as i64, s.latency_samples),
            )
            &&& first_request(s) is None <==> plist_binary(
                audio_setup_of(p, now as i64, s.latency_samples),
            ) is None
        }),
{
}

/// The reply to the setup of the sound is followed by the setup of the video, in a stream of its
/// own number; a refusal ends the session.
pub proof fn law_video_follows_sound(s: MirrorSetupView, headers: Seq<(Seq<char>, Seq<char>)>, body: Seq<u8>, now: u64)
    requires
        s.phase == SetupPhase::AudioSetup,
        now < 0x8000_0000_0000_0000,
    ensures
        setup_next(s, SetupEventView::Replied { headers, body, now }) matches Ok((next, action)) ==> {
            &&& next.phase == SetupPhase::VideoSetup && next.video_id == now && next.audio_id
                == s.audio_id && next.params == s.params
            &&& action matches SetupActionView::Request(q) && sets_up(
                q,
                address(s.params, now as i64),
                video_setup_of(s.params, now as i64),
            )
            &&& next.event_port == (match plist_parsed(body) {
                Some(v) => event_port_of(v),
                None => 0,
            })
        },
        setup_next(s, SetupEventView::Failed) == Err::<(MirrorSetupView, SetupActionView), SetupError>(
            SetupError::Failed(SetupPhase::AudioSetup),
        ),
{
}

/// The port for events is dialled before the port for the video, where there is one, and it does not
/// matter whether that works; without a port for the video there is no session.
pub proof fn law_ports_are_dialled(s: MirrorSetupView, headers: Seq<(Seq<char>, Seq<char>)>, body: Seq<u8>, now: u64)
    requires
        s.phase == SetupPhase::VideoSetup,
        plist_parsed(body) is Some,
    ensures
        ({
            let reply = plist_parsed(body)->Some_0;
            let events = if s.event_port != 0 {
                s.event_port
            } else {
                event_port_of(reply)
            };
            let taken = setup_next(s, SetupEventView::Replied { headers, body, now });
            &&& events > 0 ==> (taken matches Ok((next, action)) && action
                == SetupActionView::DialEvent(events) && next.phase == SetupPhase::EventDial
                && setup_next(next, SetupEventView::Connected) == setup_next(
                next,
                SetupEventView::Failed,
            ) && match video_port_of(reply) {
                Some(port) => setup_next(next, SetupEventView::Failed) matches Ok((then, dial))
                    && dial == SetupActionView::DialData(port) && then.phase == SetupPhase::DataDial,
                None => setup_next(next, SetupEventView::Failed) is Err,
            })
            &&& events == 0 ==> match video_port_of(reply) {
                Some(port) => taken matches Ok((next, action)) && action
                    == SetupActionView::DialData(port) && next.phase == SetupPhase::DataDial,
                None => taken == Err::<(MirrorSetupView, SetupActionView), SetupError>(
                    SetupError::NoDataPort,
                ),
            }
        }),
{
}

/// Once the video port is connected the session is started, the volume is set to full twice and then,
/// if so wished, to mute; only then frames flow.
pub proof fn law_session_starts_to_stream(s: MirrorSetupView, e: SetupEventView)
    ensures
        ({
            let uri = address(s.params, s.audio_id);
            let answered = e is Replied || e is Failed;
            let taken = setup_next(s, e);
            &&& s.phase == SetupPhase::DataDial && e is Connected ==> (taken matches Ok(
                (next, SetupActionView::Request(q)),
            ) && next == (MirrorSetupView { phase: SetupPhase::Record, ..s }) && q.method == "RECORD"@
                && q.uri == uri && q.body.len() == 0 && q.headers == seq![
                ("Session"@, s.params.session_uuid),
                ("Range"@, "npt=0-"@),
                ("RTP-Info"@, "seq=0;rtptime=0"@),
            ])
            &&& s.phase == SetupPhase::DataDial && e is Failed ==> taken is Err
            &&& s.phase == SetupPhase::Record && e is Failed ==> taken is Err
            &&& s.phase == SetupPhase::Record && e is Replied ==> (taken matches Ok(
                (next, SetupActionView::Request(q)),
            ) && next.phase == SetupPhase::FirstVolume && sets_volume(
                q,
                uri,
                "volume: 0.000000\r\n"@,
            ))
            &&& s.phase == SetupPhase::FirstVolume && answered ==> (taken matches Ok(
                (next, SetupActionView::Request(q)),
            ) && next == (MirrorSetupView { phase: SetupPhase::SecondVolume, ..s }) && sets_volume(
                q,
                uri,
                "volume: 0.000000\r\n"@,
            ))
            &&& s.phase == SetupPhase::SecondVolume && answered && s.params.mute_audio ==> (
            taken matches Ok((next, SetupActionView::Request(q))) && next == (MirrorSetupView {
                phase: SetupPhase::Mute,
                ..s
            }) && sets_volume(q, uri, "volume: -144.000000\r\n"@))
            &&& s.phase == SetupPhase::SecondVolume && answered && !s.params.mute_audio ==> taken
                == Ok::<_, SetupError>(
                (
                    MirrorSetupView { phase: SetupPhase::Streaming, ..s },
                    SetupActionView::Stream,
                ),
            )
            &&& s.phase == SetupPhase::Mute && answered ==> taken == Ok::<_, SetupError>(
                (
                    MirrorSetupView { phase: SetupPhase::Streaming, ..s },
                    SetupActionView::Stream,
                ),
            )
            &&& taken matches Ok((_, action)) ==> (action is Stream ==> s.phase
                == SetupPhase::SecondVolume || s.phase == SetupPhase::Mute)
        }),
{
    lemma_volumes();
}

/// A receiver that states its own latency in its answer to the start is taken by its word, and the
/// same latency holds in samples and in time.
pub proof fn law_stated_latency(s: MirrorSetupView, e: SetupEventView)
    requires
        s.phase == SetupPhase::Record,
    ensures
        setup_next(s, e) matches Ok((next, _)) ==> (next.latency == s.latency && next.latency_samples
            == s.latency_samples) || (next.latency_samples > 0 && next.latency.nanos * 44_100
            <= next.latency_samples * 1_000_000_000 < (next.latency.nanos + 1) * 44_100),
{
}

/// The control channel is kept alive under the session's own name.
pub proof fn law_heartbeat_request(uri: Seq<char>, session: Seq<char>)
    ensures
        ({
            let q = heartbeat_request_of(uri, session);
            q.method == "GET_PARAMETER"@ && q.uri == uri && q.headers == seq![("Session"@, session)]
                && q.body.len() == 0
        }),
{
}

} // verus!
