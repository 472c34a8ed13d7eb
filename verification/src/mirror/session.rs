//! The conversation that starts a mirror session, and what keeps it alive.
pub mod laws;

use crate::latency::{latency_of_samples, samples_44k1, samples_for_44k1, Duration};
use crate::mirror::cipher::{choose_cipher, chosen_cipher, VideoCipher};
use crate::mirror::setup::{
    audio_ports_of, audio_setup, audio_setup_of, event_port_of, extract_audio_ports,
    extract_event_port, extract_video_data_port, stream_id, stream_id_of, stream_uri,
    stream_uri_of, video_port_of, video_setup, video_setup_of, SetupParams, SetupParamsView,
    PLIST_CONTENT_TYPE,
};
use crate::property_list::{
    marshal_plist, parse_plist, plist_binary, plist_parsed, Plist, PlistView,
};
use crate::rtsp::message::{get_header, header, header_get, header_pairs, Header};
use crate::rtsp::request::{bare, bare_request, ControlRequest, ControlRequestView};
use crate::text::{chars, parse_unsigned, trim, trimmed, unsigned_of};
use vstd::prelude::*;
use vstd::slice::slice_to_vec;

verus! {

/// A request that sets a stream up.
pub open spec fn setup_request_of(uri: Seq<char>, body: Seq<u8>) -> ControlRequestView {
    ControlRequestView { content_type: PLIST_CONTENT_TYPE@, body, ..bare("SETUP"@, uri) }
}

/// The volume that everything is played at.
pub const FULL_VOLUME: [u8; 18] = [
    0x76, 0x6f, 0x6c, 0x75, 0x6d, 0x65, 0x3a, 0x20, 0x30, 0x2e, 0x30, 0x30, 0x30, 0x30, 0x30, 0x30,
    0x0d, 0x0a,
];

/// The volume that mutes the sound.
pub const MUTED_VOLUME: [u8; 21] = [
    0x76, 0x6f, 0x6c, 0x75, 0x6d, 0x65, 0x3a, 0x20, 0x2d, 0x31, 0x34, 0x34, 0x2e, 0x30, 0x30, 0x30,
    0x30, 0x30, 0x30, 0x0d, 0x0a,
];

/// The bytes that set the volume, muted or not.
pub open spec fn volume_of(muted: bool) -> Seq<u8> {
    if muted {
        MUTED_VOLUME@
    } else {
        FULL_VOLUME@
    }
}

/// A request that sets the volume.
pub open spec fn volume_request_of(uri: Seq<char>, muted: bool) -> ControlRequestView {
    ControlRequestView {
        content_type: "text/parameters"@,
        body: volume_of(muted),
        ..bare("SET_PARAMETER"@, uri)
    }
}

/// A request that sets the volume to full or to muted.
pub fn volume_request(uri: &str, muted: bool) -> (r: ControlRequest)
    ensures
        r@ == volume_request_of(uri@, muted),
{
    let mut r: ControlRequest = bare_request("SET_PARAMETER", uri);
    r.content_type = "text/parameters";
    r.body = if muted {
        slice_to_vec(&MUTED_VOLUME)
    } else {
        slice_to_vec(&FULL_VOLUME)
    };
    assert(r@ =~= volume_request_of(uri@, muted));
    r
}

/// The request that starts the session.
pub open spec fn record_request_of(uri: Seq<char>, session: Seq<char>) -> ControlRequestView {
    ControlRequestView {
        headers: seq![
            ("Session"@, session),
            ("Range"@, "npt=0-"@),
            ("RTP-Info"@, "seq=0;rtptime=0"@),
        ],
        ..bare("RECORD"@, uri)
    }
}

fn record_request(uri: &str, session: &str) -> (r: ControlRequest)
    ensures
        r@ == record_request_of(uri@, session@),
{
    let mut headers: Vec<Header> = Vec::new();
    headers.push(header("Session", session));
    headers.push(header("Range", "npt=0-"));
    headers.push(header("RTP-Info", "seq=0;rtptime=0"));
    assert(headers@[0]@ == ("Session"@, session@));
    assert(headers@[1]@ == ("Range"@, "npt=0-"@));
    assert(header_pairs(headers@) =~= record_request_of(uri@, session@).headers);
    let mut r: ControlRequest = bare_request("RECORD", uri);
    r.headers = headers;
    r
}

/// The request that keeps the control channel alive.
pub open spec fn heartbeat_request_of(uri: Seq<char>, session: Seq<char>) -> ControlRequestView {
    ControlRequestView { headers: seq![("Session"@, session)], ..bare("GET_PARAMETER"@, uri) }
}

/// The request that keeps the control channel alive.
pub fn heartbeat_request(uri: &str, session: &str) -> (r: ControlRequest)
    ensures
        r@ == heartbeat_request_of(uri@, session@),
{
    let mut r: ControlRequest = bare_request("GET_PARAMETER", uri);
    r.headers.push(header("Session", session));
    assert(r@ =~= heartbeat_request_of(uri@, session@));
    r
}

/// The request that tells the receiver that the sender is still there.
pub fn feedback_request() -> (r: ControlRequest)
    ensures
        r@ == bare("POST"@, "/feedback"@),
{
    bare_request("POST", "/feedback")
}

/// The request that ends the session.
pub fn teardown_request(uri: &str) -> (r: ControlRequest)
    ensures
        r@ == bare("TEARDOWN"@, uri@),
{
    bare_request("TEARDOWN", uri)
}

/// How many heartbeats in a row may fail before no more are sent.
pub const HEARTBEAT_FAILURES: u32 = 3;

/// The heartbeats of the control channel.
#[derive(Clone, Copy, Debug, PartialEq, Eq, Structural)]
pub struct Heartbeat {
    /// How many have failed since one was answered.
    pub failures: u32,
}

impl Heartbeat {
    pub open spec fn wf(&self) -> bool {
        self.failures < HEARTBEAT_FAILURES
    }

    pub fn new() -> (r: Heartbeat)
        ensures
            r.wf(),
            r.failures == 0,
    {
        Heartbeat { failures: 0 }
    }

    /// Notes how a heartbeat went; false when it was the last.
    pub fn beat(&mut self, answered: bool) -> (r: bool)
        requires
            old(self).wf(),
        ensures
            r == (answered || old(self).failures + 1 < HEARTBEAT_FAILURES),
            r ==> final(self).wf(),
            final(self).failures == (if answered {
                0int
            } else {
                old(self).failures + 1
            }),
    {
        if answered {
            self.failures = 0;
            return true;
        }
        self.failures = self.failures + 1;
        self.failures < HEARTBEAT_FAILURES
    }
}

/// What the start of a session waits for.
#[derive(Clone, Copy, Debug, PartialEq, Eq, Structural)]
pub enum SetupPhase {
    AudioSetup,
    VideoSetup,
    EventDial,
    DataDial,
    Record,
    FirstVolume,
    SecondVolume,
    Mute,
    Streaming,
}

/// Why a session could not be started.
#[derive(Clone, Copy, Debug, PartialEq, Eq, Structural)]
pub enum SetupError {
    /// A setup request cannot be written.
    Unwritable,
    /// A request was refused, or a connection could not be made.
    Failed(SetupPhase),
    /// The reply to the setup of the video cannot be read.
    BadVideoReply,
    /// The reply to the setup of the video states no port.
    NoDataPort,
    /// What happened does not fit what was waited for.
    Unexpected,
}

/// What happened.
pub enum SetupEvent {
    /// The receiver answered a request at a time in nanoseconds.
    Replied { headers: Vec<Header>, body: Vec<u8>, now: u64 },
    /// A connection was made.
    Connected,
    /// The request was refused or the connection not made.
    Failed,
}

pub enum SetupEventView {
    Replied { headers: Seq<(Seq<char>, Seq<char>)>, body: Seq<u8>, now: u64 },
    Connected,
    Failed,
}

impl View for SetupEvent {
    type V = SetupEventView;

    open spec fn view(&self) -> SetupEventView {
        match *self {
            SetupEvent::Replied { headers, body, now } => SetupEventView::Replied {
                headers: header_pairs(headers@),
                body: body@,
                now,
            },
            SetupEvent::Connected => SetupEventView::Connected,
            SetupEvent::Failed => SetupEventView::Failed,
        }
    }
}

/// What is to be done next.
pub enum SetupAction {
    Request(ControlRequest),
    /// Connect to the port on which the receiver takes events, and keep the connection.
    DialEvent(u16),
    /// Connect to the port on which the receiver takes video.
    DialData(u16),
    /// Everything is set up.
    Stream,
}

pub enum SetupActionView {
    Request(ControlRequestView),
    DialEvent(u16),
    DialData(u16),
    Stream,
}

impl View for SetupAction {
    type V = SetupActionView;

    open spec fn view(&self) -> SetupActionView {
        match *self {
            SetupAction::Request(q) => SetupActionView::Request(q@),
            SetupAction::DialEvent(p) => SetupActionView::DialEvent(p),
            SetupAction::DialData(p) => SetupActionView::DialData(p),
            SetupAction::Stream => SetupActionView::Stream,
        }
    }
}

/// The start of a session.
pub struct MirrorSetup {
    pub params: SetupParams,
    pub phase: SetupPhase,
    pub audio_id: i64,
    pub video_id: i64,
    /// The receiver's ports for the sound, data and control; 0 when it stated none.
    pub audio_ports: (u16, u16),
    pub event_port: u16,
    pub data_port: Option<u16>,
    /// The playout latency of sound and video.
    pub latency: Duration,
    pub latency_samples: u32,
}

#[verifier::ext_equal]
pub struct MirrorSetupView {
    pub params: SetupParamsView,
    pub phase: SetupPhase,
    pub audio_id: i64,
    pub video_id: i64,
    pub audio_ports: (u16, u16),
    pub event_port: u16,
    pub data_port: Option<u16>,
    pub latency: Duration,
    pub latency_samples: u32,
}

impl View for MirrorSetup {
    type V = MirrorSetupView;

    open spec fn view(&self) -> MirrorSetupView {
        MirrorSetupView {
            params: self.params@,
            phase: self.phase,
            audio_id: self.audio_id,
            video_id: self.video_id,
            audio_ports: self.audio_ports,
            event_port: self.event_port,
            data_port: self.data_port,
            latency: self.latency,
            latency_samples: self.latency_samples,
        }
    }
}

/// The address of the sound, which is that of the session.
pub open spec fn audio_uri_of(s: MirrorSetupView) -> Seq<char> {
    stream_uri_of(s.params.host, s.params.port, s.audio_id)
}

/// The state before anything was said.
pub open spec fn initial_setup(p: SetupParamsView, latency: Duration, now: u64) -> MirrorSetupView {
    MirrorSetupView {
        params: p,
        phase: SetupPhase::AudioSetup,
        audio_id: stream_id_of(now),
        video_id: 0,
        audio_ports: (0, 0),
        event_port: 0,
        data_port: None,
        latency,
        latency_samples: samples_44k1(latency.nanos as int) as u32,
    }
}

/// The first request: it sets the sound up.
pub open spec fn first_request(s: MirrorSetupView) -> Option<ControlRequestView> {
    match plist_binary(audio_setup_of(s.params, s.audio_id, s.latency_samples)) {
        Some(body) => Some(setup_request_of(audio_uri_of(s), body)),
        None => None,
    }
}

/// The reply to the setup of the sound, if it could be read: its ports are noted, and the video is
/// set up.
pub open spec fn audio_replied(s: MirrorSetupView, reply: Option<PlistView>, now: u64) -> (
    MirrorSetupView,
    PlistView,
) {
    let next = MirrorSetupView {
        phase: SetupPhase::VideoSetup,
        video_id: stream_id_of(now),
        audio_ports: match reply {
            Some(v) => match audio_ports_of(v) {
                Some(ports) => ports,
                None => (0, 0),
            },
            None => (0, 0),
        },
        event_port: match reply {
            Some(v) => event_port_of(v),
            None => 0,
        },
        ..s
    };
    (next, video_setup_of(s.params, next.video_id))
}

/// The connection to the video port is next.
pub open spec fn dial_data(s: MirrorSetupView) -> Result<
    (MirrorSetupView, SetupActionView),
    SetupError,
> {
    match s.data_port {
        Some(port) => Ok(
            (
                MirrorSetupView { phase: SetupPhase::DataDial, ..s },
                SetupActionView::DialData(port),
            ),
        ),
        None => Err(SetupError::NoDataPort),
    }
}

/// The reply to the setup of the video. The event port counts only where the sound's reply had
/// none.
pub open spec fn video_replied(s: MirrorSetupView, reply: PlistView) -> Result<
    (MirrorSetupView, SetupActionView),
    SetupError,
> {
    let noted = MirrorSetupView {
        event_port: if s.event_port == 0 {
            event_port_of(reply)
        } else {
            s.event_port
        },
        data_port: video_port_of(reply),
        ..s
    };
    if noted.event_port > 0 {
        Ok(
            (
                MirrorSetupView { phase: SetupPhase::EventDial, ..noted },
                SetupActionView::DialEvent(noted.event_port),
            ),
        )
    } else {
        dial_data(noted)
    }
}

/// The receiver's own latency in samples, if its reply states one.
pub open spec fn stated_latency(headers: Seq<(Seq<char>, Seq<char>)>) -> Option<u32> {
    match header_get(headers, "audio-latency"@) {
        Some(value) => match unsigned_of(trimmed(value), u32::MAX as nat) {
            Some(n) => if n > 0 {
                Some(n as u32)
            } else {
                None
            },
            None => None,
        },
        None => None,
    }
}

/// The state with the receiver's own latency, if it states one.
pub open spec fn with_latency(s: MirrorSetupView, samples: Option<u32>) -> MirrorSetupView {
    match samples {
        Some(n) => MirrorSetupView {
            latency: Duration { nanos: (n as int * 1_000_000_000 / 44_100) as u128 },
            latency_samples: n,
            ..s
        },
        None => s,
    }
}

/// The volume is set, or nothing is left to do.
pub open spec fn volume_step(s: MirrorSetupView) -> (MirrorSetupView, SetupActionView) {
    let uri = audio_uri_of(s);
    match s.phase {
        SetupPhase::Record => (
            MirrorSetupView { phase: SetupPhase::FirstVolume, ..s },
            SetupActionView::Request(volume_request_of(uri, false)),
        ),
        SetupPhase::FirstVolume => (
            MirrorSetupView { phase: SetupPhase::SecondVolume, ..s },
            SetupActionView::Request(volume_request_of(uri, false)),
        ),
        SetupPhase::SecondVolume => if s.params.mute_audio {
            (
                MirrorSetupView { phase: SetupPhase::Mute, ..s },
                SetupActionView::Request(volume_request_of(uri, true)),
            )
        } else {
            (MirrorSetupView { phase: SetupPhase::Streaming, ..s }, SetupActionView::Stream)
        },
        _ => (MirrorSetupView { phase: SetupPhase::Streaming, ..s }, SetupActionView::Stream),
    }
}

/// What an event does: the state after it and what is to be done next.
pub open spec fn setup_next(s: MirrorSetupView, e: SetupEventView) -> Result<
    (MirrorSetupView, SetupActionView),
    SetupError,
> {
    match (s.phase, e) {
        (SetupPhase::AudioSetup, SetupEventView::Replied { headers, body, now }) => {
            let (next, request) = audio_replied(s, plist_parsed(body), now);
            match plist_binary(request) {
                Some(body) => Ok(
                    (
                        next,
                        SetupActionView::Request(
                            setup_request_of(
                                stream_uri_of(s.params.host, s.params.port, next.video_id),
                                body,
                            ),
                        ),
                    ),
                ),
                None => Err(SetupError::Unwritable),
            }
        },
        (SetupPhase::VideoSetup, SetupEventView::Replied { headers, body, now }) => {
            match plist_parsed(body) {
                Some(reply) => video_replied(s, reply),
                None => Err(SetupError::BadVideoReply),
            }
        },
        (SetupPhase::EventDial, SetupEventView::Connected) => dial_data(s),
        (SetupPhase::EventDial, SetupEventView::Failed) => dial_data(s),
        (SetupPhase::DataDial, SetupEventView::Connected) => Ok(
            (
                MirrorSetupView { phase: SetupPhase::Record, ..s },
                SetupActionView::Request(
                    record_request_of(audio_uri_of(s), s.params.session_uuid),
                ),
            ),
        ),
        (SetupPhase::Record, SetupEventView::Replied { headers, body, now }) => Ok(
            volume_step(with_latency(s, stated_latency(headers))),
        ),
        (SetupPhase::AudioSetup, SetupEventView::Failed) => Err(SetupError::Failed(s.phase)),
        (SetupPhase::VideoSetup, SetupEventView::Failed) => Err(SetupError::Failed(s.phase)),
        (SetupPhase::DataDial, SetupEventView::Failed) => Err(SetupError::Failed(s.phase)),
        (SetupPhase::Record, SetupEventView::Failed) => Err(SetupError::Failed(s.phase)),
        (SetupPhase::FirstVolume, SetupEventView::Replied { .. }) => Ok(volume_step(s)),
        (SetupPhase::FirstVolume, SetupEventView::Failed) => Ok(volume_step(s)),
        (SetupPhase::SecondVolume, SetupEventView::Replied { .. }) => Ok(volume_step(s)),
        (SetupPhase::SecondVolume, SetupEventView::Failed) => Ok(volume_step(s)),
        (SetupPhase::Mute, SetupEventView::Replied { .. }) => Ok(volume_step(s)),
        (SetupPhase::Mute, SetupEventView::Failed) => Ok(volume_step(s)),
        _ => Err(SetupError::Unexpected),
    }
}

fn setup_request(uri: &str, body: Vec<u8>) -> (r: ControlRequest)
    ensures
        r@ == setup_request_of(uri@, body@),
{
    let mut r: ControlRequest = bare_request("SETUP", uri);
    r.content_type = PLIST_CONTENT_TYPE;
    r.body = body;
    assert(r@ =~= setup_request_of(uri@, body@));
    r
}

/// The receiver's own latency in samples, if its reply states one.
pub fn read_latency(headers: &[Header]) -> (r: Option<u32>)
    ensures
        r == stated_latency(header_pairs(headers@)),
{
    match get_header(headers, "audio-latency") {
        Some(value) => {
            let all: Vec<char> = chars(value.as_str());
            let digits: Vec<char> = trim(all.as_slice());
            match parse_unsigned(digits.as_slice(), u32::MAX as u64) {
                Some(n) => if n > 0 {
                    Some(n as u32)
                } else {
                    None
                },
                None => None,
            }
        },
        None => None,
    }
}

impl MirrorSetup {
    pub open spec fn wf(&self) -> bool {
        self.audio_id >= 0 && self.video_id >= 0
    }

    /// Starts a session with a playout latency, at a time in nanoseconds. The second result is the
    /// first request.
    pub fn begin(params: SetupParams, latency: Duration, now: u64) -> (r: Result<
        (MirrorSetup, ControlRequest),
        SetupError,
    >)
        ensures
            match first_request(initial_setup(params@, latency, now)) {
                Some(request) => r matches Ok(pair) && pair.0.wf() && pair.0@ == initial_setup(
                    params@,
                    latency,
                    now,
                ) && pair.1@ == request,
                None => r is Err && r->Err_0 == SetupError::Unwritable,
            },
    {
        let audio_id: i64 = stream_id(now);
        let latency_samples: u32 = samples_for_44k1(latency);
        let body: Vec<u8> = match marshal_plist(&audio_setup(&params, audio_id, latency_samples)) {
            Some(b) => b,
            None => {
                return Err(SetupError::Unwritable);
            },
        };
        let uri: String = stream_uri(params.host.as_str(), params.port, audio_id);
        let request: ControlRequest = setup_request(uri.as_str(), body);
        let setup = MirrorSetup {
            params,
            phase: SetupPhase::AudioSetup,
            audio_id,
            video_id: 0,
            audio_ports: (0, 0),
            event_port: 0,
            data_port: None,
            latency,
            latency_samples,
        };
        Ok((setup, request))
    }

    pub fn audio_uri(&self) -> (r: String)
        requires
            self.wf(),
        ensures
            r@ == audio_uri_of(self@),
    {
        stream_uri(self.params.host.as_str(), self.params.port, self.audio_id)
    }

    /// Takes the reply to the setup of the sound, if it could be read. The result is the setup of
    /// the video.
    pub fn take_audio_reply(&mut self, reply: Option<&Plist>, now: u64) -> (r: Plist)
        requires
            old(self).wf(),
        ensures
            final(self).wf(),
            ({
                let given = match reply {
                    Some(v) => Some(v@),
                    None => None,
                };
                (final(self)@, r@) == audio_replied(old(self)@, given, now)
            }),
            crate::property_list::writable(r@),
    {
        self.phase = SetupPhase::VideoSetup;
        self.video_id = stream_id(now);
        match reply {
            Some(v) => {
                self.audio_ports = match extract_audio_ports(v) {
                    Some(ports) => ports,
                    None => (0, 0),
                };
                self.event_port = extract_event_port(v);
            },
            None => {
                self.audio_ports = (0, 0);
                self.event_port = 0;
            },
        }
        video_setup(&self.params, self.video_id)
    }

    fn dial_data(&mut self) -> (r: Result<SetupAction, SetupError>)
        requires
            old(self).wf(),
        ensures
            final(self).wf(),
            match dial_data(old(self)@) {
                Ok((next, action)) => r matches Ok(a) && a@ == action && final(self)@ == next,
                Err(e) => r is Err && r->Err_0 == e && final(self)@ == old(self)@,
            },
    {
        match self.data_port {
            Some(port) => {
                self.phase = SetupPhase::DataDial;
                Ok(SetupAction::DialData(port))
            },
            None => Err(SetupError::NoDataPort),
        }
    }

    /// Takes the reply to the setup of the video.
    pub fn take_video_reply(&mut self, reply: &Plist) -> (r: Result<SetupAction, SetupError>)
        requires
            old(self).wf(),
        ensures
            final(self).wf(),
            match video_replied(old(self)@, reply@) {
                Ok((next, action)) => r matches Ok(a) && a@ == action && final(self)@ == next,
                Err(e) => r is Err && r->Err_0 == e && final(self)@ == old(self)@,
            },
    {
        let event_port: u16 = if self.event_port == 0 {
            extract_event_port(reply)
        } else {
            self.event_port
        };
        let data_port: Option<u16> = extract_video_data_port(reply);
        if event_port == 0 && data_port.is_none() {
            return Err(SetupError::NoDataPort);
        }
        self.event_port = event_port;
        self.data_port = data_port;
        if event_port > 0 {
            self.phase = SetupPhase::EventDial;
            Ok(SetupAction::DialEvent(event_port))
        } else {
            self.dial_data()
        }
    }

    fn volume_step(&mut self) -> (r: SetupAction)
        requires
            old(self).wf(),
        ensures
            final(self).wf(),
            (final(self)@, r@) == volume_step(old(self)@),
    {
        let uri: String = self.audio_uri();
        match self.phase {
            SetupPhase::Record => {
                self.phase = SetupPhase::FirstVolume;
                SetupAction::Request(volume_request(uri.as_str(), false))
            },
            SetupPhase::FirstVolume => {
                self.phase = SetupPhase::SecondVolume;
                SetupAction::Request(volume_request(uri.as_str(), false))
            },
            SetupPhase::SecondVolume => if self.params.mute_audio {
                self.phase = SetupPhase::Mute;
                SetupAction::Request(volume_request(uri.as_str(), true))
            } else {
                self.phase = SetupPhase::Streaming;
                SetupAction::Stream
            },
            _ => {
                self.phase = SetupPhase::Streaming;
                SetupAction::Stream
            },
        }
    }

    fn replied(&mut self, headers: &[Header], body: &[u8], now: u64) -> (r: Result<
        SetupAction,
        SetupError,
    >)
        requires
            old(self).wf(),
        ensures
            final(self).wf(),
            match setup_next(
                old(self)@,
                SetupEventView::Replied { headers: header_pairs(headers@), body: body@, now },
            ) {
                Ok((next, action)) => r matches Ok(a) && a@ == action && final(self)@ == next,
                Err(e) => r is Err && r->Err_0 == e && final(self)@ == old(self)@,
            },
    {
        match self.phase {
            SetupPhase::AudioSetup => {
                let reply: Option<Plist> = parse_plist(body);
                let kept: (i64, (u16, u16), u16) = (
                    self.video_id,
                    self.audio_ports,
                    self.event_port,
                );
                let request: Plist = self.take_audio_reply(reply.as_ref(), now);
                match marshal_plist(&request) {
                    Some(body) => {
                        let uri: String = stream_uri(
                            self.params.host.as_str(),
                            self.params.port,
                            self.video_id,
                        );
                        Ok(SetupAction::Request(setup_request(uri.as_str(), body)))
                    },
                    None => {
                        self.phase = SetupPhase::AudioSetup;
                        self.video_id = kept.0;
                        self.audio_ports = kept.1;
                        self.event_port = kept.2;
                        Err(SetupError::Unwritable)
                    },
                }
            },
            SetupPhase::VideoSetup => match parse_plist(body) {
                Some(reply) => self.take_video_reply(&reply),
                None => Err(SetupError::BadVideoReply),
            },
            SetupPhase::Record => {
                if let Some(samples) = read_latency(headers) {
                    self.latency = latency_of_samples(samples);
                    self.latency_samples = samples;
                }
                Ok(self.volume_step())
            },
            SetupPhase::FirstVolume => Ok(self.volume_step()),
            SetupPhase::SecondVolume => Ok(self.volume_step()),
            SetupPhase::Mute => Ok(self.volume_step()),
            _ => Err(SetupError::Unexpected),
        }
    }

    fn failed(&mut self) -> (r: Result<SetupAction, SetupError>)
        requires
            old(self).wf(),
        ensures
            final(self).wf(),
            match setup_next(old(self)@, SetupEventView::Failed) {
                Ok((next, action)) => r matches Ok(a) && a@ == action && final(self)@ == next,
                Err(e) => r is Err && r->Err_0 == e && final(self)@ == old(self)@,
            },
    {
        match self.phase {
            SetupPhase::EventDial => self.dial_data(),
            SetupPhase::FirstVolume => Ok(self.volume_step()),
            SetupPhase::SecondVolume => Ok(self.volume_step()),
            SetupPhase::Mute => Ok(self.volume_step()),
            SetupPhase::Streaming => Err(SetupError::Unexpected),
            _ => Err(SetupError::Failed(self.phase)),
        }
    }

    fn connected(&mut self) -> (r: Result<SetupAction, SetupError>)
        requires
            old(self).wf(),
        ensures
            final(self).wf(),
            match setup_next(old(self)@, SetupEventView::Connected) {
                Ok((next, action)) => r matches Ok(a) && a@ == action && final(self)@ == next,
                Err(e) => r is Err && r->Err_0 == e && final(self)@ == old(self)@,
            },
    {
        match self.phase {
            SetupPhase::EventDial => self.dial_data(),
            SetupPhase::DataDial => {
                self.phase = SetupPhase::Record;
                let uri: String = self.audio_uri();
                Ok(
                    SetupAction::Request(
                        record_request(uri.as_str(), self.params.session_uuid.as_str()),
                    ),
                )
            },
            _ => Err(SetupError::Unexpected),
        }
    }

    /// Takes what happened and says what to do next. On an error nothing changes, and the session is
    /// to be given up.
    pub fn step(&mut self, event: SetupEvent) -> (r: Result<SetupAction, SetupError>)
        requires
            old(self).wf(),
        ensures
            final(self).wf(),
            match setup_next(old(self)@, event@) {
                Ok((next, action)) => r matches Ok(a) && a@ == action && final(self)@ == next,
                Err(e) => r is Err && r->Err_0 == e && final(self)@ == old(self)@,
            },
    {
        match event {
            SetupEvent::Replied { headers, body, now } => self.replied(
                headers.as_slice(),
                body.as_slice(),
                now,
            ),
            SetupEvent::Connected => self.connected(),
            SetupEvent::Failed => self.failed(),
        }
    }

    /// The cipher of the video.
    pub fn video_cipher(&self) -> (r: VideoCipher)
        ensures
            r.wf(),
            r@ == chosen_cipher(
                self@.params.no_encrypt,
                self@.params.encrypted,
                self@.params.shared_secret,
                self@.params.stream_key,
                self@.video_id,
            ),
    {
        choose_cipher(
            self.params.no_encrypt,
            self.params.encrypted,
            self.params.shared_secret.as_slice(),
            &self.params.stream_key,
            self.video_id,
        )
    }

    /// Whether sound can be sent: it is wanted, and the receiver stated where to.
    pub fn sends_audio(&self, no_audio: bool) -> (r: bool)
        ensures
            r == (!no_audio && self@.audio_ports.0 > 0),
    {
        !no_audio && self.audio_ports.0 > 0
    }
}

/// How far a session has come.
pub open spec fn progress(phase: SetupPhase) -> int {
    match phase {
        SetupPhase::AudioSetup => 0,
        SetupPhase::VideoSetup => 1,
        SetupPhase::EventDial => 2,
        SetupPhase::DataDial => 3,
        SetupPhase::Record => 4,
        SetupPhase::FirstVolume => 5,
        SetupPhase::SecondVolume => 6,
        SetupPhase::Mute => 7,
        SetupPhase::Streaming => 8,
    }
}

/// Every event that is taken brings the session further, so that it is set up, or given up, after
/// a handful of events.
pub proof fn lemma_setup_advances(s: MirrorSetupView, e: SetupEventView)
    ensures
        setup_next(s, e) matches Ok((next, action)) ==> progress(next.phase) > progress(s.phase),
{
}

/// Streaming begins only behind the volume requests, and not before the video port was connected
/// and the session recorded.
pub proof fn lemma_streams_last(s: MirrorSetupView, e: SetupEventView)
    requires
        setup_next(s, e) matches Ok((next, action)) && action is Stream,
    ensures
        progress(s.phase) >= progress(SetupPhase::SecondVolume),
        s.params.mute_audio ==> s.phase == SetupPhase::Mute,
{
}

/// Sound and video share the latency that the receiver states.
pub proof fn lemma_shared_latency(s: MirrorSetupView, samples: u32)
    requires
        samples > 0,
    ensures
        ({
            let next = with_latency(s, Some(samples));
            next.latency_samples == samples && samples_44k1(next.latency.nanos as int) == samples
        }),
{
    crate::latency::lemma_samples_round_trip(samples);
}

} // verus!
