//! What the daemon knows, and how it answers commands.
pub mod laws;

use crate::discovery::{AirPlayDevice, AirPlayDeviceView};
use crate::mirror::frames::MirrorOpts;
use crate::paths::{default_socket_path, joined, set_value, SOCKET_FILE, TEMPORARY};
use crate::protocol::{
    answer, make_answer, reported, to_device_info, DeviceInfo, DeviceInfoView, Request, RequestView,
    Response, ResponseView, StreamInfo, StreamInfoView, STATE_CONNECTING, STATE_IDLE,
    STATE_PIN_REQUIRED, STATE_STREAMING,
};
use crate::sorted::{
    before, contains, get, lemma_order, lemma_row, ordered, place, put, table, take, Keyed,
};
use crate::text::same;
use vstd::prelude::*;

verus! {

/// How long a scan for receivers takes, in milliseconds.
pub const SCAN_DURATION_MS: u64 = 5_000;

/// How long a receiver is remembered since it was last seen, in milliseconds.
pub const DEVICE_TTL_MS: u64 = 30_000;

/// The port of a receiver that states none.
pub const DEFAULT_PORT: i32 = 7000;

/// How the daemon is run.
#[derive(Debug)]
pub struct Config {
    pub socket_path: Vec<u8>,
    pub fps: u32,
    pub bitrate_kbps: u32,
    pub force_software: bool,
    pub no_encrypt: bool,
    pub direct_key: bool,
    pub no_audio: bool,
    pub test_mode: bool,
}

impl Config {
    /// The settings that nothing changes, by `XDG_RUNTIME_DIR`.
    pub fn standard(runtime_dir: Option<&[u8]>) -> (r: Config)
        ensures
            r.socket_path@ == joined(
                match set_value(runtime_dir) {
                    Some(dir) => dir,
                    None => TEMPORARY@,
                },
                SOCKET_FILE@,
            ),
            r.fps == 30 && r.bitrate_kbps == 0 && !r.force_software && !r.no_encrypt
                && !r.direct_key && !r.no_audio && !r.test_mode,
    {
        Config {
            socket_path: default_socket_path(runtime_dir),
            fps: 30,
            bitrate_kbps: 0,
            force_software: false,
            no_encrypt: false,
            direct_key: false,
            no_audio: false,
            test_mode: false,
        }
    }

    /// What a mirror session is run with.
    pub fn mirror_opts(&self) -> (r: MirrorOpts)
        ensures
            r == (MirrorOpts {
                fit_pct: 0,
                bitrate_kbps: self.bitrate_kbps,
                fps: self.fps,
                force_software_encoder: self.force_software,
                no_encrypt: self.no_encrypt,
                no_audio: self.no_audio,
                mute_audio: false,
            }),
    {
        MirrorOpts {
            fit_pct: 0,
            bitrate_kbps: self.bitrate_kbps,
            fps: self.fps,
            force_software_encoder: self.force_software,
            no_encrypt: self.no_encrypt,
            no_audio: self.no_audio,
            mute_audio: false,
        }
    }
}

/// How far a stream is.
#[derive(Clone, Copy, Debug, PartialEq, Eq, Structural)]
pub enum StreamState {
    Connecting,
    Streaming,
}

impl StreamState {
    pub open spec fn label(self) -> Seq<char> {
        match self {
            StreamState::Connecting => STATE_CONNECTING@,
            StreamState::Streaming => STATE_STREAMING@,
        }
    }

    pub fn as_str(self) -> (r: &'static str)
        ensures
            r@ == self.label(),
    {
        match self {
            StreamState::Connecting => STATE_CONNECTING,
            StreamState::Streaming => STATE_STREAMING,
        }
    }
}

/// A stream to a receiver.
pub struct ActiveStream {
    pub device: String,
    pub device_ip: String,
    pub device_id: String,
    pub state: StreamState,
    pub audio_muted: bool,
    pub has_audio: bool,
    /// Whether its worker waits for the code that the receiver shows.
    pub awaits_pin: bool,
    /// Whether it takes part in the shared capture.
    pub has_sink: bool,
}

#[verifier::ext_equal]
pub struct ActiveStreamView {
    pub device: Seq<char>,
    pub device_ip: Seq<char>,
    pub device_id: Seq<char>,
    pub state: StreamState,
    pub audio_muted: bool,
    pub has_audio: bool,
    pub awaits_pin: bool,
    pub has_sink: bool,
}

impl View for ActiveStream {
    type V = ActiveStreamView;

    open spec fn view(&self) -> ActiveStreamView {
        ActiveStreamView {
            device: self.device@,
            device_ip: self.device_ip@,
            device_id: self.device_id@,
            state: self.state,
            audio_muted: self.audio_muted,
            has_audio: self.has_audio,
            awaits_pin: self.awaits_pin,
            has_sink: self.has_sink,
        }
    }
}

impl Keyed for ActiveStream {
    open spec fn key(&self) -> Seq<char> {
        self.device_ip@
    }

    fn name(&self) -> (r: &str) {
        self.device_ip.as_str()
    }
}

/// A stream that is just being set up.
pub open spec fn connecting(ip: Seq<char>) -> ActiveStreamView {
    ActiveStreamView {
        device: Seq::empty(),
        device_ip: ip,
        device_id: Seq::empty(),
        state: StreamState::Connecting,
        audio_muted: false,
        has_audio: false,
        awaits_pin: false,
        has_sink: false,
    }
}

/// A receiver, and when it was last seen.
pub struct SeenDevice {
    pub device: AirPlayDevice,
    pub seen: u64,
}

#[verifier::ext_equal]
pub struct SeenDeviceView {
    pub device: AirPlayDeviceView,
    pub seen: u64,
}

impl View for SeenDevice {
    type V = SeenDeviceView;

    open spec fn view(&self) -> SeenDeviceView {
        SeenDeviceView { device: self.device@, seen: self.seen }
    }
}

impl Keyed for SeenDevice {
    open spec fn key(&self) -> Seq<char> {
        self.device.ip@
    }

    fn name(&self) -> (r: &str) {
        self.device.ip.as_str()
    }
}

/// What the daemon knows.
pub struct Daemon {
    devices: Vec<SeenDevice>,
    streams: Vec<ActiveStream>,
    pending_target: String,
    pending_port: i32,
    capturing: bool,
}

#[verifier::ext_equal]
pub struct DaemonView {
    /// The receivers by their addresses.
    pub devices: Map<Seq<char>, SeenDeviceView>,
    /// The streams by the addresses of their receivers.
    pub streams: Map<Seq<char>, ActiveStreamView>,
    /// The receiver whose code is waited for; empty when there is none.
    pub pending_target: Seq<char>,
    pub pending_port: i32,
    /// Whether the screen is captured.
    pub capturing: bool,
}

impl View for Daemon {
    type V = DaemonView;

    closed spec fn view(&self) -> DaemonView {
        DaemonView {
            devices: table(self.devices@).map_values(|d: SeenDevice| d@),
            streams: table(self.streams@).map_values(|s: ActiveStream| s@),
            pending_target: self.pending_target@,
            pending_port: self.pending_port,
            capturing: self.capturing,
        }
    }
}

/// Whether some stream is in a state.
pub open spec fn any_stream(
    streams: Map<Seq<char>, ActiveStreamView>,
    state: StreamState,
) -> bool {
    exists|ip: Seq<char>| #[trigger] streams.contains_key(ip) && streams[ip].state == state
}

/// The state of the daemon as a whole.
pub open spec fn overall(v: DaemonView) -> Seq<char> {
    if v.pending_target.len() > 0 {
        STATE_PIN_REQUIRED@
    } else if any_stream(v.streams, StreamState::Streaming) {
        STATE_STREAMING@
    } else if any_stream(v.streams, StreamState::Connecting) {
        STATE_CONNECTING@
    } else {
        STATE_IDLE@
    }
}

/// A stream as it is reported.
pub open spec fn stream_info(s: ActiveStreamView) -> StreamInfoView {
    StreamInfoView {
        device: s.device,
        device_ip: s.device_ip,
        state: s.state.label(),
        has_audio: s.has_audio,
        audio_muted: s.audio_muted,
    }
}

/// Whether a list reports every stream once, in the order of their addresses.
pub open spec fn lists_streams(
    list: Seq<StreamInfoView>,
    streams: Map<Seq<char>, ActiveStreamView>,
) -> bool {
    &&& forall|i: int, j: int|
        0 <= i < j < list.len() ==> before(
            (#[trigger] list[i]).device_ip,
            (#[trigger] list[j]).device_ip,
        )
    &&& forall|i: int|
        0 <= i < list.len() ==> streams.contains_key((#[trigger] list[i]).device_ip) && list[i]
            == stream_info(streams[list[i].device_ip])
    &&& forall|ip: Seq<char>| #[trigger]
        streams.contains_key(ip) ==> exists|i: int|
            0 <= i < list.len() && (#[trigger] list[i]).device_ip == ip
}

/// Whether a list reports every receiver once, in the order of their addresses.
pub open spec fn lists_devices(
    list: Seq<DeviceInfoView>,
    devices: Map<Seq<char>, SeenDeviceView>,
) -> bool {
    &&& forall|i: int, j: int|
        0 <= i < j < list.len() ==> before((#[trigger] list[i]).ip, (#[trigger] list[j]).ip)
    &&& forall|i: int|
        0 <= i < list.len() ==> devices.contains_key((#[trigger] list[i]).ip) && list[i] == reported(
            devices[list[i].ip].device,
        )
    &&& forall|ip: Seq<char>| #[trigger]
        devices.contains_key(ip) ==> exists|i: int|
            0 <= i < list.len() && (#[trigger] list[i]).ip == ip
}

/// The first stream of a list that is streaming, from number `i` on.
pub open spec fn first_streaming(list: Seq<StreamInfoView>, i: int) -> Option<StreamInfoView>
    decreases list.len() - i,
{
    if i >= list.len() {
        None
    } else if list[i].state == STATE_STREAMING@ {
        Some(list[i])
    } else {
        first_streaming(list, i + 1)
    }
}

/// An answer that reports everything. The first stream that is running stands in its own fields
/// too.
pub open spec fn is_status(v: DaemonView, ok: bool, error: Seq<char>, r: ResponseView) -> bool {
    match r.streams {
        None => false,
        Some(list) => lists_streams(list, v.streams) && r == (match first_streaming(list, 0) {
            Some(s) => ResponseView {
                device: s.device,
                device_ip: s.device_ip,
                has_audio: s.has_audio,
                audio_muted: s.audio_muted,
                needs_pin: v.pending_target.len() > 0,
                streams: Some(list),
                ..answer(ok, overall(v), error)
            },
            None => ResponseView {
                needs_pin: v.pending_target.len() > 0,
                streams: Some(list),
                ..answer(ok, overall(v), error)
            },
        }),
    }
}

/// An answer that reports the receivers.
pub open spec fn is_device_report(v: DaemonView, r: ResponseView) -> bool {
    match r.devices {
        None => false,
        Some(list) => lists_devices(list, v.devices) && r == (ResponseView {
            devices: Some(list),
            ..answer(true, overall(v), Seq::empty())
        }),
    }
}

/// What is to be done beside answering.
pub enum Effect {
    Nothing,
    /// Start a worker for a stream.
    Start { target: String, port: i32, pin: String },
    /// Hand a code to the worker that waits for it.
    Deliver { target: String, pin: String },
    /// Stop the workers of streams, and the capture too where that is said.
    Stop { targets: Vec<String>, capture: bool },
}

/// How a command is taken.
pub enum Handled {
    Answer { response: Response, effect: Effect },
    /// The streams whose sound is to be muted or unmuted before there is an answer.
    Mute { targets: Vec<String>, muted: bool },
}

/// The streams of a list of addresses.
pub open spec fn names(v: Seq<String>) -> Seq<Seq<char>> {
    v.map_values(|s: String| s@)
}

/// A free receiver with the first address.
pub open spec fn first_free(v: DaemonView, ip: Seq<char>) -> bool {
    &&& v.devices.contains_key(ip)
    &&& !v.streams.contains_key(ip)
    &&& forall|other: Seq<char>|
        v.devices.contains_key(other) && #[trigger] before(other, ip) ==> v.streams.contains_key(
            other,
        )
}

/// The port to use: the one given, or else the receiver's own, or else the default one.
pub open spec fn port_for(v: DaemonView, target: Seq<char>, port: i32) -> i32 {
    if port != 0 {
        port
    } else if v.devices.contains_key(target) && v.devices[target].device.port != 0 {
        v.devices[target].device.port as i32
    } else {
        DEFAULT_PORT
    }
}

/// The state with a new stream in it.
pub open spec fn with_stream(v: DaemonView, s: ActiveStreamView) -> DaemonView {
    DaemonView { streams: v.streams.insert(s.device_ip, s), ..v }
}

/// Whether a stream was started.
pub open spec fn is_started(
    v: DaemonView,
    target: Seq<char>,
    port: i32,
    pin: Seq<char>,
    after: DaemonView,
    response: ResponseView,
    effect: Effect,
) -> bool {
    &&& after == with_stream(v, connecting(target))
    &&& response == (ResponseView { device: target, ..answer(true, overall(after), Seq::empty()) })
    &&& effect matches Effect::Start { target: t, port: p, pin: c }
    &&& t@ == target
    &&& p == port_for(v, target, port)
    &&& c@ == pin
}

/// Whether the waiting worker was given a code. A worker that is lost is still waited for.
pub open spec fn is_resumed(
    v: DaemonView,
    pin: Seq<char>,
    after: DaemonView,
    response: ResponseView,
    effect: Effect,
) -> bool {
    let target = v.pending_target;
    if v.streams.contains_key(target) && v.streams[target].awaits_pin {
        &&& after == (DaemonView {
            pending_target: Seq::empty(),
            pending_port: 0,
            streams: v.streams.insert(
                target,
                ActiveStreamView { awaits_pin: false, ..v.streams[target] },
            ),
            ..v
        })
        &&& response == (ResponseView {
            device: target,
            ..answer(true, overall(after), Seq::empty())
        })
        &&& effect matches Effect::Deliver { target: t, pin: c }
        &&& t@ == target
        &&& c@ == pin
    } else {
        &&& after == (DaemonView { pending_port: 0, ..v })
        &&& response == answer(
            false,
            STATE_PIN_REQUIRED@,
            "internal: lost the worker waiting for "@ + target + "'s PIN"@,
        )
        &&& effect is Nothing
    }
}

/// The state without a stream. It is no longer waited for, and the capture ends with the last
/// stream.
pub open spec fn without(v: DaemonView, target: Seq<char>) -> DaemonView {
    let streams = v.streams.remove(target);
    DaemonView {
        streams,
        pending_target: if v.pending_target == target {
            Seq::empty()
        } else {
            v.pending_target
        },
        pending_port: if v.pending_target == target {
            0
        } else {
            v.pending_port
        },
        capturing: v.capturing && streams != Map::<Seq<char>, ActiveStreamView>::empty(),
        ..v
    }
}

/// The state without any stream.
pub open spec fn all_stopped(v: DaemonView) -> DaemonView {
    DaemonView {
        streams: Map::empty(),
        pending_target: Seq::empty(),
        pending_port: 0,
        capturing: false,
        ..v
    }
}

/// Whether a list names every stream.
pub open spec fn names_all(list: Seq<Seq<char>>, streams: Map<Seq<char>, ActiveStreamView>) -> bool {
    forall|ip: Seq<char>| list.contains(ip) <==> #[trigger] streams.contains_key(ip)
}

/// Whether a list names every stream that is running.
pub open spec fn names_streaming(
    list: Seq<Seq<char>>,
    streams: Map<Seq<char>, ActiveStreamView>,
) -> bool {
    forall|ip: Seq<char>|
        list.contains(ip) == (#[trigger] streams.contains_key(ip) && streams[ip].state
            == StreamState::Streaming)
}

/// The streams with the sound of some of them muted or not.
pub open spec fn muted_streams(
    streams: Map<Seq<char>, ActiveStreamView>,
    targets: Seq<Seq<char>>,
    muted: bool,
) -> Map<Seq<char>, ActiveStreamView> {
    Map::new(
        |ip: Seq<char>| streams.contains_key(ip),
        |ip: Seq<char>|
            if targets.contains(ip) {
                ActiveStreamView { audio_muted: muted, ..streams[ip] }
            } else {
                streams[ip]
            },
    )
}

/// The receivers behind a scan: those that were found, as they were found last, and the others that
/// were seen not too long ago.
pub open spec fn scanned(
    devices: Map<Seq<char>, SeenDeviceView>,
    found: Seq<AirPlayDeviceView>,
    now: u64,
) -> Map<Seq<char>, SeenDeviceView>
    decreases found.len(),
{
    if found.len() == 0 {
        Map::new(
            |ip: Seq<char>| devices.contains_key(ip) && now - devices[ip].seen <= DEVICE_TTL_MS,
            |ip: Seq<char>| devices[ip],
        )
    } else {
        scanned(devices, found.drop_last(), now).insert(
            found.last().ip,
            SeenDeviceView { device: found.last(), seen: now },
        )
    }
}

/// How a command to connect is taken. A code for a receiver that is waited for goes to it.
pub open spec fn connect_taken(
    v: DaemonView,
    q: RequestView,
    after: DaemonView,
    response: ResponseView,
    effect: Effect,
) -> bool {
    if v.pending_target.len() > 0 && q.pin.len() > 0 {
        is_resumed(v, q.pin, after, response, effect)
    } else if q.target.len() > 0 && v.streams.contains_key(q.target) {
        &&& after == v
        &&& response == answer(
            false,
            v.streams[q.target].state.label(),
            "already connected or connecting to "@ + q.target,
        )
        &&& effect is Nothing
    } else if q.target.len() > 0 {
        is_started(v, q.target, q.port, q.pin, after, response, effect)
    } else if exists|ip: Seq<char>| first_free(v, ip) {
        exists|ip: Seq<char>| #[trigger]
            first_free(v, ip) && is_started(v, ip, q.port, q.pin, after, response, effect)
    } else {
        &&& after == v
        &&& response == answer(false, overall(v), "no available devices found"@)
        &&& effect is Nothing
    }
}

/// How a code is taken.
pub open spec fn pin_taken(
    v: DaemonView,
    q: RequestView,
    after: DaemonView,
    response: ResponseView,
    effect: Effect,
) -> bool {
    if v.pending_target.len() == 0 {
        &&& after == v
        &&& response == answer(false, overall(v), "no device is waiting for a PIN"@)
        &&& effect is Nothing
    } else if q.pin.len() == 0 {
        &&& after == v
        &&& response == answer(false, overall(v), "pin required"@)
        &&& effect is Nothing
    } else {
        is_resumed(v, q.pin, after, response, effect)
    }
}

/// How a command to disconnect is taken.
pub open spec fn disconnect_taken(
    v: DaemonView,
    q: RequestView,
    after: DaemonView,
    response: ResponseView,
    effect: Effect,
) -> bool {
    if q.target.len() == 0 {
        &&& after == all_stopped(v)
        &&& response == answer(true, STATE_IDLE@, Seq::empty())
        &&& effect matches Effect::Stop { targets, capture }
        &&& names_all(names(targets@), v.streams)
        &&& capture == v.capturing
    } else if v.streams.contains_key(q.target) {
        &&& after == without(v, q.target)
        &&& response == answer(true, overall(after), Seq::empty())
        &&& effect matches Effect::Stop { targets, capture }
        &&& names(targets@) == seq![q.target]
        &&& capture == (v.capturing && !after.capturing)
    } else {
        &&& after == v
        &&& response == answer(false, overall(v), "no active stream to "@ + q.target)
        &&& effect is Nothing
    }
}

/// How a command to mute or unmute is taken: which streams it is for, or why it is for none.
pub open spec fn mute_taken(v: DaemonView, q: RequestView, muted: bool, r: Handled) -> bool {
    match r {
        Handled::Mute { targets, muted: m } => {
            &&& m == muted
            &&& targets@.len() > 0
            &&& if q.target.len() > 0 {
                v.streams.contains_key(q.target) && names(targets@) == seq![q.target]
            } else {
                names_streaming(names(targets@), v.streams)
            }
        },
        Handled::Answer { response, effect } => {
            &&& effect is Nothing
            &&& if q.target.len() > 0 {
                &&& !v.streams.contains_key(q.target)
                &&& response@ == answer(false, overall(v), "no active stream to "@ + q.target)
            } else {
                &&& !any_stream(v.streams, StreamState::Streaming)
                &&& is_status(v, false, "not currently streaming"@, response@)
            }
        },
    }
}

/// How a command is taken.
pub open spec fn request_taken(v: DaemonView, q: RequestView, after: DaemonView, r: Handled) -> bool {
    if q.cmd == "mute"@ || q.cmd == "unmute"@ {
        after == v && mute_taken(v, q, q.cmd == "mute"@, r)
    } else {
        &&& r matches Handled::Answer { response, effect }
        &&& if q.cmd == "connect"@ {
            connect_taken(v, q, after, response@, effect)
        } else if q.cmd == "pin"@ {
            pin_taken(v, q, after, response@, effect)
        } else if q.cmd == "disconnect"@ {
            disconnect_taken(v, q, after, response@, effect)
        } else {
            &&& after == v
            &&& effect is Nothing
            &&& if q.cmd == "status"@ {
                is_status(v, true, ""@, response@)
            } else if q.cmd == "discover"@ || q.cmd == "devices"@ {
                is_device_report(v, response@)
            } else {
                response@ == answer(false, Seq::empty(), "unknown command: "@ + q.cmd)
            }
        }
    }
}

impl Daemon {
    pub closed spec fn wf(&self) -> bool {
        ordered(self.devices@) && ordered(self.streams@)
    }

    /// A daemon that knows nothing yet.
    pub fn new() -> (r: Daemon)
        ensures
            r.wf(),
            r@ == (DaemonView {
                devices: Map::empty(),
                streams: Map::empty(),
                pending_target: Seq::empty(),
                pending_port: 0,
                capturing: false,
            }),
    {
        let r = Daemon {
            devices: Vec::new(),
            streams: Vec::new(),
            pending_target: String::new(),
            pending_port: 0,
            capturing: false,
        };
        proof {
            assert(r@.devices =~= Map::<Seq<char>, SeenDeviceView>::empty());
            assert(r@.streams =~= Map::<Seq<char>, ActiveStreamView>::empty());
            assert(r@.pending_target =~= Seq::<char>::empty());
        }
        r
    }

    fn has_state(&self, state: StreamState) -> (r: bool)
        requires
            self.wf(),
        ensures
            r == any_stream(self@.streams, state),
    {
        let mut i: usize = 0;
        while i < self.streams.len()
            invariant
                i <= self.streams@.len(),
                self.wf(),
                forall|k: int| 0 <= k < i ==> (#[trigger] self.streams@[k]).state != state,
            decreases self.streams.len() - i,
        {
            if self.streams[i].state == state {
                proof {
                    lemma_row(self.streams@, i as int);
                    let ip = self.streams@[i as int].key();
                    assert(self@.streams.contains_key(ip));
                }
                return true;
            }
            i += 1;
        }
        proof {
            if any_stream(self@.streams, state) {
                let ip = choose|ip: Seq<char>| #[trigger]
                    self@.streams.contains_key(ip) && self@.streams[ip].state == state;
                let p = place(self.streams@, ip);
                assert(self.streams@[p].key() == ip);
                lemma_row(self.streams@, p);
            }
        }
        false
    }

    /// The state as a whole.
    pub fn overall_state(&self) -> (r: &'static str)
        requires
            self.wf(),
        ensures
            r@ == overall(self@),
    {
        if !self.pending_target.as_str().is_empty() {
            STATE_PIN_REQUIRED
        } else if self.has_state(StreamState::Streaming) {
            STATE_STREAMING
        } else if self.has_state(StreamState::Connecting) {
            STATE_CONNECTING
        } else {
            STATE_IDLE
        }
    }

    fn stream_list(&self) -> (r: Vec<StreamInfo>)
        requires
            self.wf(),
        ensures
            lists_streams(r@.map_values(|x: StreamInfo| x@), self@.streams),
    {
        let mut out: Vec<StreamInfo> = Vec::new();
        let mut i: usize = 0;
        while i < self.streams.len()
            invariant
                i <= self.streams@.len(),
                out@.len() == i,
                forall|k: int|
                    0 <= k < i ==> (#[trigger] out@[k])@ == stream_info(self.streams@[k]@),
            decreases self.streams.len() - i,
        {
            let s: &ActiveStream = &self.streams[i];
            out.push(
                StreamInfo {
                    device: s.device.clone(),
                    device_ip: s.device_ip.clone(),
                    state: s.state.as_str().to_owned(),
                    has_audio: s.has_audio,
                    audio_muted: s.audio_muted,
                },
            );
            i += 1;
        }
        proof {
            let list = out@.map_values(|x: StreamInfo| x@);
            assert forall|a: int, b: int| 0 <= a < b < list.len() implies before(
                (#[trigger] list[a]).device_ip,
                (#[trigger] list[b]).device_ip,
            ) by {
                assert(out@[a]@ == stream_info(self.streams@[a]@));
                assert(out@[b]@ == stream_info(self.streams@[b]@));
                assert(before(self.streams@[a].key(), self.streams@[b].key()));
            }
            assert forall|k: int| 0 <= k < list.len() implies self@.streams.contains_key(
                (#[trigger] list[k]).device_ip,
            ) && list[k] == stream_info(self@.streams[list[k].device_ip]) by {
                assert(out@[k]@ == stream_info(self.streams@[k]@));
                lemma_row(self.streams@, k);
            }
            assert forall|ip: Seq<char>| #[trigger]
                self@.streams.contains_key(ip) implies exists|k: int|
                0 <= k < list.len() && (#[trigger] list[k]).device_ip == ip by {
                let p = place(self.streams@, ip);
                assert(self.streams@[p].key() == ip);
                assert(out@[p]@ == stream_info(self.streams@[p]@));
                assert(list[p].device_ip == ip);
            }
        }
        out
    }

    fn device_list(&self) -> (r: Vec<DeviceInfo>)
        requires
            self.wf(),
        ensures
            lists_devices(r@.map_values(|x: DeviceInfo| x@), self@.devices),
    {
        let mut out: Vec<DeviceInfo> = Vec::new();
        let mut i: usize = 0;
        while i < self.devices.len()
            invariant
                i <= self.devices@.len(),
                out@.len() == i,
                forall|k: int|
                    0 <= k < i ==> (#[trigger] out@[k])@ == reported(self.devices@[k].device@),
            decreases self.devices.len() - i,
        {
            out.push(to_device_info(&self.devices[i].device));
            i += 1;
        }
        proof {
            let list = out@.map_values(|x: DeviceInfo| x@);
            assert forall|a: int, b: int| 0 <= a < b < list.len() implies before(
                (#[trigger] list[a]).ip,
                (#[trigger] list[b]).ip,
            ) by {
                assert(out@[a]@ == reported(self.devices@[a].device@));
                assert(out@[b]@ == reported(self.devices@[b].device@));
                assert(before(self.devices@[a].key(), self.devices@[b].key()));
            }
            assert forall|k: int| 0 <= k < list.len() implies self@.devices.contains_key(
                (#[trigger] list[k]).ip,
            ) && list[k] == reported(self@.devices[list[k].ip].device) by {
                assert(out@[k]@ == reported(self.devices@[k].device@));
                lemma_row(self.devices@, k);
            }
            assert forall|ip: Seq<char>| #[trigger]
                self@.devices.contains_key(ip) implies exists|k: int|
                0 <= k < list.len() && (#[trigger] list[k]).ip == ip by {
                let p = place(self.devices@, ip);
                assert(self.devices@[p].key() == ip);
                assert(out@[p]@ == reported(self.devices@[p].device@));
                assert(list[p].ip == ip);
            }
        }
        out
    }

    /// An answer that reports everything.
    pub fn status_response(&self, ok: bool, error: &str) -> (r: Response)
        requires
            self.wf(),
        ensures
            is_status(self@, ok, error@, r@),
    {
        let streams: Vec<StreamInfo> = self.stream_list();
        let ghost list = streams@.map_values(|x: StreamInfo| x@);
        let mut r: Response = make_answer(ok, self.overall_state(), error);
        r.needs_pin = !self.pending_target.as_str().is_empty();
        let ghost plain = r@;
        let mut i: usize = 0;
        let mut found: bool = false;
        while i < streams.len() && !found
            invariant
                i <= streams@.len(),
                list == streams@.map_values(|x: StreamInfo| x@),
                !found ==> r@ == plain && first_streaming(list, 0) == first_streaming(
                    list,
                    i as int,
                ),
                found ==> (first_streaming(list, 0) matches Some(s) && r@ == (ResponseView {
                    device: s.device,
                    device_ip: s.device_ip,
                    has_audio: s.has_audio,
                    audio_muted: s.audio_muted,
                    ..plain
                })),
            decreases streams.len() - i,
        {
            let s: &StreamInfo = &streams[i];
            assert(list[i as int] == s@);
            if same(s.state.as_str(), STATE_STREAMING) {
                r.device = s.device.clone();
                r.device_ip = s.device_ip.clone();
                r.has_audio = s.has_audio;
                r.audio_muted = s.audio_muted;
                found = true;
            }
            i += 1;
        }
        r.streams = Some(streams);
        r
    }

    fn device_report(&self) -> (r: Response)
        requires
            self.wf(),
        ensures
            is_device_report(self@, r@),
    {
        let none: &str = "";
        proof {
            reveal_strlit("");
            assert(none@ =~= Seq::<char>::empty());
        }
        let mut r: Response = make_answer(true, self.overall_state(), none);
        r.devices = Some(self.device_list());
        r
    }

    fn brief(&self, ok: bool, error: &str) -> (r: Response)
        requires
            self.wf(),
        ensures
            r@ == answer(ok, overall(self@), error@),
    {
        make_answer(ok, self.overall_state(), error)
    }

    /// The first receiver that is free, with its port.
    fn pick_free_device(&self) -> (r: Option<String>)
        requires
            self.wf(),
        ensures
            match r {
                Some(ip) => first_free(self@, ip@),
                None => forall|ip: Seq<char>| !first_free(self@, ip),
            },
    {
        let mut i: usize = 0;
        while i < self.devices.len()
            invariant
                i <= self.devices@.len(),
                self.wf(),
                forall|k: int|
                    0 <= k < i ==> table(self.streams@).contains_key(
                        (#[trigger] self.devices@[k]).key(),
                    ),
            decreases self.devices.len() - i,
        {
            if !contains(&self.streams, self.devices[i].device.ip.as_str()) {
                proof {
                    let ip = self.devices@[i as int].key();
                    lemma_row(self.devices@, i as int);
                    assert forall|other: Seq<char>|
                        self@.devices.contains_key(other) && #[trigger] before(
                            other,
                            ip,
                        ) implies self@.streams.contains_key(other) by {
                        let p = place(self.devices@, other);
                        assert(self.devices@[p].key() == other);
                        lemma_order(other, ip, other);
                        if p > i {
                            assert(before(self.devices@[i as int].key(), self.devices@[p].key()));
                        }
                    }
                }
                return Some(self.devices[i].device.ip.clone());
            }
            i += 1;
        }
        proof {
            assert forall|ip: Seq<char>| !first_free(self@, ip) by {
                if self@.devices.contains_key(ip) {
                    let p = place(self.devices@, ip);
                    assert(self.devices@[p].key() == ip);
                }
            }
        }
        None
    }

    fn find_port(&self, target: &str, port: i32) -> (r: i32)
        requires
            self.wf(),
        ensures
            r == port_for(self@, target@, port),
    {
        if port != 0 {
            return port;
        }
        match get(&self.devices, target) {
            Some(d) => if d.device.port != 0 {
                d.device.port as i32
            } else {
                DEFAULT_PORT
            },
            None => DEFAULT_PORT,
        }
    }

    fn start(&mut self, target: String, port: i32, pin: String) -> (r: (Response, Effect))
        requires
            old(self).wf(),
        ensures
            final(self).wf(),
            is_started(old(self)@, target@, port, pin@, final(self)@, r.0@, r.1),
    {
        let port: i32 = self.find_port(target.as_str(), port);
        let entry = ActiveStream {
            device: String::new(),
            device_ip: target.clone(),
            device_id: String::new(),
            state: StreamState::Connecting,
            audio_muted: false,
            has_audio: false,
            awaits_pin: false,
            has_sink: false,
        };
        proof {
            assert(entry@ =~= connecting(target@));
        }
        put(&mut self.streams, entry);
        assert(self@ =~= with_stream(old(self)@, connecting(target@)));
        let none = String::new();
        assert(none@ =~= Seq::<char>::empty());
        let mut response: Response = self.brief(true, none.as_str());
        response.device = target.clone();
        (response, Effect::Start { target, port, pin })
    }

    fn resume_pending(&mut self, pin: String) -> (r: (Response, Effect))
        requires
            old(self).wf(),
        ensures
            final(self).wf(),
            is_resumed(old(self)@, pin@, final(self)@, r.0@, r.1),
    {
        let target: String = self.pending_target.clone();
        self.pending_port = 0;
        let waiting: bool = match get(&self.streams, target.as_str()) {
            Some(s) => s.awaits_pin,
            None => false,
        };
        if waiting {
            self.pending_target = String::new();
            assert(self.pending_target@ =~= Seq::<char>::empty());
            if let Some(mut entry) = take(&mut self.streams, target.as_str()) {
                proof {
                    let p = place(old(self).streams@, target@);
                    assert(old(self).streams@[p].key() == target@);
                }
                entry.awaits_pin = false;
                put(&mut self.streams, entry);
            }
            assert(self@.streams =~= old(self)@.streams.insert(
                target@,
                ActiveStreamView { awaits_pin: false, ..old(self)@.streams[target@] },
            ));
            let none = String::new();
            assert(none@ =~= Seq::<char>::empty());
            let mut response: Response = self.brief(true, none.as_str());
            response.device = target.clone();
            return (response, Effect::Deliver { target, pin });
        }
        let mut error: String = "internal: lost the worker waiting for ".to_owned();
        error.push_str(target.as_str());
        error.push_str("'s PIN");
        (make_answer(false, STATE_PIN_REQUIRED, error.as_str()), Effect::Nothing)
    }

    /// Starts a stream: to the receiver named, or to the first free one. A code for a receiver that
    /// is waited for goes to it instead.
    pub fn handle_connect(&mut self, req: Request) -> (r: (Response, Effect))
        requires
            old(self).wf(),
        ensures
            final(self).wf(),
            connect_taken(old(self)@, req@, final(self)@, r.0@, r.1),
    {
        if !self.pending_target.as_str().is_empty() && !req.pin.as_str().is_empty() {
            return self.resume_pending(req.pin);
        }
        if !req.target.as_str().is_empty() {
            if let Some(existing) = get(&self.streams, req.target.as_str()) {
                let mut error: String = "already connected or connecting to ".to_owned();
                error.push_str(req.target.as_str());
                return (
                    make_answer(false, existing.state.as_str(), error.as_str()),
                    Effect::Nothing,
                );
            }
            return self.start(req.target, req.port, req.pin);
        }
        match self.pick_free_device() {
            Some(ip) => self.start(ip, req.port, req.pin),
            None => (self.brief(false, "no available devices found"), Effect::Nothing),
        }
    }

    /// Takes the code that a receiver shows.
    pub fn handle_pin(&mut self, req: Request) -> (r: (Response, Effect))
        requires
            old(self).wf(),
        ensures
            final(self).wf(),
            pin_taken(old(self)@, req@, final(self)@, r.0@, r.1),
    {
        if self.pending_target.as_str().is_empty() {
            return (self.brief(false, "no device is waiting for a PIN"), Effect::Nothing);
        }
        if req.pin.as_str().is_empty() {
            return (self.brief(false, "pin required"), Effect::Nothing);
        }
        self.resume_pending(req.pin)
    }

    fn forget_pending(&mut self, target: &str)
        requires
            old(self).wf(),
        ensures
            final(self).wf(),
            final(self)@ == (if old(self)@.pending_target == target@ {
                DaemonView { pending_target: Seq::empty(), pending_port: 0, ..old(self)@ }
            } else {
                old(self)@
            }),
            final(self).streams == old(self).streams,
            final(self).devices == old(self).devices,
    {
        if same(self.pending_target.as_str(), target) {
            self.pending_target = String::new();
            assert(self.pending_target@ =~= Seq::<char>::empty());
            self.pending_port = 0;
        }
    }

    /// Ends the capture if no stream is left; says whether it did.
    fn maybe_stop_broadcast(&mut self) -> (r: bool)
        requires
            old(self).wf(),
        ensures
            final(self).wf(),
            ({
                let none = old(self)@.streams == Map::<Seq<char>, ActiveStreamView>::empty();
                r == (old(self)@.capturing && none) && final(self)@ == (DaemonView {
                    capturing: old(self)@.capturing && !none,
                    ..old(self)@
                })
            }),
    {
        proof {
            if self.streams@.len() == 0 {
                assert(self@.streams =~= Map::<Seq<char>, ActiveStreamView>::empty());
            } else {
                lemma_row(self.streams@, 0);
                assert(self@.streams.contains_key(self.streams@[0].key()));
            }
        }
        if self.streams.len() > 0 {
            return false;
        }
        let was: bool = self.capturing;
        self.capturing = false;
        was
    }

    /// Takes a stream out: its worker is to be stopped if there was one, and the capture too if
    /// this was the last.
    pub fn remove_stream(&mut self, target: &str) -> (r: (bool, bool))
        requires
            old(self).wf(),
        ensures
            final(self).wf(),
            final(self)@ == without(old(self)@, target@),
            r.0 == old(self)@.streams.contains_key(target@),
            r.1 == (old(self)@.capturing && !final(self)@.capturing),
    {
        let had: bool = take(&mut self.streams, target).is_some();
        assert(self@.streams =~= old(self)@.streams.remove(target@));
        self.forget_pending(target);
        let stop: bool = self.maybe_stop_broadcast();
        (had, stop)
    }

    fn stream_names(&self) -> (r: Vec<String>)
        requires
            self.wf(),
        ensures
            names_all(names(r@), self@.streams),
    {
        let mut out: Vec<String> = Vec::new();
        let mut i: usize = 0;
        while i < self.streams.len()
            invariant
                i <= self.streams@.len(),
                out@.len() == i,
                forall|k: int| 0 <= k < i ==> (#[trigger] out@[k])@ == self.streams@[k].key(),
            decreases self.streams.len() - i,
        {
            out.push(self.streams[i].device_ip.clone());
            i += 1;
        }
        proof {
            let list = names(out@);
            assert forall|ip: Seq<char>| list.contains(ip) <==> #[trigger]
                self@.streams.contains_key(ip) by {
                if list.contains(ip) {
                    let k = choose|k: int| 0 <= k < list.len() && list[k] == ip;
                    assert(out@[k]@ == self.streams@[k].key());
                    lemma_row(self.streams@, k);
                }
                if self@.streams.contains_key(ip) {
                    let p = place(self.streams@, ip);
                    assert(self.streams@[p].key() == ip);
                    assert(out@[p]@ == ip);
                    assert(list[p] == ip);
                }
            }
        }
        out
    }

    /// Takes every stream out. The result names them and says whether the capture is to be stopped.
    pub fn stop_all(&mut self) -> (r: (Vec<String>, bool))
        requires
            old(self).wf(),
        ensures
            final(self).wf(),
            final(self)@ == all_stopped(old(self)@),
            names_all(names(r.0@), old(self)@.streams),
            r.1 == old(self)@.capturing,
    {
        let targets: Vec<String> = self.stream_names();
        let capture: bool = self.capturing;
        self.streams = Vec::new();
        self.pending_target = String::new();
        self.pending_port = 0;
        self.capturing = false;
        proof {
            assert(self@.streams =~= Map::<Seq<char>, ActiveStreamView>::empty());
            assert(self@.pending_target =~= Seq::<char>::empty());
        }
        (targets, capture)
    }

    /// Ends the stream to the receiver named, or all of them.
    pub fn handle_disconnect(&mut self, req: Request) -> (r: (Response, Effect))
        requires
            old(self).wf(),
        ensures
            final(self).wf(),
            disconnect_taken(old(self)@, req@, final(self)@, r.0@, r.1),
    {
        let none = String::new();
        assert(none@ =~= Seq::<char>::empty());
        if !req.target.as_str().is_empty() {
            if !contains(&self.streams, req.target.as_str()) {
                let mut error: String = "no active stream to ".to_owned();
                error.push_str(req.target.as_str());
                return (self.brief(false, error.as_str()), Effect::Nothing);
            }
            let (_, capture) = self.remove_stream(req.target.as_str());
            let response: Response = self.brief(true, none.as_str());
            let ghost target = req.target@;
            let mut targets: Vec<String> = Vec::new();
            targets.push(req.target);
            assert(names(targets@) =~= seq![target]);
            return (response, Effect::Stop { targets, capture });
        }
        let (targets, capture) = self.stop_all();
        (make_answer(true, STATE_IDLE, none.as_str()), Effect::Stop { targets, capture })
    }

    fn streaming_names(&self) -> (r: Vec<String>)
        requires
            self.wf(),
        ensures
            names_streaming(names(r@), self@.streams),
    {
        let mut out: Vec<String> = Vec::new();
        let ghost mut from: Seq<int> = Seq::empty();
        let mut i: usize = 0;
        while i < self.streams.len()
            invariant
                i <= self.streams@.len(),
                from.len() == out@.len(),
                forall|k: int|
                    0 <= k < out@.len() ==> 0 <= #[trigger] from[k] < i
                        && self.streams@[from[k]].key() == out@[k]@ && self.streams@[from[k]].state
                        == StreamState::Streaming,
                forall|j: int|
                    0 <= j < i && (#[trigger] self.streams@[j]).state == StreamState::Streaming
                        ==> names(out@).contains(self.streams@[j].key()),
            decreases self.streams.len() - i,
        {
            let ghost before_names = names(out@);
            if self.streams[i].state == StreamState::Streaming {
                out.push(self.streams[i].device_ip.clone());
                proof {
                    from = from.push(i as int);
                    let n = out@.len() - 1;
                    assert(names(out@)[n] == self.streams@[i as int].key());
                    assert forall|s: Seq<char>| before_names.contains(s) implies names(
                        out@,
                    ).contains(s) by {
                        let k = choose|k: int| 0 <= k < before_names.len() && before_names[k] == s;
                        assert(names(out@)[k] == s);
                    }
                }
            }
            i += 1;
        }
        proof {
            let list = names(out@);
            let streams = self@.streams;
            assert forall|ip: Seq<char>| #[trigger]
                list.contains(ip) implies streams.contains_key(ip) && streams[ip].state
                == StreamState::Streaming by {
                let k = choose|k: int| 0 <= k < list.len() && list[k] == ip;
                assert(out@[k]@ == ip);
                lemma_row(self.streams@, from[k]);
            }
            assert forall|ip: Seq<char>| #[trigger]
                streams.contains_key(ip) && streams[ip].state
                    == StreamState::Streaming implies list.contains(ip) by {
                let p = place(self.streams@, ip);
                assert(self.streams@[p].key() == ip);
                lemma_row(self.streams@, p);
            }
        }
        out
    }

    /// Says which streams are to be muted or unmuted: the one named, or all that are running.
    pub fn handle_set_mute(&mut self, req: Request, muted: bool) -> (r: Handled)
        requires
            old(self).wf(),
        ensures
            final(self).wf(),
            final(self)@ == old(self)@,
            mute_taken(old(self)@, req@, muted, r),
    {
        if !req.target.as_str().is_empty() {
            if !contains(&self.streams, req.target.as_str()) {
                let mut error: String = "no active stream to ".to_owned();
                error.push_str(req.target.as_str());
                return Handled::Answer {
                    response: self.brief(false, error.as_str()),
                    effect: Effect::Nothing,
                };
            }
            let ghost target = req.target@;
            let mut targets: Vec<String> = Vec::new();
            targets.push(req.target);
            assert(names(targets@) =~= seq![target]);
            return Handled::Mute { targets, muted };
        }
        let targets: Vec<String> = self.streaming_names();
        if targets.len() == 0 {
            proof {
                if any_stream(self@.streams, StreamState::Streaming) {
                    let ip = choose|ip: Seq<char>| #[trigger]
                        self@.streams.contains_key(ip) && self@.streams[ip].state
                            == StreamState::Streaming;
                    assert(names(targets@).contains(ip));
                }
            }
            return Handled::Answer {
                response: self.status_response(false, "not currently streaming"),
                effect: Effect::Nothing,
            };
        }
        Handled::Mute { targets, muted }
    }

    /// Answers behind the muting: what failed, or the state with the streams muted or not.
    pub fn mute_done(&mut self, targets: &Vec<String>, muted: bool, error: Option<&str>) -> (r:
        Response)
        requires
            old(self).wf(),
        ensures
            final(self).wf(),
            match error {
                Some(e) => final(self)@ == old(self)@ && is_status(
                    old(self)@,
                    false,
                    "failed to update audio mute state: "@ + e@,
                    r@,
                ),
                None => final(self)@ == (DaemonView {
                    streams: muted_streams(old(self)@.streams, names(targets@), muted),
                    ..old(self)@
                }) && is_status(final(self)@, true, ""@, r@),
            },
    {
        if let Some(e) = error {
            let mut text: String = "failed to update audio mute state: ".to_owned();
            text.push_str(e);
            return self.status_response(false, text.as_str());
        }
        let ghost start = self@;
        let ghost all = names(targets@);
        let mut i: usize = 0;
        assert(muted_streams(start.streams, all.take(0), muted) =~= start.streams);
        while i < targets.len()
            invariant
                i <= targets@.len(),
                all == names(targets@),
                self.wf(),
                self@ == (DaemonView {
                    streams: muted_streams(start.streams, all.take(i as int), muted),
                    ..start
                }),
            decreases targets.len() - i,
        {
            let ghost mid = *self;
            let ghost done = all.take(i as int);
            let ghost next = all.take(i + 1);
            assert(all[i as int] == targets@[i as int]@);
            proof {
                assert(next =~= done.push(all[i as int]));
                assert forall|ip: Seq<char>| next.contains(ip) <==> done.contains(ip) || ip
                    == all[i as int] by {
                    if next.contains(ip) {
                        let k = choose|k: int| 0 <= k < next.len() && next[k] == ip;
                        if k < i {
                            assert(done[k] == ip);
                        }
                    }
                    if done.contains(ip) {
                        let k = choose|k: int| 0 <= k < done.len() && done[k] == ip;
                        assert(next[k] == ip);
                    }
                    assert(next[i as int] == all[i as int]);
                }
            }
            if let Some(mut entry) = take(&mut self.streams, targets[i].as_str()) {
                proof {
                    let p = place(mid.streams@, all[i as int]);
                    assert(mid.streams@[p].key() == all[i as int]);
                }
                entry.audio_muted = muted;
                put(&mut self.streams, entry);
            }
            proof {
                let ip = all[i as int];
                let here = mid@.streams;
                assert(self@.streams =~= (if here.contains_key(ip) {
                    here.insert(ip, ActiveStreamView { audio_muted: muted, ..here[ip] })
                } else {
                    here
                }));
                assert(self@.streams =~= muted_streams(start.streams, next, muted));
            }
            i += 1;
        }
        assert(all.take(i as int) =~= all);
        self.status_response(true, "")
    }

    /// Takes a command.
    pub fn handle_request(&mut self, req: Request) -> (r: Handled)
        requires
            old(self).wf(),
        ensures
            final(self).wf(),
            request_taken(old(self)@, req@, final(self)@, r),
    {
        proof {
            reveal_strlit("status");
            reveal_strlit("discover");
            reveal_strlit("devices");
            reveal_strlit("connect");
            reveal_strlit("pin");
            reveal_strlit("disconnect");
            reveal_strlit("mute");
            reveal_strlit("unmute");
            assert("status"@.len() == 6 && "status"@[0] == 's');
            assert("unmute"@.len() == 6 && "unmute"@[0] == 'u');
            assert("devices"@.len() == 7 && "devices"@[0] == 'd');
            assert("connect"@.len() == 7 && "connect"@[0] == 'c');
            assert("discover"@.len() == 8 && "disconnect"@.len() == 10);
            assert("pin"@.len() == 3 && "mute"@.len() == 4);
        }
        let cmd: String = req.cmd.clone();
        if same(cmd.as_str(), "status") {
            return Handled::Answer {
                response: self.status_response(true, ""),
                effect: Effect::Nothing,
            };
        }
        if same(cmd.as_str(), "discover") || same(cmd.as_str(), "devices") {
            return Handled::Answer { response: self.device_report(), effect: Effect::Nothing };
        }
        if same(cmd.as_str(), "connect") {
            let (response, effect) = self.handle_connect(req);
            return Handled::Answer { response, effect };
        }
        if same(cmd.as_str(), "pin") {
            let (response, effect) = self.handle_pin(req);
            return Handled::Answer { response, effect };
        }
        if same(cmd.as_str(), "disconnect") {
            let (response, effect) = self.handle_disconnect(req);
            return Handled::Answer { response, effect };
        }
        if same(cmd.as_str(), "mute") {
            return self.handle_set_mute(req, true);
        }
        if same(cmd.as_str(), "unmute") {
            return self.handle_set_mute(req, false);
        }
        let mut error: String = "unknown command: ".to_owned();
        error.push_str(cmd.as_str());
        let none = String::new();
        assert(none@ =~= Seq::<char>::empty());
        Handled::Answer {
            response: make_answer(false, none.as_str(), error.as_str()),
            effect: Effect::Nothing,
        }
    }

    /// Notes that the worker of a stream waits for the code that its receiver shows.
    pub fn park(&mut self, target: &str, port: i32)
        requires
            old(self).wf(),
        ensures
            final(self).wf(),
            final(self)@ == parked(old(self)@, target@, port),
    {
        self.pending_target = target.to_owned();
        self.pending_port = port;
        if let Some(mut entry) = take(&mut self.streams, target) {
            proof {
                let p = place(old(self).streams@, target@);
                assert(old(self).streams@[p].key() == target@);
            }
            entry.awaits_pin = true;
            put(&mut self.streams, entry);
            assert(self@.streams =~= old(self)@.streams.insert(
                target@,
                ActiveStreamView { awaits_pin: true, ..old(self)@.streams[target@] },
            ));
        } else {
            assert(self@.streams =~= old(self)@.streams);
        }
    }

    /// Notes that a receiver is paired and its stream begins; false when the stream was given up
    /// meanwhile. The second result says whether the capture is to be stopped.
    pub fn established(&mut self, target: &str, name: &str, device_id: &str, has_audio: bool) -> (r:
        (bool, bool))
        requires
            old(self).wf(),
        ensures
            final(self).wf(),
            (final(self)@, r) == stream_established(
                old(self)@,
                target@,
                name@,
                device_id@,
                has_audio,
            ),
    {
        self.forget_pending(target);
        let ghost mid = *self;
        match take(&mut self.streams, target) {
            Some(entry) => {
                proof {
                    let p = place(mid.streams@, target@);
                    assert(mid.streams@[p].key() == target@);
                }
                let changed = ActiveStream {
                    device: if name.is_empty() {
                        target.to_owned()
                    } else {
                        name.to_owned()
                    },
                    device_ip: entry.device_ip,
                    device_id: device_id.to_owned(),
                    state: StreamState::Streaming,
                    audio_muted: entry.audio_muted,
                    has_audio,
                    awaits_pin: false,
                    has_sink: true,
                };
                let ghost view = changed@;
                put(&mut self.streams, changed);
                assert(self@.streams =~= mid@.streams.insert(target@, view));
                (true, false)
            },
            None => {
                assert(self@.streams =~= mid@.streams);
                let stop: bool = self.maybe_stop_broadcast();
                (false, stop)
            },
        }
    }

    /// Whether a stream is still wanted.
    pub fn is_wanted(&self, target: &str) -> (r: bool)
        requires
            self.wf(),
        ensures
            r == self@.streams.contains_key(target@),
    {
        contains(&self.streams, target)
    }

    /// Whether the screen is captured.
    pub fn is_capturing(&self) -> (r: bool)
        ensures
            r == self@.capturing,
    {
        self.capturing
    }

    /// Notes that a capture was started; false when there is one already and the new one is not
    /// needed.
    pub fn capture_started(&mut self) -> (r: bool)
        requires
            old(self).wf(),
        ensures
            final(self).wf(),
            r == !old(self)@.capturing,
            final(self)@ == (DaemonView { capturing: true, ..old(self)@ }),
    {
        let first: bool = !self.capturing;
        self.capturing = true;
        first
    }

    fn drop_stale(&mut self, now: u64)
        requires
            old(self).wf(),
        ensures
            final(self).wf(),
            final(self)@ == (DaemonView {
                devices: scanned(old(self)@.devices, Seq::empty(), now),
                ..old(self)@
            }),
    {
        let ghost start = self@;
        let ghost rows = self.devices@;
        let mut i: usize = 0;
        while i < self.devices.len()
            invariant
                i <= self.devices@.len(),
                ordered(rows),
                start.devices == table(rows).map_values(|d: SeenDevice| d@),
                self.wf(),
                self@ == (DaemonView { devices: self@.devices, ..start }),
                forall|k: int|
                    0 <= k < i ==> now - (#[trigger] self.devices@[k]).seen <= DEVICE_TTL_MS,
                forall|ip: Seq<char>| #[trigger]
                    table(self.devices@).contains_key(ip) ==> table(rows).contains_key(ip)
                        && table(self.devices@)[ip] == table(rows)[ip],
                forall|ip: Seq<char>| #[trigger]
                    table(rows).contains_key(ip) && now - table(rows)[ip].seen <= DEVICE_TTL_MS
                        ==> table(self.devices@).contains_key(ip),
            decreases self.devices.len() - i,
        {
            let ghost mid = self.devices@;
            proof {
                lemma_row(mid, i as int);
            }
            let seen: u64 = self.devices[i].seen;
            let stale: bool = now > seen && now - seen > DEVICE_TTL_MS;
            if stale {
                let name: String = self.devices[i].device.ip.clone();
                let _ = take(&mut self.devices, name.as_str());
                proof {
                    crate::sorted::lemma_take_row(mid, i as int, self.devices@);
                }
            } else {
                i += 1;
            }
        }
        proof {
            let kept = scanned(start.devices, Seq::empty(), now);
            assert forall|ip: Seq<char>| #[trigger] self@.devices.contains_key(ip)
                == kept.contains_key(ip) by {
                if table(self.devices@).contains_key(ip) {
                    let p = place(self.devices@, ip);
                    assert(self.devices@[p].key() == ip);
                    lemma_row(self.devices@, p);
                }
            }
            assert(self@.devices =~= kept);
        }
    }

    /// Takes the outcome of a scan at a time in milliseconds.
    pub fn background_discover(&mut self, found: Vec<AirPlayDevice>, now: u64)
        requires
            old(self).wf(),
        ensures
            final(self).wf(),
            final(self)@ == (DaemonView {
                devices: scanned(
                    old(self)@.devices,
                    found@.map_values(|d: AirPlayDevice| d@),
                    now,
                ),
                ..old(self)@
            }),
    {
        let ghost start = self@;
        let ghost all = found@.map_values(|d: AirPlayDevice| d@);
        self.drop_stale(now);
        assert(all.take(0) =~= Seq::empty());
        let mut i: usize = 0;
        while i < found.len()
            invariant
                i <= found@.len(),
                all == found@.map_values(|d: AirPlayDevice| d@),
                self.wf(),
                self@ == (DaemonView {
                    devices: scanned(start.devices, all.take(i as int), now),
                    ..start
                }),
            decreases found.len() - i,
        {
            let ghost mid = self@;
            let device: AirPlayDevice = found[i].copy();
            let ghost view = device@;
            put(&mut self.devices, SeenDevice { device, seen: now });
            proof {
                let next = all.take(i + 1);
                assert(next.drop_last() =~= all.take(i as int));
                assert(next.last() == view);
                assert(self@.devices =~= mid.devices.insert(
                    view.ip,
                    SeenDeviceView { device: view, seen: now },
                ));
            }
            i += 1;
        }
        assert(all.take(i as int) =~= all);
    }
}

/// A receiver whose stream is taken out is no longer waited for, and no capture goes on without
/// streams.
pub proof fn lemma_removed_stream(v: DaemonView, target: Seq<char>)
    ensures
        !without(v, target).streams.contains_key(target),
        target.len() > 0 ==> without(v, target).pending_target != target,
        without(v, target).capturing ==> without(v, target).streams != Map::<
            Seq<char>,
            ActiveStreamView,
        >::empty(),
        forall|other: Seq<char>|
            other != target ==> (#[trigger] without(v, target).streams.contains_key(other)
                == v.streams.contains_key(other)),
{
}

/// A daemon whose streams are all stopped is idle.
pub proof fn lemma_stopped_is_idle(v: DaemonView)
    ensures
        overall(all_stopped(v)) == STATE_IDLE@,
{
    let s = all_stopped(v);
    assert(!any_stream(s.streams, StreamState::Streaming));
    assert(!any_stream(s.streams, StreamState::Connecting));
}

/// A code is delivered once: behind it the worker no longer waits, and nothing is waited for.
pub proof fn lemma_code_delivered_once(
    v: DaemonView,
    pin: Seq<char>,
    after: DaemonView,
    response: ResponseView,
    effect: Effect,
)
    requires
        is_resumed(v, pin, after, response, effect),
        effect is Deliver,
    ensures
        after.pending_target.len() == 0,
        !after.streams[v.pending_target].awaits_pin,
{
}

/// A second stream to a receiver is never started.
pub proof fn lemma_no_second_stream(
    v: DaemonView,
    q: RequestView,
    after: DaemonView,
    response: ResponseView,
    effect: Effect,
)
    requires
        connect_taken(v, q, after, response, effect),
    ensures
        effect matches Effect::Start { target, .. } ==> !v.streams.contains_key(target@)
            && after.streams.contains_key(target@),
{
}

/// A receiver that a scan found is known behind it, and one that it did not find is known only if
/// it was seen not too long ago.
pub proof fn lemma_scan(
    devices: Map<Seq<char>, SeenDeviceView>,
    found: Seq<AirPlayDeviceView>,
    now: u64,
    ip: Seq<char>,
)
    ensures
        (exists|i: int| 0 <= i < found.len() && (#[trigger] found[i]).ip == ip) ==> scanned(
            devices,
            found,
            now,
        ).contains_key(ip) && scanned(devices, found, now)[ip].seen == now,
        (forall|i: int| 0 <= i < found.len() ==> (#[trigger] found[i]).ip != ip) ==> scanned(
            devices,
            found,
            now,
        ).contains_key(ip) == (devices.contains_key(ip) && now - devices[ip].seen <= DEVICE_TTL_MS),
    decreases found.len(),
{
    if found.len() > 0 {
        let most = found.drop_last();
        lemma_scan(devices, most, now, ip);
        if exists|i: int| 0 <= i < found.len() && (#[trigger] found[i]).ip == ip {
            let i = choose|i: int| 0 <= i < found.len() && (#[trigger] found[i]).ip == ip;
            if i < most.len() {
                assert(most[i].ip == ip);
            }
        } else {
            assert forall|i: int| 0 <= i < most.len() implies (#[trigger] most[i]).ip != ip by {
                assert(found[i].ip != ip);
            }
            assert(found[found.len() - 1].ip != ip);
        }
    }
}

/// The daemon once a stream was set up, whether the stream is still wanted, and whether the capture
/// ends with it.
pub open spec fn stream_established(
    v: DaemonView,
    target: Seq<char>,
    name: Seq<char>,
    device_id: Seq<char>,
    has_audio: bool,
) -> (DaemonView, (bool, bool)) {
    let waiting = v.pending_target == target;
    let cleared = DaemonView {
        pending_target: if waiting {
            Seq::empty()
        } else {
            v.pending_target
        },
        pending_port: if waiting {
            0
        } else {
            v.pending_port
        },
        ..v
    };
    if v.streams.contains_key(target) {
        let running = ActiveStreamView {
            device: if name.len() == 0 {
                target
            } else {
                name
            },
            device_id,
            state: StreamState::Streaming,
            has_audio,
            awaits_pin: false,
            has_sink: true,
            ..v.streams[target]
        };
        (DaemonView { streams: v.streams.insert(target, running), ..cleared }, (true, false))
    } else {
        let none = v.streams == Map::<Seq<char>, ActiveStreamView>::empty();
        (
            DaemonView { capturing: v.capturing && !none, ..cleared },
            (false, v.capturing && none),
        )
    }
}

/// The daemon while a receiver waits for a code.
pub open spec fn parked(v: DaemonView, target: Seq<char>, port: i32) -> DaemonView {
    DaemonView {
        pending_target: target,
        pending_port: port,
        streams: if v.streams.contains_key(target) {
            v.streams.insert(target, ActiveStreamView { awaits_pin: true, ..v.streams[target] })
        } else {
            v.streams
        },
        ..v
    }
}

} // verus!
