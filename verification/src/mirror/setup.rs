//! What is said to the receiver to set a mirror session up, and what it answers.
use crate::audio::alac::{AUDIO_SAMPLE_RATE, AUDIO_SPF};
use crate::audio::stream::{use_audio_fec, AudioSecurityMode, AUDIO_CT_ALAC};
use crate::bytes::array32;
use crate::crypto::random_bytes;
use crate::property_list::{
    int_at, items_at, list_of_one, put, single, text, writable, Builder, Plist, PlistView,
};
use crate::text::{decimal_of, push_decimal};
use vstd::prelude::*;
use vstd::slice::slice_to_vec;

verus! {

/// The content type of the setup requests.
pub const PLIST_CONTENT_TYPE: &'static str = "application/x-apple-binary-plist";

/// The kind of the sound stream.
pub const AUDIO_STREAM_TYPE: i64 = 96;

/// The kind of the video stream.
pub const VIDEO_STREAM_TYPE: i64 = 110;

/// A random key for the sound.
pub fn random_audio_key() -> (r: [u8; 32])
    ensures
        r@.len() == 32,
{
    array32(random_bytes(32).as_slice())
}

/// What both setup requests are made from.
pub struct SetupParams {
    pub host: String,
    pub port: u16,
    pub session_uuid: String,
    /// The sender's identifier in the shape of a MAC address.
    pub client_device_id: String,
    pub stream_key: [u8; 16],
    pub iv: [u8; 16],
    pub ekey: Vec<u8>,
    pub shared_secret: Vec<u8>,
    /// Whether the control channel is encrypted.
    pub encrypted: bool,
    /// The key of the sound, for sessions with modern encryption.
    pub audio_key: [u8; 32],
    pub timing_port: u16,
    pub audio_control_port: u16,
    pub no_encrypt: bool,
    pub mute_audio: bool,
}

#[verifier::ext_equal]
pub struct SetupParamsView {
    pub host: Seq<char>,
    pub port: u16,
    pub session_uuid: Seq<char>,
    pub client_device_id: Seq<char>,
    pub stream_key: Seq<u8>,
    pub iv: Seq<u8>,
    pub ekey: Seq<u8>,
    pub shared_secret: Seq<u8>,
    pub encrypted: bool,
    pub audio_key: Seq<u8>,
    pub timing_port: u16,
    pub audio_control_port: u16,
    pub no_encrypt: bool,
    pub mute_audio: bool,
}

impl View for SetupParams {
    type V = SetupParamsView;

    open spec fn view(&self) -> SetupParamsView {
        SetupParamsView {
            host: self.host@,
            port: self.port,
            session_uuid: self.session_uuid@,
            client_device_id: self.client_device_id@,
            stream_key: self.stream_key@,
            iv: self.iv@,
            ekey: self.ekey@,
            shared_secret: self.shared_secret@,
            encrypted: self.encrypted,
            audio_key: self.audio_key@,
            timing_port: self.timing_port,
            audio_control_port: self.audio_control_port,
            no_encrypt: self.no_encrypt,
            mute_audio: self.mute_audio,
        }
    }
}

/// How the sound of a session is protected.
pub open spec fn audio_mode_of(encrypted: bool) -> AudioSecurityMode {
    if encrypted {
        AudioSecurityMode::ChaCha
    } else {
        AudioSecurityMode::LegacyAes
    }
}

/// How the sound of a session is protected: an encrypted control channel calls for modern
/// encryption.
pub fn select_audio_security_mode(encrypted: bool) -> (r: AudioSecurityMode)
    ensures
        r == audio_mode_of(encrypted),
{
    if encrypted {
        AudioSecurityMode::ChaCha
    } else {
        AudioSecurityMode::LegacyAes
    }
}

/// A stream identifier from the time in nanoseconds.
pub open spec fn stream_id_of(nanos: u64) -> i64 {
    (nanos % 0x8000_0000_0000_0000) as i64
}

/// A stream identifier from the time in nanoseconds: its lower 63 bits.
pub fn stream_id(nanos: u64) -> (r: i64)
    ensures
        r == stream_id_of(nanos),
        r >= 0,
{
    (nanos % 0x8000_0000_0000_0000) as i64
}

/// The address of a stream.
pub open spec fn stream_uri_of(host: Seq<char>, port: u16, id: i64) -> Seq<char> {
    "rtsp://"@ + host + ":"@ + decimal_of(port as nat) + "/"@ + decimal_of(id as nat)
}

/// The address of a stream.
pub fn stream_uri(host: &str, port: u16, id: i64) -> (r: String)
    requires
        id >= 0,
    ensures
        r@ == stream_uri_of(host@, port, id),
{
    let mut out: String = "rtsp://".to_owned();
    out.push_str(host);
    out.push_str(":");
    push_decimal(&mut out, port as u64);
    out.push_str("/");
    push_decimal(&mut out, id as u64);
    out
}

/// How often a frame of sound is sent beside its first time.
pub open spec fn redundancy(encrypted: bool) -> i64 {
    if encrypted {
        0
    } else {
        2
    }
}

/// The ports of the sound with modern encryption: the packets use the key of the stream, and the
/// control channel has its own port.
pub open spec fn connections_of(control_port: u16) -> PlistView {
    let d = put(
        Seq::empty(),
        "streamConnectionTypeRTP"@,
        single("streamConnectionKeyUseStreamEncryptionKey"@, PlistView::Boolean(true)),
    );
    let d = put(
        d,
        "streamConnectionTypeRTCP"@,
        single("streamConnectionKeyPort"@, PlistView::Integer(control_port as i64)),
    );
    PlistView::Dictionary(d)
}

/// The description of the sound stream.
pub open spec fn audio_stream_of(p: SetupParamsView, id: i64, latency_samples: u32) -> PlistView {
    let d = put(Seq::empty(), "type"@, PlistView::Integer(AUDIO_STREAM_TYPE));
    let d = put(d, "streamConnectionID"@, PlistView::Integer(id));
    let d = put(d, "ct"@, PlistView::Integer(AUDIO_CT_ALAC as i64));
    let d = put(d, "spf"@, PlistView::Integer(AUDIO_SPF as i64));
    let d = put(d, "sr"@, PlistView::Integer(AUDIO_SAMPLE_RATE as i64));
    let d = put(d, "audioFormat"@, PlistView::Integer(0x40000));
    let d = put(d, "audioFormatIndex"@, PlistView::Integer(0x12));
    let d = put(d, "controlPort"@, PlistView::Integer(p.audio_control_port as i64));
    let d = put(d, "audioMode"@, PlistView::Text("default"@));
    let d = put(d, "usingScreen"@, PlistView::Boolean(true));
    let d = put(d, "latencyMin"@, PlistView::Integer(latency_samples as i64));
    let d = put(d, "latencyMax"@, PlistView::Integer(latency_samples as i64));
    let d = put(d, "redundantAudio"@, PlistView::Integer(redundancy(p.encrypted)));
    if p.encrypted {
        let d = put(d, "disableRetransmits"@, PlistView::Boolean(true));
        let d = put(d, "shk"@, PlistView::Data(p.audio_key));
        let d = put(d, "isMedia"@, PlistView::Boolean(true));
        let d = put(d, "supportsDynamicStreamID"@, PlistView::Boolean(true));
        let d = put(d, "streamConnections"@, connections_of(p.audio_control_port));
        PlistView::Dictionary(d)
    } else {
        PlistView::Dictionary(d)
    }
}

/// The setup request of the sound. Without modern encryption it brings the wrapped key.
pub open spec fn audio_setup_of(p: SetupParamsView, id: i64, latency_samples: u32) -> PlistView {
    let d = put(Seq::empty(), "deviceID"@, PlistView::Text(p.client_device_id));
    let d = put(d, "macAddress"@, PlistView::Text(p.client_device_id));
    let d = put(d, "sessionUUID"@, PlistView::Text(p.session_uuid));
    let d = put(d, "sourceVersion"@, PlistView::Text("935.7.1"@));
    let d = put(d, "timingProtocol"@, PlistView::Text("NTP"@));
    let d = put(d, "timingPort"@, PlistView::Integer(p.timing_port as i64));
    let d = put(d, "osBuildVersion"@, PlistView::Text("23F79"@));
    let d = put(d, "model"@, PlistView::Text("MacBookPro18,3"@));
    let d = put(d, "name"@, PlistView::Text("MacBook Pro"@));
    let d = if !p.encrypted && p.ekey.len() > 0 {
        let d = put(d, "et"@, PlistView::Integer(32));
        let d = put(d, "ekey"@, PlistView::Data(p.ekey));
        put(d, "eiv"@, PlistView::Data(p.iv))
    } else {
        d
    };
    PlistView::Dictionary(
        put(d, "streams"@, PlistView::Array(seq![audio_stream_of(p, id, latency_samples)])),
    )
}

/// The names of the points at which frames are stamped.
pub open spec fn stamp_names() -> Seq<PlistView> {
    seq![
        single("name"@, PlistView::Text("SubSu"@)),
        single("name"@, PlistView::Text("BePxT"@)),
        single("name"@, PlistView::Text("AfPxT"@)),
        single("name"@, PlistView::Text("BefEn"@)),
        single("name"@, PlistView::Text("EmEnc"@)),
    ]
}

/// The description of the video stream.
pub open spec fn video_stream_of(p: SetupParamsView, id: i64) -> PlistView {
    let d = put(Seq::empty(), "type"@, PlistView::Integer(VIDEO_STREAM_TYPE));
    let d = put(d, "streamConnectionID"@, PlistView::Integer(id));
    let d = put(d, "timestampInfo"@, PlistView::Array(stamp_names()));
    if p.no_encrypt {
        PlistView::Dictionary(d)
    } else {
        let d = put(d, "shk"@, PlistView::Data(p.stream_key));
        PlistView::Dictionary(put(d, "shiv"@, PlistView::Data(p.iv)))
    }
}

/// The setup request of the video.
pub open spec fn video_setup_of(p: SetupParamsView, id: i64) -> PlistView {
    let d = put(Seq::empty(), "deviceID"@, PlistView::Text(p.client_device_id));
    let d = put(d, "macAddress"@, PlistView::Text(p.client_device_id));
    let d = put(d, "sessionUUID"@, PlistView::Text(p.session_uuid));
    let d = put(d, "sourceVersion"@, PlistView::Text("935.7.1"@));
    let d = put(d, "isScreenMirroringSession"@, PlistView::Boolean(true));
    let d = put(d, "timingProtocol"@, PlistView::Text("NTP"@));
    let d = put(d, "timingPort"@, PlistView::Integer(p.timing_port as i64));
    let d = put(d, "osBuildVersion"@, PlistView::Text("23F79"@));
    let d = put(d, "model"@, PlistView::Text("MacBookPro18,3"@));
    let d = put(d, "name"@, PlistView::Text("MacBook Pro"@));
    let d = if p.no_encrypt {
        d
    } else {
        let d = put(d, "ekey"@, PlistView::Data(p.ekey));
        put(d, "eiv"@, PlistView::Data(p.iv))
    };
    PlistView::Dictionary(put(d, "streams"@, PlistView::Array(seq![video_stream_of(p, id)])))
}

fn one(key: &str, value: Plist) -> (r: Plist)
    requires
        writable(value@),
    ensures
        r@ == single(key@, value@),
        writable(r@),
{
    let mut d = Builder::new();
    d.put(key, value);
    d.finish()
}

fn connections(control_port: u16) -> (r: Plist)
    ensures
        r@ == connections_of(control_port),
        writable(r@),
{
    let mut d = Builder::new();
    d.put(
        "streamConnectionTypeRTP",
        one("streamConnectionKeyUseStreamEncryptionKey", Plist::Boolean(true)),
    );
    d.put(
        "streamConnectionTypeRTCP",
        one("streamConnectionKeyPort", Plist::Integer(control_port as i64)),
    );
    d.finish()
}

fn audio_stream(p: &SetupParams, id: i64, latency_samples: u32) -> (r: Plist)
    ensures
        r@ == audio_stream_of(p@, id, latency_samples),
        writable(r@),
{
    let redundant: i64 = if use_audio_fec(p.encrypted) {
        2
    } else {
        0
    };
    let mut d = Builder::new();
    d.put("type", Plist::Integer(AUDIO_STREAM_TYPE));
    d.put("streamConnectionID", Plist::Integer(id));
    d.put("ct", Plist::Integer(AUDIO_CT_ALAC as i64));
    d.put("spf", Plist::Integer(AUDIO_SPF as i64));
    d.put("sr", Plist::Integer(AUDIO_SAMPLE_RATE as i64));
    d.put("audioFormat", Plist::Integer(0x40000));
    d.put("audioFormatIndex", Plist::Integer(0x12));
    d.put("controlPort", Plist::Integer(p.audio_control_port as i64));
    d.put("audioMode", text("default"));
    d.put("usingScreen", Plist::Boolean(true));
    d.put("latencyMin", Plist::Integer(latency_samples as i64));
    d.put("latencyMax", Plist::Integer(latency_samples as i64));
    d.put("redundantAudio", Plist::Integer(redundant));
    if redundant == 0 {
        d.put("disableRetransmits", Plist::Boolean(true));
    }
    if p.encrypted {
        d.put("shk", Plist::Data(slice_to_vec(&p.audio_key)));
        d.put("isMedia", Plist::Boolean(true));
        d.put("supportsDynamicStreamID", Plist::Boolean(true));
        d.put("streamConnections", connections(p.audio_control_port));
    }
    d.finish()
}

/// The setup request of the sound.
pub fn audio_setup(p: &SetupParams, id: i64, latency_samples: u32) -> (r: Plist)
    ensures
        r@ == audio_setup_of(p@, id, latency_samples),
        writable(r@),
{
    let mut d = Builder::new();
    d.put("deviceID", text(p.client_device_id.as_str()));
    d.put("macAddress", text(p.client_device_id.as_str()));
    d.put("sessionUUID", text(p.session_uuid.as_str()));
    d.put("sourceVersion", text("935.7.1"));
    d.put("timingProtocol", text("NTP"));
    d.put("timingPort", Plist::Integer(p.timing_port as i64));
    d.put("osBuildVersion", text("23F79"));
    d.put("model", text("MacBookPro18,3"));
    d.put("name", text("MacBook Pro"));
    if !p.encrypted && p.ekey.len() > 0 {
        d.put("et", Plist::Integer(32));
        d.put("ekey", Plist::Data(slice_to_vec(p.ekey.as_slice())));
        d.put("eiv", Plist::Data(slice_to_vec(&p.iv)));
    }
    d.put("streams", list_of_one(audio_stream(p, id, latency_samples)));
    d.finish()
}

fn stamps() -> (r: Plist)
    ensures
        r@ == PlistView::Array(stamp_names()),
        writable(r@),
{
    let mut items: Vec<Plist> = Vec::new();
    items.push(one("name", text("SubSu")));
    items.push(one("name", text("BePxT")));
    items.push(one("name", text("AfPxT")));
    items.push(one("name", text("BefEn")));
    items.push(one("name", text("EmEnc")));
    let ghost all = items@;
    let r = Plist::Array(items);
    assert(r@->Array_0 =~= stamp_names());
    assert forall|i: int| 0 <= i < stamp_names().len() implies writable(
        #[trigger] stamp_names()[i],
    ) by {
        assert(writable(all[i]@));
    }
    r
}

fn video_stream(p: &SetupParams, id: i64) -> (r: Plist)
    ensures
        r@ == video_stream_of(p@, id),
        writable(r@),
{
    let mut d = Builder::new();
    d.put("type", Plist::Integer(VIDEO_STREAM_TYPE));
    d.put("streamConnectionID", Plist::Integer(id));
    d.put("timestampInfo", stamps());
    if !p.no_encrypt {
        d.put("shk", Plist::Data(slice_to_vec(&p.stream_key)));
        d.put("shiv", Plist::Data(slice_to_vec(&p.iv)));
    }
    d.finish()
}

/// The setup request of the video.
pub fn video_setup(p: &SetupParams, id: i64) -> (r: Plist)
    ensures
        r@ == video_setup_of(p@, id),
        writable(r@),
{
    let mut d = Builder::new();
    d.put("deviceID", text(p.client_device_id.as_str()));
    d.put("macAddress", text(p.client_device_id.as_str()));
    d.put("sessionUUID", text(p.session_uuid.as_str()));
    d.put("sourceVersion", text("935.7.1"));
    d.put("isScreenMirroringSession", Plist::Boolean(true));
    d.put("timingProtocol", text("NTP"));
    d.put("timingPort", Plist::Integer(p.timing_port as i64));
    d.put("osBuildVersion", text("23F79"));
    d.put("model", text("MacBookPro18,3"));
    d.put("name", text("MacBook Pro"));
    if !p.no_encrypt {
        d.put("ekey", Plist::Data(slice_to_vec(p.ekey.as_slice())));
        d.put("eiv", Plist::Data(slice_to_vec(&p.iv)));
    }
    d.put("streams", list_of_one(video_stream(p, id)));
    d.finish()
}

/// A positive number under a key of a dictionary under another.
pub open spec fn key_port(stream: PlistView, connection: Seq<char>) -> Option<i64> {
    match stream.get("streamConnections"@) {
        None => None,
        Some(connections) => match connections.get(connection) {
            None => None,
            Some(c) => match int_at(c, "streamConnectionKeyPort"@) {
                Some(p) => if p > 0 {
                    Some(p)
                } else {
                    None
                },
                None => None,
            },
        },
    }
}

/// A port of a stream: the one of its connection if that is stated, else the plain one.
pub open spec fn port_of(stream: PlistView, connection: Seq<char>, plain: Seq<char>) -> u16 {
    match key_port(stream, connection) {
        Some(p) => p as u16,
        None => match int_at(stream, plain) {
            Some(p) => p as u16,
            None => 0,
        },
    }
}

/// The ports of the sound, data and control, from stream `i` on.
pub open spec fn audio_ports_from(streams: Seq<PlistView>, i: int) -> Option<(u16, u16)>
    decreases streams.len() - i,
{
    if i >= streams.len() {
        None
    } else if int_at(streams[i], "type"@) == Some(AUDIO_STREAM_TYPE) {
        Some(
            (
                port_of(streams[i], "streamConnectionTypeRTP"@, "dataPort"@),
                port_of(streams[i], "streamConnectionTypeRTCP"@, "controlPort"@),
            ),
        )
    } else {
        audio_ports_from(streams, i + 1)
    }
}

/// The ports of the sound, of the first sound stream in a reply.
pub open spec fn audio_ports_of(reply: PlistView) -> Option<(u16, u16)> {
    match items_at(reply, "streams"@) {
        Some(streams) => audio_ports_from(streams, 0),
        None => None,
    }
}

fn find_key_port(stream: &Plist, connection: &str) -> (r: Option<i64>)
    ensures
        r == key_port(stream@, connection@),
{
    match stream.get("streamConnections") {
        None => None,
        Some(connections) => match connections.get(connection) {
            None => None,
            Some(c) => match c.int_at("streamConnectionKeyPort") {
                Some(p) => if p > 0 {
                    Some(p)
                } else {
                    None
                },
                None => None,
            },
        },
    }
}

fn find_port(stream: &Plist, connection: &str, plain: &str) -> (r: u16)
    ensures
        r == port_of(stream@, connection@, plain@),
{
    match find_key_port(stream, connection) {
        Some(p) => p as u16,
        None => match stream.int_at(plain) {
            Some(p) => p as u16,
            None => 0,
        },
    }
}

/// The data and control ports of the sound in the reply to its setup.
pub fn extract_audio_ports(reply: &Plist) -> (r: Option<(u16, u16)>)
    ensures
        r == audio_ports_of(reply@),
{
    let streams: &Vec<Plist> = match reply.items_at("streams") {
        Some(s) => s,
        None => {
            return None;
        },
    };
    let ghost all = items_at(reply@, "streams"@)->Some_0;
    let mut i: usize = 0;
    while i < streams.len()
        invariant
            i <= streams@.len(),
            streams@.len() == all.len(),
            forall|k: int| 0 <= k < all.len() ==> #[trigger] streams@[k]@ == all[k],
            audio_ports_of(reply@) == audio_ports_from(all, i as int),
        decreases streams.len() - i,
    {
        let s: &Plist = &streams[i];
        assert(s@ == all[i as int]);
        if let Some(kind) = s.int_at("type") {
            if kind == AUDIO_STREAM_TYPE {
                return Some(
                    (
                        find_port(s, "streamConnectionTypeRTP", "dataPort"),
                        find_port(s, "streamConnectionTypeRTCP", "controlPort"),
                    ),
                );
            }
        }
        i += 1;
    }
    None
}

/// The port of the video, from stream `i` on.
pub open spec fn video_port_from(streams: Seq<PlistView>, i: int) -> Option<u16>
    decreases streams.len() - i,
{
    if i >= streams.len() {
        None
    } else if int_at(streams[i], "type"@) == Some(VIDEO_STREAM_TYPE) && int_at(
        streams[i],
        "dataPort"@,
    ) is Some {
        Some(int_at(streams[i], "dataPort"@)->Some_0 as u16)
    } else {
        video_port_from(streams, i + 1)
    }
}

/// The port of the video: of the first video stream that states one.
pub open spec fn video_port_of(reply: PlistView) -> Option<u16> {
    match items_at(reply, "streams"@) {
        Some(streams) => video_port_from(streams, 0),
        None => None,
    }
}

/// The data port of the video in the reply to its setup.
pub fn extract_video_data_port(reply: &Plist) -> (r: Option<u16>)
    ensures
        r == video_port_of(reply@),
{
    let streams: &Vec<Plist> = match reply.items_at("streams") {
        Some(s) => s,
        None => {
            return None;
        },
    };
    let ghost all = items_at(reply@, "streams"@)->Some_0;
    let mut i: usize = 0;
    while i < streams.len()
        invariant
            i <= streams@.len(),
            streams@.len() == all.len(),
            forall|k: int| 0 <= k < all.len() ==> #[trigger] streams@[k]@ == all[k],
            video_port_of(reply@) == video_port_from(all, i as int),
        decreases streams.len() - i,
    {
        let s: &Plist = &streams[i];
        assert(s@ == all[i as int]);
        if let Some(kind) = s.int_at("type") {
            if kind == VIDEO_STREAM_TYPE {
                if let Some(p) = s.int_at("dataPort") {
                    return Some(p as u16);
                }
            }
        }
        i += 1;
    }
    None
}

/// The port on which a receiver takes events, 0 when it states none.
pub open spec fn event_port_of(reply: PlistView) -> u16 {
    match int_at(reply, "eventPort"@) {
        Some(p) => if p > 0 {
            p as u16
        } else {
            0
        },
        None => 0,
    }
}

/// The port on which a receiver takes events, 0 when it states none.
pub fn extract_event_port(reply: &Plist) -> (r: u16)
    ensures
        r == event_port_of(reply@),
{
    match reply.int_at("eventPort") {
        Some(p) => if p > 0 {
            p as u16
        } else {
            0
        },
        None => 0,
    }
}

} // verus!
