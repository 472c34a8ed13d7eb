//! What is said over the daemon's control socket.
use crate::discovery::{AirPlayDevice, AirPlayDeviceView};
use vstd::prelude::*;

verus! {

pub const STATE_IDLE: &'static str = "idle";

pub const STATE_DISCOVERING: &'static str = "discovering";

pub const STATE_CONNECTING: &'static str = "connecting";

pub const STATE_STREAMING: &'static str = "streaming";

pub const STATE_PIN_REQUIRED: &'static str = "pin_required";

/// A command to the daemon.
#[derive(Clone, Debug)]
pub struct Request {
    pub cmd: String,
    pub target: String,
    pub port: i32,
    pub pin: String,
}

#[verifier::ext_equal]
pub struct RequestView {
    pub cmd: Seq<char>,
    pub target: Seq<char>,
    pub port: i32,
    pub pin: Seq<char>,
}

impl View for Request {
    type V = RequestView;

    open spec fn view(&self) -> RequestView {
        RequestView { cmd: self.cmd@, target: self.target@, port: self.port, pin: self.pin@ }
    }
}

/// A command with nothing else said.
pub open spec fn command(cmd: Seq<char>) -> RequestView {
    RequestView { cmd, target: Seq::empty(), port: 0, pin: Seq::empty() }
}

impl Default for Request {
    fn default() -> (r: Request)
        ensures
            r@ == command(Seq::empty()),
    {
        Request { cmd: String::new(), target: String::new(), port: 0, pin: String::new() }
    }
}

/// A stream, as it is reported.
#[derive(Clone, Debug)]
pub struct StreamInfo {
    pub device: String,
    pub device_ip: String,
    pub state: String,
    pub has_audio: bool,
    pub audio_muted: bool,
}

#[verifier::ext_equal]
pub struct StreamInfoView {
    pub device: Seq<char>,
    pub device_ip: Seq<char>,
    pub state: Seq<char>,
    pub has_audio: bool,
    pub audio_muted: bool,
}

impl View for StreamInfo {
    type V = StreamInfoView;

    open spec fn view(&self) -> StreamInfoView {
        StreamInfoView {
            device: self.device@,
            device_ip: self.device_ip@,
            state: self.state@,
            has_audio: self.has_audio,
            audio_muted: self.audio_muted,
        }
    }
}

/// A receiver, as it is reported.
#[derive(Clone, Debug)]
pub struct DeviceInfo {
    pub name: String,
    pub model: String,
    pub ip: String,
    pub port: i32,
    pub device_id: String,
}

#[verifier::ext_equal]
pub struct DeviceInfoView {
    pub name: Seq<char>,
    pub model: Seq<char>,
    pub ip: Seq<char>,
    pub port: i32,
    pub device_id: Seq<char>,
}

impl View for DeviceInfo {
    type V = DeviceInfoView;

    open spec fn view(&self) -> DeviceInfoView {
        DeviceInfoView {
            name: self.name@,
            model: self.model@,
            ip: self.ip@,
            port: self.port,
            device_id: self.device_id@,
        }
    }
}

/// A receiver, as it is reported.
pub open spec fn reported(d: AirPlayDeviceView) -> DeviceInfoView {
    DeviceInfoView {
        name: d.name,
        model: d.model,
        ip: d.ip,
        port: d.port as i32,
        device_id: d.device_id,
    }
}

/// A receiver, as it is reported.
pub fn to_device_info(d: &AirPlayDevice) -> (r: DeviceInfo)
    ensures
        r@ == reported(d@),
{
    DeviceInfo {
        name: d.name.clone(),
        model: d.model.clone(),
        ip: d.ip.clone(),
        port: d.port as i32,
        device_id: d.device_id.clone(),
    }
}

/// The answer to a command.
#[derive(Clone, Debug)]
pub struct Response {
    pub ok: bool,
    pub state: String,
    pub device: String,
    pub device_ip: String,
    pub has_audio: bool,
    pub audio_muted: bool,
    pub needs_pin: bool,
    pub error: String,
    pub devices: Option<Vec<DeviceInfo>>,
    pub streams: Option<Vec<StreamInfo>>,
}

#[verifier::ext_equal]
pub struct ResponseView {
    pub ok: bool,
    pub state: Seq<char>,
    pub device: Seq<char>,
    pub device_ip: Seq<char>,
    pub has_audio: bool,
    pub audio_muted: bool,
    pub needs_pin: bool,
    pub error: Seq<char>,
    pub devices: Option<Seq<DeviceInfoView>>,
    pub streams: Option<Seq<StreamInfoView>>,
}

impl View for Response {
    type V = ResponseView;

    open spec fn view(&self) -> ResponseView {
        ResponseView {
            ok: self.ok,
            state: self.state@,
            device: self.device@,
            device_ip: self.device_ip@,
            has_audio: self.has_audio,
            audio_muted: self.audio_muted,
            needs_pin: self.needs_pin,
            error: self.error@,
            devices: match self.devices {
                Some(d) => Some(d@.map_values(|x: DeviceInfo| x@)),
                None => None,
            },
            streams: match self.streams {
                Some(s) => Some(s@.map_values(|x: StreamInfo| x@)),
                None => None,
            },
        }
    }
}

/// An answer that says whether the command was carried out, the state, and an error.
pub open spec fn answer(ok: bool, state: Seq<char>, error: Seq<char>) -> ResponseView {
    ResponseView {
        ok,
        state,
        device: Seq::empty(),
        device_ip: Seq::empty(),
        has_audio: false,
        audio_muted: false,
        needs_pin: false,
        error,
        devices: None,
        streams: None,
    }
}

impl Default for Response {
    fn default() -> (r: Response)
        ensures
            r@ == answer(false, Seq::empty(), Seq::empty()),
    {
        Response {
            ok: false,
            state: String::new(),
            device: String::new(),
            device_ip: String::new(),
            has_audio: false,
            audio_muted: false,
            needs_pin: false,
            error: String::new(),
            devices: None,
            streams: None,
        }
    }
}

/// An answer that says whether the command was carried out, the state, and an error.
pub(crate) fn make_answer(ok: bool, state: &str, error: &str) -> (r: Response)
    ensures
        r@ == answer(ok, state@, error@),
{
    let mut r = Response::default();
    r.ok = ok;
    r.state = state.to_owned();
    r.error = error.to_owned();
    r
}

} // verus!
