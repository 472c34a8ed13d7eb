//! What the daemon's commands do.
use crate::daemon::{
    connect_taken, connecting, disconnect_taken, first_free, muted_streams, names, overall, parked,
    pin_taken, port_for, request_taken, scanned, stream_established, without, ActiveStreamView,
    DaemonView, Effect, Handled, SeenDeviceView, StreamState,
};
use crate::protocol::{RequestView, ResponseView};
use crate::sorted::before;
use vstd::prelude::*;

verus! {

/// The daemon waits for a code before anything else; else it streams as soon as one stream does, is
/// connecting while one is, and is idle without any.
pub proof fn law_overall(v: DaemonView, ip: Seq<char>)
    ensures
        v.pending_target.len() > 0 ==> overall(v) == "pin_required"@,
        v.pending_target.len() == 0 && v.streams.contains_key(ip) && v.streams[ip].state
            == StreamState::Streaming ==> overall(v) == "streaming"@,
        v.pending_target.len() == 0 && v.streams.contains_key(ip) && v.streams[ip].state
            == StreamState::Connecting ==> overall(v) == "streaming"@ || overall(v) == "connecting"@,
        v.pending_target.len() == 0 && (forall|other: Seq<char>|
            v.streams.contains_key(other) ==> (#[trigger] v.streams[other]).state
                == StreamState::Connecting) && v.streams.contains_key(ip) ==> overall(v)
            == "connecting"@,
        v.pending_target.len() == 0 && v.streams == Map::<Seq<char>, ActiveStreamView>::empty()
            ==> overall(v) == "idle"@,
        StreamState::Streaming.label() == "streaming"@,
        StreamState::Connecting.label() == "connecting"@,
{
}

/// The port to connect to: the one that was asked for, the one that the receiver announced, or 7000.
pub proof fn law_port(v: DaemonView, target: Seq<char>, port: i32)
    ensures
        port != 0 ==> port_for(v, target, port) == port,
        port == 0 && v.devices.contains_key(target) && v.devices[target].device.port != 0
            ==> port_for(v, target, port) == v.devices[target].device.port,
        port == 0 && !v.devices.contains_key(target) ==> port_for(v, target, port) == 7000,
        port == 0 && v.devices.contains_key(target) && v.devices[target].device.port == 0
            ==> port_for(v, target, port) == 7000,
{
}

/// A command to connect to a receiver that has no stream starts one, which is connecting; one to a
/// receiver that has a stream is refused; without a receiver it is for the first free one.
pub proof fn law_connect(
    v: DaemonView,
    q: RequestView,
    after: DaemonView,
    response: ResponseView,
    effect: Effect,
)
    requires
        connect_taken(v, q, after, response, effect),
        v.pending_target.len() == 0 || q.pin.len() == 0,
    ensures
        q.target.len() > 0 && !v.streams.contains_key(q.target) ==> {
            &&& response.ok && response.device == q.target
            &&& effect matches Effect::Start { target, port, pin } && target@ == q.target && pin@
                == q.pin && port == port_for(v, q.target, q.port)
            &&& after.streams.contains_key(q.target) && after.streams[q.target].state
                == StreamState::Connecting && !after.streams[q.target].awaits_pin
                && after.streams[q.target].device_ip == q.target
            &&& forall|other: Seq<char>|
                other != q.target ==> (#[trigger] after.streams.contains_key(other)
                    == v.streams.contains_key(other)) && (v.streams.contains_key(other)
                    ==> after.streams[other] == v.streams[other])
            &&& after.devices == v.devices && after.capturing == v.capturing && after.pending_target
                == v.pending_target
        },
        q.target.len() > 0 && v.streams.contains_key(q.target) ==> after == v && !response.ok
            && effect is Nothing,
        q.target.len() == 0 ==> (effect matches Effect::Start { target, port, pin } ==> first_free(
            v,
            target@,
        ) && after.streams.contains_key(target@) && response.ok && pin@ == q.pin && port == port_for(
            v,
            target@,
            q.port,
        )),
        q.target.len() == 0 && !(exists|ip: Seq<char>| first_free(v, ip)) ==> after == v
            && !response.ok && effect is Nothing,
{
    if q.target.len() == 0 && (exists|ip: Seq<char>| first_free(v, ip)) {
        let ip = choose|ip: Seq<char>| #[trigger]
            first_free(v, ip) && crate::daemon::is_started(
                v,
                ip,
                q.port,
                q.pin,
                after,
                response,
                effect,
            );
        assert(first_free(v, ip));
    }
}

/// A code goes to the receiver that waits for it, and to no other; nobody waits then.
pub proof fn law_code(
    v: DaemonView,
    q: RequestView,
    after: DaemonView,
    response: ResponseView,
    effect: Effect,
)
    requires
        pin_taken(v, q, after, response, effect),
    ensures
        v.pending_target.len() == 0 || q.pin.len() == 0 ==> after == v && !response.ok
            && effect is Nothing,
        v.pending_target.len() > 0 && q.pin.len() > 0 && v.streams.contains_key(v.pending_target)
            && v.streams[v.pending_target].awaits_pin ==> {
            &&& response.ok && response.device == v.pending_target
            &&& effect matches Effect::Deliver { target, pin } && target@ == v.pending_target && pin@
                == q.pin
            &&& after.pending_target.len() == 0 && after.pending_port == 0
            &&& !after.streams[v.pending_target].awaits_pin
            &&& forall|other: Seq<char>|
                other != v.pending_target ==> (#[trigger] after.streams.contains_key(other)
                    == v.streams.contains_key(other)) && (v.streams.contains_key(other)
                    ==> after.streams[other] == v.streams[other])
        },
{
}

/// A command to disconnect stops the stream that it names, or all of them, and the capture with the
/// last; one that names no stream is refused.
pub proof fn law_disconnect(
    v: DaemonView,
    q: RequestView,
    after: DaemonView,
    response: ResponseView,
    effect: Effect,
)
    requires
        disconnect_taken(v, q, after, response, effect),
    ensures
        q.target.len() == 0 ==> {
            &&& response.ok && response.state == "idle"@
            &&& after.streams == Map::<Seq<char>, ActiveStreamView>::empty() && !after.capturing
                && after.pending_target.len() == 0 && after.devices == v.devices
            &&& effect matches Effect::Stop { targets, capture } && capture == v.capturing && (
            forall|ip: Seq<char>| #[trigger]
                v.streams.contains_key(ip) ==> names(targets@).contains(ip))
        },
        q.target.len() > 0 && v.streams.contains_key(q.target) ==> {
            &&& response.ok
            &&& !after.streams.contains_key(q.target)
            &&& forall|other: Seq<char>|
                other != q.target && v.streams.contains_key(other)
                    ==> #[trigger] after.streams.contains_key(other) && after.streams[other]
                    == v.streams[other]
            &&& effect matches Effect::Stop { targets, capture } && names(targets@) == seq![q.target]
                && capture == (v.capturing && v.streams.remove(q.target) == Map::<
                Seq<char>,
                ActiveStreamView,
            >::empty())
            &&& v.pending_target == q.target ==> after.pending_target.len() == 0
            &&& v.pending_target != q.target ==> after.pending_target == v.pending_target
        },
        q.target.len() > 0 && !v.streams.contains_key(q.target) ==> after == v && !response.ok
            && effect is Nothing,
{
}

/// Muting changes the sound of the streams that it is for, and nothing else.
pub proof fn law_mute(
    streams: Map<Seq<char>, ActiveStreamView>,
    targets: Seq<Seq<char>>,
    muted: bool,
    ip: Seq<char>,
)
    ensures
        muted_streams(streams, targets, muted).contains_key(ip) == streams.contains_key(ip),
        streams.contains_key(ip) && targets.contains(ip) ==> muted_streams(
            streams,
            targets,
            muted,
        )[ip] == (ActiveStreamView { audio_muted: muted, ..streams[ip] }),
        streams.contains_key(ip) && !targets.contains(ip) ==> muted_streams(
            streams,
            targets,
            muted,
        )[ip] == streams[ip],
{
}

/// Which stream a command to mute or unmute is for: the one that it names, or every one that is
/// streaming.
pub proof fn law_who_is_muted(
    v: DaemonView,
    q: RequestView,
    after: DaemonView,
    r: Handled,
    ip: Seq<char>,
)
    requires
        request_taken(v, q, after, r),
        q.cmd == "mute"@ || q.cmd == "unmute"@,
    ensures
        after == v,
        r matches Handled::Mute { targets, muted } ==> {
            &&& muted == (q.cmd == "mute"@)
            &&& q.target.len() > 0 ==> names(targets@) == seq![q.target] && v.streams.contains_key(
                q.target,
            )
            &&& q.target.len() == 0 && v.streams.contains_key(ip) ==> (names(targets@).contains(ip)
                <==> v.streams[ip].state == StreamState::Streaming)
        },
        r matches Handled::Answer { response, effect } ==> !response@.ok && effect is Nothing,
{
}

/// A report has every stream, and the first one that is running stands in it once more.
pub proof fn law_status(v: DaemonView, q: RequestView, after: DaemonView, r: Handled)
    requires
        request_taken(v, q, after, r),
        q.cmd == "status"@,
    ensures
        after == v,
        r matches Handled::Answer { response, effect } && effect is Nothing && response@.ok
            && response@.state == overall(v) && response@.needs_pin == (v.pending_target.len() > 0) && (
        response@.streams matches Some(list) && (forall|i: int|
            0 <= i < list.len() ==> ({
                let s = #[trigger] list[i];
                &&& v.streams.contains_key(s.device_ip)
                &&& s.device == v.streams[s.device_ip].device && s.has_audio
                    == v.streams[s.device_ip].has_audio && s.audio_muted
                    == v.streams[s.device_ip].audio_muted && s.state
                    == v.streams[s.device_ip].state.label()
            }))),
{
    reveal_strlit("status");
    reveal_strlit("mute");
    reveal_strlit("unmute");
    reveal_strlit("connect");
    reveal_strlit("pin");
    reveal_strlit("disconnect");
    assert("status"@.len() == 6 && "mute"@.len() == 4 && "unmute"@.len() == 6 && "connect"@.len()
        == 7 && "pin"@.len() == 3 && "disconnect"@.len() == 10);
    assert("status"@[0] == 's' && "unmute"@[0] == 'u');
}

/// A receiver that no scan found stays known for 30 seconds since it was last seen.
pub proof fn law_receivers_expire(
    devices: Map<Seq<char>, SeenDeviceView>,
    now: u64,
    ip: Seq<char>,
)
    requires
        devices.contains_key(ip),
        devices[ip].seen <= now,
    ensures
        now <= devices[ip].seen + 30_000 ==> scanned(devices, Seq::empty(), now).contains_key(ip)
            && scanned(devices, Seq::empty(), now)[ip] == devices[ip],
        now > devices[ip].seen + 30_000 ==> !scanned(devices, Seq::empty(), now).contains_key(ip),
{
}

/// A stream that was set up runs under the name of its receiver, which no longer waits for a code; the
/// other streams stay. One that was ended meanwhile does not come back, and with the last one the
/// capture ends.
pub proof fn law_established(
    v: DaemonView,
    target: Seq<char>,
    name: Seq<char>,
    id: Seq<char>,
    has_audio: bool,
    other: Seq<char>,
)
    ensures
        ({
            let (after, (kept, stopped)) = stream_established(v, target, name, id, has_audio);
            let s = after.streams[target];
            &&& kept == v.streams.contains_key(target)
            &&& after.devices == v.devices
            &&& other != target ==> after.streams.contains_key(other) == v.streams.contains_key(
                other,
            ) && (v.streams.contains_key(other) ==> after.streams[other] == v.streams[other])
            &&& kept ==> after.streams.contains_key(target) && s.state == StreamState::Streaming
                && s.has_audio == has_audio && s.device_id == id && s.device_ip
                == v.streams[target].device_ip && s.audio_muted == v.streams[target].audio_muted
                && !s.awaits_pin && s.has_sink && s.device == (if name.len() > 0 {
                name
            } else {
                target
            })
            &&& !kept ==> after.streams == v.streams
            &&& stopped <==> v.capturing && v.streams == Map::<
                Seq<char>,
                ActiveStreamView,
            >::empty()
            &&& after.capturing == (v.capturing && !stopped)
            &&& target.len() > 0 ==> after.pending_target != target
            &&& v.pending_target != target ==> after.pending_target == v.pending_target
                && after.pending_port == v.pending_port
        }),
{
    if v.streams.contains_key(target) {
        assert(v.streams != Map::<Seq<char>, ActiveStreamView>::empty());
    }
}

/// A receiver that asks for a code is the one that the next code is for, with its port; its stream
/// waits, and nothing else changes.
pub proof fn law_waits_for_code(v: DaemonView, target: Seq<char>, port: i32, ip: Seq<char>)
    ensures
        ({
            let after = parked(v, target, port);
            &&& after.pending_target == target && after.pending_port == port
            &&& after.devices == v.devices && after.capturing == v.capturing
            &&& after.streams.contains_key(ip) == v.streams.contains_key(ip)
            &&& v.streams.contains_key(ip) ==> after.streams[ip] == (if ip == target {
                ActiveStreamView { awaits_pin: true, ..v.streams[ip] }
            } else {
                v.streams[ip]
            })
        }),
{
}

} // verus!
