use airfry::daemon::{Config, Daemon, Effect, Handled};
use airfry::daemonclient::Client;
use airfry::discovery::AirPlayDevice;
use airfry::protocol::{to_device_info, Request, Response};

fn ask(cmd: &str, target: &str, pin: &str) -> Request {
    Request { cmd: cmd.to_string(), target: target.to_string(), port: 0, pin: pin.to_string() }
}

fn answer(d: &mut Daemon, req: Request) -> (Response, Effect) {
    match d.handle_request(req) {
        Handled::Answer { response, effect } => (response, effect),
        Handled::Mute { .. } => panic!("the answer is known at once"),
    }
}

fn device(ip: &str, port: u16) -> AirPlayDevice {
    AirPlayDevice {
        name: "Living Room".to_string(),
        model: "AppleTV6,2".to_string(),
        ip: ip.to_string(),
        port,
        device_id: "AA:BB:CC:DD:EE:FF".to_string(),
        ..AirPlayDevice::default()
    }
}

#[test]
fn client_builds_go_compatible_requests() {
    let client = Client::new(b"/tmp/airfry.sock");
    // status / discover / devices: bare `cmd`.
    for (req, cmd) in [
        (client.status(), "status"),
        (client.discover(), "discover"),
        (client.devices(), "devices"),
        (client.disconnect(), "disconnect"),
        (client.mute(), "mute"),
        (client.unmute(), "unmute"),
    ] {
        assert_eq!(req.cmd, cmd);
        assert!(req.target.is_empty());
    }

    // connect(target, 0, pin): port omitted at 0.
    let v = client.connect("192.168.1.50", 0, "1234");
    assert_eq!(v.cmd, "connect");
    assert_eq!(v.target, "192.168.1.50");
    assert_eq!(v.pin, "1234");
    assert_eq!(v.port, 0);

    // *_target variants carry `target`.
    let v = client.mute_target("10.0.0.9");
    assert_eq!(v.cmd, "mute");
    assert_eq!(v.target, "10.0.0.9");
    assert_eq!(client.unmute_target("10.0.0.9").cmd, "unmute");
    assert_eq!(client.disconnect_target("10.0.0.9").target, "10.0.0.9");
    assert_eq!(client.pin("0000").pin, "0000");
    assert_eq!(Client::new_default(None).socket_path, b"/tmp/airfry.sock".to_vec());
}

#[test]
fn shared_capture_create_on_first_stop_on_last() {
    let mut daemon = Daemon::new();
    let register = |d: &mut Daemon, ip: &str| {
        answer(d, ask("connect", ip, ""));
        d.established(ip, "", "", false);
    };

    register(&mut daemon, "10.0.0.1");
    // First stream started the one shared capture.
    assert!(daemon.capture_started());
    assert!(daemon.is_capturing());

    // Second stream reuses the SAME capture.
    register(&mut daemon, "10.0.0.2");
    assert!(!daemon.capture_started());
    assert!(daemon.is_capturing());

    // Remove the first stream: capture stays up (one stream remains).
    let (_, stop) = daemon.remove_stream("10.0.0.1");
    assert!(!stop);
    assert!(daemon.is_capturing(), "capture stays up while a stream remains");

    // Remove the LAST stream: capture is stopped and cleared.
    let (_, stop) = daemon.remove_stream("10.0.0.2");
    assert!(stop);
    assert!(!daemon.is_capturing(), "capture cleared after the last stream ends");

    // A later connect can start a fresh capture again.
    register(&mut daemon, "10.0.0.3");
    assert!(daemon.capture_started());
    assert!(daemon.is_capturing());
    daemon.remove_stream("10.0.0.3");
    assert!(!daemon.is_capturing());
}

#[test]
fn an_idle_daemon_says_so() {
    let mut d = Daemon::new();
    let (r, effect) = answer(&mut d, ask("status", "", ""));
    assert!(r.ok);
    assert_eq!(r.state, "idle");
    assert!(r.streams.unwrap().is_empty());
    assert!(matches!(effect, Effect::Nothing));
    let (r, _) = answer(&mut d, ask("devices", "", ""));
    assert!(r.ok);
    assert!(r.devices.unwrap().is_empty());
    let (r, _) = answer(&mut d, ask("disconnect", "203.0.113.1", ""));
    assert!(!r.ok);
    assert!(r.error.contains("no active stream"));
    let (r, _) = answer(&mut d, ask("dance", "", ""));
    assert_eq!(r.error, "unknown command: dance");
    let (r, _) = answer(&mut d, ask("pin", "", "1"));
    assert_eq!(r.error, "no device is waiting for a PIN");
    let (r, _) = answer(&mut d, ask("connect", "", ""));
    assert_eq!(r.error, "no available devices found");
}

#[test]
fn a_second_stream_to_a_target_is_refused() {
    let mut d = Daemon::new();
    let (r, effect) = answer(&mut d, ask("connect", "10.0.0.1", "1234"));
    assert!(r.ok);
    assert_eq!(r.state, "connecting");
    assert_eq!(r.device, "10.0.0.1");
    match effect {
        Effect::Start { target, port, pin } => {
            assert_eq!(target, "10.0.0.1");
            assert_eq!(port, 7000);
            assert_eq!(pin, "1234");
        }
        _ => panic!("a stream is to be started"),
    }
    let (r, effect) = answer(&mut d, ask("connect", "10.0.0.1", ""));
    assert!(!r.ok);
    assert_eq!(r.error, "already connected or connecting to 10.0.0.1");
    assert!(matches!(effect, Effect::Nothing));
    assert!(d.is_wanted("10.0.0.1"));
    assert!(!d.is_wanted("10.0.0.2"));
}

#[test]
fn a_code_reaches_the_parked_stream_once() {
    let mut d = Daemon::new();
    answer(&mut d, ask("connect", "10.0.0.1", ""));
    d.park("10.0.0.1", 7000);
    assert_eq!(d.overall_state(), "pin_required");
    let (r, _) = answer(&mut d, ask("pin", "", ""));
    assert_eq!(r.error, "pin required");
    let (r, effect) = answer(&mut d, ask("pin", "", "4321"));
    assert!(r.ok);
    match effect {
        Effect::Deliver { target, pin } => {
            assert_eq!(target, "10.0.0.1");
            assert_eq!(pin, "4321");
        }
        _ => panic!("the code is to be delivered"),
    }
    let (r, _) = answer(&mut d, ask("pin", "", "4321"));
    assert!(!r.ok);
    assert_eq!(d.overall_state(), "connecting");
}

#[test]
fn streams_are_muted_where_there_is_sound() {
    let mut d = Daemon::new();
    answer(&mut d, ask("connect", "10.0.0.1", ""));
    let (wanted, _) = d.established("10.0.0.1", "Living Room", "AA", true);
    assert!(wanted);
    match d.handle_request(ask("mute", "", "")) {
        Handled::Mute { targets, muted } => {
            assert!(muted);
            assert_eq!(targets, vec!["10.0.0.1".to_string()]);
            let r = d.mute_done(&targets, muted, None);
            assert!(r.ok);
            assert!(r.audio_muted);
            assert_eq!(r.device, "Living Room");
        }
        Handled::Answer { .. } => panic!("the sound is there"),
    }
    let r = d.status_response(true, "");
    assert_eq!(r.state, "streaming");
    assert!(r.streams.unwrap()[0].audio_muted);
}

#[test]
fn everything_stops_at_once() {
    let mut d = Daemon::new();
    for ip in ["10.0.0.2", "10.0.0.1"] {
        answer(&mut d, ask("connect", ip, ""));
        d.established(ip, "", "", false);
    }
    d.capture_started();
    let (r, effect) = answer(&mut d, ask("disconnect", "", ""));
    assert!(r.ok);
    assert_eq!(r.state, "idle");
    match effect {
        Effect::Stop { targets, capture } => {
            assert_eq!(targets.len(), 2);
            assert!(capture);
        }
        _ => panic!("both streams are to be stopped"),
    }
    assert_eq!(d.stop_all().0.len(), 0);
}

#[test]
fn receivers_that_are_not_seen_are_forgotten() {
    let mut d = Daemon::new();
    d.background_discover(vec![device("10.0.0.2", 7100), device("10.0.0.1", 7000)], 1000);
    let (r, _) = answer(&mut d, ask("discover", "", ""));
    let found = r.devices.unwrap();
    assert_eq!(found.len(), 2);
    d.background_discover(vec![device("10.0.0.1", 7000)], 20_000);
    let (r, _) = answer(&mut d, ask("devices", "", ""));
    assert_eq!(r.devices.unwrap().len(), 2);
    d.background_discover(vec![device("10.0.0.1", 7000)], 40_000);
    let (r, _) = answer(&mut d, ask("devices", "", ""));
    assert_eq!(r.devices.unwrap().len(), 1);
    // A free receiver is picked, with its own port.
    let (r, effect) = answer(&mut d, ask("connect", "", ""));
    assert!(r.ok);
    assert!(matches!(effect, Effect::Start { target, port: 7000, .. } if target == "10.0.0.1"));
}

#[test]
fn a_receiver_is_described() {
    let info = to_device_info(&device("10.0.0.2", 7100));
    assert_eq!(info.name, "Living Room");
    assert_eq!(info.ip, "10.0.0.2");
    assert_eq!(info.port, 7100);
    assert_eq!(info.device_id, "AA:BB:CC:DD:EE:FF");
    let c = Config::standard(Some(b"/run/user/1000"));
    assert_eq!(c.socket_path, b"/run/user/1000/airfry.sock".to_vec());
    assert_eq!(c.mirror_opts().fps, c.fps);
}
