use airfry::cli::{
    control_request, device_line, parse_command, parse_mirror_flags, parse_target,
    split_control_args, Command, ControlError,
};
use airfry::daemonclient::Client;
use airfry::discovery::{
    add_device, parse_features, parse_resolved, unescape_dns_name, AirPlayDevice, Announcement,
};
use airfry::tray::{clamp_pct, menu_of, split_target, TrayState};
use airfry::underscan::{device_matches, save_place, UnderscanEntry};

fn words(s: &[&str]) -> Vec<String> {
    s.iter().map(|w| w.to_string()).collect()
}

#[test]
fn commands_have_names() {
    assert_eq!(parse_command(Some("discover")), Command::Discover);
    assert_eq!(parse_command(Some("pair")), Command::Pair);
    assert_eq!(parse_command(Some("mirror")), Command::Mirror);
    assert_eq!(parse_command(Some("sing")), Command::Help);
    assert_eq!(parse_command(None), Command::Help);
}

#[test]
fn a_target_may_name_its_port() {
    assert_eq!(parse_target("tv.local:7100"), Some(("tv.local".to_string(), 7100)));
    assert_eq!(parse_target("tv.local"), Some(("tv.local".to_string(), 7000)));
    assert_eq!(parse_target("tv.local:door"), None);
}

#[test]
fn flags_of_the_mirror_command() {
    let (opts, pin) =
        parse_mirror_flags(&words(&["--fps", "24", "--sw", "--pin", "1234"])).ok().unwrap();
    assert_eq!(opts.fps, 24);
    assert!(opts.force_software_encoder);
    assert!(!opts.no_encrypt);
    assert_eq!(pin, "1234");
    // What is no number counts as none; a flag that is not known is named by its place.
    let (opts, pin) = parse_mirror_flags(&words(&["--fit", "x", "--fps", "y"])).ok().unwrap();
    assert_eq!((opts.fit_pct, opts.fps), (0, 30));
    assert!(pin.is_empty());
    assert_eq!(parse_mirror_flags(&words(&["--sw", "--loud"])).err(), Some(1));
}

#[test]
fn control_words_become_requests() {
    let client = Client::new(b"/tmp/s");
    let r = control_request(&client, &words(&["connect", "10.0.0.1"])).ok().unwrap();
    assert_eq!(r.cmd, "connect");
    assert_eq!(r.target, "10.0.0.1");
    assert_eq!(control_request(&client, &words(&["pin"])).err(), Some(ControlError::NoPin));
    assert_eq!(control_request(&client, &[]).err(), Some(ControlError::NoCommand));
    assert_eq!(
        control_request(&client, &words(&["hop"])).err(),
        Some(ControlError::UnknownCommand)
    );
    let (socket, rest) = split_control_args(&words(&["--socket", "/x", "status"])).ok().unwrap();
    assert_eq!(socket.as_deref(), Some("/x"));
    assert_eq!(rest, words(&["status"]));
    assert_eq!(
        split_control_args(&words(&["--socket"])).err(),
        Some(ControlError::NoSocketPath)
    );
}

#[test]
fn features_are_two_words() {
    assert_eq!(parse_features("0x5A7FFFF7,0x1E"), 0x1E_5A7F_FFF7);
    assert_eq!(parse_features("0x100"), 0x100);
    assert_eq!(parse_features("what"), 0);
}

#[test]
fn names_are_unescaped() {
    assert_eq!(unescape_dns_name("Living\\032Room"), "Living Room");
    assert_eq!(unescape_dns_name("a\\.b"), "a.b");
    assert_eq!(unescape_dns_name("K\\195\\188che"), "Küche");
    // Bytes that are no text are replaced.
    assert_eq!(unescape_dns_name("x\\255"), "x\u{fffd}");
}

fn announced() -> AirPlayDevice {
    parse_resolved(
        &Announcement {
            fullname: "Living\\032Room._airplay._tcp.local.".to_string(),
            model: Some("AppleTV6,2".to_string()),
            device_id: Some("AA:BB".to_string()),
            pk: Some("00ff".to_string()),
            features: Some("0x80100,0x2".to_string()),
            flags: Some("0x44".to_string()),
        },
        "10.0.0.1",
        7000,
    )
}

#[test]
fn an_announcement_is_a_receiver() {
    let d = announced();
    assert_eq!(d.name, "Living Room");
    assert_eq!(d.model, "AppleTV6,2");
    assert_eq!(d.device_id, "AA:BB");
    assert_eq!(d.flags, 0x44);
    assert!(d.supports_screen());
    assert!(d.supports_transient_pairing());
    assert!(!d.supports_fairplay_sap());
    let mut list = Vec::new();
    add_device(&mut list, announced());
    add_device(&mut list, announced());
    assert_eq!(list.len(), 1);
    assert!(device_line(&d).contains("Living Room"));
}

#[test]
fn the_menu_is_sorted_without_case() {
    let named = |name: &str, ip: &str| AirPlayDevice {
        name: name.to_string(),
        ip: ip.to_string(),
        port: 7000,
        features: 0x100,
        ..AirPlayDevice::default()
    };
    let rows = menu_of(&[named("bravo", "2"), named("Alpha", "1"), named("ÄPFEL", "3")]);
    let names: Vec<&str> = rows.iter().map(|r| r.name.as_str()).collect();
    assert_eq!(names, vec!["Alpha", "bravo", "ÄPFEL"]);
    assert_eq!(rows[2].order, "äpfel");
    assert_eq!(rows[0].addr, "1:7000");
}

#[test]
fn the_tray_shows_one_mirror_at_a_time() {
    assert_eq!(split_target("tv:7100"), ("tv".to_string(), 7100));
    assert_eq!(split_target("tv"), ("tv".to_string(), 7000));
    assert_eq!(clamp_pct(-1), 0);
    assert_eq!(clamp_pct(99), 15);
    assert_eq!(airfry::tray::load_underscan("nothing"), 0);
    let mut t = TrayState::new(3);
    assert!(t.begin_scan());
    assert!(!t.begin_scan());
    t.end_scan(2);
    assert!(t.begin_scan());
    let first = t.choose_next();
    let second = t.choose_next();
    assert!(!t.is_current(first));
    assert!(t.is_current(second));
    assert!(!t.begin_mirror(first));
    assert!(!t.waits(0));
    assert!(t.begin_mirror(second));
    assert!(t.waits(0) && t.waits(399) && !t.waits(400));
    assert!(t.active);
    t.end_mirror();
    assert!(!t.active);
    t.set_underscan(40);
    assert_eq!(t.underscan, 15);
}

#[test]
fn what_the_sliders_keep_is_read_again() {
    let entry = |ip: &str, port: u64, pct: Option<u64>| UnderscanEntry {
        ip: ip.to_string(),
        port,
        pct,
    };
    let mut entries = vec![entry("10.0.0.1", 7000, Some(4)), entry("10.0.0.2", 7000, None)];
    assert!(device_matches(&entries[0], "10.0.0.1:7000"));
    assert!(!device_matches(&entries[0], "10.0.0.1:7001"));
    assert_eq!(airfry::underscan::load_underscan(&entries, Some(9), "10.0.0.1:7000"), 4);
    let place = save_place(&entries, "10.0.0.2:7000").unwrap();
    entries[place].pct = Some(11);
    assert_eq!(airfry::underscan::load_underscan(&entries, Some(9), "10.0.0.2:7000"), 11);
    assert_eq!(save_place(&entries, "10.0.0.9:7000"), None);
    assert_eq!(airfry::underscan::load_underscan(&entries, Some(9), "10.0.0.9:7000"), 9);
}
