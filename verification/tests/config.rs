use airfry::config::{address, Config, Device};

fn dev(host: &str, port: u16, underscan: u8) -> Device {
    Device { host: host.to_string(), port, underscan, ..Device::default() }
}

#[test]
fn per_device_underscan_lookup_and_set() {
    let mut cfg = Config {
        underscan: 3, // global default
        devices: vec![dev("10.0.0.1", 7000, 8), dev("10.0.0.2", 7000, 0)],
    };
    // Known device → its own value; unknown → global default.
    assert_eq!(cfg.underscan_for("10.0.0.1:7000"), 8);
    assert_eq!(cfg.underscan_for("10.0.0.2:7000"), 0);
    assert_eq!(cfg.underscan_for("10.0.0.9:7000"), 3);

    // Setting a known device updates only that device, not the global/others.
    cfg.set_underscan_for("10.0.0.2:7000", 12);
    assert_eq!(cfg.underscan_for("10.0.0.2:7000"), 12);
    assert_eq!(cfg.underscan_for("10.0.0.1:7000"), 8);
    assert_eq!(cfg.underscan, 3);

    // Clamp to 15.
    cfg.set_underscan_for("10.0.0.1:7000", 99);
    assert_eq!(cfg.underscan_for("10.0.0.1:7000"), 15);
}

#[test]
fn an_unknown_address_sets_the_default() {
    let mut cfg = Config { underscan: 3, devices: vec![dev("10.0.0.1", 7000, 8)] };
    cfg.set_underscan_for("10.0.0.9:7000", 40);
    assert_eq!(cfg.underscan, 15);
    assert_eq!(cfg.underscan_for("10.0.0.1:7000"), 8);
}

#[test]
fn what_was_saved_too_large_is_clamped() {
    let mut cfg = Config { underscan: 200, devices: vec![dev("h", 1, 16), dev("h", 2, 15)] };
    cfg.clamp_underscan();
    assert_eq!(cfg.underscan, 15);
    assert_eq!(cfg.devices[0].underscan, 15);
    assert_eq!(cfg.devices[1].underscan, 15);
}

#[test]
fn an_address_names_host_and_port() {
    assert_eq!(address("192.168.1.50", 7000), "192.168.1.50:7000");
    assert_eq!(dev("tv.local", 65535, 0).addr(), "tv.local:65535");
    assert_eq!(address("", 0), ":0");
}
