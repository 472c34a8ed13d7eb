use airfry::json::{parse_json, pretty_json, Json, Member};
use airfry::underscan::{
    load_underscan_json, load_underscan_text, save_underscan_json, save_underscan_text,
};
use serde_json::Value;

const SETTINGS: &str = r#"{
  "version": 3,
  "ratio": 0.30000000000000004,
  "far": -1.7976931348623157e308,
  "low": -9223372036854775808,
  "underscan_pct": 4,
  "name": "Küche \"\\ \u0001",
  "devices": [
    {"ip": "10.0.0.1", "port": 7000, "underscan_pct": 8, "name": "TV", "extra": [1, {"x": null}]},
    {"ip": "10.0.0.2", "port": 7000},
    {"ip": "10.0.0.1", "port": 7000, "underscan_pct": 2},
    {"ip": "10.0.0.4", "port": 7000, "underscan_pct": 90},
    {"ip": "10.0.0.5", "port": -1, "underscan_pct": 5.0}
  ]
}"#;

#[test]
fn a_receiver_has_its_own_percentage() {
    assert_eq!(load_underscan_text(SETTINGS, "10.0.0.1:7000"), 8);
    assert_eq!(load_underscan_text(SETTINGS, "10.0.0.2:7000"), 0);
    assert_eq!(load_underscan_text(SETTINGS, "10.0.0.4:7000"), 15);
    assert_eq!(load_underscan_text(SETTINGS, "10.0.0.5:0"), 0);
    // No receiver, or one that is not listed: the percentage for all.
    assert_eq!(load_underscan_text(SETTINGS, ""), 4);
    assert_eq!(load_underscan_text(SETTINGS, "10.0.0.9:7000"), 4);
    assert_eq!(load_underscan_text(r#"{"underscan_pct": 200}"#, ""), 15);
}

#[test]
fn settings_that_hold_nothing_give_zero() {
    for text in ["", "{", "[1]", "7", "null", "{}", r#"{"underscan_pct": "4"}"#] {
        assert_eq!(load_underscan_text(text, "10.0.0.1:7000"), 0);
        assert_eq!(load_underscan_text(text, ""), 0);
    }
    assert_eq!(load_underscan_text(r#"{"underscan_pct": -4, "devices": {}}"#, ""), 0);
}

#[test]
fn a_save_changes_one_percentage() {
    for (addr, place) in [("10.0.0.1:7000", Some(0)), ("10.0.0.2:7000", Some(1)), ("", None)] {
        let saved = save_underscan_text(Some(SETTINGS), addr, 11).unwrap();
        let mut want: Value = serde_json::from_str(SETTINGS).unwrap();
        match place {
            Some(i) => want["devices"][i as usize]["underscan_pct"] = Value::from(11),
            None => want["underscan_pct"] = Value::from(11),
        }
        assert_eq!(saved, serde_json::to_string_pretty(&want).unwrap());
    }
}

#[test]
fn what_is_saved_is_loaded() {
    for addr in ["10.0.0.1:7000", "10.0.0.2:7000", "10.0.0.9:7000", ""] {
        let saved = save_underscan_text(Some(SETTINGS), addr, 13).unwrap();
        assert_eq!(load_underscan_text(&saved, addr), 13);
    }
    let other = save_underscan_text(Some(SETTINGS), "10.0.0.2:7000", 13).unwrap();
    assert_eq!(load_underscan_text(&other, "10.0.0.1:7000"), 8);
    assert_eq!(load_underscan_text(&other, ""), 4);
}

#[test]
fn a_save_starts_from_nothing_where_there_is_no_object() {
    let fresh = "{\n  \"underscan_pct\": 6\n}";
    for text in [None, Some(""), Some("[1, 2]"), Some("null"), Some("{}")] {
        assert_eq!(save_underscan_text(text, "10.0.0.1:7000", 6).as_deref(), Some(fresh));
    }
    let sorted = save_underscan_text(Some(r#"{"z":[],"a":{},"a":-7}"#), "", 0).unwrap();
    assert_eq!(sorted, "{\n  \"a\": -7,\n  \"underscan_pct\": 0,\n  \"z\": []\n}");
}

#[test]
fn an_entry_that_is_no_object() {
    // Nothing states an address either, so an entry without one stands at ":0".
    let null = r#"{"devices": [null, {"ip": "a"}]}"#;
    let saved = save_underscan_text(Some(null), ":0", 3).unwrap();
    let saved: Value = serde_json::from_str(&saved).unwrap();
    assert_eq!(saved["devices"][0]["underscan_pct"], Value::from(3));
    assert_eq!(saved["devices"][1]["ip"], Value::from("a"));
    assert!(save_underscan_text(Some(r#"{"devices": [7]}"#), ":0", 3).is_none());
    assert_eq!(load_underscan_text(r#"{"devices": [7], "underscan_pct": 5}"#, ":0"), 0);
}

#[test]
fn settings_are_built_and_read_as_values() {
    let entry = |ip: &str, pct: u64| {
        Json::Object(vec![
            Member { key: "ip".to_string(), value: Json::Text(ip.to_string()) },
            Member { key: "port".to_string(), value: Json::Unsigned(7000) },
            Member { key: "underscan_pct".to_string(), value: Json::Unsigned(pct) },
        ])
    };
    let settings = || {
        vec![Member {
            key: "devices".to_string(),
            value: Json::Array(vec![entry("10.0.0.1", 1), entry("10.0.0.2", 2)]),
        }]
    };
    assert_eq!(load_underscan_json(&Json::Object(settings()), "10.0.0.2:7000"), 2);
    let after = save_underscan_json(settings(), "10.0.0.2:7000", 9).unwrap();
    assert_eq!(load_underscan_json(&after, "10.0.0.2:7000"), 9);
    assert_eq!(load_underscan_json(&after, "10.0.0.1:7000"), 1);
}

#[test]
fn json_is_read_and_written() {
    let v = parse_json("[18446744073709551615, 18446744073709551616, -3, 1e2, false]").unwrap();
    assert_eq!(
        pretty_json(v),
        "[\n  18446744073709551615,\n  1.8446744073709552e+19,\n  -3,\n  100.0,\n  false\n]"
    );
    assert!(parse_json("[1,]").is_none());
    let nested = |n: usize| "[".repeat(n) + &"]".repeat(n);
    assert!(parse_json(&nested(127)).is_some());
    assert!(parse_json(&nested(128)).is_none());
}
