use airfry::info::{info_from, parse_info, DisplayInfo, InfoError, ReceiverInfo};
use airfry::property_list::{marshal_plist, parse_plist, Builder, Plist};

#[test]
fn display_size_prefers_pixels() {
    let mut info = ReceiverInfo::default();
    info.displays.push(DisplayInfo {
        width: 1920,
        height: 1080,
        width_pixels: 3840,
        height_pixels: 2160,
    });
    assert_eq!(info.display_size(), (3840, 2160));
}

#[test]
fn display_size_falls_back_to_width_height() {
    let mut info = ReceiverInfo::default();
    info.displays.push(DisplayInfo {
        width: 1280,
        height: 720,
        width_pixels: 0,
        height_pixels: 0,
    });
    assert_eq!(info.display_size(), (1280, 720));
}

#[test]
fn display_size_zero_when_absent() {
    let info = ReceiverInfo::default();
    assert_eq!(info.display_size(), (0, 0));
}

fn receiver() -> Plist {
    let mut display = Builder::new();
    display.put("width", Plist::Integer(1920));
    display.put("height", Plist::Integer(1080));
    display.put("widthPixels", Plist::Integer(3840));
    display.put("heightPixels", Plist::Integer(2160));
    let mut b = Builder::new();
    b.put("name", Plist::Text("Living Room".to_string()));
    b.put("model", Plist::Text("AppleTV6,2".to_string()));
    b.put("sourceVersion", Plist::Text("550.10".to_string()));
    b.put("features", Plist::Integer(0x4000));
    b.put("statusFlags", Plist::Integer(0x44));
    b.put("pk", Plist::Data(vec![5; 32]));
    b.put("displays", Plist::Array(vec![display.finish()]));
    b.finish()
}

#[test]
fn info_is_read_from_its_dictionary() {
    let info = info_from(&receiver()).unwrap();
    assert_eq!(info.name, "Living Room");
    assert_eq!(info.model, "AppleTV6,2");
    assert_eq!(info.source_version, "550.10");
    assert_eq!(info.features, 0x4000);
    assert_eq!(info.status_flags, 0x44);
    assert_eq!(info.pk, vec![5; 32]);
    assert_eq!(info.display_size(), (3840, 2160));
    assert!(info.supports_fairplay_sap());
}

#[test]
fn info_survives_the_binary_form() {
    let body = marshal_plist(&receiver()).unwrap();
    assert_eq!(&body[..8], b"bplist00");
    let info = parse_info(&body).unwrap();
    assert_eq!(info.name, "Living Room");
    assert_eq!(info.pk, vec![5; 32]);
    assert_eq!(info.displays.len(), 1);
}

#[test]
fn what_is_no_dictionary_is_no_info() {
    assert_eq!(parse_info(b"nothing").err(), Some(InfoError::NotAPlist));
    let body = marshal_plist(&Plist::Array(Vec::new())).unwrap();
    assert_eq!(parse_info(&body).err(), Some(InfoError::NotADictionary));
}

#[test]
fn the_announced_key_fills_in_for_a_missing_one() {
    let mut info = ReceiverInfo::default();
    info.fill_pk(&[3; 32]);
    assert_eq!(info.pk, vec![3; 32]);
    info.fill_pk(&[4; 32]);
    assert_eq!(info.pk, vec![3; 32]);
}

#[test]
fn what_is_put_is_got() {
    let mut b = Builder::new();
    b.put("one", Plist::Integer(1));
    b.put("two", Plist::Unsigned(u64::MAX));
    b.put("one", Plist::Integer(-7));
    let body = marshal_plist(&b.finish()).unwrap();
    let back = parse_plist(&body).unwrap();
    assert_eq!(back.int_at("one"), Some(-7));
    assert_eq!(back.uint_at("two"), Some(u64::MAX));
    assert_eq!(back.int_at("three"), None);
    assert!(back.is_dictionary());
}
