use airfry::fairplay::handshake::{
    fair_play_fallback, FairPlayHandshake, HandshakeError, HandshakeStep,
};
use airfry::fairplay::{
    build_ekey, ekey_from, fair_play_m3, fply_unwrap, fply_wrap, FairPlayError, FAIRPLAY_M1,
};
use airfry::fpemu::loader::ExchangeError;
use airfry::playfair::tables::PlayfairTables;

fn no_tables() -> PlayfairTables {
    PlayfairTables {
        s1: Vec::new(),
        s2: Vec::new(),
        s3: Vec::new(),
        s4: Vec::new(),
        s5: Vec::new(),
        s6: Vec::new(),
        s7: Vec::new(),
        s8: Vec::new(),
        s9: Vec::new(),
        s10: Vec::new(),
        message_key: Vec::new(),
        message_iv: Vec::new(),
        z_key: Vec::new(),
        x_key: Vec::new(),
        t_key: Vec::new(),
        default_sap: Vec::new(),
        static_source1: Vec::new(),
        static_source2: Vec::new(),
        index_mangle: Vec::new(),
        initial_session_key: Vec::new(),
        md5_shift: Vec::new(),
    }
}

#[test]
fn m1_layout() {
    assert_eq!(FAIRPLAY_M1.len(), 16);
    assert_eq!(&FAIRPLAY_M1[..4], b"FPLY");
    assert_eq!(
        FAIRPLAY_M1.to_vec(),
        vec![
            0x46, 0x50, 0x4c, 0x59, 0x03, 0x01, 0x01, 0x00, 0x00, 0x00, 0x00, 0x04, 0x02, 0x00,
            0x03, 0xbb
        ]
    );
}

#[test]
fn ekey_layout() {
    let ekey = build_ekey();
    assert_eq!(ekey.len(), 72);
    assert_eq!(&ekey[0..4], b"FPLY");
    assert_eq!(&ekey[4..8], &[0x01, 0x02, 0x01, 0x00]);
    assert_eq!(&ekey[8..12], &[0x00, 0x00, 0x00, 0x3c]);
    assert_eq!(&ekey[12..16], &[0x00, 0x00, 0x00, 0x00]);
    // Padding region [32:56] is all zeros.
    assert!(ekey[32..56].iter().all(|&b| b == 0));
    // Two random chunks are (almost surely) not all-zero.
    assert!(ekey[16..32].iter().any(|&b| b != 0));
    assert!(ekey[56..72].iter().any(|&b| b != 0));
}

#[test]
fn fply_wrap_roundtrip() {
    let payload = vec![0xaa, 0xbb, 0xcc];
    let wrapped = fply_wrap(&payload, 0x03);
    assert_eq!(&wrapped[..4], b"FPLY");
    assert_eq!(&wrapped[4..8], &[0x03, 0x01, 0x03, 0x00]);
    assert_eq!(&wrapped[8..12], &[0x00, 0x00, 0x00, 0x03]);
    assert_eq!(&wrapped[12..], &payload[..]);
    // Already-wrapped data is returned unchanged.
    assert_eq!(fply_wrap(&wrapped, 0x03), wrapped);
}

#[test]
fn unwrapping_gives_the_payload_back() {
    let payload = vec![1u8, 2, 3, 4, 5];
    assert_eq!(fply_unwrap(&fply_wrap(&payload, 1)), payload);
    // What has no frame is left alone.
    assert_eq!(fply_unwrap(&payload), payload);
}

#[test]
fn ekey_places_its_chunks() {
    let ekey = ekey_from(&[0x11; 16], &[0x22; 16]);
    assert_eq!(&ekey[16..32], &[0x11; 16]);
    assert_eq!(&ekey[32..56], &[0; 24]);
    assert_eq!(&ekey[56..72], &[0x22; 16]);
}

#[test]
fn two_ekeys_differ() {
    assert_ne!(build_ekey()[16..32], build_ekey()[16..32]);
}

#[test]
fn a_short_m2_is_refused() {
    match fair_play_m3(&[], &[0u8; 5]) {
        Err(FairPlayError::ShortM2 { len }) => assert_eq!(len, 5),
        _ => panic!("a short m2 must be refused"),
    }
}

#[test]
fn an_empty_snapshot_is_malformed() {
    let m2 = fply_wrap(&[0u8; 130], 0x02);
    assert!(matches!(
        fair_play_m3(&[], &m2),
        Err(FairPlayError::Exchange(ExchangeError::MalformedSnapshot))
    ));
}

#[test]
fn the_handshake_posts_m1_first() {
    let (_, first) = FairPlayHandshake::begin();
    assert_eq!(first.method, "POST");
    assert_eq!(first.uri, "/fp-setup");
    assert_eq!(first.body, FAIRPLAY_M1.to_vec());
    assert!(first
        .headers
        .iter()
        .any(|h| h.name == "X-Apple-ET" && h.value == "32"));
}

#[test]
fn a_refused_handshake_falls_back_only_without_fairplay() {
    let tables = no_tables();
    let (mut handshake, _) = FairPlayHandshake::begin();
    let refused = handshake.reply(None, &[], &tables, [0; 16], [0; 72], &[]);
    let error = match refused {
        Err(e) => e,
        Ok(HandshakeStep::Post(_)) | Ok(HandshakeStep::Keys(_)) => panic!("no answer came"),
    };
    assert_eq!(error, HandshakeError::Refused);
    let keys = fair_play_fallback(error, false, [7; 16]).ok().unwrap();
    assert_eq!(keys.iv, [7; 16]);
    assert_eq!(keys.stream_key, [0; 16]);
    assert!(keys.ekey.is_empty());
    assert!(fair_play_fallback(error, true, [7; 16]).is_err());
}
