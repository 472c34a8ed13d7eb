use airfry::connect::{
    Connect, ConnectAction, ConnectError, ConnectEvent, ConnectOptions, ConnectPhase,
};
use airfry::credentials::SavedCredentials;
use airfry::fairplay::FairPlayKeys;
use airfry::info::ReceiverInfo;
use airfry::pairing::PairKeys;
use airfry::property_list::{marshal_plist, Builder, Plist};
use airfry::tlv8::{decode, encode, Item, TLV_FLAGS, TLV_PUBLIC_KEY, TLV_STATE};

fn info() -> Vec<u8> {
    let mut b = Builder::new();
    b.put("name", Plist::Text("TV".to_string()));
    b.put("features", Plist::Integer(0x80000));
    marshal_plist(&b.finish()).unwrap()
}

fn saved() -> SavedCredentials {
    let mut s = SavedCredentials::default();
    s.set_identity("SAVED-ID", &PairKeys::from_seed(&[6; 32]).ed25519_public, &[6; 32]);
    s
}

fn posted(a: ConnectAction) -> (String, Vec<u8>) {
    match a {
        ConnectAction::Request(q) => (q.uri, q.body),
        _ => panic!("a request is next"),
    }
}

#[test]
fn the_receiver_is_asked_for_its_info_first() {
    let mut c = Connect::begin("", &[9; 32], None, false, "FRESH");
    assert_eq!(c.pairing_id, "FRESH");
    let (uri, body) = posted(c.step(ConnectEvent::Connected).ok().unwrap());
    assert_eq!(uri, "/info");
    assert!(body.is_empty());
    c.step(ConnectEvent::Replied(info())).ok().unwrap();
    assert_eq!(c.info.name, "TV");
    // The announced key stands in for the one that the reply lacks.
    assert_eq!(c.info.pk, vec![9; 32]);
}

#[test]
fn saved_credentials_are_verified() {
    let s = saved();
    let mut c = Connect::begin("", &[], Some(&s), false, "FRESH");
    assert_eq!(c.pairing_id, "SAVED-ID");
    c.step(ConnectEvent::Connected).ok().unwrap();
    let (uri, body) = posted(c.step(ConnectEvent::Replied(info())).ok().unwrap());
    assert_eq!(uri, "/pair-verify");
    assert_eq!(decode(&body)[&TLV_STATE], vec![1]);
    // The receiver knows them no more: it is dialled anew, under the same identity.
    assert!(matches!(c.step(ConnectEvent::Failed), Ok(ConnectAction::Dial { .. })));
    assert!(matches!(c.phase, ConnectPhase::Redial));
    assert_eq!(c.pairing_id, "SAVED-ID");
}

#[test]
fn forced_pairing_leaves_saved_credentials_alone() {
    let s = saved();
    let mut c = Connect::begin("1234", &[], Some(&s), true, "FRESH");
    c.step(ConnectEvent::Connected).ok().unwrap();
    let (uri, _) = posted(c.step(ConnectEvent::Replied(info())).ok().unwrap());
    assert_ne!(uri, "/pair-verify");
}

#[test]
fn a_verified_receiver_is_encrypted_to() {
    let s = saved();
    let mut c = Connect::begin("", &[], Some(&s), false, "FRESH");
    c.step(ConnectEvent::Connected).ok().unwrap();
    c.step(ConnectEvent::Replied(info())).ok().unwrap();
    let server = x25519_dalek::PublicKey::from(&x25519_dalek::StaticSecret::from([0x51; 32]));
    let v2 = encode(&[
        Item::new(TLV_STATE, vec![2]),
        Item::new(TLV_PUBLIC_KEY, server.as_bytes().to_vec()),
    ]);
    posted(c.step(ConnectEvent::Replied(v2)).ok().unwrap());
    match c.step(ConnectEvent::Replied(encode(&[Item::new(TLV_STATE, vec![4])]))) {
        Ok(ConnectAction::Encrypt { write_key, read_key }) => {
            assert_eq!(write_key.len(), 32);
            assert_ne!(write_key, read_key);
        }
        _ => panic!("the channel is to be encrypted"),
    }
    assert!(matches!(c.step(ConnectEvent::Done), Ok(ConnectAction::Paired)));
    let fp = FairPlayKeys {
        stream_key: [1; 16],
        iv: [2; 16],
        ekey: vec![3; 72],
        aes_key: [4; 16],
        m3: Vec::new(),
    };
    let session = c.finish(fp, "SESSION").unwrap();
    assert_eq!(session.pairing_id, "SAVED-ID");
    assert_eq!(session.session_id, "SESSION");
    assert_eq!(session.stream_key, [1; 16]);
    assert_eq!(session.ekey, vec![3; 72]);
}

#[test]
fn a_pin_is_asked_for_when_nothing_else_works() {
    let mut c = Connect::begin("", &[], None, false, "FRESH");
    c.step(ConnectEvent::Connected).ok().unwrap();
    let mut action = c.step(ConnectEvent::Replied(info())).ok().unwrap();
    let mut steps = 0;
    while !matches!(action, ConnectAction::AskPin) {
        action = match action {
            ConnectAction::Dial { .. } => c.step(ConnectEvent::Connected).ok().unwrap(),
            ConnectAction::Request(q) if q.uri == "/info" => {
                c.step(ConnectEvent::Replied(info())).ok().unwrap()
            }
            ConnectAction::Request(q) if q.uri == "/pair-pin-start" => {
                c.step(ConnectEvent::Replied(Vec::new())).ok().unwrap()
            }
            ConnectAction::Request(_) => c.step(ConnectEvent::Failed).ok().unwrap(),
            _ => panic!("pairing goes on"),
        };
        steps += 1;
        assert!(steps < 20);
    }
    assert!(matches!(c.step(ConnectEvent::Code(None)), Err(ConnectError::NoCode)));
}

#[test]
fn a_receiver_out_of_reach_is_an_error() {
    let mut c = Connect::begin("", &[], None, false, "FRESH");
    assert!(matches!(c.step(ConnectEvent::Failed), Err(ConnectError::Unreachable)));
    let mut c = Connect::begin("", &[], None, false, "FRESH");
    assert!(matches!(c.step(ConnectEvent::Done), Err(ConnectError::Unexpected)));
    assert!(!ConnectOptions::default().force_pair);
}

#[test]
fn transient_pairing_comes_before_the_pin() {
    let mut c = Connect::begin("", &[], None, false, "FRESH");
    c.take_info(Some(ReceiverInfo::default()));
    let (uri, body) = posted(c.cascade_transient_then_pin(&[1; 32]));
    assert_eq!(uri, "/pair-setup");
    assert!(body.len() == 32 || decode(&body).contains_key(&TLV_FLAGS));
}
