use airfry::latency::Duration;
use airfry::mirror::cipher::{
    choose_cipher, derive_chacha_key, derive_video_keys, MirrorCipher, VideoCipher,
};
use airfry::mirror::frames::{
    checked_mac,    data_heartbeat, format_lower_uuid, generate_uuid, ntp_boot_timestamp, ntp_time_with_bias,
    ntp_timing_reply, port_is_clear, ports_fit, uuid_to_mac, DataChannel, SizeBits,
};
use airfry::mirror::h264::{
    avcc_wrap, build_avcc_config, find_start_code, has_start_code, is_first_slice, nal_type,
    strip_start_code, H264Parser,
};
use airfry::mirror::session::{
    feedback_request, heartbeat_request, read_latency, teardown_request, volume_request,
    Heartbeat, MirrorSetup, SetupAction, SetupError, SetupEvent, SetupPhase,
};
use airfry::mirror::setup::{
    audio_setup, extract_audio_ports, extract_event_port, extract_video_data_port,
    select_audio_security_mode, stream_id, stream_uri, video_setup, SetupParams,
};
use airfry::mirror::sps::{sps_dimensions, strip_emulation_prevention, BitReader};
use airfry::mirror::stream::{CongestionLevel, FrameStream, StreamError};
use airfry::audio::stream::AudioSecurityMode;
use airfry::property_list::{marshal_plist, parse_plist, Builder, Plist};
use airfry::rtsp::message::Header;
use chacha20poly1305::aead::{Aead, KeyInit, Payload};

fn params() -> SetupParams {
    SetupParams {
        host: "192.168.1.50".to_string(),
        port: 7000,
        session_uuid: "b0b0b0b0-0000-4000-8000-000000000000".to_string(),
        client_device_id: "AA:BB:CC:DD:EE:FF".to_string(),
        stream_key: [1; 16],
        iv: [2; 16],
        ekey: vec![3; 72],
        shared_secret: vec![4; 32],
        encrypted: true,
        audio_key: [5; 32],
        timing_port: 6001,
        audio_control_port: 6002,
        no_encrypt: false,
        mute_audio: false,
    }
}

#[test]
fn video_keys_are_hashes() {
    let (key, iv) = derive_video_keys(&[9; 16], 1234);
    assert_eq!(
        key,
        [
            0xdd, 0x75, 0xd4, 0xf4, 0xdf, 0x70, 0xb4, 0xd1, 0x9e, 0x9d, 0xcc, 0x98, 0x1d, 0xe9,
            0xb1, 0x0b
        ]
    );
    assert_eq!(
        iv,
        [
            0xc6, 0x6e, 0x14, 0xbf, 0x6a, 0x7b, 0xb3, 0x7d, 0xeb, 0xdf, 0x2b, 0x4d, 0xda, 0x6f,
            0x02, 0xa4
        ]
    );
    let key = derive_chacha_key(&[7; 32], 1234);
    assert_eq!(&key[..4], &[0xdd, 0x25, 0x97, 0xad]);
    assert_eq!(&key[28..], &[0xc3, 0xfe, 0x76, 0xa5]);
}

#[test]
fn frames_are_enciphered_in_one_stream() {
    let mut sender = MirrorCipher::new(&[1; 16], &[2; 16]);
    let mut receiver = MirrorCipher::new(&[1; 16], &[2; 16]);
    for n in [5usize, 16, 33, 7, 64, 1] {
        let frame: Vec<u8> = (0..n as u8).collect();
        let sealed = sender.encrypt_frame(&frame);
        assert_ne!(sealed, frame);
        assert_eq!(receiver.encrypt_frame(&sealed), frame);
    }
    assert!(sender.has_room(1 << 20));
}

#[test]
fn the_session_chooses_the_cipher() {
    assert!(matches!(choose_cipher(true, true, &[1; 32], &[2; 16], 5), VideoCipher::Clear));
    assert!(matches!(choose_cipher(false, true, &[1; 32], &[2; 16], 5), VideoCipher::ChaCha { .. }));
    assert!(matches!(choose_cipher(false, false, &[1; 32], &[2; 16], 5), VideoCipher::AesCtr(_)));
}

#[test]
fn a_sealed_frame_opens_with_its_header() {
    let mut channel = DataChannel::new(VideoCipher::ChaCha { key: [8; 32], nonce: 0 }, 1920, 1080);
    let packet = channel.frame_packet(b"frame bytes", true, 0x1122334455667788).unwrap();
    assert_eq!(packet.len(), 128 + 11 + 16);
    assert_eq!(&packet[..4], &27u32.to_le_bytes());
    assert_eq!(&packet[8..16], &0x1122334455667788u64.to_le_bytes());
    let opened = chacha20poly1305::ChaCha20Poly1305::new((&[8u8; 32]).into())
        .decrypt((&[0u8; 12]).into(), Payload { msg: &packet[128..], aad: &packet[..128] })
        .unwrap();
    assert_eq!(opened, b"frame bytes");
}

#[test]
fn a_clear_channel_sends_frames_as_they_are() {
    let mut channel = DataChannel::new(VideoCipher::Clear, 1920, 1080);
    assert_eq!(channel.presentation_size(), (1920, 1080));
    let packet = channel.frame_packet(&[7; 9], false, 1).unwrap();
    assert_eq!(&packet[128..], &[7; 9]);
    assert_eq!(channel.frame_seq, 1);
    let bits = SizeBits {
        video_w: 1920f32.to_bits(),
        video_h: 1080f32.to_bits(),
        display_w: 1280f32.to_bits(),
        display_h: 720f32.to_bits(),
    };
    let packet = channel.codec_packet(&[1, 2, 3], 2, bits);
    assert_eq!(packet.len(), 131);
    assert_eq!(&packet[..4], &3u32.to_le_bytes());
    assert_eq!(&packet[128..], &[1, 2, 3]);
    assert!(packet[..128].windows(4).any(|w| w == 1280f32.to_le_bytes()));
}

#[test]
fn the_heartbeat_has_no_payload() {
    let beat = data_heartbeat();
    assert_eq!(beat.len(), 128);
    assert_eq!(&beat[..8], &[0, 0, 0, 0, 2, 0, 0x1e, 0]);
    assert!(beat[8..].iter().all(|&b| b == 0));
}

#[test]
fn stamps_are_fixed_point_seconds() {
    assert_eq!(
        ntp_time_with_bias(Duration::from_secs(3), Duration::from_millis(500)),
        (3u64 << 32) | 0x8000_0000
    );
    // Less than the least bias counts as the least bias.
    assert_eq!(
        ntp_time_with_bias(Duration::from_secs(1), Duration::from_millis(1)),
        ntp_time_with_bias(Duration::from_secs(1), Duration::from_millis(5))
    );
    assert_eq!(ntp_boot_timestamp(Duration::from_secs(2)), (2208988802u64) << 32);
}

#[test]
fn a_timing_request_is_answered_in_kind() {
    let mut request = vec![0u8; 32];
    request[0] = 0x80;
    request[1] = 0xd2;
    request[24..32].copy_from_slice(&[1, 2, 3, 4, 5, 6, 7, 8]);
    let reply = ntp_timing_reply(&request, 0x0a0b0c0d0e0f1011).unwrap();
    assert_eq!(reply.len(), 32);
    assert_eq!(reply[1], 0xd3);
    assert_eq!(&reply[8..16], &[1, 2, 3, 4, 5, 6, 7, 8]);
    assert_eq!(&reply[16..24], &[0x0a, 0x0b, 0x0c, 0x0d, 0x0e, 0x0f, 0x10, 0x11]);
    assert_eq!(&reply[24..32], &[0x0a, 0x0b, 0x0c, 0x0d, 0x0e, 0x0f, 0x10, 0x11]);
    assert!(ntp_timing_reply(&[0; 10], 1).is_none());
}

#[test]
fn identifiers_give_addresses() {
    assert_eq!(format_lower_uuid(&[0xab; 16]), "abababab-abab-4bab-abab-abababababab");
    assert_eq!(generate_uuid().len(), 36);
    let mac = uuid_to_mac("abababab-abab-4bab-abab-abababababab");
    assert_eq!(mac.len(), 17);
    assert_eq!(mac, mac.to_uppercase());
    assert_eq!(mac.matches(':').count(), 5);
}

#[test]
fn addresses_are_cut_by_bytes() {
    assert_eq!(uuid_to_mac("abcdef12-3456-789a"), "02:CD:EF:12:34:56");
    assert_eq!(uuid_to_mac("short"), "02:00:00:00:00:01");
    // Eleven characters, of which the first has two bytes.
    assert_eq!(checked_mac("\u{e9}0123456789").as_deref(), Some("02:01:23:45:67:89"));
    assert_eq!(checked_mac("ab\u{c9}\u{df}012345").as_deref(), Some("02:\u{c9}:SS:01:23:45"));
    // The Kelvin sign has three bytes, its lower case one.
    assert_eq!(checked_mac("\u{212a}bcdefghijkl").as_deref(), Some("02:CD:EF:GH:IJ:KL"));
    assert!(checked_mac("a\u{e9}0123456789").is_none());
    assert!(checked_mac("0123456789\u{20ac}").is_none());
    assert!(checked_mac("0123456789ab\u{20ac}").is_some());
}

#[test]
fn ports_stay_in_range() {
    assert!(ports_fit(65533, 3));
    assert!(!ports_fit(65534, 3));
    assert!(!ports_fit(0, 1));
    assert!(port_is_clear(5000, 0));
    assert!(!port_is_clear(7002, 7000));
    assert!(port_is_clear(7003, 7000));
}

#[test]
fn units_are_split_at_start_codes() {
    let stream = [0, 0, 0, 1, 0x67, 1, 0, 0, 1, 0x68, 2, 0, 0, 0, 1, 0x65, 3];
    assert_eq!(find_start_code(&stream, 0), Some(0));
    assert!(has_start_code(&stream));
    let mut parser = H264Parser::new();
    let mut units = parser.push(&stream[..6]);
    units.extend(parser.push(&stream[6..]));
    units.extend(parser.push(&[0, 0, 1, 0x41]));
    assert_eq!(units.len(), 3);
    assert_eq!(strip_start_code(&units[0]), vec![0x67, 1]);
    assert_eq!(strip_start_code(&units[1]), vec![0x68, 2]);
    assert_eq!(strip_start_code(&units[2]), vec![0x65, 3]);
    assert_eq!(nal_type(&units[2]), 5);
}

#[test]
fn every_unit_begins_with_a_long_start_code() {
    let mut parser = H264Parser::new();
    let units = parser.push(&[0, 0, 1, 0x67, 0xAA, 0, 0, 1, 0x68, 0xBB, 0, 0, 0, 1, 0x65]);
    assert_eq!(units, vec![vec![0, 0, 0, 1, 0x67, 0xAA], vec![0, 0, 0, 1, 0x68, 0xBB]]);
    // A start code that another follows at once delimits an empty unit.
    let mut parser = H264Parser::new();
    let units = parser.push(&[0, 0, 1, 0, 0, 1, 0x65, 0, 0, 0, 1, 0, 0, 1, 9]);
    assert_eq!(units, vec![vec![0, 0, 0, 1], vec![0, 0, 0, 1, 0x65], vec![0, 0, 0, 1]]);
    // Units behind their lengths get the same code.
    let mut parser = H264Parser::new();
    assert_eq!(parser.push(&[0, 0, 0, 2, 0x65, 7]), vec![vec![0, 0, 0, 1, 0x65, 7]]);
}

#[test]
fn where_a_stream_is_cut_does_not_matter() {
    let stream = [0, 0, 1, 0x67, 1, 0, 0, 0, 1, 0x68, 2, 0, 0, 1, 0x65, 3, 0, 0, 0, 1, 0x41, 4, 5];
    let whole = H264Parser::new().push(&stream);
    assert_eq!(whole.len(), 3);
    for cut in 0..stream.len() {
        let mut parser = H264Parser::new();
        let mut units = parser.push(&stream[..cut]);
        units.extend(parser.push(&stream[cut..]));
        assert_eq!(units, whole);
    }
    let mut parser = H264Parser::new();
    let mut units = Vec::new();
    for b in stream {
        units.extend(parser.push(&[b]));
    }
    assert_eq!(units, whole);
}

#[test]
fn a_unit_is_wrapped_with_its_length() {
    assert_eq!(avcc_wrap(&[0x65, 1, 2]), vec![0, 0, 0, 3, 0x65, 1, 2]);
    assert_eq!(strip_start_code(&[0, 0, 1, 0x65]), vec![0x65]);
    assert_eq!(strip_start_code(&[0x65]), vec![0x65]);
    assert!(is_first_slice(&[0x65, 0x80]));
    assert!(!is_first_slice(&[0x65, 0x00]));
    let config = build_avcc_config(&[0x67, 0x64, 0x00, 0x28, 9], &[0x68, 7]);
    assert_eq!(
        config,
        vec![1, 0x64, 0x00, 0x28, 0xff, 0xe1, 0, 5, 0x67, 0x64, 0x00, 0x28, 9, 1, 0, 2, 0x68, 7, 2, 0, 0, 0]
    );
}

#[test]
fn bits_are_read_from_the_top() {
    let data = [0b1010_0110, 0b0100_0000];
    let mut r = BitReader::new(&data);
    assert_eq!(r.read_bits(3), 0b101);
    assert_eq!(r.read_bit(), 0);
    // 011 -> 2
    let mut e = BitReader::new(&[0b0110_0000]);
    assert_eq!(e.read_ue(), 2);
    let mut s = BitReader::new(&[0b0110_0000]);
    assert_eq!(s.read_se(), -1);
    let mut end = BitReader::new(&[]);
    end.read_bit();
    assert!(end.err);
    assert_eq!(strip_emulation_prevention(&[0, 0, 3, 1]), vec![0, 0, 1]);
    assert_eq!(strip_emulation_prevention(&[0, 3, 1]), vec![0, 3, 1]);
}

/// Writes bits into bytes, the first bit on top.
fn pack(bits: &str) -> Vec<u8> {
    let mut out = Vec::new();
    for chunk in bits.as_bytes().chunks(8) {
        let mut b = 0u8;
        for (i, c) in chunk.iter().enumerate() {
            if *c == b'1' {
                b |= 0x80 >> i;
            }
        }
        out.push(b);
    }
    out
}

fn ue(n: u32) -> String {
    let s = format!("{:b}", n + 1);
    format!("{}{}", "0".repeat(s.len() - 1), s)
}

fn baseline_sps(w_mbs: u32, h_mbs: u32, crop_bottom: u32) -> Vec<u8> {
    let mut bits = String::new();
    bits += &ue(0); // seq_parameter_set_id
    bits += &ue(0); // log2_max_frame_num_minus4
    bits += &ue(2); // pic_order_cnt_type
    bits += &ue(1); // max_num_ref_frames
    bits += "0"; // gaps_in_frame_num_value_allowed_flag
    bits += &ue(w_mbs - 1);
    bits += &ue(h_mbs - 1);
    bits += "1"; // frame_mbs_only_flag
    bits += "1"; // direct_8x8_inference_flag
    if crop_bottom > 0 {
        bits += "1";
        bits += &ue(0);
        bits += &ue(0);
        bits += &ue(0);
        bits += &ue(crop_bottom);
    } else {
        bits += "0";
    }
    bits += "1";
    let mut sps = vec![0x67, 66, 0, 40];
    sps.extend(pack(&bits));
    sps
}

#[test]
fn a_parameter_set_gives_the_picture_size() {
    assert_eq!(sps_dimensions(&baseline_sps(80, 45, 0)), Some((1280, 720)));
    // 1088 lines, of which 8 are cropped, in units of two.
    assert_eq!(sps_dimensions(&baseline_sps(120, 68, 4)), Some((1920, 1080)));
    assert_eq!(sps_dimensions(&[]), None);
}

fn unit(bytes: &[u8]) -> Vec<u8> {
    let mut out = vec![0, 0, 0, 1];
    out.extend_from_slice(bytes);
    out
}

#[test]
fn the_first_keyframe_brings_the_configuration() {
    let mut s = FrameStream::new();
    let sps = baseline_sps(80, 45, 0);
    // A frame before the parameter sets is not sent.
    assert!(s.take_unit(&unit(&[0x41, 0x80, 1])).unwrap().is_none());
    assert!(s.take_unit(&unit(&sps)).unwrap().is_none());
    assert!(s.take_unit(&unit(&[0x68, 7])).unwrap().is_none());
    assert!(s.take_unit(&unit(&[0x65, 0x80, 2])).unwrap().is_none());
    let flush = s.take_unit(&unit(&[0x41, 0x80, 3])).unwrap().unwrap();
    assert!(flush.keyframe);
    let codec = flush.codec.unwrap();
    assert_eq!(codec.config, build_avcc_config(&sps, &[0x68, 7]));
    assert_eq!(codec.size, Some((1280, 720)));
    assert!(flush.frame.ends_with(&[0, 0, 0, 3, 0x65, 0x80, 2]));
    let last = s.flush().unwrap().unwrap();
    assert!(!last.keyframe);
    assert!(last.codec.is_none());
    assert!(s.flush().unwrap().is_none());
}

#[test]
fn a_congested_channel_drops_frames_but_no_keyframes() {
    let mut s = FrameStream::new();
    s.take_unit(&unit(&baseline_sps(80, 45, 0))).unwrap();
    s.take_unit(&unit(&[0x68, 7])).unwrap();
    s.take_unit(&unit(&[0x65, 0x80, 2])).unwrap();
    assert!(s.flush().unwrap().unwrap().keyframe);
    s.set_level(CongestionLevel::Heavy);
    let mut sent = 0;
    for i in 0..12u8 {
        s.take_unit(&unit(&[0x41, 0x80, i])).unwrap();
        if s.flush().unwrap().is_some() {
            sent += 1;
        }
    }
    assert!(sent < 12);
    assert_eq!(s.skipped, 12 - sent);
    s.take_unit(&unit(&[0x65, 0x80, 2])).unwrap();
    assert!(s.flush().unwrap().unwrap().keyframe);
}

#[test]
fn a_parameter_set_without_a_profile_is_refused() {
    let mut s = FrameStream::new();
    s.take_unit(&unit(&[0x67, 1])).unwrap();
    s.take_unit(&unit(&[0x68, 7])).unwrap();
    s.take_unit(&unit(&[0x65, 0x80, 2])).unwrap();
    assert!(matches!(s.flush(), Err(StreamError::ShortSps)));
}

#[test]
fn stream_identifiers_are_not_negative() {
    assert!(stream_id(u64::MAX) >= 0);
    assert_eq!(stream_uri("192.168.1.50", 7000, 42), "rtsp://192.168.1.50:7000/42");
}

#[test]
fn the_setup_of_the_sound_names_its_keys() {
    let body = marshal_plist(&audio_setup(&params(), 7, 11025)).unwrap();
    let v = parse_plist(&body).unwrap();
    assert_eq!(v.text_at("sessionUUID").unwrap(), params().session_uuid);
    assert_eq!(v.uint_at("timingPort"), Some(6001));
    let streams = v.items_at("streams").unwrap();
    assert_eq!(streams[0].uint_at("type"), Some(96));
    assert_eq!(streams[0].uint_at("controlPort"), Some(6002));
    let body = marshal_plist(&video_setup(&params(), 8)).unwrap();
    let v = parse_plist(&body).unwrap();
    let streams = v.items_at("streams").unwrap();
    assert_eq!(streams[0].uint_at("type"), Some(110));
    assert_eq!(streams[0].uint_at("streamConnectionID"), Some(8));
    assert_eq!(select_audio_security_mode(true), AudioSecurityMode::ChaCha);
    assert_eq!(select_audio_security_mode(false), AudioSecurityMode::LegacyAes);
}

fn reply(streams: Vec<(&str, i64, &str, i64)>, event: i64) -> Plist {
    let mut items = Vec::new();
    for (a, x, b, y) in streams {
        let mut s = Builder::new();
        s.put(a, Plist::Integer(x));
        s.put(b, Plist::Integer(y));
        items.push(s.finish());
    }
    let mut top = Builder::new();
    top.put("streams", Plist::Array(items));
    if event > 0 {
        top.put("eventPort", Plist::Integer(event));
    }
    top.finish()
}

#[test]
fn replies_state_their_ports() {
    let mut s = Builder::new();
    s.put("type", Plist::Integer(96));
    s.put("dataPort", Plist::Integer(5001));
    s.put("controlPort", Plist::Integer(5002));
    let mut top = Builder::new();
    top.put("streams", Plist::Array(vec![s.finish()]));
    top.put("eventPort", Plist::Integer(5003));
    let v = top.finish();
    assert_eq!(extract_audio_ports(&v), Some((5001, 5002)));
    assert_eq!(extract_event_port(&v), 5003);
    let v = reply(vec![("type", 110, "dataPort", 5004)], 0);
    assert_eq!(extract_video_data_port(&v), Some(5004));
    assert_eq!(extract_event_port(&v), 0);
}

fn answered(v: &Plist, now: u64) -> SetupEvent {
    SetupEvent::Replied { headers: Vec::new(), body: marshal_plist(v).unwrap(), now }
}

#[test]
fn a_session_is_set_up_step_by_step() {
    let (mut s, first) = MirrorSetup::begin(params(), Duration::from_millis(5), 1).ok().unwrap();
    assert_eq!(first.method, "SETUP");
    assert_eq!(first.uri, s.audio_uri());
    let audio = reply(vec![("type", 96, "dataPort", 5001)], 5003);
    let next = s.step(answered(&audio, 2)).ok().unwrap();
    assert!(matches!(next, SetupAction::Request(q) if q.method == "SETUP"));
    let video = reply(vec![("type", 110, "dataPort", 5004)], 0);
    assert!(matches!(s.step(answered(&video, 3)), Ok(SetupAction::DialEvent(5003))));
    assert!(matches!(s.step(SetupEvent::Connected), Ok(SetupAction::DialData(5004))));
    match s.step(SetupEvent::Connected) {
        Ok(SetupAction::Request(q)) => assert_eq!(q.method, "RECORD"),
        _ => panic!("the recording is next"),
    }
    let headers = vec![Header { name: "audio-latency".to_string(), value: "4410".to_string() }];
    let recorded = SetupEvent::Replied { headers, body: Vec::new(), now: 4 };
    match s.step(recorded) {
        Ok(SetupAction::Request(q)) => {
            assert_eq!(q.method, "SET_PARAMETER");
            assert_eq!(q.body, b"volume: 0.000000\r\n".to_vec());
        }
        _ => panic!("the volume is next"),
    }
    assert_eq!(s.latency_samples, 4410);
    let done = SetupEvent::Replied { headers: Vec::new(), body: Vec::new(), now: 5 };
    assert!(matches!(s.step(done), Ok(SetupAction::Request(_))));
    let done = SetupEvent::Replied { headers: Vec::new(), body: Vec::new(), now: 6 };
    assert!(matches!(s.step(done), Ok(SetupAction::Stream)));
    assert_eq!(s.phase, SetupPhase::Streaming);
    assert!(matches!(s.video_cipher(), VideoCipher::ChaCha { .. }));
    assert!(matches!(s.step(SetupEvent::Connected), Err(SetupError::Unexpected)));
}

#[test]
fn a_setup_fails_where_it_was_refused() {
    let (mut s, _) = MirrorSetup::begin(params(), Duration::from_millis(5), 1).ok().unwrap();
    assert!(matches!(s.step(SetupEvent::Failed), Err(SetupError::Failed(SetupPhase::AudioSetup))));

    let (mut s, _) = MirrorSetup::begin(params(), Duration::from_millis(5), 1).ok().unwrap();
    s.step(answered(&reply(vec![], 0), 2)).ok().unwrap();
    let none = SetupEvent::Replied { headers: Vec::new(), body: b"x".to_vec(), now: 3 };
    assert!(matches!(s.step(none), Err(SetupError::BadVideoReply)));

    let (mut s, _) = MirrorSetup::begin(params(), Duration::from_millis(5), 1).ok().unwrap();
    s.step(answered(&reply(vec![], 0), 2)).ok().unwrap();
    assert!(matches!(s.step(answered(&reply(vec![], 0), 3)), Err(SetupError::NoDataPort)));
}

#[test]
fn the_stated_latency_is_a_number() {
    let h = |v: &str| vec![Header { name: "audio-latency".to_string(), value: v.to_string() }];
    assert_eq!(read_latency(&h(" 11025 ")), Some(11025));
    assert_eq!(read_latency(&h("0")), None);
    assert_eq!(read_latency(&h("soon")), None);
    assert_eq!(read_latency(&[]), None);
}

#[test]
fn three_missed_answers_end_the_session() {
    let mut h = Heartbeat::new();
    assert!(h.beat(false));
    assert!(h.beat(false));
    assert!(h.beat(true));
    assert!(h.beat(false));
    assert!(h.beat(false));
    assert!(!h.beat(false));
}

#[test]
fn requests_of_a_running_session() {
    let muted = volume_request("rtsp://h:1/2", true);
    assert_eq!(muted.method, "SET_PARAMETER");
    assert_eq!(muted.body, b"volume: -144.000000\r\n".to_vec());
    assert_eq!(feedback_request().uri, "/feedback");
    assert_eq!(teardown_request("rtsp://h:1/2").method, "TEARDOWN");
    assert_eq!(heartbeat_request("rtsp://h:1/2", "7").uri, "rtsp://h:1/2");
}
