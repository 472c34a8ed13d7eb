use airfry::rtsp::frames::{frame_length, FrameError, Transport};
use airfry::rtsp::message::{get_header, parse_http_header, Header};
use airfry::rtsp::reply::{
    find_subslice, head_progress, plain_response, FramedReply, HeadProgress, ReadStep, ReplyError,
};
use airfry::rtsp::{credential_key, decode_hex, hexdump};

#[test]
fn credential_key_prefers_device_id() {
    // A real device id is used verbatim, regardless of the host.
    assert_eq!(
        credential_key("AA:BB:CC:DD:EE:FF", "192.168.1.50"),
        "AA:BB:CC:DD:EE:FF"
    );
    // No device id -> fall back to the host/IP.
    assert_eq!(credential_key("", "192.168.1.50"), "192.168.1.50");
    assert_eq!(credential_key("", "appletv.local"), "appletv.local");
}

#[test]
fn hex_is_decoded_in_pairs() {
    assert_eq!(decode_hex("00ffA5"), vec![0x00, 0xff, 0xa5]);
    assert_eq!(decode_hex(""), Vec::<u8>::new());
    assert_eq!(decode_hex("abc"), Vec::<u8>::new());
    assert_eq!(decode_hex("zz"), Vec::<u8>::new());
}

#[test]
fn a_dump_names_its_bytes() {
    assert_eq!(hexdump(&[0xde, 0xad, 0x01]), "dead01");
}

#[test]
fn a_plain_request_is_numbered() {
    let mut t = Transport::new();
    let first = t
        .request("GET", "/info", "application/x-apple-binary-plist", b"", &[])
        .ok()
        .unwrap();
    let text = String::from_utf8(first).unwrap();
    assert!(text.starts_with("GET /info RTSP/1.0\r\n"));
    assert!(text.contains("CSeq: 1\r\n"));
    assert!(text.contains("User-Agent: AirPlay/935.7.1\r\n"));
    assert!(text.ends_with("\r\n\r\n"));
    let headers = vec![Header { name: "X-Apple-ET".to_string(), value: "32".to_string() }];
    let second = t
        .request("POST", "/fp-setup", "application/octet-stream", b"abc", &headers)
        .ok()
        .unwrap();
    let text = String::from_utf8(second).unwrap();
    assert!(text.contains("CSeq: 2\r\n"));
    assert!(text.contains("Content-Length: 3\r\n"));
    assert!(text.contains("X-Apple-ET: 32\r\n"));
    assert!(text.ends_with("\r\n\r\nabc"));
}

#[test]
fn encrypted_frames_open_on_the_other_side() {
    let mut sender = Transport::new();
    sender.enable_encryption(vec![1; 32], vec![2; 32]);
    assert!(sender.is_encrypted());
    let mut receiver = Transport::new();
    receiver.enable_encryption(vec![2; 32], vec![1; 32]);

    let message: Vec<u8> = (0..2500u32).map(|i| i as u8).collect();
    let sealed = sender.encrypt(&message).ok().unwrap();
    // Frames of 1024, 1024 and 452 bytes, each with a length before it and a tag behind it.
    assert_eq!(sealed.len(), 2500 + 3 * 18);
    let mut got = Vec::new();
    let mut at = 0;
    let mut frames = 0;
    while at < sealed.len() {
        let prefix = [sealed[at], sealed[at + 1]];
        let n = frame_length(&prefix).ok().unwrap();
        let body = &sealed[at + 2..at + 2 + n];
        got.extend_from_slice(&receiver.open_frame(&prefix, body).ok().unwrap());
        at += 2 + n;
        frames += 1;
    }
    assert_eq!(frames, 3);
    assert_eq!(got, message);
    // The same message is sealed anew under fresh nonces.
    assert_ne!(sender.encrypt(&message).ok().unwrap(), sealed);
}

#[test]
fn frames_name_what_is_wrong() {
    let mut t = Transport::new();
    t.enable_encryption(vec![1; 3], vec![2; 3]);
    assert_eq!(t.encrypt(b"x").err(), Some(FrameError::BadKey));
    let mut t = Transport::new();
    t.enable_encryption(vec![1; 32], vec![2; 32]);
    assert_eq!(
        t.open_frame(&[4, 0], &[0; 20]).err(),
        Some(FrameError::Undecryptable { nonce: 0 })
    );
    assert_eq!(
        frame_length(&[0xff, 0xff]).err(),
        Some(FrameError::SuspiciousLength { len: 65535 })
    );
    t.enc_write_nonce = u64::MAX;
    assert_eq!(t.encrypt(b"x").err(), Some(FrameError::Exhausted));
}

#[test]
fn a_head_is_read_line_by_line() {
    let head = parse_http_header(
        b"RTSP/1.0 200 OK\r\nContent-Length: 12\r\nAudio-Latency:  11025 \r\nCSeq: 1\r\n",
    );
    assert_eq!(head.status, 200);
    assert_eq!(head.content_length, 12);
    assert_eq!(get_header(&head.headers, "audio-latency").unwrap(), "11025");
    assert!(get_header(&head.headers, "session").is_none());
}

#[test]
fn heads_end_with_an_empty_line() {
    assert_eq!(head_progress(b"RTSP/1.0 200 OK\r\n"), HeadProgress::More);
    assert_eq!(head_progress(b"RTSP/1.0 200 OK\r\n\r\n"), HeadProgress::Complete);
    assert_eq!(head_progress(&[b'a'; 16385]), HeadProgress::TooLarge);
    assert_eq!(find_subslice(b"abcabd", b"abd"), Some(3));
    assert_eq!(find_subslice(b"abc", b"abd"), None);
}

#[test]
fn an_error_status_is_an_error() {
    let ok = plain_response(b"RTSP/1.0 200 OK\r\n\r\n", b"body".to_vec()).ok().unwrap();
    assert_eq!(ok.status, 200);
    assert_eq!(ok.body, b"body".to_vec());
    match plain_response(b"RTSP/1.0 470 Connection Authorization Required\r\n\r\n", Vec::new()) {
        Err(ReplyError::Status { status, body }) => {
            assert_eq!(status, 470);
            assert!(body.is_empty());
        }
        _ => panic!("470 is an error"),
    }
}

#[test]
fn a_framed_reply_is_complete_with_its_body() {
    let mut reply = FramedReply::new();
    assert!(matches!(reply.push(b"RTSP/1.0 200 OK\r\nContent-Le"), Ok(ReadStep::More)));
    assert!(matches!(reply.push(b"ngth: 4\r\n\r\nab"), Ok(ReadStep::More)));
    match reply.push(b"cd") {
        Ok(ReadStep::Done(r)) => assert_eq!(r.body, b"abcd".to_vec()),
        _ => panic!("the reply is complete"),
    }
    let mut reply = FramedReply::new();
    assert!(matches!(reply.push(&[b'x'; 16400]), Err(ReplyError::HeadTooLarge)));
}
