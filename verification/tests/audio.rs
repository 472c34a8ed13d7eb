use airfry::audio::aead::{
    aes_encrypt_audio_payload, AudioChaCha64, AudioCipherError, AUDIO_CHACHA_OVERHEAD,
};
use airfry::audio::alac::{encode_alac_verbatim, BitWriter, PcmBuffer};
use airfry::audio::sender::{sync_interval, AudioSender};
use airfry::audio::stream::{
    audio_latency_samples_for_codec, detect_pulse_monitor, setup_audio_stream, use_audio_fec,
    AudioChaChaAadMode, AudioChaChaNonceMode, AudioSecurityMode, AudioSetupError, AUDIO_CT_ALAC,
};
use airfry::latency::{Duration, LatencyTarget};
use chacha20::cipher::{KeyIvInit, StreamCipher, StreamCipherSeek};
use chacha20::ChaCha20Legacy;
use poly1305::universal_hash::{KeyInit, UniversalHash};
use poly1305::Poly1305;

#[test]
fn alac_verbatim_known_frame() {
    // A tiny 2-sample stereo S16LE frame: L0=0x0102, R0=0x0304,
    // L1=0x0506, R1=0x0708 (little-endian on the wire).
    let pcm: [u8; 8] = [0x02, 0x01, 0x04, 0x03, 0x06, 0x05, 0x08, 0x07];
    let mut out = [0u8; 64];
    let n = encode_alac_verbatim(&mut out, &pcm, 2, 2, 16);

    // Bit layout (MSB-first):
    //   tag=1 (3b) | elemInstance=0 (4b) | unused=0 (12b)
    //   hasSize=1 (1b) | extraBytes=0 (2b) | verbatim=1 (1b)
    //   numSamples=2 (32b) | 4 BE 16-bit samples | endTag=7 (3b)
    // total = 3+4+12 + 1+2+1 + 32 + 4*16 + 3 = 122 bits → 16 bytes.
    let expected: [u8; 16] = [
        0x20, 0x00, 0x12, 0x00, 0x00, 0x00, 0x04, // header + numSamples=2
        0x02, 0x04, 0x06, 0x08, 0x0a, 0x0c, 0x0e, // samples 0102 0304 0506 0708
        0x11, 0xc0, // last sample tail + endTag=7, padded
    ];
    assert_eq!(n, 16);
    assert_eq!(&out[..n], &expected[..]);

    // Determinism / stability check.
    let mut out2 = [0u8; 64];
    let n2 = encode_alac_verbatim(&mut out2, &pcm, 2, 2, 16);
    assert_eq!(n, n2);
    assert_eq!(&out[..n], &out2[..n2]);
}

#[test]
fn chacha64_roundtrip() {
    let key = [7u8; 32];
    let aead = AudioChaCha64::new(&key).unwrap();
    let nonce = [1, 2, 3, 4, 5, 6, 7, 8];
    let aad = b"timestampssrc12"; // arbitrary AAD
    let plaintext = b"hello airplay audio frame payload that spans many blocks!!";

    let sealed = aead.seal(&nonce, plaintext, aad);
    assert_eq!(sealed.len(), plaintext.len() + AUDIO_CHACHA_OVERHEAD);

    let opened = aead.open(&nonce, &sealed, aad).unwrap();
    assert_eq!(&opened, plaintext);

    // Tamper with the tag → auth must fail.
    let mut bad = sealed.clone();
    let last = bad.len() - 1;
    bad[last] ^= 0xff;
    assert!(aead.open(&nonce, &bad, aad).is_err());

    // Wrong AAD → auth must fail.
    assert!(aead.open(&nonce, &sealed, b"different aad!!!").is_err());

    // Empty plaintext still round-trips (just the tag).
    let s2 = aead.seal(&nonce, b"", aad);
    assert_eq!(s2.len(), AUDIO_CHACHA_OVERHEAD);
    assert_eq!(aead.open(&nonce, &s2, aad).unwrap(), b"");
}

#[test]
fn chacha64_vector_rfc7539_djb() {
    // Cross-check the 64-bit-nonce construction: the poly1305 key comes from
    // block 0 and the ciphertext from block 1.
    let key = [0u8; 32];
    let nonce = [0u8; 8];
    let aead = AudioChaCha64::new(&key).unwrap();
    let pt = [0u8; 40];
    let sealed = aead.seal(&nonce, &pt, &[]);

    // Reference keystream: ChaCha20Legacy from block 1 over 40 zero bytes.
    let mut cipher =
        ChaCha20Legacy::new((&key).into(), chacha20::LegacyNonce::from_slice(&nonce));
    let mut polykey = [0u8; 32];
    cipher.apply_keystream(&mut polykey);
    cipher.seek(64u64);
    let mut ref_ct = pt;
    cipher.apply_keystream(&mut ref_ct);
    assert_eq!(&sealed[..40], &ref_ct[..]);

    // Reference tag via update_padded over (aad=∅, ct, len-block).
    let mut poly = Poly1305::new(polykey.as_slice().into());
    poly.update_padded(&ref_ct);
    let mut len_block = [0u8; 16];
    len_block[..8].copy_from_slice(&0u64.to_le_bytes());
    len_block[8..].copy_from_slice(&40u64.to_le_bytes());
    poly.update(std::slice::from_ref((&len_block).into()));
    let tag = poly.finalize();
    assert_eq!(&sealed[40..], tag.as_slice());

    // And the sealed output must Open cleanly.
    assert_eq!(aead.open(&nonce, &sealed, &[]).unwrap().as_slice(), &pt[..]);
}

#[test]
fn a_key_has_its_length() {
    assert_eq!(
        AudioChaCha64::new(&[0; 16]).err(),
        Some(AudioCipherError::BadKeyLength { len: 16 })
    );
    let aead = AudioChaCha64::new(&[0; 32]).unwrap();
    assert_eq!(aead.overhead(), 16);
    assert_eq!(aead.open(&[0; 8], &[1, 2, 3], &[]).err(), Some(AudioCipherError::NotAuthentic));
}

#[test]
fn only_whole_blocks_are_enciphered() {
    let key = [
        0x2b, 0x7e, 0x15, 0x16, 0x28, 0xae, 0xd2, 0xa6, 0xab, 0xf7, 0x15, 0x88, 0x09, 0xcf, 0x4f,
        0x3c,
    ];
    let iv = [0, 1, 2, 3, 4, 5, 6, 7, 8, 9, 10, 11, 12, 13, 14, 15];
    let data = [
        0x6b, 0xc1, 0xbe, 0xe2, 0x2e, 0x40, 0x9f, 0x96, 0xe9, 0x3d, 0x7e, 0x11, 0x73, 0x93, 0x17,
        0x2a, 0xaa, 0xbb,
    ];
    let sealed = aes_encrypt_audio_payload(&key, &iv, &data);
    assert_eq!(
        sealed,
        vec![
            0x76, 0x49, 0xab, 0xac, 0x81, 0x19, 0xb2, 0x46, 0xce, 0xe9, 0x8e, 0x9b, 0x12, 0xe9,
            0x19, 0x7d, 0xaa, 0xbb
        ]
    );
}

#[test]
fn bits_are_written_from_the_top() {
    let mut w = BitWriter::new();
    w.write(0b101, 3);
    w.write(0xff, 8);
    w.write(0, 1);
    assert_eq!(w.finish(), vec![0b1011_1111, 0b1110_0000]);
}

#[test]
fn frames_of_sound_are_taken_whole() {
    let mut b = PcmBuffer::new();
    b.push(&[1; 1000]);
    assert!(b.read_frame().is_none());
    b.push(&[2; 1000]);
    let frame = b.read_frame().unwrap();
    let mut pcm = vec![1u8; 1000];
    pcm.extend_from_slice(&[2; 408]);
    let mut expected = [0u8; 2000];
    let n = encode_alac_verbatim(&mut expected, &pcm, 352, 2, 16);
    assert_eq!(frame, expected[..n].to_vec());
    assert_eq!(b.drain(), 592);
    assert_eq!(b.drain(), 0);
}

#[test]
fn the_interval_between_syncs_grows() {
    assert_eq!(sync_interval(Duration::from_millis(4999)), Duration::from_millis(200));
    assert_eq!(sync_interval(Duration::from_secs(5)), Duration::from_secs(1));
}

#[test]
fn a_legacy_packet_has_its_header() {
    let target = LatencyTarget::default();
    let mut s = setup_audio_stream(
        Some([1; 16]),
        Some([2; 16]),
        None,
        AudioSecurityMode::LegacyAes,
        AUDIO_CT_ALAC,
        11025,
        &target,
    )
    .ok()
    .unwrap();
    assert!(!s.is_chacha());
    assert_eq!(s.latency_samples(), 11025);
    assert_eq!(s.spf(), 352);
    s.ssrc = 0x01020304;
    let (packet, _) = s.packet(&[0xaa; 4], 0x0a0b0c0d, 0x1122, None);
    assert_eq!(
        packet,
        vec![
            0x80, 0x60, 0x11, 0x22, 0x0a, 0x0b, 0x0c, 0x0d, 0x01, 0x02, 0x03, 0x04, 0xaa, 0xaa,
            0xaa, 0xaa
        ]
    );
}

#[test]
fn a_sealed_packet_opens_under_its_nonce() {
    let target = LatencyTarget::default();
    let mut s = setup_audio_stream(
        None,
        None,
        Some([9; 32]),
        AudioSecurityMode::ChaCha,
        AUDIO_CT_ALAC,
        0,
        &target,
    )
    .ok()
    .unwrap();
    assert!(s.is_chacha());
    let (packet, nonce) = s.packet(b"sound", 1000, 5, None);
    let sealed = &packet[12..packet.len() - 8];
    let carried = &packet[packet.len() - 8..];
    assert_eq!(carried, &nonce.to_le_bytes());
    let aad = match s.chacha_aad_mode {
        AudioChaChaAadMode::Empty => Vec::new(),
        AudioChaChaAadMode::RtpHeader => packet[..12].to_vec(),
        AudioChaChaAadMode::TimestampSsrc => packet[4..12].to_vec(),
    };
    let aead = AudioChaCha64::new(&[9; 32]).unwrap();
    assert_eq!(aead.open(&nonce.to_le_bytes(), sealed, &aad).unwrap(), b"sound");
    // A packet that is sent once more is the same packet.
    let (again, _) = s.packet(b"sound", 1000, 5, Some(nonce));
    assert_eq!(again, packet);
    assert_eq!(s.chacha_nonce_mode.as_str(), AudioChaChaNonceMode::Counter.as_str());
}

#[test]
fn chacha_needs_its_key() {
    let r = setup_audio_stream(
        None,
        None,
        None,
        AudioSecurityMode::ChaCha,
        AUDIO_CT_ALAC,
        0,
        &LatencyTarget::default(),
    );
    assert_eq!(r.err(), Some(AudioSetupError::NoChaChaKey));
}

#[test]
fn a_frame_is_sent_again_eight_frames_later() {
    let stream = setup_audio_stream(
        Some([1; 16]),
        Some([2; 16]),
        None,
        AudioSecurityMode::LegacyAes,
        AUDIO_CT_ALAC,
        100,
        &LatencyTarget::default(),
    )
    .ok()
    .unwrap();
    let (mut sender, sync) = AudioSender::new(stream, 0x0102030405060708);
    assert_eq!(&sync[8..16], &[1, 2, 3, 4, 5, 6, 7, 8]);
    let mut first = Vec::new();
    for i in 0..8u8 {
        let packets = sender.frame(&[i; 20]);
        assert_eq!(packets.len(), 1);
        sender.sent(&packets[0]);
        first.push((packets[0].bytes.clone(), packets[0].rtp_time));
    }
    let packets = sender.frame(&[8; 20]);
    assert_eq!(packets.len(), 2);
    assert_eq!((packets[0].bytes.clone(), packets[0].rtp_time), first[0]);
    assert_eq!(packets[0].rtp_time, 100);
    assert_eq!(packets[1].rtp_time, 100 + 8 * 352);
    assert!(use_audio_fec(false));
}

#[test]
fn an_override_decides_the_latency() {
    let target = LatencyTarget::default();
    assert_eq!(audio_latency_samples_for_codec(&target, AUDIO_CT_ALAC, 77), 77);
    assert!(audio_latency_samples_for_codec(&target, AUDIO_CT_ALAC, 0) > 0);
}

#[test]
fn the_monitor_of_the_default_sink_is_recorded() {
    assert_eq!(detect_pulse_monitor(b"alsa_output.pci\n"), Some("alsa_output.pci.monitor".to_string()));
    assert_eq!(detect_pulse_monitor(b"  \n"), None);
    // Bytes that are no text are replaced.
    assert_eq!(detect_pulse_monitor(b"a\xff\n"), Some("a\u{fffd}.monitor".to_string()));
}
