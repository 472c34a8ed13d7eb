use airfry::broadcast::{BroadcastCapture, BroadcastSink, Offer, ReadOutcome};

/// Reads a closed sink to its end.
fn drain(sink: &mut BroadcastSink) -> Vec<u8> {
    let mut out = Vec::new();
    let mut buf = [0u8; 4];
    loop {
        match sink.read(&mut buf) {
            ReadOutcome::Bytes(0) => return out,
            ReadOutcome::Bytes(n) => out.extend_from_slice(&buf[..n]),
            ReadOutcome::Wait => panic!("the sink is closed"),
        }
    }
}

#[test]
fn one_source_fans_to_two_sinks() {
    let mut bc = BroadcastCapture::new();
    let mut sink1 = bc.add_sink();
    let mut sink2 = bc.add_sink();
    assert_eq!(bc.live(), vec![sink1.id, sink2.id]);
    for chunk in [&b"hello "[..], &b"broadcast "[..], &b"world"[..]] {
        assert_eq!(sink1.offer(chunk), Offer::Sent);
        assert_eq!(sink2.offer(chunk), Offer::Sent);
    }
    bc.finish(None);
    sink1.close();
    sink2.close();

    assert_eq!(drain(&mut sink1), b"hello broadcast world");
    assert_eq!(drain(&mut sink2), b"hello broadcast world");
    assert!(bc.done());
    assert!(bc.err().is_none());
}

#[test]
fn broadcast_sink_is_a_frame_source() {
    let mut bc = BroadcastCapture::new();
    let mut sink = bc.add_sink();
    let mut buf = [0u8; 5];
    assert_eq!(sink.read(&mut buf), ReadOutcome::Wait);
    assert_eq!(sink.offer(b"frame-source bytes"), Offer::Sent);
    sink.close();
    assert_eq!(drain(&mut sink), b"frame-source bytes");
}

#[test]
fn one_source_to_two_frame_source_mirrors() {
    let mut bc = BroadcastCapture::new();
    let mut s1 = bc.add_sink();
    let mut s2 = bc.add_sink();
    for chunk in [&b"00 00 00 01 "[..], &b"SPS PPS IDR"[..]] {
        s1.offer(chunk);
        s2.offer(chunk);
    }
    s1.close();
    s2.close();
    assert_eq!(drain(&mut s1), b"00 00 00 01 SPS PPS IDR");
    assert_eq!(drain(&mut s2), b"00 00 00 01 SPS PPS IDR");
}

#[test]
fn a_full_sink_makes_the_source_wait() {
    let mut sink = BroadcastSink::new(1);
    for _ in 0..4 {
        assert_eq!(sink.offer(b"x"), Offer::Sent);
    }
    assert_eq!(sink.offer(b"y"), Offer::Full);
    let mut buf = [0u8; 1];
    assert_eq!(sink.read(&mut buf), ReadOutcome::Bytes(1));
    assert_eq!(sink.offer(b"z"), Offer::Sent);
    sink.close();
    assert_eq!(sink.offer(b"w"), Offer::Gone);
    assert_eq!(drain(&mut sink), b"xxxz");
}

#[test]
fn a_removed_sink_is_not_served() {
    let mut bc = BroadcastCapture::new();
    let a = bc.add_sink();
    let b = bc.add_sink();
    assert_ne!(a.id, b.id);
    bc.remove_sink(a.id);
    assert_eq!(bc.live(), vec![b.id]);
    bc.finish(Some("the source failed".to_string()));
    assert_eq!(bc.err(), Some("the source failed"));
    assert!(bc.live().is_empty());
}

#[test]
fn a_read_takes_at_most_the_rest_of_a_chunk() {
    let mut sink = BroadcastSink::new(1);
    sink.offer(b"abcde");
    sink.offer(b"fg");
    let mut buf = [b'.'; 3];
    assert_eq!(sink.read(&mut []), ReadOutcome::Bytes(0));
    assert_eq!(sink.read(&mut buf), ReadOutcome::Bytes(3));
    assert_eq!(&buf, b"abc");
    assert_eq!(sink.read(&mut buf), ReadOutcome::Bytes(2));
    assert_eq!(&buf, b"dec");
    assert_eq!(sink.read(&mut buf), ReadOutcome::Bytes(2));
    assert_eq!(&buf, b"fgc");
    assert_eq!(sink.read(&mut buf), ReadOutcome::Wait);
    sink.close();
    assert_eq!(sink.read(&mut buf), ReadOutcome::Bytes(0));
    assert_eq!(sink.read(&mut buf), ReadOutcome::Bytes(0));
    assert_eq!(&buf, b"fgc");
}
