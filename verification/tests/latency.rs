use airfry::latency::{
    latency_of_samples, samples_for_44k1, session_latency, set_target_latency, target_latency,
    target_latency_samples_44k1, video_timestamp_bias, Duration, LatencyTarget,
    CONSERVATIVE_PLAYOUT_LATENCY, DEFAULT_TARGET_LATENCY,
};

#[test]
fn samples_for_44k1_matches_go_math() {
    // round(d * 44100), floored at 1.
    // 1ms  -> round(44.1)   = 44
    assert_eq!(samples_for_44k1(Duration::from_millis(1)), 44);
    // 5ms  -> round(220.5)  = 221 (round half away from zero)
    assert_eq!(samples_for_44k1(Duration::from_millis(5)), 221);
    // 10ms -> round(441.0)  = 441
    assert_eq!(samples_for_44k1(Duration::from_millis(10)), 441);
    // 1s   -> 44100
    assert_eq!(samples_for_44k1(Duration::from_secs(1)), 44100);
    // 500ms (conservative floor) -> round(22050.0) = 22050
    assert_eq!(
        samples_for_44k1(Duration { nanos: CONSERVATIVE_PLAYOUT_LATENCY }),
        22050
    );
    // Sub-sample durations floor to 1.
    assert_eq!(samples_for_44k1(Duration::from_nanos(1)), 1);
    assert_eq!(samples_for_44k1(Duration::from_secs(0)), 1);
}

#[test]
fn default_target_and_bias() {
    let target = LatencyTarget::default();
    // Default target latency is 1ms; the video bias floors it to 5ms.
    assert_eq!(target_latency(&target), Duration { nanos: DEFAULT_TARGET_LATENCY });
    assert_eq!(video_timestamp_bias(&target), Duration::from_millis(5));
    // The default target in samples is 44 (round(44.1)).
    assert_eq!(target_latency_samples_44k1(&target), 44);
}

#[test]
fn what_is_set_is_the_target() {
    let mut target = LatencyTarget::default();
    set_target_latency(&mut target, Duration::from_millis(40));
    assert_eq!(target_latency(&target), Duration::from_millis(40));
    assert_eq!(video_timestamp_bias(&target), Duration::from_millis(40));
    assert_eq!(target_latency_samples_44k1(&target), 1764);
    // A setting stays between its bounds.
    set_target_latency(&mut target, Duration::from_millis(0));
    assert_eq!(target_latency(&target), Duration::from_millis(5));
    set_target_latency(&mut target, Duration::from_secs(9));
    assert_eq!(target_latency(&target), Duration::from_secs(2));
}

#[test]
fn receivers_without_fairplay_play_out_later() {
    let target = LatencyTarget::default();
    let with = session_latency(&target, true);
    let without = session_latency(&target, false);
    assert!(with.nanos <= without.nanos);
    assert!(without.nanos >= CONSERVATIVE_PLAYOUT_LATENCY);
}

#[test]
fn samples_keep_their_latency() {
    assert_eq!(latency_of_samples(44100), Duration::from_secs(1));
    assert_eq!(samples_for_44k1(latency_of_samples(12345)), 12345);
    assert_eq!(Duration::from_millis(3).max(Duration::from_millis(4)), Duration::from_millis(4));
}
