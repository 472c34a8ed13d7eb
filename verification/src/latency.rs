//! The playout latency that audio and video share, and its length in samples.
use vstd::prelude::*;

verus! {

/// A length of time, in nanoseconds.
#[derive(Clone, Copy, Debug, PartialEq, Eq, Structural)]
pub struct Duration {
    pub nanos: u128,
}

impl Duration {
    pub fn from_secs(secs: u64) -> (r: Duration)
        ensures
            r.nanos == secs * 1_000_000_000,
    {
        Duration { nanos: secs as u128 * 1_000_000_000 }
    }

    pub fn from_millis(millis: u64) -> (r: Duration)
        ensures
            r.nanos == millis * 1_000_000,
    {
        Duration { nanos: millis as u128 * 1_000_000 }
    }

    pub fn from_nanos(nanos: u64) -> (r: Duration)
        ensures
            r.nanos == nanos,
    {
        Duration { nanos: nanos as u128 }
    }

    pub fn as_nanos(&self) -> (r: u128)
        ensures
            r == self.nanos,
    {
        self.nanos
    }

    /// The longer of two lengths of time.
    pub fn max(self, other: Duration) -> (r: Duration)
        ensures
            r.nanos == (if self.nanos < other.nanos {
                other.nanos
            } else {
                self.nanos
            }),
    {
        if self.nanos < other.nanos {
            other
        } else {
            self
        }
    }
}

/// The latency that is aimed at unless another is set, in nanoseconds.
pub const DEFAULT_TARGET_LATENCY: u128 = 1_000_000;

/// The latency that receivers without a good jitter buffer need, in nanoseconds.
pub const CONSERVATIVE_PLAYOUT_LATENCY: u128 = 500_000_000;

/// The shortest latency that can be set, and the least video bias, in nanoseconds.
pub const MIN_TARGET_LATENCY: u128 = 5_000_000;

/// The longest latency that can be set, in nanoseconds.
pub const MAX_TARGET_LATENCY: u128 = 2_000_000_000;

/// The configured latency in nanoseconds; a value that is not positive means the default.
#[derive(Clone, Copy, Debug, PartialEq, Eq, Structural)]
pub struct LatencyTarget {
    pub nanos: i64,
}

impl Default for LatencyTarget {
    fn default() -> (r: LatencyTarget)
        ensures
            r.nanos == DEFAULT_TARGET_LATENCY,
    {
        LatencyTarget { nanos: 1_000_000 }
    }
}

/// A latency held between the shortest and the longest.
pub open spec fn clamped(nanos: u128) -> u128 {
    if nanos < MIN_TARGET_LATENCY {
        MIN_TARGET_LATENCY
    } else if nanos > MAX_TARGET_LATENCY {
        MAX_TARGET_LATENCY
    } else {
        nanos
    }
}

/// Sets the latency to aim at, held between 5 ms and 2 s.
pub fn set_target_latency(target: &mut LatencyTarget, d: Duration)
    ensures
        final(target).nanos == clamped(d.nanos),
{
    let nanos: u128 = if d.nanos < MIN_TARGET_LATENCY {
        MIN_TARGET_LATENCY
    } else if d.nanos > MAX_TARGET_LATENCY {
        MAX_TARGET_LATENCY
    } else {
        d.nanos
    };
    target.nanos = nanos as i64;
}

pub open spec fn target_nanos(target: LatencyTarget) -> int {
    if target.nanos <= 0 {
        DEFAULT_TARGET_LATENCY as int
    } else {
        target.nanos as int
    }
}

/// The latency to aim at.
pub fn target_latency(target: &LatencyTarget) -> (r: Duration)
    ensures
        r.nanos == target_nanos(*target),
{
    if target.nanos <= 0 {
        Duration { nanos: DEFAULT_TARGET_LATENCY }
    } else {
        Duration { nanos: target.nanos as u128 }
    }
}

/// A length of time in samples at 44.1 kHz, rounded to the nearest, halves up; at least one, at
/// most what 32 bits hold.
pub open spec fn samples_44k1(nanos: int) -> int {
    let rounded = (nanos * 44100 + 500_000_000) / 1_000_000_000;
    if rounded < 1 {
        1
    } else if rounded > u32::MAX {
        u32::MAX as int
    } else {
        rounded
    }
}

/// A length of time in samples at 44.1 kHz.
pub fn samples_for_44k1(d: Duration) -> (r: u32)
    ensures
        r == samples_44k1(d.nanos as int),
{
    if d.nanos >= 1_000_000_000_000_000 {
        return u32::MAX;
    }
    let rounded: u128 = (d.nanos * 44100 + 500_000_000) / 1_000_000_000;
    if rounded < 1 {
        1
    } else if rounded > u32::MAX as u128 {
        u32::MAX
    } else {
        rounded as u32
    }
}

/// The latency to aim at, in samples at 44.1 kHz.
pub fn target_latency_samples_44k1(target: &LatencyTarget) -> (r: u32)
    ensures
        r == samples_44k1(target_nanos(*target)),
{
    samples_for_44k1(target_latency(target))
}

/// How far ahead video frames are stamped: the latency to aim at, at least 5 ms.
pub fn video_timestamp_bias(target: &LatencyTarget) -> (r: Duration)
    ensures
        r.nanos == (if target_nanos(*target) < MIN_TARGET_LATENCY {
            MIN_TARGET_LATENCY as int
        } else {
            target_nanos(*target)
        }),
{
    target_latency(target).max(Duration { nanos: MIN_TARGET_LATENCY })
}

/// The latency of a session: the one to aim at, or the receiver's floor where that is longer.
/// Receivers that speak FairPlay have no floor.
pub fn session_latency(target: &LatencyTarget, supports_fairplay_sap: bool) -> (r: Duration)
    ensures
        r.nanos == (if !supports_fairplay_sap && target_nanos(*target)
            < CONSERVATIVE_PLAYOUT_LATENCY {
            CONSERVATIVE_PLAYOUT_LATENCY as int
        } else {
            target_nanos(*target)
        }),
{
    if supports_fairplay_sap {
        target_latency(target)
    } else {
        target_latency(target).max(Duration { nanos: CONSERVATIVE_PLAYOUT_LATENCY })
    }
}

/// A number of samples at 44.1 kHz as a length of time, rounded down.
pub fn latency_of_samples(samples: u32) -> (r: Duration)
    ensures
        r.nanos == samples as int * 1_000_000_000 / 44_100,
{
    Duration { nanos: (samples as u64 * 1_000_000_000 / 44_100) as u128 }
}

/// A latency that was set is read back as set, within the limits.
pub proof fn lemma_set_then_get(after: LatencyTarget, nanos: u128)
    requires
        after.nanos == clamped(nanos),
    ensures
        target_nanos(after) == clamped(nanos),
        MIN_TARGET_LATENCY <= target_nanos(after) <= MAX_TARGET_LATENCY,
{
}

/// A longer time has no fewer samples.
pub proof fn lemma_samples_monotone(a: int, b: int)
    requires
        0 <= a <= b,
    ensures
        samples_44k1(a) <= samples_44k1(b),
{
}

/// A whole number of samples survives the way to a length of time and back.
pub proof fn lemma_samples_round_trip(samples: u32)
    requires
        samples >= 1,
    ensures
        samples_44k1(samples as int * 1_000_000_000 / 44_100) == samples,
{
}

} // verus!
