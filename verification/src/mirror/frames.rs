//! The packets of the video channel and of the timing channel.
pub mod laws;

use crate::bytes::{extend, extend_le32, extend_le64, le_bytes32, le_bytes64, low32};
use crate::crypto::random_bytes;
use crate::latency::{Duration, MIN_TARGET_LATENCY};
use crate::mirror::cipher::{sealed_frame, VideoCipher};
use crate::text::{
    chars, from_chars, hex_encode, hex_of, lower, lowercase_of, lowered, to_lowercase, to_uppercase,
    upper, uppercase_of, uppered,
};
use vstd::prelude::*;
use vstd::slice::slice_subrange;
use vstd::utf8::{encode_utf8, is_ascii_chars};

verus! {

/// What a mirror session is run with.
#[derive(Clone, Copy, Debug, PartialEq, Eq, Structural)]
pub struct MirrorOpts {
    pub fit_pct: u8,
    pub bitrate_kbps: u32,
    pub fps: u32,
    pub force_software_encoder: bool,
    /// Send frames in the clear.
    pub no_encrypt: bool,
    /// Leave the sound out.
    pub no_audio: bool,
    /// Send the sound, but have the receiver mute it.
    pub mute_audio: bool,
}

impl Default for MirrorOpts {
    fn default() -> (r: MirrorOpts)
        ensures
            r == (MirrorOpts {
                fit_pct: 0,
                bitrate_kbps: 0,
                fps: 30,
                force_software_encoder: false,
                no_encrypt: false,
                no_audio: false,
                mute_audio: false,
            }),
    {
        MirrorOpts {
            fit_pct: 0,
            bitrate_kbps: 0,
            fps: 30,
            force_software_encoder: false,
            no_encrypt: false,
            no_audio: false,
            mute_audio: false,
        }
    }
}

/// The seconds between the epochs of NTP and Unix.
pub const SECONDS_FROM_1900_TO_1970: u64 = 2208988800;

/// A time as NTP has it: seconds in the upper half, the fraction of a second in the lower, rounded
/// down. The seconds wrap.
pub open spec fn ntp_of(secs: int, nanos: int) -> u64 {
    ((secs % 0x1_0000_0000) * 0x1_0000_0000 + nanos * 0x1_0000_0000 / 1_000_000_000) as u64
}

fn to_ntp(secs: u128, nanos: u64) -> (r: u64)
    requires
        nanos < 1_000_000_000,
    ensures
        r == ntp_of(secs as int, nanos as int),
{
    let high: u64 = (secs % 0x1_0000_0000) as u64;
    let low: u64 = nanos * 0x1_0000_0000 / 1_000_000_000;
    high * 0x1_0000_0000 + low
}

/// The longest time since the start that is reckoned with.
pub const MAX_ELAPSED: u128 = 0x1_0000_0000_0000_0000_0000_0000;

/// The stamp of a frame: the time since the start, moved ahead by the bias, which is at least 5 ms.
pub fn ntp_time_with_bias(elapsed: Duration, bias: Duration) -> (r: u64)
    requires
        elapsed.nanos <= MAX_ELAPSED,
        bias.nanos <= MAX_ELAPSED,
    ensures
        r == ntp_ahead(elapsed.nanos as int, bias.nanos as int),
{
    let ahead: Duration = bias.max(Duration { nanos: MIN_TARGET_LATENCY });
    let d: u128 = elapsed.nanos + ahead.nanos;
    to_ntp(d / 1_000_000_000, (d % 1_000_000_000) as u64)
}

/// The stamp of a timing reply: the time since the start, counted from the NTP epoch.
pub fn ntp_boot_timestamp(elapsed: Duration) -> (r: u64)
    requires
        elapsed.nanos <= MAX_ELAPSED,
    ensures
        r == ntp_of(
            elapsed.nanos as int / 1_000_000_000 + SECONDS_FROM_1900_TO_1970,
            elapsed.nanos as int % 1_000_000_000,
        ),
{
    to_ntp(
        elapsed.nanos / 1_000_000_000 + SECONDS_FROM_1900_TO_1970 as u128,
        (elapsed.nanos % 1_000_000_000) as u64,
    )
}

/// A later time never has an earlier stamp, until the seconds wrap.
pub proof fn lemma_stamps_ordered(a: int, b: int)
    requires
        0 <= a <= b < 0x1_0000_0000 * 1_000_000_000,
    ensures
        ntp_of(a / 1_000_000_000, a % 1_000_000_000) <= ntp_of(
            b / 1_000_000_000,
            b % 1_000_000_000,
        ),
{
    let (sa, na) = (a / 1_000_000_000, a % 1_000_000_000);
    let (sb, nb) = (b / 1_000_000_000, b % 1_000_000_000);
    assert(sa <= sb < 0x1_0000_0000);
    assert(na * 0x1_0000_0000 / 1_000_000_000 < 0x1_0000_0000);
    assert(nb * 0x1_0000_0000 / 1_000_000_000 < 0x1_0000_0000);
}

/// The big-endian bytes of `v`.
pub open spec fn be_bytes64(v: u64) -> Seq<u8> {
    crate::bytes::be_bytes32((v / 0x1_0000_0000) as u32) + crate::bytes::be_bytes32(
        (v % 0x1_0000_0000) as u32,
    )
}

pub(crate) fn extend_be64(out: &mut Vec<u8>, v: u64)
    ensures
        final(out)@ == old(out)@ + be_bytes64(v),
{
    crate::bytes::extend_be32(out, (v / 0x1_0000_0000) as u32);
    crate::bytes::extend_be32(out, (v % 0x1_0000_0000) as u32);
    assert(out@ =~= old(out)@ + be_bytes64(v));
}

/// The answer to a timing request: the sender's own stamp comes back as the reference, and the
/// time of the answer stands for both receipt and transmission.
pub open spec fn timing_reply(request: Seq<u8>, now: u64) -> Seq<u8> {
    seq![0x80u8, 0xd3u8] + request.subrange(2, 8) + request.subrange(24, 32) + be_bytes64(now)
        + be_bytes64(now)
}

/// Answers a timing request; `None` when it is too short to be one.
pub fn ntp_timing_reply(request: &[u8], now: u64) -> (r: Option<Vec<u8>>)
    ensures
        match r {
            Some(reply) => request@.len() >= 32 && reply@ == timing_reply(request@, now)
                && reply@.len() == 32,
            None => request@.len() < 32,
        },
{
    if request.len() < 32 {
        return None;
    }
    let mut out: Vec<u8> = vec![0x80u8, 0xd3u8];
    extend(&mut out, slice_subrange(request, 2, 8));
    extend(&mut out, slice_subrange(request, 24, 32));
    extend_be64(&mut out, now);
    extend_be64(&mut out, now);
    assert(out@ =~= timing_reply(request@, now));
    Some(out)
}

pub open spec fn zeros(n: nat) -> Seq<u8> {
    Seq::new(n, |i: int| 0u8)
}

fn extend_zeros(out: &mut Vec<u8>, n: usize)
    ensures
        final(out)@ == old(out)@ + zeros(n as nat),
{
    let fill: Vec<u8> = vec![0u8; n];
    extend(out, fill.as_slice());
    assert(fill@ =~= zeros(n as nat));
}

/// Single-precision sizes, as their bits: of the encoded picture and of the presentation.
#[derive(Clone, Copy, Debug, PartialEq, Eq, Structural)]
pub struct SizeBits {
    pub video_w: u32,
    pub video_h: u32,
    pub display_w: u32,
    pub display_h: u32,
}

/// The header of the packet that carries the decoder configuration.
pub open spec fn codec_header(len: u32, ntp: u64, size: SizeBits) -> Seq<u8> {
    le_bytes32(len) + seq![0x01u8, 0x00u8, 0x16u8, 0x01u8] + le_bytes64(ntp) + le_bytes32(
        size.video_w,
    ) + le_bytes32(size.video_h) + zeros(16) + le_bytes32(size.video_w) + le_bytes32(size.video_h)
        + zeros(8) + le_bytes32(size.display_w) + le_bytes32(size.display_h) + zeros(64)
}

/// The header of a packet that carries a frame.
pub open spec fn frame_header(len: u32, keyframe: bool, ntp: u64) -> Seq<u8> {
    le_bytes32(len) + seq![
        0u8,
        if keyframe {
            0x10u8
        } else {
            0u8
        },
        0u8,
        0u8,
    ] + le_bytes64(ntp) + zeros(112)
}

/// The packet that keeps the channel alive.
pub open spec fn heartbeat() -> Seq<u8> {
    seq![0u8, 0u8, 0u8, 0u8, 0x02u8, 0u8, 0x1eu8, 0u8] + zeros(120)
}

/// Builds the packet that keeps the channel alive.
pub fn data_heartbeat() -> (r: Vec<u8>)
    ensures
        r@ == heartbeat(),
        r@.len() == 128,
{
    let mut out: Vec<u8> = vec![0u8, 0u8, 0u8, 0u8, 0x02u8, 0u8, 0x1eu8, 0u8];
    assert(out@ =~= seq![0u8, 0u8, 0u8, 0u8, 0x02u8, 0u8, 0x1eu8, 0u8]);
    extend_zeros(&mut out, 120);
    out
}

fn build_codec_header(len: u32, ntp: u64, size: SizeBits) -> (r: Vec<u8>)
    ensures
        r@ == codec_header(len, ntp, size),
        r@.len() == 128,
{
    let mut out: Vec<u8> = Vec::new();
    extend_le32(&mut out, len);
    let kind: [u8; 4] = [0x01u8, 0x00u8, 0x16u8, 0x01u8];
    assert(kind@ =~= seq![0x01u8, 0x00u8, 0x16u8, 0x01u8]);
    extend(&mut out, &kind);
    extend_le64(&mut out, ntp);
    extend_le32(&mut out, size.video_w);
    extend_le32(&mut out, size.video_h);
    extend_zeros(&mut out, 16);
    extend_le32(&mut out, size.video_w);
    extend_le32(&mut out, size.video_h);
    extend_zeros(&mut out, 8);
    extend_le32(&mut out, size.display_w);
    extend_le32(&mut out, size.display_h);
    extend_zeros(&mut out, 64);
    assert(Seq::<u8>::empty() + le_bytes32(len) =~= le_bytes32(len));
    out
}

fn build_frame_header(len: u32, keyframe: bool, ntp: u64) -> (r: Vec<u8>)
    ensures
        r@ == frame_header(len, keyframe, ntp),
        r@.len() == 128,
{
    let mut out: Vec<u8> = Vec::new();
    extend_le32(&mut out, len);
    let key: u8 = if keyframe {
        0x10
    } else {
        0
    };
    let kind: [u8; 4] = [0u8, key, 0u8, 0u8];
    assert(kind@ =~= seq![0u8, key, 0u8, 0u8]);
    extend(&mut out, &kind);
    extend_le64(&mut out, ntp);
    extend_zeros(&mut out, 112);
    assert(Seq::<u8>::empty() + le_bytes32(len) =~= le_bytes32(len));
    out
}

/// The video channel: its cipher, and the sizes that its packets state.
pub struct DataChannel {
    pub cipher: VideoCipher,
    /// How many packets were built, wrapping.
    pub frame_seq: u32,
    pub display_w: i32,
    pub display_h: i32,
    pub video_w: i32,
    pub video_h: i32,
}

/// The presentation size: as the receiver states it if both sides are positive, else that of the
/// encoded picture.
pub open spec fn presentation(display: (i32, i32), video: (i32, i32)) -> (i32, i32) {
    if display.0 <= 0 || display.1 <= 0 {
        video
    } else {
        display
    }
}

impl DataChannel {
    pub open spec fn wf(&self) -> bool {
        self.cipher.wf()
    }

    pub fn new(cipher: VideoCipher, display_w: i32, display_h: i32) -> (r: DataChannel)
        requires
            cipher.wf(),
        ensures
            r.wf(),
            r.cipher == cipher,
            r.frame_seq == 0,
            r.display_w == display_w,
            r.display_h == display_h,
            r.video_w == 0,
            r.video_h == 0,
    {
        DataChannel { cipher, frame_seq: 0, display_w, display_h, video_w: 0, video_h: 0 }
    }

    /// The presentation size that the next decoder configuration states.
    pub fn presentation_size(&self) -> (r: (i32, i32))
        ensures
            r == presentation((self.display_w, self.display_h), (self.video_w, self.video_h)),
    {
        if self.display_w <= 0 || self.display_h <= 0 {
            (self.video_w, self.video_h)
        } else {
            (self.display_w, self.display_h)
        }
    }

    /// The packet with the decoder configuration, which goes in the clear.
    pub fn codec_packet(&mut self, payload: &[u8], ntp: u64, size: SizeBits) -> (r: Vec<u8>)
        ensures
            r@ == codec_header(low32(payload@.len() as usize), ntp, size) + payload@,
            *final(self) == (DataChannel {
                frame_seq: old(self).frame_seq.wrapping_add(1),
                ..*old(self)
            }),
    {
        self.frame_seq = self.frame_seq.wrapping_add(1);
        let mut out: Vec<u8> = build_codec_header(low32(payload.len()), ntp, size);
        extend(&mut out, payload);
        out
    }

    /// The packet with a frame, encrypted; `None` when the cipher cannot take it. The header states
    /// the length of what follows it.
    pub fn frame_packet(&mut self, frame: &[u8], keyframe: bool, ntp: u64) -> (r: Option<Vec<u8>>)
        requires
            old(self).wf(),
            frame@.len() + 16 <= usize::MAX,
        ensures
            final(self).wf(),
            ({
                let before = old(self).cipher@;
                let header = frame_header(
                    low32((frame@.len() + before.overhead()) as usize),
                    keyframe,
                    ntp,
                );
                match sealed_frame(before, header, frame@) {
                    Some((bytes, next)) => r matches Some(out) && out@ == header + bytes
                        && final(self).cipher@ == next && out@.len() == 128 + frame@.len() + before.overhead(),
                    None => r is None && final(self).cipher@ == before,
                }
            }),
            final(self).frame_seq == old(self).frame_seq.wrapping_add(1),
            final(self).display_w == old(self).display_w,
            final(self).display_h == old(self).display_h,
            final(self).video_w == old(self).video_w,
            final(self).video_h == old(self).video_h,
    {
        self.frame_seq = self.frame_seq.wrapping_add(1);
        let size: usize = frame.len() + self.cipher.overhead();
        let header: Vec<u8> = build_frame_header(low32(size), keyframe, ntp);
        match self.cipher.seal(header.as_slice(), frame) {
            None => None,
            Some(payload) => {
                let mut out: Vec<u8> = header;
                extend(&mut out, payload.as_slice());
                Some(out)
            },
        }
    }
}

/// A random identifier's text in lower case, in groups of 8, 4, 4, 4 and 12 digits.
pub open spec fn lower_uuid_text(b: Seq<u8>) -> Seq<char> {
    hex_of(b.subrange(0, 4)) + seq!['-'] + hex_of(b.subrange(4, 6)) + seq!['-'] + hex_of(
        b.subrange(6, 8),
    ) + seq!['-'] + hex_of(b.subrange(8, 10)) + seq!['-'] + hex_of(b.subrange(10, 16))
}

/// The lower-case UUID that 16 random bytes give.
pub fn format_lower_uuid(random: &[u8; 16]) -> (r: String)
    ensures
        r@ == lower_uuid_text(crate::pairing::uuid_bytes(random@)),
{
    let mut b: [u8; 16] = *random;
    b[6] = (b[6] & 0x0f) | 0x40;
    b[8] = (b[8] & 0x3f) | 0x80;
    assert(b@ =~= crate::pairing::uuid_bytes(random@));
    let mut out: String = hex_encode(slice_subrange(&b, 0, 4));
    out.push('-');
    out.push_str(hex_encode(slice_subrange(&b, 4, 6)).as_str());
    out.push('-');
    out.push_str(hex_encode(slice_subrange(&b, 6, 8)).as_str());
    out.push('-');
    out.push_str(hex_encode(slice_subrange(&b, 8, 10)).as_str());
    out.push('-');
    out.push_str(hex_encode(slice_subrange(&b, 10, 16)).as_str());
    assert(out@ =~= lower_uuid_text(b@));
    out
}

/// A fresh UUID in lower case.
pub fn generate_uuid() -> (r: String)
    ensures
        exists|random: Seq<u8>|
            random.len() == 16 && r@ == #[trigger] lower_uuid_text(
                crate::pairing::uuid_bytes(random),
            ),
{
    let random: [u8; 16] = crate::bytes::array16(random_bytes(16).as_slice());
    format_lower_uuid(&random)
}

/// The characters of an identifier that count towards its address: all but the dashes.
pub open spec fn undashed(s: Seq<char>) -> Seq<char>
    decreases s.len(),
{
    if s.len() == 0 {
        s
    } else if s.last() == '-' {
        undashed(s.drop_last())
    } else {
        undashed(s.drop_last()).push(s.last())
    }
}

/// Where the two bytes end that start at place `i`: behind one character of two bytes, or behind two
/// of one. `None` when they cut a character.
pub open spec fn pair_end(hex: Seq<char>, i: int) -> Option<int> {
    if 0 <= i < hex.len() && 0x80 <= hex[i] as u32 && (hex[i] as u32) < 0x800 {
        Some(i + 1)
    } else if 0 <= i && i + 1 < hex.len() && (hex[i] as u32) < 0x80 && (hex[i + 1] as u32) < 0x80 {
        Some(i + 2)
    } else {
        None
    }
}

/// The next `n` pairs of bytes from place `i` on, each with a colon before it.
pub open spec fn pairs_from(hex: Seq<char>, i: int, n: nat) -> Option<Seq<char>>
    decreases n,
{
    if n == 0 {
        Some(Seq::empty())
    } else {
        match pair_end(hex, i) {
            Some(end) => match pairs_from(hex, end, (n - 1) as nat) {
                Some(rest) => Some(seq![':'] + hex.subrange(i, end) + rest),
                None => None,
            },
            None => None,
        }
    }
}

/// The address that stands for the digits of an identifier: locally administered, the rest from the
/// third to the twelfth byte, in upper case; a fixed one when there are fewer bytes. `None` when a
/// pair of the twelve bytes cuts a character.
pub open spec fn mac_for(hex: Seq<char>) -> Option<Seq<char>> {
    if encode_utf8(hex).len() < 12 {
        Some("02:00:00:00:00:01"@)
    } else {
        match pair_end(hex, 0) {
            Some(first) => match pairs_from(hex, first, 5) {
                Some(rest) => Some(uppercase_of("02"@ + rest)),
                None => None,
            },
            None => None,
        }
    }
}

/// The address that stands for an identifier.
pub open spec fn mac_of(id: Seq<char>) -> Option<Seq<char>> {
    mac_for(undashed(lowercase_of(id)))
}

/// The address that stands for digits in ASCII: locally administered, the rest from the third to the
/// twelfth character; a fixed one when there are fewer.
pub open spec fn ascii_mac(hex: Seq<char>) -> Seq<char> {
    if hex.len() < 12 {
        "02:00:00:00:00:01"@
    } else {
        Seq::new(
            17,
            |i: int|
                if i % 3 == 2 {
                    ':'
                } else if i == 0 {
                    '0'
                } else if i == 1 {
                    '2'
                } else {
                    upper(hex[i - i / 3])
                },
        )
    }
}

proof fn lemma_ascii_pairs(hex: Seq<char>, i: int, n: nat)
    requires
        is_ascii_chars(hex),
        0 <= i,
        i + 2 * n <= hex.len(),
    ensures
        pairs_from(hex, i, n) == Some(
            Seq::new(
                3 * n,
                |k: int|
                    if k % 3 == 0 {
                        ':'
                    } else {
                        hex[i + k - k / 3 - 1]
                    },
            ),
        ),
    decreases n,
{
    let want = Seq::new(
        3 * n,
        |k: int|
            if k % 3 == 0 {
                ':'
            } else {
                hex[i + k - k / 3 - 1]
            },
    );
    if n > 0 {
        lemma_ascii_pairs(hex, i + 2, (n - 1) as nat);
        let rest = pairs_from(hex, i + 2, (n - 1) as nat)->Some_0;
        assert(pair_end(hex, i) == Some(i + 2));
        assert(seq![':'] + hex.subrange(i, i + 2) + rest =~= want);
    } else {
        assert(want =~= Seq::empty());
    }
}

/// In ASCII no pair of bytes cuts a character.
proof fn lemma_ascii_mac(hex: Seq<char>)
    requires
        is_ascii_chars(hex),
    ensures
        encode_utf8(hex).len() == hex.len(),
        hex.len() >= 12 ==> {
            &&& pair_end(hex, 0) == Some(2int)
            &&& pairs_from(hex, 2, 5) is Some
            &&& is_ascii_chars("02"@ + pairs_from(hex, 2, 5)->Some_0)
            &&& uppered("02"@ + pairs_from(hex, 2, 5)->Some_0) == ascii_mac(hex)
        },
{
    vstd::utf8::is_ascii_chars_encode_utf8(hex);
    if hex.len() >= 12 {
        lemma_ascii_pairs(hex, 2, 5);
        reveal_strlit("02");
        let all = "02"@ + pairs_from(hex, 2, 5)->Some_0;
        assert(all.len() == 17);
        assert(uppered(all) =~= ascii_mac(hex));
    }
}

proof fn lemma_upper_lower(c: char)
    ensures
        upper(lower(c)) == upper(c),
        lower(c) == '-' <==> c == '-',
        c <= '\u{7f}' ==> lower(c) <= '\u{7f}',
{
}

proof fn lemma_undashed_lower(s: Seq<char>)
    ensures
        undashed(lowered(s)) == lowered(undashed(s)),
        is_ascii_chars(s) ==> is_ascii_chars(undashed(s)),
    decreases s.len(),
{
    if s.len() > 0 {
        lemma_undashed_lower(s.drop_last());
        lemma_upper_lower(s.last());
        assert(lowered(s).drop_last() =~= lowered(s.drop_last()));
        assert(undashed(lowered(s)) =~= lowered(undashed(s)));
    } else {
        assert(undashed(lowered(s)) =~= lowered(undashed(s)));
    }
}

/// An identifier in ASCII gives the same address in lower case.
proof fn lemma_ascii_lower(id: Seq<char>)
    requires
        is_ascii_chars(id),
    ensures
        is_ascii_chars(undashed(lowered(id))),
        ascii_mac(undashed(lowered(id))) == ascii_mac(undashed(id)),
{
    lemma_undashed_lower(id);
    let hex = undashed(id);
    assert forall|i: int| 0 <= i < hex.len() implies upper(#[trigger] lowered(hex)[i]) == upper(
        hex[i],
    ) && lowered(hex)[i] <= '\u{7f}' by {
        lemma_upper_lower(hex[i]);
    }
    assert(ascii_mac(lowered(hex)) =~= ascii_mac(hex));
}

fn undash(all: &[char]) -> (r: Vec<char>)
    ensures
        r@ == undashed(all@),
{
    let mut hex: Vec<char> = Vec::new();
    let mut i: usize = 0;
    while i < all.len()
        invariant
            i <= all@.len(),
            hex@ == undashed(all@.take(i as int)),
        decreases all.len() - i,
    {
        let ghost next = all@.take(i + 1);
        assert(next.drop_last() =~= all@.take(i as int));
        assert(next.last() == all@[i as int]);
        if all[i] != '-' {
            hex.push(all[i]);
        }
        i += 1;
    }
    assert(all@.take(i as int) =~= all@);
    hex
}

fn find_pair_end(hex: &[char], i: usize) -> (r: Option<usize>)
    requires
        i <= hex@.len(),
    ensures
        match pair_end(hex@, i as int) {
            Some(end) => r matches Some(e) && e == end && end <= hex@.len(),
            None => r is None,
        },
{
    if i >= hex.len() {
        return None;
    }
    let c: u32 = hex[i] as u32;
    if c >= 0x80 && c < 0x800 {
        return Some(i + 1);
    }
    if hex.len() - i > 1 && c < 0x80 && (hex[i + 1] as u32) < 0x80 {
        return Some(i + 2);
    }
    None
}

/// A text that is continued, if there is a continuation.
spec fn continued(before: Seq<char>, rest: Option<Seq<char>>) -> Option<Seq<char>> {
    match rest {
        Some(more) => Some(before + more),
        None => None,
    }
}

/// The address that stands for the digits of an identifier.
pub fn mac_from(hex: &[char]) -> (r: Option<String>)
    ensures
        match mac_for(hex@) {
            Some(mac) => r matches Some(s) && s@ == mac,
            None => r is None,
        },
        is_ascii_chars(hex@) ==> r is Some && r->Some_0@ == ascii_mac(hex@),
{
    proof {
        if is_ascii_chars(hex@) {
            lemma_ascii_mac(hex@);
        }
    }
    if from_chars(hex).as_str().as_bytes().len() < 12 {
        return Some("02:00:00:00:00:01".to_owned());
    }
    let mut at: usize = match find_pair_end(hex, 0) {
        Some(end) => end,
        None => {
            return None;
        },
    };
    let ghost want = continued("02"@, pairs_from(hex@, at as int, 5));
    let mut out: String = "02".to_owned();
    let mut left: u8 = 5;
    while left > 0
        invariant
            at <= hex@.len(),
            left <= 5,
            want == continued(out@, pairs_from(hex@, at as int, left as nat)),
            want is None ==> mac_for(hex@) is None && !is_ascii_chars(hex@),
        decreases left,
    {
        let end: usize = match find_pair_end(hex, at) {
            Some(end) => end,
            None => {
                return None;
            },
        };
        let ghost before = out@;
        let ghost rest = pairs_from(hex@, end as int, (left - 1) as nat);
        out.push(':');
        out.push_str(from_chars(slice_subrange(hex, at, end)).as_str());
        proof {
            if let Some(more) = rest {
                assert(before + (seq![':'] + hex@.subrange(at as int, end as int) + more) =~= out@
                    + more);
            }
        }
        at = end;
        left = left - 1;
    }
    assert(out@ + Seq::<char>::empty() =~= out@);
    Some(to_uppercase(out.as_str()))
}

/// The address that stands for an identifier. A pair of its bytes may cut no character.
pub fn uuid_to_mac(id: &str) -> (r: String)
    requires
        mac_of(id@) is Some,
    ensures
        mac_of(id@) == Some(r@),
        is_ascii_chars(id@) ==> r@ == ascii_mac(undashed(id@)),
{
    let lower: String = to_lowercase(id);
    let hex: Vec<char> = undash(chars(lower.as_str()).as_slice());
    proof {
        if is_ascii_chars(id@) {
            lemma_ascii_lower(id@);
        }
    }
    mac_from(hex.as_slice()).unwrap()
}

/// The address that stands for an identifier; `None` when a pair of its bytes cuts a character, which
/// none does in ASCII.
pub fn checked_mac(id: &str) -> (r: Option<String>)
    ensures
        match mac_of(id@) {
            Some(mac) => r matches Some(s) && s@ == mac,
            None => r is None,
        },
        is_ascii_chars(id@) ==> r is Some && r->Some_0@ == ascii_mac(undashed(id@)),
{
    let lower: String = to_lowercase(id);
    let hex: Vec<char> = undash(chars(lower.as_str()).as_slice());
    proof {
        if is_ascii_chars(id@) {
            lemma_ascii_lower(id@);
        }
    }
    if mac_from(hex.as_slice()).is_some() {
        Some(uuid_to_mac(id))
    } else {
        None
    }
}

/// Whether `count` consecutive ports fit from a base port on.
pub fn ports_fit(base: u16, count: u16) -> (r: bool)
    ensures
        r == (base != 0 && (count == 0 || base + count - 1 <= u16::MAX)),
{
    base != 0 && (count == 0 || base as u32 + count as u32 - 1 <= u16::MAX as u32)
}

/// Whether a port is clear of the three ports from a base port on; a base of 0 keeps none clear.
pub fn port_is_clear(port: u16, skip_base: u16) -> (r: bool)
    ensures
        r == (skip_base == 0 || port < skip_base || port > skip_base + 2),
{
    skip_base == 0 || port < skip_base || port as u32 > skip_base as u32 + 2
}

/// The time at which something is shown that is due so many nanoseconds after now.
pub open spec fn ntp_ahead(elapsed: int, bias: int) -> u64 {
    let ahead = if bias < MIN_TARGET_LATENCY {
        MIN_TARGET_LATENCY as int
    } else {
        bias
    };
    ntp_of((elapsed + ahead) / 1_000_000_000, (elapsed + ahead) % 1_000_000_000)
}

} // verus!
