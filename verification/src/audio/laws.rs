//! What the packets of the sound bring to the receiver.
use crate::audio::aead::{audio_opened, audio_sealed, cbc_payload, lemma_audio_opens};
use crate::audio::alac::{alac_frame, bits_of, byte_at, frame_bits, packed, sample_bits};
use crate::audio::sender::{frame_sent, resends, sender_started, time_noted, AudioSenderView};
use crate::audio::stream::{
    after_packet, audio_packet, latency_for, monitor_of, sync_packet_of, used_nonce,
    AudioChaChaAadMode, AudioChaChaNonceMode, AudioStream,
};
use crate::bytes::{be_bytes32, le_bytes64};
use crate::crypto::{aes128_cbc_of, chacha_legacy_byte, poly1305_of};
use crate::latency::{clamped, samples_44k1, LatencyTarget};
use crate::mirror::laws::{big32, big64, lemma_bytes_write_numbers, little32, little64};
use crate::text::{is_space, trimmed};
use vstd::prelude::*;

verus! {

/// The sample that plays now stands the playout latency behind the newest one, and the time at which
/// it plays between the two. Before the stream is that long, both are the newest.
pub proof fn law_sync_packet(s: AudioStream, ntp_time: u64, is_first: bool)
    ensures
        ({
            let p = sync_packet_of(s, ntp_time, is_first);
            &&& p.len() == 20
            &&& p[0] == (if is_first {
                0x90u8
            } else {
                0x80u8
            })
            &&& p[1] == 0xd4 && p[2] == 0 && p[3] == 4
            &&& big32(p, 16) == s.rtp_time
            &&& s.rtp_time >= s.latency_samples ==> big32(p, 4) + s.latency_samples == big32(p, 16)
            &&& s.rtp_time < s.latency_samples ==> big32(p, 4) == big32(p, 16)
            &&& big64(p, 8) == ntp_time
        }),
{
    let p = sync_packet_of(s, ntp_time, is_first);
    let playing = if s.rtp_time >= s.latency_samples {
        (s.rtp_time - s.latency_samples) as u32
    } else {
        s.rtp_time
    };
    lemma_bytes_write_numbers(playing, ntp_time);
    lemma_bytes_write_numbers(s.rtp_time, ntp_time);
    assert(p.subrange(4, 8) =~= be_bytes32(playing));
    assert(p.subrange(16, 20) =~= be_bytes32(s.rtp_time));
    assert(p.subrange(8, 16) =~= crate::mirror::frames::be_bytes64(ntp_time));
    assert(forall|i: int| 0 <= i < 4 ==> p[4 + i] == #[trigger] p.subrange(4, 8)[i]);
    assert(forall|i: int| 0 <= i < 4 ==> p[16 + i] == #[trigger] p.subrange(16, 20)[i]);
    assert(forall|i: int| 0 <= i < 8 ==> p[8 + i] == #[trigger] p.subrange(8, 16)[i]);
    assert(big32(p, 4) == big32(p.subrange(4, 8), 0));
    assert(big32(p, 16) == big32(p.subrange(16, 20), 0));
    assert(big64(p, 8) == big64(p.subrange(8, 16), 0));
}

/// A packet starts with the marks of its kind, its number, its time and its source.
pub proof fn law_packet_header(
    s: AudioStream,
    payload: Seq<u8>,
    rtp_time: u32,
    seq: u16,
    reuse: Option<u64>,
)
    ensures
        ({
            let p = audio_packet(s, payload, rtp_time, seq, reuse);
            &&& p.len() >= 12
            &&& p[0] == 0x80 && p[1] == 0x60
            &&& 0x100 * p[2] + p[3] == seq
            &&& big32(p, 4) == rtp_time
            &&& big32(p, 8) == s.ssrc
            &&& s.chacha is None && (s.aes_key is None || s.aes_iv is None) ==> p.skip(12) == payload
        }),
{
    let p = audio_packet(s, payload, rtp_time, seq, reuse);
    lemma_bytes_write_numbers(rtp_time, 0);
    lemma_bytes_write_numbers(s.ssrc, 0);
    assert(p.subrange(4, 8) =~= be_bytes32(rtp_time));
    assert(p.subrange(8, 12) =~= be_bytes32(s.ssrc));
    assert(forall|i: int| 0 <= i < 4 ==> p[4 + i] == #[trigger] p.subrange(4, 8)[i]);
    assert(forall|i: int| 0 <= i < 4 ==> p[8 + i] == #[trigger] p.subrange(8, 12)[i]);
    assert(big32(p, 4) == big32(p.subrange(4, 8), 0));
    assert(big32(p, 8) == big32(p.subrange(8, 12), 0));
    if s.chacha is None && (s.aes_key is None || s.aes_iv is None) {
        assert(p.skip(12) =~= payload);
    }
}

/// A receiver that holds the key reads a packet of a session with modern encryption: the last eight
/// bytes are the nonce, and what stands before them opens to the payload, with the time and the source
/// of the header as the associated data. Its length says that the tag is whole.
pub proof fn law_receiver_reads_packet(
    s: AudioStream,
    payload: Seq<u8>,
    rtp_time: u32,
    seq: u16,
    reuse: Option<u64>,
)
    requires
        s.chacha is Some,
        s.chacha_aad_mode == AudioChaChaAadMode::TimestampSsrc,
    ensures
        ({
            let p = audio_packet(s, payload, rtp_time, seq, reuse);
            let n = p.len() as int;
            n == 12 + payload.len() + 16 + 8 ==> audio_opened(
                s.chacha->Some_0@,
                p.subrange(n - 8, n),
                p.subrange(12, n - 8),
                p.subrange(4, 12),
            ) == Some(payload)
        }),
{
    let p = audio_packet(s, payload, rtp_time, seq, reuse);
    let n = p.len() as int;
    let key = s.chacha->Some_0@;
    let nonce = le_bytes64(used_nonce(s, seq, rtp_time, reuse));
    let header = crate::audio::stream::rtp_header(seq, rtp_time, s.ssrc);
    let aad = header.subrange(4, 12);
    let sealed = audio_sealed(key, nonce, payload, aad);
    lemma_bytes_write_numbers(0, used_nonce(s, seq, rtp_time, reuse));
    assert(header.len() == 12);
    assert(p.subrange(4, 12) =~= aad);
    assert(p.subrange(12, n - 8) =~= sealed);
    assert(p.subrange(n - 8, n) =~= nonce);
    if n == 12 + payload.len() + 16 + 8 {
        lemma_audio_opens(key, nonce, payload, aad);
    }
}

/// The nonce that a packet carries: the counter, the number of the packet, one less, or its time; a
/// packet that is sent again carries the one that it had.
pub proof fn law_packet_nonce(
    s: AudioStream,
    payload: Seq<u8>,
    rtp_time: u32,
    seq: u16,
    reuse: Option<u64>,
)
    requires
        s.chacha is Some,
    ensures
        ({
            let p = audio_packet(s, payload, rtp_time, seq, reuse);
            let carried = little64(p, p.len() - 8);
            &&& reuse matches Some(v) ==> carried == v
            &&& reuse is None ==> match s.chacha_nonce_mode {
                AudioChaChaNonceMode::Counter => carried == s.chacha_nonce,
                AudioChaChaNonceMode::Sequence => carried == seq,
                AudioChaChaNonceMode::SeqZeroBased => carried == (if seq == 0 {
                    0
                } else {
                    seq - 1
                }),
                AudioChaChaNonceMode::Rtp => carried == rtp_time,
            }
        }),
{
    let p = audio_packet(s, payload, rtp_time, seq, reuse);
    let n = p.len() as int;
    let v = used_nonce(s, seq, rtp_time, reuse);
    lemma_bytes_write_numbers(0, v);
    assert(p.subrange(n - 8, n) =~= le_bytes64(v));
    assert(forall|i: int| 0 <= i < 8 ==> p[n - 8 + i] == #[trigger] p.subrange(n - 8, n)[i]);
    assert(little64(p, n - 8) == little64(p.subrange(n - 8, n), 0));
}

/// The channel behind so many new packets.
pub open spec fn after_packets(s: AudioStream, n: nat) -> AudioStream
    decreases n,
{
    if n == 0 {
        s
    } else {
        after_packet(after_packets(s, (n - 1) as nat), None)
    }
}

/// In counter mode the new packets carry the numbers from the first nonce on, none left out; nothing
/// else of the channel changes, and a packet that is sent again uses none up.
pub proof fn law_counter_counts(s: AudioStream, n: nat, reuse: u64)
    requires
        s.chacha is Some,
        s.chacha_nonce_mode == AudioChaChaNonceMode::Counter,
        s.chacha_nonce + n <= u64::MAX,
    ensures
        after_packets(s, n) == (AudioStream { chacha_nonce: (s.chacha_nonce + n) as u64, ..s }),
        after_packet(s, Some(reuse)) == s,
    decreases n,
{
    if n > 0 {
        law_counter_counts(s, (n - 1) as nat, reuse);
    }
}

/// Sealing takes block 0 of the keystream for the tag and the blocks from 1 on for the message; the
/// tag covers the associated data and the ciphertext, each filled up with zeros to whole blocks, and
/// their lengths.
pub proof fn law_sealed_message(
    key: Seq<u8>,
    nonce: Seq<u8>,
    message: Seq<u8>,
    aad: Seq<u8>,
    lengths: Seq<u8>,
)
    requires
        lengths.len() == 16,
        little64(lengths, 0) == aad.len(),
        little64(lengths, 8) == message.len(),
    ensures
        ({
            let sealed = audio_sealed(key, nonce, message, aad);
            let n = message.len() as int;
            let fill = |m: nat| Seq::new(((16 - m % 16) % 16) as nat, |i: int| 0u8);
            &&& sealed.len() >= n
            &&& forall|i: int|
                0 <= i < n ==> #[trigger] sealed[i] == message[i] ^ chacha_legacy_byte(
                    key,
                    nonce,
                    (64 + i) as nat,
                )
            &&& sealed.skip(n) == poly1305_of(
                Seq::new(32, |i: int| chacha_legacy_byte(key, nonce, i as nat)),
                aad + fill(aad.len()) + sealed.take(n) + fill(message.len()) + lengths,
            )
        }),
{
    let sealed = audio_sealed(key, nonce, message, aad);
    let n = message.len() as int;
    let fill = |m: nat| Seq::new(((16 - m % 16) % 16) as nat, |i: int| 0u8);
    let ct = crate::audio::aead::chacha_applied(key, nonce, message);
    assert(sealed.take(n) =~= ct);
    let a = aad.len() as u64;
    let b = message.len() as u64;
    lemma_bytes_write_numbers(0, a);
    lemma_bytes_write_numbers(0, b);
    assert(lengths =~= le_bytes64(a) + le_bytes64(b)) by {
        let w = le_bytes64(a) + le_bytes64(b);
        assert(w.subrange(0, 8) =~= le_bytes64(a));
        assert(w.subrange(8, 16) =~= le_bytes64(b));
        assert(forall|i: int| 0 <= i < 8 ==> w[i] == le_bytes64(a)[i]);
        assert(forall|i: int| 0 <= i < 8 ==> w[8 + i] == le_bytes64(b)[i]);
        lemma_eight_bytes(lengths, 0, le_bytes64(a), 0);
        lemma_eight_bytes(lengths, 8, le_bytes64(b), 0);
        assert forall|i: int| 0 <= i < 16 implies lengths[i] == w[i] by {
            if i >= 8 {
                assert(w[i] == le_bytes64(b)[i - 8]);
                assert(lengths[8 + (i - 8)] == le_bytes64(b)[i - 8]);
            } else {
                assert(lengths[0 + i] == le_bytes64(a)[0 + i]);
            }
        }
    }
    assert(aad + fill(aad.len()) + sealed.take(n) + fill(message.len()) + lengths
        =~= crate::audio::aead::tag_input(aad, ct));
    assert(sealed.skip(n) =~= crate::audio::aead::tag_of(key, nonce, aad, ct));
}

proof fn lemma_four_bytes(b: Seq<u8>, i: int, v: int)
    requires
        v == little32(b, i),
    ensures
        0 <= v < 0x1_0000_0000,
        b[i] == v % 0x100,
        b[i + 1] == v / 0x100 % 0x100,
        b[i + 2] == v / 0x1_0000 % 0x100,
        b[i + 3] == v / 0x100_0000,
{
}

#[verifier::rlimit(100)]
#[verifier::spinoff_prover]
pub(crate) proof fn lemma_eight_bytes(a: Seq<u8>, i: int, b: Seq<u8>, j: int)
    requires
        little64(a, i) == little64(b, j),
    ensures
        forall|k: int| 0 <= k < 8 ==> #[trigger] a[i + k] == b[j + k],
{
    lemma_four_bytes(a, i, little32(a, i));
    lemma_four_bytes(b, j, little32(b, j));
    lemma_four_bytes(a, i + 4, little32(a, i + 4));
    lemma_four_bytes(b, j + 4, little32(b, j + 4));
    assert(little32(a, i) == little32(b, j));
    assert(little32(a, i + 4) == little32(b, j + 4));
    assert(a[i + 4] == b[j + 4] && a[(i + 4) + 1] == b[(j + 4) + 1] && a[(i + 4) + 2] == b[(j + 4)
        + 2] && a[(i + 4) + 3] == b[(j + 4) + 3]);
    assert(a[i] == b[j] && a[i + 1] == b[j + 1] && a[i + 2] == b[j + 2] && a[i + 3] == b[j + 3]);
    assert forall|k: int| 0 <= k < 8 implies #[trigger] a[i + k] == b[j + k] by {
        assert(k == 0 || k == 1 || k == 2 || k == 3 || k == 4 || k == 5 || k == 6 || k == 7);
    }
}

/// Without modern encryption the whole blocks of a payload are encrypted, and what is left over goes
/// in the clear.
pub proof fn law_legacy_payload(key: Seq<u8>, iv: Seq<u8>, blocks: nat, data: Seq<u8>)
    requires
        16 * blocks <= data.len() < 16 * blocks + 16,
        cbc_payload(key, iv, data).len() == data.len(),
    ensures
        blocks == 0 ==> cbc_payload(key, iv, data) == data,
        blocks > 0 ==> cbc_payload(key, iv, data).take(16 * blocks as int) == aes128_cbc_of(
            key,
            iv,
            data.take(16 * blocks as int),
        ),
        cbc_payload(key, iv, data).skip(16 * blocks as int) == data.skip(16 * blocks as int),
{
    let c = cbc_payload(key, iv, data);
    let whole = 16 * blocks as int;
    assert(data.len() as int - data.len() as int % 16 == whole);
    if blocks > 0 {
        assert(c.take(whole) =~= aes128_cbc_of(key, iv, data.take(whole)));
        assert(c.skip(whole) =~= data.skip(whole));
    }
}

/// A bit of a byte string, the highest of each byte first.
pub open spec fn bit_in(b: Seq<u8>, p: int) -> bool {
    let v = b[p / 8] as int;
    let place = p % 8;
    if place == 0 {
        v / 128 % 2 == 1
    } else if place == 1 {
        v / 64 % 2 == 1
    } else if place == 2 {
        v / 32 % 2 == 1
    } else if place == 3 {
        v / 16 % 2 == 1
    } else if place == 4 {
        v / 8 % 2 == 1
    } else if place == 5 {
        v / 4 % 2 == 1
    } else if place == 6 {
        v / 2 % 2 == 1
    } else {
        v % 2 == 1
    }
}

proof fn lemma_bit_in_packed(bits: Seq<bool>, p: int)
    requires
        0 <= p < bits.len(),
    ensures
        bit_in(packed(bits), p) == bits[p],
        p / 8 < packed(bits).len(),
{
    let k = p / 8;
    assert(packed(bits)[k] == byte_at(bits, k));
    assert(8 * k + p % 8 == p);
}

proof fn lemma_sample_place(pcm: Seq<u8>, n: nat, k: int, j: int)
    requires
        0 <= k < n,
        0 <= j < 16,
    ensures
        sample_bits(pcm, n, 16).len() == 16 * n,
        sample_bits(pcm, n, 16)[16 * k + j] == (((pcm[2 * k] + 0x100 * pcm[2 * k
            + 1]) as u32 >> ((15 - j) as u32)) & 1 == 1),
    decreases n,
{
    crate::audio::alac::lemma_sample_bits_len(pcm, n, 16);
    if k < n - 1 {
        crate::audio::alac::lemma_sample_bits_len(pcm, (n - 1) as nat, 16);
        lemma_sample_place(pcm, (n - 1) as nat, k, j);
    } else {
        crate::audio::alac::lemma_sample_bits_len(pcm, (n - 1) as nat, 16);
    }
}

/// A frame of stereo sound in 16 bits: it says that it is a pair of channels, that it states how many
/// samples a channel has and that they are not compressed; then come the samples as they were
/// captured, the highest bit first, each of two bytes with the lower one first; three set bits end it.
#[verifier::rlimit(100)]
#[verifier::spinoff_prover]
pub proof fn law_stereo_frame(pcm: Seq<u8>, frame_size: nat, k: int, j: int, q: int)
    requires
        frame_size < 0x1_0000_0000,
        0 <= k < 2 * frame_size,
        0 <= j < 16,
        0 <= q < 32,
    ensures
        ({
            let f = alac_frame(pcm, frame_size, 2, 16);
            &&& f.len() == (58 + 32 * frame_size + 7) / 8
            &&& !bit_in(f, 0) && !bit_in(f, 1) && bit_in(f, 2)
            &&& forall|p: int| 3 <= p < 19 ==> !#[trigger] bit_in(f, p)
            &&& bit_in(f, 19) && !bit_in(f, 20) && !bit_in(f, 21) && bit_in(f, 22)
            &&& bit_in(f, 23 + q) == ((frame_size as u32 >> ((31 - q) as u32)) & 1 == 1)
            &&& bit_in(f, 55 + 16 * k + j) == (((pcm[2 * k] + 0x100 * pcm[2 * k
                + 1]) as u32 >> ((15 - j) as u32)) & 1 == 1)
            &&& bit_in(f, 55 + 32 * frame_size as int) && bit_in(f, 56 + 32 * frame_size as int)
                && bit_in(f, 57 + 32 * frame_size as int)
        }),
{
    let n = 2 * frame_size;
    assert(frame_size * 2 == n);
    let size = crate::bytes::low32(frame_size as usize);
    assert(size == frame_size);
    let bits = frame_bits(pcm, size, n, true, 16);
    crate::audio::alac::lemma_alac_len(pcm, frame_size, 2, 16);
    assert(n * 16 == 32 * frame_size);
    lemma_sample_place(pcm, n, k, j);
    assert(bits.len() == 58 + 32 * frame_size);
    lemma_small_numbers();
    assert(bits[0] == bits_of(1, 3)[0]);
    assert(bits[1] == bits_of(1, 3)[1]);
    assert(bits[2] == bits_of(1, 3)[2]);
    assert(bits[19] == bits_of(1, 1)[0]);
    assert(bits[20] == bits_of(0, 2)[0]);
    assert(bits[21] == bits_of(0, 2)[1]);
    assert(bits[22] == bits_of(1, 1)[0]);
    assert(bits[23 + q] == bits_of(size, 32)[q]);
    assert(bits[55 + 16 * k + j] == sample_bits(pcm, n, 16)[16 * k + j]);
    assert(bits[55 + 32 * frame_size as int] == bits_of(7, 3)[0]);
    assert(bits[56 + 32 * frame_size as int] == bits_of(7, 3)[1]);
    assert(bits[57 + 32 * frame_size as int] == bits_of(7, 3)[2]);
    lemma_bit_in_packed(bits, 0);
    lemma_bit_in_packed(bits, 1);
    lemma_bit_in_packed(bits, 2);
    lemma_bit_in_packed(bits, 19);
    lemma_bit_in_packed(bits, 20);
    lemma_bit_in_packed(bits, 21);
    lemma_bit_in_packed(bits, 22);
    lemma_bit_in_packed(bits, 23 + q);
    lemma_bit_in_packed(bits, 55 + 16 * k + j);
    lemma_bit_in_packed(bits, 55 + 32 * frame_size as int);
    lemma_bit_in_packed(bits, 56 + 32 * frame_size as int);
    lemma_bit_in_packed(bits, 57 + 32 * frame_size as int);
    let f = alac_frame(pcm, frame_size, 2, 16);
    assert forall|p: int| 3 <= p < 19 implies !#[trigger] bit_in(f, p) by {
        lemma_bit_in_packed(bits, p);
        if p < 7 {
            assert(bits[p] == bits_of(0, 4)[p - 3]);
            lemma_zero_bits((4 - 1 - (p - 3)) as u32);
        } else {
            assert(bits[p] == bits_of(0, 12)[p - 7]);
            lemma_zero_bits((12 - 1 - (p - 7)) as u32);
        }
    }
}

proof fn lemma_small_numbers()
    ensures
        (1u32 >> 0u32) & 1 == 1,
        (1u32 >> 1u32) & 1 == 0,
        (1u32 >> 2u32) & 1 == 0,
        (0u32 >> 0u32) & 1 == 0,
        (0u32 >> 1u32) & 1 == 0,
        (7u32 >> 0u32) & 1 == 1,
        (7u32 >> 1u32) & 1 == 1,
        (7u32 >> 2u32) & 1 == 1,
{
    assert((1u32 >> 0u32) & 1 == 1 && (1u32 >> 1u32) & 1 == 0 && (1u32 >> 2u32) & 1 == 0 && (0u32
        >> 0u32) & 1 == 0 && (0u32 >> 1u32) & 1 == 0 && (7u32 >> 0u32) & 1 == 1 && (7u32 >> 1u32)
        & 1 == 1 && (7u32 >> 2u32) & 1 == 1) by (bit_vector);
}

proof fn lemma_zero_bits(n: u32)
    by (bit_vector)
    requires
        n < 32,
    ensures
        (0u32 >> n) & 1 == 0,
{
}

/// A latency is held between 5 milliseconds and 2 seconds; in samples at 44.1 kHz it is the nearest
/// number, at least one.
pub proof fn law_latency(nanos: u128, time: int, target: LatencyTarget, samples: u32)
    requires
        0 <= time <= 2_000_000_000,
    ensures
        5_000_000 <= clamped(nanos) <= 2_000_000_000,
        5_000_000 <= nanos <= 2_000_000_000 ==> clamped(nanos) == nanos,
        nanos < 5_000_000 ==> clamped(nanos) == 5_000_000,
        nanos > 2_000_000_000 ==> clamped(nanos) == 2_000_000_000,
        samples_44k1(time) >= 1,
        time >= 11_338 ==> -500_000_000 <= time * 44_100 - samples_44k1(time) * 1_000_000_000
            < 500_000_000,
        time < 11_338 ==> samples_44k1(time) == 1,
        samples > 0 ==> latency_for(target, samples) == samples,
        target.nanos > 0 ==> latency_for(target, 0) == samples_44k1(target.nanos as int),
        target.nanos <= 0 ==> latency_for(target, 0) == 44,
{
}

/// A sender behind so many frames.
pub open spec fn frames_sent(v: AudioSenderView, payloads: Seq<Seq<u8>>) -> AudioSenderView
    decreases payloads.len(),
{
    if payloads.len() == 0 {
        v
    } else {
        frame_sent(frames_sent(v, payloads.drop_last()), payloads.last())
    }
}

/// The frames of a stream are numbered from 1 on, and each carries the time of its first sample: the
/// latency and the samples of the frames before it.
pub proof fn law_frames_in_order(stream: AudioStream, payloads: Seq<Seq<u8>>, i: int)
    requires
        stream.spf == 352,
    ensures
        ({
            let v = frames_sent(sender_started(stream), payloads);
            &&& v.frame_seq == (1 + payloads.len()) % 0x1_0000
            &&& v.next_rtp == (stream.latency_samples + 352 * payloads.len()) % 0x1_0000_0000
            &&& v.sent.len() == payloads.len()
            &&& 0 <= i < payloads.len() ==> v.sent[i].1 == (stream.latency_samples + 352 * i)
                % 0x1_0000_0000
            &&& v.stream.spf == 352 && v.stream.rtp_time == stream.latency_samples
        }),
    decreases payloads.len(),
{
    if payloads.len() > 0 {
        law_frames_in_order(stream, payloads.drop_last(), i);
        law_frames_in_order(stream, payloads.drop_last(), 0);
    }
}

/// A frame is the packet of its payload under its number and time; without modern encryption the frame
/// that was sent eight before goes out again with it, once there is one.
pub proof fn law_frame(v: AudioSenderView, payload: Seq<u8>)
    ensures
        ({
            let after = frame_sent(v, payload);
            let p = after.sent.last();
            &&& after.sent.drop_last() == v.sent
            &&& p.1 == v.next_rtp
            &&& p.0[0] == 0x80 && p.0[1] == 0x60 && 0x100 * p.0[2] + p.0[3] == v.frame_seq && big32(
                p.0,
                4,
            ) == v.next_rtp
        }),
        resends(v) <==> v.stream.chacha is None && v.sent.len() >= 8,
{
    law_packet_header(v.stream, payload, v.next_rtp, v.frame_seq, None);
    assert(frame_sent(v, payload).sent.drop_last() =~= v.sent);
}

/// The time of the stream is the latest that was sent.
pub proof fn law_time_noted(v: AudioSenderView, rtp_time: u32)
    ensures
        time_noted(v, rtp_time).stream.rtp_time >= rtp_time,
        time_noted(v, rtp_time).stream.rtp_time >= v.stream.rtp_time,
        time_noted(v, rtp_time).stream.rtp_time == rtp_time || time_noted(v, rtp_time) == v,
        time_noted(v, rtp_time).sent == v.sent,
{
}

/// What plays on a sink is heard at the source that has the name of the sink and `.monitor` behind it;
/// without a name there is none.
pub proof fn law_monitor_source(name: Seq<char>)
    requires
        name.len() > 0,
        !is_space(name[0]) && !is_space(name.last()),
    ensures
        monitor_of(name + seq!['\n']) == Some(name + ".monitor"@),
        monitor_of(name) == Some(name + ".monitor"@),
        monitor_of(Seq::empty()) is None,
{
    let printed = name + seq!['\n'];
    assert(printed.drop_last() =~= name);
    assert(printed[0] == name[0]);
    crate::text::laws::law_white_space('\n');
    assert(trimmed(name) == name);
    assert(trimmed(printed) == name);
}

} // verus!
