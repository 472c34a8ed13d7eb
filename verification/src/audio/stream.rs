//! The packets of the audio channel.
use crate::audio::aead::{
    aes_encrypt_audio_payload, audio_sealed, cbc_payload, AudioChaCha64, AUDIO_CHACHA_LIMIT,
};
use crate::audio::alac::AUDIO_SPF;
use crate::bytes::{be_bytes32, extend, extend_be32, extend_le64, le_bytes64};
use crate::latency::{samples_44k1, target_latency_samples_44k1, target_nanos, LatencyTarget};
use crate::mirror::frames::{be_bytes64, extend_be64};
use crate::text::{chars, from_chars, from_utf8_lossy, read_lossy, trim, trimmed};
use vstd::prelude::*;
use vstd::slice::{slice_subrange, slice_to_vec};

verus! {

/// The compression type of ALAC.
pub const AUDIO_CT_ALAC: u8 = 2;

/// How the audio packets are protected.
#[derive(Clone, Copy, Debug, PartialEq, Eq, Structural)]
pub enum AudioSecurityMode {
    LegacyAes,
    ChaCha,
}

/// Where the nonce of a packet comes from.
#[derive(Clone, Copy, Debug, PartialEq, Eq, Structural)]
pub enum AudioChaChaNonceMode {
    Counter,
    Sequence,
    SeqZeroBased,
    Rtp,
}

impl AudioChaChaNonceMode {
    pub open spec fn name(self) -> Seq<char> {
        match self {
            AudioChaChaNonceMode::Sequence => "seq"@,
            AudioChaChaNonceMode::SeqZeroBased => "seq0"@,
            AudioChaChaNonceMode::Rtp => "rtp"@,
            AudioChaChaNonceMode::Counter => "counter"@,
        }
    }

    pub fn as_str(self) -> (r: &'static str)
        ensures
            r@ == self.name(),
    {
        match self {
            AudioChaChaNonceMode::Sequence => "seq",
            AudioChaChaNonceMode::SeqZeroBased => "seq0",
            AudioChaChaNonceMode::Rtp => "rtp",
            AudioChaChaNonceMode::Counter => "counter",
        }
    }
}

/// What of the header is authenticated.
#[derive(Clone, Copy, Debug, PartialEq, Eq, Structural)]
pub enum AudioChaChaAadMode {
    Empty,
    RtpHeader,
    TimestampSsrc,
}

impl AudioChaChaAadMode {
    pub open spec fn name(self) -> Seq<char> {
        match self {
            AudioChaChaAadMode::RtpHeader => "rtp-header"@,
            AudioChaChaAadMode::TimestampSsrc => "timestamp-ssrc"@,
            AudioChaChaAadMode::Empty => "none"@,
        }
    }

    pub fn as_str(self) -> (r: &'static str)
        ensures
            r@ == self.name(),
    {
        match self {
            AudioChaChaAadMode::RtpHeader => "rtp-header",
            AudioChaChaAadMode::TimestampSsrc => "timestamp-ssrc",
            AudioChaChaAadMode::Empty => "none",
        }
    }
}

pub fn default_audio_chacha_nonce_mode() -> (r: AudioChaChaNonceMode)
    ensures
        r == AudioChaChaNonceMode::Counter,
{
    AudioChaChaNonceMode::Counter
}

pub fn default_audio_chacha_aad_mode() -> (r: AudioChaChaAadMode)
    ensures
        r == AudioChaChaAadMode::TimestampSsrc,
{
    AudioChaChaAadMode::TimestampSsrc
}

/// Whether frames are sent twice: not in a session with modern encryption.
pub fn use_audio_fec(modern_encrypted: bool) -> (r: bool)
    ensures
        r == !modern_encrypted,
{
    !modern_encrypted
}

pub open spec fn latency_for(target: LatencyTarget, override_samples: u32) -> int {
    if override_samples > 0 {
        override_samples as int
    } else {
        samples_44k1(target_nanos(target))
    }
}

/// The playout latency in samples: the override if there is one, else the target latency.
pub fn audio_latency_samples_for_codec(
    target: &LatencyTarget,
    ct: u8,
    override_samples: u32,
) -> (r: u32)
    ensures
        r == latency_for(*target, override_samples),
{
    if override_samples > 0 {
        override_samples
    } else {
        target_latency_samples_44k1(target)
    }
}

/// The monitor source of a sink, from the sink's name as it was printed.
pub open spec fn monitor_of(printed: Seq<char>) -> Option<Seq<char>> {
    if trimmed(printed).len() == 0 {
        None
    } else {
        Some(trimmed(printed) + ".monitor"@)
    }
}

/// The monitor source of a sink, from the sink's name as it was printed.
pub fn monitor_name(printed: &str) -> (r: Option<String>)
    ensures
        match monitor_of(printed@) {
            Some(name) => r matches Some(s) && s@ == name,
            None => r is None,
        },
{
    let all: Vec<char> = chars(printed);
    let sink: Vec<char> = trim(all.as_slice());
    if sink.len() == 0 {
        return None;
    }
    let mut name: String = from_chars(sink.as_slice());
    name.push_str(".monitor");
    Some(name)
}

/// The monitor source of the default sink, from what `pactl get-default-sink` printed.
pub fn detect_pulse_monitor(stdout: &[u8]) -> (r: Option<String>)
    ensures
        match monitor_of(read_lossy(stdout@)) {
            Some(name) => r matches Some(s) && s@ == name,
            None => r is None,
        },
{
    let printed: String = from_utf8_lossy(stdout);
    monitor_name(printed.as_str())
}

/// The state of the audio channel.
#[derive(Clone, Copy)]
pub struct AudioStream {
    /// The time of the newest packet, in samples.
    pub rtp_time: u32,
    pub ssrc: u32,
    pub aes_key: Option<[u8; 16]>,
    pub aes_iv: Option<[u8; 16]>,
    pub chacha: Option<AudioChaCha64>,
    pub security_mode: AudioSecurityMode,
    /// The next nonce, in counter mode.
    pub chacha_nonce: u64,
    pub chacha_nonce_mode: AudioChaChaNonceMode,
    pub chacha_aad_mode: AudioChaChaAadMode,
    pub ct: u8,
    pub spf: u16,
    pub latency_samples: u32,
}

/// The header of an audio packet.
pub open spec fn rtp_header(seq: u16, rtp_time: u32, ssrc: u32) -> Seq<u8> {
    seq![0x80u8, 0x60u8, (seq / 0x100) as u8, (seq % 0x100) as u8] + be_bytes32(rtp_time)
        + be_bytes32(ssrc)
}

/// The nonce of a new packet.
pub open spec fn fresh_nonce(s: AudioStream, seq: u16, rtp_time: u32) -> u64 {
    match s.chacha_nonce_mode {
        AudioChaChaNonceMode::Sequence => seq as u64,
        AudioChaChaNonceMode::SeqZeroBased => if seq > 0 {
            (seq - 1) as u64
        } else {
            0
        },
        AudioChaChaNonceMode::Rtp => rtp_time as u64,
        AudioChaChaNonceMode::Counter => s.chacha_nonce,
    }
}

/// The nonce that a packet is sent with: 0 where there is none.
pub open spec fn used_nonce(s: AudioStream, seq: u16, rtp_time: u32, reuse: Option<u64>) -> u64 {
    if s.chacha is None {
        0
    } else {
        match reuse {
            Some(v) => v,
            None => fresh_nonce(s, seq, rtp_time),
        }
    }
}

/// What of the header is authenticated.
pub open spec fn aad_of(mode: AudioChaChaAadMode, header: Seq<u8>) -> Seq<u8> {
    match mode {
        AudioChaChaAadMode::RtpHeader => header,
        AudioChaChaAadMode::TimestampSsrc => header.subrange(4, 12),
        AudioChaChaAadMode::Empty => Seq::empty(),
    }
}

/// A payload as it goes on the wire.
pub open spec fn protected(s: AudioStream, header: Seq<u8>, payload: Seq<u8>, nonce: u64) -> Seq<
    u8,
> {
    match s.chacha {
        Some(cipher) => audio_sealed(
            cipher@,
            le_bytes64(nonce),
            payload,
            aad_of(s.chacha_aad_mode, header),
        ) + le_bytes64(nonce),
        None => match (s.aes_key, s.aes_iv) {
            (Some(key), Some(iv)) => cbc_payload(key@, iv@, payload),
            _ => payload,
        },
    }
}

/// An audio packet.
pub open spec fn audio_packet(
    s: AudioStream,
    payload: Seq<u8>,
    rtp_time: u32,
    seq: u16,
    reuse: Option<u64>,
) -> Seq<u8> {
    let header = rtp_header(seq, rtp_time, s.ssrc);
    header + protected(s, header, payload, used_nonce(s, seq, rtp_time, reuse))
}

/// The state behind a packet: a nonce of the counter is used up.
pub open spec fn after_packet(s: AudioStream, reuse: Option<u64>) -> AudioStream {
    if s.chacha is Some && reuse is None && s.chacha_nonce_mode == AudioChaChaNonceMode::Counter {
        AudioStream { chacha_nonce: s.chacha_nonce.wrapping_add(1), ..s }
    } else {
        s
    }
}

/// The packet that tells the receiver which sample plays at which time.
pub open spec fn sync_packet_of(s: AudioStream, ntp_time: u64, is_first: bool) -> Seq<u8> {
    let now = s.rtp_time;
    let playing = if now >= s.latency_samples {
        (now - s.latency_samples) as u32
    } else {
        now
    };
    seq![
        if is_first {
            0x90u8
        } else {
            0x80u8
        },
        0xd4u8,
        0u8,
        4u8,
    ] + be_bytes32(playing) + be_bytes64(ntp_time) + be_bytes32(now)
}

fn nonce_bytes(value: u64) -> (r: [u8; 8])
    ensures
        r@ == le_bytes64(value),
{
    let mut b: Vec<u8> = Vec::new();
    extend_le64(&mut b, value);
    let r: [u8; 8] = [b[0], b[1], b[2], b[3], b[4], b[5], b[6], b[7]];
    assert(r@ =~= b@);
    assert(b@ =~= le_bytes64(value));
    r
}

impl AudioStream {
    pub fn is_chacha(&self) -> (r: bool)
        ensures
            r == (self.chacha is Some),
    {
        self.chacha.is_some()
    }

    pub fn latency_samples(&self) -> (r: u32)
        ensures
            r == self.latency_samples,
    {
        self.latency_samples
    }

    pub fn spf(&self) -> (r: u16)
        ensures
            r == self.spf,
    {
        self.spf
    }

    /// The name of the protection.
    pub fn security_name(&self) -> (r: &'static str)
        ensures
            r@ == (if self.chacha is Some {
                "chacha20-poly1305-64x64"@
            } else if self.aes_key is Some {
                "aes-128-cbc"@
            } else {
                "none"@
            }),
    {
        if self.chacha.is_some() {
            "chacha20-poly1305-64x64"
        } else if self.aes_key.is_some() {
            "aes-128-cbc"
        } else {
            "none"
        }
    }

    /// The nonce for a packet, the one given if there is one.
    fn next_chacha_nonce(&mut self, seq: u16, rtp_time: u32, reuse: Option<u64>) -> (r: u64)
        requires
            old(self).chacha is Some,
        ensures
            r == used_nonce(*old(self), seq, rtp_time, reuse),
            *final(self) == after_packet(*old(self), reuse),
    {
        match reuse {
            Some(v) => v,
            None => match self.chacha_nonce_mode {
                AudioChaChaNonceMode::Sequence => seq as u64,
                AudioChaChaNonceMode::SeqZeroBased => if seq > 0 {
                    (seq - 1) as u64
                } else {
                    0
                },
                AudioChaChaNonceMode::Rtp => rtp_time as u64,
                AudioChaChaNonceMode::Counter => {
                    let v: u64 = self.chacha_nonce;
                    self.chacha_nonce = v.wrapping_add(1);
                    v
                },
            },
        }
    }

    fn chacha_aad(&self, header: &[u8]) -> (r: Vec<u8>)
        requires
            header@.len() == 12,
        ensures
            r@ == aad_of(self.chacha_aad_mode, header@),
    {
        match self.chacha_aad_mode {
            AudioChaChaAadMode::RtpHeader => slice_to_vec(header),
            AudioChaChaAadMode::TimestampSsrc => slice_to_vec(slice_subrange(header, 4, 12)),
            AudioChaChaAadMode::Empty => {
                let none: Vec<u8> = Vec::new();
                assert(none@ =~= Seq::<u8>::empty());
                none
            },
        }
    }

    /// A packet with a payload, and the nonce that it was made with. A given nonce is used again
    /// as it is, for a packet that is sent once more.
    pub fn packet(&mut self, payload: &[u8], rtp_time: u32, seq: u16, reuse: Option<u64>) -> (r: (
        Vec<u8>,
        u64,
    ))
        requires
            payload@.len() <= AUDIO_CHACHA_LIMIT,
        ensures
            r.0@ == audio_packet(*old(self), payload@, rtp_time, seq, reuse),
            r.1 == used_nonce(*old(self), seq, rtp_time, reuse),
            *final(self) == after_packet(*old(self), reuse),
    {
        let mut header: Vec<u8> = Vec::new();
        header.push(0x80);
        header.push(0x60);
        header.push((seq / 0x100) as u8);
        header.push((seq % 0x100) as u8);
        extend_be32(&mut header, rtp_time);
        extend_be32(&mut header, self.ssrc);
        assert(header@ =~= rtp_header(seq, rtp_time, self.ssrc));
        let mut used: u64 = 0;
        let body: Vec<u8> = match self.chacha {
            Some(cipher) => {
                used = self.next_chacha_nonce(seq, rtp_time, reuse);
                let nonce: [u8; 8] = nonce_bytes(used);
                let aad: Vec<u8> = self.chacha_aad(header.as_slice());
                let mut sealed: Vec<u8> = cipher.seal(&nonce, payload, aad.as_slice());
                extend_le64(&mut sealed, used);
                sealed
            },
            None => match (self.aes_key, self.aes_iv) {
                (Some(key), Some(iv)) => aes_encrypt_audio_payload(&key, &iv, payload),
                _ => slice_to_vec(payload),
            },
        };
        let mut packet: Vec<u8> = header;
        extend(&mut packet, body.as_slice());
        (packet, used)
    }

    /// Notes that a packet was sent: the time of the stream never goes back.
    pub fn sent(&mut self, rtp_time: u32)
        ensures
            *final(self) == (AudioStream {
                rtp_time: if rtp_time >= old(self).rtp_time {
                    rtp_time
                } else {
                    old(self).rtp_time
                },
                ..*old(self)
            }),
    {
        if rtp_time >= self.rtp_time {
            self.rtp_time = rtp_time;
        }
    }

    /// The packet that tells the receiver which sample plays at which time.
    pub fn sync_packet(&self, ntp_time: u64, is_first: bool) -> (r: Vec<u8>)
        ensures
            r@ == sync_packet_of(*self, ntp_time, is_first),
            r@.len() == 20,
    {
        let now: u32 = self.rtp_time;
        let playing: u32 = if now >= self.latency_samples {
            now - self.latency_samples
        } else {
            now
        };
        let mut out: Vec<u8> = Vec::new();
        out.push(
            if is_first {
                0x90
            } else {
                0x80
            },
        );
        out.push(0xd4);
        out.push(0);
        out.push(4);
        extend_be32(&mut out, playing);
        extend_be64(&mut out, ntp_time);
        extend_be32(&mut out, now);
        assert(out@ =~= sync_packet_of(*self, ntp_time, is_first));
        out
    }
}

/// A session with modern encryption came without its key.
#[derive(Clone, Copy, Debug, PartialEq, Eq, Structural)]
pub enum AudioSetupError {
    NoChaChaKey,
}

/// The state of a new audio channel. Its AES key and its other cipher exclude each other.
pub fn setup_audio_stream(
    aes_key: Option<[u8; 16]>,
    aes_iv: Option<[u8; 16]>,
    chacha_key: Option<[u8; 32]>,
    security_mode: AudioSecurityMode,
    ct: u8,
    latency_override: u32,
    target: &LatencyTarget,
) -> (r: Result<AudioStream, AudioSetupError>)
    ensures
        match r {
            Ok(s) => {
                &&& s.rtp_time == 0 && s.ssrc == 0 && s.chacha_nonce == 0
                &&& s.security_mode == security_mode
                &&& s.chacha_nonce_mode == AudioChaChaNonceMode::Counter
                &&& s.chacha_aad_mode == AudioChaChaAadMode::TimestampSsrc
                &&& s.ct == ct && s.spf == AUDIO_SPF
                &&& s.latency_samples == latency_for(*target, latency_override)
                &&& if security_mode == AudioSecurityMode::ChaCha {
                    &&& chacha_key matches Some(key)
                    &&& s.chacha matches Some(cipher)
                    &&& cipher@ == key@
                    &&& s.aes_key is None && s.aes_iv is None
                } else {
                    s.chacha is None && s.aes_key == aes_key && s.aes_iv == aes_iv
                }
            },
            Err(e) => e == AudioSetupError::NoChaChaKey && security_mode
                == AudioSecurityMode::ChaCha && chacha_key is None,
        },
{
    let latency_samples: u32 = audio_latency_samples_for_codec(target, ct, latency_override);
    let mut chacha: Option<AudioChaCha64> = None;
    if security_mode == AudioSecurityMode::ChaCha {
        match chacha_key {
            Some(key) => match AudioChaCha64::new(&key) {
                Ok(cipher) => {
                    chacha = Some(cipher);
                },
                Err(_) => {},
            },
            None => {
                return Err(AudioSetupError::NoChaChaKey);
            },
        }
    }
    let modern: bool = chacha.is_some();
    Ok(
        AudioStream {
            rtp_time: 0,
            ssrc: 0,
            aes_key: if modern {
                None
            } else {
                aes_key
            },
            aes_iv: if modern {
                None
            } else {
                aes_iv
            },
            chacha,
            security_mode,
            chacha_nonce: 0,
            chacha_nonce_mode: default_audio_chacha_nonce_mode(),
            chacha_aad_mode: default_audio_chacha_aad_mode(),
            ct,
            spf: AUDIO_SPF,
            latency_samples,
        },
    )
}

/// A packet made again with the nonce that it was first made with is the same packet, whatever
/// was sent in between.
pub proof fn lemma_resent_packet(
    first: AudioStream,
    later: AudioStream,
    payload: Seq<u8>,
    rtp_time: u32,
    seq: u16,
)
    requires
        later == (AudioStream {
            rtp_time: later.rtp_time,
            chacha_nonce: later.chacha_nonce,
            ..first
        }),
    ensures
        audio_packet(
            later,
            payload,
            rtp_time,
            seq,
            Some(used_nonce(first, seq, rtp_time, None)),
        ) == audio_packet(first, payload, rtp_time, seq, None),
{
}

/// In counter mode no two of the packets that are made one after another share a nonce, as long
/// as the counter does not start over.
pub proof fn lemma_counter_fresh(s: AudioStream, seq: u16, rtp_time: u32)
    requires
        s.chacha is Some,
        s.chacha_nonce_mode == AudioChaChaNonceMode::Counter,
        s.chacha_nonce < u64::MAX,
    ensures
        used_nonce(s, seq, rtp_time, None) < after_packet(s, None).chacha_nonce,
{
}

} // verus!
