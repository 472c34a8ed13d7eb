//! The sending of the audio frames, each of them once or twice.
use crate::audio::aead::AUDIO_CHACHA_LIMIT;
use crate::audio::stream::{
    after_packet, audio_packet, lemma_resent_packet, sync_packet_of, use_audio_fec,
    AudioStream,
};
use crate::latency::Duration;
use vstd::prelude::*;
use vstd::slice::slice_to_vec;

verus! {

/// How many frames later a frame is sent again.
pub const RETRANSMIT_DEPTH: usize = 8;

/// How often the first timing packet is sent.
pub const SYNC_BURST: u8 = 7;

/// The pause before the next timing packet, by the time since the stream began.
pub fn sync_interval(elapsed: Duration) -> (r: Duration)
    ensures
        r.nanos == (if elapsed.nanos < 5_000_000_000 {
            200_000_000u128
        } else {
            1_000_000_000u128
        }),
{
    if elapsed.nanos < 5_000_000_000 {
        Duration::from_millis(200)
    } else {
        Duration::from_secs(1)
    }
}

/// A frame that was sent.
pub struct AudioFrame {
    pub payload: Vec<u8>,
    pub rtp_time: u32,
    pub seq: u16,
    pub nonce: u64,
}

/// A packet to be sent, and the time that it carries.
pub struct AudioPacket {
    pub bytes: Vec<u8>,
    pub rtp_time: u32,
}

impl View for AudioPacket {
    type V = (Seq<u8>, u32);

    open spec fn view(&self) -> (Seq<u8>, u32) {
        (self.bytes@, self.rtp_time)
    }
}

/// The sender of the audio frames.
pub struct AudioSender {
    stream: AudioStream,
    /// The frames that will be sent again, oldest first.
    history: Vec<AudioFrame>,
    next_rtp: u32,
    frame_seq: u16,
    /// Every packet that carried a new frame, and the time that it carried.
    sent: Ghost<Seq<(Seq<u8>, u32)>>,
}

/// What a sender has in mind.
#[verifier::ext_equal]
pub struct AudioSenderView {
    pub stream: AudioStream,
    pub next_rtp: u32,
    pub frame_seq: u16,
    /// Every packet that carried a new frame, and the time that it carried.
    pub sent: Seq<(Seq<u8>, u32)>,
}

impl View for AudioSender {
    type V = AudioSenderView;

    closed spec fn view(&self) -> AudioSenderView {
        AudioSenderView {
            stream: self.stream,
            next_rtp: self.next_rtp,
            frame_seq: self.frame_seq,
            sent: self.sent@,
        }
    }
}

/// A sender at the start of a stream: the frames begin behind the playout latency.
pub open spec fn sender_started(stream: AudioStream) -> AudioSenderView {
    AudioSenderView {
        stream: AudioStream { rtp_time: stream.latency_samples, ..stream },
        next_rtp: stream.latency_samples,
        frame_seq: 1,
        sent: Seq::empty(),
    }
}

/// A sender behind a new frame.
pub open spec fn frame_sent(v: AudioSenderView, payload: Seq<u8>) -> AudioSenderView {
    AudioSenderView {
        stream: after_packet(v.stream, None),
        next_rtp: v.next_rtp.wrapping_add(v.stream.spf as u32),
        frame_seq: v.frame_seq.wrapping_add(1),
        sent: v.sent.push(
            (audio_packet(v.stream, payload, v.next_rtp, v.frame_seq, None), v.next_rtp),
        ),
    }
}

/// A sender once a packet with a time is on its way: the time of the stream never goes back.
pub open spec fn time_noted(v: AudioSenderView, rtp_time: u32) -> AudioSenderView {
    AudioSenderView {
        stream: AudioStream {
            rtp_time: if rtp_time >= v.stream.rtp_time {
                rtp_time
            } else {
                v.stream.rtp_time
            },
            ..v.stream
        },
        ..v
    }
}

/// Whether a packet sent before is sent again with the next frame.
pub open spec fn resends(v: AudioSenderView) -> bool {
    v.stream.chacha is None && v.sent.len() >= RETRANSMIT_DEPTH
}

impl AudioSender {
    /// The frames kept are the last ones sent, as many as are needed.
    pub closed spec fn wf(&self) -> bool {
        &&& self.stream.chacha is Some ==> self.history@.len() == 0
        &&& self.stream.chacha is None ==> self.history@.len() == (if self.sent@.len()
            < RETRANSMIT_DEPTH {
            self.sent@.len() as int
        } else {
            RETRANSMIT_DEPTH as int
        })
        &&& forall|i: int|
            0 <= i < self.history@.len() ==> {
                let f = #[trigger] self.history@[i];
                let packet = audio_packet(
                    self.stream,
                    f.payload@,
                    f.rtp_time,
                    f.seq,
                    Some(f.nonce),
                );
                &&& f.payload@.len() <= AUDIO_CHACHA_LIMIT
                &&& self.sent@[self.sent@.len() - self.history@.len() + i] == (packet, f.rtp_time)
            }
    }

    /// A sender at the start of a stream, and the timing packet that goes out first, as often as
    /// the burst says. The frames begin behind the playout latency.
    pub fn new(stream: AudioStream, ntp_now: u64) -> (r: (AudioSender, Vec<u8>))
        ensures
            r.0.wf(),
            r.0@ == sender_started(stream),
            r.1@ == sync_packet_of(stream, ntp_now, true),
    {
        let first: Vec<u8> = stream.sync_packet(ntp_now, true);
        let mut started: AudioStream = stream;
        started.rtp_time = stream.latency_samples;
        let sender = AudioSender {
            stream: started,
            history: Vec::new(),
            next_rtp: stream.latency_samples,
            frame_seq: 1,
            sent: Ghost(Seq::empty()),
        };
        (sender, first)
    }

    pub fn stream(&self) -> (r: &AudioStream)
        ensures
            *r == self@.stream,
    {
        &self.stream
    }

    /// Notes that a packet was sent.
    pub fn sent(&mut self, packet: &AudioPacket)
        requires
            old(self).wf(),
        ensures
            final(self).wf(),
            final(self)@ == time_noted(old(self)@, packet.rtp_time),
    {
        let ghost before = *self;
        self.stream.sent(packet.rtp_time);
        proof {
            assert forall|i: int| 0 <= i < self.history@.len() implies {
                let f = #[trigger] self.history@[i];
                let packet = audio_packet(
                    self.stream,
                    f.payload@,
                    f.rtp_time,
                    f.seq,
                    Some(f.nonce),
                );
                &&& f.payload@.len() <= AUDIO_CHACHA_LIMIT
                &&& self.sent@[self.sent@.len() - self.history@.len() + i] == (packet, f.rtp_time)
            } by {
                let f = before.history@[i];
                assert(audio_packet(self.stream, f.payload@, f.rtp_time, f.seq, Some(f.nonce))
                    == audio_packet(before.stream, f.payload@, f.rtp_time, f.seq, Some(f.nonce)));
            }
        }
    }

    /// The packets for a new frame, in the order in which they are sent. Without modern
    /// encryption the packet that was sent `RETRANSMIT_DEPTH` frames before goes out again first,
    /// with the time that it carried then.
    #[verifier::rlimit(40)]
    pub fn frame(&mut self, payload: &[u8]) -> (r: Vec<AudioPacket>)
        requires
            old(self).wf(),
            payload@.len() <= AUDIO_CHACHA_LIMIT,
        ensures
            final(self).wf(),
            final(self)@ == frame_sent(old(self)@, payload@),
            r@.len() == (if resends(old(self)@) {
                2int
            } else {
                1
            }),
            r@.last()@ == final(self)@.sent.last(),
            resends(old(self)@) ==> r@[0]@ == old(self)@.sent[old(self)@.sent.len()
                - RETRANSMIT_DEPTH],
    {
        let ghost before = *self;
        let use_fec: bool = use_audio_fec(self.stream.is_chacha());
        let mut out: Vec<AudioPacket> = Vec::new();
        if use_fec && self.history.len() >= RETRANSMIT_DEPTH {
            let old: AudioFrame = self.history.remove(0);
            let again: (Vec<u8>, u64) = self.stream.packet(
                old.payload.as_slice(),
                old.rtp_time,
                old.seq,
                Some(old.nonce),
            );
            assert(old == before.history@[0]);
            out.push(AudioPacket { bytes: again.0, rtp_time: old.rtp_time });
        }
        let ghost kept = self.history@;
        assert(self.stream == before.stream);
        let made: (Vec<u8>, u64) = self.stream.packet(
            payload,
            self.next_rtp,
            self.frame_seq,
            None,
        );
        if use_fec {
            self.history.push(
                AudioFrame {
                    payload: slice_to_vec(payload),
                    rtp_time: self.next_rtp,
                    seq: self.frame_seq,
                    nonce: made.1,
                },
            );
        }
        let ghost bytes = made.0@;
        out.push(AudioPacket { bytes: made.0, rtp_time: self.next_rtp });
        self.frame_seq = self.frame_seq.wrapping_add(1);
        self.next_rtp = self.next_rtp.wrapping_add(self.stream.spf as u32);
        self.sent = Ghost(before.sent@.push((bytes, before.next_rtp)));
        proof {
            let shift = before.history@.len() - kept.len();
            assert forall|i: int| 0 <= i < self.history@.len() implies {
                let f = #[trigger] self.history@[i];
                let packet = audio_packet(
                    self.stream,
                    f.payload@,
                    f.rtp_time,
                    f.seq,
                    Some(f.nonce),
                );
                &&& f.payload@.len() <= AUDIO_CHACHA_LIMIT
                &&& self.sent@[self.sent@.len() - self.history@.len() + i] == (packet, f.rtp_time)
            } by {
                if i < kept.len() {
                    let f = kept[i];
                    assert(f == before.history@[i + shift]);
                    assert(self.history@[i] == f);
                } else {
                    lemma_resent_packet(
                        before.stream,
                        self.stream,
                        payload@,
                        before.next_rtp,
                        before.frame_seq,
                    );
                }
            }
        }
        out
    }
}

} // verus!
