//! Uncompressed ALAC frames.
use crate::bytes::low32;
use vstd::prelude::*;
use vstd::slice::{slice_subrange, slice_to_vec};

verus! {

/// The samples in a frame.
pub const AUDIO_SPF: u16 = 352;

pub const AUDIO_SAMPLE_RATE: u32 = 44100;

/// The lowest `n` bits of a value, most significant first.
pub open spec fn bits_of(val: u32, n: nat) -> Seq<bool> {
    Seq::new(n, |i: int| (val >> ((n - 1 - i) as u32)) & 1 == 1)
}

/// A bit of a string as a number; 0 beyond its end.
pub open spec fn bit_at(bits: Seq<bool>, i: int) -> int {
    if i < bits.len() && bits[i] {
        1
    } else {
        0
    }
}

/// Byte `k` of a bit string.
pub open spec fn byte_at(bits: Seq<bool>, k: int) -> u8 {
    (128 * bit_at(bits, 8 * k) + 64 * bit_at(bits, 8 * k + 1) + 32 * bit_at(bits, 8 * k + 2) + 16
        * bit_at(bits, 8 * k + 3) + 8 * bit_at(bits, 8 * k + 4) + 4 * bit_at(bits, 8 * k + 5) + 2
        * bit_at(bits, 8 * k + 6) + bit_at(bits, 8 * k + 7)) as u8
}

/// A bit string in bytes, filled up with zeros.
pub open spec fn packed(bits: Seq<bool>) -> Seq<u8> {
    Seq::new((bits.len() + 7) / 8, |k: int| byte_at(bits, k))
}

/// The samples from number `i` on, of `n` in all, each of two bytes with the lower one first.
pub open spec fn sample_bits(pcm: Seq<u8>, n: nat, depth: nat) -> Seq<bool>
    decreases n,
{
    if n == 0 {
        Seq::empty()
    } else {
        sample_bits(pcm, (n - 1) as nat, depth) + bits_of(
            (pcm[2 * (n - 1)] + 0x100 * pcm[2 * (n - 1) + 1]) as u32,
            depth,
        )
    }
}

/// A frame: the kind of its element, its instance, a gap, that it states its size, has no extra
/// bytes and is not compressed, the number of samples, the samples, and the end.
pub open spec fn frame_bits(pcm: Seq<u8>, frame_size: u32, n: nat, stereo: bool, depth: nat) -> Seq<
    bool,
> {
    bits_of(
        if stereo {
            1
        } else {
            0
        },
        3,
    ) + bits_of(0, 4) + bits_of(0, 12) + bits_of(1, 1) + bits_of(0, 2) + bits_of(1, 1) + bits_of(
        frame_size,
        32,
    ) + sample_bits(pcm, n, depth) + bits_of(7, 3)
}

/// Writes bits into bytes, most significant first.
pub struct BitWriter {
    out: Vec<u8>,
    /// How many bits of the last byte are used, 8 when it is full or there is none.
    used: u8,
    bits: Ghost<Seq<bool>>,
}

impl View for BitWriter {
    type V = Seq<bool>;

    closed spec fn view(&self) -> Seq<bool> {
        self.bits@
    }
}

/// The value of a bit by its place in a byte.
#[verifier::allow_in_spec]
pub fn place_value(place: u8) -> u8
    returns
        (if place == 0 {
            128u8
        } else if place == 1 {
            64u8
        } else if place == 2 {
            32u8
        } else if place == 3 {
            16u8
        } else if place == 4 {
            8u8
        } else if place == 5 {
            4u8
        } else if place == 6 {
            2u8
        } else {
            1u8
        }),
{
    if place == 0 {
        128
    } else if place == 1 {
        64
    } else if place == 2 {
        32
    } else if place == 3 {
        16
    } else if place == 4 {
        8
    } else if place == 5 {
        4
    } else if place == 6 {
        2
    } else {
        1
    }
}

proof fn lemma_byte_full(bits: Seq<bool>, b: bool, k: int)
    requires
        0 <= k,
        8 * (k + 1) <= bits.len(),
    ensures
        byte_at(bits.push(b), k) == byte_at(bits, k),
{
}

proof fn lemma_byte_new(bits: Seq<bool>, b: bool)
    requires
        bits.len() % 8 == 0,
    ensures
        byte_at(bits.push(b), bits.len() as int / 8) == (if b {
            128int
        } else {
            0
        }),
{
    let k = bits.len() as int / 8;
    assert(8 * k == bits.len());
}

proof fn lemma_byte_more(bits: Seq<bool>, b: bool)
    requires
        bits.len() % 8 != 0,
    ensures
        byte_at(bits.push(b), bits.len() as int / 8) == byte_at(bits, bits.len() as int / 8) + (if b {
            place_value((bits.len() % 8) as u8) as int
        } else {
            0
        }),
{
    let k = bits.len() as int / 8;
    let more = bits.push(b);
    assert(bits.len() == 8 * k + bits.len() % 8);
    assert forall|i: int| 0 <= i < bits.len() implies bit_at(more, i) == bit_at(bits, i) by {}
    assert(bit_at(more, bits.len() as int) == (if b {
        1int
    } else {
        0
    }));
    assert forall|i: int| i > bits.len() implies bit_at(more, i) == 0 && bit_at(bits, i) == 0 by {}
}

impl BitWriter {
    closed spec fn inv(&self) -> bool {
        &&& self.out@ == packed(self.bits@)
        &&& 1 <= self.used <= 8
        &&& self.used as int % 8 == self.bits@.len() % 8
    }

    pub closed spec fn wf(&self) -> bool {
        self.inv()
    }

    pub fn new() -> (r: BitWriter)
        ensures
            r.wf(),
            r@ == Seq::<bool>::empty(),
    {
        let r = BitWriter { out: Vec::new(), used: 8, bits: Ghost(Seq::empty()) };
        assert(r.out@ =~= packed(r.bits@));
        r
    }

    fn push_bit(&mut self, b: bool)
        requires
            old(self).wf(),
        ensures
            final(self).wf(),
            final(self)@ == old(self)@.push(b),
    {
        let ghost bits = self.bits@;
        let ghost before = self.out@;
        if self.used == 8 {
            self.out.push(
                if b {
                    128
                } else {
                    0
                },
            );
            self.used = 1;
            proof {
                lemma_byte_new(bits, b);
            }
        } else {
            let n: usize = self.out.len();
            proof {
                lemma_byte_more(bits, b);
                assert(n == (bits.len() + 7) / 8);
                assert(n - 1 == bits.len() / 8);
                assert(before[n - 1] == byte_at(bits, n - 1));
            }
            if b {
                self.out[n - 1] = self.out[n - 1] + place_value(self.used);
            }
            self.used = self.used + 1;
        }
        self.bits = Ghost(bits.push(b));
        proof {
            assert forall|k: int| 0 <= k < self.out@.len() implies self.out@[k] == packed(
                bits.push(b),
            )[k] by {
                if 8 * (k + 1) <= bits.len() {
                    lemma_byte_full(bits, b, k);
                    assert(before[k] == packed(bits)[k]);
                }
            }
            assert(self.out@ =~= packed(bits.push(b)));
        }
    }

    /// Writes the lowest `nbits` bits of a value.
    pub fn write(&mut self, val: u32, nbits: u32)
        requires
            old(self).wf(),
            nbits <= 32,
        ensures
            final(self).wf(),
            final(self)@ == old(self)@ + bits_of(val, nbits as nat),
    {
        let ghost start = self@;
        let ghost all = bits_of(val, nbits as nat);
        let mut i: u32 = 0;
        while i < nbits
            invariant
                i <= nbits,
                nbits <= 32,
                self.wf(),
                all == bits_of(val, nbits as nat),
                self@ =~= start + all.take(i as int),
            decreases nbits - i,
        {
            let b: bool = (val >> (nbits - 1 - i)) & 1 == 1;
            self.push_bit(b);
            i += 1;
            assert(self@ =~= start + all.take(i as int));
        }
        assert(all.take(nbits as int) =~= all);
    }

    /// The bytes written, the last one filled up with zeros.
    pub fn finish(self) -> (r: Vec<u8>)
        requires
            self.wf(),
        ensures
            r@ == packed(self@),
    {
        self.out
    }
}

pub(crate) proof fn lemma_sample_bits_len(pcm: Seq<u8>, n: nat, depth: nat)
    ensures
        sample_bits(pcm, n, depth).len() == n * depth,
    decreases n,
{
    if n > 0 {
        lemma_sample_bits_len(pcm, (n - 1) as nat, depth);
        assert(n * depth == (n - 1) * depth + depth) by (nonlinear_arith)
            requires
                n > 0,
        ;
    } else {
        assert(n * depth == 0) by (nonlinear_arith)
            requires
                n == 0,
        ;
    }
}

/// A frame in bytes.
pub open spec fn alac_frame(pcm: Seq<u8>, frame_size: nat, channels: nat, depth: nat) -> Seq<u8> {
    packed(
        frame_bits(
            pcm,
            low32(frame_size as usize),
            frame_size * channels,
            channels == 2,
            depth,
        ),
    )
}

/// The length of a frame in bytes.
pub open spec fn alac_len(samples: nat, depth: nat) -> nat {
    (58 + samples * depth + 7) / 8
}

/// Every frame has the length that its samples give.
pub proof fn lemma_alac_len(pcm: Seq<u8>, frame_size: nat, channels: nat, depth: nat)
    ensures
        alac_frame(pcm, frame_size, channels, depth).len() == alac_len(
            frame_size * channels,
            depth,
        ),
{
    lemma_sample_bits_len(pcm, frame_size * channels, depth);
}

fn build_frame(pcm: &[u8], frame_size: usize, samples: usize, channels: usize, depth: u32) -> (r: Vec<
    u8,
>)
    requires
        samples == frame_size * channels,
        2 * samples <= pcm@.len(),
        depth <= 32,
    ensures
        r@ == alac_frame(pcm@, frame_size as nat, channels as nat, depth as nat),
{
    let mut w = BitWriter::new();
    w.write(
        if channels == 2 {
            1
        } else {
            0
        },
        3,
    );
    w.write(0, 4);
    w.write(0, 12);
    w.write(1, 1);
    w.write(0, 2);
    w.write(1, 1);
    w.write(low32(frame_size), 32);
    let ghost head = w@;
    let mut i: usize = 0;
    assert(head + sample_bits(pcm@, 0, depth as nat) =~= head);
    while i < samples
        invariant
            i <= samples,
            2 * samples <= pcm.len(),
            depth <= 32,
            w.wf(),
            w@ == head + sample_bits(pcm@, i as nat, depth as nat),
        decreases samples - i,
    {
        let at: usize = 2 * i;
        let sample: u32 = pcm[at] as u32 + 0x100 * (pcm[at + 1] as u32);
        w.write(sample, depth);
        i += 1;
        assert(w@ =~= head + sample_bits(pcm@, i as nat, depth as nat));
    }
    w.write(7, 3);
    assert(w@ =~= frame_bits(
        pcm@,
        low32(frame_size),
        (frame_size * channels) as nat,
        channels == 2,
        depth as nat,
    ));
    w.finish()
}

/// Encodes a frame of interleaved samples of two bytes into `out` and returns its length. `out`
/// must have room for it.
pub fn encode_alac_verbatim(
    out: &mut [u8],
    pcm: &[u8],
    frame_size: usize,
    channels: usize,
    bit_depth: u32,
) -> (r: usize)
    requires
        frame_size * channels * 2 <= pcm@.len(),
        bit_depth <= 32,
        alac_len((frame_size * channels) as nat, bit_depth as nat) <= old(out)@.len(),
    ensures
        r == alac_len((frame_size * channels) as nat, bit_depth as nat),
        final(out)@ == alac_frame(
            pcm@,
            frame_size as nat,
            channels as nat,
            bit_depth as nat,
        ) + old(out)@.skip(r as int),
{
    let samples: usize = sample_count(pcm, frame_size, channels);
    let frame: Vec<u8> = build_frame(pcm, frame_size, samples, channels, bit_depth);
    proof {
        lemma_alac_len(pcm@, frame_size as nat, channels as nat, bit_depth as nat);
    }
    let n: usize = frame.len();
    let mut i: usize = 0;
    while i < n
        invariant
            i <= n,
            n == frame@.len(),
            n <= old(out)@.len(),
            out@.len() == old(out)@.len(),
            forall|k: int| 0 <= k < i ==> out@[k] == frame@[k],
            forall|k: int| i <= k < out@.len() ==> out@[k] == old(out)@[k],
        decreases n - i,
    {
        out[i] = frame[i];
        i += 1;
    }
    assert(out@ =~= frame@ + old(out)@.skip(n as int));
    n
}

fn sample_count(pcm: &[u8], frame_size: usize, channels: usize) -> (r: usize)
    requires
        frame_size * channels * 2 <= pcm@.len(),
    ensures
        r == frame_size * channels,
{
    assert(frame_size * channels * 2 <= pcm.len());
    frame_size * channels
}

/// Samples that come in pieces of any size, cut into frames.
pub struct PcmBuffer {
    pub pcm: Vec<u8>,
}

/// The bytes of samples in a stereo frame.
pub const FRAME_PCM: usize = 1408;

impl PcmBuffer {
    pub fn new() -> (r: PcmBuffer)
        ensures
            r.pcm@.len() == 0,
    {
        PcmBuffer { pcm: Vec::new() }
    }

    pub fn push(&mut self, chunk: &[u8])
        ensures
            final(self).pcm@ == old(self).pcm@ + chunk@,
    {
        crate::bytes::extend(&mut self.pcm, chunk);
    }

    /// Drops everything that has come in, and returns how much that was.
    pub fn drain(&mut self) -> (r: usize)
        ensures
            r == old(self).pcm@.len(),
            final(self).pcm@ == Seq::<u8>::empty(),
    {
        let n: usize = self.pcm.len();
        self.pcm = Vec::new();
        assert(self.pcm@ =~= Seq::<u8>::empty());
        n
    }

    /// The next frame, encoded, once its samples are there.
    pub fn read_frame(&mut self) -> (r: Option<Vec<u8>>)
        ensures
            match r {
                Some(frame) => old(self).pcm@.len() >= FRAME_PCM && frame@ == alac_frame(
                    old(self).pcm@.take(FRAME_PCM as int),
                    AUDIO_SPF as nat,
                    2,
                    16,
                ) && final(self).pcm@ == old(self).pcm@.skip(FRAME_PCM as int),
                None => old(self).pcm@.len() < FRAME_PCM && final(self).pcm@ == old(self).pcm@,
            },
    {
        if self.pcm.len() < FRAME_PCM {
            return None;
        }
        let head: &[u8] = slice_subrange(self.pcm.as_slice(), 0, FRAME_PCM);
        assert(head@ =~= self.pcm@.take(FRAME_PCM as int));
        let frame: Vec<u8> = build_frame(head, AUDIO_SPF as usize, 704, 2, 16);
        let rest: Vec<u8> = slice_to_vec(
            slice_subrange(self.pcm.as_slice(), FRAME_PCM, self.pcm.len()),
        );
        assert(rest@ =~= self.pcm@.skip(FRAME_PCM as int));
        self.pcm = rest;
        Some(frame)
    }
}

} // verus!
