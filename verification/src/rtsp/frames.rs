//! The state of the control channel, and its encrypted frames.
//!
//! Once encryption is on, everything goes in frames of at most 1024 bytes of plaintext. A frame is
//! the plaintext's length in two bytes, which is authenticated too, and the sealed plaintext. Each
//! direction numbers its frames.
use crate::bytes::{
    array32, counter_nonce, extend, le16_at, le_bytes16, le_u16, nonce_of,
};
use crate::crypto::{aead_open, aead_opened, aead_seal, aead_sealed};
use crate::rtsp::message::{
    header_pairs, raw_request_bytes, raw_request_head, request_bytes, request_head, Header,
};
use vstd::prelude::*;
use vstd::slice::{slice_subrange, slice_to_vec};
use vstd::utf8::encode_utf8;

verus! {

/// The most plaintext that goes into one frame.
pub const FRAME_LIMIT: usize = 1024;

/// The most plaintext that is taken from one frame.
pub const READ_LIMIT: usize = 16384;

/// Why a frame could not be built or read.
#[derive(Clone, Copy, Debug, PartialEq, Eq, Structural)]
pub enum FrameError {
    /// The key of the direction does not have 32 bytes.
    BadKey,
    /// The frame counter of the direction is used up.
    Exhausted,
    /// A frame states a length that no frame has.
    SuspiciousLength { len: usize },
    /// The frame with this number does not authenticate.
    Undecryptable { nonce: u64 },
}

/// The control channel: its request counter, and the keys and frame counters once it is encrypted.
pub struct Transport {
    pub cseq: u64,
    pub encrypted: bool,
    pub enc_write_key: Vec<u8>,
    pub enc_read_key: Vec<u8>,
    pub enc_write_nonce: u64,
    pub enc_read_nonce: u64,
}

#[verifier::ext_equal]
pub struct TransportView {
    pub cseq: u64,
    pub encrypted: bool,
    pub write_key: Seq<u8>,
    pub read_key: Seq<u8>,
    pub write_nonce: u64,
    pub read_nonce: u64,
}

impl View for Transport {
    type V = TransportView;

    open spec fn view(&self) -> TransportView {
        TransportView {
            cseq: self.cseq,
            encrypted: self.encrypted,
            write_key: self.enc_write_key@,
            read_key: self.enc_read_key@,
            write_nonce: self.enc_write_nonce,
            read_nonce: self.enc_read_nonce,
        }
    }
}

/// The plaintext of the next frame.
pub open spec fn chunk(data: Seq<u8>) -> Seq<u8> {
    if data.len() > FRAME_LIMIT {
        data.take(FRAME_LIMIT as int)
    } else {
        data
    }
}

/// The rest after the next frame.
pub open spec fn after_chunk(data: Seq<u8>) -> Seq<u8> {
    if data.len() > FRAME_LIMIT {
        data.skip(FRAME_LIMIT as int)
    } else {
        Seq::empty()
    }
}

/// How many frames data takes.
pub open spec fn frame_count(len: nat) -> nat {
    (len + 1023) / 1024
}

/// One frame.
pub open spec fn frame(key: Seq<u8>, nonce: u64, plain: Seq<u8>) -> Seq<u8> {
    le_bytes16(plain.len() as u16) + aead_sealed(
        key,
        nonce_of(nonce),
        le_bytes16(plain.len() as u16),
        plain,
    )
}

/// Data in frames that are numbered from `nonce` on.
pub open spec fn framed(key: Seq<u8>, nonce: u64, data: Seq<u8>) -> Seq<u8>
    decreases data.len(),
{
    if data.len() == 0 {
        Seq::empty()
    } else {
        frame(key, nonce, chunk(data)) + framed(key, (nonce + 1) as u64, after_chunk(data))
    }
}

/// What a byte stream of frames, numbered from `nonce` on, holds; `None` when it is cut short, a
/// frame states an impossible length, or one does not authenticate.
pub open spec fn unframed(key: Seq<u8>, nonce: u64, wire: Seq<u8>) -> Option<Seq<u8>>
    decreases wire.len(),
{
    if wire.len() == 0 {
        Some(Seq::empty())
    } else if wire.len() < 2 {
        None
    } else {
        let n = le16_at(wire, 0);
        if n == 0 || n > READ_LIMIT || wire.len() < 18 + n {
            None
        } else {
            match aead_opened(key, nonce_of(nonce), wire.take(2), wire.subrange(2, 18 + n)) {
                None => None,
                Some(plain) => match unframed(key, (nonce + 1) as u64, wire.skip(18 + n)) {
                    None => None,
                    Some(rest) => Some(plain + rest),
                },
            }
        }
    }
}

/// A channel that is encrypted from now on.
pub open spec fn keyed(t: TransportView, write_key: Seq<u8>, read_key: Seq<u8>) -> TransportView {
    TransportView { encrypted: true, write_key, read_key, write_nonce: 0, read_nonce: 0, ..t }
}

/// A channel after a frame was opened, and what the frame held.
pub open spec fn frame_opened(t: TransportView, prefix: Seq<u8>, sealed: Seq<u8>) -> (
    TransportView,
    Result<Seq<u8>, FrameError>,
) {
    if t.read_key.len() != 32 {
        (t, Err(FrameError::BadKey))
    } else if t.read_nonce == u64::MAX {
        (t, Err(FrameError::Exhausted))
    } else {
        (
            TransportView { read_nonce: (t.read_nonce + 1) as u64, ..t },
            match aead_opened(t.read_key, nonce_of(t.read_nonce), prefix, sealed) {
                Some(plain) => Ok(plain),
                None => Err(FrameError::Undecryptable { nonce: t.read_nonce }),
            },
        )
    }
}

/// What a request leaves of the channel, and the bytes to send; `Err` when it cannot be encrypted.
pub open spec fn sent(t: TransportView, plain: Seq<u8>) -> Result<
    (TransportView, Seq<u8>),
    FrameError,
> {
    if !t.encrypted {
        Ok((t, plain))
    } else if t.write_key.len() != 32 {
        Err(FrameError::BadKey)
    } else if t.write_nonce + frame_count(plain.len()) > u64::MAX {
        Err(FrameError::Exhausted)
    } else {
        Ok(
            (
                TransportView {
                    write_nonce: (t.write_nonce + frame_count(plain.len())) as u64,
                    ..t
                },
                framed(t.write_key, t.write_nonce, plain),
            ),
        )
    }
}

/// The channel with the next request number.
pub open spec fn numbered(t: TransportView) -> TransportView {
    TransportView { cseq: t.cseq.wrapping_add(1), ..t }
}

/// What was read before, followed by what is read after it.
spec fn prefixed(before: Seq<u8>, rest: Option<Seq<u8>>) -> Option<Seq<u8>> {
    match rest {
        Some(more) => Some(before + more),
        None => None,
    }
}

proof fn lemma_frame_opens(key: Seq<u8>, nonce: u64, plain: Seq<u8>, rest: Seq<u8>)
    requires
        0 < plain.len() <= FRAME_LIMIT,
        aead_sealed(key, nonce_of(nonce), le_bytes16(plain.len() as u16), plain).len()
            == plain.len() + 16,
        aead_opened(
            key,
            nonce_of(nonce),
            le_bytes16(plain.len() as u16),
            aead_sealed(key, nonce_of(nonce), le_bytes16(plain.len() as u16), plain),
        ) == Some(plain),
    ensures
        unframed(key, nonce, frame(key, nonce, plain) + rest) == prefixed(
            plain,
            unframed(key, (nonce + 1) as u64, rest),
        ),
{
    let n = plain.len() as u16;
    let aad = le_bytes16(n);
    let sealed = aead_sealed(key, nonce_of(nonce), aad, plain);
    let wire = frame(key, nonce, plain) + rest;
    assert(wire[0] == aad[0] && wire[1] == aad[1]);
    assert(le16_at(wire, 0) == n);
    assert(wire.take(2) =~= aad);
    assert(wire.subrange(2, 18 + n) =~= sealed);
    assert(wire.skip(18 + n) =~= rest);
}

impl Transport {
    /// A channel in the clear.
    pub fn new() -> (r: Transport)
        ensures
            r@ == (TransportView {
                cseq: 0,
                encrypted: false,
                write_key: Seq::empty(),
                read_key: Seq::empty(),
                write_nonce: 0,
                read_nonce: 0,
            }),
    {
        Transport {
            cseq: 0,
            encrypted: false,
            enc_write_key: Vec::new(),
            enc_read_key: Vec::new(),
            enc_write_nonce: 0,
            enc_read_nonce: 0,
        }
    }

    pub fn is_encrypted(&self) -> (r: bool)
        ensures
            r == self@.encrypted,
    {
        self.encrypted
    }

    /// Turns encryption on; both frame counters start over.
    pub fn enable_encryption(&mut self, write_key: Vec<u8>, read_key: Vec<u8>)
        ensures
            final(self)@ == keyed(old(self)@, write_key@, read_key@),
    {
        self.enc_write_key = write_key;
        self.enc_read_key = read_key;
        self.enc_write_nonce = 0;
        self.enc_read_nonce = 0;
        self.encrypted = true;
    }

    /// Puts data into frames. The frames hold the data again for a reader with the same key and
    /// counter. On an error nothing changes.
    pub fn encrypt(&mut self, data: &[u8]) -> (r: Result<Vec<u8>, FrameError>)
        ensures
            match sent((TransportView { encrypted: true, ..old(self)@ }), data@) {
                Ok((after, bytes)) => r matches Ok(out) && out@ == bytes && final(self)@ == (
                TransportView { encrypted: old(self)@.encrypted, ..after }) && unframed(
                    old(self)@.write_key,
                    old(self)@.write_nonce,
                    out@,
                ) == Some(data@),
                Err(e) => r is Err && r->Err_0 == e && final(self)@ == old(self)@,
            },
    {
        if self.enc_write_key.len() != 32 {
            return Err(FrameError::BadKey);
        }
        let key: [u8; 32] = array32(self.enc_write_key.as_slice());
        let count: u64 = (data.len() / 1024 + (if data.len() % 1024 > 0 {
            1
        } else {
            0
        })) as u64;
        assert(count == frame_count(data@.len()));
        if self.enc_write_nonce > u64::MAX - count {
            return Err(FrameError::Exhausted);
        }
        let out: Vec<u8> = seal_frames(&key, self.enc_write_nonce, data);
        self.enc_write_nonce = self.enc_write_nonce + count;
        Ok(out)
    }

    /// Builds a request under the next request number, in frames once encryption is on.
    pub fn request(
        &mut self,
        method: &str,
        path: &str,
        content_type: &str,
        body: &[u8],
        headers: &[Header],
    ) -> (r: Result<Vec<u8>, FrameError>)
        ensures
            ({
                let t = numbered(old(self)@);
                let plain = encode_utf8(
                    request_head(
                        method@,
                        path@,
                        content_type@,
                        body@.len(),
                        header_pairs(headers@),
                        t.cseq,
                    ),
                ) + body@;
                match sent(t, plain) {
                    Ok((after, bytes)) => r matches Ok(out) && out@ == bytes && final(self)@
                        == after,
                    Err(e) => r is Err && r->Err_0 == e && final(self)@ == t,
                }
            }),
    {
        self.cseq = self.cseq.wrapping_add(1);
        let plain: Vec<u8> = request_bytes(method, path, content_type, body, headers, self.cseq);
        if self.encrypted {
            self.encrypt(plain.as_slice())
        } else {
            Ok(plain)
        }
    }

    /// Builds a raw request under the next request number, always in the clear.
    pub fn raw_request(
        &mut self,
        method: &str,
        path: &str,
        content_type: &str,
        body: &[u8],
        headers: &[Header],
    ) -> (r: Vec<u8>)
        ensures
            final(self)@ == numbered(old(self)@),
            r@ == encode_utf8(
                raw_request_head(
                    method@,
                    path@,
                    content_type@,
                    body@.len(),
                    header_pairs(headers@),
                    final(self)@.cseq,
                ),
            ) + body@,
    {
        self.cseq = self.cseq.wrapping_add(1);
        raw_request_bytes(method, path, content_type, body, headers, self.cseq)
    }

    /// Opens the frame that follows a length prefix. The frame counter moves on even when the frame
    /// does not authenticate.
    pub fn open_frame(&mut self, prefix: &[u8; 2], sealed: &[u8]) -> (r: Result<
        Vec<u8>,
        FrameError,
    >)
        requires
            sealed@.len() <= READ_LIMIT + 16,
        ensures
            final(self)@ == frame_opened(old(self)@, prefix@, sealed@).0,
            match frame_opened(old(self)@, prefix@, sealed@).1 {
                Ok(plain) => r matches Ok(out) && out@ == plain,
                Err(e) => r is Err && r->Err_0 == e,
            },
    {
        if self.enc_read_key.len() != 32 {
            return Err(FrameError::BadKey);
        }
        if self.enc_read_nonce == u64::MAX {
            return Err(FrameError::Exhausted);
        }
        let key: [u8; 32] = array32(self.enc_read_key.as_slice());
        let nonce: u64 = self.enc_read_nonce;
        self.enc_read_nonce = nonce + 1;
        let n: [u8; 12] = counter_nonce(nonce);
        match aead_open(&key, &n, prefix, sealed) {
            Some(plain) => Ok(plain),
            None => Err(FrameError::Undecryptable { nonce }),
        }
    }
}

/// How many bytes follow a length prefix: the plaintext's and the tag's. A length of 0, or one that
/// no frame has, is an error.
pub fn frame_length(prefix: &[u8; 2]) -> (r: Result<usize, FrameError>)
    ensures
        ({
            let n = le16_at(prefix@, 0);
            if n == 0 || n > READ_LIMIT {
                r is Err && r->Err_0 == (FrameError::SuspiciousLength { len: n as usize })
            } else {
                r matches Ok(len) && len == n + 16
            }
        }),
{
    let n: usize = le_u16(prefix, 0) as usize;
    if n == 0 || n > READ_LIMIT {
        return Err(FrameError::SuspiciousLength { len: n });
    }
    Ok(n + 16)
}

fn seal_one(key: &[u8; 32], nonce: u64, plain: &[u8]) -> (r: Vec<u8>)
    requires
        0 < plain@.len() <= FRAME_LIMIT,
    ensures
        r@ == frame(key@, nonce, plain@),
        forall|rest: Seq<u8>| #[trigger]
            unframed(key@, nonce, r@ + rest) == prefixed(
                plain@,
                unframed(key@, (nonce + 1) as u64, rest),
            ),
{
    let n: u16 = plain.len() as u16;
    let aad: [u8; 2] = [(n % 0x100) as u8, (n / 0x100) as u8];
    assert(aad@ =~= le_bytes16(n));
    let sealed: Vec<u8> = aead_seal(key, &counter_nonce(nonce), &aad, plain);
    let mut out: Vec<u8> = slice_to_vec(&aad);
    extend(&mut out, sealed.as_slice());
    proof {
        assert forall|rest: Seq<u8>| #[trigger]
            unframed(key@, nonce, out@ + rest) == prefixed(
                plain@,
                unframed(key@, (nonce + 1) as u64, rest),
            ) by {
            lemma_frame_opens(key@, nonce, plain@, rest);
        }
    }
    out
}

fn seal_frames(key: &[u8; 32], nonce: u64, data: &[u8]) -> (r: Vec<u8>)
    requires
        nonce + frame_count(data@.len()) <= u64::MAX,
    ensures
        r@ == framed(key@, nonce, data@),
        unframed(key@, nonce, r@) == Some(data@),
{
    let mut out: Vec<u8> = Vec::new();
    let mut start: usize = 0;
    let mut number: u64 = nonce;
    let ghost whole = framed(key@, nonce, data@);
    assert(data@.skip(0) =~= data@);
    while start < data.len()
        invariant
            start <= data@.len(),
            number + frame_count((data@.len() - start) as nat) <= u64::MAX,
            whole == out@ + framed(key@, number, data@.skip(start as int)),
            forall|rest: Seq<u8>| #[trigger]
                unframed(key@, nonce, out@ + rest) == prefixed(
                    data@.take(start as int),
                    unframed(key@, number, rest),
                ),
        decreases data@.len() - start,
    {
        let n: usize = if data.len() - start > FRAME_LIMIT {
            FRAME_LIMIT
        } else {
            data.len() - start
        };
        let head: &[u8] = slice_subrange(data, start, start + n);
        let ghost left = data@.skip(start as int);
        let ghost before = out@;
        let sealed: Vec<u8> = seal_one(key, number, head);
        extend(&mut out, sealed.as_slice());
        proof {
            assert(head@ =~= chunk(left));
            assert(data@.skip(start + n) =~= after_chunk(left));
            assert(out@ + framed(key@, (number + 1) as u64, after_chunk(left)) =~= before + framed(
                key@,
                number,
                left,
            ));
            assert forall|rest: Seq<u8>| #[trigger]
                unframed(key@, nonce, out@ + rest) == prefixed(
                    data@.take(start + n),
                    unframed(key@, (number + 1) as u64, rest),
                ) by {
                assert(out@ + rest =~= before + (sealed@ + rest));
                assert(data@.take(start + n) =~= data@.take(start as int) + head@);
                match unframed(key@, (number + 1) as u64, rest) {
                    Some(more) => {
                        assert(data@.take(start + n) + more =~= data@.take(start as int) + (head@
                            + more));
                    },
                    None => {},
                }
            }
        }
        start = start + n;
        number = number + 1;
    }
    proof {
        assert(data@.skip(start as int) =~= Seq::<u8>::empty());
        assert(data@.take(start as int) =~= data@);
        assert(out@ + Seq::<u8>::empty() =~= out@);
        assert(data@ + Seq::<u8>::empty() =~= data@);
        assert(unframed(key@, nonce, out@ + Seq::<u8>::empty()) == Some(data@));
    }
    out
}

} // verus!
