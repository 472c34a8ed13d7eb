//! The FairPlay handshake: two round trips that agree on the stream key.
//!
//! The sender posts m1 and receives m2, posts the m3 that answers it and receives m4. The stream
//! key is then unwrapped from an `ekey` that the sender makes up and the receiver gets later.
pub mod handshake;
pub mod laws;

use crate::bytes::{array16, be_bytes32, extend, extend_be32, low32};
use crate::crypto::{random_bytes, sha512};
use crate::fpemu::loader::{exchange, fp_sap_exchange_m3, ExchangeError, M3_PREFIX};
use crate::playfair::tables::PlayfairTables;
use crate::playfair::{playfair_decrypt, unwrapped_key};
use vstd::prelude::*;
use vstd::slice::{slice_subrange, slice_to_vec};

verus! {

/// The first message of the handshake.
pub const FAIRPLAY_M1: [u8; 16] = [
    0x46, 0x50, 0x4c, 0x59, 0x03, 0x01, 0x01, 0x00, 0x00, 0x00, 0x00, 0x04, 0x02, 0x00, 0x03, 0xbb,
];

/// The letters that start every framed message.
pub const FPLY: [u8; 4] = [0x46, 0x50, 0x4c, 0x59];

/// The key material that the handshake yields.
pub struct FairPlayKeys {
    /// The AES key of the stream.
    pub stream_key: [u8; 16],
    /// The stream's initial counter block.
    pub iv: [u8; 16],
    /// The wrapped key that the receiver unwraps.
    pub ekey: Vec<u8>,
    /// The unwrapped key, before the pairing secret is mixed in.
    pub aes_key: [u8; 16],
    /// The m3 message that was sent.
    pub m3: Vec<u8>,
}

/// Why the handshake failed.
#[derive(Clone, Copy, Debug, PartialEq, Eq, Structural)]
pub enum FairPlayError {
    /// The answer to m1 is too short to be a message.
    ShortM2 { len: usize },
    /// No m3 could be computed.
    Exchange(ExchangeError),
    /// The answer to m3 is too short to be a message.
    ShortM4 { len: usize },
}

/// Whether data starts with the frame letters.
pub open spec fn framed(data: Seq<u8>) -> bool {
    data.len() >= 4 && data.take(4) == FPLY@
}

/// Data with a frame around it: the letters, the version, the message type and the length. Data
/// that is framed already stays as it is.
pub open spec fn wrapped(data: Seq<u8>, msg_type: u8) -> Seq<u8> {
    if framed(data) {
        data
    } else {
        FPLY@ + seq![0x03u8, 0x01u8, msg_type, 0x00u8] + be_bytes32(
            low32(data.len() as usize),
        ) + data
    }
}

/// What a frame holds; data that is not framed stays as it is.
pub open spec fn unwrapped(data: Seq<u8>) -> Seq<u8> {
    if data.len() >= 12 && framed(data) {
        data.skip(12)
    } else {
        data
    }
}

/// A wrapped key made of two chunks of 16 bytes.
pub open spec fn ekey_of(chunk1: Seq<u8>, chunk2: Seq<u8>) -> Seq<u8> {
    FPLY@ + seq![1u8, 2u8, 1u8, 0u8, 0u8, 0u8, 0u8, 0x3cu8, 0u8, 0u8, 0u8, 0u8] + chunk1 + Seq::new(
        24,
        |i: int| 0u8,
    ) + chunk2
}

/// The stream key: the unwrapped key itself, or its hash with the pairing secret where there is
/// one.
pub open spec fn stream_key_of(aes_key: Seq<u8>, shared_secret: Seq<u8>) -> Seq<u8> {
    if shared_secret.len() == 0 {
        aes_key
    } else {
        crate::crypto::sha512_of(aes_key + shared_secret).take(16)
    }
}

fn is_framed(data: &[u8]) -> (r: bool)
    ensures
        r == framed(data@),
{
    if data.len() >= 4 {
        assert(data@.take(4) == FPLY@ <==> data@[0] == 0x46 && data@[1] == 0x50 && data@[2] == 0x4c
            && data@[3] == 0x59) by {
            if data@[0] == 0x46 && data@[1] == 0x50 && data@[2] == 0x4c && data@[3] == 0x59 {
                assert(data@.take(4) =~= FPLY@);
            } else {
                assert(data@.take(4)[0] == data@[0]);
                assert(data@.take(4)[1] == data@[1]);
                assert(data@.take(4)[2] == data@[2]);
                assert(data@.take(4)[3] == data@[3]);
            }
        }
        data[0] == 0x46 && data[1] == 0x50 && data[2] == 0x4c && data[3] == 0x59
    } else {
        false
    }
}

/// Adds the frame; data that is framed already is returned as it is.
pub fn fply_wrap(data: &[u8], msg_type: u8) -> (r: Vec<u8>)
    ensures
        r@ == wrapped(data@, msg_type),
{
    if is_framed(data) {
        return slice_to_vec(data);
    }
    let mut out: Vec<u8> = slice_to_vec(&FPLY);
    out.push(0x03);
    out.push(0x01);
    out.push(msg_type);
    out.push(0x00);
    assert(out@ =~= FPLY@ + seq![0x03u8, 0x01u8, msg_type, 0x00u8]);
    extend_be32(&mut out, low32(data.len()));
    extend(&mut out, data);
    out
}

/// Takes the frame off; data that is not framed is returned as it is.
pub fn fply_unwrap(data: &[u8]) -> (r: Vec<u8>)
    ensures
        r@ == unwrapped(data@),
{
    if data.len() >= 12 && is_framed(data) {
        assert(data@.subrange(12, data@.len() as int) =~= data@.skip(12));
        return slice_to_vec(slice_subrange(data, 12, data.len()));
    }
    slice_to_vec(data)
}

/// The wrapped key made of two given chunks.
pub fn ekey_from(chunk1: &[u8; 16], chunk2: &[u8; 16]) -> (r: [u8; 72])
    ensures
        r@ == ekey_of(chunk1@, chunk2@),
{
    let mut ekey: [u8; 72] = [0u8; 72];
    ekey[0] = 0x46;
    ekey[1] = 0x50;
    ekey[2] = 0x4c;
    ekey[3] = 0x59;
    ekey[4] = 0x01;
    ekey[5] = 0x02;
    ekey[6] = 0x01;
    ekey[11] = 0x3c;
    let ghost blank = ekey@;
    let mut i: usize = 0;
    while i < 16
        invariant
            i <= 16,
            forall|k: int|
                0 <= k < 72 ==> #[trigger] ekey@[k] == (if 16 <= k < 16 + i {
                    chunk1@[k - 16]
                } else if 56 <= k < 56 + i {
                    chunk2@[k - 56]
                } else {
                    blank[k]
                }),
        decreases 16 - i,
    {
        ekey[16 + i] = chunk1[i];
        ekey[56 + i] = chunk2[i];
        i += 1;
    }
    assert(ekey@ =~= ekey_of(chunk1@, chunk2@));
    ekey
}

/// Makes up a wrapped key: a fixed frame around two random chunks.
pub fn build_ekey() -> (r: [u8; 72])
    ensures
        exists|chunk1: Seq<u8>, chunk2: Seq<u8>|
            chunk1.len() == 16 && chunk2.len() == 16 && r@ == #[trigger] ekey_of(chunk1, chunk2),
{
    let chunk1: [u8; 16] = array16(random_bytes(16).as_slice());
    let chunk2: [u8; 16] = array16(random_bytes(16).as_slice());
    ekey_from(&chunk1, &chunk2)
}

/// A random counter block for the stream.
pub fn random_iv() -> (r: [u8; 16]) {
    array16(random_bytes(16).as_slice())
}

/// The m3 message that answers the receiver's m2: the exchange's answer, framed.
pub fn fair_play_m3(snapshot: &[u8], m2: &[u8]) -> (r: Result<Vec<u8>, FairPlayError>)
    ensures
        if m2@.len() < 12 {
            r == Err::<Vec<u8>, FairPlayError>(FairPlayError::ShortM2 { len: m2@.len() as usize })
        } else if m2@.len() < 142 {
            r == Err::<Vec<u8>, FairPlayError>(
                FairPlayError::Exchange(ExchangeError::ShortM2 { len: m2@.len() as usize }),
            )
        } else {
            match exchange(snapshot@, m2@.subrange(14, 142)) {
                Ok(hash) => r matches Ok(m3) && m3@ == M3_PREFIX@ + hash && m3@.len() == 164
                    && m3@[12] == 3,
                Err(e) => r == Err::<Vec<u8>, FairPlayError>(FairPlayError::Exchange(e)),
            }
        },
{
    if m2.len() < 12 {
        return Err(FairPlayError::ShortM2 { len: m2.len() });
    }
    match fp_sap_exchange_m3(snapshot, m2) {
        Err(e) => Err(FairPlayError::Exchange(e)),
        Ok(m3) => {
            let out = fply_wrap(m3.as_slice(), 0x03);
            assert(m3@.take(4) =~= FPLY@);
            Ok(out)
        },
    }
}

/// Ends the handshake with the receiver's m4: the stream keys for a wrapped key and a counter
/// block, mixed with the pairing secret where there is one.
pub fn fair_play_setup(
    tables: &PlayfairTables,
    m3: &[u8],
    m4: &[u8],
    iv: [u8; 16],
    ekey: [u8; 72],
    shared_secret: &[u8],
) -> (r: Result<FairPlayKeys, FairPlayError>)
    requires
        tables.wf(),
        m3@.len() >= 144,
        m3@[12] < 4,
    ensures
        if m4@.len() < 12 {
            r is Err && r->Err_0 == (FairPlayError::ShortM4 { len: m4@.len() as usize })
        } else {
            let aes_key = unwrapped_key(tables, m3@, ekey@, tables.default_sap@);
            r matches Ok(keys) && keys.aes_key@ == aes_key && keys.stream_key@ == stream_key_of(
                aes_key,
                shared_secret@,
            ) && keys.iv == iv && keys.ekey@ == ekey@ && keys.m3@ == m3@
        },
{
    if m4.len() < 12 {
        return Err(FairPlayError::ShortM4 { len: m4.len() });
    }
    let aes_key: [u8; 16] = playfair_decrypt(tables, m3, &ekey);
    let stream_key: [u8; 16] = if shared_secret.len() == 0 {
        aes_key
    } else {
        let mut message: Vec<u8> = slice_to_vec(&aes_key);
        extend(&mut message, shared_secret);
        let digest: [u8; 64] = sha512(message.as_slice());
        assert(digest@.subrange(0, 16) =~= digest@.take(16));
        array16(slice_subrange(&digest, 0, 16))
    };
    Ok(FairPlayKeys {
        stream_key,
        iv,
        ekey: slice_to_vec(&ekey),
        aes_key,
        m3: slice_to_vec(m3),
    })
}

/// Taking the frame off gives back what it was put round. Data that is itself a whole framed
/// message is not framed again, so its own frame comes off instead.
pub proof fn lemma_unwrap_wrap(data: Seq<u8>, msg_type: u8)
    requires
        !framed(data) || data.len() < 12,
    ensures
        unwrapped(wrapped(data, msg_type)) == data,
{
    if !framed(data) {
        let out = wrapped(data, msg_type);
        assert(out.take(4) =~= FPLY@);
        assert(out.skip(12) =~= data);
    }
}

/// A message is framed once: framing it again changes nothing.
pub proof fn lemma_wrap_once(data: Seq<u8>, first: u8, second: u8)
    ensures
        wrapped(wrapped(data, first), second) == wrapped(data, first),
{
    if !framed(data) {
        assert(wrapped(data, first).take(4) =~= FPLY@);
    }
}

/// A frame states the length of what it holds.
pub proof fn lemma_frame_length(data: Seq<u8>, msg_type: u8)
    requires
        !framed(data),
        data.len() <= u32::MAX,
    ensures
        crate::bytes::be32_at(wrapped(data, msg_type), 8) == data.len(),
{
    let n = data.len() as u32;
    crate::bytes::lemma_be32_inverse(n);
    let out = wrapped(data, msg_type);
    assert(out[8] == be_bytes32(n)[0]);
    assert(out[9] == be_bytes32(n)[1]);
    assert(out[10] == be_bytes32(n)[2]);
    assert(out[11] == be_bytes32(n)[3]);
}

} // verus!
