//! What the messages of the FairPlay handshake hold.
use crate::crypto::sha512_of;
use crate::fairplay::handshake::{fp_post, m3_of};
use crate::fairplay::{ekey_of, framed, stream_key_of, unwrapped, wrapped};
use crate::fpemu::loader::{answer, entered, exchange, frame, Frame};
use crate::fpemu::mem::MemView;
use crate::fpemu::state::StateView;
use crate::mirror::laws::{big32, lemma_bytes_write_numbers};
use vstd::prelude::*;

verus! {

/// A frame is the four letters, the version, the kind of the message, the length of what follows, the
/// highest byte first, and then that.
pub proof fn law_frame(data: Seq<u8>, msg_type: u8)
    requires
        !framed(data),
        data.len() < 0x1_0000_0000,
    ensures
        ({
            let f = wrapped(data, msg_type);
            &&& f.len() == 12 + data.len()
            &&& f.take(8) == seq![0x46u8, 0x50, 0x4c, 0x59, 3, 1, msg_type, 0]
            &&& big32(f, 8) == data.len()
            &&& f.skip(12) == data
            &&& framed(f)
        }),
        data.len() >= 12 ==> unwrapped(data) == data,
        framed(data) <==> data.len() >= 4 && data[0] == 0x46 && data[1] == 0x50 && data[2] == 0x4c
            && data[3] == 0x59,
{
    let f = wrapped(data, msg_type);
    let n = crate::bytes::low32(data.len() as usize);
    assert(n == data.len());
    lemma_bytes_write_numbers(n, 0);
    assert(f.subrange(8, 12) =~= crate::bytes::be_bytes32(n));
    assert(forall|k: int| 0 <= k < 4 ==> f[8 + k] == #[trigger] f.subrange(8, 12)[k]);
    assert(big32(f, 8) == big32(f.subrange(8, 12), 0));
    assert(f.take(8) =~= seq![0x46u8, 0x50, 0x4c, 0x59, 3, 1, msg_type, 0]);
    assert(f.skip(12) =~= data);
    assert(f.take(4) =~= crate::fairplay::FPLY@);
    if data.len() >= 4 && data[0] == 0x46 && data[1] == 0x50 && data[2] == 0x4c && data[3] == 0x59 {
        assert(data.take(4) =~= crate::fairplay::FPLY@);
    }
}

/// A wrapped key is 72 bytes: a fixed head, the first chunk at 16 and the second at 56, and zeros
/// between.
pub proof fn law_wrapped_key(chunk1: Seq<u8>, chunk2: Seq<u8>)
    requires
        chunk1.len() == 16,
        chunk2.len() == 16,
    ensures
        ({
            let e = ekey_of(chunk1, chunk2);
            &&& e.len() == 72
            &&& e.take(16) == seq![0x46u8, 0x50, 0x4c, 0x59, 1, 2, 1, 0, 0, 0, 0, 0x3c, 0, 0, 0, 0]
            &&& e.subrange(16, 32) == chunk1
            &&& forall|i: int| 32 <= i < 56 ==> #[trigger] e[i] == 0
            &&& e.skip(56) == chunk2
        }),
{
    let e = ekey_of(chunk1, chunk2);
    assert(e.take(16) =~= seq![0x46u8, 0x50, 0x4c, 0x59, 1, 2, 1, 0, 0, 0, 0, 0x3c, 0, 0, 0, 0]);
    assert(e.subrange(16, 32) =~= chunk1);
    assert(e.skip(56) =~= chunk2);
}

/// The key of the stream is the unwrapped key, hashed with the secret of the pairing where there is
/// one.
pub proof fn law_stream_key(aes_key: Seq<u8>, shared: Seq<u8>)
    ensures
        shared.len() == 0 ==> stream_key_of(aes_key, shared) == aes_key,
        shared.len() > 0 ==> stream_key_of(aes_key, shared) == sha512_of(
            aes_key + shared,
        ).subrange(0, 16),
{
    assert(sha512_of(aes_key + shared).take(16) =~= sha512_of(aes_key + shared).subrange(0, 16));
}

/// A message of the handshake is posted to its own place, with the kind of encryption in a header.
pub proof fn law_handshake_request(message: Seq<u8>)
    ensures
        ({
            let q = fp_post(message);
            q.method == "POST"@ && q.uri == "/fp-setup"@ && q.body == message && q.content_type
                == "application/octet-stream"@ && q.headers == seq![("X-Apple-ET"@, "32"@)]
        }),
{
    assert(fp_post(message).headers =~= seq![("X-Apple-ET"@, "32"@)]);
}

/// The answer to the second message is 144 bytes that never change, and what the machine makes of
/// bytes 14 to 142 of that message.
pub proof fn law_third_message(snapshot: Seq<u8>, m2: Seq<u8>)
    ensures
        m2.len() < 142 ==> m3_of(snapshot, m2) is Err,
        m2.len() >= 142 ==> match exchange(snapshot, m2.subrange(14, 142)) {
            Ok(hash) => m3_of(snapshot, m2) matches Ok(m3) && m3.len() == 144 + hash.len() && m3.skip(
                144,
            ) == hash,
            Err(_) => m3_of(snapshot, m2) is Err,
        },
{
    if m2.len() >= 142 {
        if let Ok(hash) = exchange(snapshot, m2.subrange(14, 142)) {
            let m3 = m3_of(snapshot, m2)->Ok_0;
            assert(m3.skip(144) =~= hash);
        }
    }
}

/// The machine is entered with the version, the places of its input and of its results in its first
/// registers, and the address of the routine in the eighth; the places do not overlap.
pub proof fn law_entered(s: StateView, ctx: u64, payload: Seq<u8>)
    requires
        s.cpu.x.len() == 31,
        s.heap_ptr <= 0x1_0000_0000_0000,
    ensures
        ({
            let t = entered(s, ctx, payload);
            let f = frame(s);
            &&& t.cpu.x[0] == 3 && t.cpu.x[1] == f.hw && t.cpu.x[2] == ctx && t.cpu.x[3] == f.input
            &&& t.cpu.x[4] == 142 && t.cpu.x[5] == f.out_ptr && t.cpu.x[6] == f.out_len
                && t.cpu.x[7] == f.rc && t.cpu.x[8] == 0x1_a12b_fb88
            &&& t.cpu.pc == 0x1000_0000 && t.cpu.sp == 0x707f_ff00
            &&& f.hw == s.heap_ptr && f.hw + 24 <= f.input && f.input + 142 <= f.out_ptr && f.out_ptr
                + 8 <= f.out_len && f.out_len + 4 <= f.rc && f.rc + 4 <= t.heap_ptr
        }),
{
}

/// What the machine answers is the last 20 of the 164 bytes that it left, and zeros where it left
/// fewer.
pub proof fn law_answer(f: Frame, m: MemView)
    ensures
        ({
            let at = m.read64(f.out_ptr);
            let n = m.read32(f.out_len);
            &&& answer(f, m).len() == 20
            &&& n >= 164 && at != 0 ==> forall|i: int|
                0 <= i < 20 ==> #[trigger] answer(f, m)[i] == m.bytes[at.wrapping_add(
                    (144 + i) as u64,
                )]
            &&& n < 164 || at == 0 ==> answer(f, m) == Seq::new(20, |i: int| 0u8)
        }),
{
    let at = m.read64(f.out_ptr);
    let n = m.read32(f.out_len);
    if n < 164 || at == 0 {
        assert(answer(f, m) =~= Seq::new(20, |i: int| 0u8));
    }
}

} // verus!
