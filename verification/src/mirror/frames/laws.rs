//! What a receiver reads in the packets of the data channel and of the clock.
use crate::bytes::{le_bytes32, le_bytes64, nonce_of};
use crate::crypto::{aead_sealed, aes128_ctr_byte, hkdf_sha512_of, sha512_of};
use crate::mirror::cipher::{after_frame, chosen_cipher, sealed_frame, VideoCipherView};
use crate::mirror::frames::{
    ascii_mac, be_bytes64, codec_header, frame_header, heartbeat, ntp_ahead, ntp_of, presentation,
    timing_reply, undashed, SizeBits, SECONDS_FROM_1900_TO_1970,
};
use crate::mirror::laws::{big64, lemma_bytes_write_numbers, little32, little64};
use crate::text::{decimal_of, upper};
use vstd::prelude::*;
use vstd::utf8::encode_utf8;

verus! {

proof fn lemma_word_at(b: Seq<u8>, i: int, v: u32)
    requires
        0 <= i,
        i + 4 <= b.len(),
        b.subrange(i, i + 4) == le_bytes32(v),
    ensures
        little32(b, i) == v,
{
    lemma_bytes_write_numbers(v, 0);
    assert(forall|k: int| 0 <= k < 4 ==> b[i + k] == #[trigger] b.subrange(i, i + 4)[k]);
    assert(little32(b, i) == little32(b.subrange(i, i + 4), 0));
}

proof fn lemma_stamp_at(b: Seq<u8>, i: int, v: u64)
    requires
        0 <= i,
        i + 8 <= b.len(),
        b.subrange(i, i + 8) == le_bytes64(v),
    ensures
        little64(b, i) == v,
{
    lemma_bytes_write_numbers(0, v);
    assert(forall|k: int| 0 <= k < 8 ==> b[i + k] == #[trigger] b.subrange(i, i + 8)[k]);
    assert(little64(b, i) == little64(b.subrange(i, i + 8), 0));
}

/// The header of the decoder configuration states how much follows, the kind of the packet, the time,
/// twice the size of the picture, and the size that it is shown in.
pub proof fn law_codec_header(len: u32, ntp: u64, size: SizeBits)
    ensures
        ({
            let h = codec_header(len, ntp, size);
            &&& h.len() == 128
            &&& little32(h, 0) == len
            &&& h[4] == 1 && h[5] == 0 && h[6] == 0x16 && h[7] == 1
            &&& little64(h, 8) == ntp
            &&& little32(h, 16) == size.video_w && little32(h, 20) == size.video_h
            &&& little32(h, 40) == size.video_w && little32(h, 44) == size.video_h
            &&& little32(h, 56) == size.display_w && little32(h, 60) == size.display_h
            &&& forall|i: int|
                24 <= i < 40 || 48 <= i < 56 || 64 <= i < 128 ==> #[trigger] h[i] == 0
        }),
{
    let h = codec_header(len, ntp, size);
    assert(h.subrange(0, 4) =~= le_bytes32(len));
    lemma_word_at(h, 0, len);
    assert(h.subrange(8, 16) =~= le_bytes64(ntp));
    lemma_stamp_at(h, 8, ntp);
    assert(h.subrange(16, 20) =~= le_bytes32(size.video_w));
    lemma_word_at(h, 16, size.video_w);
    assert(h.subrange(20, 24) =~= le_bytes32(size.video_h));
    lemma_word_at(h, 20, size.video_h);
    assert(h.subrange(40, 44) =~= le_bytes32(size.video_w));
    lemma_word_at(h, 40, size.video_w);
    assert(h.subrange(44, 48) =~= le_bytes32(size.video_h));
    lemma_word_at(h, 44, size.video_h);
    assert(h.subrange(56, 60) =~= le_bytes32(size.display_w));
    lemma_word_at(h, 56, size.display_w);
    assert(h.subrange(60, 64) =~= le_bytes32(size.display_h));
    lemma_word_at(h, 60, size.display_h);
}

/// The header of a frame states how much follows, whether it is a keyframe, and the time.
pub proof fn law_frame_header(len: u32, keyframe: bool, ntp: u64)
    ensures
        ({
            let h = frame_header(len, keyframe, ntp);
            &&& h.len() == 128
            &&& little32(h, 0) == len
            &&& h[4] == 0 && h[6] == 0 && h[7] == 0
            &&& keyframe ==> h[5] == 0x10
            &&& !keyframe ==> h[5] == 0
            &&& little64(h, 8) == ntp
            &&& forall|i: int| 16 <= i < 128 ==> #[trigger] h[i] == 0
        }),
{
    let h = frame_header(len, keyframe, ntp);
    assert(h.subrange(0, 4) =~= le_bytes32(len));
    lemma_word_at(h, 0, len);
    assert(h.subrange(8, 16) =~= le_bytes64(ntp));
    lemma_stamp_at(h, 8, ntp);
}

/// The packet that keeps the channel alive brings nothing: its kind is 2, nothing follows it.
pub proof fn law_heartbeat()
    ensures
        heartbeat().len() == 128,
        little32(heartbeat(), 0) == 0,
        heartbeat()[4] == 2,
        heartbeat()[6] == 0x1e,
        forall|i: int| 0 <= i < 128 && i != 4 && i != 6 ==> #[trigger] heartbeat()[i] == 0,
{
}

/// A time in NTP is its seconds, in the upper half, and its fraction, the largest that is not later.
/// The clock counts from 1900.
pub proof fn law_ntp_time(secs: int, nanos: int)
    requires
        0 <= secs,
        0 <= nanos < 1_000_000_000,
    ensures
        ({
            let t = ntp_of(secs, nanos) as int;
            let fraction = t % 0x1_0000_0000;
            &&& t / 0x1_0000_0000 == secs % 0x1_0000_0000
            &&& fraction * 1_000_000_000 <= nanos * 0x1_0000_0000 < (fraction + 1) * 1_000_000_000
        }),
        SECONDS_FROM_1900_TO_1970 == (70 * 365 + 17) * 86_400,
{
}

/// The answer to a timing request gives back the requester's stamp, and says that it was received
/// and sent now.
pub proof fn law_timing_reply(request: Seq<u8>, now: u64)
    requires
        request.len() >= 32,
    ensures
        ({
            let r = timing_reply(request, now);
            &&& r.len() == 32
            &&& r[0] == 0x80 && r[1] == 0xd3
            &&& forall|i: int| 2 <= i < 8 ==> r[i] == #[trigger] request[i]
            &&& big64(r, 8) == big64(request, 24)
            &&& big64(r, 16) == now
            &&& big64(r, 24) == now
        }),
{
    let r = timing_reply(request, now);
    lemma_bytes_write_numbers(0, now);
    assert forall|i: int| 2 <= i < 8 implies r[i] == #[trigger] request[i] by {
        assert(r[i] == request.subrange(2, 8)[i - 2]);
    }
    assert(r.subrange(8, 16) =~= request.subrange(24, 32));
    assert(r.subrange(16, 24) =~= be_bytes64(now));
    assert(r.subrange(24, 32) =~= be_bytes64(now));
    assert(forall|k: int| 0 <= k < 8 ==> r[8 + k] == #[trigger] r.subrange(8, 16)[k]);
    assert(forall|k: int| 0 <= k < 8 ==> request[24 + k] == #[trigger] request.subrange(24, 32)[k]);
    assert(forall|k: int| 0 <= k < 8 ==> r[16 + k] == #[trigger] r.subrange(16, 24)[k]);
    assert(forall|k: int| 0 <= k < 8 ==> r[24 + k] == #[trigger] r.subrange(24, 32)[k]);
    assert(big64(r, 8) == big64(r.subrange(8, 16), 0));
    assert(big64(request, 24) == big64(request.subrange(24, 32), 0));
    assert(big64(r, 16) == big64(r.subrange(16, 24), 0));
    assert(big64(r, 24) == big64(r.subrange(24, 32), 0));
}

/// The picture is shown in the size that the receiver states, and in its own where it states none.
pub proof fn law_presentation(display: (i32, i32), video: (i32, i32))
    ensures
        display.0 > 0 && display.1 > 0 ==> presentation(display, video) == display,
        display.0 <= 0 || display.1 <= 0 ==> presentation(display, video) == video,
{
}

/// How a session protects its frames: not at all where that was switched off; each sealed under a key
/// of the shared secret where the control channel is encrypted; and else as one AES stream under the
/// key that the setup announced. The number of the stream is part of each key.
pub proof fn law_cipher_of_a_session(
    no_encrypt: bool,
    encrypted: bool,
    shared: Seq<u8>,
    stream_key: Seq<u8>,
    id: i64,
)
    requires
        id >= 0,
    ensures
        ({
            let c = chosen_cipher(no_encrypt, encrypted, shared, stream_key, id);
            let number = decimal_of(id as nat);
            &&& no_encrypt ==> c is Clear
            &&& !no_encrypt && encrypted && shared.len() > 0 ==> (c matches VideoCipherView::ChaCha {
                key,
                nonce,
            } && nonce == 0 && key == hkdf_sha512_of(
                shared,
                encode_utf8("DataStream-Salt"@ + number),
                encode_utf8("DataStream-Output-Encryption-Key"@),
                32,
            ))
            &&& !no_encrypt && (!encrypted || shared.len() == 0) ==> (c matches
                VideoCipherView::AesCtr(m) && m.next == 0 && m.spare == 0 && m.key == sha512_of(
                encode_utf8("AirPlayStreamKey"@ + number) + stream_key,
            ).subrange(0, 16) && m.iv == sha512_of(
                encode_utf8("AirPlayStreamIV"@ + number) + stream_key,
            ).subrange(0, 16))
        }),
{
    let number = decimal_of(id as nat);
    assert(sha512_of(encode_utf8("AirPlayStreamKey"@ + number) + stream_key).take(16) =~= sha512_of(
        encode_utf8("AirPlayStreamKey"@ + number) + stream_key,
    ).subrange(0, 16));
    assert(sha512_of(encode_utf8("AirPlayStreamIV"@ + number) + stream_key).take(16) =~= sha512_of(
        encode_utf8("AirPlayStreamIV"@ + number) + stream_key,
    ).subrange(0, 16));
}

/// A frame in the clear is the frame; one under AES is the frame under the keystream from where the
/// last one ended, or from the end of the block that it ended in where it did not reach that; a sealed
/// one is sealed with its header under a number that no other frame has.
pub proof fn law_protected_frame(c: VideoCipherView, header: Seq<u8>, frame: Seq<u8>)
    ensures
        sealed_frame(c, header, frame) matches Some((out, after)) ==> match c {
            VideoCipherView::Clear => out == frame && after == c,
            VideoCipherView::AesCtr(m) => {
                &&& out.len() == frame.len()
                &&& forall|i: int|
                    0 <= i < frame.len() ==> #[trigger] out[i] == frame[i] ^ aes128_ctr_byte(
                        m.key,
                        m.iv,
                        (m.next + i) as nat,
                    )
                &&& after matches VideoCipherView::AesCtr(n) && n.key == m.key && n.iv == m.iv && (
                frame.len() >= m.spare ==> n.next == m.next + frame.len() && (n.next + n.spare) % 16
                    == 0 && n.spare < 16) && (frame.len() < m.spare ==> n.next == m.next + m.spare
                    && n.spare == 0)
            },
            VideoCipherView::ChaCha { key, nonce } => {
                let counter = Seq::new(
                    12,
                    |i: int|
                        if i < 4 {
                            0u8
                        } else {
                            le_bytes64(nonce)[i - 4]
                        },
                );
                &&& out == aead_sealed(key, counter, header, frame)
                &&& after == (VideoCipherView::ChaCha { key, nonce: (nonce + 1) as u64 })
                &&& little64(counter, 4) == nonce
            },
        },
        c is Clear ==> sealed_frame(c, header, frame) is Some,
{
    match c {
        VideoCipherView::ChaCha { key, nonce } => {
            let counter = Seq::new(
                12,
                |i: int|
                    if i < 4 {
                        0u8
                    } else {
                        le_bytes64(nonce)[i - 4]
                    },
            );
            assert(nonce_of(nonce) =~= counter);
            assert(counter.subrange(4, 12) =~= le_bytes64(nonce));
            lemma_stamp_at(counter, 4, nonce);
        },
        VideoCipherView::AesCtr(m) => {
            assert(after_frame(m, frame.len()).key == m.key);
        },
        _ => {},
    }
}

/// An identifier loses its dashes and nothing else.
pub proof fn law_dashes(a: Seq<char>, b: Seq<char>)
    ensures
        undashed(a + seq!['-'] + b) == undashed(a) + undashed(b),
        !undashed(a).contains('-'),
        !a.contains('-') ==> undashed(a) == a,
    decreases a.len() + b.len(),
{
    let whole = a + seq!['-'] + b;
    if b.len() == 0 {
        assert(whole.drop_last() =~= a);
        assert(undashed(a) + undashed(b) =~= undashed(a));
    } else {
        law_dashes(a, b.drop_last());
        assert(whole.drop_last() =~= a + seq!['-'] + b.drop_last());
        assert(undashed(whole) =~= undashed(a) + undashed(b));
    }
    if a.len() > 0 {
        let less = a.drop_last();
        law_dashes(less, Seq::empty());
        if undashed(a).contains('-') {
            let k = undashed(a).index_of('-');
            assert(undashed(a)[k] == '-');
            assert(a.last() != '-');
            assert(k < undashed(less).len());
            assert(undashed(less)[k] == '-');
            assert(undashed(less).contains('-'));
        }
        if !a.contains('-') {
            assert(a.contains(a.last()));
            if less.contains('-') {
                let k = less.index_of('-');
                assert(a[k] == '-');
                assert(a.contains('-'));
            }
            assert(a =~= less.push(a.last()));
        }
    }
}

/// The hardware address is six pairs with colons between them: a first pair that marks it as given
/// out locally, and the second to the sixth pair of the identifier in capital letters.
pub proof fn law_hardware_address(hex: Seq<char>, k: int)
    requires
        hex.len() >= 12,
        1 <= k < 6,
    ensures
        ascii_mac(hex).len() == 17,
        ascii_mac(hex)[0] == '0' && ascii_mac(hex)[1] == '2',
        ascii_mac(hex)[3 * k - 1] == ':',
        ascii_mac(hex)[3 * k] == upper(hex[2 * k]),
        ascii_mac(hex)[3 * k + 1] == upper(hex[2 * k + 1]),
{
    assert((3 * k) / 3 == k && (3 * k + 1) / 3 == k);
    assert((3 * k - 1) % 3 == 2 && (3 * k) % 3 == 0 && (3 * k + 1) % 3 == 1);
}

/// A picture is shown by what is asked for after now, and by five milliseconds at least.
pub proof fn law_shown_ahead(elapsed: int, bias: int, seconds: int)
    requires
        elapsed >= 0,
        bias >= 0,
        seconds >= 0,
    ensures
        bias >= 5_000_000 && elapsed + bias == seconds * 1_000_000_000 ==> ntp_ahead(elapsed, bias)
            == ntp_of(seconds, 0),
        bias < 5_000_000 ==> ntp_ahead(elapsed, bias) == ntp_ahead(elapsed, 5_000_000),
        bias >= 5_000_000 ==> ntp_ahead(elapsed + 1, bias) == ntp_ahead(elapsed, bias + 1),
{
}

} // verus!
