//! What stands on the wire of the control channel.
use crate::crypto::{aead_opened, aead_sealed};
use crate::rtsp::dump_of;
use crate::rtsp::frames::{
    frame_opened, framed, keyed, numbered, sent, unframed, FrameError, TransportView,
};
use crate::rtsp::message::{
    head_of, header_get, header_text, line_taken, raw_request_head, request_head, status_from,
    HeadView,
};
use crate::bytes::{le_bytes16, le_bytes64, nonce_of};
use crate::mirror::laws::{lemma_bytes_write_numbers, little64};
use crate::rtsp::reply::{found_at, is_step, ReadStep, ReplyError, HEAD_END};
use crate::text::{decimal_of, hex_of, is_space, read_lossy, unsigned_of};
use vstd::prelude::*;

verus! {

proof fn lemma_counter(nonce: u64, counter: Seq<u8>)
    requires
        counter.len() == 12,
        counter.take(4) == seq![0u8, 0, 0, 0],
        little64(counter, 4) == nonce,
    ensures
        counter == nonce_of(nonce),
{
    lemma_bytes_write_numbers(0, nonce);
    crate::audio::laws::lemma_eight_bytes(counter, 4, le_bytes64(nonce), 0);
    assert forall|i: int| 0 <= i < 12 implies counter[i] == nonce_of(nonce)[i] by {
        if i < 4 {
            assert(counter[i] == counter.take(4)[i]);
        } else {
            assert(counter[4 + (i - 4)] == le_bytes64(nonce)[0 + (i - 4)]);
        }
    }
    assert(counter =~= nonce_of(nonce));
}

/// Data goes out in frames of at most 1024 bytes: two bytes of length, the lower one first, and the
/// bytes sealed with that length under the number of the frame, which grows by one.
pub proof fn law_frames(key: Seq<u8>, nonce: u64, data: Seq<u8>, length: Seq<u8>, counter: Seq<u8>)
    requires
        nonce < u64::MAX,
        length.len() == 2,
        counter.len() == 12,
        counter.take(4) == seq![0u8, 0, 0, 0],
        little64(counter, 4) == nonce,
        length[0] + 0x100 * length[1] == (if data.len() > 1024 {
            1024
        } else {
            data.len()
        }),
    ensures
        data.len() == 0 ==> framed(key, nonce, data).len() == 0,
        0 < data.len() <= 1024 ==> framed(key, nonce, data) == length + aead_sealed(
            key,
            counter,
            length,
            data,
        ),
        data.len() > 1024 ==> framed(key, nonce, data) == length + aead_sealed(
            key,
            counter,
            length,
            data.take(1024),
        ) + framed(key, (nonce + 1) as u64, data.skip(1024)),
{
    let n = if data.len() > 1024 {
        1024u16
    } else {
        data.len() as u16
    };
    assert(le_bytes16(n) =~= length);
    lemma_counter(nonce, counter);
    if 0 < data.len() <= 1024 {
        let rest = framed(key, (nonce + 1) as u64, Seq::empty());
        assert(rest.len() == 0);
        assert(framed(key, nonce, data) =~= length + aead_sealed(key, counter, length, data));
    } else if data.len() > 1024 {
        assert(framed(key, nonce, data) =~= length + aead_sealed(
            key,
            counter,
            length,
            data.take(1024),
        ) + framed(key, (nonce + 1) as u64, data.skip(1024)));
    }
}

/// A channel that is not encrypted sends what it is given; one that is sends frames under its key for
/// writing, and uses up as many numbers as there are frames. Reading is not touched.
pub proof fn law_sent(t: TransportView, plain: Seq<u8>)
    ensures
        !t.encrypted ==> sent(t, plain) == Ok::<(TransportView, Seq<u8>), FrameError>((t, plain)),
        t.encrypted && t.write_key.len() != 32 ==> sent(t, plain) is Err,
        t.encrypted ==> (sent(t, plain) matches Ok((after, out)) ==> {
            let used = after.write_nonce - t.write_nonce;
            &&& out == framed(t.write_key, t.write_nonce, plain)
            &&& 1024 * (used - 1) < plain.len() <= 1024 * used || (plain.len() == 0 && used == 0)
            &&& after == (TransportView { write_nonce: after.write_nonce, ..t })
        }),
        t.encrypted && t.write_key.len() == 32 && t.write_nonce + plain.len() < u64::MAX ==> sent(
            t,
            plain,
        ) is Ok,
        t.cseq < u64::MAX ==> numbered(t) == (TransportView { cseq: (t.cseq + 1) as u64, ..t }),
{
}

/// A line of a message.
pub open spec fn line(text: Seq<char>) -> Seq<char> {
    text + "\r\n"@
}

/// A request is a line that says what is asked for, its number, the agent, the headers that it was
/// given, the type of its body where there is one, the body's length, and an empty line.
pub proof fn law_request(
    method: Seq<char>,
    path: Seq<char>,
    content_type: Seq<char>,
    len: nat,
    headers: Seq<(Seq<char>, Seq<char>)>,
    seq: u64,
)
    ensures
        request_head(method, path, content_type, len, headers, seq) == line(
            method + " "@ + path + " RTSP/1.0"@,
        ) + line("CSeq: "@ + decimal_of(seq as nat)) + line("User-Agent: AirPlay/935.7.1"@)
            + header_text(headers) + (if content_type.len() > 0 && len > 0 {
            line("Content-Type: "@ + content_type)
        } else {
            Seq::empty()
        }) + line("Content-Length: "@ + decimal_of(len)) + line(Seq::empty()),
        raw_request_head(method, path, content_type, len, headers, seq) == line(
            method + " "@ + path + " RTSP/1.0"@,
        ) + line("Content-Type: "@ + content_type) + line("User-Agent: AirPlay/935.7.1"@) + line(
            "X-Apple-ProtocolVersion: 1"@,
        ) + header_text(headers) + line("Content-Length: "@ + decimal_of(len)) + line(
            "CSeq: "@ + decimal_of(seq as nat),
        ) + line(Seq::empty()),
{
    reveal_strlit("\r\n");
    reveal_strlit(" RTSP/1.0");
    reveal_strlit(" RTSP/1.0\r\nCSeq: ");
    reveal_strlit("CSeq: ");
    reveal_strlit("\r\nUser-Agent: ");
    reveal_strlit("User-Agent: AirPlay/935.7.1");
    reveal_strlit("AirPlay/935.7.1");
    reveal_strlit("\r\n\r\n");
    reveal_strlit(" RTSP/1.0\r\nContent-Type: ");
    reveal_strlit("Content-Type: ");
    reveal_strlit("\r\nX-Apple-ProtocolVersion: 1\r\n");
    reveal_strlit("X-Apple-ProtocolVersion: 1");
    reveal_strlit("\r\nCSeq: ");
    let end = "\r\n"@;
    assert(" RTSP/1.0\r\nCSeq: "@ =~= " RTSP/1.0"@ + end + "CSeq: "@);
    assert("\r\nUser-Agent: "@ + "AirPlay/935.7.1"@ =~= end + "User-Agent: AirPlay/935.7.1"@);
    assert("\r\n\r\n"@ =~= end + end);
    assert(" RTSP/1.0\r\nContent-Type: "@ =~= " RTSP/1.0"@ + end + "Content-Type: "@);
    assert("\r\nX-Apple-ProtocolVersion: 1\r\n"@ =~= end + "X-Apple-ProtocolVersion: 1"@ + end);
    assert("\r\nCSeq: "@ =~= end + "CSeq: "@);
    let number = decimal_of(seq as nat);
    let length = decimal_of(len);
    let given = header_text(headers);
    let kind = if content_type.len() > 0 && len > 0 {
        line("Content-Type: "@ + content_type)
    } else {
        Seq::empty()
    };
    assert(request_head(method, path, content_type, len, headers, seq) =~= line(
        method + " "@ + path + " RTSP/1.0"@,
    ) + line("CSeq: "@ + number) + line("User-Agent: AirPlay/935.7.1"@) + given + kind + line(
        "Content-Length: "@ + length,
    ) + line(Seq::empty()));
    assert(raw_request_head(method, path, content_type, len, headers, seq) =~= line(
        method + " "@ + path + " RTSP/1.0"@,
    ) + line("Content-Type: "@ + content_type) + line("User-Agent: AirPlay/935.7.1"@) + line(
        "X-Apple-ProtocolVersion: 1"@,
    ) + given + line("Content-Length: "@ + length) + line("CSeq: "@ + number) + line(Seq::empty()));
}

/// Each header is a line of its own, the name first, in the order in which they were given.
pub proof fn law_header_lines(
    headers: Seq<(Seq<char>, Seq<char>)>,
    name: Seq<char>,
    value: Seq<char>,
)
    ensures
        header_text(Seq::empty()).len() == 0,
        header_text(headers.push((name, value))) == header_text(headers) + line(
            name + ": "@ + value,
        ),
{
    let all = headers.push((name, value));
    assert(all.drop_last() =~= headers);
    assert(header_text(all) =~= header_text(headers) + line(name + ": "@ + value));
}

pub(crate) proof fn lemma_first_place(s: Seq<char>, c: char, i: int, k: int)
    requires
        0 <= i <= k <= s.len(),
        k < s.len() ==> s[k] == c,
        forall|j: int| i <= j < k ==> s[j] != c,
    ensures
        crate::text::index_of_char(s, c, i) == k,
    decreases k - i,
{
    if i < k {
        lemma_first_place(s, c, i + 1, k);
    }
}

/// A header of a reply is read back, whatever letters its name is written in: the name is what stands
/// before the first colon, the value what stands behind it.
pub proof fn law_header_is_read(h: HeadView, name: Seq<char>, value: Seq<char>)
    requires
        name.len() > 0,
        forall|i: int|
            0 <= i < name.len() ==> 'a' <= #[trigger] name[i] <= 'z' || name[i] == '-',
        value.len() > 0,
        'a' <= value[0] <= 'z' || '0' <= value[0] <= '9',
        'a' <= value.last() <= 'z' || '0' <= value.last() <= '9',
    ensures
        ({
            let after = line_taken(h, name + seq![':', ' '] + value);
            &&& header_get(after.headers, name) == Some(value)
            &&& after.status == h.status
            &&& name != "content-length"@ ==> after.content_length == h.content_length
        }),
{
    let text = name + seq![':', ' '] + value;
    let colon = name.len() as int;
    assert forall|j: int| 0 <= j < colon implies text[j] != ':' by {
        assert(text[j] == name[j]);
    }
    lemma_first_place(text, ':', 0, colon);
    assert(text.take(colon) =~= name);
    assert(crate::text::trimmed(name) == name);
    assert(crate::text::lowered(name) =~= name);
    let rest = text.skip(colon + 1);
    assert(rest =~= seq![' '] + value);
    assert(rest.skip(1) =~= value);
    assert(crate::text::trimmed(value) == value);
    assert(crate::text::trimmed(rest) == value);
    crate::rtsp::message::lemma_put_then_get(h.headers, name, value, name);
}

/// A reply ends its head with the first empty line, has as long a body as the head says behind that,
/// and is one only where its status is between 200 and 299.
pub proof fn law_reply(r: Result<ReadStep, ReplyError>, got: Seq<u8>)
    requires
        is_step(r, got),
    ensures
        r matches Ok(ReadStep::Done(reply)) ==> 200 <= reply@.status < 300 && (exists|i: int|
            reply_at(got, i) && reply@.status == head_of(read_lossy(got.take(i + 4))).status
                && reply@.body == #[trigger] got.subrange(
                i + 4,
                i + 4 + head_of(read_lossy(got.take(i + 4))).content_length,
            )),
        r matches Err(ReplyError::Status { status, .. }) ==> status < 200 || status >= 300,
        r matches Err(ReplyError::HeadTooLarge) ==> got.len() > 16384,
        got.len() < 4 ==> (r matches Ok(step) && step is More),
{
    if let Some(i) = found_at(got, HEAD_END@, 0) {
        crate::rtsp::reply::lemma_found_bounds(got, HEAD_END@, 0);
        assert(got.subrange(i, i + 4) == HEAD_END@);
        assert(got.subrange(i, i + 4)[0] == got[i] && got.subrange(i, i + 4)[1] == got[i + 1]
            && got.subrange(i, i + 4)[2] == got[i + 2] && got.subrange(i, i + 4)[3] == got[i + 3]);
        assert forall|j: int| 0 <= j < i implies !(#[trigger] got[j] == 0x0d && got[j + 1] == 0x0a
            && got[j + 2] == 0x0d && got[j + 3] == 0x0a) by {
            if got[j] == 0x0d && got[j + 1] == 0x0a && got[j + 2] == 0x0d && got[j + 3] == 0x0a {
                assert(got.subrange(j, j + 4) =~= HEAD_END@);
                assert(crate::rtsp::reply::occurs_at(got, HEAD_END@, j));
            }
        }
        assert(reply_at(got, i));
        if let Ok(ReadStep::Done(reply)) = r {
            assert(reply@.body == got.subrange(
                i + 4,
                i + 4 + head_of(read_lossy(got.take(i + 4))).content_length,
            ));
        }
    }
}

/// Whether the first empty line, two line breaks one behind the other, stands at a place.
pub open spec fn reply_at(got: Seq<u8>, i: int) -> bool {
    &&& 0 <= i && i + 4 <= got.len()
    &&& got[i] == 0x0d && got[i + 1] == 0x0a && got[i + 2] == 0x0d && got[i + 3] == 0x0a
    &&& forall|j: int|
        0 <= j < i ==> !(#[trigger] got[j] == 0x0d && got[j + 1] == 0x0a && got[j + 2] == 0x0d
            && got[j + 3] == 0x0a)
}

/// A reader of the channel takes the length in front of a frame, the lower byte first, opens as many
/// bytes and sixteen with that length, and goes on behind them with the next number.
pub proof fn law_frame_is_read(
    key: Seq<u8>,
    nonce: u64,
    n: int,
    sealed: Seq<u8>,
    rest: Seq<u8>,
    counter: Seq<u8>,
)
    requires
        1 <= n <= 16384,
        sealed.len() == n + 16,
        counter.len() == 12,
        counter.take(4) == seq![0u8, 0, 0, 0],
        little64(counter, 4) == nonce,
    ensures
        ({
            let length = seq![(n % 256) as u8, (n / 256) as u8];
            let whole = unframed(key, nonce, length + sealed + rest);
            match aead_opened(key, counter, length, sealed) {
                Some(plain) => match unframed(key, (nonce + 1) as u64, rest) {
                    Some(others) => whole == Some(plain + others),
                    None => whole is None,
                },
                None => whole is None,
            }
        }),
        unframed(key, nonce, Seq::empty()) == Some(Seq::<u8>::empty()),
        unframed(key, nonce, seq![0u8, 0u8] + sealed + rest) is None,
{
    let length = seq![(n % 256) as u8, (n / 256) as u8];
    let wire = length + sealed + rest;
    assert(wire[0] == (n % 256) as u8 && wire[1] == (n / 256) as u8);
    assert(crate::bytes::le16_at(wire, 0) == n);
    assert(wire.take(2) =~= length);
    assert(wire.subrange(2, 18 + n) =~= sealed);
    assert(wire.skip(18 + n) =~= rest);
    lemma_counter(nonce, counter);
    let none = seq![0u8, 0u8] + sealed + rest;
    assert(none[0] == 0 && none[1] == 0);
    assert(crate::bytes::le16_at(none, 0) == 0);
}

/// Of what is noted down the first 1024 bytes are written out, and of the others their number.
pub proof fn law_dump(b: Seq<u8>, tail: Seq<u8>)
    requires
        tail.len() > 0,
    ensures
        b.len() <= 1024 ==> dump_of(b) == hex_of(b),
        b.len() == 1024 ==> dump_of(b + tail) == hex_of(b) + "…(+"@ + decimal_of(tail.len())
            + " bytes)"@,
{
    assert(b.len() == 1024 ==> (b + tail).take(1024) =~= b);
}

/// The status of a reply is the first word of its first line that is a number.
pub proof fn law_status(version: Seq<char>, n: nat, reason: Seq<char>)
    requires
        version.len() > 0,
        forall|k: int| 0 <= k < version.len() ==> !is_space(#[trigger] version[k]),
        unsigned_of(version, 65535) is None,
        n <= 65535,
    ensures
        status_from(version + seq![' '] + decimal_of(n) + seq![' '] + reason, 0) == n,
{
    let number = decimal_of(n);
    let s = version + seq![' '] + number + seq![' '] + reason;
    let at = version.len() as int;
    let end = at + 1 + number.len();
    crate::text::laws::law_decimal(n, 65535);
    crate::text::laws::law_white_space(' ');
    crate::text::lemma_decimal_value(n);
    assert forall|k: int| 0 <= k < at implies !is_space(#[trigger] s[k]) by {
        assert(s[k] == version[k]);
    }
    lemma_word(s, 0, at);
    assert(s.subrange(0, at) =~= version);
    assert forall|k: int| at + 1 <= k < end implies !is_space(#[trigger] s[k]) by {
        assert(s[k] == number[k - at - 1]);
        assert(crate::text::is_digit(number[k - at - 1]));
        crate::text::laws::law_white_space(s[k]);
    }
    lemma_word(s, at + 1, end);
    assert(s.subrange(at + 1, end) =~= number);
    assert(!is_space(s[0]) && is_space(s[at]) && !is_space(s[at + 1]));
    assert(status_from(s, at + 1) == n);
    assert(status_from(s, at) == n);
}

proof fn lemma_word(s: Seq<char>, i: int, end: int)
    requires
        0 <= i <= end < s.len(),
        is_space(s[end]),
        forall|k: int| i <= k < end ==> !is_space(#[trigger] s[k]),
    ensures
        crate::text::word_end(s, i) == end,
    decreases end - i,
{
    if i < end {
        lemma_word(s, i + 1, end);
    }
}

/// Once a channel is encrypted, it writes under the key for writing and reads under the key for
/// reading, and counts the frames of both directions from zero.
pub proof fn law_keys_of_a_channel(
    t: TransportView,
    write_key: Seq<u8>,
    read_key: Seq<u8>,
    plain: Seq<u8>,
    prefix: Seq<u8>,
    sealed: Seq<u8>,
)
    requires
        write_key.len() == 32,
        read_key.len() == 32,
        plain.len() <= 1024,
    ensures
        ({
            let start = keyed(t, write_key, read_key);
            let (after, out) = frame_opened(start, prefix, sealed);
            let opened = aead_opened(read_key, Seq::new(12, |i: int| 0u8), prefix, sealed);
            &&& start.cseq == t.cseq
            &&& sent(start, plain) matches Ok((_, wire)) && wire == framed(write_key, 0, plain)
            &&& opened matches Some(p) ==> (out matches Ok(got) && got == p)
            &&& opened is None ==> out is Err
            &&& after == (TransportView { read_nonce: 1, ..start })
            &&& frame_opened(after, prefix, sealed).0.read_nonce == 2
        }),
{
    let zeros = Seq::new(12, |i: int| 0u8);
    assert(zeros.take(4) =~= seq![0u8, 0, 0, 0]);
    lemma_counter(0, zeros);
}

} // verus!
