//! What the parts of a mirror session bring to the receiver.
use crate::bytes::{be_bytes32, le_bytes32, le_bytes64, low32};
use crate::mirror::frames::be_bytes64;
use crate::mirror::h264::{
    decoder_config, length_prefixed, lemma_strip_start_code, stripped, type_from,
};
use crate::mirror::setup::{
    audio_mode_of, audio_ports_from, audio_ports_of, audio_setup_of, event_port_of, video_port_from,
    video_port_of, video_setup_of, SetupParamsView,
};
use crate::mirror::stream::{
    at_level, drops, flushed, unit_taken, CongestionLevel, FlushView, FrameStreamView, StreamError,
};
use crate::property_list::{put, PlistView};
use vstd::prelude::*;

verus! {

broadcast proof fn lemma_get_behind_put(
    entries: Seq<(Seq<char>, PlistView)>,
    key: Seq<char>,
    value: PlistView,
    other: Seq<char>,
)
    ensures
        #[trigger] PlistView::Dictionary(put(entries, key, value)).get(other) == (if other == key {
            Some(value)
        } else {
            PlistView::Dictionary(entries).get(other)
        }),
{
    crate::property_list::lemma_put_then_get(entries, key, value, other);
}

proof fn lemma_request_keys()
    ensures
        "deviceID"@.len() == 8,
        "macAddress"@.len() == 10,
        "sessionUUID"@.len() == 11,
        "sourceVersion"@.len() == 13,
        "isScreenMirroringSession"@.len() == 24,
        "timingProtocol"@.len() == 14,
        "timingPort"@.len() == 10,
        "osBuildVersion"@.len() == 14,
        "model"@.len() == 5,
        "name"@.len() == 4,
        "ekey"@.len() == 4,
        "eiv"@.len() == 3,
        "et"@.len() == 2,
        "streams"@.len() == 7,
        "macAddress"@ != "timingPort"@,
        "timingProtocol"@ != "osBuildVersion"@,
        "name"@ != "ekey"@,
{
    reveal_strlit("deviceID");
    reveal_strlit("macAddress");
    reveal_strlit("sessionUUID");
    reveal_strlit("sourceVersion");
    reveal_strlit("isScreenMirroringSession");
    reveal_strlit("timingProtocol");
    reveal_strlit("timingPort");
    reveal_strlit("osBuildVersion");
    reveal_strlit("model");
    reveal_strlit("name");
    reveal_strlit("ekey");
    reveal_strlit("eiv");
    reveal_strlit("et");
    reveal_strlit("streams");
    assert("macAddress"@[0] == 'm');
    assert("timingPort"@[0] == 't');
    assert("timingProtocol"@[0] == 't');
    assert("osBuildVersion"@[0] == 'o');
    assert("name"@[0] == 'n');
    assert("ekey"@[0] == 'e');
}

proof fn lemma_video_keys()
    ensures
        "type"@.len() == 4,
        "streamConnectionID"@.len() == 18,
        "timestampInfo"@.len() == 13,
        "shk"@.len() == 3,
        "shiv"@.len() == 4,
        "type"@ != "shiv"@,
{
    reveal_strlit("type");
    reveal_strlit("streamConnectionID");
    reveal_strlit("timestampInfo");
    reveal_strlit("shk");
    reveal_strlit("shiv");
    assert("type"@[0] == 't');
    assert("shiv"@[0] == 's');
}

proof fn lemma_audio_keys()
    ensures
        "type"@.len() == 4,
        "streamConnectionID"@.len() == 18,
        "ct"@.len() == 2,
        "spf"@.len() == 3,
        "sr"@.len() == 2,
        "audioFormat"@.len() == 11,
        "audioFormatIndex"@.len() == 16,
        "controlPort"@.len() == 11,
        "audioMode"@.len() == 9,
        "usingScreen"@.len() == 11,
        "latencyMin"@.len() == 10,
        "latencyMax"@.len() == 10,
        "redundantAudio"@.len() == 14,
        "disableRetransmits"@.len() == 18,
        "shk"@.len() == 3,
        "isMedia"@.len() == 7,
        "supportsDynamicStreamID"@.len() == 23,
        "streamConnections"@.len() == 17,
        "streamConnectionID"@ != "disableRetransmits"@,
        "ct"@ != "sr"@,
        "spf"@ != "shk"@,
        "audioFormat"@ != "controlPort"@,
        "audioFormat"@ != "usingScreen"@,
        "controlPort"@ != "usingScreen"@,
        "latencyMin"@ != "latencyMax"@,
{
    reveal_strlit("type");
    reveal_strlit("streamConnectionID");
    reveal_strlit("ct");
    reveal_strlit("spf");
    reveal_strlit("sr");
    reveal_strlit("audioFormat");
    reveal_strlit("audioFormatIndex");
    reveal_strlit("controlPort");
    reveal_strlit("audioMode");
    reveal_strlit("usingScreen");
    reveal_strlit("latencyMin");
    reveal_strlit("latencyMax");
    reveal_strlit("redundantAudio");
    reveal_strlit("disableRetransmits");
    reveal_strlit("shk");
    reveal_strlit("isMedia");
    reveal_strlit("supportsDynamicStreamID");
    reveal_strlit("streamConnections");
    assert("streamConnectionID"@[0] == 's');
    assert("disableRetransmits"@[0] == 'd');
    assert("ct"@[0] == 'c');
    assert("sr"@[0] == 's');
    assert("spf"@[1] == 'p');
    assert("shk"@[1] == 'h');
    assert("audioFormat"@[0] == 'a');
    assert("controlPort"@[0] == 'c');
    assert("usingScreen"@[0] == 'u');
    assert("latencyMin"@[8] == 'i');
    assert("latencyMax"@[8] == 'a');
}

broadcast proof fn lemma_get_of_nothing(key: Seq<char>)
    ensures
        #[trigger] PlistView::Dictionary(Seq::empty()).get(key) is None,
{
}

/// The setup of the video tells the receiver the key of the frames as the key and their first block
/// as the vector, and wraps the same key; with encryption off it tells none of them.
#[verifier::rlimit(100)]
#[verifier::spinoff_prover]
pub proof fn law_video_setup(p: SetupParamsView, id: i64)
    ensures
        ({
            let r = video_setup_of(p, id);
            &&& r.get("streams"@) matches Some(PlistView::Array(streams)) && streams.len() == 1 && {
                let v = streams[0];
                &&& v.get("type"@) == Some(PlistView::Integer(110))
                &&& v.get("streamConnectionID"@) == Some(PlistView::Integer(id))
                &&& v.get("timestampInfo"@) is Some
                &&& !p.no_encrypt ==> v.get("shk"@) == Some(PlistView::Data(p.stream_key)) && v.get(
                    "shiv"@,
                ) == Some(PlistView::Data(p.iv))
                &&& p.no_encrypt ==> v.get("shk"@) is None && v.get("shiv"@) is None
            }
            &&& r.get("deviceID"@) == Some(PlistView::Text(p.client_device_id))
            &&& r.get("macAddress"@) == Some(PlistView::Text(p.client_device_id))
            &&& r.get("sessionUUID"@) == Some(PlistView::Text(p.session_uuid))
            &&& r.get("isScreenMirroringSession"@) == Some(PlistView::Boolean(true))
            &&& r.get("timingProtocol"@) == Some(PlistView::Text("NTP"@))
            &&& r.get("timingPort"@) == Some(PlistView::Integer(p.timing_port as i64))
            &&& !p.no_encrypt ==> r.get("ekey"@) == Some(PlistView::Data(p.ekey)) && r.get("eiv"@)
                == Some(PlistView::Data(p.iv))
            &&& p.no_encrypt ==> r.get("ekey"@) is None && r.get("eiv"@) is None
        }),
{
    broadcast use {lemma_get_behind_put, lemma_get_of_nothing};

    lemma_request_keys();
    lemma_video_keys();
}

proof fn lemma_connection_keys()
    ensures
        "streamConnectionTypeRTP"@.len() == 23,
        "streamConnectionTypeRTCP"@.len() == 24,
        "streamConnectionKeyUseStreamEncryptionKey"@.len() == 41,
        "streamConnectionKeyPort"@.len() == 23,
        "streamConnectionTypeRTP"@ != "streamConnectionKeyPort"@,
{
    reveal_strlit("streamConnectionTypeRTP");
    reveal_strlit("streamConnectionTypeRTCP");
    reveal_strlit("streamConnectionKeyUseStreamEncryptionKey");
    reveal_strlit("streamConnectionKeyPort");
    assert("streamConnectionTypeRTP"@[16] == 'T');
    assert("streamConnectionKeyPort"@[16] == 'K');
}

/// The setup of the sound describes ALAC at 44100 samples a second, 352 in a packet, and a latency
/// that is both the least and the most. Under modern encryption it tells the key of the sound and the
/// port of the control channel, and no packet is sent twice; else it wraps the key of the video, where
/// there is one to wrap.
#[verifier::rlimit(100)]
#[verifier::spinoff_prover]
pub proof fn law_audio_setup(p: SetupParamsView, id: i64, latency_samples: u32)
    ensures
        ({
            let r = audio_setup_of(p, id, latency_samples);
            let wraps = !p.encrypted && p.ekey.len() > 0;
            &&& r.get("streams"@) matches Some(PlistView::Array(streams)) && streams.len() == 1 && {
                let a = streams[0];
                &&& a.get("type"@) == Some(PlistView::Integer(96))
                &&& a.get("streamConnectionID"@) == Some(PlistView::Integer(id))
                &&& a.get("ct"@) == Some(PlistView::Integer(2))
                &&& a.get("spf"@) == Some(PlistView::Integer(352))
                &&& a.get("sr"@) == Some(PlistView::Integer(44100))
                &&& a.get("audioFormat"@) == Some(PlistView::Integer(0x40000))
                &&& a.get("audioFormatIndex"@) == Some(PlistView::Integer(0x12))
                &&& a.get("controlPort"@) == Some(PlistView::Integer(p.audio_control_port as i64))
                &&& a.get("audioMode"@) == Some(PlistView::Text("default"@))
                &&& a.get("usingScreen"@) == Some(PlistView::Boolean(true))
                &&& a.get("latencyMin"@) == Some(PlistView::Integer(latency_samples as i64))
                &&& a.get("latencyMax"@) == Some(PlistView::Integer(latency_samples as i64))
                &&& !p.encrypted ==> a.get("redundantAudio"@) == Some(PlistView::Integer(2))
                    && a.get("shk"@) is None && a.get("disableRetransmits"@) is None && a.get(
                    "isMedia"@,
                ) is None && a.get("supportsDynamicStreamID"@) is None && a.get(
                    "streamConnections"@,
                ) is None
                &&& p.encrypted ==> {
                    &&& a.get("redundantAudio"@) == Some(PlistView::Integer(0))
                    &&& a.get("shk"@) == Some(PlistView::Data(p.audio_key))
                    &&& a.get("disableRetransmits"@) == Some(PlistView::Boolean(true))
                    &&& a.get("isMedia"@) == Some(PlistView::Boolean(true))
                    &&& a.get("supportsDynamicStreamID"@) == Some(PlistView::Boolean(true))
                    &&& a.get("streamConnections"@) matches Some(c) && (c.get(
                        "streamConnectionTypeRTP"@,
                    ) matches Some(rtp) && rtp.get("streamConnectionKeyUseStreamEncryptionKey"@)
                        == Some(PlistView::Boolean(true))) && (c.get(
                        "streamConnectionTypeRTCP"@,
                    ) matches Some(rtcp) && rtcp.get("streamConnectionKeyPort"@) == Some(
                        PlistView::Integer(p.audio_control_port as i64),
                    ))
                }
            }
            &&& r.get("deviceID"@) == Some(PlistView::Text(p.client_device_id))
            &&& r.get("macAddress"@) == Some(PlistView::Text(p.client_device_id))
            &&& r.get("sessionUUID"@) == Some(PlistView::Text(p.session_uuid))
            &&& r.get("timingProtocol"@) == Some(PlistView::Text("NTP"@))
            &&& r.get("timingPort"@) == Some(PlistView::Integer(p.timing_port as i64))
            &&& wraps ==> r.get("et"@) == Some(PlistView::Integer(32)) && r.get("ekey"@) == Some(
                PlistView::Data(p.ekey),
            ) && r.get("eiv"@) == Some(PlistView::Data(p.iv))
            &&& !wraps ==> r.get("et"@) is None && r.get("ekey"@) is None && r.get("eiv"@) is None
        }),
{
    broadcast use {lemma_get_behind_put, lemma_get_of_nothing};

    lemma_request_keys();
    lemma_audio_keys();
    lemma_connection_keys();
}

/// The ports of the sound are those of the first stream of its kind in the answer: the ports of its
/// connections where they are stated, and else the plain ones.
pub proof fn law_audio_ports(reply: PlistView, streams: Seq<PlistView>, i: int, data: u16, control: u16)
    requires
        reply.get("streams"@) == Some(PlistView::Array(streams)),
        0 <= i < streams.len(),
        streams[i].get("type"@) == Some(PlistView::Integer(96)),
        forall|j: int|
            0 <= j < i ==> ((#[trigger] streams[j]).get("type"@) matches Some(
                PlistView::Integer(n),
            ) && n != 96),
        match streams[i].get("streamConnections"@) {
            None => streams[i].get("dataPort"@) == Some(PlistView::Integer(data as i64))
                && streams[i].get("controlPort"@) == Some(PlistView::Integer(control as i64)),
            Some(c) => data > 0 && control > 0 && (c.get("streamConnectionTypeRTP"@) matches Some(rtp)
                && rtp.get("streamConnectionKeyPort"@) == Some(PlistView::Integer(data as i64))) && (
            c.get("streamConnectionTypeRTCP"@) matches Some(rtcp) && rtcp.get(
                "streamConnectionKeyPort"@,
            ) == Some(PlistView::Integer(control as i64))),
        },
    ensures
        audio_ports_of(reply) == Some((data, control)),
{
    lemma_audio_ports_skip(streams, 0, i);
}

proof fn lemma_audio_ports_skip(streams: Seq<PlistView>, from: int, i: int)
    requires
        0 <= from <= i < streams.len(),
        forall|j: int|
            0 <= j < i ==> ((#[trigger] streams[j]).get("type"@) matches Some(
                PlistView::Integer(n),
            ) && n != 96),
    ensures
        audio_ports_from(streams, from) == audio_ports_from(streams, i),
    decreases i - from,
{
    if from < i {
        assert(streams[from].get("type"@) is Some);
        lemma_audio_ports_skip(streams, from + 1, i);
    }
}

/// The port of the video is that of the first stream of its kind in the answer.
pub proof fn law_video_port(reply: PlistView, streams: Seq<PlistView>, i: int, port: u16)
    requires
        reply.get("streams"@) == Some(PlistView::Array(streams)),
        0 <= i < streams.len(),
        streams[i].get("type"@) == Some(PlistView::Integer(110)),
        streams[i].get("dataPort"@) == Some(PlistView::Integer(port as i64)),
        forall|j: int|
            0 <= j < i ==> ((#[trigger] streams[j]).get("type"@) matches Some(
                PlistView::Integer(n),
            ) && n != 110),
    ensures
        video_port_of(reply) == Some(port),
{
    lemma_video_port_skip(streams, 0, i);
}

proof fn lemma_video_port_skip(streams: Seq<PlistView>, from: int, i: int)
    requires
        0 <= from <= i < streams.len(),
        forall|j: int|
            0 <= j < i ==> ((#[trigger] streams[j]).get("type"@) matches Some(
                PlistView::Integer(n),
            ) && n != 110),
    ensures
        video_port_from(streams, from) == video_port_from(streams, i),
    decreases i - from,
{
    if from < i {
        assert(streams[from].get("type"@) is Some);
        lemma_video_port_skip(streams, from + 1, i);
    }
}

/// An answer without a stream of the kind has no port for it, and one without a port for events has
/// none of those.
pub proof fn law_no_ports(reply: PlistView, port: u16)
    ensures
        reply.get("streams"@) is None ==> audio_ports_of(reply) is None && video_port_of(reply)
            is None,
        reply.get("streams"@) == Some(PlistView::Array(Seq::empty())) ==> audio_ports_of(reply)
            is None && video_port_of(reply) is None,
        reply.get("eventPort"@) is None ==> event_port_of(reply) == 0,
        reply.get("eventPort"@) == Some(PlistView::Integer(port as i64)) ==> event_port_of(reply)
            == port,
{
}

/// A slice as a frame carries it: four bytes of length, the highest first, and the slice.
pub open spec fn framed(raw: Seq<u8>) -> Seq<u8> {
    seq![
        (raw.len() / 0x100_0000 % 0x100) as u8,
        (raw.len() / 0x1_0000 % 0x100) as u8,
        (raw.len() / 0x100 % 0x100) as u8,
        (raw.len() % 0x100) as u8,
    ] + raw
}

/// Slices as a frame carries them, one behind the other.
pub open spec fn all_framed(slices: Seq<Seq<u8>>) -> Seq<u8>
    decreases slices.len(),
{
    if slices.len() == 0 {
        Seq::empty()
    } else {
        all_framed(slices.drop_last()) + framed(slices.last())
    }
}

/// A unit as the encoder writes it: behind its start code.
pub open spec fn unit(raw: Seq<u8>) -> Seq<u8> {
    seq![0u8, 0u8, 0u8, 1u8] + raw
}

/// The stream behind slices that complete no frame.
pub open spec fn all_taken(s: FrameStreamView, slices: Seq<Seq<u8>>) -> Option<FrameStreamView>
    decreases slices.len(),
{
    if slices.len() == 0 {
        Some(s)
    } else {
        match all_taken(s, slices.drop_last()) {
            None => None,
            Some(t) => match unit_taken(t, unit(slices.last())) {
                Ok((after, None)) => Some(after),
                _ => None,
            },
        }
    }
}

/// Whether slices make one picture: they are of one kind, and only the first may start a picture.
pub open spec fn one_picture(slices: Seq<Seq<u8>>, key: bool) -> bool {
    forall|i: int|
        0 <= i < slices.len() ==> {
            let raw = #[trigger] slices[i];
            &&& 0 < raw.len() < 0x1_0000_0000
            &&& key ==> raw[0] & 0x1f == 5
            &&& !key ==> 1 <= raw[0] & 0x1f <= 4
            &&& i > 0 && raw.len() >= 2 ==> raw[1] & 0x80 == 0
        }
}

proof fn lemma_unit(raw: Seq<u8>)
    requires
        0 < raw.len() < 0x1_0000_0000,
    ensures
        type_from(unit(raw), 0) == raw[0] & 0x1f,
        stripped(unit(raw)) == raw,
        length_prefixed(raw) == framed(raw),
{
    assert(unit(raw) =~= crate::mirror::h264::coded(raw));
    lemma_strip_start_code(raw);
    let n = low32(raw.len() as usize);
    assert(n == raw.len());
    assert(length_prefixed(raw) =~= framed(raw));
}

/// A frame holds every slice of its picture: taken one by one they complete nothing, and then stand
/// in the frame in their order, each behind its length.
pub proof fn law_slices_gather(s: FrameStreamView, slices: Seq<Seq<u8>>, key: bool)
    requires
        s.vcl.len() == 0,
        s.pending_keyframe ==> key,
        slices.len() > 0,
        one_picture(slices, key),
    ensures
        all_taken(s, slices) == Some(
            FrameStreamView { vcl: all_framed(slices), pending_keyframe: key, ..s },
        ),
        all_framed(slices).len() > 0,
    decreases slices.len(),
{
    let last = slices.last();
    let before = slices.drop_last();
    assert(last == slices[slices.len() - 1]);
    lemma_unit(last);
    assert(framed(last).len() > 0);
    if before.len() > 0 {
        assert(one_picture(before, key)) by {
            assert forall|i: int| 0 <= i < before.len() implies ({
                let raw = #[trigger] before[i];
                &&& 0 < raw.len() < 0x1_0000_0000
                &&& key ==> raw[0] & 0x1f == 5
                &&& !key ==> 1 <= raw[0] & 0x1f <= 4
                &&& i > 0 && raw.len() >= 2 ==> raw[1] & 0x80 == 0
            }) by {
                assert(before[i] == slices[i]);
            }
        }
        law_slices_gather(s, before, key);
    } else {
        assert(all_taken(s, before) == Some(s));
        assert(all_framed(before) =~= Seq::<u8>::empty());
        assert(s.vcl =~= Seq::<u8>::empty());
    }
}

/// The frame that is sent is the picture: every slice, in order, each behind its length. Once the
/// decoder is configured a keyframe is always sent, and another frame where congestion spares it.
pub proof fn law_frame_is_the_picture(s: FrameStreamView, slices: Seq<Seq<u8>>, key: bool)
    requires
        s.vcl.len() == 0,
        s.pending_keyframe ==> key,
        slices.len() > 0,
        one_picture(slices, key),
        s.primed,
        s.sps matches Some(sps) ==> sps.len() >= 4,
        key || s.level == CongestionLevel::Free,
    ensures
        all_taken(s, slices) matches Some(t) && (flushed(t) matches Ok((after, Some(f))) && f.frame
            == all_framed(slices) && f.keyframe == key && (f.codec is Some ==> key)
            && after.vcl.len() == 0 && !after.pending_keyframe && after.primed && after.sps == s.sps
            && after.pps == s.pps && after.level == s.level),
{
    law_slices_gather(s, slices, key);
}

/// A delimiter and a sequence parameter set complete the frame before them, a picture parameter set
/// does not; the sets are remembered as they came, without their start codes. What is neither a set
/// nor a slice is passed over.
pub proof fn law_parameter_sets(s: FrameStreamView, raw: Seq<u8>)
    requires
        0 < raw.len() < 0x1_0000_0000,
    ensures
        ({
            let kind = raw[0] & 0x1f;
            let taken = unit_taken(s, unit(raw));
            &&& kind == 9 ==> taken == flushed(s)
            &&& kind == 7 ==> match flushed(s) {
                Ok((after, f)) => taken == Ok::<_, StreamError>(
                    (FrameStreamView { sps: Some(raw), ..after }, f),
                ),
                Err(e) => taken == Err::<(FrameStreamView, Option<FlushView>), _>(e),
            }
            &&& kind == 8 ==> taken == Ok::<_, StreamError>(
                (FrameStreamView { pps: Some(raw), ..s }, None::<FlushView>),
            )
            &&& kind == 0 || kind == 6 || kind > 9 ==> taken == Ok::<_, StreamError>(
                (s, None::<FlushView>),
            )
        }),
{
    lemma_unit(raw);
}

/// A slice that starts a picture completes the frame before it, and so does one of the other kind;
/// the new frame holds that slice alone.
pub proof fn law_next_picture(s: FrameStreamView, raw: Seq<u8>)
    requires
        0 < raw.len() < 0x1_0000_0000,
        1 <= raw[0] & 0x1f <= 5,
        s.vcl.len() > 0,
        (raw.len() >= 2 && raw[1] & 0x80 != 0) || (s.pending_keyframe <==> raw[0] & 0x1f != 5),
    ensures
        match flushed(s) {
            Ok((after, f)) => unit_taken(s, unit(raw)) matches Ok((next, g)) && g == f && next.vcl
                == framed(raw) && (raw[0] & 0x1f == 5 ==> next.pending_keyframe),
            Err(e) => unit_taken(s, unit(raw)) == Err::<(FrameStreamView, Option<FlushView>), _>(e),
        },
{
    lemma_unit(raw);
    if let Ok((after, f)) = flushed(s) {
        assert(after.vcl.len() == 0);
        assert(after.vcl + framed(raw) =~= framed(raw));
    }
}

/// Congestion drops no frame, one in three, one in two or every frame, by its level.
pub proof fn law_drops(n: u64)
    requires
        n <= u64::MAX - 2,
    ensures
        !drops(CongestionLevel::Free, n),
        drops(CongestionLevel::Heavy, n),
        drops(CongestionLevel::Medium, n) != drops(CongestionLevel::Medium, (n + 1) as u64),
        drops(CongestionLevel::Medium, 0) && drops(CongestionLevel::Light, 0),
        drops(CongestionLevel::Light, n) || drops(CongestionLevel::Light, (n + 1) as u64) || drops(
            CongestionLevel::Light,
            (n + 2) as u64,
        ),
        drops(CongestionLevel::Light, n) ==> !drops(CongestionLevel::Light, (n + 1) as u64)
            && !drops(CongestionLevel::Light, (n + 2) as u64),
{
}

/// The decoder configuration states the profile of the sequence parameter set and holds both sets,
/// each behind its length in two bytes, the higher one first.
pub proof fn law_decoder_config(sps: Seq<u8>, pps: Seq<u8>)
    requires
        4 <= sps.len() < 0x1_0000,
        pps.len() < 0x1_0000,
    ensures
        ({
            let c = decoder_config(sps, pps);
            let n = sps.len() as int;
            let m = pps.len() as int;
            &&& c.len() == 15 + n + m
            &&& c[0] == 1 && c[1] == sps[1] && c[2] == sps[2] && c[3] == sps[3]
            &&& c[4] == 0xff && c[5] == 0xe1
            &&& 0x100 * c[6] + c[7] == n
            &&& c.subrange(8, 8 + n) == sps
            &&& c[8 + n] == 1
            &&& 0x100 * c[9 + n] + c[10 + n] == m
            &&& c.subrange(11 + n, 11 + n + m) == pps
            &&& c.skip(11 + n + m) == seq![2u8, 0, 0, 0]
        }),
{
    let c = decoder_config(sps, pps);
    let n = sps.len() as int;
    let m = pps.len() as int;
    assert(c.subrange(8, 8 + n) =~= sps);
    assert(c.subrange(11 + n, 11 + n + m) =~= pps);
    assert(c.skip(11 + n + m) =~= seq![2u8, 0, 0, 0]);
}

/// The number that four bytes from place `i` on write, the lowest first.
pub open spec fn little32(b: Seq<u8>, i: int) -> int {
    b[i] + 0x100 * b[i + 1] + 0x1_0000 * b[i + 2] + 0x100_0000 * b[i + 3]
}

/// The number that four bytes from place `i` on write, the highest first.
pub open spec fn big32(b: Seq<u8>, i: int) -> int {
    0x100_0000 * b[i] + 0x1_0000 * b[i + 1] + 0x100 * b[i + 2] + b[i + 3]
}

/// The number that eight bytes from place `i` on write, the lowest first.
pub open spec fn little64(b: Seq<u8>, i: int) -> int {
    little32(b, i) + 0x1_0000_0000 * little32(b, i + 4)
}

/// The number that eight bytes from place `i` on write, the highest first.
pub open spec fn big64(b: Seq<u8>, i: int) -> int {
    0x1_0000_0000 * big32(b, i) + big32(b, i + 4)
}

/// The bytes of a number write that number.
pub proof fn lemma_bytes_write_numbers(a: u32, b: u64)
    ensures
        little32(le_bytes32(a), 0) == a,
        big32(be_bytes32(a), 0) == a,
        little64(le_bytes64(b), 0) == b,
        big64(be_bytes64(b), 0) == b,
        le_bytes32(a).len() == 4,
        be_bytes32(a).len() == 4,
        le_bytes64(b).len() == 8,
        be_bytes64(b).len() == 8,
{
    let low = (b % 0x1_0000_0000) as u32;
    let high = (b / 0x1_0000_0000) as u32;
    assert(little32(le_bytes32(a), 0) == a);
    assert(big32(be_bytes32(a), 0) == a);
    let w = le_bytes64(b);
    assert(w[0] + 0x100 * w[1] + 0x1_0000 * w[2] + 0x100_0000 * w[3] == low);
    assert(w[4] + 0x100 * w[5] + 0x1_0000 * w[6] + 0x100_0000 * w[7] == high);
    let v = be_bytes64(b);
    assert(big32(be_bytes32(high), 0) == high);
    assert(big32(be_bytes32(low), 0) == low);
    assert(big32(v, 0) == high);
    assert(big32(v, 4) == low);
}

/// The sound of an encrypted control channel is sealed, and that of another one is encrypted alone.
pub proof fn law_audio_security(encrypted: bool)
    ensures
        encrypted ==> audio_mode_of(encrypted) is ChaCha,
        !encrypted ==> audio_mode_of(encrypted) is LegacyAes,
{
}

/// Pictures that are skipped are counted anew once the way is free, and a level that is set again, or
/// another one that is not free, changes nothing but itself.
pub proof fn law_level(s: FrameStreamView, level: CongestionLevel)
    ensures
        at_level(s, s.level) == s,
        at_level(s, level).level == level,
        at_level(at_level(s, CongestionLevel::Heavy), CongestionLevel::Free) == (FrameStreamView {
            level: CongestionLevel::Free,
            skipped: 0,
            ..s
        }),
        level != CongestionLevel::Free ==> at_level(s, level) == (FrameStreamView { level, ..s }),
{
}

} // verus!
