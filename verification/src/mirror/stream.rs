//! From units of the video stream to frames: what is gathered, what is sent, what is dropped.
use crate::bytes::extend;
use crate::mirror::h264::{
    avcc_wrap, build_avcc_config, decoder_config, is_first_slice, length_prefixed, nal_type,
    starts_picture, strip_start_code, stripped, type_from, H264Parser,
};
use crate::mirror::sps::{picture_size, sps_dimensions};
use vstd::prelude::*;
use vstd::slice::slice_to_vec;

verus! {

/// How badly the channel is congested.
#[derive(Clone, Copy, Debug, PartialEq, Eq, Structural)]
pub enum CongestionLevel {
    Free,
    Light,
    Medium,
    Heavy,
}

/// Whether a frame is dropped at a level: every third, every second, or every one.
#[verifier::allow_in_spec]
pub fn drops(level: CongestionLevel, frame_count: u64) -> bool
    returns
        match level {
            CongestionLevel::Free => false,
            CongestionLevel::Light => frame_count % 3 == 0,
            CongestionLevel::Medium => frame_count % 2 == 0,
            CongestionLevel::Heavy => true,
        },
{
    match level {
        CongestionLevel::Free => false,
        CongestionLevel::Light => frame_count % 3 == 0,
        CongestionLevel::Medium => frame_count % 2 == 0,
        CongestionLevel::Heavy => true,
    }
}

/// Why the stream cannot go on.
#[derive(Clone, Copy, Debug, PartialEq, Eq, Structural)]
pub enum StreamError {
    /// The sequence parameter set is too short to configure a decoder.
    ShortSps,
}

/// A decoder configuration to send, and the picture size it states.
pub struct CodecUpdate {
    pub config: Vec<u8>,
    pub size: Option<(i32, i32)>,
}

/// A frame to send, behind the decoder configuration where one is due.
pub struct Flush {
    pub codec: Option<CodecUpdate>,
    pub frame: Vec<u8>,
    pub keyframe: bool,
}

#[verifier::ext_equal]
pub struct CodecUpdateView {
    pub config: Seq<u8>,
    pub size: Option<(int, int)>,
}

#[verifier::ext_equal]
pub struct FlushView {
    pub codec: Option<CodecUpdateView>,
    pub frame: Seq<u8>,
    pub keyframe: bool,
}

pub open spec fn size_view(size: Option<(i32, i32)>) -> Option<(int, int)> {
    match size {
        Some((w, h)) => Some((w as int, h as int)),
        None => None,
    }
}

impl View for Flush {
    type V = FlushView;

    open spec fn view(&self) -> FlushView {
        FlushView {
            codec: match self.codec {
                Some(c) => Some(CodecUpdateView { config: c.config@, size: size_view(c.size) }),
                None => None,
            },
            frame: self.frame@,
            keyframe: self.keyframe,
        }
    }
}

pub open spec fn flush_view(f: Option<Flush>) -> Option<FlushView> {
    match f {
        Some(f) => Some(f@),
        None => None,
    }
}

/// The gathering of frames.
pub struct FrameStream {
    pub parser: H264Parser,
    pub latest_sps: Option<Vec<u8>>,
    pub latest_pps: Option<Vec<u8>>,
    /// The slices of the frame being gathered, each behind its length.
    pub vcl: Vec<u8>,
    /// Whether the frame being gathered is a keyframe.
    pub pending_keyframe: bool,
    /// Whether the decoder was ever configured.
    pub primed: bool,
    pub frame_count: u64,
    pub level: CongestionLevel,
    /// How many frames were dropped since the channel was last free.
    pub skipped: u64,
}

#[verifier::ext_equal]
pub struct FrameStreamView {
    pub buffered: Seq<u8>,
    pub sps: Option<Seq<u8>>,
    pub pps: Option<Seq<u8>>,
    pub vcl: Seq<u8>,
    pub pending_keyframe: bool,
    pub primed: bool,
    pub frame_count: u64,
    pub level: CongestionLevel,
    pub skipped: u64,
}

pub open spec fn opt_view(v: Option<Vec<u8>>) -> Option<Seq<u8>> {
    match v {
        Some(v) => Some(v@),
        None => None,
    }
}

impl View for FrameStream {
    type V = FrameStreamView;

    open spec fn view(&self) -> FrameStreamView {
        FrameStreamView {
            buffered: self.parser@,
            sps: opt_view(self.latest_sps),
            pps: opt_view(self.latest_pps),
            vcl: self.vcl@,
            pending_keyframe: self.pending_keyframe,
            primed: self.primed,
            frame_count: self.frame_count,
            level: self.level,
            skipped: self.skipped,
        }
    }
}

/// The stream once the frame being gathered is given up.
pub open spec fn discarded(s: FrameStreamView) -> FrameStreamView {
    FrameStreamView { vcl: Seq::empty(), ..s }
}

/// The end of a frame: the stream after it, and the frame to send, if any. Before the decoder is
/// configured only a keyframe with both parameter sets is sent; a keyframe brings the
/// configuration along; any other frame may fall to congestion.
pub open spec fn flushed(s: FrameStreamView) -> Result<
    (FrameStreamView, Option<FlushView>),
    StreamError,
> {
    if s.vcl.len() == 0 {
        Ok((s, None))
    } else if !s.primed && (!s.pending_keyframe || s.sps is None || s.pps is None) {
        Ok((discarded(s), None))
    } else if !s.pending_keyframe && drops(s.level, s.frame_count) {
        Ok((FrameStreamView { skipped: s.skipped.wrapping_add(1), ..discarded(s) }, None))
    } else {
        let configures = s.pending_keyframe && s.sps is Some && s.pps is Some;
        if configures && s.sps->Some_0.len() < 4 {
            Err(StreamError::ShortSps)
        } else {
            Ok(
                (
                    FrameStreamView {
                        pending_keyframe: false,
                        primed: s.primed || configures,
                        frame_count: s.frame_count.wrapping_add(1),
                        ..discarded(s)
                    },
                    Some(
                        FlushView {
                            codec: if configures {
                                Some(
                                    CodecUpdateView {
                                        config: decoder_config(s.sps->Some_0, s.pps->Some_0),
                                        size: picture_size(s.sps->Some_0),
                                    },
                                )
                            } else {
                                None
                            },
                            frame: s.vcl,
                            keyframe: s.pending_keyframe,
                        },
                    ),
                ),
            )
        }
    }
}

/// The stream with one more slice in the frame being gathered.
pub open spec fn gathered(s: FrameStreamView, raw: Seq<u8>, keyframe: bool) -> FrameStreamView {
    FrameStreamView {
        vcl: s.vcl + length_prefixed(raw),
        pending_keyframe: keyframe || s.pending_keyframe,
        ..s
    }
}

/// A unit of the stream: the stream after it, and the frame that it completes, if any. A delimiter
/// or a sequence parameter set completes a frame; so does a slice of the other kind, and one that
/// starts a picture.
pub open spec fn unit_taken(s: FrameStreamView, nal: Seq<u8>) -> Result<
    (FrameStreamView, Option<FlushView>),
    StreamError,
> {
    let kind = type_from(nal, 0);
    let raw = stripped(nal);
    if kind == 9 {
        flushed(s)
    } else if kind == 7 {
        match flushed(s) {
            Err(e) => Err(e),
            Ok((after, f)) => Ok((FrameStreamView { sps: Some(raw), ..after }, f)),
        }
    } else if kind == 8 {
        Ok((FrameStreamView { pps: Some(raw), ..s }, None))
    } else if 1 <= kind <= 5 {
        let key = kind == 5;
        if s.vcl.len() > 0 && (s.pending_keyframe != key || starts_picture(raw)) {
            match flushed(s) {
                Err(e) => Err(e),
                Ok((after, f)) => Ok((gathered(after, raw, key), f)),
            }
        } else {
            Ok((gathered(s, raw, key), None))
        }
    } else {
        Ok((s, None))
    }
}

impl FrameStream {
    pub fn new() -> (r: FrameStream)
        ensures
            r@ == (FrameStreamView {
                buffered: Seq::empty(),
                sps: None,
                pps: None,
                vcl: Seq::empty(),
                pending_keyframe: false,
                primed: false,
                frame_count: 0,
                level: CongestionLevel::Free,
                skipped: 0,
            }),
    {
        FrameStream {
            parser: H264Parser::new(),
            latest_sps: None,
            latest_pps: None,
            vcl: Vec::new(),
            pending_keyframe: false,
            primed: false,
            frame_count: 0,
            level: CongestionLevel::Free,
            skipped: 0,
        }
    }

    /// Takes the congestion level that was measured; once the channel is free again, the count of
    /// dropped frames starts over.
    pub fn set_level(&mut self, level: CongestionLevel)
        ensures
            final(self)@ == at_level(old(self)@, level),
    {
        if level != self.level {
            if level == CongestionLevel::Free {
                self.skipped = 0;
            }
            self.level = level;
        }
    }

    /// Takes captured bytes and returns the units that are complete.
    pub fn units(&mut self, data: &[u8]) -> (r: Vec<Vec<u8>>)
        ensures
            ({
                let (units, rest) = crate::mirror::h264::split(old(self)@.buffered + data@);
                crate::mirror::h264::contents(r@) == units && final(self)@ == (FrameStreamView {
                    buffered: rest,
                    ..old(self)@
                })
            }),
    {
        self.parser.push(data)
    }

    fn codec_update(&self) -> (r: Result<Option<CodecUpdate>, StreamError>)
        ensures
            ({
                let s = self@;
                let configures = s.pending_keyframe && s.sps is Some && s.pps is Some;
                if configures && s.sps->Some_0.len() < 4 {
                    r is Err && r->Err_0 == StreamError::ShortSps
                } else if configures {
                    r is Ok && r->Ok_0 is Some && r->Ok_0->Some_0.config@ == decoder_config(
                        s.sps->Some_0,
                        s.pps->Some_0,
                    ) && size_view(r->Ok_0->Some_0.size) == picture_size(s.sps->Some_0)
                } else {
                    r is Ok && r->Ok_0 is None
                }
            }),
    {
        if !self.pending_keyframe {
            return Ok(None);
        }
        match (&self.latest_sps, &self.latest_pps) {
            (Some(sps), Some(pps)) => {
                if sps.len() < 4 {
                    return Err(StreamError::ShortSps);
                }
                let size: Option<(i32, i32)> = sps_dimensions(sps.as_slice());
                Ok(
                    Some(
                        CodecUpdate {
                            config: build_avcc_config(sps.as_slice(), pps.as_slice()),
                            size,
                        },
                    ),
                )
            },
            _ => Ok(None),
        }
    }

    /// Ends the frame being gathered.
    pub fn flush(&mut self) -> (r: Result<Option<Flush>, StreamError>)
        ensures
            match flushed(old(self)@) {
                Ok((after, f)) => r matches Ok(got) && flush_view(got) == f && final(self)@
                    == after,
                Err(e) => r is Err && r->Err_0 == e && final(self)@ == old(self)@,
            },
    {
        if self.vcl.len() == 0 {
            return Ok(None);
        }
        let configurable: bool = self.pending_keyframe && self.latest_sps.is_some()
            && self.latest_pps.is_some();
        if !self.primed && !configurable {
            self.vcl = Vec::new();
            assert(self@.vcl =~= Seq::<u8>::empty());
            return Ok(None);
        }
        if !self.pending_keyframe && drops(self.level, self.frame_count) {
            self.vcl = Vec::new();
            self.skipped = self.skipped.wrapping_add(1);
            assert(self@.vcl =~= Seq::<u8>::empty());
            return Ok(None);
        }
        let codec: Option<CodecUpdate> = match self.codec_update() {
            Ok(codec) => codec,
            Err(e) => {
                return Err(e);
            },
        };
        if codec.is_some() {
            self.primed = true;
        }
        let frame: Vec<u8> = slice_to_vec(self.vcl.as_slice());
        let keyframe: bool = self.pending_keyframe;
        self.vcl = Vec::new();
        self.pending_keyframe = false;
        self.frame_count = self.frame_count.wrapping_add(1);
        assert(self@.vcl =~= Seq::<u8>::empty());
        Ok(Some(Flush { codec, frame, keyframe }))
    }

    fn gather(&mut self, raw: &[u8], keyframe: bool)
        ensures
            final(self)@ == gathered(old(self)@, raw@, keyframe),
    {
        if keyframe {
            self.pending_keyframe = true;
        }
        let wrapped: Vec<u8> = avcc_wrap(raw);
        extend(&mut self.vcl, wrapped.as_slice());
    }

    /// Takes one unit.
    pub fn take_unit(&mut self, nal: &[u8]) -> (r: Result<Option<Flush>, StreamError>)
        ensures
            match unit_taken(old(self)@, nal@) {
                Ok((after, f)) => r matches Ok(got) && flush_view(got) == f && final(self)@
                    == after,
                Err(e) => r is Err && r->Err_0 == e && final(self)@ == old(self)@,
            },
    {
        let kind: u8 = nal_type(nal);
        let raw: Vec<u8> = strip_start_code(nal);
        if kind == 9 {
            self.flush()
        } else if kind == 7 {
            match self.flush() {
                Err(e) => Err(e),
                Ok(f) => {
                    self.latest_sps = Some(raw);
                    Ok(f)
                },
            }
        } else if kind == 8 {
            self.latest_pps = Some(raw);
            Ok(None)
        } else if kind >= 1 && kind <= 5 {
            let key: bool = kind == 5;
            let ends: bool = self.vcl.len() > 0 && (self.pending_keyframe != key || is_first_slice(
                raw.as_slice(),
            ));
            if ends {
                match self.flush() {
                    Err(e) => Err(e),
                    Ok(f) => {
                        self.gather(raw.as_slice(), key);
                        Ok(f)
                    },
                }
            } else {
                self.gather(raw.as_slice(), key);
                Ok(None)
            }
        } else {
            Ok(None)
        }
    }
}

/// Nothing is sent before the decoder is configured: the first frame is a keyframe and brings the
/// configuration along.
pub proof fn lemma_first_frame_configures(s: FrameStreamView)
    requires
        !s.primed,
    ensures
        flushed(s) matches Ok((_, Some(f))) ==> f.keyframe && f.codec is Some,
{
}

/// A keyframe is never dropped once the decoder is configured.
pub proof fn lemma_keyframes_survive(s: FrameStreamView)
    requires
        s.primed,
        s.pending_keyframe,
        s.vcl.len() > 0,
        s.sps matches Some(sps) ==> sps.len() >= 4,
    ensures
        flushed(s) matches Ok((_, Some(f))) && f.keyframe && f.frame == s.vcl,
{
}

/// Ending a frame leaves none behind: whatever was gathered is sent or given up.
pub proof fn lemma_flush_empties(s: FrameStreamView)
    ensures
        flushed(s) matches Ok((after, _)) ==> after.vcl.len() == 0,
{
}

/// Once the decoder is configured it stays so.
pub proof fn lemma_stays_primed(s: FrameStreamView, nal: Seq<u8>)
    requires
        s.primed,
    ensures
        unit_taken(s, nal) matches Ok((after, _)) ==> after.primed,
{
}

/// Without congestion no frame is dropped after the decoder is configured.
pub proof fn lemma_free_channel_drops_nothing(s: FrameStreamView)
    requires
        s.primed,
        s.level == CongestionLevel::Free,
        s.vcl.len() > 0,
        s.sps matches Some(sps) ==> sps.len() >= 4,
    ensures
        flushed(s) matches Ok((_, Some(f))) && f.frame == s.vcl,
{
}

/// A stream at another level of congestion; one that is free again forgets what it skipped.
pub open spec fn at_level(s: FrameStreamView, level: CongestionLevel) -> FrameStreamView {
    FrameStreamView {
        level,
        skipped: if level != s.level && level == CongestionLevel::Free {
            0
        } else {
            s.skipped
        },
        ..s
    }
}

} // verus!
