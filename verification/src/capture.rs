//! What the screen is captured with.
pub mod laws;

use crate::text::{
    chars, contains_text, find_char, find_word_end, from_utf8_lossy, holds, index_of_char, is_space,
    lemma_index_of_char, lemma_word_end, word_end, parse_i32,
    read_lossy, same, signed_of,
};
use vstd::prelude::*;
use vstd::slice::{slice_subrange, slice_to_vec};

verus! {

pub const DEFAULT_VIDEO_BITRATE_KBPS: u32 = 4500;

pub const MIN_VIDEO_BITRATE_KBPS: u32 = 1800;

pub const MAX_VIDEO_BITRATE_KBPS: u32 = 12000;

/// The size of the test picture.
pub const TEST_CAPTURE_WIDTH: i32 = 1920;

pub const TEST_CAPTURE_HEIGHT: i32 = 1080;

/// The most that the picture is shrunk by, in percent.
pub const MAX_FIT_PCT: i32 = 25;

/// What is captured, and how.
#[derive(Debug)]
pub struct CaptureConfig {
    /// Frames in a second; 0 stands for 30.
    pub fps: u32,
    /// The bit rate; 0 has it chosen by the size of the picture.
    pub bitrate_kbps: u32,
    /// By how much the picture is shrunk, in percent.
    pub fit_pct: u8,
    pub force_software: bool,
    /// Send a test picture instead of the screen.
    pub test: bool,
    /// What an earlier grant of the screen can be taken up again with.
    pub restore_token: Option<String>,
}

impl Default for CaptureConfig {
    fn default() -> (r: CaptureConfig)
        ensures
            r.fps == 30 && r.bitrate_kbps == 0 && r.fit_pct == 0 && !r.force_software && !r.test
                && r.restore_token is None,
    {
        CaptureConfig {
            fps: 30,
            bitrate_kbps: 0,
            fit_pct: 0,
            force_software: false,
            test: false,
            restore_token: None,
        }
    }
}

/// Where the picture comes from.
#[derive(Clone, Copy, Debug, PartialEq, Eq, Structural)]
pub enum Source {
    Test,
    Wayland,
    X11,
}

/// Where the picture comes from, by which display servers there are; `None` when there is none.
pub fn choose_source(test: bool, wayland: bool, x11: bool) -> (r: Option<Source>)
    ensures
        r == source_for(test, wayland, x11),
{
    if test {
        Some(Source::Test)
    } else if wayland {
        Some(Source::Wayland)
    } else if x11 {
        Some(Source::X11)
    } else {
        None
    }
}

/// What a variable holds under its own name, or else under its other one; an empty value counts as
/// none.
pub open spec fn setting_of(own: Option<Seq<char>>, other: Option<Seq<char>>) -> Option<Seq<char>> {
    match own {
        Some(v) => if v.len() > 0 {
            Some(v)
        } else {
            other_setting(other)
        },
        None => other_setting(other),
    }
}

pub open spec fn other_setting(other: Option<Seq<char>>) -> Option<Seq<char>> {
    match other {
        Some(v) => if v.len() > 0 {
            Some(v)
        } else {
            None
        },
        None => None,
    }
}

/// The text of a value, if there is one.
pub open spec fn opt_text(v: Option<&str>) -> Option<Seq<char>> {
    match v {
        Some(s) => Some(s@),
        None => None,
    }
}

/// What a variable holds under its own name, or else under its other one.
pub fn env_var<'a>(own: Option<&'a str>, other: Option<&'a str>) -> (r: Option<&'a str>)
    ensures
        opt_text(r) == setting_of(opt_text(own), opt_text(other)),
{
    if let Some(v) = own {
        if !v.is_empty() {
            return Some(v);
        }
    }
    if let Some(v) = other {
        if !v.is_empty() {
            return Some(v);
        }
    }
    None
}

/// The number that a setting holds, if it holds one.
pub open spec fn number_in(v: Option<Seq<char>>) -> Option<int> {
    match v {
        Some(s) => signed_of(s),
        None => None,
    }
}

fn read_number(v: Option<&str>) -> (r: Option<i32>)
    ensures
        match number_in(opt_text(v)) {
            Some(n) => r matches Some(k) && k == n,
            None => r is None,
        },
{
    match v {
        Some(s) => parse_i32(chars(s).as_slice()),
        None => None,
    }
}

/// The height to scale to, 0 for none.
pub fn output_height_env(setting: Option<&str>) -> (r: i32)
    ensures
        r == (match number_in(opt_text(setting)) {
            Some(n) => n,
            None => 0,
        }),
{
    match read_number(setting) {
        Some(n) => n,
        None => 0,
    }
}

/// By how much the picture is shrunk: the setting comes before the configuration.
pub fn fit_pct_env(setting: Option<&str>, fit_pct: u8) -> (r: i32)
    ensures
        r == (match number_in(opt_text(setting)) {
            Some(n) => n,
            None => fit_pct as int,
        }),
{
    match read_number(setting) {
        Some(n) => n,
        None => fit_pct as i32,
    }
}

/// A number of pixels made even.
pub open spec fn even(n: int) -> int {
    n - n % 2
}

/// How the picture is scaled.
#[derive(Clone, Copy, Debug, PartialEq, Eq, Structural)]
pub enum ScaleArgs {
    /// To a size.
    Plain { w: i32, h: i32 },
    /// To a size, with a border round it that makes up the frame.
    Fit { cw: i32, ch: i32, tw: i32, th: i32, bx: i32, by: i32 },
}

/// The size of the frame, and how the picture is scaled into it.
#[derive(Clone, Copy, Debug, PartialEq, Eq, Structural)]
pub struct OutputScale {
    pub enc_w: i32,
    pub enc_h: i32,
    pub scale_args: Option<ScaleArgs>,
}

/// The size of the frame: that of the screen, or the one for a height, each made even.
pub open spec fn frame_size(src_w: int, src_h: int, height: int) -> (int, int) {
    if height > 0 {
        (even(src_w * height / src_h), even(height))
    } else {
        (even(src_w), even(src_h))
    }
}

/// The percentage that a picture is shrunk by, no more than the most.
pub open spec fn fit_used(fit: int) -> int {
    if fit > MAX_FIT_PCT {
        MAX_FIT_PCT as int
    } else {
        fit
    }
}

/// How a picture is scaled.
pub open spec fn scaled(src_w: int, src_h: int, height: int, fit: int) -> OutputScale {
    let (tw, th) = frame_size(src_w, src_h, height);
    let pct = fit_used(fit);
    let cw = even(tw * (100 - pct) / 100);
    let ch = even(th * (100 - pct) / 100);
    if src_w <= 0 || src_h <= 0 || tw <= 0 || th <= 0 {
        OutputScale { enc_w: src_w as i32, enc_h: src_h as i32, scale_args: None }
    } else {
        OutputScale {
            enc_w: tw as i32,
            enc_h: th as i32,
            scale_args: if fit > 0 {
                Some(
                    ScaleArgs::Fit {
                        cw: cw as i32,
                        ch: ch as i32,
                        tw: tw as i32,
                        th: th as i32,
                        bx: ((tw - cw) / 2) as i32,
                        by: ((th - ch) / 2) as i32,
                    },
                )
            } else if tw != src_w || th != src_h {
                Some(ScaleArgs::Plain { w: tw as i32, h: th as i32 })
            } else {
                None
            },
        }
    }
}

/// Whether the sizes stay within what a number holds on the way.
pub open spec fn scale_fits(src_w: int, src_h: int, height: int, fit: int) -> bool {
    src_w > 0 && src_h > 0 ==> {
        let (tw, th) = frame_size(src_w, src_h, height);
        &&& height > 0 ==> src_w * height <= i32::MAX
        &&& fit > 0 && tw > 0 && th > 0 ==> tw * (100 - fit_used(fit)) <= i32::MAX && th * (100
            - fit_used(fit)) <= i32::MAX
    }
}

fn shrink(n: i32, pct: i32) -> (r: i32)
    requires
        0 < n,
        0 < pct <= MAX_FIT_PCT,
        n * (100 - pct) <= i32::MAX,
    ensures
        r == even(n * (100 - pct) / 100),
        0 <= r <= n,
{
    assert(n * (100 - pct) <= n * 100 && n * (100 - pct) >= 0) by (nonlinear_arith)
        requires
            0 < n,
            0 < pct <= 25,
    ;
    let scaled: i32 = n * (100 - pct) / 100;
    scaled - scaled % 2
}

impl OutputScale {
    /// Whether the sizes for a screen stay within what a number holds.
    pub fn can_compute(height: i32, fit: i32, src_w: i32, src_h: i32) -> (r: bool)
        ensures
            r == scale_fits(src_w as int, src_h as int, height as int, fit as int),
    {
        if src_w <= 0 || src_h <= 0 {
            return true;
        }
        let mut tw: i32 = src_w;
        let mut th: i32 = src_h;
        if height > 0 {
            assert(0 < src_w * height <= 0x7fff_ffff * 0x7fff_ffff) by (nonlinear_arith)
                requires
                    0 < src_w <= 0x7fff_ffff,
                    0 < height <= 0x7fff_ffff,
            ;
            let wide: i64 = src_w as i64 * height as i64;
            if wide > 0x7fff_ffff {
                return false;
            }
            assert(0 <= wide / src_h as i64 <= wide) by (nonlinear_arith)
                requires
                    wide > 0,
                    src_h > 0,
            ;
            tw = (wide / src_h as i64) as i32;
            th = height;
        }
        tw = tw - tw % 2;
        th = th - th % 2;
        if fit <= 0 || tw <= 0 || th <= 0 {
            return true;
        }
        let kept: i64 = if fit > MAX_FIT_PCT {
            100 - MAX_FIT_PCT as i64
        } else {
            100 - fit as i64
        };
        assert(0 <= tw * kept <= 0x7fff_ffff * 100 && 0 <= th * kept <= 0x7fff_ffff * 100)
            by (nonlinear_arith)
            requires
                0 < tw <= 0x7fff_ffff,
                0 < th <= 0x7fff_ffff,
                0 <= kept <= 100,
        ;
        tw as i64 * kept <= 0x7fff_ffff && th as i64 * kept <= 0x7fff_ffff
    }

    /// The size of the frame for a screen, and how the picture is scaled into it. A height above 0
    /// is scaled to; a percentage above 0 shrinks the picture inside the frame.
    pub fn compute(height: i32, fit: i32, src_w: i32, src_h: i32) -> (r: OutputScale)
        requires
            scale_fits(src_w as int, src_h as int, height as int, fit as int),
        ensures
            r == scaled(src_w as int, src_h as int, height as int, fit as int),
    {
        if src_w <= 0 || src_h <= 0 {
            return OutputScale { enc_w: src_w, enc_h: src_h, scale_args: None };
        }
        let mut tw: i32 = src_w;
        let mut th: i32 = src_h;
        if height > 0 {
            th = height;
            assert(src_w * height > 0) by (nonlinear_arith)
                requires
                    src_w > 0,
                    height > 0,
            ;
            tw = src_w * height / src_h;
            assert(0 <= (src_w * height) / src_h as int <= src_w * height) by (nonlinear_arith)
                requires
                    src_w * height > 0,
                    src_h > 0,
            ;
        }
        tw = tw - tw % 2;
        th = th - th % 2;
        if tw <= 0 || th <= 0 {
            return OutputScale { enc_w: src_w, enc_h: src_h, scale_args: None };
        }
        if fit <= 0 {
            if tw == src_w && th == src_h {
                return OutputScale { enc_w: tw, enc_h: th, scale_args: None };
            }
            return OutputScale {
                enc_w: tw,
                enc_h: th,
                scale_args: Some(ScaleArgs::Plain { w: tw, h: th }),
            };
        }
        let pct: i32 = if fit > MAX_FIT_PCT {
            MAX_FIT_PCT
        } else {
            fit
        };
        let cw: i32 = shrink(tw, pct);
        let ch: i32 = shrink(th, pct);
        let bx: i32 = (tw - cw) / 2;
        let by: i32 = (th - ch) / 2;
        OutputScale {
            enc_w: tw,
            enc_h: th,
            scale_args: Some(ScaleArgs::Fit { cw, ch, tw, th, bx, by }),
        }
    }
}

/// A shrunk picture and its border make up the frame exactly, and every size is even.
pub proof fn lemma_border_fills_frame(src_w: int, src_h: int, height: int, fit: int)
    requires
        -0x8000_0000 <= src_w <= 0x7fff_ffff,
        -0x8000_0000 <= src_h <= 0x7fff_ffff,
        scale_fits(src_w, src_h, height, fit),
        height <= 0x7fff_ffff,
    ensures
        scaled(src_w, src_h, height, fit).scale_args matches Some(
            ScaleArgs::Fit { cw, ch, tw, th, bx, by },
        ) ==> cw + 2 * bx == tw && ch + 2 * by == th && cw % 2 == 0 && ch % 2 == 0 && tw % 2 == 0
            && th % 2 == 0 && bx >= 0 && by >= 0,
{
    if src_w > 0 && src_h > 0 && fit > 0 {
        let (tw, th) = frame_size(src_w, src_h, height);
        let pct = if fit > 25 {
            25
        } else {
            fit
        };
        if tw > 0 && th > 0 {
            assert(0 <= tw * (100 - pct) / 100 <= tw && 0 <= th * (100 - pct) / 100 <= th)
                by (nonlinear_arith)
                requires
                    tw > 0,
                    th > 0,
                    0 < pct <= 25,
            ;
        }
    }
}

/// The bit rate for a size and a frame rate, within its limits.
pub open spec fn bitrate_for(width: int, height: int, fps: int) -> int {
    if width == 0 || height == 0 || fps == 0 {
        DEFAULT_VIDEO_BITRATE_KBPS as int
    } else {
        let b = (width * height * fps + 7500) / 15000;
        if b < MIN_VIDEO_BITRATE_KBPS {
            MIN_VIDEO_BITRATE_KBPS as int
        } else if b > MAX_VIDEO_BITRATE_KBPS {
            MAX_VIDEO_BITRATE_KBPS as int
        } else {
            b
        }
    }
}

/// The bit rate for a size and a frame rate.
pub fn recommended_bitrate_kbps(width: u32, height: u32, fps: u32) -> (r: u32)
    requires
        width > 0 && height > 0 && fps > 0 ==> width * height * fps + 7500 <= u32::MAX,
    ensures
        r == bitrate_for(width as int, height as int, fps as int),
        MIN_VIDEO_BITRATE_KBPS <= r <= MAX_VIDEO_BITRATE_KBPS,
{
    if width == 0 || height == 0 || fps == 0 {
        return DEFAULT_VIDEO_BITRATE_KBPS;
    }
    assert(0 <= width * height <= width * height * fps) by (nonlinear_arith)
        requires
            fps > 0,
    ;
    let bitrate: u32 = (width * height * fps + 7500) / 15000;
    if bitrate < MIN_VIDEO_BITRATE_KBPS {
        MIN_VIDEO_BITRATE_KBPS
    } else if bitrate > MAX_VIDEO_BITRATE_KBPS {
        MAX_VIDEO_BITRATE_KBPS
    } else {
        bitrate
    }
}

/// The size that the bit rate goes by: that of the frame, or a common one where it is not known.
pub open spec fn rated_size(scale: OutputScale) -> (int, int) {
    if scale.enc_w > 0 && scale.enc_h > 0 {
        (scale.enc_w as int, scale.enc_h as int)
    } else {
        (1920, 1080)
    }
}

/// Whether the bit rate of a capture stays within what a number holds on the way.
pub open spec fn rate_fits(bitrate_kbps: u32, scale: OutputScale, fps: u32) -> bool {
    bitrate_kbps == 0 && fps > 0 ==> rated_size(scale).0 * rated_size(scale).1 * fps + 7500
        <= u32::MAX
}

/// Whether the bit rate of a capture stays within what a number holds.
pub fn can_rate(bitrate_kbps: u32, scale: &OutputScale, fps: u32) -> (r: bool)
    ensures
        r == rate_fits(bitrate_kbps, *scale, fps),
{
    if bitrate_kbps > 0 || fps == 0 {
        return true;
    }
    let (w, h): (i32, i32) = if scale.enc_w > 0 && scale.enc_h > 0 {
        (scale.enc_w, scale.enc_h)
    } else {
        (1920, 1080)
    };
    assert(0 < w * h <= 0x7fff_ffff * 0x7fff_ffff) by (nonlinear_arith)
        requires
            0 < w <= 0x7fff_ffff,
            0 < h <= 0x7fff_ffff,
    ;
    let pixels: u128 = w as u128 * h as u128;
    assert(0 <= pixels * fps <= 0x7fff_ffff * 0x7fff_ffff * 0xffff_ffff) by (nonlinear_arith)
        requires
            0 < pixels <= 0x7fff_ffff * 0x7fff_ffff,
            0 <= fps <= 0xffff_ffff,
    ;
    pixels * fps as u128 + 7500 <= u32::MAX as u128
}

/// The bit rate of a capture: the one that is set, or else one for the size of the frame.
pub fn capture_bitrate_kbps(bitrate_kbps: u32, scale: &OutputScale, fps: u32) -> (r: u32)
    requires
        rate_fits(bitrate_kbps, *scale, fps),
    ensures
        r == (if bitrate_kbps > 0 {
            bitrate_kbps as int
        } else {
            bitrate_for(rated_size(*scale).0, rated_size(*scale).1, fps as int)
        }),
{
    if bitrate_kbps > 0 {
        return bitrate_kbps;
    }
    if scale.enc_w > 0 && scale.enc_h > 0 {
        recommended_bitrate_kbps(scale.enc_w as u32, scale.enc_h as u32, fps)
    } else {
        recommended_bitrate_kbps(1920, 1080, fps)
    }
}

/// The frames of a second: as many as are set, or else 30.
pub fn frame_rate(fps: u32) -> (r: u32)
    ensures
        r == (if fps == 0 {
            30
        } else {
            fps
        }),
{
    if fps == 0 {
        30
    } else {
        fps
    }
}

/// The frames from one key frame to the next: four seconds of them.
pub fn keyframe_interval_frames(fps: u32) -> (r: u32)
    requires
        fps * 4 <= u32::MAX,
    ensures
        r == (if fps == 0 {
            120int
        } else {
            fps * 4
        }),
{
    frame_rate(fps) * 4
}

/// The encoder's buffer: two frames' worth, and not too little.
pub fn vbv_buffer_kbit(bitrate_kbps: u32, fps: u32) -> (r: u32)
    requires
        fps > 0 ==> bitrate_kbps * 2 <= u32::MAX,
    ensures
        r == buffer_for(bitrate_kbps as int, fps as int),
{
    if bitrate_kbps == 0 || fps == 0 {
        return 300;
    }
    let vbv: u32 = bitrate_kbps * 2 / fps;
    if vbv > 200 {
        vbv
    } else {
        200
    }
}

/// The peak rate of the software encoder: a quarter above its bit rate.
pub fn peak_rate_kbps(bitrate_kbps: u32) -> (r: u32)
    requires
        bitrate_kbps + bitrate_kbps / 4 <= u32::MAX,
    ensures
        r == bitrate_kbps + bitrate_kbps / 4,
{
    bitrate_kbps + bitrate_kbps / 4
}

/// The encoders, by what they run on.
#[derive(Clone, Copy, Debug, PartialEq, Eq, Structural)]
pub enum Encoder {
    Vulkan,
    Nvenc,
    Vaapi,
    X264,
}

impl Encoder {
    pub open spec fn label(self) -> Seq<char> {
        match self {
            Encoder::Vulkan => "vulkanh264enc"@,
            Encoder::Nvenc => "nvh264enc"@,
            Encoder::Vaapi => "vah264enc"@,
            Encoder::X264 => "x264enc"@,
        }
    }

    /// The name of the encoder's element.
    pub fn element(self) -> (r: &'static str)
        ensures
            r@ == self.label(),
    {
        match self {
            Encoder::Vulkan => "vulkanh264enc",
            Encoder::Nvenc => "nvh264enc",
            Encoder::Vaapi => "vah264enc",
            Encoder::X264 => "x264enc",
        }
    }

    /// Whether frames have to be uploaded to the graphics card first.
    pub fn needs_upload(self) -> (r: bool)
        ensures
            r == (self == Encoder::Vulkan),
    {
        self == Encoder::Vulkan
    }
}

/// The encoders to try, in their order. The last is always there.
pub open spec fn encoders_for(mode: Seq<char>) -> Seq<Encoder> {
    (if mode == "auto"@ || mode == "nvenc"@ {
        seq![Encoder::Vulkan, Encoder::Nvenc]
    } else {
        Seq::empty()
    }) + (if mode == "auto"@ || mode == "vaapi"@ {
        seq![Encoder::Vaapi]
    } else {
        Seq::empty()
    }) + seq![Encoder::X264]
}

/// How encoding may be helped by hardware: not at all where software is asked for, else as the
/// setting says.
pub open spec fn mode_of(force_software: bool, setting: Option<Seq<char>>) -> Seq<char> {
    if force_software {
        "none"@
    } else {
        match setting {
            Some(s) => s,
            None => "auto"@,
        }
    }
}

/// How encoding may be helped by hardware.
pub fn hwaccel_mode(force_software: bool, setting: Option<&str>) -> (r: String)
    ensures
        r@ == mode_of(force_software, opt_text(setting)),
{
    if force_software {
        return "none".to_owned();
    }
    match setting {
        Some(s) => s.to_owned(),
        None => "auto".to_owned(),
    }
}

/// The encoders to try, in their order.
pub fn encoder_candidates(mode: &str) -> (r: Vec<Encoder>)
    ensures
        r@ == encoders_for(mode@),
        r@.last() == Encoder::X264,
{
    let mut out: Vec<Encoder> = Vec::new();
    let auto_mode: bool = same(mode, "auto");
    if auto_mode || same(mode, "nvenc") {
        out.push(Encoder::Vulkan);
        out.push(Encoder::Nvenc);
    }
    let ghost first = out@;
    assert(first =~= (if mode@ == "auto"@ || mode@ == "nvenc"@ {
        seq![Encoder::Vulkan, Encoder::Nvenc]
    } else {
        Seq::empty()
    }));
    if auto_mode || same(mode, "vaapi") {
        out.push(Encoder::Vaapi);
    }
    out.push(Encoder::X264);
    assert(out@ =~= encoders_for(mode@));
    out
}

/// A place and a size on the screen.
#[derive(Clone, Copy, Debug, PartialEq, Eq, Structural)]
pub struct Geometry {
    pub x: i32,
    pub y: i32,
    pub w: i32,
    pub h: i32,
}

/// The geometry that a word states: a width of at least 640, a height, and a place.
pub open spec fn word_geometry(word: Seq<char>) -> Option<Geometry> {
    let cross = index_of_char(word, 'x', 0);
    let rest = word.skip(cross + 1);
    let first = index_of_char(rest, '+', 0);
    let second = index_of_char(rest, '+', first + 1);
    if cross >= word.len() || first >= rest.len() || second >= rest.len() {
        None
    } else {
        match (
            signed_of(word.take(cross)),
            signed_of(rest.take(first)),
            signed_of(rest.subrange(first + 1, second)),
            signed_of(rest.skip(second + 1)),
        ) {
            (Some(w), Some(h), Some(x), Some(y)) => if w >= 640 {
                Some(Geometry { x: x as i32, y: y as i32, w: w as i32, h: h as i32 })
            } else {
                None
            },
            _ => None,
        }
    }
}

/// The geometry of the first word that states one, from place `i` on.
pub open spec fn line_geometry(s: Seq<char>, i: int) -> Option<Geometry>
    decreases s.len() - i,
    when 0 <= i
    via line_geometry_ends
{
    if i >= s.len() {
        None
    } else if is_space(s[i]) {
        line_geometry(s, i + 1)
    } else {
        match word_geometry(s.subrange(i, word_end(s, i))) {
            Some(g) => Some(g),
            None => line_geometry(s, word_end(s, i)),
        }
    }
}

#[via_fn]
proof fn line_geometry_ends(s: Seq<char>, i: int) {
    if 0 <= i < s.len() && !is_space(s[i]) {
        lemma_word_end(s, i + 1);
    }
}

fn read_word(word: &[char]) -> (r: Option<Geometry>)
    ensures
        r == word_geometry(word@),
{
    let cross: usize = find_char(word, 'x', 0);
    if cross >= word.len() {
        return None;
    }
    let rest: &[char] = slice_subrange(word, cross + 1, word.len());
    assert(rest@ =~= word@.skip(cross + 1));
    let first: usize = find_char(rest, '+', 0);
    if first >= rest.len() {
        return None;
    }
    let second: usize = find_char(rest, '+', first + 1);
    if second >= rest.len() {
        return None;
    }
    assert(word@.subrange(0, cross as int) =~= word@.take(cross as int));
    assert(rest@.subrange(0, first as int) =~= rest@.take(first as int));
    assert(rest@.subrange(second + 1, rest@.len() as int) =~= rest@.skip(second + 1));
    let w: Option<i32> = parse_i32(slice_subrange(word, 0, cross));
    let h: Option<i32> = parse_i32(slice_subrange(rest, 0, first));
    let x: Option<i32> = parse_i32(slice_subrange(rest, first + 1, second));
    let y: Option<i32> = parse_i32(slice_subrange(rest, second + 1, rest.len()));
    match (w, h, x, y) {
        (Some(w), Some(h), Some(x), Some(y)) => if w >= 640 {
            Some(Geometry { x, y, w, h })
        } else {
            None
        },
        _ => None,
    }
}

/// The geometry of the first word of a line that states one.
pub fn parse_xrandr_geometry(line: &[char]) -> (r: Option<Geometry>)
    ensures
        r == line_geometry(line@, 0),
{
    let mut i: usize = 0;
    while i < line.len()
        invariant
            i <= line@.len(),
            line_geometry(line@, 0) == line_geometry(line@, i as int),
        decreases line.len() - i,
    {
        if is_space(line[i]) {
            i += 1;
        } else {
            let end: usize = find_word_end(line, i);
            proof {
                lemma_word_end(line@, i + 1);
            }
            let found: Option<Geometry> = read_word(slice_subrange(line, i, end));
            if found.is_some() {
                return found;
            }
            i = end;
        }
    }
    None
}

/// The geometry of the first line that states one, from place `i` on, among the outputs that are
/// connected, or among the primary ones alone.
pub open spec fn output_geometry(s: Seq<char>, primary: bool, i: int) -> Option<Geometry>
    decreases s.len() - i,
    when 0 <= i
    via output_geometry_ends
{
    let end = index_of_char(s, '\n', i);
    let line = s.subrange(i, end);
    if i >= s.len() {
        None
    } else if holds(line, " connected"@) && (primary ==> holds(line, " primary "@))
        && line_geometry(line, 0) is Some {
        line_geometry(line, 0)
    } else if end >= s.len() {
        None
    } else {
        output_geometry(s, primary, end + 1)
    }
}

#[via_fn]
proof fn output_geometry_ends(s: Seq<char>, primary: bool, i: int) {
    if 0 <= i < s.len() {
        lemma_index_of_char(s, '\n', i);
    }
}

fn find_output(s: &[char], primary: bool) -> (r: Option<Geometry>)
    ensures
        r == output_geometry(s@, primary, 0),
{
    let connected: Vec<char> = chars(" connected");
    let first: Vec<char> = chars(" primary ");
    let mut i: usize = 0;
    while i < s.len()
        invariant
            i <= s@.len(),
            connected@ == " connected"@,
            first@ == " primary "@,
            output_geometry(s@, primary, 0) == output_geometry(s@, primary, i as int),
        decreases s.len() - i,
    {
        let end: usize = find_char(s, '\n', i);
        let line: &[char] = slice_subrange(s, i, end);
        if contains_text(line, connected.as_slice()) && (!primary || contains_text(
            line,
            first.as_slice(),
        )) {
            let found: Option<Geometry> = parse_xrandr_geometry(line);
            if found.is_some() {
                return found;
            }
        }
        if end >= s.len() {
            return None;
        }
        i = end + 1;
    }
    None
}

/// The geometry of the primary output, or else of the first that is connected, if it has a size.
pub open spec fn monitor_geometry(s: Seq<char>) -> Option<Geometry> {
    let found = match output_geometry(s, true, 0) {
        Some(g) => Some(g),
        None => output_geometry(s, false, 0),
    };
    match found {
        Some(g) => if g.w > 0 && g.h > 0 {
            Some(g)
        } else {
            None
        },
        None => None,
    }
}

/// The monitor to capture, in what `xrandr --query` printed, as text.
pub fn monitor_in(text: &str) -> (r: Option<Geometry>)
    ensures
        r == monitor_geometry(text@),
{
    let all: Vec<char> = chars(text);
    let found: Option<Geometry> = match find_output(all.as_slice(), true) {
        Some(g) => Some(g),
        None => find_output(all.as_slice(), false),
    };
    match found {
        Some(g) => if g.w > 0 && g.h > 0 {
            Some(g)
        } else {
            None
        },
        None => None,
    }
}

/// The monitor to capture, in what `xrandr --query` printed.
pub fn detect_primary_monitor(printed: &[u8]) -> (r: Option<Geometry>)
    ensures
        r == monitor_geometry(read_lossy(printed@)),
{
    monitor_in(from_utf8_lossy(printed).as_str())
}

/// The corners of a geometry, behind its last pixels.
pub fn corners(g: Geometry) -> (r: (i32, i32, i32, i32))
    requires
        i32::MIN <= g.x + g.w <= i32::MAX,
        i32::MIN <= g.y + g.h <= i32::MAX,
    ensures
        r == (g.x, g.y, (g.x + g.w) as i32, (g.y + g.h) as i32),
{
    (g.x, g.y, g.x + g.w, g.y + g.h)
}

/// Bytes that come in chunks and are read in pieces.
pub struct ChunkReader {
    pub leftover: Vec<u8>,
}

impl ChunkReader {
    pub fn new() -> (r: ChunkReader)
        ensures
            r.leftover@.len() == 0,
    {
        ChunkReader { leftover: Vec::new() }
    }

    /// Whether the next chunk is needed.
    pub fn is_empty(&self) -> (r: bool)
        ensures
            r == (self.leftover@.len() == 0),
    {
        self.leftover.len() == 0
    }

    /// Takes the next chunk, when nothing is left of the last.
    pub fn fill(&mut self, chunk: Vec<u8>)
        requires
            old(self).leftover@.len() == 0,
        ensures
            final(self).leftover@ == chunk@,
    {
        self.leftover = chunk;
    }

    /// Reads as much as there is and as fits.
    pub fn read(&mut self, buf: &mut [u8]) -> (r: usize)
        ensures
            r == (if old(buf)@.len() < old(self).leftover@.len() {
                old(buf)@.len()
            } else {
                old(self).leftover@.len()
            }),
            final(buf)@ == old(self).leftover@.take(r as int) + old(buf)@.skip(r as int),
            final(self).leftover@ == old(self).leftover@.skip(r as int),
    {
        let n: usize = if buf.len() < self.leftover.len() {
            buf.len()
        } else {
            self.leftover.len()
        };
        let ghost before = buf@;
        let mut i: usize = 0;
        while i < n
            invariant
                i <= n,
                n <= self.leftover@.len(),
                n <= before.len(),
                buf@.len() == before.len(),
                forall|k: int| 0 <= k < i ==> buf@[k] == self.leftover@[k],
                forall|k: int| i <= k < before.len() ==> buf@[k] == before[k],
            decreases n - i,
        {
            buf[i] = self.leftover[i];
            i += 1;
        }
        assert(buf@ =~= self.leftover@.take(n as int) + before.skip(n as int));
        let rest: Vec<u8> = slice_to_vec(
            slice_subrange(self.leftover.as_slice(), n, self.leftover.len()),
        );
        assert(rest@ =~= self.leftover@.skip(n as int));
        self.leftover = rest;
        n
    }
}

/// Where pictures come from: the test picture where it is asked for, else a Wayland session, else an
/// X display.
pub open spec fn source_for(test: bool, wayland: bool, x11: bool) -> Option<Source> {
    if test {
        Some(Source::Test)
    } else if wayland {
        Some(Source::Wayland)
    } else if x11 {
        Some(Source::X11)
    } else {
        None
    }
}

/// The size of an encoder's buffer in thousands of bits.
pub open spec fn buffer_for(bitrate_kbps: int, fps: int) -> int {
    if bitrate_kbps == 0 || fps == 0 {
        300
    } else if bitrate_kbps * 2 / fps > 200 {
        bitrate_kbps * 2 / fps
    } else {
        200
    }
}

} // verus!
