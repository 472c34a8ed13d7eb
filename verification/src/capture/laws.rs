//! How a capture is sized and encoded.
use crate::capture::{
    bitrate_for, buffer_for, encoders_for, line_geometry, mode_of, monitor_geometry,
    output_geometry, rated_size, scaled, setting_of, source_for, word_geometry, Encoder, Geometry,
    OutputScale, ScaleArgs, Source,
};
use crate::rtsp::laws::lemma_first_place;
use crate::text::{holds, index_of_char, signed_of};
use vstd::prelude::*;

verus! {

/// A capture that is scaled to a height keeps its proportions as far as even sizes allow, and one
/// that is not keeps its size.
#[verifier::rlimit(100)]
#[verifier::spinoff_prover]
pub proof fn law_frame_size(src_w: int, src_h: int, height: int, fit: int)
    requires
        2 <= src_w <= 0x4000,
        2 <= src_h <= 0x4000,
        height <= 0x4000,
    ensures
        ({
            let s = scaled(src_w, src_h, height, fit);
            let (w, h) = (s.enc_w as int, s.enc_h as int);
            &&& height <= 0 ==> src_w - 1 <= w <= src_w && src_h - 1 <= h <= src_h && w % 2 == 0 && h
                % 2 == 0
            &&& height >= 2 && src_w * height >= 2 * src_h ==> height - 1 <= h <= height && w * src_h
                <= src_w * height < (w + 2) * src_h && w % 2 == 0 && h % 2 == 0
            &&& s.scale_args is None && height <= 0 ==> w == src_w && h == src_h
        }),
{
    if height > 0 {
        let q = src_w * height / src_h;
        lemma_ratio(src_w, src_h, height, q);
        if q % 2 == 0 {
            assert(q - q % 2 == q);
        } else {
            assert(q - q % 2 == q - 1);
        }
    }
}

/// What is shrunk loses its percentage, a quarter at most, on both sides alike, and stands in the
/// middle of the frame.
#[verifier::rlimit(100)]
#[verifier::spinoff_prover]
pub proof fn law_shrinking(src_w: int, src_h: int, fit: int)
    requires
        2 <= src_w <= 0x4000,
        2 <= src_h <= 0x4000,
        0 <= fit <= 100,
    ensures
        ({
            let s = scaled(src_w, src_h, 0, fit);
            let (w, h) = (s.enc_w as int, s.enc_h as int);
            let share = if fit > 25 {
                75
            } else {
                100 - fit
            };
            &&& fit == 0 ==> !(s.scale_args matches Some(ScaleArgs::Fit { .. }))
            &&& fit > 0 ==> (s.scale_args matches Some(ScaleArgs::Fit { cw, ch, tw, th, bx, by }) && tw
                == w && th == h && cw * 100 <= w * share < (cw + 2) * 100 && ch * 100 <= h * share < (
            ch + 2) * 100 && 2 * bx + cw == w && 2 * by + ch == h)
            &&& s.scale_args matches Some(ScaleArgs::Plain { w: pw, h: ph }) ==> fit == 0 && pw == w
                && ph == h && (w != src_w || h != src_h)
        }),
{
    let (w, h) = (src_w - src_w % 2, src_h - src_h % 2);
    let share = if fit > 25 {
        75
    } else {
        100 - fit
    };
    assert(share == 100 - crate::capture::fit_used(fit));
    lemma_share(w, share);
    lemma_share(h, share);
}

proof fn lemma_share(n: int, share: int)
    by (nonlinear_arith)
    requires
        n > 0,
        0 <= share <= 100,
    ensures
        0 <= n * share <= 100 * n,
{
}

proof fn lemma_ratio(src_w: int, src_h: int, height: int, q: int)
    by (nonlinear_arith)
    requires
        0 < src_w <= 0x4000,
        0 < src_h <= 0x4000,
        0 < height <= 0x4000,
        q == src_w * height / src_h,
    ensures
        q * src_h <= src_w * height < (q + 1) * src_h,
        0 <= q <= 0x1000_0000,
        src_w * height >= 2 * src_h ==> q >= 2,
        (q - 1) * src_h == q * src_h - src_h,
        (q + 1) * src_h == q * src_h + src_h,
        (q + 2) * src_h == q * src_h + 2 * src_h,
{
}

/// The bit rate is one kilobit for 15000 pixels in a second, to the nearest, between 1800 and 12000;
/// 4500 where the size or the rate is not known.
pub proof fn law_bitrate(width: int, height: int, fps: int)
    requires
        0 <= width,
        0 <= height,
        0 <= fps,
    ensures
        ({
            let pixels = width * height * fps;
            let b = bitrate_for(width, height, fps);
            &&& 1800 <= b <= 12000
            &&& width == 0 || height == 0 || fps == 0 ==> b == 4500
            &&& 1800 < b < 12000 && width > 0 && height > 0 && fps > 0 ==> -7500 <= b * 15000 - pixels
                <= 7500
            &&& width > 0 && height > 0 && fps > 0 && pixels >= 180_000_000 ==> b == 12000
            &&& width > 0 && height > 0 && fps > 0 && pixels < 26_992_500 ==> b == 1800
        }),
{
}

/// Which encoders are tried, and in which order: those of the hardware that the mode names, and
/// always the one in software last.
pub proof fn law_encoders(mode: Seq<char>)
    ensures
        mode == "auto"@ ==> encoders_for(mode) == seq![
            Encoder::Vulkan,
            Encoder::Nvenc,
            Encoder::Vaapi,
            Encoder::X264,
        ],
        mode == "nvenc"@ ==> encoders_for(mode) == seq![
            Encoder::Vulkan,
            Encoder::Nvenc,
            Encoder::X264,
        ],
        mode == "vaapi"@ ==> encoders_for(mode) == seq![Encoder::Vaapi, Encoder::X264],
        mode == "none"@ ==> encoders_for(mode) == seq![Encoder::X264],
        encoders_for(mode).last() == Encoder::X264,
        mode_of(true, Some(mode)) == "none"@,
        mode_of(false, Some(mode)) == mode,
        mode_of(false, None) == "auto"@,
{
    reveal_strlit("auto");
    reveal_strlit("nvenc");
    reveal_strlit("vaapi");
    reveal_strlit("none");
    assert("auto"@.len() == 4 && "nvenc"@.len() == 5 && "vaapi"@.len() == 5 && "none"@.len() == 4);
    assert("auto"@[0] == 'a' && "none"@[0] == 'n');
    assert("nvenc"@[0] == 'n' && "vaapi"@[0] == 'v');
    if mode == "auto"@ {
        assert(encoders_for(mode) =~= seq![
            Encoder::Vulkan,
            Encoder::Nvenc,
            Encoder::Vaapi,
            Encoder::X264,
        ]);
    } else if mode == "nvenc"@ {
        assert(encoders_for(mode) =~= seq![Encoder::Vulkan, Encoder::Nvenc, Encoder::X264]);
    } else if mode == "vaapi"@ {
        assert(encoders_for(mode) =~= seq![Encoder::Vaapi, Encoder::X264]);
    } else if mode == "none"@ {
        assert(encoders_for(mode) =~= seq![Encoder::X264]);
    }
}

/// A setting under its own name comes before the one under the other name, and one that is empty
/// counts for nothing.
pub proof fn law_setting(own: Seq<char>, other: Seq<char>)
    ensures
        own.len() > 0 ==> setting_of(Some(own), Some(other)) == Some(own) && setting_of(Some(own), None)
            == Some(own),
        other.len() > 0 ==> setting_of(None, Some(other)) == Some(other),
        own.len() == 0 && other.len() > 0 ==> setting_of(Some(own), Some(other)) == Some(other),
        own.len() == 0 && other.len() == 0 ==> setting_of(Some(own), Some(other)) is None,
        setting_of(None, None) is None,
{
}

/// A word of the form `WxH+X+Y` gives the width, the height and the place, in this order, where the
/// width is 640 at least.
#[verifier::rlimit(100)]
#[verifier::spinoff_prover]
pub proof fn law_geometry(
    width: Seq<char>,
    height: Seq<char>,
    left: Seq<char>,
    top: Seq<char>,
    w: i32,
    h: i32,
    x: i32,
    y: i32,
)
    requires
        signed_of(width) == Some(w as int),
        signed_of(height) == Some(h as int),
        signed_of(left) == Some(x as int),
        signed_of(top) == Some(y as int),
        !width.contains('x'),
        !height.contains('+'),
        !left.contains('+'),
    ensures
        word_geometry(width + seq!['x'] + height + seq!['+'] + left + seq!['+'] + top) == if w
            >= 640 {
            Some(Geometry { x, y, w, h })
        } else {
            None
        },
{
    let rest = height + seq!['+'] + left + seq!['+'] + top;
    let word = width + seq!['x'] + height + seq!['+'] + left + seq!['+'] + top;
    let first = height.len() as int;
    let second = height.len() + 1 + left.len() as int;
    assert forall|j: int| 0 <= j < width.len() implies word[j] != 'x' by {
        assert(word[j] == width[j]);
        assert(width.contains(width[j]));
    }
    lemma_first_place(word, 'x', 0, width.len() as int);
    assert(word.skip(width.len() as int + 1) =~= rest);
    assert(word.take(width.len() as int) =~= width);
    assert forall|j: int| 0 <= j < first implies rest[j] != '+' by {
        assert(rest[j] == height[j]);
        assert(height.contains(height[j]));
    }
    lemma_first_place(rest, '+', 0, first);
    assert forall|j: int| first < j < second implies rest[j] != '+' by {
        assert(rest[j] == left[j - first - 1]);
        assert(left.contains(left[j - first - 1]));
    }
    lemma_first_place(rest, '+', first + 1, second);
    assert(rest.take(first) =~= height);
    assert(rest.subrange(first + 1, second) =~= left);
    assert(rest.skip(second + 1) =~= top);
}

/// Whether a part of a text is a line that names a connected output of a geometry, and the main one
/// where that is asked for.
pub open spec fn output_line(
    s: Seq<char>,
    primary: bool,
    i: int,
    j: int,
    g: Geometry,
) -> bool {
    &&& 0 <= i <= j <= s.len()
    &&& (i > 0 ==> s[i - 1] == '\n') && (j < s.len() ==> s[j] == '\n')
    &&& holds(s.subrange(i, j), " connected"@)
    &&& primary ==> holds(s.subrange(i, j), " primary "@)
    &&& line_geometry(s.subrange(i, j), 0) == Some(g)
}

proof fn lemma_next_line(s: Seq<char>, i: int)
    requires
        0 <= i <= s.len(),
    ensures
        i <= index_of_char(s, '\n', i) <= s.len(),
        index_of_char(s, '\n', i) < s.len() ==> s[index_of_char(s, '\n', i)] == '\n',
    decreases s.len() - i,
{
    if i < s.len() && s[i] != '\n' {
        lemma_next_line(s, i + 1);
    }
}

proof fn lemma_output_line(s: Seq<char>, primary: bool, i: int) -> (r: (int, int))
    requires
        0 <= i <= s.len(),
        i > 0 ==> s[i - 1] == '\n',
        output_geometry(s, primary, i) is Some,
    ensures
        output_line(s, primary, r.0, r.1, output_geometry(s, primary, i)->Some_0),
    decreases s.len() - i,
{
    let end = index_of_char(s, '\n', i);
    let line = s.subrange(i, end);
    lemma_next_line(s, i);
    if holds(line, " connected"@) && (primary ==> holds(line, " primary "@)) && line_geometry(
        line,
        0,
    ) is Some {
        (i, end)
    } else {
        lemma_output_line(s, primary, end + 1)
    }
}

/// The monitor that is captured is one of the lines that name a connected output, and the main one
/// where a main one has a geometry.
pub proof fn law_monitor(s: Seq<char>)
    ensures
        ({
            let primary = output_geometry(s, true, 0) is Some;
            monitor_geometry(s) matches Some(g) ==> g.w > 0 && g.h > 0 && exists|i: int, j: int|
                output_line(s, primary, i, j, g)
        }),
        output_geometry(s, true, 0) matches Some(g) ==> g.w > 0 && g.h > 0 ==> monitor_geometry(s)
            == Some(g),
{
    if monitor_geometry(s) is Some {
        let primary = output_geometry(s, true, 0) is Some;
        let (i, j) = lemma_output_line(s, primary, 0);
        assert(output_line(s, primary, i, j, monitor_geometry(s)->Some_0));
    }
}

/// A capture whose frames have no size of their own is rated as one of 1920 by 1080.
pub proof fn law_rated_size(scale: OutputScale)
    ensures
        scale.enc_w > 0 && scale.enc_h > 0 ==> rated_size(scale).0 == scale.enc_w && rated_size(
            scale,
        ).1 == scale.enc_h,
        scale.enc_w <= 0 || scale.enc_h <= 0 ==> rated_size(scale) == (1920int, 1080int),
{
}

/// The test picture goes before any session, and a Wayland session before an X display; without any
/// of them there is nothing to show.
pub proof fn law_source(test: bool, wayland: bool, x11: bool)
    ensures
        test <==> source_for(test, wayland, x11) == Some(Source::Test),
        wayland && !test <==> source_for(test, wayland, x11) == Some(Source::Wayland),
        x11 && !wayland && !test <==> source_for(test, wayland, x11) == Some(Source::X11),
        !x11 && !wayland && !test <==> source_for(test, wayland, x11) is None,
{
}

/// The buffer of an encoder holds what two pictures take at its rate, 200 thousand bits at least, and
/// 300 thousand where there is no rate.
pub proof fn law_buffer(kbit_per_picture: int, fps: int)
    requires
        kbit_per_picture > 0,
        fps > 0,
    ensures
        buffer_for(kbit_per_picture * fps, fps) == (if kbit_per_picture > 100 {
            2 * kbit_per_picture
        } else {
            200
        }),
        buffer_for(0, fps) == 300,
        buffer_for(kbit_per_picture, 0) == 300,
{
    let n = kbit_per_picture * fps;
    assert(n > 0 && n * 2 / fps == 2 * kbit_per_picture) by (nonlinear_arith)
        requires
            n == kbit_per_picture * fps,
            kbit_per_picture > 0,
            fps > 0,
    ;
}

} // verus!
