use airfry::capture::{
    can_rate, capture_bitrate_kbps, choose_source, corners, detect_primary_monitor, encoder_candidates,
    env_var, fit_pct_env, frame_rate, hwaccel_mode, keyframe_interval_frames, output_height_env,
    parse_xrandr_geometry, peak_rate_kbps, recommended_bitrate_kbps, vbv_buffer_kbit, ChunkReader,
    Encoder, Geometry, OutputScale, ScaleArgs, Source,
};

#[test]
fn the_picture_is_scaled_and_shrunk() {
    let s = OutputScale::compute(0, 0, 1920, 1080);
    assert_eq!(s, OutputScale { enc_w: 1920, enc_h: 1080, scale_args: None });
    let s = OutputScale::compute(720, 0, 1920, 1080);
    assert_eq!((s.enc_w, s.enc_h), (1280, 720));
    assert_eq!(s.scale_args, Some(ScaleArgs::Plain { w: 1280, h: 720 }));
    let s = OutputScale::compute(0, 10, 1920, 1080);
    match s.scale_args {
        Some(ScaleArgs::Fit { cw, ch, tw, th, bx, by }) => {
            assert_eq!((tw, th), (1920, 1080));
            assert_eq!((cw, ch), (1728, 972));
            assert_eq!((bx, by), (96, 54));
        }
        _ => panic!("a border is needed"),
    }
    assert!(OutputScale::compute(720, 5, 0, 0).scale_args.is_none());
}

#[test]
fn the_rate_follows_the_size() {
    assert_eq!(recommended_bitrate_kbps(640, 360, 30), 1800);
    assert_eq!(recommended_bitrate_kbps(3840, 2160, 60), 12000);
    let scale = OutputScale { enc_w: 1920, enc_h: 1080, scale_args: None };
    assert_eq!(capture_bitrate_kbps(3000, &scale, 30), 3000);
    assert_eq!(
        capture_bitrate_kbps(0, &scale, 30),
        recommended_bitrate_kbps(1920, 1080, 30)
    );
    assert_eq!(keyframe_interval_frames(30), 120);
    assert!(vbv_buffer_kbit(4500, 30) > 0);
    assert_eq!(peak_rate_kbps(4000), 5000);
}

#[test]
fn the_environment_overrides() {
    assert_eq!(env_var(Some("a"), Some("b")), Some("a"));
    assert_eq!(env_var(None, Some("b")), Some("b"));
    assert_eq!(env_var(None, None), None);
    assert_eq!(output_height_env(Some("720")), 720);
    assert_eq!(output_height_env(Some("tall")), 0);
    assert_eq!(output_height_env(None), 0);
    assert_eq!(fit_pct_env(Some("7"), 3), 7);
    assert_eq!(fit_pct_env(None, 3), 3);
}

#[test]
fn a_source_is_chosen() {
    assert_eq!(choose_source(true, false, false), Some(Source::Test));
    assert_eq!(choose_source(false, true, true), Some(Source::Wayland));
    assert_eq!(choose_source(false, false, true), Some(Source::X11));
    assert_eq!(choose_source(false, false, false), None);
}

#[test]
fn encoders_are_tried_in_turn() {
    assert_eq!(hwaccel_mode(true, Some("vaapi")), "none");
    assert_eq!(hwaccel_mode(false, None), "auto");
    let all = encoder_candidates("auto");
    assert_eq!(*all.last().unwrap(), Encoder::X264);
    assert_eq!(encoder_candidates("none"), vec![Encoder::X264]);
    assert_eq!(Encoder::X264.element(), "x264enc");
    assert!(!Encoder::X264.needs_upload());
}

#[test]
fn the_primary_monitor_is_found() {
    let printed = b"Screen 0: minimum 320 x 200\nHDMI-1 connected 1280x1024+1920+0\nDP-1 connected primary 1920x1080+0+0 (normal)\n";
    let g = detect_primary_monitor(printed).unwrap();
    assert_eq!(g, Geometry { x: 0, y: 0, w: 1920, h: 1080 });
    assert_eq!(corners(Geometry { x: 10, y: 20, w: 100, h: 50 }), (10, 20, 110, 70));
    assert!(detect_primary_monitor(b"nothing\n").is_none());
    let line: Vec<char> = "VGA connected 800x600+1+2".chars().collect();
    assert_eq!(parse_xrandr_geometry(&line), Some(Geometry { x: 1, y: 2, w: 800, h: 600 }));
}

#[test]
fn chunks_are_read_in_pieces() {
    let mut r = ChunkReader::new();
    assert!(r.is_empty());
    r.fill(vec![1, 2, 3]);
    let mut buf = [0u8; 2];
    assert_eq!(r.read(&mut buf), 2);
    assert_eq!(buf, [1, 2]);
    assert_eq!(r.read(&mut buf), 1);
    assert_eq!(buf[0], 3);
    assert_eq!(r.read(&mut buf), 0);
}

#[test]
fn limits_hold_only_where_a_product_is_formed() {
    assert_eq!(recommended_bitrate_kbps(u32::MAX, u32::MAX, 0), 4500);
    assert_eq!(vbv_buffer_kbit(u32::MAX, 0), 300);
    let s = OutputScale::compute(0, 40, 28_000_000, 2);
    assert_eq!((s.enc_w, s.enc_h), (28_000_000, 2));
    assert_eq!(
        s.scale_args,
        Some(ScaleArgs::Fit { cw: 21_000_000, ch: 0, tw: 28_000_000, th: 2, bx: 3_500_000, by: 1 })
    );
}

#[test]
fn what_cannot_be_worked_out_is_known_before() {
    assert!(OutputScale::can_compute(0, 40, 28_000_000, 2));
    assert!(!OutputScale::can_compute(0, 40, 29_000_000, 2));
    assert!(OutputScale::can_compute(0, 0, i32::MAX, i32::MAX));
    assert!(!OutputScale::can_compute(1080, 0, 2_000_000, 1080));
    assert!(OutputScale::can_compute(1080, 25, -1, 0));
    let scale = OutputScale { enc_w: 8000, enc_h: 8000, scale_args: None };
    assert!(can_rate(0, &scale, 60));
    assert!(!can_rate(0, &scale, 68));
    assert!(can_rate(1, &scale, u32::MAX));
    assert!(can_rate(0, &scale, 0));
    assert_eq!((frame_rate(0), frame_rate(24)), (30, 24));
}
