use rust_player::audio::PlaybackClock;
use rust_player::sync::AvSync;
use rust_player::video::frame::{copy_yuv420_plane, pack_i420, DecodedFrame};

fn make_i420_planes(w: u32, h: u32) -> (Vec<u8>, Vec<u8>, Vec<u8>, usize, usize) {
    let y_len = (w * h) as usize;
    let uv_w = w.div_ceil(2) as usize;
    let uv_h = h.div_ceil(2) as usize;
    (
        vec![128u8; y_len],
        vec![0u8; uv_w * uv_h],
        vec![255u8; uv_w * uv_h],
        w as usize,
        uv_w,
    )
}

#[test]
fn pack_i420_even_dimensions() {
    let w = 640u32;
    let h = 480u32;
    let (y, u, v, y_stride, uv_stride) = make_i420_planes(w, h);
    let frame = pack_i420(0, w, h, &y, y_stride, &u, uv_stride, &v, uv_stride);
    assert_eq!(frame.y_plane.len(), (w * h) as usize);
    assert_eq!(frame.u_plane.len(), (w / 2 * h / 2) as usize);
    assert_eq!(frame.v_plane.len(), (w / 2 * h / 2) as usize);
    assert_eq!(frame.uv_stride, (w / 2) as usize);
}

#[test]
fn pack_i420_odd_width() {
    let w = 641u32;
    let h = 480u32;
    let (y, u, v, y_stride, uv_stride) = make_i420_planes(w, h);
    let frame = pack_i420(0, w, h, &y, y_stride, &u, uv_stride, &v, uv_stride);
    let uv_expected = (w.div_ceil(2) * h.div_ceil(2)) as usize;
    assert_eq!(frame.y_plane.len(), (w * h) as usize);
    assert_eq!(frame.u_plane.len(), uv_expected);
    assert_eq!(frame.v_plane.len(), uv_expected);
    assert_eq!(frame.uv_stride, w.div_ceil(2) as usize);
}

#[test]
fn pack_i420_odd_height() {
    let w = 640u32;
    let h = 481u32;
    let (y, u, v, y_stride, uv_stride) = make_i420_planes(w, h);
    let frame = pack_i420(0, w, h, &y, y_stride, &u, uv_stride, &v, uv_stride);
    let uv_expected = (w.div_ceil(2) * h.div_ceil(2)) as usize;
    assert_eq!(frame.y_plane.len(), (w * h) as usize);
    assert_eq!(frame.u_plane.len(), uv_expected);
    assert_eq!(frame.v_plane.len(), uv_expected);
}

#[test]
fn pack_i420_odd_both() {
    let w = 641u32;
    let h = 481u32;
    let (y, u, v, y_stride, uv_stride) = make_i420_planes(w, h);
    let frame = pack_i420(0, w, h, &y, y_stride, &u, uv_stride, &v, uv_stride);
    let uv_expected = (w.div_ceil(2) * h.div_ceil(2)) as usize;
    assert_eq!(frame.y_plane.len(), (w * h) as usize);
    assert_eq!(frame.u_plane.len(), uv_expected);
    assert_eq!(frame.v_plane.len(), uv_expected);
}

#[test]
fn pack_i420_ptz_stored_correctly() {
    let w = 320u32;
    let h = 240u32;
    let (y, u, v, y_stride, uv_stride) = make_i420_planes(w, h);
    // 12.345 s
    let frame = pack_i420(12_345_000, w, h, &y, y_stride, &u, uv_stride, &v, uv_stride);
    assert!((frame.pts_us as f64 / 1_000_000.0 - 12.345).abs() < f64::EPSILON * 16.0);
    assert_eq!(frame.pts_us, 12_345_000);
}

#[test]
fn strided_rows_are_packed() {
    let src = [1u8, 2, 9, 3, 4, 9];
    let mut dst = [0u8; 4];
    copy_yuv420_plane(&src, 3, &mut dst, 2, 2);
    assert_eq!(dst, [1, 2, 3, 4]);
    let mut short = [7u8; 4];
    copy_yuv420_plane(&src[..4], 3, &mut short, 2, 2);
    assert_eq!(short, [1, 2, 7, 7]);
}

fn make_frame(pts_us: i64) -> DecodedFrame {
    DecodedFrame {
        pts_us,
        width: 2,
        height: 2,
        y_plane: vec![128; 4],
        u_plane: vec![128; 1],
        v_plane: vec![128; 1],
        y_stride: 2,
        uv_stride: 1,
    }
}

#[test]
fn sync_drops_late_frame() {
    let mut clock = PlaybackClock::new(48_000, Some(480_000));
    clock.on_samples_played(480_000); // 10s
    let mut sync = AvSync::new();

    sync.push_frame(make_frame(1_000_000), &clock);
    assert_eq!(sync.dropped_late(), 1);
}

#[test]
fn sync_waits_early_frame() {
    let clock = PlaybackClock::new(48_000, Some(480_000));
    let mut sync = AvSync::new();

    sync.push_frame(make_frame(5_000_000), &clock);
    assert!(sync.pop_frame_for_display(&clock).is_none());
    assert_eq!(sync.waited_early(), 1);
}

#[test]
fn sync_queue_overflow() {
    let clock = PlaybackClock::new(48_000, Some(4_800_000));
    let mut sync = AvSync::new().with_threshold(1000);
    sync.set_max_queue_frames(2);

    sync.push_frame(make_frame(0), &clock);
    sync.push_frame(make_frame(100_000), &clock);
    sync.push_frame(make_frame(200_000), &clock);
    assert_eq!(sync.dropped_overflow(), 1);
}

#[test]
fn sync_shows_frame_in_window() {
    let mut clock = PlaybackClock::new(1_000, None);
    clock.on_samples_played(1_000); // 1 s
    let mut sync = AvSync::new();
    sync.push_frame(make_frame(990_000), &clock);
    sync.push_frame(make_frame(1_500_000), &clock);
    assert_eq!(sync.queue_len(), 2);
    assert_eq!(sync.pop_frame_for_display(&clock).unwrap().pts_us, 990_000);
    assert!(sync.pop_frame_for_display(&clock).is_none());
    sync.clear();
    assert_eq!(sync.queue_len(), 0);
}

#[test]
fn default_queue_holds_eight_frames() {
    let clock = PlaybackClock::new(48_000, None);
    let mut sync = AvSync::new();
    assert_eq!(sync.max_queue_frames(), 8);
    for _ in 0..8 {
        sync.push_frame(make_frame(0), &clock);
    }
    assert_eq!(sync.queue_len(), 8);
    sync.push_frame(make_frame(0), &clock);
    assert_eq!(sync.queue_len(), 8);
    assert_eq!(sync.dropped_overflow(), 1);
    assert_eq!(sync.dropped_late(), 0);
}

#[test]
fn first_frame_after_open_or_seek_is_shown() {
    let clock = PlaybackClock::new(48_000, None);
    let mut sync = AvSync::new();
    // 100 ms ahead of the audio: beyond the 40 ms window, but the first frame.
    sync.push_frame(make_frame(100_000), &clock);
    assert_eq!(sync.pop_frame_for_display(&clock).unwrap().pts_us, 100_000);
    // Later frames wait for the clock again.
    sync.push_frame(make_frame(200_000), &clock);
    assert!(sync.pop_frame_for_display(&clock).is_none());
    assert_eq!(sync.waited_early(), 1);
    // A seek brings the first-frame window back.
    sync.clear();
    sync.set_seeking(true);
    assert!(sync.is_seeking());
    sync.push_frame(make_frame(300_000), &clock);
    assert_eq!(sync.pop_frame_for_display(&clock).unwrap().pts_us, 300_000);
    assert!(!sync.is_seeking());
}
