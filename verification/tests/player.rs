use rust_player::i18n::{Language, Locale};
use rust_player::player::{
    audio_chunk_len, headless_finished, is_media_file, key_action, last_error_of,
    media_extensions, needs_redraw, next_ui_seek, plan_output, prefill_threshold, run_player,
    skip_backward_target, skip_forward_target, unsupported_file_message, uses_wall_clock,
    window_title_for, KeyAction, KeyInput, LaunchMode, PlayerCore, UiRequests, UiSeek,
    WaitingReason, WorkerPerFrameStatus,
};
use rust_player::stream::MediaSource;
use rust_player::ui::{drop_overlay_text, format_time};
use rust_player::PlayerError;

#[test]
fn media_extension_filter() {
    assert!(is_media_file("video.mp4"));
    assert!(is_media_file("audio.MP3"));
    assert!(!is_media_file("readme.txt"));
}

#[test]
fn media_extension_edge_cases() {
    assert!(is_media_file("/a/b/clip.Ts"));
    assert!(is_media_file("dir/x.m4a/"));
    assert!(!is_media_file(".mp4"));
    assert!(!is_media_file("noext"));
    assert!(!is_media_file("a.mp4/.."));
    assert_eq!(media_extensions(), vec!["mp4", "m4a", "mp3", "ts"]);
}

#[test]
fn format_time_displays() {
    // 65.5 seconds
    assert_eq!(format_time(65_500), "01:05.500");
}

#[test]
fn format_time_hours_and_zero() {
    assert_eq!(format_time(0), "00:00.000");
    assert_eq!(format_time(3_723_456), "01:02:03.456");
    assert_eq!(format_time(360_000_000 + 7), "100:00:00.007");
}

#[test]
fn launch_modes() {
    assert_eq!(
        run_player(Some("https://x.y/a.m3u8"), true, Language::En).unwrap(),
        LaunchMode::Fetch { source: MediaSource::Hls("https://x.y/a.m3u8".to_string()), no_ui: true }
    );
    assert_eq!(
        run_player(Some("clip.mp4"), true, Language::En).unwrap(),
        LaunchMode::Headless("clip.mp4".to_string())
    );
    assert_eq!(
        run_player(Some("clip.mp4"), false, Language::En).unwrap(),
        LaunchMode::Windowed(Some("clip.mp4".to_string()))
    );
    assert_eq!(run_player(None, false, Language::En).unwrap(), LaunchMode::Windowed(None));
    match run_player(None, true, Language::En) {
        Err(PlayerError::Unsupported(m)) => {
            assert_eq!(m, Locale::new(Language::En).headless_requires_path())
        }
        _ => panic!("headless without a path must be refused"),
    }
}

#[test]
fn unsupported_file_messages() {
    let loc = Locale::new(Language::En);
    assert_eq!(unsupported_file_message(loc, "x.MP4"), None);
    assert_eq!(
        unsupported_file_message(loc, "notes.txt").unwrap(),
        "Unsupported file type: txt"
    );
    assert_eq!(
        unsupported_file_message(loc, "noext").unwrap(),
        format!("Unsupported file type: {}", loc.unknown_extension())
    );
}

#[test]
fn window_titles() {
    let loc = Locale::new(Language::En);
    assert_eq!(
        window_title_for(loc, "/media/clip.mp4"),
        format!("{} — clip.mp4", loc.app_name())
    );
    assert_eq!(window_title_for(loc, "/"), format!("{} — {}", loc.app_name(), loc.app_name()));
}

#[test]
fn skip_targets_clamp() {
    assert_eq!(skip_forward_target(5_000_000, Some(12_000_000)), 12_000_000);
    assert_eq!(skip_forward_target(1_000_000, Some(60_000_000)), 11_000_000);
    assert_eq!(skip_forward_target(u64::MAX - 1, None), u64::MAX);
    assert_eq!(skip_backward_target(4_000_000), 0);
    assert_eq!(skip_backward_target(15_000_000), 5_000_000);
    // forward then back returns to the start when not clamped
    let f = skip_forward_target(3_000_000, Some(100_000_000));
    assert_eq!(skip_backward_target(f), 3_000_000);
}

#[test]
fn ui_requests_in_order() {
    let mut req = UiRequests {
        stop_playback: true,
        skip_forward: true,
        skip_backward: false,
        seek_target_us: Some(7),
    };
    assert_eq!(
        next_ui_seek(&mut req, 50_000_000, Some(55_000_000)),
        Some(UiSeek { target_us: 0, stops_playback: true })
    );
    assert_eq!(
        next_ui_seek(&mut req, 0, Some(55_000_000)),
        Some(UiSeek { target_us: 10_000_000, stops_playback: false })
    );
    assert_eq!(
        next_ui_seek(&mut req, 10_000_000, Some(55_000_000)),
        Some(UiSeek { target_us: 7, stops_playback: false })
    );
    assert_eq!(next_ui_seek(&mut req, 7, Some(55_000_000)), None);
}

#[test]
fn tick_start_transitions() {
    let mut core = PlayerCore::new(true, true);
    let t = core.begin_tick(true);
    assert!(t.resume_output && t.start_wall_clock && t.advance_wall_clock && t.continue_tick);
    let t = core.begin_tick(true);
    assert!(!t.resume_output && !t.start_wall_clock && t.advance_wall_clock);
    let t = core.begin_tick(false);
    assert!(t.pause_output && t.stop_wall_clock && !t.continue_tick);
    let t = core.begin_tick(false);
    assert!(!t.pause_output && !t.stop_wall_clock && !t.continue_tick);
}

#[test]
fn waiting_reasons_follow_video() {
    let mut core = PlayerCore::new(false, true);
    assert_eq!(core.waiting_reason, WaitingReason::WaitingForFirstFrame);
    core.note_worker_status(true, 0, 1_500_000);
    assert_eq!(core.waiting_reason, WaitingReason::Decoding);
    core.note_display(true);
    assert_eq!(core.waiting_reason, WaitingReason::NotWaiting);
    assert!(core.has_last_frame);
    core.note_display(false);
    assert_eq!(core.waiting_reason, WaitingReason::NotWaiting);
    core.begin_tick(true);
    assert!(!core.note_seek());
    assert_eq!(core.waiting_reason, WaitingReason::SeekPending);

    let mut fresh = PlayerCore::new(true, true);
    fresh.waiting_reason = WaitingReason::NotWaiting;
    fresh.note_display(false);
    assert_eq!(fresh.waiting_reason, WaitingReason::WaitingForFirstFrame);
    fresh.begin_tick(true);
    assert!(fresh.note_seek());
}

#[test]
fn status_reports_errors() {
    let mut core = PlayerCore::new(false, true);
    core.waiting_reason = WaitingReason::DecodeError("bad".to_string());
    let worker = WorkerPerFrameStatus {
        demuxed_packets: 5,
        decoded_frames: 3,
        last_frame_pts_us: 40_000,
        worker_running: true,
    };
    let st = core.playback_status(&worker, 2, true);
    assert_eq!(st.last_error, Some("bad".to_string()));
    assert_eq!(st.demuxed_packets, 5);
    assert_eq!(st.uploaded_frames, 2);
    assert!(st.is_seeking && st.worker_running && !st.player_active);
    assert_eq!(last_error_of(&WaitingReason::Decoding), None);
}

#[test]
fn audio_pacing() {
    assert_eq!(prefill_threshold(48_000, 2), 19_200);
    assert_eq!(audio_chunk_len(10), 10);
    assert_eq!(audio_chunk_len(100_000), 4096);
    assert!(headless_finished(10, Some(10)));
    assert!(!headless_finished(10, None));
    assert!(uses_wall_clock(true, true, false));
    assert!(uses_wall_clock(false, false, true));
    assert!(!uses_wall_clock(false, true, true));
}

#[test]
fn output_plan() {
    assert_eq!(plan_output(Some((44_100, 1, Some(5))), Some(Some(9))).unwrap(), (44_100, 1, Some(5)));
    assert_eq!(plan_output(None, Some(Some(9))).unwrap(), (48_000, 2, Some(9)));
    assert!(matches!(plan_output(None, None), Err(PlayerError::AudioDecode(_))));
}

#[test]
fn keys_and_redraw() {
    assert_eq!(key_action(&KeyInput::Space, false, true), KeyAction::TogglePlay);
    assert_eq!(key_action(&KeyInput::Space, false, false), KeyAction::Ignore);
    assert_eq!(key_action(&KeyInput::ArrowLeft, false, false), KeyAction::SkipBackward);
    assert_eq!(key_action(&KeyInput::Character("O".to_string()), true, false), KeyAction::OpenFile);
    assert_eq!(key_action(&KeyInput::Character("o".to_string()), false, false), KeyAction::Ignore);
    assert!(needs_redraw(false, false, false, false, false));
    assert!(!needs_redraw(false, false, false, false, true));
}

#[test]
fn drop_overlay() {
    let loc = Locale::new(Language::En);
    assert_eq!(drop_overlay_text(loc, false, true), None);
    assert_eq!(
        drop_overlay_text(loc, true, true),
        Some((loc.drop_title_active(), loc.drop_subtitle_active()))
    );
    assert_eq!(
        drop_overlay_text(loc, false, false),
        Some((loc.drop_title_idle(), loc.drop_subtitle_idle()))
    );
}
