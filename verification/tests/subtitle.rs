use rust_player::subtitle::{parse_srt_time_range, parse_srt_timestamp, SubtitleTrack};

fn secs(us: u64) -> f64 {
    us as f64 / 1_000_000.0
}

#[test]
fn parse_srt_basic() {
    let srt = "1\n00:00:01,000 --> 00:00:03,500\nHello world\n";
    let track = SubtitleTrack::from_srt(srt).unwrap();
    assert_eq!(track.cues().len(), 1);
    assert!((secs(track.cues()[0].start_us) - 1.0).abs() < 1e-3);
    assert!((secs(track.cues()[0].end_us) - 3.5).abs() < 1e-3);
    assert_eq!(track.cues()[0].text, "Hello world");
}

#[test]
fn cue_at_finds_active() {
    let srt = "1\n00:00:00,000 --> 00:00:02,000\nA\n\n2\n00:00:02,000 --> 00:00:04,000\nB\n";
    let track = SubtitleTrack::from_srt(srt).unwrap();
    assert_eq!(track.cue_at(1_000_000).unwrap().text, "A");
    assert_eq!(track.cue_at(2_500_000).unwrap().text, "B");
    assert!(track.cue_at(5_000_000).is_none());
}

#[test]
fn parse_timestamp_formats() {
    assert!((secs(parse_srt_timestamp("01:02:03,456").unwrap()) - 3723.456).abs() < 1e-3);
    assert!((secs(parse_srt_timestamp("02:30.000").unwrap()) - 150.0).abs() < 1e-3);
}

#[test]
fn timestamp_exact_microseconds() {
    assert_eq!(parse_srt_timestamp("01:02:03,456"), Some(3_723_456_000));
    assert_eq!(parse_srt_timestamp(" 00:00:01.5 "), Some(1_500_000));
    assert_eq!(parse_srt_timestamp("0:0:0.1234567"), Some(123_456));
    assert_eq!(parse_srt_timestamp("1.5:00"), Some(90_000_000));
    assert_eq!(parse_srt_timestamp("12"), None);
    assert_eq!(parse_srt_timestamp("1:2:3:4"), None);
    assert_eq!(parse_srt_timestamp("aa:00"), None);
    assert_eq!(parse_srt_timestamp("00:."), None);
}

#[test]
fn time_range_needs_one_arrow() {
    assert_eq!(
        parse_srt_time_range("00:00:01,000 --> 00:00:02,000"),
        Some((1_000_000, 2_000_000))
    );
    assert_eq!(parse_srt_time_range("00:00:01,000 -> 00:00:02,000"), None);
    assert_eq!(
        parse_srt_time_range("00:01 --> 00:02 --> 00:03"),
        None
    );
}

#[test]
fn cues_sorted_and_tags_stripped() {
    let srt = "2\n00:00:05,000 --> 00:00:06,000\n<i>Later</i>\n\n\
               00:00:01,000 --> 00:00:02,000\n<b>First</b>\nline two\n\n\
               3\n00:00:01,000 --> 00:00:03,000\nSame start\n\n\
               garbage block\nno timing here\n";
    let track = SubtitleTrack::from_srt(srt).unwrap();
    let cues = track.cues();
    assert_eq!(cues.len(), 3);
    assert_eq!(cues[0].text, "First\nline two");
    assert_eq!(cues[1].text, "Same start");
    assert_eq!(cues[2].text, "Later");
    assert_eq!(cues[2].start_us, 5_000_000);
    assert!(!track.is_empty());
}

#[test]
fn empty_document_has_no_cues() {
    let track = SubtitleTrack::from_srt("\n\n\n").unwrap();
    assert!(track.is_empty());
    assert!(track.cue_at(0).is_none());
}

#[test]
fn windows_line_endings() {
    let srt = "1\r\n00:00:00,000 --> 00:00:01,000\r\nHi\r\n";
    let track = SubtitleTrack::from_srt(srt).unwrap();
    assert_eq!(track.cues().len(), 1);
    assert_eq!(track.cues()[0].text, "Hi");
    assert_eq!(track.cue_at(999_999).unwrap().text, "Hi");
    assert!(track.cue_at(1_000_000).is_none());
}

#[test]
fn sidecar_path_swaps_extension() {
    assert_eq!(SubtitleTrack::path_for_video("movies/a.mp4"), "movies/a.srt");
    assert_eq!(SubtitleTrack::path_for_video("x.tar.gz"), "x.tar.srt");
    assert_eq!(SubtitleTrack::path_for_video("clip"), "clip.srt");
    assert_eq!(SubtitleTrack::path_for_video(".hidden"), ".hidden.srt");
    assert_eq!(SubtitleTrack::path_for_video("a.b/c"), "a.b/c.srt");
    assert_eq!(SubtitleTrack::path_for_video("dir/"), "dir/");
}
