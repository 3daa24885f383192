use rust_player::stream::{
    guess_extension, is_stream_url, parse_bandwidth, parse_hls_segments, resolve_hls_media_url,
    resolve_media_source, resolve_url, url_dir, HlsStep, MediaSource,
};

#[test]
fn detects_stream_urls() {
    assert!(is_stream_url("https://example.com/v.mp4"));
    assert!(is_stream_url("http://localhost/test.m3u8"));
    assert!(!is_stream_url("/local/file.mp4"));
    assert!(!is_stream_url("file.mp4"));
}

#[test]
fn resolve_relative_hls_url() {
    let base = "https://cdn.example.com/live/";
    assert_eq!(
        resolve_url(base, "seg001.ts"),
        "https://cdn.example.com/live/seg001.ts"
    );
}

#[test]
fn parse_bandwidth_tag() {
    assert_eq!(
        parse_bandwidth("#EXT-X-STREAM-INF:BANDWIDTH=1280000,RESOLUTION=854x480"),
        1_280_000
    );
}

#[test]
fn bandwidth_missing_or_empty_is_zero() {
    assert_eq!(parse_bandwidth("#EXT-X-STREAM-INF:RESOLUTION=854x480"), 0);
    assert_eq!(parse_bandwidth("#EXT-X-STREAM-INF:BANDWIDTH=,X=1"), 0);
    assert_eq!(parse_bandwidth("BANDWIDTH=99999999999999999999999"), 0);
    assert_eq!(parse_bandwidth("BANDWIDTH=42"), 42);
}

#[test]
fn absolute_path_keeps_origin() {
    assert_eq!(
        resolve_url("https://cdn.example.com/live/", "/other/seg.ts"),
        "https://cdn.example.com/other/seg.ts"
    );
    assert_eq!(
        resolve_url("https://cdn.example.com/live/", "http://elsewhere.org/a.ts"),
        "http://elsewhere.org/a.ts"
    );
}

#[test]
fn url_dir_keeps_trailing_slash() {
    assert_eq!(url_dir("https://a.b/c/d.m3u8"), "https://a.b/c/");
    assert_eq!(url_dir("nodir"), "");
}

#[test]
fn media_source_classification() {
    assert_eq!(
        resolve_media_source("https://a.b/x.m3u8"),
        MediaSource::Hls("https://a.b/x.m3u8".to_string())
    );
    assert_eq!(
        resolve_media_source("http://a.b/x.mp4"),
        MediaSource::Http("http://a.b/x.mp4".to_string())
    );
    assert_eq!(
        resolve_media_source("/tmp/x.m3u8"),
        MediaSource::Local("/tmp/x.m3u8".to_string())
    );
}

#[test]
fn master_playlist_picks_highest_bandwidth() {
    let master = "#EXTM3U\n#EXT-X-STREAM-INF:BANDWIDTH=800000\nlow/index.m3u8\n#EXT-X-STREAM-INF:BANDWIDTH=1280000\nhigh/index.m3u8\n#EXT-X-STREAM-INF:BANDWIDTH=500000\nlowest.m3u8\n";
    assert_eq!(
        resolve_hls_media_url("https://cdn.example.com/live/master.m3u8", master),
        HlsStep::Variant {
            bandwidth: 1_280_000,
            url: "https://cdn.example.com/live/high/index.m3u8".to_string()
        }
    );
}

#[test]
fn media_playlist_is_used_directly() {
    let media = "#EXTM3U\n#EXTINF:4.0,\nseg0.ts\n";
    assert_eq!(
        resolve_hls_media_url("https://x.y/p.m3u8", media),
        HlsStep::Media("https://x.y/p.m3u8".to_string())
    );
    assert_eq!(
        resolve_hls_media_url("https://x.y/p.m3u8", "#EXTM3U\n"),
        HlsStep::NoVariant
    );
}

#[test]
fn segments_skip_tags_and_blanks() {
    let media = "#EXTM3U\n#EXTINF:4.0,\n seg0.ts \n\n#EXTINF:4.0,\n/abs/seg1.ts\n";
    assert_eq!(
        parse_hls_segments("https://cdn.example.com/live/p.m3u8", media),
        vec![
            "https://cdn.example.com/live/seg0.ts".to_string(),
            "https://cdn.example.com/abs/seg1.ts".to_string()
        ]
    );
}

#[test]
fn extension_guessing() {
    assert_eq!(guess_extension("https://a.b/v", Some("video/mp4")), "mp4");
    assert_eq!(guess_extension("https://a.b/v.bin", Some("audio/mpeg")), "mp3");
    assert_eq!(guess_extension("https://a.b/v.MKV", None), "mkv");
    assert_eq!(guess_extension("https://a.b/v", Some("text/plain")), "mp4");
}

#[test]
fn relative_segment_names_stay_remote() {
    let dir = url_dir("https://cdn.example.com/live/index.m3u8");
    for name in ["seg.ts", "/root.ts", "a/b.ts"] {
        assert!(is_stream_url(&resolve_url(&dir, name)));
    }
}
