use rust_player::video::demux::{
    avcc_from_parameter_sets, micros_to_ticks, next_sample_id, packet_from_sample,
    packet_from_timed_sample, sample_byte_len, seek_keyframe_index, select_parsed_track,
    select_summary_track, ticks_to_micros, unsigned_ticks_to_micros, KeyframeSearch,
    Mp4MediaKind, ParsedTrack, SampleEntryKind, SampleInfo, SampleTable, SearchStep,
    TrackSummary, VideoCodec,
};

fn make_sample(pts: i64, sync: bool) -> SampleInfo {
    SampleInfo {
        start_offset: 0,
        end_offset: 0,
        start_composition: pts,
        start_decode: pts,
        sync,
    }
}

#[test]
fn pts_conversion() {
    let timescale = 90000u32;
    let start_time = 90000u32;
    let pts = start_time as f64 / timescale as f64;
    assert!((pts - 1.0).abs() < 1e-6);
    assert_eq!(ticks_to_micros(start_time as i64, timescale), 1_000_000);
    assert_eq!(unsigned_ticks_to_micros(start_time as u64, timescale), 1_000_000);
}

#[test]
fn seek_keyframe_picks_nearest_sync() {
    let samples = vec![
        make_sample(0, true),
        make_sample(100, false),
        make_sample(200, false),
        make_sample(300, true),
        make_sample(400, false),
    ];
    assert_eq!(seek_keyframe_index(&samples, 250), 3);
    assert_eq!(seek_keyframe_index(&samples, 0), 0);
    assert_eq!(seek_keyframe_index(&samples, 500), 3);
}

#[test]
fn video_codec_variants_distinct() {
    assert_ne!(VideoCodec::H264, VideoCodec::H265);
    assert_ne!(VideoCodec::Av1, VideoCodec::H264);
}

#[test]
fn seek_falls_back_to_earlier_keyframe() {
    let samples = vec![
        make_sample(0, true),
        make_sample(100, false),
        make_sample(200, false),
    ];
    assert_eq!(seek_keyframe_index(&samples, 150), 0);
    assert_eq!(seek_keyframe_index(&[], 10), 0);
    let none_sync = vec![make_sample(0, false), make_sample(10, false)];
    assert_eq!(seek_keyframe_index(&none_sync, 5), 0);
}

#[test]
fn tick_conversions_round_down() {
    assert_eq!(ticks_to_micros(1, 3), 333_333);
    assert_eq!(ticks_to_micros(-1, 3), -333_334);
    assert_eq!(ticks_to_micros(5, 0), 0);
    assert_eq!(micros_to_ticks(2_500_000, 90_000), 225_000);
    assert_eq!(ticks_to_micros(i64::MAX, 1), i64::MAX);
}

#[test]
fn sample_table_walks_and_seeks() {
    let samples = vec![
        make_sample(0, true),
        make_sample(1000, false),
        make_sample(2000, true),
        make_sample(3000, false),
    ];
    let mut table = SampleTable::new(samples, 1000).unwrap();
    assert_eq!(table.sample_count(), 4);
    assert_eq!(table.next_sample().unwrap().start_composition, 0);
    assert_eq!(table.next_sample().unwrap().start_composition, 1000);
    // 2.5 s = 2500 ticks: the last sample at or before is index 2, a keyframe.
    table.seek(2_500_000);
    assert_eq!(table.next_sample().unwrap().start_composition, 2000);
    table.reset();
    assert_eq!(table.next_sample().unwrap().start_composition, 0);
    assert!(SampleTable::new(Vec::new(), 1000).is_err());
}

#[test]
fn table_end_gives_none() {
    let mut table = SampleTable::new(vec![make_sample(0, true)], 1).unwrap();
    assert!(table.next_sample().is_some());
    assert!(table.next_sample().is_none());
    assert!(table.next_sample().is_none());
}

#[test]
fn packets_carry_microseconds() {
    let s = SampleInfo {
        start_offset: 10,
        end_offset: 14,
        start_composition: 3000,
        start_decode: 1500,
        sync: true,
    };
    assert_eq!(sample_byte_len(&s), Some(4));
    let p = packet_from_sample(&s, vec![1, 2, 3, 4], 1000);
    assert_eq!(p.pts_us, 3_000_000);
    assert_eq!(p.dts_us, 1_500_000);
    assert!(p.is_keyframe);
    assert_eq!(p.data, vec![1, 2, 3, 4]);
    let q = packet_from_timed_sample(45_000, 0, false, vec![9], 90_000);
    assert_eq!(q.pts_us, 500_000);
    assert_eq!(q.dts_us, 500_000);
    // presentation = decode time + composition offset
    let r = packet_from_timed_sample(45_000, 9_000, true, vec![9], 90_000);
    assert_eq!(r.pts_us, 600_000);
    assert_eq!(r.dts_us, 500_000);
    let early = packet_from_timed_sample(0, -9_000, true, vec![9], 90_000);
    assert_eq!(early.pts_us, -100_000);
    assert_eq!(early.dts_us, 0);
    let reversed = SampleInfo { start_offset: 5, end_offset: 4, ..s };
    assert_eq!(sample_byte_len(&reversed), None);
}

#[test]
fn sample_ids_are_one_based() {
    let mut idx = 0usize;
    assert_eq!(next_sample_id(&mut idx, 2), Some(1));
    assert_eq!(next_sample_id(&mut idx, 2), Some(2));
    assert_eq!(next_sample_id(&mut idx, 2), None);
    assert_eq!(idx, 2);
}

#[test]
fn avcc_record_layout() {
    let sps = [0x67u8, 0x64, 0x00, 0x1f, 0xac];
    let pps = [0x68u8, 0xee];
    let out = avcc_from_parameter_sets(Some(&sps), Some(&pps));
    assert_eq!(
        out,
        vec![1, 0x64, 0x00, 0x1f, 0xff, 0xe1, 0, 5, 0x67, 0x64, 0x00, 0x1f, 0xac, 1, 0, 2, 0x68, 0xee]
    );
    assert!(avcc_from_parameter_sets(Some(&[1, 2, 3]), Some(&pps)).is_empty());
    assert!(avcc_from_parameter_sets(None, Some(&pps)).is_empty());
}

#[test]
fn parsed_track_selection() {
    let audio = ParsedTrack { is_video: false, has_stsd: false, first_entry: None, timescale: None };
    let other = ParsedTrack {
        is_video: true,
        has_stsd: true,
        first_entry: Some(SampleEntryKind::OtherVideo),
        timescale: Some(600),
    };
    let h264 = ParsedTrack {
        is_video: true,
        has_stsd: true,
        first_entry: Some(SampleEntryKind::H264(Some(vec![1, 2]))),
        timescale: Some(90_000),
    };
    assert_eq!(
        select_parsed_track(&[audio.clone(), other.clone(), h264.clone()]),
        Some((2, 90_000, VideoCodec::H264, vec![1, 2]))
    );
    let av1 = ParsedTrack { first_entry: Some(SampleEntryKind::Av1), timescale: None, ..h264.clone() };
    assert_eq!(select_parsed_track(&[av1]), Some((0, 1, VideoCodec::Av1, vec![])));
    let broken = ParsedTrack { has_stsd: false, ..h264.clone() };
    assert_eq!(select_parsed_track(&[broken, h264]), None);
}

#[test]
fn summary_track_selection() {
    let audio = TrackSummary {
        track_id: 1,
        is_video: false,
        media: Some(Mp4MediaKind::Other),
        timescale: 44_100,
        sample_count: 10,
        sps: None,
        pps: None,
    };
    let hevc = TrackSummary {
        track_id: 2,
        is_video: true,
        media: Some(Mp4MediaKind::H265),
        timescale: 90_000,
        sample_count: 30,
        sps: None,
        pps: None,
    };
    assert_eq!(
        select_summary_track(&[audio.clone(), hevc]),
        Some((2, VideoCodec::H265, vec![], 90_000, 30))
    );
    assert_eq!(select_summary_track(&[audio]), None);
}

fn run_search(samples: &[(u64, bool)], target: i64) -> usize {
    let mut search = KeyframeSearch::new(samples.len() as u32, target);
    loop {
        match search.next_step() {
            SearchStep::Found(i) => return i,
            SearchStep::Read(id) => {
                let s = samples.get(id as usize - 1).copied();
                search.feed(s);
            }
        }
    }
}

#[test]
fn keyframe_search_by_reading_samples() {
    let samples = [(0u64, true), (100, false), (200, false), (300, true), (400, false)];
    assert_eq!(run_search(&samples, 250), 3);
    assert_eq!(run_search(&samples, 0), 0);
    assert_eq!(run_search(&samples, 500), 4);
    assert_eq!(run_search(&[], 10), 0);
    assert_eq!(run_search(&[(0, false), (10, false)], 5), 0);
}
