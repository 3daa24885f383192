use rust_player::video::h264::{decoded_plane_lengths, H264Stream};
use rust_player::video::h265::{
    frame_of_outcome, frames_from_pictures, hevc_frame_to_decoded, H265Decoder, H265Stream,
    HevcPicture, NalOutcome,
};
use rust_player::video::demux::VideoPacket;
use rust_player::video::worker::{
    drain_commands, pause_after_burst_ms, CommandAction, DecodeBudget, DecodeCommand,
    Burst, BurstAction, EndAction, PacketRead, WorkerCounters,
};

#[test]
fn commands_drain() {
    assert_eq!(drain_commands(&[]), CommandAction::Continue);
    assert_eq!(
        drain_commands(&[DecodeCommand::Seek(1), DecodeCommand::Seek(2)]),
        CommandAction::Seek(2)
    );
    assert_eq!(
        drain_commands(&[DecodeCommand::Seek(1), DecodeCommand::Shutdown, DecodeCommand::Seek(3)]),
        CommandAction::Shutdown
    );
}

#[test]
fn counters_and_pauses() {
    let mut c = WorkerCounters::new();
    c.count_packet();
    c.count_packet();
    c.count_frame(40_000);
    c.count_frame(80_000);
    let st = c.status(true);
    assert_eq!((st.demuxed_packets, st.decoded_frames, st.worker_running), (2, 2, true));
    assert_eq!(st.last_frame_pts_us, 80_000);
    assert_eq!(c.rest_ms(false), 5);
    assert_eq!(c.on_demux_end(), EndAction::Flush);
    assert_eq!(c.on_demux_end(), EndAction::Wait);
    assert_eq!(c.rest_ms(false), 20);
    assert_eq!(c.rest_ms(true), 1);
    c.on_seeked();
    assert_eq!((c.demuxed, c.decoded, c.last_frame_pts_us, c.at_end), (0, 0, 0, false));
    assert_eq!(c.on_demux_end(), EndAction::Flush);
    assert_eq!(pause_after_burst_ms(true), 1);
    assert_eq!(pause_after_burst_ms(false), 5);
}

#[test]
fn decode_budget() {
    let mut b = DecodeBudget::new(2);
    assert!(b.wants_packet());
    assert!(!b.on_packet(3));
    assert!(b.on_packet(10));
    assert!(b.on_frame());
    assert!(!b.on_frame());
    assert!(!b.wants_packet());
    assert!(!b.wants_flush());
    let mut c = DecodeBudget::new(5);
    for _ in 0..200 {
        assert!(c.wants_packet());
        c.on_packet(1);
    }
    assert!(!c.wants_packet());
    assert!(c.wants_flush());
}

fn avcc() -> Vec<u8> {
    vec![1, 0x64, 0, 0x1f, 0xff, 0xe1, 0, 2, 0x67, 0x64, 1, 0, 2, 0x68, 0xee]
}

#[test]
fn h264_keyframes_carry_parameter_sets() {
    let s = H264Stream::new(&avcc());
    assert_eq!(s.nal_length_size(), 4);
    let sample = [0u8, 0, 0, 2, 0x65, 0x88];
    assert_eq!(s.access_unit(&sample, false), vec![0, 0, 0, 1, 0x65, 0x88]);
    assert_eq!(
        s.access_unit(&sample, true),
        vec![0, 0, 0, 1, 0x67, 0x64, 0, 0, 0, 1, 0x68, 0xee, 0, 0, 0, 1, 0x65, 0x88]
    );
    assert_eq!(s.access_unit(&sample, true), s.access_unit(&sample, true));
    assert_eq!(decoded_plane_lengths(5, 64, 32), Some((320, 96)));
}

#[test]
fn h265_sends_parameter_sets_once() {
    let mut s = H265Stream::new(&avcc());
    let sample = [0u8, 0, 0, 1, 0x26];
    assert_eq!(s.access_unit(&sample, false), vec![0, 0, 0, 1, 0x26]);
    assert_eq!(s.access_unit(&sample, true).len(), 12 + 5);
    assert_eq!(s.access_unit(&sample, true), vec![0, 0, 0, 1, 0x26]);
}

#[test]
fn h265_picture_conversion() {
    let p = HevcPicture {
        width: 4,
        height: 2,
        bit_depth: 8,
        y: Some(vec![1; 8]),
        u: Some(vec![2; 2]),
        v: Some(vec![3; 2]),
    };
    let f = hevc_frame_to_decoded(&p, 77).unwrap();
    assert_eq!((f.width, f.height, f.pts_us), (4, 2, 77));
    assert_eq!(f.y_plane, vec![1; 8]);
    assert_eq!(f.u_plane, vec![2; 2]);
    let deep = HevcPicture { u: None, ..p };
    assert!(hevc_frame_to_decoded(&deep, 0).is_err());
}

#[test]
fn h265_decoder_on_empty_input() {
    let mut d = H265Decoder::new(&[]).unwrap();
    let packet = VideoPacket { pts_us: 0, dts_us: 0, data: vec![0, 0, 0, 0], is_keyframe: true };
    assert!(d.decode(&packet).unwrap().is_empty());
    assert!(d.flush().unwrap().is_empty());
}

#[test]
fn only_packable_8bit_pictures_become_frames() {
    let good = HevcPicture { width: 2, height: 2, bit_depth: 8, y: Some(vec![5; 4]), u: Some(vec![6]), v: Some(vec![7]) };
    let deep = HevcPicture { width: 2, height: 2, bit_depth: 10, y: None, u: None, v: None };
    let broken = HevcPicture { width: 2, height: 2, bit_depth: 8, y: Some(vec![1; 4]), u: None, v: Some(vec![7]) };
    let frames = frames_from_pictures(&vec![good, deep, broken], 9);
    assert_eq!(frames.len(), 1);
    assert_eq!(frames[0].y_plane, vec![5; 4]);
    assert_eq!(frames[0].u_plane, vec![6]);
    assert_eq!(frames[0].pts_us, 9);
}

#[test]
fn decoder_outcomes_become_frames() {
    let pic = || HevcPicture {
        width: 4,
        height: 2,
        bit_depth: 8,
        y: Some(vec![1; 8]),
        u: Some(vec![2; 2]),
        v: Some(vec![3; 2]),
    };
    let f = frame_of_outcome(NalOutcome::Picture(pic()), 55).unwrap().unwrap();
    assert_eq!((f.pts_us, f.width, f.height), (55, 4, 2));
    assert_eq!(f.u_plane, vec![2, 2]);
    assert_eq!(f.v_plane, vec![3, 3]);
    let deep = HevcPicture { bit_depth: 10, y: None, u: None, v: None, ..pic() };
    assert!(frame_of_outcome(NalOutcome::Picture(deep), 0).unwrap().is_none());
    assert!(frame_of_outcome(NalOutcome::NoPicture, 0).unwrap().is_none());
    assert!(frame_of_outcome(NalOutcome::Failed, 0).unwrap().is_none());
    let broken = HevcPicture { v: None, ..pic() };
    assert!(frame_of_outcome(NalOutcome::Picture(broken), 0).is_err());
}

#[test]
fn burst_reads_then_flushes_once_at_end() {
    let mut c = WorkerCounters::new();
    let mut b = Burst::new();
    assert_eq!(b.on_read(&mut c, PacketRead::Packet), BurstAction::Decode);
    b.on_frame_sent(&mut c, 40_000);
    assert_eq!(b.on_read(&mut c, PacketRead::End), BurstAction::Flush);
    b.on_frame_sent(&mut c, 80_000);
    assert_eq!(c.status(true).last_frame_pts_us, 80_000);
    assert_eq!(b.rest_ms(&c), 1);
    let mut next = Burst::new();
    assert_eq!(next.on_read(&mut c, PacketRead::End), BurstAction::Stop);
    assert_eq!(next.rest_ms(&c), 20);
    assert_eq!(next.on_read(&mut c, PacketRead::Failed), BurstAction::Stop);
    assert_eq!((c.demuxed, c.decoded), (1, 2));
    let mut full = Burst::new();
    for _ in 0..16 {
        assert!(full.wants_read());
        full.on_read(&mut c, PacketRead::Packet);
    }
    assert!(!full.wants_read());
}
