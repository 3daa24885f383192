use rust_player::audio::clock::{frames_to_micros, micros_to_frames_rounded};
use rust_player::audio::decode::{interleave, select_audio_track, AudioCursor, AudioTrackDesc};
use rust_player::audio::sink::{falls_back_to_virtual, frames_in, output_ring_capacity};
use rust_player::audio::{PlaybackClock, RingBuffer, VirtualAudioOutput};
use rust_player::PlayerError;

fn secs(clock: &PlaybackClock) -> f64 {
    clock.position_us() as f64 / 1_000_000.0
}

#[test]
fn clock_position_increases() {
    let mut clock = PlaybackClock::new(48_000, Some(480_000));
    clock.on_samples_played(48_000);
    assert!((secs(&clock) - 1.0).abs() < 1e-6);
}

#[test]
fn clock_pause_freezes() {
    let mut clock = PlaybackClock::new(48_000, Some(480_000));
    clock.on_samples_played(96_000);
    clock.pause();
    clock.on_samples_played(48_000);
    assert!((secs(&clock) - 2.0).abs() < 1e-6);
}

#[test]
fn clock_seek_jumps() {
    let mut clock = PlaybackClock::new(48_000, Some(480_000));
    clock.seek_us(5_000_000);
    assert!((secs(&clock) - 5.0).abs() < 1e-3);
}

#[test]
fn clock_resume_and_duration() {
    let mut clock = PlaybackClock::new(48_000, None);
    assert_eq!(clock.duration_us(), None);
    clock.set_duration_us(10_000_000);
    assert_eq!(clock.duration_samples(), Some(480_000));
    assert_eq!(clock.duration_us(), Some(10_000_000));
    clock.on_samples_played(24_000);
    clock.pause();
    assert!(clock.is_paused());
    clock.resume();
    clock.on_samples_played(24_000);
    assert_eq!(clock.position_samples(), 48_000);
    assert_eq!(clock.position_us(), 1_000_000);
    assert_eq!(micros_to_frames_rounded(10, 48_000), 0);
    assert_eq!(micros_to_frames_rounded(11, 48_000), 1);
    assert_eq!(frames_to_micros(1, 3), 333_333);
    assert_eq!(frames_to_micros(5, 0), 0);
}

#[test]
fn ring_buffer_batch_write_read() {
    let mut ring = RingBuffer::new(16, 0.0f32);
    let samples: Vec<f32> = (0..10).map(|i| i as f32).collect();
    assert_eq!(ring.write(&samples), 10);
    assert_eq!(ring.available_read(), 10);

    let mut out = vec![0.0; 10];
    assert_eq!(ring.read(&mut out, 0.0), 10);
    assert_eq!(out, samples);
}

#[test]
fn ring_buffer_wraps_around() {
    let mut ring = RingBuffer::new(8, 0.0f32);
    assert_eq!(ring.write(&[1.0, 2.0, 3.0, 4.0, 5.0]), 5);
    let mut partial = [0.0; 3];
    assert_eq!(ring.read(&mut partial, 0.0), 3);
    assert_eq!(partial, [1.0, 2.0, 3.0]);
    assert_eq!(ring.write(&[6.0, 7.0, 8.0, 9.0, 10.0]), 5);
    let mut rest = [0.0; 7];
    assert_eq!(ring.read(&mut rest, 0.0), 7);
    assert_eq!(rest, [4.0, 5.0, 6.0, 7.0, 8.0, 9.0, 10.0]);
}

#[test]
fn ring_buffer_fills_silence_and_limits_writes() {
    let mut ring = RingBuffer::new(4, 0i16);
    assert_eq!(ring.available_write(), 3);
    assert_eq!(ring.write(&[1, 2, 3, 4, 5]), 3);
    let mut out = [9i16; 5];
    assert_eq!(ring.read(&mut out, 0), 3);
    assert_eq!(out, [1, 2, 3, 0, 0]);
    ring.write(&[7]);
    ring.clear();
    assert_eq!(ring.available_read(), 0);
}

#[test]
fn virtual_sink_does_not_advance_clock() {
    let clock = PlaybackClock::new(48_000, Some(480_000));
    let sink = VirtualAudioOutput::new(48_000, 2);
    sink.write(&vec![0.0f32; 96_000]).unwrap();
    assert!(secs(&clock).abs() < 1e-6);
    assert_eq!(sink.channels(), 2);
    assert_eq!(sink.sample_rate(), 48_000);
}

#[test]
fn virtual_sink_volume_and_pause() {
    let mut sink = VirtualAudioOutput::new(44_100, 1);
    assert_eq!(sink.volume_permille(), 1000);
    sink.set_volume_permille(2500);
    assert_eq!(sink.volume_permille(), 1000);
    sink.set_volume_permille(250);
    assert_eq!(sink.volume_permille(), 250);
    sink.pause();
    sink.resume();
    sink.clear();
}

#[test]
fn output_helpers() {
    assert!(falls_back_to_virtual(&PlayerError::AudioOutput("no device".into())));
    assert!(!falls_back_to_virtual(&PlayerError::AudioDecode("x".into())));
    assert_eq!(output_ring_capacity(48_000, 2), 48_001);
    assert_eq!(frames_in(9, 2), 4);
}

#[test]
fn audio_track_choice() {
    let silent = AudioTrackDesc { id: 1, has_codec: false, sample_rate: None, channel_count: None, n_frames: None };
    let aac = AudioTrackDesc { id: 2, has_codec: true, sample_rate: Some(44_100), channel_count: None, n_frames: Some(441_000) };
    let c = select_audio_track(&[silent, aac]).unwrap();
    assert_eq!((c.track_id, c.sample_rate, c.channels, c.duration_frames), (2, 44_100, 2, Some(441_000)));
    let no_rate = AudioTrackDesc { sample_rate: None, ..aac };
    assert!(matches!(select_audio_track(&[no_rate]), Err(PlayerError::AudioDecode(_))));
    assert!(matches!(select_audio_track(&[silent]), Err(PlayerError::AudioDecode(_))));
}

#[test]
fn planes_interleave() {
    let planes = vec![vec![1, 2, 3], vec![10, 20, 30, 40]];
    assert_eq!(interleave(&planes, 3), vec![1, 10, 2, 20, 3, 30]);
    assert_eq!(interleave::<u8>(&[], 4), Vec::<u8>::new());
}

#[test]
fn cursor_times_buffers() {
    let mut c = AudioCursor::new(48_000, 2);
    assert_eq!(c.buffer_pts_us(), 0);
    c.advance(96_000);
    assert_eq!(c.buffer_pts_us(), 1_000_000);
    c.seek_us(2_500_000);
    assert_eq!(c.sample_cursor, 120_000);
}

#[test]
fn clock_resumes_where_it_paused() {
    let mut c = PlaybackClock::new(48_000, None);
    c.on_samples_played(1_000);
    c.pause();
    c.on_samples_played(500);
    c.on_samples_played(700);
    assert!(c.is_paused());
    c.resume();
    assert!(!c.is_paused());
    assert_eq!(c.position_samples(), 1_000);
    c.resume();
    assert_eq!(c.position_samples(), 1_000);
    c.seek(10);
    c.set_duration_samples(99);
    assert_eq!(c.sample_rate(), 48_000);
    assert!(!c.is_paused());
}

#[test]
fn output_ring_takes_half_a_second() {
    let cap = output_ring_capacity(1_000, 2);
    let mut ring = RingBuffer::new(cap, 0.0f32);
    let samples = vec![1.0f32; 1_000];
    assert_eq!(ring.write(&samples), 1_000);
}
