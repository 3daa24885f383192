//! Playback decisions of the media player: which files it opens, how it
//! launches, what each tick of the playback loop does, where the transport
//! controls seek, and what the status line reports.
//!
//! The application performs the decisions (audio output, decoding threads,
//! windows); times are in microseconds.
use vstd::prelude::*;
use vstd::string::StringExecFns;
use crate::audio::clock::{law_paused_clock_frozen, ClockCall, ClockView};
use crate::error::PlayerError;
use crate::i18n::{
    app_name_text, headless_requires_path_text, unknown_extension_text, unsupported_part0,
    Language, Locale,
};
use crate::stream::{is_stream_url, is_url, resolve_media_source, source_kind, MediaSource};
use crate::text::{
    ascii_lower, chars_of, file_extension, file_name, lowercase_chars, path_extension, string_of,
    chars_eq,
};

verus! {

/// The file extensions (lower case) the player opens.
pub open spec fn is_media_extension(e: Seq<char>) -> bool {
    e == "mp4"@ || e == "m4a"@ || e == "mp3"@ || e == "ts"@
}

/// The path names a media file: its extension, in any ASCII case, is one the
/// player opens.
pub open spec fn media_path(path: Seq<char>) -> bool {
    match path_extension(path) {
        Some(e) => is_media_extension(ascii_lower(e)),
        None => false,
    }
}

/// The extensions offered by the file dialog.
pub fn media_extensions() -> (r: Vec<&'static str>)
    ensures
        r@.len() == 4,
        r@[0]@ == "mp4"@ && r@[1]@ == "m4a"@ && r@[2]@ == "mp3"@ && r@[3]@ == "ts"@,
{
    let mut r: Vec<&'static str> = Vec::new();
    r.push("mp4");
    r.push("m4a");
    r.push("mp3");
    r.push("ts");
    r
}

/// Whether the player opens the file at `path`, judged by its extension.
pub fn is_media_file(path: &str) -> (b: bool)
    ensures
        b == media_path(path@),
{
    let c = chars_of(path);
    match file_extension(c.as_slice()) {
        None => false,
        Some(e) => {
            let lower = lowercase_chars(e.as_slice());
            let l = lower.as_slice();
            chars_eq(l, "mp4") || chars_eq(l, "m4a") || chars_eq(l, "mp3") || chars_eq(l, "ts")
        },
    }
}

/// The error shown for a file the player does not open: the localised
/// message with the file's extension, or the localised word for an unknown
/// one; none for a media file.
pub fn unsupported_file_message(locale: Locale, path: &str) -> (r: Option<String>)
    ensures
        media_path(path@) ==> r is None,
        !media_path(path@) ==> (r matches Some(m) && m@ == unsupported_part0(locale.lang()) + match path_extension(path@) {
            Some(e) => e,
            None => unknown_extension_text(locale.lang()),
        }),
{
    if is_media_file(path) {
        return None;
    }
    let c = chars_of(path);
    match file_extension(c.as_slice()) {
        Some(e) => {
            let ext = string_of(e.as_slice());
            Some(locale.unsupported_file_type(ext.as_str()))
        },
        None => Some(locale.unsupported_file_type(locale.unknown_extension())),
    }
}

/// The window title for the media at `path`: the application name and the
/// file name, or the default title when the path names no file.
pub fn window_title_for(locale: Locale, path: &str) -> (r: String)
    ensures
        r@ == app_name_text() + " — "@ + match file_name(path@) {
            Some(n) => n,
            None => app_name_text(),
        },
{
    let c = chars_of(path);
    match crate::text::file_name_of(c.as_slice()) {
        Some(n) => {
            let name = string_of(n.as_slice());
            locale.window_title(name.as_str())
        },
        None => {
            let d = locale.window_title_default();
            locale.window_title(d.as_str())
        },
    }
}

/// How the player starts.
#[derive(Debug, PartialEq, Eq)]
pub enum LaunchMode {
    /// The argument is a stream: fetch it, then launch again with the local copy.
    Fetch { source: MediaSource, no_ui: bool },
    /// Play the file without a window.
    Headless(String),
    /// Open the player window, with the file if one was given.
    Windowed(Option<String>),
}

/// Decides how the player starts from the command line's path (or URL), the
/// headless flag and the language. Headless play needs a path; its absence
/// is refused with the localised message.
pub fn run_player(path: Option<&str>, no_ui: bool, lang: Language) -> (r: Result<LaunchMode, PlayerError>)
    ensures
        match path {
            Some(p) => if is_url(p@) {
                r matches Ok(LaunchMode::Fetch { source, no_ui: n }) && n == no_ui && match source {
                    MediaSource::Http(u) => source_kind(p@) == 1 && u@ == p@,
                    MediaSource::Hls(u) => source_kind(p@) == 2 && u@ == p@,
                    MediaSource::Local(_) => false,
                }
            } else if no_ui {
                r matches Ok(LaunchMode::Headless(q)) && q@ == p@
            } else {
                r matches Ok(LaunchMode::Windowed(Some(q))) && q@ == p@
            },
            None => if no_ui {
                r matches Err(PlayerError::Unsupported(m)) && m@ == headless_requires_path_text(lang)
            } else {
                r matches Ok(LaunchMode::Windowed(None))
            },
        },
{
    match path {
        Some(p) => {
            if is_stream_url(p) {
                Ok(LaunchMode::Fetch { source: resolve_media_source(p), no_ui })
            } else if no_ui {
                Ok(LaunchMode::Headless(String::from_str(p)))
            } else {
                Ok(LaunchMode::Windowed(Some(String::from_str(p))))
            }
        },
        None => {
            if no_ui {
                let loc = Locale::new(lang);
                Err(PlayerError::Unsupported(String::from_str(loc.headless_requires_path())))
            } else {
                Ok(LaunchMode::Windowed(None))
            }
        },
    }
}

/// Why no new picture is on screen yet, or what went wrong with video.
#[derive(Clone, Debug, PartialEq)]
pub enum WaitingReason {
    NotWaiting,
    WaitingForFirstFrame,
    Decoding,
    SeekPending,
    CodecUnsupported(String),
    DemuxError(String),
    DecodeError(String),
    NoVideoTrack,
}

impl Default for WaitingReason {
    fn default() -> (r: Self)
        ensures
            r is NotWaiting,
    {
        WaitingReason::NotWaiting
    }
}

impl WaitingReason {
    /// An equal copy of the reason.
    pub fn duplicate(&self) -> (r: WaitingReason)
        ensures
            r == *self,
    {
        match self {
            WaitingReason::NotWaiting => WaitingReason::NotWaiting,
            WaitingReason::WaitingForFirstFrame => WaitingReason::WaitingForFirstFrame,
            WaitingReason::Decoding => WaitingReason::Decoding,
            WaitingReason::SeekPending => WaitingReason::SeekPending,
            WaitingReason::CodecUnsupported(m) => WaitingReason::CodecUnsupported(m.clone()),
            WaitingReason::DemuxError(m) => WaitingReason::DemuxError(m.clone()),
            WaitingReason::DecodeError(m) => WaitingReason::DecodeError(m.clone()),
            WaitingReason::NoVideoTrack => WaitingReason::NoVideoTrack,
        }
    }
}

/// The message of a reason that reports an error.
pub open spec fn error_message(r: WaitingReason) -> Option<Seq<char>> {
    match r {
        WaitingReason::CodecUnsupported(m) => Some(m@),
        WaitingReason::DemuxError(m) => Some(m@),
        WaitingReason::DecodeError(m) => Some(m@),
        _ => None,
    }
}

/// The error a waiting reason reports, if it is one.
pub fn last_error_of(reason: &WaitingReason) -> (r: Option<String>)
    ensures
        match r {
            Some(m) => error_message(*reason) == Some(m@),
            None => error_message(*reason) is None,
        },
{
    match reason {
        WaitingReason::CodecUnsupported(m) => Some(m.clone()),
        WaitingReason::DemuxError(m) => Some(m.clone()),
        WaitingReason::DecodeError(m) => Some(m.clone()),
        _ => None,
    }
}

/// Counters the video decoding worker publishes for the player.
#[derive(Clone, Debug, Default)]
pub struct WorkerPerFrameStatus {
    pub demuxed_packets: u64,
    pub decoded_frames: u64,
    pub last_frame_pts_us: i64,
    pub worker_running: bool,
}

/// What the status display shows of playback.
#[derive(Clone, Debug)]
pub struct PlaybackStatus {
    pub demuxed_packets: u64,
    pub decoded_frames: u64,
    pub uploaded_frames: u64,
    pub last_frame_pts_us: i64,
    pub last_error: Option<String>,
    pub has_render_frame: bool,
    pub waiting_reason: WaitingReason,
    pub worker_running: bool,
    pub is_seeking: bool,
    pub player_active: bool,
}

impl Default for PlaybackStatus {
    /// Nothing decoded, shown or running yet.
    fn default() -> (r: Self)
        ensures
            r.demuxed_packets == 0 && r.decoded_frames == 0 && r.uploaded_frames == 0,
            r.last_frame_pts_us == 0 && r.last_error is None && !r.has_render_frame,
            r.waiting_reason is NotWaiting,
            !r.worker_running && !r.is_seeking && !r.player_active,
    {
        PlaybackStatus {
            demuxed_packets: 0,
            decoded_frames: 0,
            uploaded_frames: 0,
            last_frame_pts_us: 0,
            last_error: None,
            has_render_frame: false,
            waiting_reason: WaitingReason::NotWaiting,
            worker_running: false,
            is_seeking: false,
            player_active: false,
        }
    }
}

/// The number of samples decoded ahead of the output before a tick writes:
/// a fifth of a second of interleaved samples.
pub open spec fn prefill_samples(sample_rate: u32, channels: u16) -> nat {
    (sample_rate * channels / 5) as nat
}

/// The most samples written to the output in one tick.
pub const AUDIO_PREFILL_SAMPLES: usize = 4096;

/// How many decoded samples a tick keeps ready before writing.
pub fn prefill_threshold(sample_rate: u32, channels: u16) -> (r: u64)
    ensures
        r == prefill_samples(sample_rate, channels),
{
    assert((sample_rate as u64) * (channels as u64) <= u32::MAX * u16::MAX) by (nonlinear_arith)
        requires
            sample_rate <= u32::MAX,
            channels <= u16::MAX,
    ;
    (sample_rate as u64) * (channels as u64) / 5
}

/// How many of the pending samples a tick writes.
pub fn audio_chunk_len(pending: usize) -> (r: usize)
    ensures
        r == if pending < AUDIO_PREFILL_SAMPLES {
            pending
        } else {
            AUDIO_PREFILL_SAMPLES
        },
{
    if pending < AUDIO_PREFILL_SAMPLES {
        pending
    } else {
        AUDIO_PREFILL_SAMPLES
    }
}

/// The output format and duration of a newly opened file: the audio track's,
/// or for video without audio stereo at 48 kHz and the video's duration.
pub fn plan_output(audio: Option<(u32, u16, Option<u64>)>, video_duration: Option<Option<u64>>) -> (r: Result<(u32, u16, Option<u64>), PlayerError>)
    ensures
        match audio {
            Some(a) => r == Ok::<(u32, u16, Option<u64>), PlayerError>(a),
            None => match video_duration {
                Some(d) => r == Ok::<(u32, u16, Option<u64>), PlayerError>((48_000u32, 2u16, d)),
                None => r matches Err(PlayerError::AudioDecode(m)) && m@ == "no audio or video track"@,
            },
        },
{
    match audio {
        Some(a) => Ok(a),
        None => match video_duration {
            Some(d) => Ok((48_000, 2, d)),
            None => Err(PlayerError::AudioDecode(String::from_str("no audio or video track"))),
        },
    }
}

/// The clock follows wall time when audio cannot drive it: without an audio
/// device, or for video without audio.
pub fn uses_wall_clock(virtual_output: bool, has_audio: bool, has_video: bool) -> (r: bool)
    ensures
        r == (virtual_output || (!has_audio && has_video)),
{
    virtual_output || (!has_audio && has_video)
}

/// What the start of a tick does before audio and video are serviced.
#[derive(Debug, Clone, Copy, PartialEq, Eq, Structural)]
pub struct TickStart {
    pub resume_output: bool,
    pub pause_output: bool,
    pub start_wall_clock: bool,
    pub stop_wall_clock: bool,
    pub advance_wall_clock: bool,
    /// Whether the tick goes on to feed audio and show video; a paused tick
    /// only shows the last picture again.
    pub continue_tick: bool,
}

/// What a tick starts with when the output was `was_playing` and the
/// interface now asks for `playing`.
pub open spec fn tick_start_of(was_playing: bool, wall_clock_drive: bool, playing: bool) -> TickStart {
    TickStart {
        resume_output: playing && !was_playing,
        pause_output: !playing && was_playing,
        start_wall_clock: playing && !was_playing && wall_clock_drive,
        stop_wall_clock: !playing && was_playing && wall_clock_drive,
        advance_wall_clock: playing && wall_clock_drive,
        continue_tick: playing,
    }
}

/// Ticks settle: once a tick has brought the output to the requested state,
/// further ticks with the same request neither resume nor pause it again,
/// and a pause always stops what a resume started.
pub proof fn law_ticks_settle(was_playing: bool, wall_clock_drive: bool, playing: bool)
    ensures
        ({
            let again = tick_start_of(playing, wall_clock_drive, playing);
            !again.resume_output && !again.pause_output && !again.start_wall_clock && !again.stop_wall_clock
        }),
        tick_start_of(was_playing, wall_clock_drive, true).start_wall_clock ==> tick_start_of(
            true,
            wall_clock_drive,
            false,
        ).stop_wall_clock,
{
}

/// The starts of successive ticks with the requests `requests`, from an
/// output that was `was_playing`.
pub open spec fn tick_run(was_playing: bool, wall_clock_drive: bool, requests: Seq<bool>) -> Seq<TickStart>
    decreases requests.len(),
{
    if requests.len() == 0 {
        Seq::empty()
    } else {
        seq![tick_start_of(was_playing, wall_clock_drive, requests[0])] + tick_run(
            requests[0],
            wall_clock_drive,
            requests.drop_first(),
        )
    }
}

/// Paused ticks freeze playback: over any number of ticks asking for pause,
/// only the first pauses a playing output, none resumes it, moves the wall
/// clock or goes on to decode and take a new picture (the last picture is
/// shown again), and the audio clock, paused by that first tick, stays at the
/// position it had however many frames the output still reports.
pub proof fn law_paused_ticks_freeze(
    was_playing: bool,
    wall_clock_drive: bool,
    requests: Seq<bool>,
    c: ClockView,
    calls: Seq<ClockCall>,
)
    requires
        forall|i: int| 0 <= i < requests.len() ==> !#[trigger] requests[i],
        forall|i: int| 0 <= i < calls.len() ==> #[trigger] calls[i] is Played,
    ensures
        tick_run(was_playing, wall_clock_drive, requests).len() == requests.len(),
        forall|i: int| 0 <= i < requests.len() ==> {
            let t = #[trigger] tick_run(was_playing, wall_clock_drive, requests)[i];
            &&& !t.resume_output && !t.start_wall_clock && !t.advance_wall_clock && !t.continue_tick
            &&& t.pause_output == (i == 0 && was_playing)
            &&& t.stop_wall_clock == (i == 0 && was_playing && wall_clock_drive)
        },
        c.pause().run(calls).position() == c.position(),
        c.pause().run(calls).paused,
    decreases requests.len(),
{
    law_paused_clock_frozen(c, calls);
    if requests.len() > 0 {
        let rest = requests.drop_first();
        assert forall|i: int| 0 <= i < rest.len() implies !#[trigger] rest[i] by {
            assert(rest[i] == requests[i + 1]);
        }
        assert(!requests[0]);
        law_paused_ticks_freeze(false, wall_clock_drive, rest, c, calls);
        let run = tick_run(was_playing, wall_clock_drive, requests);
        let tail = tick_run(false, wall_clock_drive, rest);
        assert(run == seq![tick_start_of(was_playing, wall_clock_drive, false)] + tail);
        assert forall|i: int| 0 <= i < requests.len() implies {
            let t = #[trigger] run[i];
            &&& !t.resume_output && !t.start_wall_clock && !t.advance_wall_clock && !t.continue_tick
            &&& t.pause_output == (i == 0 && was_playing)
            &&& t.stop_wall_clock == (i == 0 && was_playing && wall_clock_drive)
        } by {
            if i > 0 {
                assert(run[i] == tail[i - 1]);
            }
        }
    }
}

/// The playback state the player's decisions depend on.
#[derive(Debug, Clone)]
pub struct PlayerCore {
    pub output_playing: bool,
    pub wall_clock_drive: bool,
    pub has_video: bool,
    pub has_last_frame: bool,
    pub waiting_reason: WaitingReason,
}

impl PlayerCore {
    /// A just-opened player: output stopped, no picture shown, waiting for the first frame.
    pub fn new(wall_clock_drive: bool, has_video: bool) -> (r: PlayerCore)
        ensures
            !r.output_playing && !r.has_last_frame,
            r.wall_clock_drive == wall_clock_drive,
            r.has_video == has_video,
            r.waiting_reason is WaitingForFirstFrame,
    {
        PlayerCore {
            output_playing: false,
            wall_clock_drive,
            has_video,
            has_last_frame: false,
            waiting_reason: WaitingReason::WaitingForFirstFrame,
        }
    }

    /// Starts a tick: playing resumes a stopped output (and starts the wall
    /// clock when it drives), pausing stops a running one.
    pub fn begin_tick(&mut self, playing: bool) -> (t: TickStart)
        ensures
            final(self).output_playing == playing,
            final(self).wall_clock_drive == old(self).wall_clock_drive,
            final(self).has_video == old(self).has_video,
            final(self).has_last_frame == old(self).has_last_frame,
            final(self).waiting_reason == old(self).waiting_reason,
            t == tick_start_of(old(self).output_playing, old(self).wall_clock_drive, playing),
    {
        let was = self.output_playing;
        self.output_playing = playing;
        TickStart {
            resume_output: playing && !was,
            pause_output: !playing && was,
            start_wall_clock: playing && !was && self.wall_clock_drive,
            stop_wall_clock: !playing && was && self.wall_clock_drive,
            advance_wall_clock: playing && self.wall_clock_drive,
            continue_tick: playing,
        }
    }

    /// Takes note of the decoding worker's counters: a running worker that has
    /// decoded nothing after the first second is reported as still decoding.
    pub fn note_worker_status(&mut self, worker_running: bool, decoded_frames: u64, position_us: u64)
        ensures
            final(self).output_playing == old(self).output_playing,
            final(self).wall_clock_drive == old(self).wall_clock_drive,
            final(self).has_video == old(self).has_video,
            final(self).has_last_frame == old(self).has_last_frame,
            if old(self).has_video && worker_running && decoded_frames == 0 && position_us > 1_000_000 {
                final(self).waiting_reason is Decoding
            } else {
                final(self).waiting_reason == old(self).waiting_reason
            },
    {
        if self.has_video && worker_running && decoded_frames == 0 && position_us > 1_000_000 {
            self.waiting_reason = WaitingReason::Decoding;
        }
    }

    /// Takes note of whether the tick showed a new picture: showing one
    /// clears the waiting reason; otherwise a player with video that has never
    /// shown one and waits for nothing else waits for its first frame.
    pub fn note_display(&mut self, shown: bool)
        ensures
            final(self).output_playing == old(self).output_playing,
            final(self).wall_clock_drive == old(self).wall_clock_drive,
            final(self).has_video == old(self).has_video,
            final(self).has_last_frame == (old(self).has_last_frame || shown),
            shown ==> final(self).waiting_reason is NotWaiting,
            !shown ==> if old(self).waiting_reason is NotWaiting && old(self).has_video && !old(self).has_last_frame {
                final(self).waiting_reason is WaitingForFirstFrame
            } else {
                final(self).waiting_reason == old(self).waiting_reason
            },
    {
        if shown {
            self.has_last_frame = true;
            self.waiting_reason = WaitingReason::NotWaiting;
        } else {
            let idle = match self.waiting_reason {
                WaitingReason::NotWaiting => true,
                _ => false,
            };
            if idle && self.has_video && !self.has_last_frame {
                self.waiting_reason = WaitingReason::WaitingForFirstFrame;
            }
        }
    }

    /// Takes note of a seek: the player waits for the seek to land, and the
    /// wall clock restarts from the new position only while it runs.
    pub fn note_seek(&mut self) -> (restart_wall_clock: bool)
        ensures
            restart_wall_clock == (old(self).output_playing && old(self).wall_clock_drive),
            final(self).output_playing == old(self).output_playing,
            final(self).wall_clock_drive == old(self).wall_clock_drive,
            final(self).has_video == old(self).has_video,
            final(self).has_last_frame == old(self).has_last_frame,
            final(self).waiting_reason is SeekPending,
    {
        self.waiting_reason = WaitingReason::SeekPending;
        self.output_playing && self.wall_clock_drive
    }

    /// The status line from the worker's counters, the uploaded picture count
    /// and whether a seek is still landing.
    pub fn playback_status(&self, worker: &WorkerPerFrameStatus, uploaded_frames: u64, is_seeking: bool) -> (r: PlaybackStatus)
        ensures
            r.demuxed_packets == worker.demuxed_packets,
            r.decoded_frames == worker.decoded_frames,
            r.uploaded_frames == uploaded_frames,
            r.last_frame_pts_us == worker.last_frame_pts_us,
            match r.last_error {
                Some(m) => error_message(self.waiting_reason) == Some(m@),
                None => error_message(self.waiting_reason) is None,
            },
            r.has_render_frame == self.has_last_frame,
            r.waiting_reason == self.waiting_reason,
            r.worker_running == worker.worker_running,
            r.is_seeking == is_seeking,
            r.player_active == self.output_playing,
    {
        PlaybackStatus {
            demuxed_packets: worker.demuxed_packets,
            decoded_frames: worker.decoded_frames,
            uploaded_frames,
            last_frame_pts_us: worker.last_frame_pts_us,
            last_error: last_error_of(&self.waiting_reason),
            has_render_frame: self.has_last_frame,
            waiting_reason: self.waiting_reason.duplicate(),
            worker_running: worker.worker_running,
            is_seeking,
            player_active: self.output_playing,
        }
    }
}

/// How far the skip buttons jump.
pub const SKIP_US: u64 = 10_000_000;

/// Ten seconds on from `pos`, but not past the known duration.
pub open spec fn forward_target(pos: u64, duration: Option<u64>) -> u64 {
    let ahead: int = if pos + SKIP_US > u64::MAX {
        u64::MAX as int
    } else {
        pos + SKIP_US
    };
    match duration {
        Some(d) => if ahead < d {
            ahead as u64
        } else {
            d
        },
        None => ahead as u64,
    }
}

/// Ten seconds back from `pos`, but not before the start.
pub open spec fn backward_target(pos: u64) -> u64 {
    if pos >= SKIP_US {
        (pos - SKIP_US) as u64
    } else {
        0
    }
}

/// Where "skip forward" seeks to.
pub fn skip_forward_target(position_us: u64, duration_us: Option<u64>) -> (r: u64)
    ensures
        r == forward_target(position_us, duration_us),
{
    let ahead = position_us.saturating_add(SKIP_US);
    match duration_us {
        Some(d) => if ahead < d {
            ahead
        } else {
            d
        },
        None => ahead,
    }
}

/// Where "skip backward" seeks to.
pub fn skip_backward_target(position_us: u64) -> (r: u64)
    ensures
        r == backward_target(position_us),
{
    position_us.saturating_sub(SKIP_US)
}

/// Skipping forward and then back returns to the same position when the
/// forward skip was not cut short by the end of the media.
pub proof fn law_skip_round_trip(pos: u64, duration: Option<u64>)
    requires
        pos + SKIP_US <= u64::MAX,
        duration matches Some(d) ==> pos + SKIP_US <= d,
    ensures
        backward_target(forward_target(pos, duration)) == pos,
{
}

/// Skipping forward never passes a known duration and never goes back unless
/// the position is already past it; skipping back never goes forward.
pub proof fn law_skips_stay_in_bounds(pos: u64, duration: Option<u64>)
    ensures
        duration matches Some(d) ==> forward_target(pos, duration) <= d,
        (duration matches Some(d) && pos <= d) ==> pos <= forward_target(pos, duration),
        duration is None ==> pos <= forward_target(pos, duration),
        backward_target(pos) <= pos,
{
}

/// Transport requests raised by the interface since the last tick.
#[derive(Debug, Clone, Copy, PartialEq, Eq, Structural)]
pub struct UiRequests {
    pub stop_playback: bool,
    pub skip_forward: bool,
    pub skip_backward: bool,
    pub seek_target_us: Option<u64>,
}

/// One seek asked for by the interface, and whether it also stops playback.
#[derive(Debug, Clone, Copy, PartialEq, Eq, Structural)]
pub struct UiSeek {
    pub target_us: u64,
    pub stops_playback: bool,
}

/// Takes the next pending transport request, in the order stop, skip
/// forward, skip back, seek, and gives the seek it asks for from the clock's
/// current position; none once all are handled.
pub fn next_ui_seek(req: &mut UiRequests, position_us: u64, duration_us: Option<u64>) -> (r: Option<UiSeek>)
    ensures
        old(req).stop_playback ==> r == Some(UiSeek { target_us: 0, stops_playback: true })
            && *final(req) == (UiRequests { stop_playback: false, ..*old(req) }),
        !old(req).stop_playback && old(req).skip_forward ==> r == Some(UiSeek {
            target_us: forward_target(position_us, duration_us),
            stops_playback: false,
        }) && *final(req) == (UiRequests { skip_forward: false, ..*old(req) }),
        !old(req).stop_playback && !old(req).skip_forward && old(req).skip_backward ==> r == Some(
            UiSeek { target_us: backward_target(position_us), stops_playback: false },
        ) && *final(req) == (UiRequests { skip_backward: false, ..*old(req) }),
        !old(req).stop_playback && !old(req).skip_forward && !old(req).skip_backward ==> match old(req).seek_target_us {
            Some(t) => r == Some(UiSeek { target_us: t, stops_playback: false })
                && *final(req) == (UiRequests { seek_target_us: None, ..*old(req) }),
            None => r is None && *final(req) == *old(req),
        },
{
    if req.stop_playback {
        req.stop_playback = false;
        return Some(UiSeek { target_us: 0, stops_playback: true });
    }
    if req.skip_forward {
        req.skip_forward = false;
        return Some(UiSeek { target_us: skip_forward_target(position_us, duration_us), stops_playback: false });
    }
    if req.skip_backward {
        req.skip_backward = false;
        return Some(UiSeek { target_us: skip_backward_target(position_us), stops_playback: false });
    }
    match req.seek_target_us {
        Some(t) => {
            req.seek_target_us = None;
            Some(UiSeek { target_us: t, stops_playback: false })
        },
        None => None,
    }
}

/// Headless playback ends once the clock reaches a known duration.
pub fn headless_finished(position_us: u64, duration_us: Option<u64>) -> (r: bool)
    ensures
        r == (duration_us matches Some(d) && position_us >= d),
{
    match duration_us {
        Some(d) => position_us >= d,
        None => false,
    }
}

/// A key pressed in the player window.
#[derive(Debug, Clone, PartialEq, Eq)]
pub enum KeyInput {
    Space,
    ArrowLeft,
    ArrowRight,
    /// A key that types text.
    Character(String),
    Other,
}

/// What a key press does.
#[derive(Debug, Clone, Copy, PartialEq, Eq, Structural)]
pub enum KeyAction {
    TogglePlay,
    SkipBackward,
    SkipForward,
    OpenFile,
    Ignore,
}

/// The action of a key press: space toggles play (with media loaded), the
/// arrows skip, Ctrl+O opens a file.
pub fn key_action(key: &KeyInput, control: bool, has_media: bool) -> (r: KeyAction)
    ensures
        r == match *key {
            KeyInput::Space => if has_media {
                KeyAction::TogglePlay
            } else {
                KeyAction::Ignore
            },
            KeyInput::ArrowLeft => KeyAction::SkipBackward,
            KeyInput::ArrowRight => KeyAction::SkipForward,
            KeyInput::Character(s) => if control && (s@ == "o"@ || s@ == "O"@) {
                KeyAction::OpenFile
            } else {
                KeyAction::Ignore
            },
            KeyInput::Other => KeyAction::Ignore,
        },
{
    match key {
        KeyInput::Space => if has_media {
            KeyAction::TogglePlay
        } else {
            KeyAction::Ignore
        },
        KeyInput::ArrowLeft => KeyAction::SkipBackward,
        KeyInput::ArrowRight => KeyAction::SkipForward,
        KeyInput::Character(s) => {
            let c = chars_of(s.as_str());
            if control && (chars_eq(c.as_slice(), "o") || chars_eq(c.as_slice(), "O")) {
                KeyAction::OpenFile
            } else {
                KeyAction::Ignore
            }
        },
        KeyInput::Other => KeyAction::Ignore,
    }
}

/// The window keeps redrawing while something moves or asks for attention.
pub fn needs_redraw(is_playing: bool, file_hover: bool, has_error: bool, seek_drag: bool, has_media: bool) -> (r: bool)
    ensures
        r == (is_playing || file_hover || has_error || seek_drag || !has_media),
{
    is_playing || file_hover || has_error || seek_drag || !has_media
}

} // verus!
