//! Decisions of audio decoding: which track of a file is decoded, how
//! decoded planes are interleaved, and the sample cursor that times each
//! decoded buffer.
use vstd::prelude::*;
use vstd::string::StringExecFns;
use crate::audio::clock::{frames_to_micros, frames_to_us, micros_to_frames_rounded, us_to_frames_rounded};
use crate::error::PlayerError;

verus! {

/// What the container reader reports of a track.
#[derive(Debug, Clone, Copy, PartialEq, Eq, Structural)]
pub struct AudioTrackDesc {
    pub id: u32,
    /// The track names a codec (it is not the null codec).
    pub has_codec: bool,
    pub sample_rate: Option<u32>,
    /// The number of channels, when the track states them.
    pub channel_count: Option<usize>,
    /// The length in sample frames, when known.
    pub n_frames: Option<u64>,
}

/// The track chosen for decoding and its format.
#[derive(Debug, Clone, Copy, PartialEq, Eq, Structural)]
pub struct AudioTrackChoice {
    pub track_id: u32,
    pub sample_rate: u32,
    pub channels: u16,
    pub duration_frames: Option<u64>,
}

/// The first track with a codec, in order.
pub open spec fn first_codec_track(tracks: Seq<AudioTrackDesc>, i: int) -> Option<int>
    decreases tracks.len() - i,
{
    if i < 0 || i >= tracks.len() {
        None
    } else if tracks[i].has_codec {
        Some(i)
    } else {
        first_codec_track(tracks, i + 1)
    }
}

/// Chooses the track to decode: the first one with a codec. It must state
/// its sample rate; a missing channel count means stereo (a stated count is
/// taken as a 16-bit number).
pub fn select_audio_track(tracks: &[AudioTrackDesc]) -> (r: Result<AudioTrackChoice, PlayerError>)
    ensures
        match first_codec_track(tracks@, 0) {
            None => r matches Err(PlayerError::AudioDecode(_)),
            Some(i) => match tracks@[i].sample_rate {
                None => r matches Err(PlayerError::AudioDecode(_)),
                Some(rate) => r matches Ok(c) && c.track_id == tracks@[i].id && c.sample_rate == rate
                    && c.channels == match tracks@[i].channel_count {
                    Some(n) => n as u16,
                    None => 2u16,
                } && c.duration_frames == tracks@[i].n_frames,
            },
        },
{
    let mut i: usize = 0;
    while i < tracks.len()
        invariant
            i <= tracks@.len(),
            first_codec_track(tracks@, 0) == first_codec_track(tracks@, i as int),
        decreases tracks@.len() - i,
    {
        if tracks[i].has_codec {
            let t = tracks[i];
            let rate = match t.sample_rate {
                Some(r) => r,
                None => return Err(PlayerError::AudioDecode(String::from_str("unknown sample rate"))),
            };
            let channels: u16 = match t.channel_count {
                Some(n) => n as u16,
                None => 2,
            };
            return Ok(AudioTrackChoice {
                track_id: t.id,
                sample_rate: rate,
                channels,
                duration_frames: t.n_frames,
            });
        }
        i = i + 1;
    }
    Err(PlayerError::AudioDecode(String::from_str("no audio track found")))
}

/// Channel planes of `frames` samples each laid out frame by frame: every
/// frame's samples in channel order.
pub fn interleave<T: Copy>(planes: &[Vec<T>], frames: usize) -> (r: Vec<T>)
    requires
        forall|c: int| 0 <= c < planes@.len() ==> #[trigger] planes@[c]@.len() >= frames,
        frames * planes@.len() <= usize::MAX,
    ensures
        r@.len() == frames * planes@.len(),
        forall|f: int, c: int|
            0 <= f < frames && 0 <= c < planes@.len() ==> #[trigger] r@[f * planes@.len() + c]
                == planes@[c]@[f],
{
    let n = planes.len();
    let mut out: Vec<T> = Vec::new();
    let mut f: usize = 0;
    while f < frames
        invariant
            f <= frames,
            n == planes@.len(),
            forall|c: int| 0 <= c < planes@.len() ==> #[trigger] planes@[c]@.len() >= frames,
            frames * n <= usize::MAX,
            out@.len() == f * n,
            forall|g: int, c: int|
                0 <= g < f && 0 <= c < n ==> #[trigger] out@[g * n + c] == planes@[c]@[g],
        decreases frames - f,
    {
        let mut c: usize = 0;
        assert(f * n + n <= frames * n) by (nonlinear_arith)
            requires
                f < frames,
        ;
        while c < n
            invariant
                c <= n,
                f < frames,
                n == planes@.len(),
                forall|c2: int| 0 <= c2 < planes@.len() ==> #[trigger] planes@[c2]@.len() >= frames,
                f * n + n <= frames * n,
                frames * n <= usize::MAX,
                out@.len() == f * n + c,
                forall|g: int, c2: int|
                    0 <= g < f && 0 <= c2 < n ==> #[trigger] out@[g * n + c2] == planes@[c2]@[g],
                forall|c2: int| 0 <= c2 < c ==> #[trigger] out@[f * n + c2] == planes@[c2]@[f as int],
            decreases n - c,
        {
            assert(planes@[c as int]@.len() >= frames);
            out.push(planes[c][f]);
            proof {
                assert forall|g: int, c2: int| 0 <= g < f && 0 <= c2 < n implies #[trigger] out@[g * n + c2]
                    == planes@[c2]@[g] by {
                    assert(g * n + c2 < f * n) by (nonlinear_arith)
                        requires
                            0 <= g < f,
                            0 <= c2 < n,
                    ;
                }
            }
            c = c + 1;
        }
        proof {
            assert forall|g: int, c2: int| 0 <= g < f + 1 && 0 <= c2 < n implies #[trigger] out@[g * n + c2]
                == planes@[c2]@[g] by {
                if g == f {
                } else {
                }
            }
            assert((f + 1) * n == f * n + n) by (nonlinear_arith);
        }
        f = f + 1;
    }
    out
}

/// The running position of a decoder in sample frames, which times each
/// decoded buffer.
#[derive(Debug, Clone, Copy, PartialEq, Eq, Structural)]
pub struct AudioCursor {
    pub sample_cursor: u64,
    pub sample_rate: u32,
    pub channels: u16,
}

impl AudioCursor {
    /// A cursor at the start of the stream.
    pub fn new(sample_rate: u32, channels: u16) -> (r: AudioCursor)
        ensures
            r == (AudioCursor { sample_cursor: 0, sample_rate, channels }),
    {
        AudioCursor { sample_cursor: 0, sample_rate, channels }
    }

    /// The presentation time of the next buffer, in microseconds.
    pub fn buffer_pts_us(&self) -> (r: u64)
        ensures
            r == frames_to_us(self.sample_cursor, self.sample_rate),
    {
        frames_to_micros(self.sample_cursor, self.sample_rate)
    }

    /// Moves past a buffer of `samples` interleaved samples (whole frames
    /// counted; the count wraps at `u64::MAX`).
    pub fn advance(&mut self, samples: usize)
        requires
            old(self).channels > 0,
        ensures
            *final(self) == (AudioCursor {
                sample_cursor: old(self).sample_cursor.wrapping_add((samples / (old(self).channels as usize)) as u64),
                ..*old(self)
            }),
    {
        let frames = (samples / self.channels as usize) as u64;
        self.sample_cursor = self.sample_cursor.wrapping_add(frames);
    }

    /// After a seek to `position_us` the cursor stands at the nearest frame.
    pub fn seek_us(&mut self, position_us: u64)
        ensures
            *final(self) == (AudioCursor {
                sample_cursor: us_to_frames_rounded(position_us, old(self).sample_rate),
                ..*old(self)
            }),
    {
        self.sample_cursor = micros_to_frames_rounded(position_us, self.sample_rate);
    }
}

} // verus!
