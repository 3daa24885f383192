//! Audio master clock driven by the number of samples delivered to the output.
use vstd::prelude::*;

verus! {

/// The state of a playback clock, in sample frames.
pub struct ClockView {
    /// Frames counted while playing.
    pub played: u64,
    /// Position held while paused.
    pub held: u64,
    pub paused: bool,
    pub rate: u32,
    /// Total length in frames; 0 when unknown.
    pub total: u64,
}

impl ClockView {
    /// The reported position: frozen at the pause point while paused.
    pub open spec fn position(self) -> u64 {
        if self.paused {
            self.held
        } else {
            self.played
        }
    }

    /// Frames delivered to the output: counted (wrapping at 2^64) unless paused.
    pub open spec fn deliver(self, count: u64) -> ClockView {
        if self.paused {
            self
        } else {
            ClockView { played: self.played.wrapping_add(count), ..self }
        }
    }

    /// Pausing remembers the position reached; a second pause keeps the first point.
    pub open spec fn pause(self) -> ClockView {
        if self.paused {
            self
        } else {
            ClockView { paused: true, held: self.played, ..self }
        }
    }

    /// Resuming continues counting from the held position.
    pub open spec fn resume(self) -> ClockView {
        if self.paused {
            ClockView { paused: false, played: self.held, ..self }
        } else {
            self
        }
    }

    /// Seeking sets both the counted and the held position.
    pub open spec fn seek(self, position: u64) -> ClockView {
        ClockView { played: position, held: position, ..self }
    }
}

/// Audio master clock: position in sample frames at a fixed sample rate.
pub struct PlaybackClock {
    samples_played: u64,
    sample_rate: u32,
    paused_offset: u64,
    is_paused: bool,
    duration_samples: u64,
}

impl View for PlaybackClock {
    type V = ClockView;

    closed spec fn view(&self) -> ClockView {
        ClockView {
            played: self.samples_played,
            held: self.paused_offset,
            paused: self.is_paused,
            rate: self.sample_rate,
            total: self.duration_samples,
        }
    }
}

impl PlaybackClock {
    /// A running clock at position 0; `duration_samples` is the known length in
    /// sample frames, if any.
    pub fn new(sample_rate: u32, duration_samples: Option<u64>) -> (c: Self)
        ensures
            c@ == (ClockView {
                played: 0,
                held: 0,
                paused: false,
                rate: sample_rate,
                total: match duration_samples {
                    Some(d) => d,
                    None => 0,
                },
            }),
    {
        let total = match duration_samples {
            Some(d) => d,
            None => 0,
        };
        Self {
            samples_played: 0,
            sample_rate,
            paused_offset: 0,
            is_paused: false,
            duration_samples: total,
        }
    }

    pub fn sample_rate(&self) -> (r: u32)
        ensures
            r == self@.rate,
    {
        self.sample_rate
    }

    /// The current position in sample frames.
    pub fn position_samples(&self) -> (p: u64)
        ensures
            p == self@.position(),
    {
        if self.is_paused {
            self.paused_offset
        } else {
            self.samples_played
        }
    }

    /// Records `count` frames delivered to the output; ignored while paused.
    pub fn on_samples_played(&mut self, count: u64)
        ensures
            final(self)@ == old(self)@.deliver(count),
    {
        if !self.is_paused {
            self.samples_played = self.samples_played.wrapping_add(count);
        }
    }

    /// Freezes the position.
    pub fn pause(&mut self)
        ensures
            final(self)@ == old(self)@.pause(),
    {
        if !self.is_paused {
            self.is_paused = true;
            self.paused_offset = self.samples_played;
        }
    }

    /// Continues from the frozen position.
    pub fn resume(&mut self)
        ensures
            final(self)@ == old(self)@.resume(),
    {
        if self.is_paused {
            self.is_paused = false;
            self.samples_played = self.paused_offset;
        }
    }

    pub fn is_paused(&self) -> (r: bool)
        ensures
            r == self@.paused,
    {
        self.is_paused
    }

    /// Jumps to `position_samples`, whether paused or playing.
    pub fn seek(&mut self, position_samples: u64)
        ensures
            final(self)@ == old(self)@.seek(position_samples),
    {
        self.samples_played = position_samples;
        self.paused_offset = position_samples;
    }

    /// The known length in sample frames; `None` when it is 0 (unknown).
    pub fn duration_samples(&self) -> (d: Option<u64>)
        ensures
            d == if self@.total == 0 {
                None
            } else {
                Some(self@.total)
            },
    {
        if self.duration_samples == 0 {
            None
        } else {
            Some(self.duration_samples)
        }
    }

    pub fn set_duration_samples(&mut self, duration_samples: u64)
        ensures
            final(self)@ == (ClockView { total: duration_samples, ..old(self)@ }),
    {
        self.duration_samples = duration_samples;
    }
}

/// While playing, delivered frames advance the position by their count (modulo 2^64).
pub proof fn law_playing_advances(c: ClockView, count: u64)
    requires
        !c.paused,
    ensures
        c.deliver(count).position() == c.position().wrapping_add(count),
{
}

/// After a pause, no number of delivered frames moves the position.
pub proof fn law_pause_freezes(c: ClockView, count: u64)
    ensures
        c.pause().deliver(count).position() == c.position(),
        c.pause().position() == c.position(),
{
}

/// Pausing and resuming leaves the position where it was, and playback continues from it.
pub proof fn law_pause_resume_roundtrip(c: ClockView, count: u64)
    requires
        !c.paused,
    ensures
        c.pause().resume().position() == c.position(),
        c.pause().resume().deliver(count).position() == c.deliver(count).position(),
{
}

/// After a seek the position is the target, paused or not.
pub proof fn law_seek_sets_position(c: ClockView, target: u64)
    ensures
        c.seek(target).position() == target,
        c.seek(target).pause().position() == target,
        c.pause().seek(target).resume().position() == target,
{
}

/// One call on a playback clock that changes it.
pub enum ClockCall {
    /// `on_samples_played(count)`
    Played(u64),
    /// `pause()`
    Pause,
    /// `resume()`
    Resume,
    /// `seek(position)` (and `seek_us`, through the frame it rounds to)
    Seek(u64),
    /// `set_duration_samples(total)` (and `set_duration_us`)
    SetDuration(u64),
}

impl ClockView {
    /// The state after one call, as the methods' contracts state it.
    pub open spec fn apply(self, call: ClockCall) -> ClockView {
        match call {
            ClockCall::Played(n) => self.deliver(n),
            ClockCall::Pause => self.pause(),
            ClockCall::Resume => self.resume(),
            ClockCall::Seek(p) => self.seek(p),
            ClockCall::SetDuration(t) => ClockView { total: t, ..self },
        }
    }

    /// The state after the calls `calls`, in order.
    pub open spec fn run(self, calls: Seq<ClockCall>) -> ClockView
        decreases calls.len(),
    {
        if calls.len() == 0 {
            self
        } else {
            self.apply(calls[0]).run(calls.drop_first())
        }
    }
}

/// Whether the clock is paused after `calls`, starting from `paused`: the
/// last pause or resume among them decides, and the other calls leave it.
pub open spec fn paused_after(paused: bool, calls: Seq<ClockCall>) -> bool
    decreases calls.len(),
{
    if calls.len() == 0 {
        paused
    } else {
        paused_after(
            match calls[0] {
                ClockCall::Pause => true,
                ClockCall::Resume => false,
                _ => paused,
            },
            calls.drop_first(),
        )
    }
}

/// No call changes the sample rate.
pub proof fn law_rate_fixed(c: ClockView, calls: Seq<ClockCall>)
    ensures
        c.run(calls).rate == c.rate,
    decreases calls.len(),
{
    if calls.len() > 0 {
        law_rate_fixed(c.apply(calls[0]), calls.drop_first());
    }
}

/// After any calls the clock is paused exactly when a pause came last among
/// the pauses and resumes (or, with neither, when it was paused before).
pub proof fn law_paused_flag(c: ClockView, calls: Seq<ClockCall>)
    ensures
        c.run(calls).paused == paused_after(c.paused, calls),
    decreases calls.len(),
{
    if calls.len() > 0 {
        law_paused_flag(c.apply(calls[0]), calls.drop_first());
    }
}

/// Delivered frames leave a paused clock as it is.
proof fn lemma_paused_ignores_frames(c: ClockView, calls: Seq<ClockCall>)
    requires
        c.paused,
        forall|i: int| 0 <= i < calls.len() ==> #[trigger] calls[i] is Played,
    ensures
        c.run(calls) == c,
    decreases calls.len(),
{
    if calls.len() > 0 {
        let t = calls.drop_first();
        assert forall|i: int| 0 <= i < t.len() implies #[trigger] t[i] is Played by {
            assert(t[i] == calls[i + 1]);
        }
        assert(calls[0] is Played);
        lemma_paused_ignores_frames(c.apply(calls[0]), t);
    }
}

/// After a pause, any number of delivered frames leaves the clock paused at
/// the position it had.
pub proof fn law_paused_clock_frozen(c: ClockView, calls: Seq<ClockCall>)
    requires
        forall|i: int| 0 <= i < calls.len() ==> #[trigger] calls[i] is Played,
    ensures
        c.pause().run(calls).paused,
        c.pause().run(calls).position() == c.position(),
{
    lemma_paused_ignores_frames(c.pause(), calls);
}

/// Pausing, then any number of delivered frames, then resuming, leaves the
/// clock running at the position where it was paused; resuming a running
/// clock changes nothing.
pub proof fn law_resume_continues_from_pause(c: ClockView, calls: Seq<ClockCall>)
    requires
        forall|i: int| 0 <= i < calls.len() ==> #[trigger] calls[i] is Played,
    ensures
        !c.pause().run(calls).resume().paused,
        c.pause().run(calls).resume().position() == c.position(),
        !c.paused ==> c.resume() == c,
{
    lemma_paused_ignores_frames(c.pause(), calls);
}

/// Sample frames at `rate` frames per second as microseconds, rounded down
/// (limited to `u64`); zero at a zero rate.
pub open spec fn frames_to_us(frames: u64, rate: u32) -> u64 {
    if rate == 0 {
        0
    } else if (frames * 1_000_000) / (rate as int) > u64::MAX {
        u64::MAX
    } else {
        ((frames * 1_000_000) / (rate as int)) as u64
    }
}

/// Microseconds as sample frames at `rate`, rounded to the nearest frame
/// (halves up), limited to `u64`.
pub open spec fn us_to_frames_rounded(us: u64, rate: u32) -> u64 {
    let v = (us * rate + 500_000) / 1_000_000;
    if v > u64::MAX {
        u64::MAX
    } else {
        v as u64
    }
}

/// Microseconds as sample frames at `rate`, rounded down (limited to `u64`).
pub open spec fn us_to_frames_floor(us: u64, rate: u32) -> u64 {
    let v = (us * rate) / 1_000_000;
    if v > u64::MAX {
        u64::MAX
    } else {
        v as u64
    }
}

/// Converts sample frames to microseconds.
pub fn frames_to_micros(frames: u64, rate: u32) -> (r: u64)
    ensures
        r == frames_to_us(frames, rate),
{
    if rate == 0 {
        return 0;
    }
    assert((frames as u128) * 1_000_000u128 <= u64::MAX * 1_000_000) by (nonlinear_arith)
        requires
            frames <= u64::MAX,
    ;
    let q = (frames as u128) * 1_000_000u128 / (rate as u128);
    if q > u64::MAX as u128 {
        u64::MAX
    } else {
        q as u64
    }
}

/// Converts microseconds to sample frames, rounding to the nearest.
pub fn micros_to_frames_rounded(us: u64, rate: u32) -> (r: u64)
    ensures
        r == us_to_frames_rounded(us, rate),
{
    assert((us as u128) * (rate as u128) <= u64::MAX * u32::MAX) by (nonlinear_arith)
        requires
            us <= u64::MAX,
            rate <= u32::MAX,
    ;
    let v = ((us as u128) * (rate as u128) + 500_000) / 1_000_000;
    if v > u64::MAX as u128 {
        u64::MAX
    } else {
        v as u64
    }
}

/// Converts microseconds to sample frames, rounding down.
pub fn micros_to_frames_floor(us: u64, rate: u32) -> (r: u64)
    ensures
        r == us_to_frames_floor(us, rate),
{
    assert((us as u128) * (rate as u128) <= u64::MAX * u32::MAX) by (nonlinear_arith)
        requires
            us <= u64::MAX,
            rate <= u32::MAX,
    ;
    let v = (us as u128) * (rate as u128) / 1_000_000;
    if v > u64::MAX as u128 {
        u64::MAX
    } else {
        v as u64
    }
}

impl PlaybackClock {
    /// The current position in microseconds.
    pub fn position_us(&self) -> (r: u64)
        ensures
            r == frames_to_us(self@.position(), self@.rate),
    {
        frames_to_micros(self.position_samples(), self.sample_rate)
    }

    /// The known length in microseconds.
    pub fn duration_us(&self) -> (r: Option<u64>)
        ensures
            r == if self@.total == 0 {
                None
            } else {
                Some(frames_to_us(self@.total, self@.rate))
            },
    {
        match self.duration_samples() {
            Some(d) => Some(frames_to_micros(d, self.sample_rate)),
            None => None,
        }
    }

    /// Jumps to `position_us`, rounded to the nearest frame.
    pub fn seek_us(&mut self, position_us: u64)
        ensures
            final(self)@ == old(self)@.seek(us_to_frames_rounded(position_us, old(self)@.rate)),
    {
        let frames = micros_to_frames_rounded(position_us, self.sample_rate);
        self.seek(frames);
    }

    /// Sets the known length from microseconds (rounded down to a frame).
    pub fn set_duration_us(&mut self, duration_us: u64)
        ensures
            final(self)@ == (ClockView { total: us_to_frames_floor(duration_us, old(self)@.rate), ..old(self)@ }),
    {
        let frames = micros_to_frames_floor(duration_us, self.sample_rate);
        self.set_duration_samples(frames);
    }
}

} // verus!
