//! Audio-master A/V synchronisation of decoded video frames.
use vstd::prelude::*;
use std::collections::VecDeque;
use crate::audio::PlaybackClock;
use crate::video::frame::DecodedFrame;

verus! {

/// A frame at `pts_us` is late when it lies more than `thr_us` before the
/// audio position `pos / rate` seconds (compared exactly, without rounding).
pub open spec fn is_late(pts_us: int, thr_us: int, pos: int, rate: int) -> bool {
    (pts_us + thr_us) * rate < pos * 1_000_000
}

/// A frame at `pts_us` is early when it lies more than `thr_us` after the audio position.
pub open spec fn is_early(pts_us: int, thr_us: int, pos: int, rate: int) -> bool {
    (pts_us - thr_us) * rate > pos * 1_000_000
}

/// Frames dropped from the front to make room for one more under a bound of `max`.
pub open spec fn overflow_count(len: nat, max: nat) -> nat {
    if len >= max {
        (len - max + 1) as nat
    } else {
        0
    }
}

/// How far ahead of the audio a frame may be and still be shown: the display
/// window, widened to `BOOTSTRAP_WINDOW_US` while the first frame after
/// opening or seeking is awaited.
pub open spec fn early_window(thr_us: int, bootstrap: bool) -> int {
    if bootstrap && thr_us < BOOTSTRAP_WINDOW_US {
        BOOTSTRAP_WINDOW_US as int
    } else {
        thr_us
    }
}

/// Outcome of a display request on queue `q`: the frame shown (if any), how
/// many late frames were dropped, whether an early frame was waited for, and
/// how many frames left the queue. Frames more than `thr_us` behind the audio
/// are late; a front frame more than `early_us` ahead of it is waited for.
pub open spec fn display_outcome(q: Seq<DecodedFrame>, thr_us: int, early_us: int, pos: int, rate: int) -> (
    Option<DecodedFrame>,
    nat,
    bool,
    nat,
)
    decreases q.len(),
{
    if q.len() == 0 {
        (None, 0, false, 0)
    } else if is_early(q[0].pts_us as int, early_us, pos, rate) {
        (None, 0, true, 0)
    } else if is_late(q[0].pts_us as int, thr_us, pos, rate) {
        let r = display_outcome(q.drop_first(), thr_us, early_us, pos, rate);
        (r.0, r.1 + 1, r.2, r.3 + 1)
    } else {
        (Some(q[0]), 0, false, 1)
    }
}

/// Queue after offering `frame`: a late frame is refused; otherwise the
/// oldest frames are dropped until there is room and the frame is appended.
pub open spec fn queue_after_push(
    q: Seq<DecodedFrame>,
    frame: DecodedFrame,
    max: nat,
    thr_us: int,
    pos: int,
    rate: int,
) -> Seq<DecodedFrame> {
    if is_late(frame.pts_us as int, thr_us, pos, rate) {
        q
    } else {
        q.skip(overflow_count(q.len(), max) as int).push(frame)
    }
}

proof fn lemma_scaled_bounds(a: int, rate: int, pos: int)
    requires
        -0x4_0000_0000_0000_0000 < a < 0x4_0000_0000_0000_0000,
        0 <= rate < 0x1_0000_0000,
        0 <= pos < 0x1_0000_0000_0000_0000,
    ensures
        -0x4_0000_0000_0000_0000_0000_0000 < a * rate < 0x4_0000_0000_0000_0000_0000_0000,
        0 <= pos * 1_000_000 < 0x4_0000_0000_0000_0000_0000_0000,
{
    assert(-0x4_0000_0000_0000_0000_0000_0000 < a * rate < 0x4_0000_0000_0000_0000_0000_0000)
        by (nonlinear_arith)
        requires
            -0x4_0000_0000_0000_0000 < a < 0x4_0000_0000_0000_0000,
            0 <= rate < 0x1_0000_0000,
    ;
    assert(0 <= pos * 1_000_000 < 0x4_0000_0000_0000_0000_0000_0000) by (nonlinear_arith)
        requires
            0 <= pos < 0x1_0000_0000_0000_0000,
    ;
}

/// Whether a frame at `pts_us` is late for the audio position `pos` frames at `rate`.
fn frame_is_late(pts_us: i64, thr_us: u64, pos: u64, rate: u32) -> (b: bool)
    ensures
        b == is_late(pts_us as int, thr_us as int, pos as int, rate as int),
{
    proof {
        lemma_scaled_bounds(pts_us + thr_us, rate as int, pos as int);
    }
    let lhs: i128 = (pts_us as i128 + thr_us as i128) * rate as i128;
    let rhs: i128 = pos as i128 * 1_000_000;
    lhs < rhs
}

/// Whether a frame at `pts_us` is early for the audio position `pos` frames at `rate`.
fn frame_is_early(pts_us: i64, thr_us: u64, pos: u64, rate: u32) -> (b: bool)
    ensures
        b == is_early(pts_us as int, thr_us as int, pos as int, rate as int),
{
    proof {
        lemma_scaled_bounds(pts_us - thr_us, rate as int, pos as int);
    }
    let lhs: i128 = (pts_us as i128 - thr_us as i128) * rate as i128;
    let rhs: i128 = pos as i128 * 1_000_000;
    lhs > rhs
}

/// While the first frame after opening or seeking is awaited, a frame up to
/// this far ahead of the audio (one second) is shown at once.
pub const BOOTSTRAP_WINDOW_US: u64 = 1_000_000;

/// The early window of `pop_frame_for_display`.
fn early_window_exec(thr_us: u64, bootstrap: bool) -> (r: u64)
    ensures
        r == early_window(thr_us as int, bootstrap),
{
    if bootstrap && thr_us < BOOTSTRAP_WINDOW_US {
        BOOTSTRAP_WINDOW_US
    } else {
        thr_us
    }
}

/// Holds decoded frames until the audio clock reaches them.
pub struct AvSync {
    frame_queue: VecDeque<DecodedFrame>,
    sync_threshold_us: u64,
    bootstrap: bool,
    seeking: bool,
    max_queue_frames: usize,
    dropped_late: u64,
    dropped_overflow: u64,
    waited_early: u64,
}

impl AvSync {
    /// Frames waiting for display, oldest first.
    pub closed spec fn queue(&self) -> Seq<DecodedFrame> {
        self.frame_queue@
    }

    pub closed spec fn max_frames(&self) -> usize {
        self.max_queue_frames
    }

    pub closed spec fn late_count(&self) -> u64 {
        self.dropped_late
    }

    pub closed spec fn overflow_drops(&self) -> u64 {
        self.dropped_overflow
    }

    pub closed spec fn early_waits(&self) -> u64 {
        self.waited_early
    }

    /// Whether the first frame after opening or a seek is still awaited; the
    /// next display request then uses the widened early window.
    pub closed spec fn awaiting_first_frame(&self) -> bool {
        self.bootstrap
    }

    /// Whether a seek is in progress: set by `set_seeking`, cleared when a
    /// frame is shown.
    pub closed spec fn seek_pending(&self) -> bool {
        self.seeking
    }

    /// Half-width of the display window around the audio position, in microseconds.
    pub closed spec fn threshold_us(&self) -> u64 {
        self.sync_threshold_us
    }

    /// An empty queue with a 40 ms window and room for 8 frames, awaiting
    /// its first frame.
    pub fn new() -> (s: Self)
        ensures
            s.queue() == Seq::<DecodedFrame>::empty(),
            s.threshold_us() == 40_000,
            s.max_frames() == 8,
            s.late_count() == 0,
            s.overflow_drops() == 0,
            s.early_waits() == 0,
            s.awaiting_first_frame(),
            !s.seek_pending(),
    {
        Self {
            frame_queue: VecDeque::new(),
            sync_threshold_us: 40_000,
            bootstrap: true,
            seeking: false,
            max_queue_frames: 8,
            dropped_late: 0,
            dropped_overflow: 0,
            waited_early: 0,
        }
    }

    /// The same synchroniser with a display window of `threshold_ms` milliseconds.
    pub fn with_threshold(self, threshold_ms: u32) -> (s: Self)
        ensures
            s.threshold_us() == threshold_ms as u64 * 1000,
            s.queue() == self.queue(),
            s.max_frames() == self.max_frames(),
            s.late_count() == self.late_count(),
            s.overflow_drops() == self.overflow_drops(),
            s.early_waits() == self.early_waits(),
            s.awaiting_first_frame() == self.awaiting_first_frame(),
            s.seek_pending() == self.seek_pending(),
    {
        let mut s = self;
        s.sync_threshold_us = threshold_ms as u64 * 1000;
        s
    }

    /// Number of queued frames.
    pub fn queue_len(&self) -> (n: usize)
        ensures
            n == self.queue().len(),
    {
        self.frame_queue.len()
    }

    /// The queue bound: pushing onto a full queue drops the oldest frames.
    pub fn max_queue_frames(&self) -> (n: usize)
        ensures
            n == self.max_frames(),
    {
        self.max_queue_frames
    }

    /// Sets the queue bound.
    pub fn set_max_queue_frames(&mut self, n: usize)
        ensures
            final(self).max_frames() == n,
            final(self).queue() == old(self).queue(),
            final(self).threshold_us() == old(self).threshold_us(),
            final(self).late_count() == old(self).late_count(),
            final(self).overflow_drops() == old(self).overflow_drops(),
            final(self).early_waits() == old(self).early_waits(),
            final(self).awaiting_first_frame() == old(self).awaiting_first_frame(),
            final(self).seek_pending() == old(self).seek_pending(),
    {
        self.max_queue_frames = n;
    }

    /// Frames dropped because they were already late.
    pub fn dropped_late(&self) -> (n: u64)
        ensures
            n == self.late_count(),
    {
        self.dropped_late
    }

    /// Frames dropped to keep the queue within its bound.
    pub fn dropped_overflow(&self) -> (n: u64)
        ensures
            n == self.overflow_drops(),
    {
        self.dropped_overflow
    }

    /// Display requests that found an early frame at the front.
    pub fn waited_early(&self) -> (n: u64)
        ensures
            n == self.early_waits(),
    {
        self.waited_early
    }

    /// Whether a seek is in progress (no frame shown since `set_seeking(true)`).
    pub fn is_seeking(&self) -> (b: bool)
        ensures
            b == self.seek_pending(),
    {
        self.seeking
    }

    /// Marks a seek as started (or abandoned): while it is in progress the
    /// first frame of the new position is shown with the widened window.
    pub fn set_seeking(&mut self, seeking: bool)
        ensures
            final(self).seek_pending() == seeking,
            final(self).awaiting_first_frame() == (seeking || old(self).awaiting_first_frame()),
            final(self).queue() == old(self).queue(),
            final(self).threshold_us() == old(self).threshold_us(),
            final(self).max_frames() == old(self).max_frames(),
            final(self).late_count() == old(self).late_count(),
            final(self).overflow_drops() == old(self).overflow_drops(),
            final(self).early_waits() == old(self).early_waits(),
    {
        self.seeking = seeking;
        if seeking {
            self.bootstrap = true;
        }
    }

    /// Offers a decoded frame: a frame already late for `clock` is dropped and
    /// counted; otherwise the oldest frames are dropped (and counted) until the
    /// queue has room, and the frame is queued.
    pub fn push_frame(&mut self, frame: DecodedFrame, clock: &PlaybackClock)
        requires
            old(self).max_frames() > 0,
            old(self).late_count() < u64::MAX,
            old(self).overflow_drops() + old(self).queue().len() <= u64::MAX,
        ensures
            final(self).queue() == queue_after_push(
                old(self).queue(),
                frame,
                old(self).max_frames() as nat,
                old(self).threshold_us() as int,
                clock@.position() as int,
                clock@.rate as int,
            ),
            final(self).late_count() == old(self).late_count() + if is_late(
                frame.pts_us as int,
                old(self).threshold_us() as int,
                clock@.position() as int,
                clock@.rate as int,
            ) {
                1int
            } else {
                0int
            },
            final(self).overflow_drops() == old(self).overflow_drops() + if is_late(
                frame.pts_us as int,
                old(self).threshold_us() as int,
                clock@.position() as int,
                clock@.rate as int,
            ) {
                0int
            } else {
                overflow_count(old(self).queue().len(), old(self).max_frames() as nat) as int
            },
            final(self).early_waits() == old(self).early_waits(),
            final(self).threshold_us() == old(self).threshold_us(),
            final(self).max_frames() == old(self).max_frames(),
            final(self).awaiting_first_frame() == old(self).awaiting_first_frame(),
            final(self).seek_pending() == old(self).seek_pending(),
    {
        let pos = clock.position_samples();
        let rate = clock.sample_rate();
        if frame_is_late(frame.pts_us, self.sync_threshold_us, pos, rate) {
            self.dropped_late = self.dropped_late + 1;
            return;
        }
        let ghost q0 = self.frame_queue@;
        let ghost d0 = self.dropped_overflow;
        while self.frame_queue.len() >= self.max_queue_frames
            invariant
                self.max_queue_frames > 0,
                self.max_queue_frames == old(self).max_queue_frames,
                self.dropped_late == old(self).dropped_late,
                self.waited_early == old(self).waited_early,
                self.sync_threshold_us == old(self).sync_threshold_us,
                self.bootstrap == old(self).bootstrap,
                self.seeking == old(self).seeking,
                d0 + q0.len() <= u64::MAX,
                self.dropped_overflow - d0 <= overflow_count(q0.len(), self.max_queue_frames as nat),
                self.dropped_overflow >= d0,
                self.dropped_overflow - d0 <= q0.len(),
                self.frame_queue@ == q0.skip(self.dropped_overflow - d0),
            decreases self.frame_queue@.len(),
        {
            let ghost before = self.frame_queue@;
            let _ = self.frame_queue.pop_front();
            assert(self.frame_queue@ =~= q0.skip(self.dropped_overflow - d0 + 1));
            self.dropped_overflow = self.dropped_overflow + 1;
        }
        self.frame_queue.push_back(frame);
    }

    /// Takes the frame to show now: late frames at the front are dropped (and
    /// counted); an early front frame stays queued and the wait is counted.
    /// While the first frame after opening or seeking is awaited, a front
    /// frame up to `BOOTSTRAP_WINDOW_US` ahead of the audio is not early; once
    /// a frame is shown, that wait (and any seek) is over.
    pub fn pop_frame_for_display(&mut self, clock: &PlaybackClock) -> (r: Option<DecodedFrame>)
        requires
            old(self).late_count() + old(self).queue().len() <= u64::MAX,
            old(self).early_waits() < u64::MAX,
        ensures
            ({
                let o = display_outcome(
                    old(self).queue(),
                    old(self).threshold_us() as int,
                    early_window(old(self).threshold_us() as int, old(self).awaiting_first_frame()),
                    clock@.position() as int,
                    clock@.rate as int,
                );
                &&& r == o.0
                &&& final(self).late_count() == old(self).late_count() + o.1
                &&& final(self).early_waits() == old(self).early_waits() + if o.2 {
                    1int
                } else {
                    0int
                }
                &&& final(self).queue() == old(self).queue().skip(o.3 as int)
            }),
            final(self).awaiting_first_frame() == (old(self).awaiting_first_frame() && r is None),
            final(self).seek_pending() == (old(self).seek_pending() && r is None),
            final(self).overflow_drops() == old(self).overflow_drops(),
            final(self).threshold_us() == old(self).threshold_us(),
            final(self).max_frames() == old(self).max_frames(),
    {
        let pos = clock.position_samples();
        let rate = clock.sample_rate();
        let early_us = early_window_exec(self.sync_threshold_us, self.bootstrap);
        let ghost thr = self.sync_threshold_us as int;
        let ghost q0 = self.frame_queue@;
        let ghost l0 = self.dropped_late;
        let ghost total = display_outcome(q0, thr, early_us as int, pos as int, rate as int);
        while self.frame_queue.len() > 0
            invariant
                self.max_queue_frames == old(self).max_queue_frames,
                self.dropped_overflow == old(self).dropped_overflow,
                self.waited_early == old(self).waited_early,
                self.sync_threshold_us == old(self).sync_threshold_us,
                self.bootstrap == old(self).bootstrap,
                self.seeking == old(self).seeking,
                thr == self.sync_threshold_us as int,
                early_us == early_window(thr, old(self).bootstrap),
                pos == clock@.position(),
                rate == clock@.rate,
                q0 == old(self).queue(),
                l0 == old(self).dropped_late,
                l0 + q0.len() <= u64::MAX,
                self.waited_early < u64::MAX,
                self.dropped_late >= l0,
                self.dropped_late - l0 <= q0.len(),
                self.frame_queue@ == q0.skip(self.dropped_late - l0),
                total == display_outcome(q0, thr, early_us as int, pos as int, rate as int),
                ({
                    let o = display_outcome(self.frame_queue@, thr, early_us as int, pos as int, rate as int);
                    &&& total.0 == o.0
                    &&& total.1 == o.1 + (self.dropped_late - l0)
                    &&& total.2 == o.2
                    &&& total.3 == o.3 + (self.dropped_late - l0)
                }),
            decreases self.frame_queue@.len(),
        {
            let ghost q = self.frame_queue@;
            let front_pts = self.frame_queue[0].pts_us;
            assert(front_pts == q[0].pts_us);
            if frame_is_early(front_pts, early_us, pos, rate) {
                assert(display_outcome(q, thr, early_us as int, pos as int, rate as int) == (
                    None::<DecodedFrame>,
                    0nat,
                    true,
                    0nat,
                ));
                self.waited_early = self.waited_early + 1;
                assert(total.0 == None::<DecodedFrame>);
                assert(total.1 == self.dropped_late - l0);
                assert(total.2);
                assert(total.3 == self.dropped_late - l0);
                assert(self.frame_queue@ == q0.skip(total.3 as int));
                assert(self.dropped_late == l0 + total.1);
                return None;
            }
            let frame = self.frame_queue.pop_front().unwrap();
            assert(self.frame_queue@ =~= q.drop_first());
            if frame_is_late(frame.pts_us, self.sync_threshold_us, pos, rate) {
                assert(self.frame_queue@ =~= q0.skip(self.dropped_late - l0 + 1));
                self.dropped_late = self.dropped_late + 1;
            } else {
                assert(display_outcome(q, thr, early_us as int, pos as int, rate as int) == (
                    Some(q[0]),
                    0nat,
                    false,
                    1nat,
                ));
                assert(q0.skip(self.dropped_late - l0).drop_first() =~= q0.skip(total.3 as int));
                assert(total.0 == Some(frame));
                assert(total.1 == self.dropped_late - l0);
                assert(!total.2);
                assert(self.frame_queue@ == q0.skip(total.3 as int));
                self.bootstrap = false;
                self.seeking = false;
                return Some(frame);
            }
        }
        assert(self.frame_queue@ =~= Seq::<DecodedFrame>::empty());
        assert(display_outcome(self.frame_queue@, thr, early_us as int, pos as int, rate as int) == (
            None::<DecodedFrame>,
            0nat,
            false,
            0nat,
        ));
        None
    }

    /// Drops every queued frame.
    pub fn clear(&mut self)
        ensures
            final(self).queue() == Seq::<DecodedFrame>::empty(),
            final(self).threshold_us() == old(self).threshold_us(),
            final(self).max_frames() == old(self).max_frames(),
            final(self).late_count() == old(self).late_count(),
            final(self).overflow_drops() == old(self).overflow_drops(),
            final(self).early_waits() == old(self).early_waits(),
            final(self).awaiting_first_frame() == old(self).awaiting_first_frame(),
            final(self).seek_pending() == old(self).seek_pending(),
    {
        self.frame_queue.clear();
    }
}

/// The queue never grows beyond its bound: offering a frame to a queue of at
/// most `max` frames leaves at most `max` frames.
pub proof fn law_queue_bounded(
    q: Seq<DecodedFrame>,
    frame: DecodedFrame,
    max: nat,
    thr_us: int,
    pos: int,
    rate: int,
)
    requires
        max > 0,
    ensures
        queue_after_push(q, frame, max, thr_us, pos, rate).len() <= vstd::math::max(
            q.len() as int,
            max as int,
        ),
{
}

/// A frame that is already late never enters the queue; any other frame ends up last.
pub proof fn law_late_frame_refused(
    q: Seq<DecodedFrame>,
    frame: DecodedFrame,
    max: nat,
    thr_us: int,
    pos: int,
    rate: int,
)
    requires
        max > 0,
    ensures
        is_late(frame.pts_us as int, thr_us, pos, rate) ==> queue_after_push(
            q,
            frame,
            max,
            thr_us,
            pos,
            rate,
        ) == q,
        !is_late(frame.pts_us as int, thr_us, pos, rate) ==> queue_after_push(
            q,
            frame,
            max,
            thr_us,
            pos,
            rate,
        ).last() == frame,
{
}

/// A frame handed out for display is within the window: not late, and not
/// further ahead of the audio than the early window in force.
pub proof fn law_displayed_frame_in_window(q: Seq<DecodedFrame>, thr_us: int, early_us: int, pos: int, rate: int)
    ensures
        display_outcome(q, thr_us, early_us, pos, rate).0 matches Some(f) ==> !is_late(
            f.pts_us as int,
            thr_us,
            pos,
            rate,
        ) && !is_early(f.pts_us as int, early_us, pos, rate),
        display_outcome(q, thr_us, early_us, pos, rate).3 <= q.len(),
    decreases q.len(),
{
    if q.len() > 0 && !is_early(q[0].pts_us as int, early_us, pos, rate) && is_late(
        q[0].pts_us as int,
        thr_us,
        pos,
        rate,
    ) {
        law_displayed_frame_in_window(q.drop_first(), thr_us, early_us, pos, rate);
    }
}

/// An early frame is waited for, not consumed: the queue is left as it was.
pub proof fn law_early_front_kept(q: Seq<DecodedFrame>, thr_us: int, early_us: int, pos: int, rate: int)
    requires
        q.len() > 0,
        is_early(q[0].pts_us as int, early_us, pos, rate),
    ensures
        display_outcome(q, thr_us, early_us, pos, rate) == (None::<DecodedFrame>, 0nat, true, 0nat),
{
}

/// A frame inside the window offered to an empty queue is the next one shown.
pub proof fn law_on_time_frame_shown(frame: DecodedFrame, max: nat, thr_us: int, bootstrap: bool, pos: int, rate: int)
    requires
        max > 0,
        thr_us >= 0,
        rate >= 0,
        !is_late(frame.pts_us as int, thr_us, pos, rate),
        !is_early(frame.pts_us as int, thr_us, pos, rate),
    ensures
        display_outcome(
            queue_after_push(Seq::<DecodedFrame>::empty(), frame, max, thr_us, pos, rate),
            thr_us,
            early_window(thr_us, bootstrap),
            pos,
            rate,
        ) == (Some(frame), 0nat, false, 1nat),
{
    let q = queue_after_push(Seq::<DecodedFrame>::empty(), frame, max, thr_us, pos, rate);
    assert(q =~= seq![frame]);
    if early_window(thr_us, bootstrap) != thr_us {
        assert((frame.pts_us - early_window(thr_us, bootstrap)) <= frame.pts_us - thr_us);
        let e = early_window(thr_us, bootstrap);
        assert((frame.pts_us - e) * rate <= (frame.pts_us - thr_us) * rate) by (nonlinear_arith)
            requires
                frame.pts_us - e <= frame.pts_us - thr_us,
                rate >= 0,
        ;
        assert(!is_early(frame.pts_us as int, e, pos, rate));
    }
}

/// While the first frame after opening or seeking is awaited, a frame that
/// is neither late nor more than `BOOTSTRAP_WINDOW_US` ahead of the audio is
/// shown at once from an otherwise empty queue, even when it lies beyond the
/// normal window.
pub proof fn law_first_frame_shown(frame: DecodedFrame, max: nat, thr_us: int, pos: int, rate: int)
    requires
        max > 0,
        0 <= thr_us < BOOTSTRAP_WINDOW_US,
        !is_late(frame.pts_us as int, thr_us, pos, rate),
        !is_early(frame.pts_us as int, BOOTSTRAP_WINDOW_US as int, pos, rate),
    ensures
        display_outcome(
            queue_after_push(Seq::<DecodedFrame>::empty(), frame, max, thr_us, pos, rate),
            thr_us,
            early_window(thr_us, true),
            pos,
            rate,
        ) == (Some(frame), 0nat, false, 1nat),
{
    let q = queue_after_push(Seq::<DecodedFrame>::empty(), frame, max, thr_us, pos, rate);
    assert(q =~= seq![frame]);
}

/// Overflow drops the oldest frames: a frame that is not late, offered to a
/// queue under a bound of `max`, ends up last behind the most recent frames
/// of the queue, as many of them as leave the queue at most `max` long (all
/// of them when there is room).
pub proof fn law_overflow_keeps_newest(
    q: Seq<DecodedFrame>,
    frame: DecodedFrame,
    max: nat,
    thr_us: int,
    pos: int,
    rate: int,
)
    requires
        max > 0,
        !is_late(frame.pts_us as int, thr_us, pos, rate),
    ensures
        ({
            let r = queue_after_push(q, frame, max, thr_us, pos, rate);
            let kept = if q.len() + 1 <= max {
                q.len() as int
            } else {
                max - 1
            };
            &&& r.len() == kept + 1
            &&& r.last() == frame
            &&& forall|i: int| 0 <= i < kept ==> #[trigger] r[i] == q[q.len() - kept + i]
        }),
{
}

} // verus!
