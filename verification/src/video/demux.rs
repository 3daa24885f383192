//! MP4 video demuxing: the codec of a track, the sample table walked in
//! decoding order, and keyframe seeking.
//!
//! Reading the container and the sample bytes is the application's job; it
//! fills the plain descriptions below and this module decides what to read.
use vstd::prelude::*;
use vstd::string::StringExecFns;

verus! {

/// Video codecs the player recognises in a container.
#[derive(Debug, Clone, Copy, PartialEq, Eq, Structural)]
pub enum VideoCodec {
    Av1,
    H264,
    H265,
    Unknown,
}

/// One compressed video sample with its timing in microseconds.
pub struct VideoPacket {
    pub pts_us: i64,
    pub dts_us: i64,
    pub data: Vec<u8>,
    pub is_keyframe: bool,
}

/// One entry of a track's sample table: where its bytes lie in the file,
/// its composition and decode times in track ticks, and whether it is a
/// sync (key) sample.
#[derive(Debug, Clone, Copy, PartialEq, Eq, Structural)]
pub struct SampleInfo {
    pub start_offset: u64,
    pub end_offset: u64,
    pub start_composition: i64,
    pub start_decode: i64,
    pub sync: bool,
}

/// `v` limited to the range of `i64`.
pub open spec fn clamp_i64(v: int) -> i64 {
    if v < i64::MIN {
        i64::MIN
    } else if v > i64::MAX {
        i64::MAX
    } else {
        v as i64
    }
}

/// Track ticks at `timescale` ticks per second, in microseconds (rounded
/// down, limited to `i64`); zero for a zero timescale.
pub open spec fn ticks_to_us(ticks: i64, timescale: u32) -> i64 {
    if timescale == 0 {
        0
    } else {
        clamp_i64((ticks * 1_000_000) / (timescale as int))
    }
}

/// Microseconds as track ticks at `timescale` ticks per second (rounded
/// down, limited to `i64`).
pub open spec fn us_to_ticks(us: i64, timescale: u32) -> i64 {
    clamp_i64((us * timescale) / 1_000_000)
}

proof fn lemma_floor_div_neg(w: int, d: int)
    requires
        d > 0,
        w < 0,
    ensures
        ((-w) / d) * d == -w ==> w / d == -((-w) / d),
        ((-w) / d) * d != -w ==> w / d == -((-w) / d) - 1,
{
    let n = -w;
    let qq = n / d;
    let r = n % d;
    assert(n == qq * d + r && 0 <= r < d) by (nonlinear_arith)
        requires
            d > 0,
            n >= 0,
            qq == n / d,
            r == n % d,
    ;
    if r == 0 {
        assert(w / d == -qq) by (nonlinear_arith)
            requires
                d > 0,
                w == -(qq * d),
        ;
    } else {
        assert(w / d == -qq - 1) by (nonlinear_arith)
            requires
                d > 0,
                w == -(qq * d) - r,
                0 < r < d,
        ;
    }
}

/// Converts track ticks to microseconds.
pub fn ticks_to_micros(ticks: i64, timescale: u32) -> (r: i64)
    ensures
        r == ticks_to_us(ticks, timescale),
{
    if timescale == 0 {
        return 0;
    }
    assert(-0x8000_0000_0000_0000_0000_0000 < (ticks as i128) * 1_000_000i128 < 0x8000_0000_0000_0000_0000_0000)
        by (nonlinear_arith)
        requires
            i64::MIN <= ticks <= i64::MAX,
    ;
    let wide = (ticks as i128) * 1_000_000i128;
    let ts = timescale as i128;
    let q = if wide >= 0 {
        wide / ts
    } else {
        let neg = -wide;
        let qq = neg / ts;
        assert(0 <= qq * ts <= neg) by (nonlinear_arith)
            requires
                ts > 0,
                neg > 0,
                qq == neg / ts,
        ;
        if qq * ts == neg {
            -qq
        } else {
            -qq - 1
        }
    };
    proof {
        if wide < 0 {
            lemma_floor_div_neg(wide as int, ts as int);
        }
    }
    assert(q == (ticks * 1_000_000) / (timescale as int));
    if q < i64::MIN as i128 {
        i64::MIN
    } else if q > i64::MAX as i128 {
        i64::MAX
    } else {
        q as i64
    }
}

/// Converts microseconds to track ticks.
pub fn micros_to_ticks(us: i64, timescale: u32) -> (r: i64)
    ensures
        r == us_to_ticks(us, timescale),
{
    assert(-0x8000_0000_0000_0000_0000_0000 < (us as i128) * (timescale as i128) < 0x8000_0000_0000_0000_0000_0000)
        by (nonlinear_arith)
        requires
            i64::MIN <= us <= i64::MAX,
            0 <= timescale <= u32::MAX,
    ;
    let wide = (us as i128) * (timescale as i128);
    let q = if wide >= 0 {
        wide / 1_000_000
    } else {
        let neg = -wide;
        let qq = neg / 1_000_000;
        if qq * 1_000_000 == neg {
            -qq
        } else {
            -qq - 1
        }
    };
    proof {
        if wide < 0 {
            lemma_floor_div_neg(wide as int, 1_000_000);
        }
    }
    assert(q == (us * timescale) / 1_000_000);
    if q < i64::MIN as i128 {
        i64::MIN
    } else if q > i64::MAX as i128 {
        i64::MAX
    } else {
        q as i64
    }
}

/// Where a binary search over `s[lo..hi]` for the first sample composed after
/// `t` ends: it halves the range, keeping the upper half while the middle
/// sample is composed at or before `t`.
pub open spec fn search_boundary(s: Seq<SampleInfo>, t: i64, lo: int, hi: int) -> int
    decreases hi - lo,
{
    if lo >= hi {
        lo
    } else {
        let mid = lo + (hi - lo) / 2;
        if s[mid].start_composition <= t {
            search_boundary(s, t, mid + 1, hi)
        } else {
            search_boundary(s, t, lo, mid)
        }
    }
}

/// The first sync sample at or after `i`.
pub open spec fn first_sync_from(s: Seq<SampleInfo>, i: int) -> Option<int>
    decreases s.len() - i,
{
    if i < 0 || i >= s.len() {
        None
    } else if s[i].sync {
        Some(i)
    } else {
        first_sync_from(s, i + 1)
    }
}

/// The last sync sample at or before `i`.
pub open spec fn last_sync_upto(s: Seq<SampleInfo>, i: int) -> Option<int>
    decreases i + 1,
{
    if i < 0 || i >= s.len() {
        None
    } else if s[i].sync {
        Some(i)
    } else {
        last_sync_upto(s, i - 1)
    }
}

/// The sample to resume decoding from when seeking to tick `t`: starting at
/// the last sample composed at or before `t` (found by binary search), the
/// first sync sample from there on, else the last one before it, else 0.
pub open spec fn keyframe_for(s: Seq<SampleInfo>, t: i64) -> int {
    if s.len() == 0 {
        0
    } else {
        let b = search_boundary(s, t, 0, s.len() as int);
        let p = if b > 0 {
            b - 1
        } else {
            0
        };
        match first_sync_from(s, p) {
            Some(i) => i,
            None => match last_sync_upto(s, p) {
                Some(i) => i,
                None => 0,
            },
        }
    }
}

proof fn lemma_search_boundary_range(s: Seq<SampleInfo>, t: i64, lo: int, hi: int)
    requires
        0 <= lo <= hi,
    ensures
        lo <= search_boundary(s, t, lo, hi) <= hi,
    decreases hi - lo,
{
    if lo < hi {
        let mid = lo + (hi - lo) / 2;
        if s[mid].start_composition <= t {
            lemma_search_boundary_range(s, t, mid + 1, hi);
        } else {
            lemma_search_boundary_range(s, t, lo, mid);
        }
    }
}

proof fn lemma_first_sync_range(s: Seq<SampleInfo>, i: int)
    requires
        0 <= i,
    ensures
        first_sync_from(s, i) matches Some(j) ==> i <= j < s.len() && s[j].sync,
        first_sync_from(s, i) is None ==> forall|k: int| i <= k < s.len() && 0 <= k ==> !s[k].sync,
    decreases s.len() - i,
{
    if !(i < 0 || i >= s.len()) && !s[i].sync {
        lemma_first_sync_range(s, i + 1);
    }
}

proof fn lemma_last_sync_range(s: Seq<SampleInfo>, i: int)
    requires
        i < s.len(),
    ensures
        last_sync_upto(s, i) matches Some(j) ==> 0 <= j <= i && s[j].sync,
        last_sync_upto(s, i) is None ==> forall|k: int| 0 <= k <= i ==> !s[k].sync,
    decreases i + 1,
{
    if i >= 0 && !s[i].sync {
        lemma_last_sync_range(s, i - 1);
    }
}

/// The sample to restart decoding from when seeking to tick `target`.
pub fn seek_keyframe_index(samples: &[SampleInfo], target: i64) -> (r: usize)
    ensures
        r == keyframe_for(samples@, target),
        samples@.len() > 0 ==> r < samples@.len(),
{
    if samples.len() == 0 {
        return 0;
    }
    let ghost s = samples@;
    let mut lo: usize = 0;
    let mut hi: usize = samples.len();
    while lo < hi
        invariant
            lo <= hi <= s.len(),
            s == samples@,
            search_boundary(s, target, lo as int, hi as int) == search_boundary(
                s,
                target,
                0,
                s.len() as int,
            ),
        decreases hi - lo,
    {
        let mid = lo + (hi - lo) / 2;
        if samples[mid].start_composition <= target {
            lo = mid + 1;
        } else {
            hi = mid;
        }
    }
    let at_or_before = if lo > 0 {
        lo - 1
    } else {
        0
    };
    let ghost b = search_boundary(s, target, 0, s.len() as int);
    assert(b == lo);
    assert(keyframe_for(s, target) == match first_sync_from(s, at_or_before as int) {
        Some(i) => i,
        None => match last_sync_upto(s, at_or_before as int) {
            Some(i) => i,
            None => 0,
        },
    });
    let mut i = at_or_before;
    while i < samples.len()
        invariant
            at_or_before <= i <= s.len(),
            s == samples@,
            keyframe_for(s, target) == match first_sync_from(s, at_or_before as int) {
                Some(i) => i,
                None => match last_sync_upto(s, at_or_before as int) {
                    Some(i) => i,
                    None => 0,
                },
            },
            first_sync_from(s, at_or_before as int) == first_sync_from(s, i as int),
        decreases s.len() - i,
    {
        if samples[i].sync {
            return i;
        }
        i = i + 1;
    }
    let mut j = at_or_before + 1;
    proof {
        lemma_search_boundary_range(s, target, 0, s.len() as int);
    }
    while j > 0
        invariant
            j <= at_or_before + 1,
            at_or_before < s.len(),
            s == samples@,
            first_sync_from(s, at_or_before as int) is None,
            keyframe_for(s, target) == match first_sync_from(s, at_or_before as int) {
                Some(i) => i,
                None => match last_sync_upto(s, at_or_before as int) {
                    Some(i) => i,
                    None => 0,
                },
            },
            last_sync_upto(s, at_or_before as int) == last_sync_upto(s, j - 1),
        decreases j,
    {
        if samples[j - 1].sync {
            return j - 1;
        }
        j = j - 1;
    }
    0
}

/// Samples sorted by composition time.
pub open spec fn composition_sorted(s: Seq<SampleInfo>) -> bool {
    forall|i: int, j: int| 0 <= i <= j < s.len() ==> s[i].start_composition <= s[j].start_composition
}

proof fn lemma_search_boundary_sorted(s: Seq<SampleInfo>, t: i64, lo: int, hi: int)
    requires
        composition_sorted(s),
        0 <= lo <= hi <= s.len(),
        lo > 0 ==> s[lo - 1].start_composition <= t,
        hi < s.len() ==> s[hi].start_composition > t,
    ensures
        ({
            let b = search_boundary(s, t, lo, hi);
            &&& forall|k: int| 0 <= k < b ==> s[k].start_composition <= t
            &&& forall|k: int| b <= k < s.len() ==> s[k].start_composition > t
        }),
    decreases hi - lo,
{
    if lo < hi {
        let mid = lo + (hi - lo) / 2;
        if s[mid].start_composition <= t {
            lemma_search_boundary_sorted(s, t, mid + 1, hi);
        } else {
            lemma_search_boundary_sorted(s, t, lo, mid);
        }
    } else {
        assert forall|k: int| 0 <= k < lo implies s[k].start_composition <= t by {
            assert(s[k].start_composition <= s[lo - 1].start_composition);
        }
        assert forall|k: int| lo <= k < s.len() implies s[k].start_composition > t by {
            assert(s[hi].start_composition <= s[k].start_composition);
        }
    }
}

/// On samples sorted by composition time, the search stops exactly between
/// the samples composed at or before the target and those composed after it.
pub proof fn law_seek_search_splits_sorted_samples(s: Seq<SampleInfo>, t: i64)
    requires
        composition_sorted(s),
    ensures
        ({
            let b = search_boundary(s, t, 0, s.len() as int);
            &&& 0 <= b <= s.len()
            &&& forall|k: int| 0 <= k < b ==> s[k].start_composition <= t
            &&& forall|k: int| b <= k < s.len() ==> s[k].start_composition > t
        }),
{
    lemma_search_boundary_sorted(s, t, 0, s.len() as int);
    lemma_search_boundary_range(s, t, 0, s.len() as int);
}

/// Seeking lands on a sync sample whenever the track has one: the first one
/// from the last sample composed at or before the target, or else the last
/// one before that position.
pub proof fn law_seek_lands_on_keyframe(s: Seq<SampleInfo>, t: i64)
    requires
        exists|k: int| 0 <= k < s.len() && s[k].sync,
    ensures
        0 <= keyframe_for(s, t) < s.len(),
        s[keyframe_for(s, t)].sync,
{
    let b = search_boundary(s, t, 0, s.len() as int);
    lemma_search_boundary_range(s, t, 0, s.len() as int);
    let p = if b > 0 {
        b - 1
    } else {
        0
    };
    lemma_first_sync_range(s, p);
    lemma_last_sync_range(s, p);
    let k = choose|k: int| 0 <= k < s.len() && s[k].sync;
    if first_sync_from(s, p) is None {
        assert(k < p || k >= p);
    }
}

/// Unsigned track ticks in microseconds (rounded down, limited to `i64`);
/// zero for a zero timescale.
pub open spec fn uticks_to_us(ticks: u64, timescale: u32) -> i64 {
    if timescale == 0 {
        0
    } else {
        clamp_i64((ticks * 1_000_000) / (timescale as int))
    }
}

/// Converts unsigned track ticks to microseconds.
pub fn unsigned_ticks_to_micros(ticks: u64, timescale: u32) -> (r: i64)
    ensures
        r == uticks_to_us(ticks, timescale),
{
    if timescale == 0 {
        return 0;
    }
    assert((ticks as u128) * 1_000_000u128 <= u64::MAX * 1_000_000) by (nonlinear_arith)
        requires
            ticks <= u64::MAX,
    ;
    let q = (ticks as u128) * 1_000_000u128 / (timescale as u128);
    if q > i64::MAX as u128 {
        i64::MAX
    } else {
        q as i64
    }
}

/// The packet of a sample-table entry whose bytes are `data`.
pub fn packet_from_sample(sample: &SampleInfo, data: Vec<u8>, timescale: u32) -> (p: VideoPacket)
    ensures
        p.pts_us == ticks_to_us(sample.start_composition, timescale),
        p.dts_us == ticks_to_us(sample.start_decode, timescale),
        p.data@ == data@,
        p.is_keyframe == sample.sync,
{
    VideoPacket {
        pts_us: ticks_to_micros(sample.start_composition, timescale),
        dts_us: ticks_to_micros(sample.start_decode, timescale),
        data,
        is_keyframe: sample.sync,
    }
}

/// The composition time in ticks of a sample decoded at `start_time` and
/// presented `rendering_offset` ticks later, limited to `i64`.
pub open spec fn composed_ticks(start_time: u64, rendering_offset: i32) -> i64 {
    clamp_i64(start_time + rendering_offset)
}

/// The packet of a sample read by id, which carries its decode time and the
/// offset of its presentation time from it: the presentation time is the
/// decode time plus the offset.
pub fn packet_from_timed_sample(start_time: u64, rendering_offset: i32, is_sync: bool, data: Vec<u8>, timescale: u32) -> (p:
    VideoPacket)
    ensures
        p.pts_us == ticks_to_us(composed_ticks(start_time, rendering_offset), timescale),
        p.dts_us == uticks_to_us(start_time, timescale),
        p.data@ == data@,
        p.is_keyframe == is_sync,
{
    let wide: i128 = start_time as i128 + rendering_offset as i128;
    let ticks: i64 = if wide > i64::MAX as i128 {
        i64::MAX
    } else if wide < i64::MIN as i128 {
        i64::MIN
    } else {
        wide as i64
    };
    let pts = ticks_to_micros(ticks, timescale);
    let dts = unsigned_ticks_to_micros(start_time, timescale);
    VideoPacket { pts_us: pts, dts_us: dts, data, is_keyframe: is_sync }
}

/// The number of bytes of a sample: its end offset minus its start offset;
/// none when the offsets are reversed or the size exceeds `usize`.
pub fn sample_byte_len(sample: &SampleInfo) -> (r: Option<usize>)
    ensures
        match r {
            Some(n) => sample.start_offset <= sample.end_offset && n == sample.end_offset
                - sample.start_offset,
            None => sample.start_offset > sample.end_offset || sample.end_offset
                - sample.start_offset > usize::MAX,
        },
{
    if sample.end_offset < sample.start_offset {
        return None;
    }
    let n = sample.end_offset - sample.start_offset;
    if n > usize::MAX as u64 {
        None
    } else {
        Some(n as usize)
    }
}

/// A track's sample table walked in decoding order, with the position of the
/// next sample to read.
pub struct SampleTable {
    samples: Vec<SampleInfo>,
    index: usize,
    timescale: u32,
}

impl View for SampleTable {
    type V = (Seq<SampleInfo>, int, u32);

    closed spec fn view(&self) -> (Seq<SampleInfo>, int, u32) {
        (self.samples@, self.index as int, self.timescale)
    }
}

impl SampleTable {
    /// The position never passes the end of the table.
    pub closed spec fn wf(&self) -> bool {
        self.index <= self.samples@.len()
    }

    /// A table positioned at its first sample; a track without samples is refused.
    pub fn new(samples: Vec<SampleInfo>, timescale: u32) -> (r: Result<SampleTable, crate::error::PlayerError>)
        ensures
            match r {
                Ok(t) => samples@.len() > 0 && t.wf() && t@ == (samples@, 0int, timescale),
                Err(e) => samples@.len() == 0 && e is VideoDemux,
            },
    {
        if samples.len() == 0 {
            return Err(crate::error::PlayerError::VideoDemux(String::from_str("no samples in track")));
        }
        Ok(SampleTable { samples, index: 0, timescale })
    }

    /// Ticks per second of the track.
    pub fn timescale(&self) -> (r: u32)
        ensures
            r == self@.2,
    {
        self.timescale
    }

    /// The number of samples, as the container's 32-bit count.
    pub fn sample_count(&self) -> (r: u32)
        ensures
            r == self@.0.len() as u32,
    {
        self.samples.len() as u32
    }

    /// The next sample in decoding order, moving past it; none at the end.
    pub fn next_sample(&mut self) -> (r: Option<SampleInfo>)
        requires
            old(self).wf(),
        ensures
            final(self).wf(),
            old(self)@.1 < old(self)@.0.len() ==> r == Some(old(self)@.0[old(self)@.1])
                && final(self)@ == (old(self)@.0, old(self)@.1 + 1, old(self)@.2),
            old(self)@.1 >= old(self)@.0.len() ==> r is None && final(self)@ == old(self)@,
    {
        if self.index >= self.samples.len() {
            return None;
        }
        let s = self.samples[self.index];
        self.index = self.index + 1;
        Some(s)
    }

    /// Positions the table at the keyframe to decode from for `position_us`.
    pub fn seek(&mut self, position_us: i64)
        requires
            old(self).wf(),
        ensures
            final(self).wf(),
            final(self)@ == (old(self)@.0, keyframe_for(old(self)@.0, us_to_ticks(position_us, old(self)@.2)), old(self)@.2),
    {
        let target = micros_to_ticks(position_us, self.timescale);
        self.index = seek_keyframe_index(self.samples.as_slice(), target);
    }

    /// Back to the first sample.
    pub fn reset(&mut self)
        requires
            old(self).wf(),
        ensures
            final(self).wf(),
            final(self)@ == (old(self)@.0, 0int, old(self)@.2),
    {
        self.index = 0;
    }
}

/// Steps a one-based sample id cursor over `sample_count` samples: the id of
/// the next sample, or none at the end.
pub fn next_sample_id(sample_index: &mut usize, sample_count: usize) -> (r: Option<u32>)
    ensures
        *old(sample_index) < sample_count ==> r == Some((*old(sample_index) + 1) as u32)
            && *final(sample_index) == *old(sample_index) + 1,
        *old(sample_index) >= sample_count ==> r is None && *final(sample_index) == *old(sample_index),
{
    if *sample_index >= sample_count {
        return None;
    }
    let id = (*sample_index + 1) as u32;
    *sample_index = *sample_index + 1;
    Some(id)
}

/// The first sample description of a track, as far as choosing a decoder needs it.
#[derive(Debug, Clone, PartialEq, Eq)]
pub enum SampleEntryKind {
    /// A video entry coded as AV1.
    Av1,
    /// A video entry coded as H.264, with its `avcC` record when it has one.
    H264(Option<Vec<u8>>),
    /// A video entry in another codec.
    OtherVideo,
    /// An entry that is not video.
    NotVideo,
}

/// What the first container reader reports of a track.
#[derive(Debug, Clone, PartialEq, Eq)]
pub struct ParsedTrack {
    pub is_video: bool,
    /// Whether the track has a sample description box at all.
    pub has_stsd: bool,
    /// The first sample description, if the box lists any.
    pub first_entry: Option<SampleEntryKind>,
    pub timescale: Option<u64>,
}

/// The track chosen by the first reader: the first video track with an AV1 or
/// H.264 description (its index, timescale, codec and decoder configuration).
/// A video track without a description box, or with an empty one, ends the
/// search with nothing.
pub open spec fn parsed_track_choice(tracks: Seq<ParsedTrack>, i: int) -> Option<(int, u32, VideoCodec, Seq<u8>)>
    decreases tracks.len() - i,
{
    if i < 0 || i >= tracks.len() {
        None
    } else {
        let t = tracks[i];
        let ts: u32 = match t.timescale {
            Some(x) => x as u32,
            None => 1,
        };
        if !t.is_video {
            parsed_track_choice(tracks, i + 1)
        } else if !t.has_stsd || t.first_entry is None {
            None
        } else {
            match t.first_entry.unwrap() {
                SampleEntryKind::Av1 => Some((i, ts, VideoCodec::Av1, Seq::empty())),
                SampleEntryKind::H264(cfg) => Some((i, ts, VideoCodec::H264, match cfg {
                    Some(c) => c@,
                    None => Seq::empty(),
                })),
                _ => parsed_track_choice(tracks, i + 1),
            }
        }
    }
}

/// Chooses the video track to play among the tracks of the first reader.
pub fn select_parsed_track(tracks: &[ParsedTrack]) -> (r: Option<(usize, u32, VideoCodec, Vec<u8>)>)
    ensures
        match r {
            Some((i, ts, c, cfg)) => parsed_track_choice(tracks@, 0) == Some((i as int, ts, c, cfg@)),
            None => parsed_track_choice(tracks@, 0) is None,
        },
{
    let mut i: usize = 0;
    while i < tracks.len()
        invariant
            i <= tracks@.len(),
            parsed_track_choice(tracks@, 0) == parsed_track_choice(tracks@, i as int),
        decreases tracks@.len() - i,
    {
        let t = &tracks[i];
        let ts: u32 = match t.timescale {
            Some(x) => x as u32,
            None => 1,
        };
        if t.is_video {
            if !t.has_stsd {
                return None;
            }
            match &t.first_entry {
                None => return None,
                Some(SampleEntryKind::Av1) => return Some((i, ts, VideoCodec::Av1, Vec::new())),
                Some(SampleEntryKind::H264(cfg)) => {
                    let c = match cfg {
                        Some(v) => v.clone(),
                        None => Vec::new(),
                    };
                    return Some((i, ts, VideoCodec::H264, c));
                },
                _ => {},
            }
        }
        i = i + 1;
    }
    None
}

/// The media kind the second container reader reports for a track.
#[derive(Debug, Clone, Copy, PartialEq, Eq, Structural)]
pub enum Mp4MediaKind {
    H264,
    H265,
    Other,
}

/// What the second container reader reports of a track.
#[derive(Debug, Clone, PartialEq, Eq)]
pub struct TrackSummary {
    pub track_id: u32,
    /// The track type could be read and is video.
    pub is_video: bool,
    /// The media type, when it could be read.
    pub media: Option<Mp4MediaKind>,
    pub timescale: u32,
    pub sample_count: u32,
    /// The first sequence parameter set, when it could be read.
    pub sps: Option<Vec<u8>>,
    /// The first picture parameter set, when it could be read.
    pub pps: Option<Vec<u8>>,
}

/// The 16-bit big-endian form of `n` (as the `u16` it is cast to).
pub open spec fn be16(n: nat) -> Seq<u8> {
    seq![((n % 65536) / 256) as u8, (n % 256) as u8]
}

/// An `avcC` record for one SPS and one PPS: version 1, profile,
/// compatibility and level from the SPS, 4-byte NAL lengths, then each set
/// after its 16-bit length. Empty without both sets or with an SPS shorter
/// than four bytes.
pub open spec fn avcc_record(sps: Option<Seq<u8>>, pps: Option<Seq<u8>>) -> Seq<u8> {
    match (sps, pps) {
        (Some(s), Some(p)) => if s.len() < 4 {
            Seq::empty()
        } else {
            seq![1u8, s[1], s[2], s[3], 0xffu8, 0xe1u8] + be16(s.len()) + s + seq![1u8] + be16(p.len())
                + p
        },
        _ => Seq::empty(),
    }
}

fn push_all(out: &mut Vec<u8>, src: &[u8])
    ensures
        final(out)@ == old(out)@ + src@,
{
    let mut i: usize = 0;
    while i < src.len()
        invariant
            i <= src@.len(),
            out@ == old(out)@ + src@.take(i as int),
        decreases src@.len() - i,
    {
        out.push(src[i]);
        i = i + 1;
        assert(out@ =~= old(out)@ + src@.take(i as int));
    }
    assert(src@.take(i as int) =~= src@);
}

fn push_be16(out: &mut Vec<u8>, n: usize)
    ensures
        final(out)@ == old(out)@ + be16(n as nat),
{
    let m = n % 65536;
    out.push((m / 256) as u8);
    out.push((m % 256) as u8);
    assert(m % 256 == n % 256) by (nonlinear_arith)
        requires
            m == n % 65536,
    ;
    assert(final(out)@ =~= old(out)@ + be16(n as nat));
}

/// Builds the `avcC` record of an H.264 track from its parameter sets.
pub fn avcc_from_parameter_sets(sps: Option<&[u8]>, pps: Option<&[u8]>) -> (r: Vec<u8>)
    ensures
        r@ == avcc_record(
            match sps {
                Some(s) => Some(s@),
                None => None,
            },
            match pps {
                Some(p) => Some(p@),
                None => None,
            },
        ),
{
    match (sps, pps) {
        (Some(s), Some(p)) => {
            if s.len() < 4 {
                return Vec::new();
            }
            let mut out: Vec<u8> = Vec::new();
            out.push(1);
            out.push(s[1]);
            out.push(s[2]);
            out.push(s[3]);
            out.push(0xff);
            out.push(0xe0 | 1);
            assert(0xe0u8 | 1u8 == 0xe1u8) by (bit_vector);
            push_be16(&mut out, s.len());
            push_all(&mut out, s);
            out.push(1);
            push_be16(&mut out, p.len());
            push_all(&mut out, p);
            assert(out@ =~= seq![1u8, s@[1], s@[2], s@[3], 0xffu8, 0xe1u8] + be16(s@.len()) + s@
                + seq![1u8] + be16(p@.len()) + p@);
            out
        },
        _ => Vec::new(),
    }
}

/// The track chosen by the second reader: the first video track, in the
/// order given, whose media type is H.264 or H.265 (its id, codec, decoder
/// configuration, timescale and sample count).
pub open spec fn summary_choice(tracks: Seq<TrackSummary>, i: int) -> Option<(u32, VideoCodec, Seq<u8>, u32, u32)>
    decreases tracks.len() - i,
{
    if i < 0 || i >= tracks.len() {
        None
    } else {
        let t = tracks[i];
        if t.is_video && t.media == Some(Mp4MediaKind::H264) {
            Some((t.track_id, VideoCodec::H264, avcc_record(
                match t.sps {
                    Some(v) => Some(v@),
                    None => None,
                },
                match t.pps {
                    Some(v) => Some(v@),
                    None => None,
                },
            ), t.timescale, t.sample_count))
        } else if t.is_video && t.media == Some(Mp4MediaKind::H265) {
            Some((t.track_id, VideoCodec::H265, Seq::empty(), t.timescale, t.sample_count))
        } else {
            summary_choice(tracks, i + 1)
        }
    }
}

/// Chooses the video track to play among the tracks of the second reader.
pub fn select_summary_track(tracks: &[TrackSummary]) -> (r: Option<(u32, VideoCodec, Vec<u8>, u32, u32)>)
    ensures
        match r {
            Some((id, c, cfg, ts, n)) => summary_choice(tracks@, 0) == Some((id, c, cfg@, ts, n)),
            None => summary_choice(tracks@, 0) is None,
        },
{
    let mut i: usize = 0;
    while i < tracks.len()
        invariant
            i <= tracks@.len(),
            summary_choice(tracks@, 0) == summary_choice(tracks@, i as int),
        decreases tracks@.len() - i,
    {
        let t = &tracks[i];
        if t.is_video {
            match t.media {
                Some(Mp4MediaKind::H264) => {
                    let sps = match &t.sps {
                        Some(v) => Some(v.as_slice()),
                        None => None,
                    };
                    let pps = match &t.pps {
                        Some(v) => Some(v.as_slice()),
                        None => None,
                    };
                    let cfg = avcc_from_parameter_sets(sps, pps);
                    return Some((t.track_id, VideoCodec::H264, cfg, t.timescale, t.sample_count));
                },
                Some(Mp4MediaKind::H265) => {
                    return Some((t.track_id, VideoCodec::H265, Vec::new(), t.timescale, t.sample_count));
                },
                _ => {},
            }
        }
        i = i + 1;
    }
    None
}

/// The second reader plays the first H.264 or H.265 video track. For an
/// H.264 track with an SPS of at least four bytes and a PPS, the decoder
/// configuration is the `avcC` record carrying both: version 1, profile,
/// compatibility and level copied from the SPS, 4-byte NAL lengths, one SPS
/// after its 16-bit big-endian length, then one PPS after its length. An
/// H.265 track gets no configuration from this reader.
pub proof fn law_summary_choice_configures_decoder(tracks: Seq<TrackSummary>)
    ensures
        summary_choice(tracks, 0) matches Some((id, codec, cfg, ts, n)) ==> exists|i: int| {
            &&& 0 <= i < tracks.len()
            &&& #[trigger] tracks[i].track_id == id && tracks[i].is_video
            &&& ts == tracks[i].timescale && n == tracks[i].sample_count
            &&& forall|k: int| 0 <= k < i ==> !(tracks[k].is_video && (tracks[k].media == Some(Mp4MediaKind::H264)
                || tracks[k].media == Some(Mp4MediaKind::H265)))
            &&& codec == VideoCodec::H265 ==> tracks[i].media == Some(Mp4MediaKind::H265) && cfg.len() == 0
            &&& codec == VideoCodec::H264 ==> tracks[i].media == Some(Mp4MediaKind::H264) && match (tracks[i].sps, tracks[i].pps) {
                (Some(sps), Some(pps)) => if sps@.len() >= 4 {
                    let s = sps@;
                    let p = pps@;
                    let sl = s.len() as int;
                    let pl = p.len() as int;
                    &&& cfg.len() == 11 + s.len() + p.len()
                    &&& cfg[0] == 1 && cfg[1] == s[1] && cfg[2] == s[2] && cfg[3] == s[3]
                    &&& cfg[4] == 0xff && cfg[5] == 0xe1
                    &&& cfg[6] * 256 + cfg[7] == s.len() % 65536
                    &&& cfg.subrange(8, 8 + sl) == s
                    &&& cfg[8 + sl] == 1
                    &&& cfg[9 + sl] * 256 + cfg[10 + sl] == p.len() % 65536
                    &&& cfg.subrange(11 + sl, 11 + sl + pl) == p
                } else {
                    cfg.len() == 0
                },
                _ => cfg.len() == 0,
            }
        },
        summary_choice(tracks, 0) is None ==> forall|k: int| 0 <= k < tracks.len() ==> !(#[trigger] tracks[k].is_video
            && (tracks[k].media == Some(Mp4MediaKind::H264) || tracks[k].media == Some(Mp4MediaKind::H265))),
{
    lemma_summary_choice_from(tracks, 0);
}

proof fn lemma_be16_value(n: nat)
    ensures
        be16(n)[0] * 256 + be16(n)[1] == n % 65536,
{
    let m = n % 65536;
    assert(m / 256 < 256) by (nonlinear_arith)
        requires
            m < 65536,
    ;
    assert(m % 256 == n % 256) by (nonlinear_arith)
        requires
            m == n % 65536,
    ;
    assert((m / 256) * 256 + m % 256 == m) by (nonlinear_arith);
}

proof fn lemma_summary_choice_from(tracks: Seq<TrackSummary>, j: int)
    requires
        0 <= j <= tracks.len(),
        forall|k: int| 0 <= k < j ==> !(#[trigger] tracks[k].is_video && (tracks[k].media == Some(Mp4MediaKind::H264)
            || tracks[k].media == Some(Mp4MediaKind::H265))),
    ensures
        summary_choice(tracks, j) matches Some((id, codec, cfg, ts, n)) ==> exists|i: int| {
            &&& 0 <= i < tracks.len()
            &&& #[trigger] tracks[i].track_id == id && tracks[i].is_video
            &&& ts == tracks[i].timescale && n == tracks[i].sample_count
            &&& forall|k: int| 0 <= k < i ==> !(tracks[k].is_video && (tracks[k].media == Some(Mp4MediaKind::H264)
                || tracks[k].media == Some(Mp4MediaKind::H265)))
            &&& codec == VideoCodec::H265 ==> tracks[i].media == Some(Mp4MediaKind::H265) && cfg.len() == 0
            &&& codec == VideoCodec::H264 ==> tracks[i].media == Some(Mp4MediaKind::H264) && match (tracks[i].sps, tracks[i].pps) {
                (Some(sps), Some(pps)) => if sps@.len() >= 4 {
                    let s = sps@;
                    let p = pps@;
                    let sl = s.len() as int;
                    let pl = p.len() as int;
                    &&& cfg.len() == 11 + s.len() + p.len()
                    &&& cfg[0] == 1 && cfg[1] == s[1] && cfg[2] == s[2] && cfg[3] == s[3]
                    &&& cfg[4] == 0xff && cfg[5] == 0xe1
                    &&& cfg[6] * 256 + cfg[7] == s.len() % 65536
                    &&& cfg.subrange(8, 8 + sl) == s
                    &&& cfg[8 + sl] == 1
                    &&& cfg[9 + sl] * 256 + cfg[10 + sl] == p.len() % 65536
                    &&& cfg.subrange(11 + sl, 11 + sl + pl) == p
                } else {
                    cfg.len() == 0
                },
                _ => cfg.len() == 0,
            }
        },
        summary_choice(tracks, j) is None ==> forall|k: int| 0 <= k < tracks.len() ==> !(#[trigger] tracks[k].is_video
            && (tracks[k].media == Some(Mp4MediaKind::H264) || tracks[k].media == Some(Mp4MediaKind::H265))),
    decreases tracks.len() - j,
{
    if j < tracks.len() {
        let t = tracks[j];
        if t.is_video && t.media == Some(Mp4MediaKind::H264) {
            match (t.sps, t.pps) {
                (Some(sps), Some(pps)) => {
                    if sps@.len() >= 4 {
                        let s = sps@;
                        let p = pps@;
                    let sl = s.len() as int;
                    let pl = p.len() as int;
                        let cfg = avcc_record(Some(s), Some(p));
                        lemma_be16_value(s.len());
                        lemma_be16_value(p.len());
                        assert(cfg[6] == be16(s.len())[0] && cfg[7] == be16(s.len())[1]);
                        assert(cfg.subrange(8, 8 + sl) =~= s);
                        assert(cfg[9 + sl] == be16(p.len())[0] && cfg[10 + sl] == be16(p.len())[1]);
                        assert(cfg.subrange(11 + sl, 11 + sl + pl) =~= p);
                    }
                },
                _ => {},
            }
            assert(tracks[j].track_id == t.track_id);
        } else if t.is_video && t.media == Some(Mp4MediaKind::H265) {
            assert(tracks[j].track_id == t.track_id);
        } else {
            lemma_summary_choice_from(tracks, j + 1);
        }
    }
}

/// What a keyframe search over samples read by id asks for next.
#[derive(Debug, Clone, Copy, PartialEq, Eq, Structural)]
pub enum SearchStep {
    /// Read the sample with this one-based id and feed back its start time and sync flag.
    Read(u32),
    /// The search is over: decoding restarts at this zero-based sample index.
    Found(usize),
}

/// The position the keyframe scan starts from once the binary search has
/// stopped at `lo`: one sample back, but not before the first.
pub open spec fn scan_start(lo: u64) -> u64 {
    if lo >= 2 {
        (lo - 1) as u64
    } else {
        1
    }
}

/// A keyframe search over samples that can only be read one by one: a binary
/// search for the first sample starting after the target, then a scan from
/// one sample before it for the first sync sample.
#[derive(Debug, Clone, Copy, PartialEq, Eq, Structural)]
pub struct KeyframeSearch {
    /// The target in ticks (a negative target is taken as its 64-bit pattern).
    pub target: u64,
    pub sample_count: u32,
    pub lo: u64,
    pub hi: u64,
    pub scanning: bool,
    pub start: u64,
    pub sid: u64,
    pub found: Option<u64>,
}

impl KeyframeSearch {
    /// The search's positions stay within the samples.
    pub open spec fn wf(&self) -> bool {
        &&& 1 <= self.lo <= self.hi <= self.sample_count as int + 1
        &&& !self.scanning && self.found is None && self.sample_count > 0 ==> self.lo < self.hi
        &&& self.scanning ==> 1 <= self.start <= self.sid <= self.sample_count as int + 1
        &&& self.scanning ==> self.start <= self.sample_count
        &&& self.found matches Some(f) ==> self.scanning && f < self.sample_count
    }

    /// The middle of the binary search's range.
    pub open spec fn mid(&self) -> u64 {
        (self.lo + (self.hi - self.lo) / 2) as u64
    }

    /// What the search asks for in its current state.
    pub open spec fn planned_step(&self) -> SearchStep {
        if self.sample_count == 0 {
            SearchStep::Found(0)
        } else if self.found is Some {
            SearchStep::Found(self.found.unwrap() as usize)
        } else if !self.scanning {
            SearchStep::Read(self.mid() as u32)
        } else if self.sid <= self.sample_count {
            SearchStep::Read(self.sid as u32)
        } else {
            SearchStep::Found((self.start - 1) as usize)
        }
    }

    /// The state after the sample asked for was read (`None` when it could not be).
    pub open spec fn after_read(&self, sample: Option<(u64, bool)>) -> KeyframeSearch {
        if !self.scanning {
            let time = match sample {
                Some(x) => x.0,
                None => 0,
            };
            let lo = if time <= self.target {
                (self.mid() + 1) as u64
            } else {
                self.lo
            };
            let hi = if time <= self.target {
                self.hi
            } else {
                self.mid()
            };
            if lo < hi {
                KeyframeSearch { lo, hi, ..*self }
            } else {
                KeyframeSearch { lo, hi, scanning: true, start: scan_start(lo), sid: scan_start(lo), ..*self }
            }
        } else {
            match sample {
                Some((_, true)) => KeyframeSearch { found: Some((self.sid - 1) as u64), ..*self },
                _ => KeyframeSearch { sid: (self.sid + 1) as u64, ..*self },
            }
        }
    }

    /// How many more reads the search can ask for, at most.
    pub open spec fn remaining(&self) -> nat {
        if self.found is Some {
            0
        } else if !self.scanning {
            ((self.hi - self.lo) + self.sample_count + 2) as nat
        } else {
            (self.sample_count + 2 - self.sid) as nat
        }
    }

    /// A search for the keyframe at or after the last sample starting no later
    /// than `target` among `sample_count` samples.
    pub fn new(sample_count: u32, target: i64) -> (r: KeyframeSearch)
        ensures
            r.wf(),
            r.target == target as u64,
            r.sample_count == sample_count,
            r.lo == 1 && r.hi == sample_count + 1,
            !r.scanning && r.found is None,
    {
        KeyframeSearch {
            target: target as u64,
            sample_count,
            lo: 1,
            hi: sample_count as u64 + 1,
            scanning: false,
            start: 0,
            sid: 0,
            found: None,
        }
    }

    /// What the search asks for next.
    pub fn next_step(&self) -> (r: SearchStep)
        requires
            self.wf(),
        ensures
            r == self.planned_step(),
    {
        if self.sample_count == 0 {
            SearchStep::Found(0)
        } else if let Some(f) = self.found {
            SearchStep::Found(f as usize)
        } else if !self.scanning {
            SearchStep::Read((self.lo + (self.hi - self.lo) / 2) as u32)
        } else if self.sid <= self.sample_count as u64 {
            SearchStep::Read(self.sid as u32)
        } else {
            SearchStep::Found((self.start - 1) as usize)
        }
    }

    /// Feeds back the sample asked for: its start time and sync flag, or
    /// `None` when it could not be read.
    pub fn feed(&mut self, sample: Option<(u64, bool)>)
        requires
            old(self).wf(),
            old(self).planned_step() is Read,
        ensures
            *final(self) == old(self).after_read(sample),
            final(self).wf(),
    {
        if !self.scanning {
            let mid = self.lo + (self.hi - self.lo) / 2;
            let time = match sample {
                Some(x) => x.0,
                None => 0,
            };
            if time <= self.target {
                self.lo = mid + 1;
            } else {
                self.hi = mid;
            }
            if self.lo >= self.hi {
                let st = if self.lo >= 2 {
                    self.lo - 1
                } else {
                    1
                };
                self.scanning = true;
                self.start = st;
                self.sid = st;
            }
        } else {
            match sample {
                Some((_, true)) => {
                    self.found = Some(self.sid - 1);
                },
                _ => {
                    self.sid = self.sid + 1;
                },
            }
        }
    }
}

/// Every sample read brings the search strictly closer to its end, so a
/// search fed one answer per request always finishes.
pub proof fn law_keyframe_search_progresses(st: KeyframeSearch, sample: Option<(u64, bool)>)
    requires
        st.wf(),
        st.planned_step() is Read,
    ensures
        st.after_read(sample).wf(),
        st.after_read(sample).remaining() < st.remaining(),
{
}

/// A finished search names a sample of the track (or 0 for an empty track).
pub proof fn law_keyframe_search_result_in_range(st: KeyframeSearch)
    requires
        st.wf(),
        st.planned_step() is Found,
    ensures
        match st.planned_step() {
            SearchStep::Found(i) => i < st.sample_count || i == 0,
            _ => true,
        },
{
}

/// Samples (start time in ticks, sync flag) in non-decreasing start order.
pub open spec fn starts_sorted(s: Seq<(u64, bool)>) -> bool {
    forall|i: int, j: int| 0 <= i <= j < s.len() ==> s[i].0 <= s[j].0
}

/// The sample a search in state `st` asks for, read from `s` (sample id `k`
/// is `s[k - 1]`).
pub open spec fn sample_asked(st: KeyframeSearch, s: Seq<(u64, bool)>) -> Option<(u64, bool)> {
    match st.planned_step() {
        SearchStep::Read(id) => if 1 <= id <= s.len() {
            Some(s[id - 1])
        } else {
            None
        },
        _ => None,
    }
}

/// The search after answering up to `fuel` of its requests from `s`.
pub open spec fn search_over(st: KeyframeSearch, s: Seq<(u64, bool)>, fuel: nat) -> KeyframeSearch
    decreases fuel,
{
    if fuel == 0 || !(st.planned_step() is Read) {
        st
    } else {
        search_over(st.after_read(sample_asked(st, s)), s, (fuel - 1) as nat)
    }
}

/// `i` is where decoding restarts for a seek to `target` over `s`, scanning
/// from `p`: `p` is the last sample starting at or before the target (or the
/// first sample when none does), and `i` the first sync sample from `p` on,
/// or `p` itself when no sync sample follows.
pub open spec fn restart_point(s: Seq<(u64, bool)>, target: u64, p: int, i: int) -> bool {
    &&& 0 <= p <= i < s.len()
    &&& p > 0 ==> s[p].0 <= target
    &&& forall|k: int| p < k < s.len() ==> s[k].0 > target
    &&& forall|k: int| p <= k < i ==> !(#[trigger] s[k]).1
    &&& s[i].1 || (i == p && forall|k: int| p <= k < s.len() ==> !(#[trigger] s[k]).1)
}

/// What the search keeps true about the samples it has read.
spec fn search_inv(st: KeyframeSearch, s: Seq<(u64, bool)>) -> bool {
    &&& st.wf()
    &&& st.sample_count == s.len()
    &&& s.len() > 0
    &&& forall|k: int| 0 <= k < st.lo - 1 ==> (#[trigger] s[k]).0 <= st.target
    &&& forall|k: int| st.hi - 1 <= k < s.len() ==> (#[trigger] s[k]).0 > st.target
    &&& st.scanning ==> st.lo == st.hi && st.start == scan_start(st.lo)
    &&& st.scanning ==> forall|k: int| st.start - 1 <= k < st.sid - 1 ==> !(#[trigger] s[k]).1
    &&& st.found matches Some(f) ==> f == st.sid - 1 && s[f as int].1
}

proof fn lemma_search_inv_step(st: KeyframeSearch, s: Seq<(u64, bool)>)
    requires
        search_inv(st, s),
        starts_sorted(s),
        st.planned_step() is Read,
    ensures
        search_inv(st.after_read(sample_asked(st, s)), s),
        st.after_read(sample_asked(st, s)).remaining() < st.remaining(),
{
    let smp = sample_asked(st, s);
    law_keyframe_search_progresses(st, smp);
    let nx = st.after_read(smp);
    if !st.scanning {
        let mid = st.mid();
        assert(st.lo <= mid < st.hi);
        assert(smp == Some(s[mid - 1]));
        let time = s[mid - 1].0;
        if time <= st.target {
            assert forall|k: int| 0 <= k < nx.lo - 1 implies (#[trigger] s[k]).0 <= nx.target by {
                if k >= st.lo - 1 {
                    assert(s[k].0 <= s[mid - 1].0);
                }
            }
        } else {
            assert forall|k: int| nx.hi - 1 <= k < s.len() implies (#[trigger] s[k]).0 > nx.target by {
                if k < st.hi - 1 {
                    assert(s[mid - 1].0 <= s[k].0);
                }
            }
        }
    } else {
        assert(smp == Some(s[st.sid - 1]));
    }
}

proof fn lemma_search_ends(st: KeyframeSearch, s: Seq<(u64, bool)>, fuel: nat)
    requires
        search_inv(st, s),
        starts_sorted(s),
        fuel > st.remaining(),
    ensures
        search_inv(search_over(st, s, fuel), s),
        search_over(st, s, fuel).planned_step() is Found,
        search_over(st, s, fuel).target == st.target,
    decreases fuel,
{
    if st.planned_step() is Read {
        lemma_search_inv_step(st, s);
        lemma_search_ends(st.after_read(sample_asked(st, s)), s, (fuel - 1) as nat);
    }
}

/// A keyframe search over samples read by id, started as `new` starts it and
/// given each sample it asks for, ends on the sample where decoding must
/// restart: from the last sample starting at or before the target (so a
/// target exactly on a sample's start time includes that sample), the first
/// sync sample.
pub proof fn law_keyframe_search_finds_restart_point(st: KeyframeSearch, s: Seq<(u64, bool)>)
    requires
        st.wf(),
        !st.scanning,
        st.found is None,
        st.lo == 1,
        st.hi == st.sample_count + 1,
        st.sample_count == s.len(),
        s.len() > 0,
        starts_sorted(s),
    ensures
        search_over(st, s, st.remaining() + 1).planned_step() matches SearchStep::Found(i) && exists|p: int|
            #[trigger] restart_point(s, st.target, p, i as int),
{
    let fin = search_over(st, s, st.remaining() + 1);
    lemma_search_ends(st, s, st.remaining() + 1);
    let p = fin.start - 1;
    if let SearchStep::Found(i) = fin.planned_step() {
        assert(fin.scanning);
        assert(fin.lo == fin.hi);
        if fin.found is Some {
            assert(i as int == fin.sid - 1);
        } else {
            assert(fin.sid == fin.sample_count + 1);
            assert(i as int == p);
        }
        let ii = i as int;
        assert(0 <= p <= ii < s.len());
        assert(s[p].0 == s[p].0);
        assert(p > 0 ==> s[p].0 <= st.target);
        assert(forall|k: int| p < k < s.len() ==> s[k].0 > st.target);
        assert(forall|k: int| p <= k < ii ==> !(#[trigger] s[k]).1);
        assert(s[ii].1 || (ii == p && forall|k: int| p <= k < s.len() ==> !(#[trigger] s[k]).1));
        let target = st.target;
        assert(restart_point(s, target, p, ii));
    }
}

} // verus!
