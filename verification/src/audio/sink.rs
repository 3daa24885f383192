//! Null audio sink for machines without an output device.
use vstd::prelude::*;
use crate::audio::ring::fits;
use crate::error::PlayerError;

verus! {

/// Discards samples; the player then drives its clock from wall time.
pub struct VirtualAudioOutput {
    channels: u16,
    sample_rate: u32,
    paused: bool,
    volume_permille: u32,
}

impl VirtualAudioOutput {
    pub closed spec fn spec_channels(&self) -> u16 {
        self.channels
    }

    pub closed spec fn spec_sample_rate(&self) -> u32 {
        self.sample_rate
    }

    pub closed spec fn spec_paused(&self) -> bool {
        self.paused
    }

    /// Volume in thousandths of full scale.
    pub closed spec fn spec_volume(&self) -> u32 {
        self.volume_permille
    }

    /// An unpaused sink at full volume.
    pub fn new(sample_rate: u32, channels: u16) -> (s: Self)
        ensures
            s.spec_channels() == channels,
            s.spec_sample_rate() == sample_rate,
            !s.spec_paused(),
            s.spec_volume() == 1000,
    {
        Self { channels, sample_rate, paused: false, volume_permille: 1000 }
    }

    /// Accepts and discards the samples; never fails.
    pub fn write<T>(&self, samples: &[T]) -> (r: Result<(), PlayerError>)
        ensures
            r is Ok,
    {
        let _ = samples.len();
        Ok(())
    }

    pub fn pause(&mut self)
        ensures
            final(self).spec_paused(),
            final(self).spec_channels() == old(self).spec_channels(),
            final(self).spec_sample_rate() == old(self).spec_sample_rate(),
            final(self).spec_volume() == old(self).spec_volume(),
    {
        self.paused = true;
    }

    pub fn resume(&mut self)
        ensures
            !final(self).spec_paused(),
            final(self).spec_channels() == old(self).spec_channels(),
            final(self).spec_sample_rate() == old(self).spec_sample_rate(),
            final(self).spec_volume() == old(self).spec_volume(),
    {
        self.paused = false;
    }

    /// Nothing is buffered, so there is nothing to clear.
    pub fn clear(&self) {
    }

    pub fn channels(&self) -> (c: u16)
        ensures
            c == self.spec_channels(),
    {
        self.channels
    }

    pub fn sample_rate(&self) -> (r: u32)
        ensures
            r == self.spec_sample_rate(),
    {
        self.sample_rate
    }

    /// Sets the volume in thousandths, clamped to at most 1000.
    pub fn set_volume_permille(&mut self, permille: u32)
        ensures
            final(self).spec_volume() == if permille > 1000 {
                1000
            } else {
                permille
            },
            final(self).spec_paused() == old(self).spec_paused(),
            final(self).spec_channels() == old(self).spec_channels(),
            final(self).spec_sample_rate() == old(self).spec_sample_rate(),
    {
        self.volume_permille = if permille > 1000 {
            1000
        } else {
            permille
        };
    }

    pub fn volume_permille(&self) -> (v: u32)
        ensures
            v == self.spec_volume(),
    {
        self.volume_permille
    }
}

/// Whether opening the audio device failed in a way the player survives by
/// playing through a virtual sink: a missing or unusable output device.
/// Other errors are passed on.
pub fn falls_back_to_virtual(e: &PlayerError) -> (r: bool)
    ensures
        r == (*e is AudioOutput),
{
    match e {
        PlayerError::AudioOutput(_) => true,
        _ => false,
    }
}

/// The output ring's capacity: half a second of interleaved samples, plus
/// the one slot the ring keeps free, so that a fresh ring takes the whole
/// half second.
pub fn output_ring_capacity(sample_rate: u32, channels: u16) -> (r: usize)
    requires
        sample_rate * channels / 2 + 1 <= usize::MAX,
    ensures
        r == sample_rate * channels / 2 + 1,
        fits(0, r as nat, (sample_rate * channels / 2) as nat) == sample_rate * channels / 2,
{
    assert((sample_rate as u64) * (channels as u64) <= u32::MAX * u16::MAX) by (nonlinear_arith)
        requires
            sample_rate <= u32::MAX,
            channels <= u16::MAX,
    ;
    ((sample_rate as u64) * (channels as u64) / 2 + 1) as usize
}

/// Whole frames in `samples` interleaved samples of `channels` channels.
pub fn frames_in(samples: usize, channels: u16) -> (r: u64)
    requires
        channels > 0,
    ensures
        r == (samples as int) / (channels as int),
{
    (samples / channels as usize) as u64
}

} // verus!
