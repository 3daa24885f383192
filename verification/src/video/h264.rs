//! H.264 access units: MP4 samples turned into the Annex B stream the
//! decoder reads, with the parameter sets repeated before every keyframe.
//!
//! The decoder itself is driven by the application through its C interface.
use vstd::prelude::*;
use crate::video::nal::{
    annex_b_of, clamp_prefix, extradata_annex_b, extradata_to_annex_b, mp4_sample_to_annex_b,
    nal_length_size_from_extradata, nal_length_size_of,
};

verus! {

/// The Annex B input for one H.264 sample: the sample's NAL units, preceded
/// on keyframes by the parameter sets from the decoder configuration (when
/// there are any).
pub open spec fn h264_access_unit(param_sets: Seq<u8>, nal_length_size: u8, data: Seq<u8>, is_keyframe: bool) -> Seq<u8> {
    let sample = annex_b_of(data, clamp_prefix(nal_length_size));
    if is_keyframe && param_sets.len() > 0 {
        param_sets + sample
    } else {
        sample
    }
}

/// What an H.264 stream's decoder configuration gives the sample conversion.
pub struct H264Stream {
    nal_length_size: u8,
    param_sets: Vec<u8>,
}

impl View for H264Stream {
    type V = (u8, Seq<u8>);

    closed spec fn view(&self) -> (u8, Seq<u8>) {
        (self.nal_length_size, self.param_sets@)
    }
}

impl H264Stream {
    /// Reads the NAL length size and the Annex B parameter sets from an avcC record.
    pub fn new(extradata: &[u8]) -> (r: H264Stream)
        ensures
            r@ == (nal_length_size_of(extradata@), extradata_annex_b(extradata@)),
    {
        H264Stream {
            nal_length_size: nal_length_size_from_extradata(extradata),
            param_sets: extradata_to_annex_b(extradata),
        }
    }

    /// The bytes of the NAL length prefixes.
    pub fn nal_length_size(&self) -> (r: u8)
        ensures
            r == self@.0,
    {
        self.nal_length_size
    }

    /// The Annex B stream handed to the decoder for one sample.
    pub fn access_unit(&self, data: &[u8], is_keyframe: bool) -> (r: Vec<u8>)
        ensures
            r@ == h264_access_unit(self@.1, self@.0, data@, is_keyframe),
    {
        let sample = mp4_sample_to_annex_b(data, self.nal_length_size);
        if is_keyframe && self.param_sets.len() > 0 {
            let mut buf: Vec<u8> = Vec::new();
            let mut i: usize = 0;
            while i < self.param_sets.len()
                invariant
                    i <= self.param_sets@.len(),
                    buf@ == self.param_sets@.take(i as int),
                decreases self.param_sets@.len() - i,
            {
                buf.push(self.param_sets[i]);
                i = i + 1;
                assert(buf@ =~= self.param_sets@.take(i as int));
            }
            let mut j: usize = 0;
            assert(self.param_sets@.take(i as int) =~= self.param_sets@);
            while j < sample.len()
                invariant
                    j <= sample@.len(),
                    buf@ == self.param_sets@ + sample@.take(j as int),
                decreases sample@.len() - j,
            {
                buf.push(sample[j]);
                j = j + 1;
                assert(buf@ =~= self.param_sets@ + sample@.take(j as int));
            }
            assert(sample@.take(j as int) =~= sample@);
            buf
        } else {
            sample
        }
    }
}

/// The byte lengths of the luma and chroma planes a decoder returns for a
/// picture `height` rows high with the given row strides (chroma has half
/// the rows, rounded up); none when a length exceeds `usize`.
pub fn decoded_plane_lengths(height: u32, y_stride: usize, uv_stride: usize) -> (r: Option<(usize, usize)>)
    ensures
        match r {
            Some((y, uv)) => y == y_stride * height && uv == uv_stride * ((height + 1) / 2),
            None => y_stride * height > usize::MAX || uv_stride * ((height + 1) / 2) > usize::MAX,
        },
{
    let h = height as usize;
    let uv_h = ((height as u64 + 1) / 2) as usize;
    match (y_stride.checked_mul(h), uv_stride.checked_mul(uv_h)) {
        (Some(y), Some(uv)) => Some((y, uv)),
        _ => None,
    }
}

} // verus!
