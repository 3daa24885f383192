//! H.265 decoding: MP4 samples turned into Annex B access units (with the
//! parameter sets sent once, before the first keyframe) and decoded into
//! 8-bit I420 frames.
use vstd::prelude::*;
use vstd::string::StringExecFns;
use rust_h265::{Decoder, NalUnit, PixelData};
use crate::error::PlayerError;
use crate::video::demux::VideoPacket;
use crate::video::frame::{half_up, i420_fits, i420_fits_exec, pack_i420, plane_copied, zeros, DecodedFrame};
use crate::video::nal::{
    annex_b_of, clamp_prefix, extradata_annex_b, extradata_to_annex_b, mp4_sample_to_annex_b,
    nal_length_size_from_extradata, nal_length_size_of,
};

verus! {

/// Declares the decoder type of `rust_h265`.
#[verifier::external_type_specification]
#[verifier::external_body]
pub struct ExHevcDecoder(rust_h265::Decoder);

/// Declares the NAL unit type of `rust_h265`.
#[verifier::external_type_specification]
#[verifier::external_body]
pub struct ExHevcNalUnit<'a>(rust_h265::NalUnit<'a>);

/// The number of NAL units `rust_h265::parse_annex_b` finds in `data`.
pub uninterp spec fn annex_b_unit_count(data: Seq<u8>) -> nat;

/// `rust_h265::Decoder::new`: a decoder that returns pictures in decoding
/// order. Nothing is claimed of it.
#[verifier::external_body]
fn new_hevc_decoder() -> Decoder {
    Decoder::new()
}

/// `rust_h265::parse_annex_b`: splits an Annex B stream into NAL units. The
/// claim is only that the count is a function of the bytes.
#[verifier::external_body]
fn parse_nal_units(data: &[u8]) -> (r: Vec<NalUnit<'_>>)
    ensures
        r@.len() == annex_b_unit_count(data@),
{
    rust_h265::parse_annex_b(data)
}

/// A decoded picture as plain values: each plane's samples when they are
/// 8-bit, none when they are deeper.
pub struct HevcPicture {
    pub width: u32,
    pub height: u32,
    pub bit_depth: u8,
    pub y: Option<Vec<u8>>,
    pub u: Option<Vec<u8>>,
    pub v: Option<Vec<u8>>,
}

/// What feeding one NAL unit to the decoder gave.
pub enum NalOutcome {
    /// A picture finished decoding.
    Picture(HevcPicture),
    /// No picture finished (parameter sets, the middle of a picture, ...).
    NoPicture,
    /// The decoder reported an error for this unit.
    Failed,
}

/// `rust_h265::Decoder::decode_nal`: feeds one NAL unit and reports the
/// picture it finished, if any. Which picture comes out depends on the
/// decoder's state, so nothing is claimed of the result.
/// The decoder is fed arbitrary sample bytes here. Its source shows no
/// precondition and reports malformed input as an error, but that it never
/// panics on such input is not shown (the crate relies on fuzzing), so the
/// no-panic promise of `H265Decoder::decode` rests on that assumption.
#[verifier::external_body]
fn decode_nal_unit(decoder: &mut Decoder, nal: &NalUnit<'_>) -> (r: NalOutcome) {
    match decoder.decode_nal(nal) {
        Ok(Some(f)) => NalOutcome::Picture(HevcPicture {
            width: f.width,
            height: f.height,
            bit_depth: f.bit_depth,
            y: match f.y { PixelData::U8(p) => Some(p), PixelData::U16(_) => None },
            u: match f.u { PixelData::U8(p) => Some(p), PixelData::U16(_) => None },
            v: match f.v { PixelData::U8(p) => Some(p), PixelData::U16(_) => None },
        }),
        Ok(None) => NalOutcome::NoPicture,
        Err(_) => NalOutcome::Failed,
    }
}

/// `rust_h265::Decoder::flush`: the next picture still waiting at the end of
/// the stream, none once all are out. Which picture that is depends on the
/// decoder's state, so nothing is claimed of it.
/// That it never panics after malformed input is not shown either; the
/// no-panic promise of `H265Decoder::flush` rests on that assumption.
#[verifier::external_body]
fn flush_picture(decoder: &mut Decoder) -> (r: Option<HevcPicture>) {
    decoder.flush().map(|f| HevcPicture {
        width: f.width,
        height: f.height,
        bit_depth: f.bit_depth,
        y: match f.y { PixelData::U8(p) => Some(p), PixelData::U16(_) => None },
        u: match f.u { PixelData::U8(p) => Some(p), PixelData::U16(_) => None },
        v: match f.v { PixelData::U8(p) => Some(p), PixelData::U16(_) => None },
    })
}

/// The Annex B input for one H.265 sample: the sample's NAL units, preceded
/// by the parameter sets on the first keyframe while they are still unsent.
pub open spec fn h265_access_unit(param_sets: Seq<u8>, nal_length_size: u8, config_sent: bool, data: Seq<u8>, is_keyframe: bool) -> Seq<u8> {
    let sample = annex_b_of(data, clamp_prefix(nal_length_size));
    if is_keyframe && !config_sent {
        param_sets + sample
    } else {
        sample
    }
}

/// The sample conversion state of an H.265 stream: the NAL length size, the
/// Annex B parameter sets and whether they have been sent.
pub struct H265Stream {
    nal_length_size: u8,
    config_sent: bool,
    param_sets: Vec<u8>,
}

impl View for H265Stream {
    type V = (u8, bool, Seq<u8>);

    closed spec fn view(&self) -> (u8, bool, Seq<u8>) {
        (self.nal_length_size, self.config_sent, self.param_sets@)
    }
}

impl H265Stream {
    /// Reads the configuration record; without parameter sets there is
    /// nothing to send.
    pub fn new(extradata: &[u8]) -> (r: H265Stream)
        ensures
            r@ == (nal_length_size_of(extradata@), extradata_annex_b(extradata@).len() == 0, extradata_annex_b(extradata@)),
    {
        let param_sets = extradata_to_annex_b(extradata);
        H265Stream {
            nal_length_size: nal_length_size_from_extradata(extradata),
            config_sent: param_sets.len() == 0,
            param_sets,
        }
    }

    /// The Annex B stream for one sample; the first keyframe also sends the
    /// parameter sets, once.
    pub fn access_unit(&mut self, data: &[u8], is_keyframe: bool) -> (r: Vec<u8>)
        ensures
            r@ == h265_access_unit(old(self)@.2, old(self)@.0, old(self)@.1, data@, is_keyframe),
            final(self)@ == (old(self)@.0, old(self)@.1 || is_keyframe, old(self)@.2),
    {
        let sample = mp4_sample_to_annex_b(data, self.nal_length_size);
        if is_keyframe && !self.config_sent {
            self.config_sent = true;
            let mut buf = self.param_sets.clone();
            assert(buf@ == self.param_sets@);
            let mut j: usize = 0;
            let ghost ps = buf@;
            while j < sample.len()
                invariant
                    j <= sample@.len(),
                    buf@ == ps + sample@.take(j as int),
                decreases sample@.len() - j,
            {
                buf.push(sample[j]);
                j = j + 1;
                assert(buf@ =~= ps + sample@.take(j as int));
            }
            assert(sample@.take(j as int) =~= sample@);
            buf
        } else {
            if is_keyframe {
                self.config_sent = true;
            }
            sample
        }
    }
}

/// The picture has 8-bit planes that `pack_i420` can pack with rows of the
/// picture's width (chroma rows half of it, rounded down).
pub open spec fn packable(p: HevcPicture) -> bool {
    &&& p.y is Some && p.u is Some && p.v is Some
    &&& i420_fits(p.width, p.height, p.width as usize, (p.width / 2) as usize, (p.width / 2) as usize)
}

/// `f` is the I420 frame packed from the picture's planes and stamped `pts_us`.
pub open spec fn packed_from(f: DecodedFrame, p: HevcPicture, pts_us: i64) -> bool {
    let w = p.width as nat;
    let h = p.height as nat;
    let cw = half_up(w);
    let ch = half_up(h);
    &&& p.y is Some && p.u is Some && p.v is Some
    &&& f.pts_us == pts_us && f.width == p.width && f.height == p.height
    &&& f.y_stride == p.width && f.uv_stride == cw
    &&& plane_copied(p.y.unwrap()@, w as int, zeros(w * h), f.y_plane@, w as int, h as int)
    &&& plane_copied(p.u.unwrap()@, (w / 2) as int, zeros(cw * ch), f.u_plane@, cw as int, ch as int)
    &&& plane_copied(p.v.unwrap()@, (w / 2) as int, zeros(cw * ch), f.v_plane@, cw as int, ch as int)
}

/// The frame of a decoded 8-bit picture: its planes packed with rows of the
/// picture's width (chroma rows half of it, rounded down); an error when a
/// plane is not 8-bit or the picture is too large to address.
pub fn hevc_frame_to_decoded(p: &HevcPicture, pts_us: i64) -> (r: Result<DecodedFrame, PlayerError>)
    ensures
        match r {
            Ok(f) => packable(*p) && packed_from(f, *p, pts_us),
            Err(e) => e is VideoDecode && !packable(*p),
        },
{
    let y = match &p.y {
        Some(y) => y,
        None => return Err(PlayerError::VideoDecode(String::from_str("h265: expected 8-bit Y plane"))),
    };
    let u = match &p.u {
        Some(u) => u,
        None => return Err(PlayerError::VideoDecode(String::from_str("h265: expected 8-bit U plane"))),
    };
    let v = match &p.v {
        Some(v) => v,
        None => return Err(PlayerError::VideoDecode(String::from_str("h265: expected 8-bit V plane"))),
    };
    let w = p.width as usize;
    if !i420_fits_exec(p.width, p.height, w, w / 2, w / 2) {
        return Err(PlayerError::VideoDecode(String::from_str("h265: picture too large")));
    }
    Ok(pack_i420(pts_us, p.width, p.height, y.as_slice(), w, u.as_slice(), w / 2, v.as_slice(), w / 2))
}

/// The pictures among `pics` that become frames: 8-bit and packable.
pub open spec fn framed_pictures(pics: Seq<HevcPicture>) -> Seq<HevcPicture>
    decreases pics.len(),
{
    if pics.len() == 0 {
        Seq::empty()
    } else {
        framed_pictures(pics.drop_last()) + if pics.last().bit_depth == 8 && packable(pics.last()) {
            seq![pics.last()]
        } else {
            Seq::<HevcPicture>::empty()
        }
    }
}

/// The frames of the 8-bit pictures among `pics`, in order, each stamped
/// `pts_us`; pictures that cannot be packed are dropped.
pub fn frames_from_pictures(pics: &Vec<HevcPicture>, pts_us: i64) -> (r: Vec<DecodedFrame>)
    ensures
        r@.len() == framed_pictures(pics@).len(),
        forall|i: int| 0 <= i < r@.len() ==> packed_from(#[trigger] r@[i], framed_pictures(pics@)[i], pts_us),
{
    let mut out: Vec<DecodedFrame> = Vec::new();
    let mut i: usize = 0;
    while i < pics.len()
        invariant
            i <= pics@.len(),
            out@.len() == framed_pictures(pics@.take(i as int)).len(),
            forall|k: int| 0 <= k < out@.len() ==> packed_from(#[trigger] out@[k], framed_pictures(pics@.take(i as int))[k], pts_us),
        decreases pics@.len() - i,
    {
        let ghost before = framed_pictures(pics@.take(i as int));
        assert(pics@.take(i + 1).drop_last() =~= pics@.take(i as int));
        assert(pics@.take(i + 1).last() == pics@[i as int]);
        let p = &pics[i];
        if p.bit_depth == 8 {
            match hevc_frame_to_decoded(p, pts_us) {
                Ok(f) => {
                    out.push(f);
                    assert(framed_pictures(pics@.take(i + 1)) == before + seq![pics@[i as int]]);
                },
                Err(_) => {
                    assert(framed_pictures(pics@.take(i + 1)) =~= before);
                },
            }
        } else {
            assert(framed_pictures(pics@.take(i + 1)) =~= before);
        }
        i = i + 1;
    }
    assert(pics@.take(i as int) =~= pics@);
    out
}

/// What one decoder outcome contributes to a sample's frames: the frame of
/// a finished 8-bit picture, stamped `pts_us`; nothing for a deeper picture,
/// a unit that finished no picture, or a unit the decoder rejected; an error
/// for an 8-bit picture whose planes cannot be packed.
pub fn frame_of_outcome(o: NalOutcome, pts_us: i64) -> (r: Result<Option<DecodedFrame>, PlayerError>)
    ensures
        match o {
            NalOutcome::Picture(p) => if p.bit_depth == 8 {
                match r {
                    Ok(Some(f)) => packable(p) && packed_from(f, p, pts_us),
                    Err(e) => e is VideoDecode && !packable(p),
                    Ok(None) => false,
                }
            } else {
                r matches Ok(None)
            },
            _ => r matches Ok(None),
        },
{
    match o {
        NalOutcome::Picture(p) => {
            if p.bit_depth == 8 {
                match hevc_frame_to_decoded(&p, pts_us) {
                    Ok(f) => Ok(Some(f)),
                    Err(e) => Err(e),
                }
            } else {
                Ok(None)
            }
        },
        _ => Ok(None),
    }
}

/// One call made on the outside decoder, with what it returned.
pub enum DecoderCall {
    /// `decode_nal` on NAL unit number `.0` of the sample's access unit.
    Fed(usize, NalOutcome),
    /// `flush`, and the picture it gave.
    Flushed(Option<HevcPicture>),
}

/// The pictures among `outs` that become frames: finished 8-bit pictures
/// that can be packed.
pub open spec fn shown_pictures(outs: Seq<NalOutcome>) -> Seq<HevcPicture>
    decreases outs.len(),
{
    if outs.len() == 0 {
        Seq::empty()
    } else {
        shown_pictures(outs.drop_last()) + match outs.last() {
            NalOutcome::Picture(p) => if p.bit_depth == 8 && packable(p) {
                seq![p]
            } else {
                Seq::<HevcPicture>::empty()
            },
            _ => Seq::<HevcPicture>::empty(),
        }
    }
}

/// The outcome is a finished 8-bit picture whose planes cannot be packed.
pub open spec fn unpackable_outcome(o: NalOutcome) -> bool {
    o matches NalOutcome::Picture(p) && p.bit_depth == 8 && !packable(p)
}

/// `calls` feed NAL units 0, 1, 2, ... in order; `outs` are their outcomes.
pub open spec fn fed_in_order(calls: Seq<DecoderCall>, outs: Seq<NalOutcome>) -> bool {
    &&& calls.len() == outs.len()
    &&& forall|i: int| 0 <= i < calls.len() ==> #[trigger] calls[i] == DecoderCall::Fed(i as usize, outs[i])
}

/// `calls` ask for the waiting pictures `pics`, in order, and then get
/// none (unless the count ran up to `usize::MAX` first).
pub open spec fn flushed_in_order(calls: Seq<DecoderCall>, pics: Seq<HevcPicture>) -> bool {
    &&& forall|i: int| 0 <= i < pics.len() ==> #[trigger] calls[i] == DecoderCall::Flushed(Some(pics[i]))
    &&& (calls.len() == pics.len() + 1 && calls.last() == DecoderCall::Flushed(None))
        || (calls.len() == pics.len() && pics.len() == usize::MAX)
}

/// An H.265 decoder fed with MP4 samples.
pub struct H265Decoder {
    decoder: Decoder,
    stream: H265Stream,
    calls: Ghost<Seq<DecoderCall>>,
}

impl H265Decoder {
    /// The sample conversion state.
    pub closed spec fn stream_state(&self) -> (u8, bool, Seq<u8>) {
        self.stream@
    }

    /// The calls made on the outside decoder so far, oldest first.
    pub closed spec fn decoder_calls(&self) -> Seq<DecoderCall> {
        self.calls@
    }

    /// A decoder for a stream with this configuration record.
    pub fn new(extradata: &[u8]) -> (r: Result<H265Decoder, PlayerError>)
        ensures
            r matches Ok(d) && d.stream_state() == (
                nal_length_size_of(extradata@),
                extradata_annex_b(extradata@).len() == 0,
                extradata_annex_b(extradata@),
            ) && d.decoder_calls() == Seq::<DecoderCall>::empty(),
    {
        Ok(H265Decoder { decoder: new_hevc_decoder(), stream: H265Stream::new(extradata), calls: Ghost(Seq::empty()) })
    }

    /// Decodes one sample. Its access unit (see `h265_access_unit`) is split
    /// into NAL units and each is fed to the decoder in order, its outcome
    /// handled by `frame_of_outcome`: every 8-bit picture that finishes
    /// becomes a frame stamped with the packet's time, deeper pictures and
    /// units the decoder rejects are skipped, and an 8-bit picture whose
    /// planes cannot be packed ends the call with that error. An empty access
    /// unit feeds nothing and decodes to no frames. Which pictures the
    /// decoder finishes depends on its state; that it does not panic on
    /// malformed units is assumed of `rust_h265` (see `decode_nal_unit`).
    pub fn decode(&mut self, packet: &VideoPacket) -> (r: Result<Vec<DecodedFrame>, PlayerError>)
        ensures
            final(self).stream_state() == (
                old(self).stream_state().0,
                old(self).stream_state().1 || packet.is_keyframe,
                old(self).stream_state().2,
            ),
            ({
                let au = h265_access_unit(
                    old(self).stream_state().2,
                    old(self).stream_state().0,
                    old(self).stream_state().1,
                    packet.data@,
                    packet.is_keyframe,
                );
                let before = old(self).decoder_calls();
                let fed = final(self).decoder_calls().skip(before.len() as int);
                &&& final(self).decoder_calls().len() >= before.len()
                &&& final(self).decoder_calls().take(before.len() as int) == before
                &&& exists|outs: Seq<NalOutcome>| {
                    &&& #[trigger] fed_in_order(fed, outs)
                    &&& outs.len() <= annex_b_unit_count(au)
                    &&& au.len() == 0 ==> outs.len() == 0 && (r matches Ok(frames) && frames@.len() == 0)
                    &&& r matches Ok(frames) ==> {
                        &&& au.len() > 0 ==> outs.len() == annex_b_unit_count(au)
                        &&& forall|k: int| 0 <= k < outs.len() ==> !unpackable_outcome(#[trigger] outs[k])
                        &&& frames@.len() == shown_pictures(outs).len()
                        &&& forall|i: int| 0 <= i < frames@.len() ==> packed_from(#[trigger] frames@[i], shown_pictures(outs)[i], packet.pts_us)
                    }
                    &&& r matches Err(e) ==> {
                        &&& e is VideoDecode
                        &&& outs.len() > 0
                        &&& unpackable_outcome(outs.last())
                        &&& forall|k: int| 0 <= k < outs.len() - 1 ==> !unpackable_outcome(#[trigger] outs[k])
                    }
                }
            }),
            r matches Ok(frames) ==> forall|i: int| 0 <= i < frames@.len() ==> #[trigger] frames@[i].pts_us == packet.pts_us,
    {
        let annex = self.stream.access_unit(packet.data.as_slice(), packet.is_keyframe);
        let mut frames: Vec<DecodedFrame> = Vec::new();
        let ghost before = self.calls@;
        if annex.len() == 0 {
            assert(self.calls@.skip(before.len() as int) =~= Seq::<DecoderCall>::empty());
            assert(fed_in_order(self.calls@.skip(before.len() as int), Seq::<NalOutcome>::empty()));
            assert(self.calls@.take(before.len() as int) =~= before);
            assert(shown_pictures(Seq::<NalOutcome>::empty()).len() == 0);
            assert(fed_in_order(self.decoder_calls().skip(old(self).decoder_calls().len() as int), Seq::<NalOutcome>::empty()));
            return Ok(frames);
        }
        let nals = parse_nal_units(annex.as_slice());
        let ghost st = self.stream@;
        let ghost mut outs: Seq<NalOutcome> = Seq::empty();
        let mut i: usize = 0;
        while i < nals.len()
            invariant
                i <= nals@.len(),
                nals@.len() == annex_b_unit_count(annex@),
                annex@.len() > 0,
                annex@ == h265_access_unit(old(self).stream@.2, old(self).stream@.0, old(self).stream@.1, packet.data@, packet.is_keyframe),
                self.stream@ == st,
                st == (old(self).stream@.0, old(self).stream@.1 || packet.is_keyframe, old(self).stream@.2),
                before == old(self).calls@,
                self.calls@ == before + Seq::new(outs.len(), |k: int| DecoderCall::Fed(k as usize, outs[k])),
                outs.len() == i,
                forall|k: int| 0 <= k < outs.len() ==> !unpackable_outcome(#[trigger] outs[k]),
                frames@.len() == shown_pictures(outs).len(),
                forall|k: int| 0 <= k < frames@.len() ==> packed_from(#[trigger] frames@[k], shown_pictures(outs)[k], packet.pts_us),
                forall|k: int| 0 <= k < frames@.len() ==> #[trigger] frames@[k].pts_us == packet.pts_us,
            decreases nals@.len() - i,
        {
            let outcome = decode_nal_unit(&mut self.decoder, &nals[i]);
            let ghost og = outcome;
            let ghost shown = shown_pictures(outs);
            proof {
                assert(outs.push(og).drop_last() =~= outs);
                assert(outs.push(og).last() == og);
            }
            self.calls = Ghost(self.calls@.push(DecoderCall::Fed(i, og)));
            let ghost outs2 = outs.push(og);
            proof {
                assert(self.calls@ =~= before + Seq::new(outs2.len(), |k: int| DecoderCall::Fed(k as usize, outs2[k])));
            }
            match frame_of_outcome(outcome, packet.pts_us) {
                Ok(Some(f)) => {
                    proof {
                        let p = og->Picture_0;
                        assert(shown_pictures(outs2) == shown + seq![p]);
                        outs = outs2;
                    }
                    frames.push(f);
                },
                Ok(None) => {
                    proof {
                        assert(shown_pictures(outs2) =~= shown);
                        outs = outs2;
                    }
                },
                Err(e) => {
                    proof {
                        let fed = self.calls@.skip(before.len() as int);
                        assert(fed =~= Seq::new(outs2.len(), |k: int| DecoderCall::Fed(k as usize, outs2[k])));
                        assert(fed_in_order(fed, outs2));
                        assert(self.calls@.take(before.len() as int) =~= before);
                        assert forall|k: int| 0 <= k < outs2.len() - 1 implies !unpackable_outcome(#[trigger] outs2[k]) by {
                            assert(outs2[k] == outs[k]);
                        }
                        assert(unpackable_outcome(outs2.last()));
                        assert(fed_in_order(self.decoder_calls().skip(old(self).decoder_calls().len() as int), outs2));
                    }
                    return Err(e);
                },
            }
            proof {
                assert forall|k: int| 0 <= k < outs.len() implies !unpackable_outcome(#[trigger] outs[k]) by {
                    if k < outs.len() - 1 {
                        assert(outs[k] == outs2.drop_last()[k]);
                    }
                }
            }
            i = i + 1;
        }
        proof {
            let fed = self.calls@.skip(before.len() as int);
            assert(fed =~= Seq::new(outs.len(), |k: int| DecoderCall::Fed(k as usize, outs[k])));
            assert(fed_in_order(fed, outs));
            assert(self.calls@.take(before.len() as int) =~= before);
            assert(fed_in_order(self.decoder_calls().skip(old(self).decoder_calls().len() as int), outs));
        }
        Ok(frames)
    }

    /// The frames of the 8-bit pictures still waiting at the end of the
    /// stream, stamped with time zero: the decoder is asked for its next
    /// picture until it has none left, and each packable 8-bit picture it
    /// hands out, in order, becomes one frame; the others are dropped. That
    /// the decoder does not panic here is assumed of `rust_h265` (see
    /// `flush_picture`).
    pub fn flush(&mut self) -> (r: Result<Vec<DecodedFrame>, PlayerError>)
        ensures
            final(self).stream_state() == old(self).stream_state(),
            ({
                let before = old(self).decoder_calls();
                let asked = final(self).decoder_calls().skip(before.len() as int);
                &&& final(self).decoder_calls().len() >= before.len()
                &&& final(self).decoder_calls().take(before.len() as int) == before
                &&& r matches Ok(frames) && exists|pics: Seq<HevcPicture>| {
                    &&& #[trigger] flushed_in_order(asked, pics)
                    &&& frames@.len() == framed_pictures(pics).len()
                    &&& forall|i: int| 0 <= i < frames@.len() ==> packed_from(#[trigger] frames@[i], framed_pictures(pics)[i], 0)
                }
            }),
            r matches Ok(frames) && forall|i: int| 0 <= i < frames@.len() ==> #[trigger] frames@[i].pts_us == 0,
    {
        let mut pics: Vec<HevcPicture> = Vec::new();
        let mut n: usize = 0;
        let ghost st = self.stream@;
        let ghost before = self.calls@;
        let mut ended = false;
        while n < usize::MAX
            invariant_except_break
                self.stream@ == st,
                before == old(self).calls@,
                n == pics@.len(),
                self.calls@ == before + Seq::new(pics@.len(), |k: int| DecoderCall::Flushed(Some(pics@[k]))),
                !ended,
            ensures
                self.stream@ == st,
                before == old(self).calls@,
                ended ==> self.calls@ == before + Seq::new(pics@.len(), |k: int| DecoderCall::Flushed(Some(pics@[k]))).push(DecoderCall::Flushed(None)),
                !ended ==> pics@.len() == usize::MAX && self.calls@ == before + Seq::new(pics@.len(), |k: int| DecoderCall::Flushed(Some(pics@[k]))),
            decreases usize::MAX - n,
        {
            let got = flush_picture(&mut self.decoder);
            let ghost gg = got;
            self.calls = Ghost(self.calls@.push(DecoderCall::Flushed(gg)));
            match got {
                Some(p) => {
                    let ghost old_pics = pics@;
                    pics.push(p);
                    proof {
                        assert(self.calls@ =~= before + Seq::new(pics@.len(), |k: int| DecoderCall::Flushed(Some(pics@[k]))));
                    }
                },
                None => {
                    ended = true;
                    break;
                },
            }
            n = n + 1;
        }
        let frames = frames_from_pictures(&pics, 0);
        proof {
            let asked = self.calls@.skip(before.len() as int);
            assert(self.calls@.take(before.len() as int) =~= before);
            if ended {
                assert(asked =~= Seq::new(pics@.len(), |k: int| DecoderCall::Flushed(Some(pics@[k]))).push(DecoderCall::Flushed(None)));
            } else {
                assert(asked =~= Seq::new(pics@.len(), |k: int| DecoderCall::Flushed(Some(pics@[k]))));
            }
            assert(flushed_in_order(asked, pics@));
            assert(flushed_in_order(self.decoder_calls().skip(old(self).decoder_calls().len() as int), pics@));
        }
        Ok(frames)
    }
}

} // verus!
