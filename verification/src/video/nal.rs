//! MP4 sample (AVCC/HVCC) to Annex B conversion and extradata parsing.
use vstd::prelude::*;
use vstd::slice::slice_subrange;

verus! {

/// The Annex B start code that precedes every NAL unit in a byte stream.
pub const ANNEX_B_START_CODE: [u8; 4] = [0, 0, 0, 1];

/// The Annex B start code as a sequence.
pub open spec fn start_code() -> Seq<u8> {
    seq![0u8, 0u8, 0u8, 1u8]
}

/// Big-endian unsigned value of the first `bytes` bytes of `d`
/// (widths 1 to 4 are meaningful; every other width reads 0).
pub open spec fn be_uint(d: Seq<u8>, bytes: nat) -> nat {
    if bytes == 1 {
        d[0] as nat
    } else if bytes == 2 {
        d[0] as nat * 256 + d[1] as nat
    } else if bytes == 3 {
        d[0] as nat * 65536 + d[1] as nat * 256 + d[2] as nat
    } else if bytes == 4 {
        d[0] as nat * 16777216 + d[1] as nat * 65536 + d[2] as nat * 256 + d[3] as nat
    } else {
        0
    }
}

/// Annex B stream of a length-prefixed sample with `n`-byte prefixes:
/// conversion stops at the first zero-length or truncated NAL unit.
pub open spec fn annex_b_of(data: Seq<u8>, n: nat) -> Seq<u8>
    decreases data.len(),
{
    if n == 0 || data.len() < n {
        Seq::empty()
    } else {
        let l = be_uint(data, n);
        if l == 0 || n + l > data.len() {
            Seq::empty()
        } else {
            start_code() + data.subrange(n as int, (n + l) as int) + annex_b_of(
                data.skip((n + l) as int),
                n,
            )
        }
    }
}

/// Prefix width actually used for a requested width: clamped to 1..=4.
pub open spec fn clamp_prefix(nal_length_bytes: u8) -> nat {
    if nal_length_bytes < 1 {
        1
    } else if nal_length_bytes > 4 {
        4
    } else {
        nal_length_bytes as nat
    }
}

/// Big-endian 16-bit value at `off`.
pub open spec fn be16_at(d: Seq<u8>, off: int) -> nat {
    d[off] as nat * 256 + d[off + 1] as nat
}

/// Up to `count` parameter sets, each a 16-bit length and its bytes, read from
/// `off`; yields their Annex B form and the offset where reading stopped.
/// A missing length field stops at its offset; a truncated body stops just
/// after its length field.
pub open spec fn param_sets(d: Seq<u8>, off: int, count: nat) -> (Seq<u8>, int)
    decreases count,
{
    if count == 0 || off < 0 {
        (Seq::empty(), off)
    } else if off + 2 > d.len() {
        (Seq::empty(), off)
    } else {
        let l = be16_at(d, off);
        let body = off + 2;
        if body + l > d.len() {
            (Seq::empty(), body)
        } else {
            let rest = param_sets(d, body + l, (count - 1) as nat);
            (start_code() + d.subrange(body, body + l) + rest.0, rest.1)
        }
    }
}

/// SPS then PPS sets of an avcC record, in Annex B form.
pub open spec fn avcc_annex_b(d: Seq<u8>) -> Seq<u8> {
    if d.len() < 7 {
        Seq::empty()
    } else {
        let sps = param_sets(d, 6, (d[5] & 0x1f) as nat);
        if sps.1 >= d.len() {
            sps.0
        } else {
            sps.0 + param_sets(d, sps.1 + 1, d[sps.1] as nat).0
        }
    }
}

/// The NAL arrays of an hvcC record from `off`, `count` arrays at most.
pub open spec fn hvcc_arrays(d: Seq<u8>, off: int, count: nat) -> Seq<u8>
    decreases count,
{
    if count == 0 || off < 0 || off + 3 > d.len() {
        Seq::empty()
    } else {
        let sets = param_sets(d, off + 3, be16_at(d, off + 1));
        sets.0 + hvcc_arrays(d, sets.1, (count - 1) as nat)
    }
}

/// VPS/SPS/PPS of an hvcC record in Annex B form (None when shorter than 23 bytes).
pub open spec fn hvcc_annex_b(d: Seq<u8>) -> Option<Seq<u8>> {
    if d.len() < 23 {
        None
    } else {
        Some(hvcc_arrays(d, 23, d[22] as nat))
    }
}

/// Extradata to Annex B: a standard avcC record (reserved bits of byte 5 set)
/// first, then an hvcC record, then avcC once more for non-standard records.
pub open spec fn extradata_annex_b(d: Seq<u8>) -> Seq<u8> {
    if d.len() < 6 {
        Seq::empty()
    } else if (d[5] & 0xe0) == 0xe0 && avcc_annex_b(d).len() > 0 {
        avcc_annex_b(d)
    } else if d.len() >= 23 && hvcc_annex_b(d).unwrap().len() > 0 {
        hvcc_annex_b(d).unwrap()
    } else {
        avcc_annex_b(d)
    }
}

/// NAL length prefix width declared by an avcC/hvcC record (byte 4, low two bits, plus one);
/// 4 when the record is too short to hold it.
pub open spec fn nal_length_size_of(d: Seq<u8>) -> u8 {
    if d.len() >= 5 {
        ((d[4] & 0x03) + 1) as u8
    } else {
        4
    }
}

fn push_start_code(out: &mut Vec<u8>)
    ensures
        final(out)@ == old(out)@ + start_code(),
{
    out.push(0);
    out.push(0);
    out.push(0);
    out.push(1);
    assert(final(out)@ =~= old(out)@ + start_code());
}

fn extend_from(out: &mut Vec<u8>, data: &[u8], from: usize, to: usize)
    requires
        from <= to <= data@.len(),
    ensures
        final(out)@ == old(out)@ + data@.subrange(from as int, to as int),
{
    let mut i = from;
    while i < to
        invariant
            from <= i <= to <= data@.len(),
            out@ == old(out)@ + data@.subrange(from as int, i as int),
        decreases to - i,
    {
        out.push(data[i]);
        i = i + 1;
        assert(out@ =~= old(out)@ + data@.subrange(from as int, i as int));
    }
}

/// Reads a big-endian unsigned integer of `bytes` bytes (1, 2 or 4) from the
/// start of `data`; any other width reads 0.
pub fn read_be_uint(data: &[u8], bytes: usize) -> (r: usize)
    requires
        1 <= bytes <= 4 ==> data@.len() >= bytes,
    ensures
        r == be_uint(data@, bytes as nat),
{
    if bytes == 1 {
        data[0] as usize
    } else if bytes == 2 {
        data[0] as usize * 256 + data[1] as usize
    } else if bytes == 3 {
        data[0] as usize * 65536 + data[1] as usize * 256 + data[2] as usize
    } else if bytes == 4 {
        let v: u64 = data[0] as u64 * 16777216 + data[1] as u64 * 65536 + data[2] as u64 * 256
            + data[3] as u64;
        v as usize
    } else {
        0
    }
}


/// Converts a length-prefixed MP4 sample to an Annex B byte stream.
/// `nal_length_bytes` is the width of each length prefix (clamped to 1..=4).
pub fn mp4_sample_to_annex_b(data: &[u8], nal_length_bytes: u8) -> (out: Vec<u8>)
    ensures
        out@ == annex_b_of(data@, clamp_prefix(nal_length_bytes)),
{
    let n: usize = if nal_length_bytes < 1 {
        1
    } else if nal_length_bytes > 4 {
        4
    } else {
        nal_length_bytes as usize
    };
    let mut out: Vec<u8> = Vec::new();
    if data.len() < n {
        return out;
    }
    let mut offset: usize = 0;
    assert(data@.skip(0) =~= data@);
    assert(out@ + annex_b_of(data@, n as nat) =~= annex_b_of(data@, n as nat));
    while n <= data.len() - offset
        invariant
            1 <= n <= 4,
            n == clamp_prefix(nal_length_bytes),
            offset <= data@.len(),
            annex_b_of(data@, n as nat) == out@ + annex_b_of(data@.skip(offset as int), n as nat),
        decreases data@.len() - offset,
    {
        let ghost rest = data@.skip(offset as int);
        let ghost old_out = out@;
        let nal_len = read_be_uint(slice_subrange(data, offset, data.len()), n);
        assert(data@.subrange(offset as int, data@.len() as int) =~= rest);
        let body = offset + n;
        if nal_len == 0 || nal_len > data.len() - body {
            assert(annex_b_of(rest, n as nat) == Seq::<u8>::empty());
            assert(out@ + Seq::<u8>::empty() =~= out@);
            return out;
        }
        push_start_code(&mut out);
        extend_from(&mut out, data, body, body + nal_len);
        proof {
            let l = be_uint(rest, n as nat);
            assert(rest.subrange(n as int, (n + l) as int) =~= data@.subrange(
                body as int,
                (body + nal_len) as int,
            ));
            assert(rest.skip((n + l) as int) =~= data@.skip((body + nal_len) as int));
            let tail = annex_b_of(data@.skip((body + nal_len) as int), n as nat);
            assert(annex_b_of(rest, n as nat) == start_code() + data@.subrange(
                body as int,
                (body + nal_len) as int,
            ) + tail);
            assert(old_out + (start_code() + data@.subrange(body as int, (body + nal_len) as int)
                + tail) =~= out@ + tail);
        }
        offset = body + nal_len;
    }
    assert(annex_b_of(data@.skip(offset as int), n as nat) == Seq::<u8>::empty());
    assert(out@ + Seq::<u8>::empty() =~= out@);
    out
}

/// Appends up to `count` length-prefixed parameter sets read from `off` to
/// `out` in Annex B form; returns the offset where reading stopped.
fn read_param_sets(d: &[u8], out: &mut Vec<u8>, off: usize, count: usize) -> (end: usize)
    requires
        off <= d@.len(),
    ensures
        final(out)@ == old(out)@ + param_sets(d@, off as int, count as nat).0,
        end == param_sets(d@, off as int, count as nat).1,
        end <= d@.len(),
{
    let mut offset = off;
    let mut left = count;
    assert(old(out)@ + param_sets(d@, off as int, count as nat).0 =~= out@ + param_sets(
        d@,
        offset as int,
        left as nat,
    ).0);
    while left > 0
        invariant
            offset <= d@.len(),
            old(out)@ + param_sets(d@, off as int, count as nat).0 == out@ + param_sets(
                d@,
                offset as int,
                left as nat,
            ).0,
            param_sets(d@, off as int, count as nat).1 == param_sets(
                d@,
                offset as int,
                left as nat,
            ).1,
        decreases left,
    {
        if 2 > d.len() - offset {
            assert(out@ + Seq::<u8>::empty() =~= out@);
            return offset;
        }
        let l = d[offset] as usize * 256 + d[offset + 1] as usize;
        let body = offset + 2;
        if l > d.len() - body {
            assert(out@ + Seq::<u8>::empty() =~= out@);
            return body;
        }
        let ghost old_out = out@;
        push_start_code(out);
        extend_from(out, d, body, body + l);
        proof {
            let rest = param_sets(d@, (body + l) as int, (left - 1) as nat);
            assert(old_out + (start_code() + d@.subrange(body as int, (body + l) as int) + rest.0)
                =~= out@ + rest.0);
        }
        offset = body + l;
        left = left - 1;
    }
    assert(out@ + Seq::<u8>::empty() =~= out@);
    offset
}

/// SPS and PPS sets of an avcC configuration record in Annex B form.
pub fn parse_avcc(avcc: &[u8]) -> (out: Vec<u8>)
    ensures
        out@ == avcc_annex_b(avcc@),
{
    let mut out: Vec<u8> = Vec::new();
    if avcc.len() < 7 {
        return out;
    }
    let num_sps = (avcc[5] & 0x1f) as usize;
    let offset = read_param_sets(avcc, &mut out, 6, num_sps);
    assert(out@ =~= param_sets(avcc@, 6, (avcc@[5] & 0x1f) as nat).0);
    if offset >= avcc.len() {
        return out;
    }
    let num_pps = avcc[offset] as usize;
    let _ = read_param_sets(avcc, &mut out, offset + 1, num_pps);
    out
}

/// VPS/SPS/PPS arrays of an hvcC configuration record in Annex B form;
/// `None` when the record is shorter than its fixed header.
pub fn parse_hvcc(hvcc: &[u8]) -> (r: Option<Vec<u8>>)
    ensures
        r.is_some() == hvcc_annex_b(hvcc@).is_some(),
        r matches Some(v) ==> v@ == hvcc_annex_b(hvcc@).unwrap(),
{
    if hvcc.len() < 23 {
        return None;
    }
    let num_arrays = hvcc[22] as usize;
    let mut offset: usize = 23;
    let mut left = num_arrays;
    let mut out: Vec<u8> = Vec::new();
    assert(out@ + hvcc_arrays(hvcc@, 23, num_arrays as nat) =~= hvcc_arrays(
        hvcc@,
        23,
        num_arrays as nat,
    ));
    while left > 0
        invariant
            offset <= hvcc@.len(),
            hvcc@.len() >= 23,
            num_arrays == hvcc@[22],
            hvcc_arrays(hvcc@, 23, num_arrays as nat) == out@ + hvcc_arrays(
                hvcc@,
                offset as int,
                left as nat,
            ),
        decreases left,
    {
        if 3 > hvcc.len() - offset {
            assert(hvcc_arrays(hvcc@, offset as int, left as nat) == Seq::<u8>::empty());
            assert(out@ + Seq::<u8>::empty() =~= out@);
            return Some(out);
        }
        let num_nalus = hvcc[offset + 1] as usize * 256 + hvcc[offset + 2] as usize;
        let ghost old_out = out@;
        let next = read_param_sets(hvcc, &mut out, offset + 3, num_nalus);
        proof {
            let sets = param_sets(hvcc@, offset + 3, num_nalus as nat);
            let rest = hvcc_arrays(hvcc@, next as int, (left - 1) as nat);
            assert(old_out + (sets.0 + rest) =~= out@ + rest);
        }
        offset = next;
        left = left - 1;
    }
    assert(out@ + Seq::<u8>::empty() =~= out@);
    Some(out)
}

/// Builds the Annex B parameter-set prefix (VPS/SPS/PPS) from an avcC or
/// hvcC configuration record; empty when neither layout yields any set.
pub fn extradata_to_annex_b(extradata: &[u8]) -> (out: Vec<u8>)
    ensures
        out@ == extradata_annex_b(extradata@),
{
    if extradata.len() < 6 {
        return Vec::new();
    }
    if (extradata[5] & 0xe0) == 0xe0 {
        let result = parse_avcc(extradata);
        if result.len() > 0 {
            return result;
        }
    }
    if extradata.len() >= 23 {
        if let Some(result) = parse_hvcc(extradata) {
            if result.len() > 0 {
                return result;
            }
        }
    }
    parse_avcc(extradata)
}

/// NAL length prefix width from an avcC/hvcC record: byte 4's
/// `lengthSizeMinusOne` plus one, or 4 when the record is shorter than 5 bytes.
pub fn nal_length_size_from_extradata(extradata: &[u8]) -> (n: u8)
    ensures
        n == nal_length_size_of(extradata@),
        1 <= n <= 4,
{
    if extradata.len() >= 5 {
        let b = extradata[4];
        assert(b & 0x03 <= 3) by (bit_vector);
        (b & 0x03) + 1
    } else {
        4
    }
}

/// `v` as `n` big-endian bytes (for `n` from 1 to 4).
pub open spec fn be_bytes(v: nat, n: nat) -> Seq<u8> {
    if n == 1 {
        seq![v as u8]
    } else if n == 2 {
        seq![(v / 256) as u8, (v % 256) as u8]
    } else if n == 3 {
        seq![(v / 65536) as u8, ((v / 256) % 256) as u8, (v % 256) as u8]
    } else {
        seq![(v / 16777216) as u8, ((v / 65536) % 256) as u8, ((v / 256) % 256) as u8, (v % 256) as u8]
    }
}

/// The largest NAL unit an `n`-byte length prefix can describe, plus one.
pub open spec fn prefix_limit(n: nat) -> nat {
    if n == 1 {
        256
    } else if n == 2 {
        65536
    } else if n == 3 {
        16777216
    } else {
        4294967296
    }
}

/// A sample holding the NAL units `nals`, each after its `n`-byte length.
pub open spec fn length_prefixed(nals: Seq<Seq<u8>>, n: nat) -> Seq<u8>
    decreases nals.len(),
{
    if nals.len() == 0 {
        Seq::empty()
    } else {
        be_bytes(nals[0].len(), n) + nals[0] + length_prefixed(nals.drop_first(), n)
    }
}

/// The NAL units `nals` as an Annex B stream, each after a start code.
pub open spec fn annex_b_units(nals: Seq<Seq<u8>>) -> Seq<u8>
    decreases nals.len(),
{
    if nals.len() == 0 {
        Seq::empty()
    } else {
        start_code() + nals[0] + annex_b_units(nals.drop_first())
    }
}

proof fn lemma_be_bytes_read(v: nat, n: nat, rest: Seq<u8>)
    requires
        1 <= n <= 4,
        v < prefix_limit(n),
    ensures
        (be_bytes(v, n) + rest).len() == n + rest.len(),
        be_uint(be_bytes(v, n) + rest, n) == v,
{
    let d = be_bytes(v, n) + rest;
    if n == 1 {
        assert(d[0] == v as u8);
    } else if n == 2 {
        assert(d[0] == (v / 256) as u8 && d[1] == (v % 256) as u8);
        assert((v / 256) < 256) by (nonlinear_arith)
            requires
                v < 65536,
        ;
        assert(v == (v / 256) * 256 + v % 256) by (nonlinear_arith);
    } else if n == 3 {
        assert(d[0] == (v / 65536) as u8 && d[1] == ((v / 256) % 256) as u8 && d[2] == (v % 256) as u8);
        assert(v / 65536 < 256) by (nonlinear_arith)
            requires
                v < 16777216,
        ;
        assert(v == (v / 65536) * 65536 + ((v / 256) % 256) * 256 + v % 256) by (nonlinear_arith);
    } else {
        assert(d[0] == (v / 16777216) as u8 && d[1] == ((v / 65536) % 256) as u8 && d[2] == ((v / 256)
            % 256) as u8 && d[3] == (v % 256) as u8);
        assert(v / 16777216 < 256) by (nonlinear_arith)
            requires
                v < 4294967296,
        ;
        assert(v == (v / 16777216) * 16777216 + ((v / 65536) % 256) * 65536 + ((v / 256) % 256) * 256
            + v % 256) by (nonlinear_arith);
    }
}

/// A sample of non-empty NAL units, each after a big-endian length of the
/// width the stream uses, converts to exactly those units, each after a start
/// code: the conversion reads back what the length prefixes wrote.
pub proof fn law_annex_b_reads_back_length_prefixed(nals: Seq<Seq<u8>>, n: nat)
    requires
        1 <= n <= 4,
        forall|i: int| 0 <= i < nals.len() ==> 0 < #[trigger] nals[i].len() < prefix_limit(n),
    ensures
        annex_b_of(length_prefixed(nals, n), n) == annex_b_units(nals),
    decreases nals.len(),
{
    if nals.len() > 0 {
        let l = nals[0].len();
        let tail = nals.drop_first();
        assert forall|i: int| 0 <= i < tail.len() implies 0 < #[trigger] tail[i].len() < prefix_limit(n) by {
            assert(tail[i] == nals[i + 1]);
        }
        law_annex_b_reads_back_length_prefixed(tail, n);
        let rest = nals[0] + length_prefixed(tail, n);
        let d = length_prefixed(nals, n);
        assert(d =~= be_bytes(l, n) + rest);
        lemma_be_bytes_read(l, n, rest);
        assert(d.subrange(n as int, (n + l) as int) =~= nals[0]);
        assert(d.skip((n + l) as int) =~= length_prefixed(tail, n));
    } else {
        assert(length_prefixed(nals, n) =~= Seq::<u8>::empty());
    }
}

} // verus!
