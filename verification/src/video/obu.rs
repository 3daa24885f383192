//! MP4 AV1 samples to a raw OBU byte stream.
use vstd::prelude::*;
use vstd::slice::{slice_subrange, slice_to_vec};

verus! {

/// `128` raised to the power `n`.
pub open spec fn pow128(n: nat) -> nat
    decreases n,
{
    if n == 0 {
        1
    } else {
        128 * pow128((n - 1) as nat)
    }
}

/// Value of the little-endian base-128 number held in the low seven bits of
/// each byte of `d` (the first byte is the least significant group).
pub open spec fn leb_value(d: Seq<u8>) -> nat
    decreases d.len(),
{
    if d.len() == 0 {
        0
    } else {
        leb_value(d.drop_last()) + (d.last() & 0x7f) as nat * pow128((d.len() - 1) as nat)
    }
}

/// Number of bytes of the LEB128 number at the start of `d`: the first byte
/// without a continuation bit, within the first five bytes.
pub open spec fn leb_len(d: Seq<u8>) -> Option<nat>
    decreases d.len(),
{
    leb_len_from(d, 0)
}

pub open spec fn leb_len_from(d: Seq<u8>, i: nat) -> Option<nat>
    decreases 5 - i, d.len() - i,
{
    if i >= 5 || i >= d.len() {
        None
    } else if d[i as int] & 0x80 == 0 {
        Some(i + 1)
    } else {
        leb_len_from(d, i + 1)
    }
}

/// The LEB128 number at the start of `d` and its byte length, the value taken
/// modulo the width of `usize`.
pub open spec fn leb128_of(d: Seq<u8>) -> Option<(usize, usize)> {
    match leb_len(d) {
        Some(n) => Some((leb_value(d.take(n as int)) as usize, n as usize)),
        None => None,
    }
}

/// OBUs of a sample whose OBUs are each preceded by a LEB128 size, in order,
/// stopping at an unreadable size, a zero size or a truncated OBU.
pub open spec fn sized_obus(d: Seq<u8>) -> Seq<u8>
    decreases d.len(),
{
    match leb128_of(d) {
        None => Seq::empty(),
        Some((size, n)) => if size == 0 || n + size > d.len() {
            Seq::empty()
        } else {
            d.subrange(n as int, n + size) + sized_obus(d.skip(n + size))
        },
    }
}

/// The OBU stream handed to the AV1 decoder for an MP4 sample.
pub open spec fn obu_stream_of(sample: Seq<u8>) -> Seq<u8> {
    if sample.len() == 0 {
        Seq::empty()
    } else if sample[0] & 0x80 == 0 {
        sample
    } else if sized_obus(sample).len() == 0 {
        sample
    } else {
        sized_obus(sample)
    }
}

proof fn lemma_leb_len_bound(d: Seq<u8>, i: nat)
    ensures
        leb_len_from(d, i) matches Some(n) ==> i < n <= 5 && n <= d.len(),
    decreases 5 - i, d.len() - i,
{
    if i < 5 && i < d.len() && d[i as int] & 0x80 != 0 {
        lemma_leb_len_bound(d, i + 1);
    }
}

/// Reads a LEB128 number from the start of `data`: its value and byte length,
/// or `None` when no terminating byte occurs within the first five bytes.
pub fn read_leb128(data: &[u8]) -> (r: Option<(usize, usize)>)
    ensures
        r == leb128_of(data@),
{
    let mut value: u64 = 0;
    let mut mult: u64 = 1;
    let mut i: usize = 0;
    while i < data.len()
        invariant
            i <= 4,
            i <= data@.len(),
            mult == pow128(i as nat),
            value == leb_value(data@.take(i as int)),
            value < mult,
            mult <= 268435456,
            leb_len(data@) == leb_len_from(data@, i as nat),
        decreases data@.len() - i,
    {
        let byte = data[i];
        let low = byte & 0x7f;
        assert(low < 128) by (bit_vector)
            requires
                low == byte & 0x7f,
        ;
        proof {
            assert(data@.take(i + 1).drop_last() =~= data@.take(i as int));
            assert(data@.take(i + 1).last() == byte);
        }
        assert(low as u64 * mult <= 127 * 268435456) by (nonlinear_arith)
            requires
                low < 128,
                mult <= 268435456,
        ;
        value = value + low as u64 * mult;
        if byte & 0x80 == 0 {
            assert(leb_value(data@.take(i + 1)) == value);
            return Some((value as usize, i + 1));
        }
        if i == 4 {
            assert(leb_len_from(data@, 5) == None::<nat>);
            return None;
        }
        assert(mult <= 2097152) by {
            reveal_with_fuel(pow128, 5);
        };
        assert(value < 128 * mult) by (nonlinear_arith)
            requires
                value == (value - low as u64 * mult) + low as u64 * mult,
                value - low as u64 * mult < mult,
                low < 128,
        ;
        mult = mult * 128;
        i = i + 1;
    }
    None
}

/// Converts an MP4 AV1 sample to the raw OBU stream handed to the decoder:
/// a sample whose first byte has a clear forbidden bit passes through, other
/// samples are read as size-prefixed OBUs (falling back to the sample itself
/// when none can be read).
pub fn mp4_sample_to_obu_stream(sample: &[u8]) -> (out: Vec<u8>)
    ensures
        out@ == obu_stream_of(sample@),
{
    if sample.len() == 0 {
        return Vec::new();
    }
    if sample[0] & 0x80 == 0 {
        return slice_to_vec(sample);
    }
    let mut out: Vec<u8> = Vec::new();
    let mut i: usize = 0;
    assert(sample@.skip(0) =~= sample@);
    assert(out@ + sized_obus(sample@) =~= sized_obus(sample@));
    while i < sample.len()
        invariant_except_break
            i <= sample@.len(),
            sized_obus(sample@) == out@ + sized_obus(sample@.skip(i as int)),
        ensures
            sized_obus(sample@) == out@,
        decreases sample@.len() - i,
    {
        let ghost rest = sample@.skip(i as int);
        let rest_slice = slice_subrange(sample, i, sample.len());
        assert(rest_slice@ =~= rest);
        match read_leb128(rest_slice) {
            None => {
                assert(sized_obus(rest) == Seq::<u8>::empty());
                assert(out@ + Seq::<u8>::empty() =~= out@);
                break;
            },
            Some((obu_size, leb_len)) => {
                proof {
                    lemma_leb_len_bound(rest, 0);
                }
                let start = i + leb_len;
                if obu_size == 0 || obu_size > sample.len() - start {
                    assert(sized_obus(rest) == Seq::<u8>::empty());
                    assert(out@ + Seq::<u8>::empty() =~= out@);
                    break;
                }
                let ghost old_out = out@;
                let end = start + obu_size;
                let mut k = start;
                while k < end
                    invariant
                        end == start + obu_size,
                        start <= k <= end <= sample@.len(),
                        out@ == old_out + sample@.subrange(start as int, k as int),
                    decreases start + obu_size - k,
                {
                    out.push(sample[k]);
                    k = k + 1;
                    assert(out@ =~= old_out + sample@.subrange(start as int, k as int));
                }
                proof {
                    assert(rest.subrange(leb_len as int, leb_len + obu_size) =~= sample@.subrange(
                        start as int,
                        (start + obu_size) as int,
                    ));
                    assert(rest.skip(leb_len + obu_size) =~= sample@.skip((start + obu_size) as int));
                    let tail = sized_obus(sample@.skip((start + obu_size) as int));
                    assert(old_out + (sample@.subrange(start as int, (start + obu_size) as int)
                        + tail) =~= out@ + tail);
                }
                i = start + obu_size;
            },
        }
        if i == sample.len() {
            assert(sample@.skip(i as int) =~= Seq::<u8>::empty());
            assert(sized_obus(Seq::<u8>::empty()) == Seq::<u8>::empty());
            assert(out@ + Seq::<u8>::empty() =~= out@);
        }
    }
    if out.len() == 0 {
        slice_to_vec(sample)
    } else {
        out
    }
}

/// The shortest LEB128 encoding of `v`: seven bits per byte, least
/// significant group first, a continuation bit on every byte but the last.
pub open spec fn leb_encode(v: nat) -> Seq<u8>
    decreases v,
{
    if v < 128 {
        seq![v as u8]
    } else {
        seq![((v % 128) + 128) as u8] + leb_encode(v / 128)
    }
}

/// A sample holding the OBUs `obus`, each after its LEB128 size.
pub open spec fn size_prefixed(obus: Seq<Seq<u8>>) -> Seq<u8>
    decreases obus.len(),
{
    if obus.len() == 0 {
        Seq::empty()
    } else {
        leb_encode(obus[0].len()) + obus[0] + size_prefixed(obus.drop_first())
    }
}

/// The OBUs `obus` one after another.
pub open spec fn concat_obus(obus: Seq<Seq<u8>>) -> Seq<u8>
    decreases obus.len(),
{
    if obus.len() == 0 {
        Seq::empty()
    } else {
        obus[0] + concat_obus(obus.drop_first())
    }
}

proof fn lemma_leb_value_front(s: Seq<u8>)
    requires
        s.len() > 0,
    ensures
        leb_value(s) == (s[0] & 0x7f) as nat + 128 * leb_value(s.drop_first()),
    decreases s.len(),
{
    if s.len() == 1 {
        assert(s.last() == s[0]);
        assert(leb_value(s.drop_last()) == 0);
        assert(leb_value(s.drop_first()) == 0);
        assert(pow128(0) == 1);
        assert(leb_value(s) == leb_value(s.drop_last()) + (s.last() & 0x7f) as nat * pow128(0));
    } else {
        let n = s.len();
        let t = s.drop_first();
        lemma_leb_value_front(s.drop_last());
        assert(s.drop_last().drop_first() =~= t.drop_last());
        assert(s.drop_last()[0] == s[0]);
        assert(t.last() == s.last());
        assert(pow128((n - 1) as nat) == 128 * pow128((n - 2) as nat));
        let l = (s.last() & 0x7f) as nat;
        let p = pow128((n - 2) as nat);
        assert(leb_value(s) == leb_value(s.drop_last()) + l * pow128((n - 1) as nat));
        assert(leb_value(t) == leb_value(t.drop_last()) + l * p);
        assert(l * pow128((n - 1) as nat) == 128 * (l * p)) by (nonlinear_arith)
            requires
                pow128((n - 1) as nat) == 128 * p,
        ;
    }
}

proof fn lemma_leb_encode(v: nat)
    ensures
        leb_encode(v).len() >= 1,
        v < 128 ==> leb_encode(v).len() == 1,
        v >= 128 ==> leb_encode(v).len() == 1 + leb_encode(v / 128).len(),
        v < 0x1000_0000 ==> leb_encode(v).len() <= 4,
        leb_value(leb_encode(v)) == v,
        forall|k: int| 0 <= k < leb_encode(v).len() - 1 ==> #[trigger] leb_encode(v)[k] & 0x80 != 0,
        leb_encode(v).last() & 0x80 == 0,
    decreases v,
{
    let e = leb_encode(v);
    if v < 128 {
        let b = v as u8;
        assert(b & 0x7f == b && b & 0x80 == 0) by (bit_vector)
            requires
                b < 128,
        ;
        lemma_leb_value_front(e);
        assert(e.drop_first().len() == 0);
    } else {
        let x = (v % 128) as u8;
        let b = ((v % 128) + 128) as u8;
        assert(b == x + 128);
        assert(b & 0x7f == x && b & 0x80 != 0) by (bit_vector)
            requires
                x < 128,
                b == x + 128,
        ;
        lemma_leb_encode(v / 128);
        let t = leb_encode(v / 128);
        assert(e == seq![b] + t);
        assert(e.drop_first() =~= t);
        lemma_leb_value_front(e);
        assert(v == v % 128 + 128 * (v / 128)) by (nonlinear_arith);
        assert forall|k: int| 0 <= k < e.len() - 1 implies #[trigger] e[k] & 0x80 != 0 by {
            if k > 0 {
                assert(e[k] == t[k - 1]);
            }
        }
        assert(e.last() == t.last());
        if v < 0x1000_0000 {
            assert(v / 128 < 0x20_0000);
        }
        if v / 128 < 0x20_0000 && v / 128 >= 128 {
            lemma_leb_encode(v / 128 / 128);
        }
    }
}

proof fn lemma_leb_len_encoded(prefix: Seq<u8>, v: nat, rest: Seq<u8>)
    requires
        forall|k: int| 0 <= k < prefix.len() ==> #[trigger] prefix[k] & 0x80 != 0,
        prefix.len() + leb_encode(v).len() <= 5,
    ensures
        leb_len_from(prefix + leb_encode(v) + rest, prefix.len()) == Some(prefix.len() + leb_encode(v).len()),
    decreases v,
{
    lemma_leb_encode(v);
    let e = leb_encode(v);
    let d = prefix + e + rest;
    assert(d[prefix.len() as int] == e[0]);
    if v < 128 {
        assert(e.last() == e[0]);
    } else {
        let b = e[0];
        let t = leb_encode(v / 128);
        assert(e == seq![b] + t);
        assert(b & 0x80 != 0);
        let p2 = prefix.push(b);
        assert forall|k: int| 0 <= k < p2.len() implies #[trigger] p2[k] & 0x80 != 0 by {
            if k < prefix.len() {
                assert(p2[k] == prefix[k]);
            }
        }
        lemma_leb_len_encoded(p2, v / 128, rest);
        assert(p2 + t + rest =~= d);
    }
}

proof fn lemma_leb128_of_encoded(v: nat, rest: Seq<u8>)
    requires
        v < 0x1000_0000,
    ensures
        leb128_of(leb_encode(v) + rest) == Some((v as usize, leb_encode(v).len() as usize)),
{
    lemma_leb_encode(v);
    let e = leb_encode(v);
    lemma_leb_len_encoded(Seq::empty(), v, rest);
    assert(Seq::<u8>::empty() + e + rest =~= e + rest);
    assert((e + rest).take(e.len() as int) =~= e);
}

/// A sample of non-empty OBUs, each after its shortest LEB128 size, reads back
/// as exactly those OBUs, one after another, provided the first size takes
/// more than one byte (a one-byte first size reads as a raw OBU header and
/// the sample passes through unchanged).
pub proof fn law_sized_obus_read_back(obus: Seq<Seq<u8>>)
    requires
        obus.len() > 0,
        obus[0].len() >= 128,
        forall|i: int| 0 <= i < obus.len() ==> 0 < #[trigger] obus[i].len() < 0x1000_0000,
    ensures
        obu_stream_of(size_prefixed(obus)) == concat_obus(obus),
{
    lemma_sized_obus(obus);
    lemma_leb_encode(obus[0].len());
    let d = size_prefixed(obus);
    assert(d[0] == leb_encode(obus[0].len())[0]);
    assert(concat_obus(obus).len() >= obus[0].len());
}

proof fn lemma_sized_obus(obus: Seq<Seq<u8>>)
    requires
        forall|i: int| 0 <= i < obus.len() ==> 0 < #[trigger] obus[i].len() < 0x1000_0000,
    ensures
        sized_obus(size_prefixed(obus)) == concat_obus(obus),
    decreases obus.len(),
{
    if obus.len() == 0 {
        assert(size_prefixed(obus) =~= Seq::<u8>::empty());
        assert(leb_len_from(Seq::<u8>::empty(), 0) is None);
        assert(sized_obus(Seq::<u8>::empty()) =~= Seq::<u8>::empty());
        assert(concat_obus(obus) =~= Seq::<u8>::empty());
    } else {
        let o = obus[0];
        let tail = obus.drop_first();
        assert forall|i: int| 0 <= i < tail.len() implies 0 < #[trigger] tail[i].len() < 0x1000_0000 by {
            assert(tail[i] == obus[i + 1]);
        }
        lemma_sized_obus(tail);
        let rest = o + size_prefixed(tail);
        lemma_leb_encode(o.len());
        lemma_leb128_of_encoded(o.len(), rest);
        let e = leb_encode(o.len());
        let d = size_prefixed(obus);
        assert(d =~= e + rest);
        let n = e.len();
        assert(leb128_of(d) == Some((o.len() as usize, n as usize)));
        assert(o.len() as usize == o.len());
        assert(n as usize == n);
        assert(n + o.len() <= d.len());
        assert(d.subrange(n as int, (n + o.len()) as int) =~= o);
        assert(d.skip((n + o.len()) as int) =~= size_prefixed(tail));
        assert(sized_obus(d) == d.subrange(n as int, (n + o.len()) as int) + sized_obus(d.skip((n + o.len()) as int)));
        assert(concat_obus(obus) == o + concat_obus(tail));
    }
}

} // verus!
