//! SubRip (`.srt`) subtitles: parsing cue blocks into a track ordered by start
//! time, and looking up the cue shown at a given time.
//!
//! Times are held in microseconds.
use vstd::prelude::*;
use crate::text::{
    all_digits, dec_value, digit_run, digit_run_len, is_prefix, lines_of, occurs_at, occurs_at_exec,
    parse_u64_digits, split_by, split_lines, split_str, sub_chars, trim, trim_chars, views,
    chars_of, string_of, rfind, rfind_char,
};

verus! {

/// `s` with every non-overlapping occurrence of `p` (found left to right) removed.
pub open spec fn remove_all(s: Seq<char>, p: Seq<char>) -> Seq<char>
    decreases s.len(),
{
    if s.len() == 0 || p.len() == 0 {
        s
    } else if is_prefix(p, s) {
        remove_all(s.skip(p.len() as int), p)
    } else {
        seq![s[0]] + remove_all(s.skip(1), p)
    }
}

/// Cue text with the italic and bold markup tags removed, one tag kind after another.
pub open spec fn strip_tags(s: Seq<char>) -> Seq<char> {
    remove_all(remove_all(remove_all(remove_all(s, "<i>"@), "</i>"@), "<b>"@), "</b>"@)
}

/// The lines joined with `\n` between them.
pub open spec fn join_lines(lines: Seq<Seq<char>>) -> Seq<char>
    decreases lines.len(),
{
    if lines.len() == 0 {
        Seq::empty()
    } else if lines.len() == 1 {
        lines[0]
    } else {
        join_lines(lines.drop_last()) + seq!['\n'] + lines.last()
    }
}

proof fn lemma_prefix_occurs(s: Seq<char>, p: Seq<char>, i: int)
    requires
        0 <= i <= s.len(),
    ensures
        is_prefix(p, s.skip(i)) == occurs_at(s, p, i),
{
    if i + p.len() <= s.len() {
        assert(s.skip(i).take(p.len() as int) =~= s.subrange(i, i + p.len()));
    }
}

/// The characters of `s` with every occurrence of the non-empty text `p` removed.
pub fn remove_all_chars(s: &[char], p: &[char]) -> (r: Vec<char>)
    requires
        p@.len() > 0,
    ensures
        r@ == remove_all(s@, p@),
{
    let mut out: Vec<char> = Vec::new();
    let mut i: usize = 0;
    assert(s@.skip(0) =~= s@);
    while i < s.len()
        invariant
            i <= s@.len(),
            p@.len() > 0,
            out@ + remove_all(s@.skip(i as int), p@) == remove_all(s@, p@),
        decreases s@.len() - i,
    {
        let ghost rest = s@.skip(i as int);
        proof {
            lemma_prefix_occurs(s@, p@, i as int);
        }
        if occurs_at_exec(s, p, i) {
            assert(rest.skip(p@.len() as int) =~= s@.skip(i + p@.len()));
            i = i + p.len();
        } else {
            assert(rest.skip(1) =~= s@.skip(i + 1));
            assert(rest[0] == s@[i as int]);
            let ghost before = out@;
            out.push(s[i]);
            assert(out@ + remove_all(s@.skip(i + 1), p@) =~= before + (seq![rest[0]]
                + remove_all(rest.skip(1), p@)));
            i = i + 1;
        }
    }
    assert(s@.skip(i as int) =~= Seq::<char>::empty());
    assert(out@ + Seq::<char>::empty() =~= out@);
    out
}

/// The characters of `s` with the `<i>`, `</i>`, `<b>` and `</b>` tags removed.
pub fn strip_tag_chars(s: &[char]) -> (r: Vec<char>)
    ensures
        r@ == strip_tags(s@),
{
    proof {
        reveal_strlit("<i>");
        reveal_strlit("</i>");
        reveal_strlit("<b>");
        reveal_strlit("</b>");
    }
    let a = chars_of("<i>");
    let b = chars_of("</i>");
    let c = chars_of("<b>");
    let d = chars_of("</b>");
    let t1 = remove_all_chars(s, a.as_slice());
    let t2 = remove_all_chars(t1.as_slice(), b.as_slice());
    let t3 = remove_all_chars(t2.as_slice(), c.as_slice());
    remove_all_chars(t3.as_slice(), d.as_slice())
}

/// The lines `lines[from..]` joined with `\n`.
pub fn join_lines_from(lines: &Vec<Vec<char>>, from: usize) -> (r: Vec<char>)
    requires
        from <= lines@.len(),
    ensures
        r@ == join_lines(views(lines@).skip(from as int)),
{
    let mut out: Vec<char> = Vec::new();
    let mut i = from;
    assert(views(lines@).skip(from as int).take(0) =~= Seq::<Seq<char>>::empty());
    while i < lines.len()
        invariant
            from <= i <= lines@.len(),
            out@ == join_lines(views(lines@).skip(from as int).take(i - from)),
        decreases lines@.len() - i,
    {
        let ghost all = views(lines@).skip(from as int);
        let ghost next = all.take(i - from + 1);
        assert(next.drop_last() =~= all.take(i - from));
        assert(next.last() == lines@[i as int]@);
        if i > from {
            out.push('\n');
        }
        let line = &lines[i];
        let mut k: usize = 0;
        let ghost base = out@;
        while k < line.len()
            invariant
                k <= line@.len(),
                out@ == base + line@.take(k as int),
            decreases line@.len() - k,
        {
            out.push(line[k]);
            k = k + 1;
            assert(out@ =~= base + line@.take(k as int));
        }
        assert(line@.take(k as int) =~= line@);
        proof {
            if i > from {
                assert(out@ =~= join_lines(next.drop_last()) + seq!['\n'] + next.last());
            } else {
                assert(next.len() == 1);
                assert(out@ =~= next[0]);
            }
        }
        i = i + 1;
    }
    assert(views(lines@).skip(from as int).take(i - from) =~= views(lines@).skip(from as int));
    out
}

/// Ten to the power `n`.
pub open spec fn pow10(n: nat) -> nat
    decreases n,
{
    if n == 0 {
        1
    } else {
        pow10((n - 1) as nat) * 10
    }
}

proof fn lemma_pow10_values()
    ensures
        pow10(0) == 1,
        pow10(1) == 10,
        pow10(2) == 100,
        pow10(3) == 1_000,
        pow10(4) == 10_000,
        pow10(5) == 100_000,
        pow10(6) == 1_000_000,
{
    assert(pow10(0) == 1);
    assert(pow10(1) == 10);
    assert(pow10(2) == 100);
    assert(pow10(3) == 1_000);
    assert(pow10(4) == 10_000);
    assert(pow10(5) == 100_000);
    assert(pow10(6) == 1_000_000);
}

/// The first six fraction digits, padded with zeros to six.
pub open spec fn pad6(f: Seq<char>) -> Seq<char> {
    if f.len() >= 6 {
        f.take(6)
    } else {
        f + Seq::new((6 - f.len()) as nat, |k: int| '0')
    }
}

/// The microseconds in the unsigned decimal number `s` (`D*` or `D*.D*`, with
/// at least one digit); fraction digits past the sixth are dropped.
pub open spec fn decimal_us(s: Seq<char>) -> Option<nat> {
    let ip = digit_run(s);
    let rest = s.skip(ip.len() as int);
    if rest.len() == 0 {
        if ip.len() == 0 {
            None
        } else {
            Some(dec_value(ip) * 1_000_000)
        }
    } else if rest[0] == '.' {
        let fp = rest.skip(1);
        if digit_run(fp).len() != fp.len() || ip.len() + fp.len() == 0 {
            None
        } else {
            Some(dec_value(ip) * 1_000_000 + dec_value(pad6(fp)))
        }
    } else {
        None
    }
}

/// `s` with each `,` turned into `.`.
pub open spec fn commas_to_dots(s: Seq<char>) -> Seq<char> {
    s.map_values(|c: char| if c == ',' { '.' } else { c })
}

/// The microseconds of an SRT timestamp, `h:m:s` or `m:s`, each part a
/// decimal number and the seconds' decimal mark `.` or `,`.
pub open spec fn timestamp_us(s: Seq<char>) -> Option<nat> {
    let segs = split_by(commas_to_dots(trim(s)), ":"@);
    if segs.len() == 3 {
        match (decimal_us(segs[0]), decimal_us(segs[1]), decimal_us(segs[2])) {
            (Some(h), Some(m), Some(sec)) => Some(h * 3600 + m * 60 + sec),
            _ => None,
        }
    } else if segs.len() == 2 {
        match (decimal_us(segs[0]), decimal_us(segs[1])) {
            (Some(m), Some(sec)) => Some(m * 60 + sec),
            _ => None,
        }
    } else {
        None
    }
}

/// A value that fits in `u64`.
pub open spec fn fits_u64(v: Option<nat>) -> Option<u64> {
    match v {
        Some(x) => if x <= u64::MAX {
            Some(x as u64)
        } else {
            None
        },
        None => None,
    }
}

proof fn lemma_digit_run_digits(s: Seq<char>)
    ensures
        forall|j: int| 0 <= j < digit_run(s).len() ==> '0' <= #[trigger] digit_run(s)[j] <= '9',
        digit_run(s).len() <= s.len(),
        digit_run(s) == s.take(digit_run(s).len() as int),
    decreases s.len(),
{
    if s.len() > 0 && '0' <= s[0] && s[0] <= '9' {
        lemma_digit_run_digits(s.drop_first());
        let d = digit_run(s);
        assert(d == seq![s[0]] + digit_run(s.drop_first()));
        assert forall|j: int| 0 <= j < d.len() implies '0' <= #[trigger] d[j] <= '9' by {
            if j > 0 {
                assert(d[j] == digit_run(s.drop_first())[j - 1]);
            }
        }
        assert(d =~= s.take(d.len() as int));
    } else {
        assert(s.take(0) =~= Seq::<char>::empty());
    }
}

proof fn lemma_dec_value_step(d: Seq<char>, k: int)
    requires
        0 <= k < d.len(),
    ensures
        dec_value(d.take(k + 1)) == dec_value(d.take(k)) * 10 + ((d[k] as u32) - ('0' as u32)) as nat,
{
    assert(d.take(k + 1).drop_last() =~= d.take(k));
}

/// The microseconds of the decimal number in `s`; `None` when `s` is not such a
/// number or the value exceeds `u64::MAX`.
pub fn decimal_us_of(s: &[char]) -> (r: Option<u64>)
    ensures
        r == fits_u64(decimal_us(s@)),
{
    proof {
        lemma_digit_run_digits(s@);
        assert(s@.skip(0) =~= s@);
    }
    let n = digit_run_len(s, 0);
    let ip = sub_chars(s, 0, n);
    assert(ip@ == digit_run(s@));
    let ghost rest = s@.skip(n as int);
    if n < s.len() && s[n] != '.' {
        return None;
    }
    if n == s.len() && n == 0 {
        return None;
    }
    let ghost fp = rest.skip(1);
    let mut frac: u64 = 0;
    if n < s.len() {
        proof {
            lemma_digit_run_digits(fp);
            assert(rest.skip(1) =~= s@.skip(n + 1));
        }
        let m = digit_run_len(s, n + 1);
        assert(n + 1 + m <= s.len());
        if n + 1 + m != s.len() {
            assert(digit_run(fp).len() == m);
            return None;
        }
        if n + m == 0 {
            return None;
        }
        assert(digit_run(fp).len() == fp.len());
        let slen = s.len();
        let mut k: usize = 0;
        let ghost pad = pad6(fp);
        assert(pad.len() == 6);
        while k < 6
            invariant
                k <= 6,
                slen == s@.len(),
                n + 1 + m == s@.len(),
                fp == s@.skip(n + 1),
                fp.len() == m,
                pad == pad6(fp),
                pad.len() == 6,
                frac == dec_value(pad.take(k as int)),
                forall|j: int| 0 <= j < fp.len() ==> '0' <= #[trigger] fp[j] <= '9',
                frac < pow10(k as nat),
            decreases 6 - k,
        {
            proof {
                lemma_pow10_values();
                assert(k == 0 || k == 1 || k == 2 || k == 3 || k == 4 || k == 5);
                assert(frac < 100_000);
            }
            let ch = if k < m {
                assert(n + 1 + k < s@.len());
                s[n + 1 + k]
            } else {
                '0'
            };
            assert(pad[k as int] == ch) by {
                if k < m {
                    assert(fp[k as int] == s@[n + 1 + k]);
                }
            }
            assert('0' <= ch <= '9');
            let digit = (ch as u32 - '0' as u32) as u64;
            proof {
                lemma_dec_value_step(pad, k as int);
            }
            assert(pow10((k + 1) as nat) == pow10(k as nat) * 10);
            assert(frac * 10 + digit < pow10((k + 1) as nat)) by (nonlinear_arith)
                requires
                    frac < pow10(k as nat),
                    digit <= 9,
                    pow10((k + 1) as nat) == pow10(k as nat) * 10,
            ;
            frac = frac * 10 + digit;
            k = k + 1;
        }
        assert(pad.take(6) =~= pad);
    }
    let iv = parse_u64_digits(ip.as_slice());
    match iv {
        None => None,
        Some(v) => {
            match v.checked_mul(1_000_000) {
                None => None,
                Some(w) => {
                    if n == s.len() {
                        Some(w)
                    } else {
                        w.checked_add(frac)
                    }
                },
            }
        },
    }
}

/// The characters of `s` with each `,` turned into `.`.
fn commas_to_dots_chars(s: &[char]) -> (r: Vec<char>)
    ensures
        r@ == commas_to_dots(s@),
{
    let mut out: Vec<char> = Vec::new();
    let mut i: usize = 0;
    while i < s.len()
        invariant
            i <= s@.len(),
            out@ == commas_to_dots(s@.take(i as int)),
        decreases s@.len() - i,
    {
        let c = if s[i] == ',' {
            '.'
        } else {
            s[i]
        };
        out.push(c);
        i = i + 1;
        assert(out@ =~= commas_to_dots(s@.take(i as int)));
    }
    assert(s@.take(i as int) =~= s@);
    out
}

fn timestamp_of_chars(c: &[char]) -> (r: Option<u64>)
    ensures
        r == fits_u64(timestamp_us(c@)),
{
    proof {
        reveal_strlit(":");
    }
    let t = trim_chars(c);
    let d = commas_to_dots_chars(t.as_slice());
    let segs = split_str(d.as_slice(), ":");
    let ghost v = views(segs@);
    if segs.len() == 3 {
        assert(v[0] == segs@[0]@ && v[1] == segs@[1]@ && v[2] == segs@[2]@);
        let h = decimal_us_of(segs[0].as_slice());
        let m = decimal_us_of(segs[1].as_slice());
        let sec = decimal_us_of(segs[2].as_slice());
        match (h, m, sec) {
            (Some(h), Some(m), Some(sec)) => {
                let hh = match h.checked_mul(3600) {
                    Some(x) => x,
                    None => return None,
                };
                let mm = match m.checked_mul(60) {
                    Some(x) => x,
                    None => return None,
                };
                match hh.checked_add(mm) {
                    Some(x) => x.checked_add(sec),
                    None => None,
                }
            },
            _ => None,
        }
    } else if segs.len() == 2 {
        assert(v[0] == segs@[0]@ && v[1] == segs@[1]@);
        let m = decimal_us_of(segs[0].as_slice());
        let sec = decimal_us_of(segs[1].as_slice());
        match (m, sec) {
            (Some(m), Some(sec)) => {
                match m.checked_mul(60) {
                    Some(x) => x.checked_add(sec),
                    None => None,
                }
            },
            _ => None,
        }
    } else {
        None
    }
}

/// Reads an SRT timestamp (`01:02:03,456` or `02:30.000`) as microseconds;
/// `None` when it is malformed or beyond `u64::MAX` microseconds.
pub fn parse_srt_timestamp(s: &str) -> (r: Option<u64>)
    ensures
        r == fits_u64(timestamp_us(s@)),
{
    let c = chars_of(s);
    timestamp_of_chars(c.as_slice())
}

/// The start and end of an SRT timing line `start --> end`.
pub open spec fn time_range(line: Seq<char>) -> Option<(u64, u64)> {
    let parts = split_by(line, "-->"@);
    if parts.len() != 2 {
        None
    } else {
        match (fits_u64(timestamp_us(trim(parts[0]))), fits_u64(timestamp_us(trim(parts[1])))) {
            (Some(a), Some(b)) => Some((a, b)),
            _ => None,
        }
    }
}

fn time_range_of_chars(line: &[char]) -> (r: Option<(u64, u64)>)
    ensures
        r == time_range(line@),
{
    proof {
        reveal_strlit("-->");
    }
    let parts = split_str(line, "-->");
    if parts.len() != 2 {
        return None;
    }
    assert(views(parts@)[0] == parts@[0]@ && views(parts@)[1] == parts@[1]@);
    let a = trim_chars(parts[0].as_slice());
    let b = trim_chars(parts[1].as_slice());
    match (timestamp_of_chars(a.as_slice()), timestamp_of_chars(b.as_slice())) {
        (Some(x), Some(y)) => Some((x, y)),
        _ => None,
    }
}

/// Reads an SRT timing line `start --> end` into microseconds.
pub fn parse_srt_time_range(line: &str) -> (r: Option<(u64, u64)>)
    ensures
        r == time_range(line@),
{
    let c = chars_of(line);
    time_range_of_chars(c.as_slice())
}

/// The cue of one (trimmed) block: an optional all-digit index line, the
/// timing line, then the text lines joined with `\n` and stripped of markup.
/// A block with fewer than two lines or a bad timing line gives none.
pub open spec fn block_cue(block: Seq<char>) -> Option<(u64, u64, Seq<char>)> {
    let lines = lines_of(block);
    if lines.len() < 2 {
        None
    } else {
        let numbered = all_digits(lines[0]) && lines.len() >= 3;
        let time_line = if numbered {
            lines[1]
        } else {
            lines[0]
        };
        let text_start: int = if numbered {
            2
        } else {
            1
        };
        match time_range(time_line) {
            None => None,
            Some((a, b)) => Some((a, b, strip_tags(join_lines(lines.skip(text_start))))),
        }
    }
}

/// The cues of the blocks, in block order; blank blocks and blocks without a
/// cue are skipped.
pub open spec fn cues_of_blocks(blocks: Seq<Seq<char>>) -> Seq<(u64, u64, Seq<char>)>
    decreases blocks.len(),
{
    if blocks.len() == 0 {
        Seq::empty()
    } else {
        let t = trim(blocks.last());
        cues_of_blocks(blocks.drop_last()) + if t.len() == 0 {
            Seq::<(u64, u64, Seq<char>)>::empty()
        } else {
            match block_cue(t) {
                Some(c) => seq![c],
                None => Seq::<(u64, u64, Seq<char>)>::empty(),
            }
        }
    }
}

/// The cues of an SRT document, in document order (blocks are separated by a blank line).
pub open spec fn srt_cues(content: Seq<char>) -> Seq<(u64, u64, Seq<char>)> {
    cues_of_blocks(split_by(content, seq!['\n', '\n']))
}

/// `c` placed after every cue of `s`, counted from the end, that starts after it.
pub open spec fn insert_by_start(s: Seq<(u64, u64, Seq<char>)>, c: (u64, u64, Seq<char>)) -> Seq<
    (u64, u64, Seq<char>),
>
    decreases s.len(),
{
    if s.len() == 0 {
        seq![c]
    } else if s.last().0 <= c.0 {
        s.push(c)
    } else {
        insert_by_start(s.drop_last(), c).push(s.last())
    }
}

/// The cues stably sorted by start time (cues that start together keep their order).
pub open spec fn sort_by_start(s: Seq<(u64, u64, Seq<char>)>) -> Seq<(u64, u64, Seq<char>)>
    decreases s.len(),
{
    if s.len() == 0 {
        s
    } else {
        insert_by_start(sort_by_start(s.drop_last()), s.last())
    }
}

/// The cues are in order of start time.
pub open spec fn ordered_by_start(s: Seq<(u64, u64, Seq<char>)>) -> bool {
    forall|i: int, j: int| 0 <= i <= j < s.len() ==> s[i].0 <= s[j].0
}

/// One subtitle: shown from `start_us` (inclusive) to `end_us` (exclusive).
#[derive(Debug, Clone)]
pub struct SubtitleCue {
    pub start_us: u64,
    pub end_us: u64,
    pub text: String,
}

/// The values a cue holds.
pub open spec fn cue_view(c: SubtitleCue) -> (u64, u64, Seq<char>) {
    (c.start_us, c.end_us, c.text@)
}

/// The values the cues hold, in order.
pub open spec fn cue_views(s: Seq<SubtitleCue>) -> Seq<(u64, u64, Seq<char>)> {
    s.map_values(|c: SubtitleCue| cue_view(c))
}

fn all_digits_chars(s: &[char]) -> (b: bool)
    ensures
        b == all_digits(s@),
{
    let mut i: usize = 0;
    while i < s.len()
        invariant
            i <= s@.len(),
            forall|j: int| 0 <= j < i ==> '0' <= #[trigger] s@[j] <= '9',
        decreases s@.len() - i,
    {
        if !('0' <= s[i] && s[i] <= '9') {
            return false;
        }
        i = i + 1;
    }
    true
}

fn cue_of_block(block: &[char]) -> (r: Option<SubtitleCue>)
    ensures
        match r {
            Some(c) => block_cue(block@) == Some(cue_view(c)),
            None => block_cue(block@) is None,
        },
{
    let lines = split_lines(block);
    let ghost v = views(lines@);
    if lines.len() < 2 {
        return None;
    }
    assert(v[0] == lines@[0]@ && v[1] == lines@[1]@);
    let numbered = all_digits_chars(lines[0].as_slice()) && lines.len() >= 3;
    let (tl, start): (usize, usize) = if numbered {
        (1, 2)
    } else {
        (0, 1)
    };
    match time_range_of_chars(lines[tl].as_slice()) {
        None => None,
        Some((a, b)) => {
            let joined = join_lines_from(&lines, start);
            let text = strip_tag_chars(joined.as_slice());
            Some(SubtitleCue { start_us: a, end_us: b, text: string_of(text.as_slice()) })
        },
    }
}

proof fn lemma_insert_split(s: Seq<(u64, u64, Seq<char>)>, c: (u64, u64, Seq<char>), j: int)
    requires
        0 < j <= s.len(),
        s[j - 1].0 > c.0,
    ensures
        insert_by_start(s.take(j), c) + s.skip(j) == insert_by_start(s.take(j - 1), c) + s.skip(
            j - 1,
        ),
{
    let t = s.take(j);
    assert(t.drop_last() =~= s.take(j - 1));
    assert(t.last() == s[j - 1]);
    assert(insert_by_start(t, c) == insert_by_start(s.take(j - 1), c).push(s[j - 1]));
    assert(s.skip(j - 1) =~= seq![s[j - 1]] + s.skip(j));
    assert(insert_by_start(s.take(j - 1), c).push(s[j - 1]) + s.skip(j) =~= insert_by_start(
        s.take(j - 1),
        c,
    ) + s.skip(j - 1));
}

/// Inserts `c` after the cues that start no later than it (searching from the end).
fn insert_cue(cues: &mut Vec<SubtitleCue>, c: SubtitleCue)
    ensures
        cue_views(final(cues)@) == insert_by_start(cue_views(old(cues)@), cue_view(c)),
{
    let ghost v = cue_views(cues@);
    let mut j = cues.len();
    assert(v.take(j as int) =~= v);
    assert(v.skip(j as int) =~= Seq::<(u64, u64, Seq<char>)>::empty());
    assert(insert_by_start(v.take(j as int), cue_view(c)) + v.skip(j as int) =~= insert_by_start(v, cue_view(c)));
    while j > 0 && cues[j - 1].start_us > c.start_us
        invariant
            j <= cues@.len(),
            v == cue_views(cues@),
            insert_by_start(v, cue_view(c)) == insert_by_start(v.take(j as int), cue_view(c))
                + v.skip(j as int),
        decreases j,
    {
        assert(v[j - 1] == cue_view(cues@[j - 1]));
        proof {
            lemma_insert_split(v, cue_view(c), j as int);
        }
        j = j - 1;
    }
    proof {
        if j > 0 {
            assert(v[j - 1] == cue_view(cues@[j - 1]));
            let t = v.take(j as int);
            assert(t.last() == v[j - 1]);
            assert(insert_by_start(t, cue_view(c)) == t.push(cue_view(c)));
        } else {
            assert(v.take(0) =~= Seq::<(u64, u64, Seq<char>)>::empty());
        }
    }
    let ghost cv = cue_view(c);
    cues.insert(j, c);
    assert(cue_views(cues@) =~= v.take(j as int).push(cv) + v.skip(j as int));
}

/// The cues of a subtitle file, ordered by start time.
pub struct SubtitleTrack {
    cues: Vec<SubtitleCue>,
}

impl View for SubtitleTrack {
    type V = Seq<(u64, u64, Seq<char>)>;

    closed spec fn view(&self) -> Seq<(u64, u64, Seq<char>)> {
        cue_views(self.cues@)
    }
}

/// The cue at `i` is shown at time `t`.
pub open spec fn shows_at(c: (u64, u64, Seq<char>), t: u64) -> bool {
    c.0 <= t && t < c.1
}

/// The first cue, from position `i` on, shown at time `t`.
pub open spec fn first_shown_from(s: Seq<(u64, u64, Seq<char>)>, t: u64, i: int) -> Option<int>
    decreases s.len() - i,
{
    if i < 0 || i >= s.len() {
        None
    } else if shows_at(s[i], t) {
        Some(i)
    } else {
        first_shown_from(s, t, i + 1)
    }
}

/// The sidecar subtitle path of a video at `path` (`/`-separated): the
/// extension of its last component replaced by `srt`, or `.srt` appended
/// when it has none (a leading `.` starts no extension); a path whose last
/// component is empty, `.` or `..` names no file and is kept as it is.
pub open spec fn srt_path_for(path: Seq<char>) -> Seq<char> {
    let start = match rfind_char(path, '/') {
        Some(i) => i + 1,
        None => 0,
    };
    let name = path.skip(start);
    if name.len() == 0 || name == "."@ || name == ".."@ {
        path
    } else {
        match rfind_char(name, '.') {
            Some(d) => if d > 0 {
                path.take(start + d) + ".srt"@
            } else {
                path + ".srt"@
            },
            None => path + ".srt"@,
        }
    }
}

impl SubtitleTrack {
    /// Where the subtitles of the video at `video_path` are looked for: the
    /// same path with the extension `srt` (see `srt_path_for`).
    pub fn path_for_video(video_path: &str) -> (r: String)
        ensures
            r@ == srt_path_for(video_path@),
    {
        proof {
            reveal_strlit(".");
            reveal_strlit("..");
            reveal_strlit(".srt");
        }
        let p = chars_of(video_path);
        let ext = chars_of(".srt");
        let start: usize = match rfind(p.as_slice(), '/') {
            Some(i) => i + 1,
            None => 0,
        };
        let name = sub_chars(p.as_slice(), start, p.len());
        assert(name@ =~= p@.skip(start as int));
        let n = name.len();
        let unnamed = n == 0 || (n == 1 && name[0] == '.') || (n == 2 && name[0] == '.' && name[1] == '.');
        assert(unnamed == (name@.len() == 0 || name@ == "."@ || name@ == ".."@)) by {
            if name@.len() == 1 && name@[0] == '.' {
                assert(name@ =~= "."@);
            }
            if name@.len() == 2 && name@[0] == '.' && name@[1] == '.' {
                assert(name@ =~= ".."@);
            }
        }
        if unnamed {
            return string_of(p.as_slice());
        }
        let keep: usize = match rfind(name.as_slice(), '.') {
            Some(d) => if d > 0 {
                start + d
            } else {
                p.len()
            },
            None => p.len(),
        };
        let mut out = sub_chars(p.as_slice(), 0, keep);
        let mut j: usize = 0;
        while j < ext.len()
            invariant
                j <= ext@.len(),
                ext@ == ".srt"@,
                keep <= p@.len(),
                out@ == p@.take(keep as int) + ext@.take(j as int),
            decreases ext@.len() - j,
        {
            out.push(ext[j]);
            j = j + 1;
            assert(out@ =~= p@.take(keep as int) + ext@.take(j as int));
        }
        assert(ext@.take(j as int) =~= ext@);
        assert(p@.take(p@.len() as int) =~= p@);
        string_of(out.as_slice())
    }

    /// Parses an SRT document; its cues come out stably sorted by start time.
    pub fn from_srt(content: &str) -> (r: Result<SubtitleTrack, crate::error::PlayerError>)
        ensures
            r matches Ok(t) && t@ == sort_by_start(srt_cues(content@)),
    {
        let c = chars_of(content);
        proof {
            reveal_strlit("\n\n");
            assert("\n\n"@ =~= seq!['\n', '\n']);
        }
        let blocks = split_str(c.as_slice(), "\n\n");
        let ghost bv = views(blocks@);
        let mut cues: Vec<SubtitleCue> = Vec::new();
        let mut i: usize = 0;
        assert(bv.take(0) =~= Seq::<Seq<char>>::empty());
        while i < blocks.len()
            invariant
                i <= blocks@.len(),
                bv == views(blocks@),
                cue_views(cues@) == sort_by_start(cues_of_blocks(bv.take(i as int))),
            decreases blocks@.len() - i,
        {
            let ghost prev = cues_of_blocks(bv.take(i as int));
            assert(bv.take(i + 1).drop_last() =~= bv.take(i as int));
            assert(bv.take(i + 1).last() == blocks@[i as int]@);
            let b = trim_chars(blocks[i].as_slice());
            if b.len() > 0 {
                match cue_of_block(b.as_slice()) {
                    Some(cue) => {
                        let ghost cv = cue_view(cue);
                        insert_cue(&mut cues, cue);
                        assert(cues_of_blocks(bv.take(i + 1)) == prev + seq![cv]);
                        assert((prev + seq![cv]).drop_last() =~= prev);
                    },
                    None => {
                        assert(cues_of_blocks(bv.take(i + 1)) =~= prev);
                    },
                }
            } else {
                assert(cues_of_blocks(bv.take(i + 1)) =~= prev);
            }
            i = i + 1;
        }
        assert(bv.take(i as int) =~= bv);
        Ok(SubtitleTrack { cues })
    }

    /// The first cue shown at `time_us`.
    pub fn cue_at(&self, time_us: u64) -> (r: Option<&SubtitleCue>)
        ensures
            match r {
                Some(c) => first_shown_from(self@, time_us, 0) matches Some(i) && self@[i]
                    == cue_view(*c) && c.start_us <= time_us && time_us < c.end_us,
                None => first_shown_from(self@, time_us, 0) is None,
            },
    {
        let mut i: usize = 0;
        while i < self.cues.len()
            invariant
                i <= self.cues@.len(),
                first_shown_from(self@, time_us, 0) == first_shown_from(self@, time_us, i as int),
            decreases self.cues@.len() - i,
        {
            assert(self@[i as int] == cue_view(self.cues@[i as int]));
            if self.cues[i].start_us <= time_us && time_us < self.cues[i].end_us {
                return Some(&self.cues[i]);
            }
            i = i + 1;
        }
        None
    }

    /// Whether the track has no cues.
    pub fn is_empty(&self) -> (b: bool)
        ensures
            b == (self@.len() == 0),
    {
        self.cues.len() == 0
    }

    /// The cues, in order.
    pub fn cues(&self) -> (r: &[SubtitleCue])
        ensures
            cue_views(r@) == self@,
    {
        self.cues.as_slice()
    }
}

proof fn lemma_insert_by_start(s: Seq<(u64, u64, Seq<char>)>, c: (u64, u64, Seq<char>))
    ensures
        ordered_by_start(s) ==> ordered_by_start(insert_by_start(s, c)),
        insert_by_start(s, c).to_multiset() =~= s.to_multiset().insert(c),
        forall|x: (u64, u64, Seq<char>)| #[trigger]
            insert_by_start(s, c).contains(x) ==> x == c || s.contains(x),
    decreases s.len(),
{
    broadcast use vstd::seq_lib::group_to_multiset_ensures;

    let r = insert_by_start(s, c);
    if s.len() == 0 {
        assert(r =~= seq![c]);
        assert(Seq::<(u64, u64, Seq<char>)>::empty().push(c) =~= seq![c]);
        assert(s =~= Seq::<(u64, u64, Seq<char>)>::empty());
    } else if s.last().0 <= c.0 {
        assert forall|x: (u64, u64, Seq<char>)| #[trigger] r.contains(x) implies x == c
            || s.contains(x) by {
            let k = choose|k: int| 0 <= k < r.len() && r[k] == x;
            if k < s.len() {
                assert(s[k] == x);
            }
        }
    } else {
        let d = s.drop_last();
        lemma_insert_by_start(d, c);
        let q = insert_by_start(d, c);
        assert(r == q.push(s.last()));
        assert(s =~= d.push(s.last()));
        assert forall|x: (u64, u64, Seq<char>)| #[trigger] r.contains(x) implies x == c
            || s.contains(x) by {
            let k = choose|k: int| 0 <= k < r.len() && r[k] == x;
            if k < q.len() {
                assert(q.contains(q[k]));
                if q[k] != c {
                    let m = choose|m: int| 0 <= m < d.len() && d[m] == q[k];
                    assert(s[m] == x);
                }
            } else {
                assert(s[s.len() - 1] == x);
            }
        }
        if ordered_by_start(s) {
            assert(ordered_by_start(d));
            assert forall|i: int, j: int| 0 <= i <= j < r.len() implies r[i].0 <= r[j].0 by {
                if j == r.len() - 1 && i < j {
                    assert(q.contains(q[i]));
                    if q[i] != c {
                        let m = choose|m: int| 0 <= m < d.len() && d[m] == q[i];
                        assert(s[m] == q[i]);
                    }
                }
            }
        }
    }
}

proof fn lemma_sort_by_start(s: Seq<(u64, u64, Seq<char>)>)
    ensures
        ordered_by_start(sort_by_start(s)),
        sort_by_start(s).to_multiset() =~= s.to_multiset(),
    decreases s.len(),
{
    broadcast use vstd::seq_lib::group_to_multiset_ensures;

    if s.len() > 0 {
        lemma_sort_by_start(s.drop_last());
        lemma_insert_by_start(sort_by_start(s.drop_last()), s.last());
        assert(s =~= s.drop_last().push(s.last()));
    } else {
        assert(s.to_multiset() =~= vstd::multiset::Multiset::empty());
    }
}

/// A parsed track lists its cues in order of start time.
pub proof fn law_track_ordered_by_start(content: Seq<char>)
    ensures
        ordered_by_start(sort_by_start(srt_cues(content))),
{
    lemma_sort_by_start(srt_cues(content));
}

/// Sorting keeps every parsed cue, each as often as it was parsed.
pub proof fn law_track_keeps_every_cue(content: Seq<char>)
    ensures
        sort_by_start(srt_cues(content)).to_multiset() == srt_cues(content).to_multiset(),
{
    lemma_sort_by_start(srt_cues(content));
}

} // verus!
