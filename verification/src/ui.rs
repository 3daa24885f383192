//! What the player's interface shows: the view handed to the drawing code,
//! time labels and the drop overlay's text.
use vstd::prelude::*;
use crate::audio::PlaybackClock;
use crate::i18n::{
    drop_subtitle_idle_text, drop_title_active_text, drop_title_idle_text, Locale,
};

verus! {

/// Everything the interface draws from, borrowed from the player for one frame.
pub struct PlayerView<'a> {
    pub clock: Option<&'a PlaybackClock>,
    pub filename: Option<&'a str>,
    pub has_media: bool,
    pub drag_active: bool,
    pub error: Option<&'a str>,
    pub warning: Option<&'a str>,
    pub subtitle: Option<&'a str>,
}

/// The ASCII digit of `d` (below ten).
pub open spec fn digit_char(d: nat) -> char {
    ((d + 48) as u8) as char
}

/// The decimal digits of `n`, without leading zeros ("0" for zero).
pub open spec fn decimal(n: nat) -> Seq<char>
    decreases n,
{
    if n < 10 {
        seq![digit_char(n)]
    } else {
        decimal(n / 10).push(digit_char(n % 10))
    }
}

/// `d` with zeros in front up to `width` characters.
pub open spec fn zero_pad(d: Seq<char>, width: nat) -> Seq<char> {
    if d.len() >= width {
        d
    } else {
        Seq::new((width - d.len()) as nat, |i: int| '0') + d
    }
}

/// A time label for `total_ms` milliseconds: `mm:ss.mmm`, with `hh:` in
/// front once the time reaches an hour (hours keep all their digits).
pub open spec fn time_label(total_ms: nat) -> Seq<char> {
    let ms = total_ms % 1000;
    let total_s = total_ms / 1000;
    let s = total_s % 60;
    let m = (total_s / 60) % 60;
    let h = total_s / 3600;
    let tail = zero_pad(decimal(m), 2) + seq![':'] + zero_pad(decimal(s), 2) + seq!['.'] + zero_pad(
        decimal(ms),
        3,
    );
    if h > 0 {
        zero_pad(decimal(h), 2) + seq![':'] + tail
    } else {
        tail
    }
}

fn push_decimal(out: &mut Vec<char>, n: u64)
    ensures
        final(out)@ == old(out)@ + decimal(n as nat),
    decreases n,
{
    if n >= 10 {
        push_decimal(out, n / 10);
    }
    let d = (n % 10) as u8;
    let c = (d + 48) as char;
    assert(c == digit_char((n % 10) as nat));
    out.push(c);
    proof {
        if n >= 10 {
            assert(decimal(n as nat) == decimal((n / 10) as nat).push(digit_char((n % 10) as nat)));
        }
        assert(final(out)@ =~= old(out)@ + decimal(n as nat));
    }
}

fn push_padded(out: &mut Vec<char>, n: u64, width: usize)
    ensures
        final(out)@ == old(out)@ + zero_pad(decimal(n as nat), width as nat),
{
    let mut digits: Vec<char> = Vec::new();
    push_decimal(&mut digits, n);
    assert(digits@ =~= decimal(n as nat));
    let mut k = digits.len();
    let ghost base = out@;
    while k < width
        invariant
            digits@ == decimal(n as nat),
            digits@.len() <= k <= width || (k == digits@.len() && k >= width),
            out@ == base + Seq::new((k - digits@.len()) as nat, |i: int| '0'),
        decreases width - k,
    {
        out.push('0');
        k = k + 1;
        assert(out@ =~= base + Seq::new((k - digits@.len()) as nat, |i: int| '0'));
    }
    let ghost zeros = out@;
    let mut i: usize = 0;
    while i < digits.len()
        invariant
            i <= digits@.len(),
            out@ == zeros + digits@.take(i as int),
        decreases digits@.len() - i,
    {
        out.push(digits[i]);
        i = i + 1;
        assert(out@ =~= zeros + digits@.take(i as int));
    }
    assert(digits@.take(i as int) =~= digits@);
    proof {
        if digits@.len() >= width {
            assert(Seq::new(0, |i: int| '0') =~= Seq::<char>::empty());
            assert(zeros =~= base);
        }
        assert(out@ =~= base + zero_pad(decimal(n as nat), width as nat));
    }
}

/// The label shown for a time of `total_ms` milliseconds.
pub fn format_time(total_ms: u64) -> (r: String)
    ensures
        r@ == time_label(total_ms as nat),
{
    let ms = total_ms % 1000;
    let total_s = total_ms / 1000;
    let s = total_s % 60;
    let m = (total_s / 60) % 60;
    let h = total_s / 3600;
    let mut out: Vec<char> = Vec::new();
    if h > 0 {
        push_padded(&mut out, h, 2);
        out.push(':');
    }
    push_padded(&mut out, m, 2);
    out.push(':');
    push_padded(&mut out, s, 2);
    out.push('.');
    push_padded(&mut out, ms, 3);
    assert(out@ =~= time_label(total_ms as nat));
    crate::text::string_of(out.as_slice())
}

/// The drop overlay's title and subtitle: shown while a file is dragged over
/// the window or while nothing is open.
pub fn drop_overlay_text(locale: Locale, drag_active: bool, has_media: bool) -> (r: Option<(&'static str, &'static str)>)
    ensures
        !(drag_active || !has_media) ==> r is None,
        (drag_active || !has_media) ==> (r matches Some((t, s)) && if drag_active {
            t@ == drop_title_active_text(locale.lang()) && s@ == crate::i18n::supported_formats_text()
        } else {
            t@ == drop_title_idle_text(locale.lang()) && s@ == drop_subtitle_idle_text(locale.lang())
        }),
{
    if !(drag_active || !has_media) {
        return None;
    }
    if drag_active {
        Some((locale.drop_title_active(), locale.drop_subtitle_active()))
    } else {
        Some((locale.drop_title_idle(), locale.drop_subtitle_idle()))
    }
}

} // verus!
