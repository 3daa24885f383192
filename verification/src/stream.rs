//! Remote media sources: URL classification, HLS playlist reading and URL resolution.
//! Fetching the bytes is the application's job; this module decides what to fetch.
use vstd::prelude::*;
use vstd::string::StringExecFns;
use crate::text::{
    ascii_lower, file_extension, lowercase_chars, path_extension,
    lines_of, split_lines, trim, trim_chars, views,
    chars_of, contains, dec_value, digit_run, digit_run_len, find, find_str, is_prefix,
    lemma_find_from_bound, parse_u64_digits, rfind, rfind_char, starts_with, string_of, sub_chars,
    find_from, occurs_at,
};

verus! {

/// `s` is an HTTP(S) URL.
pub open spec fn is_url(s: Seq<char>) -> bool {
    is_prefix("http://"@, s) || is_prefix("https://"@, s)
}

/// Whether `s` names an HTTP or HTTPS stream rather than a local path.
pub fn is_stream_url(s: &str) -> (b: bool)
    ensures
        b == is_url(s@),
{
    let c = chars_of(s);
    is_url_chars(c.as_slice())
}

fn is_url_chars(c: &[char]) -> (b: bool)
    ensures
        b == is_url(c@),
{
    starts_with(c, "http://") || starts_with(c, "https://")
}

/// Where a path or URL is played from.
#[derive(Debug, PartialEq, Eq)]
pub enum MediaSource {
    /// A local file path.
    Local(String),
    /// A plain HTTP(S) download.
    Http(String),
    /// An HLS playlist whose segments are fetched and joined.
    Hls(String),
}

/// The source kind of `s`: URLs mentioning `.m3u8` are HLS playlists, other
/// URLs are plain downloads, everything else is a local path.
pub open spec fn source_kind(s: Seq<char>) -> int {
    if is_url(s) {
        if contains(s, ".m3u8"@) {
            2
        } else {
            1
        }
    } else {
        0
    }
}

/// Classifies a path or URL; the text is carried over unchanged.
pub fn resolve_media_source(path_or_url: &str) -> (r: MediaSource)
    ensures
        match r {
            MediaSource::Local(p) => source_kind(path_or_url@) == 0 && p@ == path_or_url@,
            MediaSource::Http(u) => source_kind(path_or_url@) == 1 && u@ == path_or_url@,
            MediaSource::Hls(u) => source_kind(path_or_url@) == 2 && u@ == path_or_url@,
        },
{
    let c = chars_of(path_or_url);
    if is_url_chars(c.as_slice()) {
        if find_str(c.as_slice(), ".m3u8").is_some() {
            MediaSource::Hls(String::from_str(path_or_url))
        } else {
            MediaSource::Http(String::from_str(path_or_url))
        }
    } else {
        MediaSource::Local(String::from_str(path_or_url))
    }
}

/// The `BANDWIDTH=` value of an HLS tag line: the digits right after it,
/// or 0 when the attribute is missing, has no digits or exceeds `u64::MAX`.
pub open spec fn bandwidth_of(line: Seq<char>) -> u64 {
    match find(line, "BANDWIDTH="@) {
        None => 0,
        Some(i) => {
            let d = digit_run(line.skip(i + 10));
            if d.len() == 0 || dec_value(d) > u64::MAX {
                0
            } else {
                dec_value(d) as u64
            }
        },
    }
}

/// Reads the `BANDWIDTH=` attribute of an HLS tag line (0 when absent or invalid).
pub fn parse_bandwidth(line: &str) -> (bw: u64)
    ensures
        bw == bandwidth_of(line@),
{
    let c = chars_of(line);
    bandwidth_chars(c.as_slice())
}

fn bandwidth_chars(c: &[char]) -> (bw: u64)
    ensures
        bw == bandwidth_of(c@),
{
    proof {
        reveal_strlit("BANDWIDTH=");
        lemma_find_from_bound(c@, "BANDWIDTH="@, 0);
    }
    match find_str(c, "BANDWIDTH=") {
        None => 0,
        Some(i) => {
            assert(i + 10 <= c.len());
            let start = i + 10;
            let n = digit_run_len(c, start);
            let digits = sub_chars(c, start, start + n);
            proof {
                assert forall|j: int| 0 <= j < digits@.len() implies '0' <= #[trigger] digits@[j]
                    <= '9' by {
                    lemma_digit_run_digits(c@.skip(start as int), j);
                }
            }
            if n == 0 {
                return 0;
            }
            match parse_u64_digits(digits.as_slice()) {
                Some(v) => v,
                None => 0,
            }
        },
    }
}

proof fn lemma_digit_run_digits(s: Seq<char>, j: int)
    requires
        0 <= j < digit_run(s).len(),
    ensures
        '0' <= digit_run(s)[j] <= '9',
    decreases s.len(),
{
    if j > 0 {
        lemma_digit_run_digits(s.drop_first(), j - 1);
    }
}

/// The directory part of a URL: everything up to and including its last `/`
/// (empty when there is none).
pub open spec fn dir_of(url: Seq<char>) -> Seq<char> {
    match rfind_char(url, '/') {
        Some(i) => url.take(i + 1),
        None => Seq::empty(),
    }
}

/// The directory part of a URL.
pub fn url_dir(url: &str) -> (r: String)
    ensures
        r@ == dir_of(url@),
{
    let c = chars_of(url);
    string_of(dir_chars(c.as_slice()).as_slice())
}

fn dir_chars(c: &[char]) -> (r: Vec<char>)
    ensures
        r@ == dir_of(c@),
{
    match rfind(c, '/') {
        Some(i) => sub_chars(c, 0, i + 1),
        None => Vec::new(),
    }
}

/// `relative` resolved against the directory URL `base`: absolute URLs are
/// kept, `/`-rooted paths go under the scheme and host of `base`, and any
/// other text is appended to `base`.
pub open spec fn resolved_url(base: Seq<char>, relative: Seq<char>) -> Seq<char> {
    if is_url(relative) {
        relative
    } else if is_prefix("/"@, relative) && find(base, "://"@) is Some && find(
        base.skip(find(base, "://"@).unwrap() + 3),
        "/"@,
    ) is Some {
        base.take(find(base, "://"@).unwrap() + 3 + find(
            base.skip(find(base, "://"@).unwrap() + 3),
            "/"@,
        ).unwrap()) + relative
    } else {
        base + relative
    }
}

/// Resolves `relative` against the directory URL `base`.
pub fn resolve_url(base: &str, relative: &str) -> (r: String)
    ensures
        r@ == resolved_url(base@, relative@),
{
    let b = chars_of(base);
    let rel = chars_of(relative);
    string_of(resolve_chars(b.as_slice(), rel.as_slice()).as_slice())
}

fn resolve_chars(base: &[char], relative: &[char]) -> (r: Vec<char>)
    ensures
        r@ == resolved_url(base@, relative@),
{
    proof {
        reveal_strlit("://");
        reveal_strlit("/");
    }
    if is_url_chars(relative) {
        return sub_chars(relative, 0, relative.len());
    }
    if starts_with(relative, "/") {
        proof {
            lemma_find_from_bound(base@, "://"@, 0);
        }
        if let Some(scheme_end) = find_str(base, "://") {
            let after = scheme_end + 3;
            let tail = sub_chars(base, after, base.len());
            assert(tail@ =~= base@.skip(after as int));
            proof {
                lemma_find_from_bound(tail@, "/"@, 0);
            }
            if let Some(host_end) = find_str(tail.as_slice(), "/") {
                let mut out = sub_chars(base, 0, after + host_end);
                let mut i: usize = 0;
                while i < relative.len()
                    invariant
                        i <= relative@.len(),
                        out@ == base@.take(after + host_end) + relative@.take(i as int),
                    decreases relative@.len() - i,
                {
                    out.push(relative[i]);
                    i = i + 1;
                    assert(out@ =~= base@.take(after + host_end) + relative@.take(i as int));
                }
                assert(relative@.take(i as int) =~= relative@);
                assert(base@.subrange(0, (after + host_end) as int) =~= base@.take(
                    after + host_end,
                ));
                return out;
            }
        }
    }
    let mut out = sub_chars(base, 0, base.len());
    let mut i: usize = 0;
    assert(base@.subrange(0, base@.len() as int) =~= base@);
    while i < relative.len()
        invariant
            i <= relative@.len(),
            out@ == base@ + relative@.take(i as int),
        decreases relative@.len() - i,
    {
        out.push(relative[i]);
        i = i + 1;
        assert(out@ =~= base@ + relative@.take(i as int));
    }
    assert(relative@.take(i as int) =~= relative@);
    out
}

/// Text content of a sequence of strings.
pub open spec fn string_views(r: Seq<String>) -> Seq<Seq<char>> {
    r.map_values(|s: String| s@)
}

/// Best variant of a master playlist from line `i` on, given the best so far:
/// each `#EXT-X-STREAM-INF:` line followed by a URI line (not starting with
/// `#`) is a candidate, and a candidate with bandwidth at least the best so far
/// replaces it (so the last of equal bandwidths wins).
pub open spec fn variant_scan(
    lines: Seq<Seq<char>>,
    base: Seq<char>,
    i: int,
    best_bw: u64,
    best: Option<Seq<char>>,
) -> (u64, Option<Seq<char>>)
    decreases lines.len() - i,
{
    if i < 0 || i >= lines.len() {
        (best_bw, best)
    } else {
        let line = trim(lines[i]);
        if is_prefix("#EXT-X-STREAM-INF:"@, line) && i + 1 < lines.len() {
            let bw = bandwidth_of(line);
            let uri = trim(lines[i + 1]);
            if !is_prefix("#"@, uri) && bw >= best_bw {
                variant_scan(lines, base, i + 1, bw, Some(resolved_url(base, uri)))
            } else {
                variant_scan(lines, base, i + 1, best_bw, best)
            }
        } else {
            variant_scan(lines, base, i + 1, best_bw, best)
        }
    }
}

/// What to do with a fetched HLS playlist.
#[derive(Debug, PartialEq, Eq)]
pub enum HlsStep {
    /// The playlist lists media segments: fetch them from this playlist URL.
    Media(String),
    /// A master playlist: fetch the chosen variant playlist next.
    Variant { bandwidth: u64, url: String },
    /// A master playlist without any playable variant.
    NoVariant,
}

/// Decides the next step for the playlist `playlist` fetched from `url`:
/// a media playlist (one with `#EXTINF:`) is used as it is; otherwise the
/// variant with the highest bandwidth is chosen.
pub fn resolve_hls_media_url(url: &str, playlist: &str) -> (r: HlsStep)
    ensures
        ({
            let pl = playlist@;
            let scan = variant_scan(lines_of(pl), dir_of(url@), 0, 0, None);
            match r {
                HlsStep::Media(u) => contains(pl, "#EXTINF:"@) && u@ == url@,
                HlsStep::Variant { bandwidth, url: v } => !contains(pl, "#EXTINF:"@) && scan.1
                    == Some(v@) && bandwidth == scan.0,
                HlsStep::NoVariant => !contains(pl, "#EXTINF:"@) && scan.1 is None,
            }
        }),
{
    let pl = chars_of(playlist);
    if find_str(pl.as_slice(), "#EXTINF:").is_some() {
        return HlsStep::Media(String::from_str(url));
    }
    let u = chars_of(url);
    let base = dir_chars(u.as_slice());
    let lines = split_lines(pl.as_slice());
    let mut best_bw: u64 = 0;
    let mut best: Option<Vec<char>> = None;
    let mut i: usize = 0;
    let ghost total = variant_scan(views(lines@), base@, 0, 0, None);
    while i < lines.len()
        invariant
            i <= lines@.len(),
            total == variant_scan(views(lines@), base@, 0, 0, None),
            total == variant_scan(
                views(lines@),
                base@,
                i as int,
                best_bw,
                match best {
                    Some(b) => Some(b@),
                    None => None,
                },
            ),
        decreases lines@.len() - i,
    {
        let line = trim_chars(lines[i].as_slice());
        assert(views(lines@)[i as int] == lines@[i as int]@);
        if starts_with(line.as_slice(), "#EXT-X-STREAM-INF:") && i + 1 < lines.len() {
            let bw = bandwidth_chars(line.as_slice());
            let uri = trim_chars(lines[i + 1].as_slice());
            assert(views(lines@)[i + 1] == lines@[i + 1]@);
            if !starts_with(uri.as_slice(), "#") && bw >= best_bw {
                best_bw = bw;
                best = Some(resolve_chars(base.as_slice(), uri.as_slice()));
            }
        }
        i = i + 1;
    }
    match best {
        Some(b) => HlsStep::Variant { bandwidth: best_bw, url: string_of(b.as_slice()) },
        None => HlsStep::NoVariant,
    }
}

/// Segment URLs of a media playlist: each line that is neither blank nor a
/// `#` tag, trimmed and resolved against `base`.
pub open spec fn segment_urls(lines: Seq<Seq<char>>, base: Seq<char>) -> Seq<Seq<char>>
    decreases lines.len(),
{
    if lines.len() == 0 {
        Seq::empty()
    } else {
        let t = trim(lines.last());
        segment_urls(lines.drop_last(), base) + if t.len() == 0 || is_prefix("#"@, t) {
            Seq::<Seq<char>>::empty()
        } else {
            seq![resolved_url(base, t)]
        }
    }
}

/// Lists the segment URLs of the media playlist `playlist` fetched from `playlist_url`.
pub fn parse_hls_segments(playlist_url: &str, playlist: &str) -> (r: Vec<String>)
    ensures
        string_views(r@) == segment_urls(lines_of(playlist@), dir_of(playlist_url@)),
{
    let u = chars_of(playlist_url);
    let base = dir_chars(u.as_slice());
    let pl = chars_of(playlist);
    let lines = split_lines(pl.as_slice());
    let mut urls: Vec<String> = Vec::new();
    let mut i: usize = 0;
    while i < lines.len()
        invariant
            i <= lines@.len(),
            string_views(urls@) == segment_urls(views(lines@).take(i as int), base@),
        decreases lines@.len() - i,
    {
        let line = trim_chars(lines[i].as_slice());
        proof {
            assert(views(lines@).take(i + 1).drop_last() =~= views(lines@).take(i as int));
            assert(views(lines@).take(i + 1).last() == lines@[i as int]@);
        }
        let ghost before = string_views(urls@);
        if !(line.len() == 0 || starts_with(line.as_slice(), "#")) {
            let url = string_of(resolve_chars(base.as_slice(), line.as_slice()).as_slice());
            urls.push(url);
            assert(string_views(urls@) =~= before + seq![resolved_url(base@, line@)]);
        } else {
            assert(before + Seq::<Seq<char>>::empty() =~= before);
        }
        i = i + 1;
    }
    assert(views(lines@).take(i as int) =~= views(lines@));
    urls
}

/// File extension for a download: taken from the content type when it names
/// MP4 or MPEG audio, else from the URL's path, else `mp4`.
pub open spec fn guessed_extension(url: Seq<char>, content_type: Option<Seq<char>>) -> Seq<char> {
    if content_type is Some && contains(content_type.unwrap(), "mp4"@) {
        "mp4"@
    } else if content_type is Some && (contains(content_type.unwrap(), "mpeg"@) || contains(
        content_type.unwrap(),
        "mp3"@,
    )) {
        "mp3"@
    } else {
        match path_extension(url) {
            Some(e) => if e.len() > 0 {
                ascii_lower(e)
            } else {
                "mp4"@
            },
            None => "mp4"@,
        }
    }
}

/// Chooses the file extension under which a downloaded stream is saved.
pub fn guess_extension(url: &str, content_type: Option<&str>) -> (r: String)
    ensures
        r@ == guessed_extension(
            url@,
            match content_type {
                Some(c) => Some(c@),
                None => None,
            },
        ),
{
    if let Some(ct) = content_type {
        let c = chars_of(ct);
        if find_str(c.as_slice(), "mp4").is_some() {
            return String::from_str("mp4");
        }
        if find_str(c.as_slice(), "mpeg").is_some() || find_str(c.as_slice(), "mp3").is_some() {
            return String::from_str("mp3");
        }
    }
    let u = chars_of(url);
    match file_extension(u.as_slice()) {
        Some(e) => {
            if e.len() > 0 {
                let lower = lowercase_chars(e.as_slice());
                string_of(lower.as_slice())
            } else {
                String::from_str("mp4")
            }
        },
        None => String::from_str("mp4"),
    }
}

/// Line `k` of a master playlist announces a playable variant: a
/// `#EXT-X-STREAM-INF:` tag followed by a URI line.
pub open spec fn is_variant_at(lines: Seq<Seq<char>>, k: int) -> bool {
    0 <= k && k + 1 < lines.len() && is_prefix("#EXT-X-STREAM-INF:"@, trim(lines[k])) && !is_prefix(
        "#"@,
        trim(lines[k + 1]),
    )
}

proof fn lemma_variant_scan_max(lines: Seq<Seq<char>>, base: Seq<char>, i: int, best_bw: u64, best: Option<Seq<char>>)
    requires
        0 <= i,
        best is None ==> best_bw == 0,
    ensures
        variant_scan(lines, base, i, best_bw, best).0 >= best_bw,
        best is Some ==> variant_scan(lines, base, i, best_bw, best).1 is Some,
        forall|k: int| i <= k && #[trigger] is_variant_at(lines, k) ==> bandwidth_of(trim(lines[k]))
            <= variant_scan(lines, base, i, best_bw, best).0,
        (exists|k: int| i <= k && #[trigger] is_variant_at(lines, k)) ==> variant_scan(lines, base, i, best_bw, best).1 is Some,
    decreases lines.len() - i,
{
    if i < lines.len() {
        let line = trim(lines[i]);
        if is_prefix("#EXT-X-STREAM-INF:"@, line) && i + 1 < lines.len() {
            let bw = bandwidth_of(line);
            let uri = trim(lines[i + 1]);
            if !is_prefix("#"@, uri) && bw >= best_bw {
                lemma_variant_scan_max(lines, base, i + 1, bw, Some(resolved_url(base, uri)));
            } else {
                lemma_variant_scan_max(lines, base, i + 1, best_bw, best);
            }
        } else {
            lemma_variant_scan_max(lines, base, i + 1, best_bw, best);
        }
        let r = variant_scan(lines, base, i, best_bw, best);
        if exists|k: int| i <= k && #[trigger] is_variant_at(lines, k) {
            let k = choose|k: int| i <= k && #[trigger] is_variant_at(lines, k);
            if k > i {
                assert(is_variant_at(lines, k));
            }
        }
    }
}

/// The variant chosen from a master playlist has the highest announced
/// bandwidth, and a playlist announcing any variant yields one.
pub proof fn law_chosen_variant_has_highest_bandwidth(lines: Seq<Seq<char>>, base: Seq<char>)
    ensures
        forall|k: int| #[trigger] is_variant_at(lines, k) ==> bandwidth_of(trim(lines[k])) <= variant_scan(
            lines,
            base,
            0,
            0,
            None,
        ).0,
        (exists|k: int| #[trigger] is_variant_at(lines, k)) ==> variant_scan(lines, base, 0, 0, None).1 is Some,
{
    lemma_variant_scan_max(lines, base, 0, 0, None);
}

/// Names in a playlist fetched over HTTP(S) resolve to HTTP(S) URLs: a
/// relative name is appended to the playlist's directory, which keeps its
/// scheme.
pub proof fn law_relative_names_stay_remote(playlist_url: Seq<char>, name: Seq<char>)
    requires
        is_url(playlist_url),
    ensures
        is_url(resolved_url(dir_of(playlist_url), name)),
{
    reveal_strlit("http://");
    reveal_strlit("https://");
    reveal_strlit("/");
    reveal_strlit("://");
    let d = dir_of(playlist_url);
    let p = if is_prefix("http://"@, playlist_url) {
        "http://"@
    } else {
        "https://"@
    };
    assert(playlist_url.take(p.len() as int) == p);
    assert(playlist_url.take(p.len() as int)[p.len() - 1] == playlist_url[p.len() - 1]);
    assert(playlist_url[p.len() - 1] == '/');
    lemma_rfind_at_least(playlist_url, '/', p.len() - 1);
    assert(d.len() >= p.len());
    assert(d.take(p.len() as int) =~= playlist_url.take(p.len() as int));
    let r = resolved_url(d, name);
    if is_url(name) {
    } else if is_prefix("/"@, name) && find(d, "://"@) is Some && find(d.skip(find(d, "://"@).unwrap() + 3), "/"@) is Some {
        let se = find(d, "://"@).unwrap();
        let he = find(d.skip(se + 3), "/"@).unwrap();
        lemma_find_from_bound(d, "://"@, 0);
        lemma_find_from_bound(d.skip(se + 3), "/"@, 0);
        assert(d.take(p.len() as int) =~= p);
        assert(d.subrange(p.len() - 3, p.len() as int) =~= "://"@) by {
            assert forall|j: int| 0 <= j < 3 implies d.subrange(p.len() - 3, p.len() as int)[j] == "://"@[j] by {
                assert(d.take(p.len() as int)[p.len() - 3 + j] == p[p.len() - 3 + j]);
            }
        }
        let k = (p.len() - 3) as int;
        assert forall|j: int| 0 <= j < k implies !occurs_at(d, "://"@, j) by {
            assert(d.take(p.len() as int)[j] == p[j]);
            assert(d[j] != ':');
            assert(d.subrange(j, j + 3)[0] == d[j]);
        }
        lemma_find_skip(d, "://"@, 0, k);
        assert(occurs_at(d, "://"@, k));
        assert(se == k);
        assert(r.take(p.len() as int) =~= d.take(p.len() as int));
    } else {
        assert(r.take(p.len() as int) =~= d.take(p.len() as int));
    }
}

proof fn lemma_rfind_at_least(s: Seq<char>, c: char, k: int)
    requires
        0 <= k < s.len(),
        s[k] == c,
    ensures
        rfind_char(s, c) matches Some(i) && k <= i < s.len(),
    decreases s.len(),
{
    if s.last() != c {
        assert(s.drop_last()[k] == c);
        lemma_rfind_at_least(s.drop_last(), c, k);
    }
}

proof fn lemma_find_skip(s: Seq<char>, p: Seq<char>, i: int, k: int)
    requires
        0 <= i <= k,
        forall|j: int| i <= j < k ==> !occurs_at(s, p, j),
    ensures
        find_from(s, p, i) == find_from(s, p, k),
    decreases k - i,
{
    if i < k {
        lemma_find_skip(s, p, i + 1, k);
    }
}

} // verus!
