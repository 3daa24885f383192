//! Character-level text helpers with their specifications.
use vstd::prelude::*;

verus! {

broadcast use vstd::string::group_string_axioms;

/// Appends one character to a string (std's `String::push`).
#[verifier::external_body]
pub(crate) fn push_char(s: &mut String, c: char)
    ensures
        final(s)@ == old(s)@.push(c),
{
    s.push(c);
}

/// The characters of `s`, in order.
pub fn chars_of(s: &str) -> (v: Vec<char>)
    ensures
        v@ == s@,
{
    let mut v: Vec<char> = Vec::new();
    for c in it: s.chars()
        invariant
            v@ == it.seq().take(it.index() as int),
    {
        v.push(c);
    }
    v
}

/// A string holding exactly `chars`.
pub fn string_of(chars: &[char]) -> (r: String)
    ensures
        r@ == chars@,
{
    let mut r = String::new();
    let mut i: usize = 0;
    while i < chars.len()
        invariant
            i <= chars@.len(),
            r@ == chars@.take(i as int),
        decreases chars@.len() - i,
    {
        push_char(&mut r, chars[i]);
        i = i + 1;
        assert(r@ =~= chars@.take(i as int));
    }
    assert(chars@.take(i as int) =~= chars@);
    r
}

/// Whether the characters `v` spell exactly `lit`.
pub fn chars_eq(v: &[char], lit: &str) -> (b: bool)
    ensures
        b == (v@ == lit@),
{
    let w = chars_of(lit);
    if v.len() != w.len() {
        return false;
    }
    let mut i: usize = 0;
    while i < v.len()
        invariant
            i <= v@.len(),
            v@.len() == w@.len(),
            w@ == lit@,
            forall|k: int| 0 <= k < i ==> v@[k] == w@[k],
        decreases v@.len() - i,
    {
        if v[i] != w[i] {
            return false;
        }
        i = i + 1;
    }
    assert(v@ =~= w@);
    true
}

/// ASCII upper-case letters mapped to lower case; every other character unchanged.
pub open spec fn lower_char(c: char) -> char {
    if 'A' <= c <= 'Z' {
        ((c as u32) + 32) as char
    } else {
        c
    }
}

/// `s` with ASCII letters in lower case.
pub open spec fn ascii_lower(s: Seq<char>) -> Seq<char> {
    s.map_values(|c: char| lower_char(c))
}

pub fn to_ascii_lower_char(c: char) -> (r: char)
    ensures
        r == lower_char(c),
{
    if 'A' <= c && c <= 'Z' {
        let b: u8 = (c as u8) + 32;
        b as char
    } else {
        c
    }
}

/// The characters of `s` with ASCII letters in lower case.
pub fn ascii_lowercase(s: &str) -> (v: Vec<char>)
    ensures
        v@ == ascii_lower(s@),
{
    let src = chars_of(s);
    lowercase_chars(src.as_slice())
}

/// `src` with ASCII letters in lower case.
pub fn lowercase_chars(src: &[char]) -> (v: Vec<char>)
    ensures
        v@ == ascii_lower(src@),
{
    let mut v: Vec<char> = Vec::new();
    let mut i: usize = 0;
    while i < src.len()
        invariant
            i <= src@.len(),
            v@ == ascii_lower(src@.take(i as int)),
        decreases src@.len() - i,
    {
        v.push(to_ascii_lower_char(src[i]));
        i = i + 1;
        assert(v@ =~= ascii_lower(src@.take(i as int)));
    }
    assert(src@.take(i as int) =~= src@);
    v
}

/// `p` is a prefix of `s`.
pub open spec fn is_prefix(p: Seq<char>, s: Seq<char>) -> bool {
    p.len() <= s.len() && s.take(p.len() as int) == p
}

/// `p` occurs in `s` at position `i`.
pub open spec fn occurs_at(s: Seq<char>, p: Seq<char>, i: int) -> bool {
    0 <= i && i + p.len() <= s.len() && s.subrange(i, i + p.len()) == p
}

/// The first position at or after `i` where `p` occurs in `s`.
pub open spec fn find_from(s: Seq<char>, p: Seq<char>, i: int) -> Option<int>
    decreases s.len() + 1 - i,
{
    if i < 0 || i + p.len() > s.len() {
        None
    } else if occurs_at(s, p, i) {
        Some(i)
    } else {
        find_from(s, p, i + 1)
    }
}

/// The first position where `p` occurs in `s`.
pub open spec fn find(s: Seq<char>, p: Seq<char>) -> Option<int> {
    find_from(s, p, 0)
}

/// `p` occurs somewhere in `s`.
pub open spec fn contains(s: Seq<char>, p: Seq<char>) -> bool {
    find(s, p) is Some
}

pub proof fn lemma_find_from_bound(s: Seq<char>, p: Seq<char>, i: int)
    ensures
        find_from(s, p, i) matches Some(j) ==> i <= j && j + p.len() <= s.len(),
    decreases s.len() + 1 - i,
{
    if !(i < 0 || i + p.len() > s.len()) && !occurs_at(s, p, i) {
        lemma_find_from_bound(s, p, i + 1);
    }
}

/// The last position of `c` in `s`.
pub open spec fn rfind_char(s: Seq<char>, c: char) -> Option<int>
    decreases s.len(),
{
    if s.len() == 0 {
        None
    } else if s.last() == c {
        Some(s.len() - 1)
    } else {
        rfind_char(s.drop_last(), c)
    }
}

/// Unicode `White_Space` characters (what `char::is_whitespace` accepts).
pub open spec fn is_ws(c: char) -> bool {
    ||| c == ' ' || c == '\t' || c == '\n' || c == '\x0B' || c == '\x0C' || c == '\r'
    ||| c == '\u{85}' || c == '\u{A0}' || c == '\u{1680}'
    ||| ('\u{2000}' <= c && c <= '\u{200A}')
    ||| c == '\u{2028}' || c == '\u{2029}' || c == '\u{202F}' || c == '\u{205F}' || c == '\u{3000}'
}

/// `s` without leading whitespace.
pub open spec fn trim_start(s: Seq<char>) -> Seq<char>
    decreases s.len(),
{
    if s.len() > 0 && is_ws(s[0]) {
        trim_start(s.drop_first())
    } else {
        s
    }
}

/// `s` without trailing whitespace.
pub open spec fn trim_end(s: Seq<char>) -> Seq<char>
    decreases s.len(),
{
    if s.len() > 0 && is_ws(s.last()) {
        trim_end(s.drop_last())
    } else {
        s
    }
}

/// `s` without leading or trailing whitespace.
pub open spec fn trim(s: Seq<char>) -> Seq<char> {
    trim_end(trim_start(s))
}

/// A line with the `\r` of a `\r\n` ending removed.
pub open spec fn strip_cr(l: Seq<char>) -> Seq<char> {
    if l.len() > 0 && l.last() == '\r' {
        l.drop_last()
    } else {
        l
    }
}

/// The lines of `s`: split at `\n` (dropping a `\r` just before it); a final
/// line ending does not start another line.
pub open spec fn lines_of(s: Seq<char>) -> Seq<Seq<char>>
    decreases s.len(),
{
    if s.len() == 0 {
        Seq::empty()
    } else {
        match find(s, seq!['\n']) {
            None => seq![s],
            Some(i) => {
                proof {
                    lemma_find_from_bound(s, seq!['\n'], 0);
                }
                seq![strip_cr(s.take(i))] + lines_of(s.skip(i + 1))
            },
        }
    }
}

/// Whether the characters of `s` start with `p`.
pub fn starts_with(s: &[char], p: &str) -> (b: bool)
    ensures
        b == is_prefix(p@, s@),
{
    let w = chars_of(p);
    if w.len() > s.len() {
        return false;
    }
    let mut i: usize = 0;
    while i < w.len()
        invariant
            i <= w@.len() <= s@.len(),
            w@ == p@,
            forall|k: int| 0 <= k < i ==> s@[k] == w@[k],
        decreases w@.len() - i,
    {
        if s[i] != w[i] {
            assert(s@.take(w@.len() as int)[i as int] != p@[i as int]);
            return false;
        }
        i = i + 1;
    }
    assert(s@.take(w@.len() as int) =~= p@);
    true
}

/// Whether `p` occurs in `s` at position `i`.
pub fn occurs_at_exec(s: &[char], p: &[char], i: usize) -> (b: bool)
    ensures
        b == occurs_at(s@, p@, i as int),
{
    if p.len() > s.len() || i > s.len() - p.len() {
        return false;
    }
    let mut k: usize = 0;
    while k < p.len()
        invariant
            k <= p@.len(),
            i + p.len() <= s.len(),
            forall|j: int| 0 <= j < k ==> s@[i + j] == p@[j],
        decreases p@.len() - k,
    {
        if s[i + k] != p[k] {
            assert(s@.subrange(i as int, i + p@.len())[k as int] != p@[k as int]);
            return false;
        }
        k = k + 1;
    }
    assert(s@.subrange(i as int, i + p@.len()) =~= p@);
    true
}

/// The first position at or after `from` where `p` occurs in `s`.
pub fn find_chars(s: &[char], p: &[char], from: usize) -> (r: Option<usize>)
    ensures
        r matches Some(i) ==> find_from(s@, p@, from as int) == Some(i as int) && i + p@.len()
            <= s.len(),
        r is None ==> find_from(s@, p@, from as int) is None,
{
    if from > s.len() {
        return None;
    }
    let mut i = from;
    while p.len() <= s.len() - i
        invariant
            from <= i <= s.len(),
            find_from(s@, p@, from as int) == find_from(s@, p@, i as int),
        decreases s@.len() + 1 - i,
    {
        if occurs_at_exec(s, p, i) {
            return Some(i);
        }
        if i == s.len() {
            assert(find_from(s@, p@, i + 1) is None);
            return None;
        }
        i = i + 1;
    }
    None
}

/// The first position where the text `p` occurs in `s`.
pub fn find_str(s: &[char], p: &str) -> (r: Option<usize>)
    ensures
        r matches Some(i) ==> find(s@, p@) == Some(i as int) && i + p@.len() <= s.len(),
        r is None ==> find(s@, p@) is None,
{
    let w = chars_of(p);
    find_chars(s, w.as_slice(), 0)
}

/// The last position of `c` in `s`.
pub fn rfind(s: &[char], c: char) -> (r: Option<usize>)
    ensures
        r matches Some(i) ==> rfind_char(s@, c) == Some(i as int) && i < s.len(),
        r is None ==> rfind_char(s@, c) is None,
{
    let mut n = s.len();
    assert(s@.take(n as int) =~= s@);
    while n > 0
        invariant
            n <= s@.len(),
            rfind_char(s@, c) == rfind_char(s@.take(n as int), c),
        decreases n,
    {
        assert(s@.take(n as int).drop_last() =~= s@.take(n - 1));
        if s[n - 1] == c {
            return Some(n - 1);
        }
        n = n - 1;
    }
    None
}

/// Whether `c` is a Unicode white-space character.
pub fn is_whitespace(c: char) -> (b: bool)
    ensures
        b == is_ws(c),
{
    c == ' ' || c == '\t' || c == '\n' || c == '\x0B' || c == '\x0C' || c == '\r' || c == '\u{85}'
        || c == '\u{A0}' || c == '\u{1680}' || ('\u{2000}' <= c && c <= '\u{200A}') || c
        == '\u{2028}' || c == '\u{2029}' || c == '\u{202F}' || c == '\u{205F}' || c == '\u{3000}'
}

/// The characters `s[from..to]`.
pub fn sub_chars(s: &[char], from: usize, to: usize) -> (r: Vec<char>)
    requires
        from <= to <= s@.len(),
    ensures
        r@ == s@.subrange(from as int, to as int),
{
    let mut r: Vec<char> = Vec::new();
    let mut i = from;
    while i < to
        invariant
            from <= i <= to <= s@.len(),
            r@ == s@.subrange(from as int, i as int),
        decreases to - i,
    {
        r.push(s[i]);
        i = i + 1;
        assert(r@ =~= s@.subrange(from as int, i as int));
    }
    r
}

proof fn lemma_trim_start_skip(s: Seq<char>, i: int)
    requires
        0 <= i <= s.len(),
        forall|k: int| 0 <= k < i ==> is_ws(#[trigger] s[k]),
    ensures
        trim_start(s) == trim_start(s.skip(i)),
    decreases i,
{
    if i > 0 {
        assert(s.drop_first().skip(i - 1) =~= s.skip(i));
        lemma_trim_start_skip(s.drop_first(), i - 1);
    } else {
        assert(s.skip(0) =~= s);
    }
}

proof fn lemma_trim_end_take(s: Seq<char>, j: int)
    requires
        0 <= j <= s.len(),
        forall|k: int| j <= k < s.len() ==> is_ws(#[trigger] s[k]),
    ensures
        trim_end(s) == trim_end(s.take(j)),
    decreases s.len() - j,
{
    if j < s.len() {
        assert(s.drop_last().take(j) =~= s.take(j));
        lemma_trim_end_take(s.drop_last(), j);
    } else {
        assert(s.take(j) =~= s);
    }
}

/// The characters of `s` without leading or trailing whitespace.
pub fn trim_chars(s: &[char]) -> (r: Vec<char>)
    ensures
        r@ == trim(s@),
{
    let mut lo: usize = 0;
    while lo < s.len() && is_whitespace(s[lo])
        invariant
            lo <= s@.len(),
            forall|k: int| 0 <= k < lo ==> is_ws(#[trigger] s@[k]),
        decreases s@.len() - lo,
    {
        lo = lo + 1;
    }
    proof {
        lemma_trim_start_skip(s@, lo as int);
    }
    let ghost t = s@.skip(lo as int);
    assert(trim_start(t) == t);
    let mut hi: usize = s.len();
    while hi > lo && is_whitespace(s[hi - 1])
        invariant
            lo <= hi <= s@.len(),
            forall|k: int| hi <= k < s@.len() ==> is_ws(#[trigger] s@[k]),
        decreases hi,
    {
        hi = hi - 1;
    }
    proof {
        assert forall|k: int| (hi - lo) <= k < t.len() implies is_ws(#[trigger] t[k]) by {
            assert(t[k] == s@[lo + k]);
        }
        lemma_trim_end_take(t, hi - lo);
        assert(t.take(hi - lo) =~= s@.subrange(lo as int, hi as int));
    }
    sub_chars(s, lo, hi)
}

/// Searching a suffix is searching the whole text from the suffix's start.
pub proof fn lemma_find_shift(s: Seq<char>, p: Seq<char>, k: int, j: int)
    requires
        0 <= k <= s.len(),
        0 <= j,
    ensures
        find_from(s.skip(k), p, j) == (match find_from(s, p, k + j) {
            Some(x) => Some(x - k),
            None => None,
        }),
    decreases s.len() + 1 - (k + j),
{
    if !(k + j + p.len() > s.len()) {
        assert(s.skip(k).subrange(j, j + p.len()) =~= s.subrange(k + j, k + j + p.len()));
        if !occurs_at(s, p, k + j) {
            lemma_find_shift(s, p, k, j + 1);
        }
    }
}

/// Pieces of `s` between the non-overlapping occurrences of `p`, left to right.
pub open spec fn split_by(s: Seq<char>, p: Seq<char>) -> Seq<Seq<char>>
    decreases s.len(),
{
    if p.len() == 0 {
        seq![s]
    } else {
        match find(s, p) {
            None => seq![s],
            Some(i) => {
                proof {
                    lemma_find_from_bound(s, p, 0);
                }
                seq![s.take(i)] + split_by(s.skip(i + p.len()), p)
            },
        }
    }
}

/// The character sequences held by a sequence of character vectors.
pub open spec fn views(r: Seq<Vec<char>>) -> Seq<Seq<char>> {
    r.map_values(|v: Vec<char>| v@)
}

/// The lines of `s` (see `lines_of`).
pub fn split_lines(s: &[char]) -> (r: Vec<Vec<char>>)
    ensures
        views(r@) == lines_of(s@),
{
    let nl: [char; 1] = ['\n'];
    let mut r: Vec<Vec<char>> = Vec::new();
    let mut pos: usize = 0;
    assert(s@.skip(0) =~= s@);
    assert(views(r@) + lines_of(s@) =~= lines_of(s@));
    while pos < s.len()
        invariant
            pos <= s@.len(),
            nl@ == seq!['\n'],
            lines_of(s@) == views(r@) + lines_of(s@.skip(pos as int)),
        decreases s@.len() - pos,
    {
        let ghost rest = s@.skip(pos as int);
        proof {
            lemma_find_shift(s@, nl@, pos as int, 0);
            lemma_find_from_bound(s@, nl@, pos as int);
        }
        match find_chars(s, &nl, pos) {
            None => {
                let line = sub_chars(s, pos, s.len());
                assert(line@ =~= rest);
                let ghost before = views(r@);
                r.push(line);
                assert(views(r@) =~= before + seq![rest]);
                assert(lines_of(rest) == seq![rest]);
                assert(s@.skip(s@.len() as int) =~= Seq::<char>::empty());
                assert(views(r@) + Seq::<Seq<char>>::empty() =~= views(r@));
                return r;
            },
            Some(i) => {
                let mut end = i;
                if end > pos && s[end - 1] == '\r' {
                    end = end - 1;
                }
                let line = sub_chars(s, pos, end);
                proof {
                    assert(rest.take(i - pos) =~= s@.subrange(pos as int, i as int));
                    assert(line@ =~= strip_cr(rest.take(i - pos)));
                    assert(rest.skip(i - pos + 1) =~= s@.skip(i + 1));
                }
                let ghost before = views(r@);
                r.push(line);
                assert(views(r@) =~= before + seq![line@]);
                assert(views(r@) + lines_of(s@.skip(i + 1)) =~= before + lines_of(rest));
                pos = i + 1;
            },
        }
    }
    assert(s@.skip(pos as int) =~= Seq::<char>::empty());
    assert(views(r@) + Seq::<Seq<char>>::empty() =~= views(r@));
    r
}

/// The pieces of `s` between non-overlapping occurrences of the non-empty text `p`.
pub fn split_str(s: &[char], p: &str) -> (r: Vec<Vec<char>>)
    requires
        p@.len() > 0,
    ensures
        views(r@) == split_by(s@, p@),
{
    let pat = chars_of(p);
    let mut r: Vec<Vec<char>> = Vec::new();
    let mut pos: usize = 0;
    assert(s@.skip(0) =~= s@);
    assert(views(r@) + split_by(s@, p@) =~= split_by(s@, p@));
    loop
        invariant
            pos <= s@.len(),
            pat@ == p@,
            p@.len() > 0,
            split_by(s@, p@) == views(r@) + split_by(s@.skip(pos as int), p@),
        decreases s@.len() - pos,
    {
        let ghost rest = s@.skip(pos as int);
        proof {
            lemma_find_shift(s@, p@, pos as int, 0);
            lemma_find_from_bound(s@, p@, pos as int);
        }
        match find_chars(s, pat.as_slice(), pos) {
            None => {
                let piece = sub_chars(s, pos, s.len());
                assert(piece@ =~= rest);
                let ghost before = views(r@);
                r.push(piece);
                assert(views(r@) =~= before + seq![rest]);
                return r;
            },
            Some(i) => {
                assert(find_from(s@, p@, pos as int) == Some(i as int));
                assert(i + pat@.len() <= s@.len());
                assert(i + pat.len() <= s.len());
                let piece = sub_chars(s, pos, i);
                proof {
                    assert(rest.take(i - pos) =~= piece@);
                    assert(rest.skip(i - pos + p@.len()) =~= s@.skip(i + p@.len()));
                }
                let ghost before = views(r@);
                r.push(piece);
                assert(views(r@) =~= before + seq![piece@]);
                assert(views(r@) + split_by(s@.skip(i + pat@.len()), p@) =~= before + split_by(rest, p@));
                pos = i + pat.len();
            },
        }
    }
}

/// The last path component that names something (empty and `.` components skipped).
pub open spec fn last_component(comps: Seq<Seq<char>>) -> Option<Seq<char>>
    decreases comps.len(),
{
    if comps.len() == 0 {
        None
    } else if comps.last().len() == 0 || comps.last() == "."@ {
        last_component(comps.drop_last())
    } else {
        Some(comps.last())
    }
}

/// The final component of a `/`-separated path; none when the path ends in `..`
/// or names no component.
pub open spec fn file_name(path: Seq<char>) -> Option<Seq<char>> {
    match last_component(split_by(path, "/"@)) {
        Some(c) => if c == ".."@ {
            None
        } else {
            Some(c)
        },
        None => None,
    }
}

/// The extension of a file name: the text after its last `.`, unless that
/// `.` is the first character or there is none.
pub open spec fn extension_of_name(name: Seq<char>) -> Option<Seq<char>> {
    match rfind_char(name, '.') {
        Some(i) => if i == 0 {
            None
        } else {
            Some(name.skip(i + 1))
        },
        None => None,
    }
}

/// The extension of the final component of a `/`-separated path.
pub open spec fn path_extension(path: Seq<char>) -> Option<Seq<char>> {
    match file_name(path) {
        Some(n) => extension_of_name(n),
        None => None,
    }
}

/// The final component of the path `path` (see `file_name`).
pub fn file_name_of(path: &[char]) -> (r: Option<Vec<char>>)
    ensures
        r matches Some(n) ==> file_name(path@) == Some(n@),
        r is None ==> file_name(path@) is None,
{
    proof {
        reveal_strlit("/");
    }
    let comps = split_str(path, "/");
    let mut n = comps.len();
    assert(views(comps@).take(n as int) =~= views(comps@));
    while n > 0
        invariant
            n <= comps@.len(),
            views(comps@) == split_by(path@, "/"@),
            last_component(views(comps@)) == last_component(views(comps@).take(n as int)),
        decreases n,
    {
        let c = &comps[n - 1];
        assert(views(comps@).take(n as int).drop_last() =~= views(comps@).take(n - 1));
        assert(views(comps@).take(n as int).last() == c@);
        if c.len() == 0 || chars_eq(c.as_slice(), ".") {
            n = n - 1;
        } else {
            assert(last_component(views(comps@).take(n as int)) == Some(c@));
            if chars_eq(c.as_slice(), "..") {
                return None;
            }
            return Some(c.clone());
        }
    }
    None
}

/// The extension of the final component of the path `path`.
pub fn file_extension(path: &[char]) -> (r: Option<Vec<char>>)
    ensures
        r matches Some(e) ==> path_extension(path@) == Some(e@),
        r is None ==> path_extension(path@) is None,
{
    match file_name_of(path) {
        None => None,
        Some(c) => match rfind(c.as_slice(), '.') {
            Some(i) => if i == 0 {
                None
            } else {
                Some(sub_chars(c.as_slice(), i + 1, c.len()))
            },
            None => None,
        },
    }
}

/// Every character of `s` is an ASCII digit.
pub open spec fn all_digits(s: Seq<char>) -> bool {
    forall|j: int| 0 <= j < s.len() ==> '0' <= #[trigger] s[j] <= '9'
}

/// Longest prefix of `s` made of ASCII digits.
pub open spec fn digit_run(s: Seq<char>) -> Seq<char>
    decreases s.len(),
{
    if s.len() > 0 && '0' <= s[0] && s[0] <= '9' {
        seq![s[0]] + digit_run(s.drop_first())
    } else {
        Seq::empty()
    }
}

/// Value of a string of decimal digits.
pub open spec fn dec_value(d: Seq<char>) -> nat
    decreases d.len(),
{
    if d.len() == 0 {
        0
    } else {
        dec_value(d.drop_last()) * 10 + ((d.last() as u32) - ('0' as u32)) as nat
    }
}

/// Number of leading ASCII digits of `s[from..]`.
pub fn digit_run_len(s: &[char], from: usize) -> (n: usize)
    requires
        from <= s@.len(),
    ensures
        from + n <= s.len(),
        s@.subrange(from as int, from + n) == digit_run(s@.skip(from as int)),
{
    let mut k = from;
    while k < s.len() && '0' <= s[k] && s[k] <= '9'
        invariant
            from <= k <= s@.len(),
            forall|j: int| from <= j < k ==> '0' <= #[trigger] s@[j] <= '9',
        decreases s@.len() - k,
    {
        k = k + 1;
    }
    proof {
        lemma_digit_run_split(s@, from as int, k as int);
    }
    k - from
}

proof fn lemma_digit_run_split(s: Seq<char>, from: int, k: int)
    requires
        0 <= from <= k <= s.len(),
        forall|j: int| from <= j < k ==> '0' <= #[trigger] s[j] <= '9',
        k == s.len() || !('0' <= s[k] && s[k] <= '9'),
    ensures
        s.subrange(from, k) == digit_run(s.skip(from)),
    decreases k - from,
{
    if from == k {
        assert(s.subrange(from, k) =~= Seq::<char>::empty());
    } else {
        lemma_digit_run_split(s, from + 1, k);
        assert(s.skip(from).drop_first() =~= s.skip(from + 1));
        assert(s.subrange(from, k) =~= seq![s[from]] + s.subrange(from + 1, k));
    }
}

/// The value of the decimal digits `d`, or `None` when it exceeds `u64::MAX`.
pub fn parse_u64_digits(d: &[char]) -> (r: Option<u64>)
    requires
        forall|j: int| 0 <= j < d@.len() ==> '0' <= #[trigger] d@[j] <= '9',
    ensures
        r matches Some(v) ==> v == dec_value(d@),
        r is None ==> dec_value(d@) > u64::MAX,
{
    let mut value: u64 = 0;
    let mut i: usize = 0;
    while i < d.len()
        invariant
            i <= d@.len(),
            forall|j: int| 0 <= j < d@.len() ==> '0' <= #[trigger] d@[j] <= '9',
            value == dec_value(d@.take(i as int)),
        decreases d@.len() - i,
    {
        let digit = (d[i] as u32 - '0' as u32) as u64;
        assert(d@.take(i + 1).drop_last() =~= d@.take(i as int));
        if value > (u64::MAX - digit) / 10 {
            proof {
                lemma_dec_value_monotone(d@, (i + 1) as int);
            }
            return None;
        }
        value = value * 10 + digit;
        i = i + 1;
    }
    assert(d@.take(i as int) =~= d@);
    Some(value)
}

proof fn lemma_dec_value_monotone(d: Seq<char>, k: int)
    requires
        0 <= k <= d.len(),
        forall|j: int| 0 <= j < d.len() ==> '0' <= #[trigger] d[j] <= '9',
    ensures
        dec_value(d.take(k)) <= dec_value(d),
    decreases d.len() - k,
{
    if k < d.len() {
        lemma_dec_value_monotone(d.drop_last(), k);
        assert(d.drop_last().take(k) =~= d.take(k));
        assert(d.take(d.len() as int) =~= d);
    } else {
        assert(d.take(k) =~= d);
    }
}

} // verus!
