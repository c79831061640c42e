//! The `#VRML_SIM` header line.
//!
//! The header is the first line of the text that holds anything but whitespace, when
//! that line starts with `#VRML_SIM`.  Its second and third whitespace-separated words
//! are the version and the encoding.
use crate::ast::{Header, HeaderV, Span};
use crate::lexer::{
    bytes_before, char_len_utf8, is_ws, lemma_bytes_mono, lemma_bytes_step, lemma_whole_bytes,
};
use vstd::prelude::*;
use vstd::utf8::*;

verus! {

/// The position just after the end of the line that starts at `p`: after its `'\n'`,
/// or the end of the text.
pub open spec fn next_line(s: Seq<char>, p: int) -> int
    decreases s.len() - p,
{
    if p >= s.len() || p < 0 {
        s.len() as int
    } else if s[p] == '\n' {
        p + 1
    } else {
        next_line(s, p + 1)
    }
}

/// The end of the content of the line that starts at `p`: its `'\n'` left out, and
/// then one `'\r'` before it.
pub open spec fn content_end(s: Seq<char>, p: int) -> int {
    let e = next_line(s, p);
    let e1 = if e > p && s[e - 1] == '\n' {
        e - 1
    } else {
        e
    };
    if e1 > p && s[e1 - 1] == '\r' {
        e1 - 1
    } else {
        e1
    }
}

/// The first position from `p` on, before `q`, that does not hold whitespace (or `q`).
pub open spec fn skip_ws(s: Seq<char>, p: int, q: int) -> int
    decreases q - p,
{
    if 0 <= p < q && p < s.len() && is_ws(s[p]) {
        skip_ws(s, p + 1, q)
    } else {
        p
    }
}

/// The first position from `p` on that holds whitespace, or the end of the text.
pub open spec fn word_end(s: Seq<char>, p: int) -> int
    decreases s.len() - p,
{
    if 0 <= p < s.len() && !is_ws(s[p]) {
        word_end(s, p + 1)
    } else {
        p
    }
}

pub proof fn lemma_skip_ws(s: Seq<char>, p: int, q: int)
    requires
        0 <= p <= q <= s.len(),
    ensures
        p <= skip_ws(s, p, q) <= q,
        skip_ws(s, p, q) < q ==> !is_ws(s[skip_ws(s, p, q)]),
        forall|k: int| p <= k < skip_ws(s, p, q) ==> is_ws(#[trigger] s[k]),
    decreases q - p,
{
    if p < q && is_ws(s[p]) {
        lemma_skip_ws(s, p + 1, q);
    }
}

pub proof fn lemma_word_end(s: Seq<char>, p: int)
    requires
        0 <= p <= s.len(),
    ensures
        p <= word_end(s, p) <= s.len(),
        p < s.len() && !is_ws(s[p]) ==> p < word_end(s, p),
    decreases s.len() - p,
{
    if p < s.len() && !is_ws(s[p]) {
        lemma_word_end(s, p + 1);
    }
}

pub proof fn lemma_next_line(s: Seq<char>, p: int)
    requires
        0 <= p <= s.len(),
    ensures
        p <= next_line(s, p) <= s.len(),
        p < s.len() ==> p < next_line(s, p),
        forall|k: int| p <= k < next_line(s, p) - 1 ==> (#[trigger] s[k]) != '\n',
        next_line(s, p) < s.len() ==> s[next_line(s, p) - 1] == '\n',
    decreases s.len() - p,
{
    if p < s.len() && s[p] != '\n' {
        lemma_next_line(s, p + 1);
    }
}

/// The whitespace-separated words of `t` from position `i` on.
pub open spec fn words_from(t: Seq<char>, i: int) -> Seq<Seq<char>>
    decreases t.len() - i,
{
    if !(0 <= i <= t.len()) {
        Seq::empty()
    } else {
        let a = skip_ws(t, i, t.len() as int);
        if a >= t.len() {
            Seq::empty()
        } else {
            let b = word_end(t, a);
            proof {
                lemma_skip_ws(t, i, t.len() as int);
                lemma_word_end(t, a);
            }
            seq![t.subrange(a, b)] + words_from(t, b)
        }
    }
}

/// The whitespace-separated words of `t` (what `str::split_whitespace` yields).
pub open spec fn words(t: Seq<char>) -> Seq<Seq<char>> {
    words_from(t, 0)
}

/// The word at index `n`, or the empty text when there are fewer words.
pub open spec fn word_or_empty(w: Seq<Seq<char>>, n: int) -> Seq<char> {
    if 0 <= n < w.len() {
        w[n]
    } else {
        Seq::empty()
    }
}

/// The marker that starts a header line.
pub open spec fn header_marker() -> Seq<char> {
    seq!['#', 'V', 'R', 'M', 'L', '_', 'S', 'I', 'M']
}

pub open spec fn starts_with(t: Seq<char>, prefix: Seq<char>) -> bool {
    t.len() >= prefix.len() && t.take(prefix.len() as int) == prefix
}

/// The header found from the line that starts at `p`, the `line`-th line of `s`: the
/// first line with non-whitespace content decides.
pub open spec fn header_from(s: Seq<char>, p: int, line: int) -> Option<HeaderV>
    decreases s.len() - p,
{
    if !(0 <= p < s.len()) {
        None
    } else {
        let e = next_line(s, p);
        let c = content_end(s, p);
        let a = skip_ws(s, p, c);
        if a >= c {
            proof {
                lemma_next_line(s, p);
            }
            header_from(s, e, line + 1)
        } else {
            let t = s.subrange(a, c);
            if !starts_with(t, header_marker()) {
                None
            } else {
                let w = words(t);
                let start_col = bytes_before(s, a) - bytes_before(s, p) + 1;
                Some(
                    HeaderV {
                        version: word_or_empty(w, 1),
                        encoding: word_or_empty(w, 2),
                        raw: Some(t),
                        span: Span {
                            start: bytes_before(s, a) as usize,
                            end: bytes_before(s, c) as usize,
                            start_line: line as usize,
                            start_col: start_col as usize,
                            end_line: line as usize,
                            end_col: (start_col + (c - a)) as usize,
                        },
                    },
                )
            }
        }
    }
}

/// The header of a text, if it has one.
pub open spec fn header_of(s: Seq<char>) -> Option<HeaderV> {
    header_from(s, 0, 1)
}

fn find_line_end(s: &Vec<char>, p: usize) -> (e: usize)
    requires
        p <= s@.len(),
    ensures
        e == next_line(s@, p as int),
{
    let mut j = p;
    while j < s.len() && s[j] != '\n'
        invariant
            p <= j <= s@.len(),
            next_line(s@, p as int) == next_line(s@, j as int),
        decreases s@.len() - j,
    {
        j = j + 1;
    }
    if j < s.len() {
        j + 1
    } else {
        j
    }
}

fn find_content_end(s: &Vec<char>, p: usize, e: usize) -> (c: usize)
    requires
        p <= e <= s@.len(),
        e == next_line(s@, p as int),
    ensures
        c == content_end(s@, p as int),
{
    let mut c = e;
    if c > p && s[c - 1] == '\n' {
        c = c - 1;
    }
    if c > p && s[c - 1] == '\r' {
        c = c - 1;
    }
    c
}

fn skip_whitespace(s: &Vec<char>, p: usize, q: usize) -> (r: usize)
    requires
        p <= q <= s@.len(),
    ensures
        r == skip_ws(s@, p as int, q as int),
        p <= r <= q,
{
    let mut j = p;
    while j < q && is_ws_char(s[j])
        invariant
            p <= j <= q <= s@.len(),
            skip_ws(s@, p as int, q as int) == skip_ws(s@, j as int, q as int),
        decreases q - j,
    {
        j = j + 1;
    }
    j
}

fn is_ws_char(c: char) -> (r: bool)
    ensures
        r == is_ws(c),
{
    ('\u{9}' <= c && c <= '\u{d}') || c == ' ' || c == '\u{85}' || c == '\u{a0}' || c
        == '\u{1680}' || ('\u{2000}' <= c && c <= '\u{200a}') || c == '\u{2028}' || c
        == '\u{2029}' || c == '\u{202f}' || c == '\u{205f}' || c == '\u{3000}'
}

fn find_word_end(s: &Vec<char>, p: usize) -> (r: usize)
    requires
        p <= s@.len(),
    ensures
        r == word_end(s@, p as int),
        p <= r <= s@.len(),
{
    let mut j = p;
    while j < s.len() && !is_ws_char(s[j])
        invariant
            p <= j <= s@.len(),
            word_end(s@, p as int) == word_end(s@, j as int),
        decreases s@.len() - j,
    {
        j = j + 1;
    }
    j
}

/// The number of UTF-8 bytes of the characters `[p, q)`.
fn bytes_between(s: &Vec<char>, p: usize, q: usize) -> (r: usize)
    requires
        p <= q <= s@.len(),
        encode_utf8(s@).len() < usize::MAX,
    ensures
        r == bytes_before(s@, q as int) - bytes_before(s@, p as int),
{
    let mut j = p;
    let mut n: usize = 0;
    proof {
        lemma_bytes_mono(s@, q as int, s@.len() as int);
        lemma_whole_bytes(s@);
    }
    while j < q
        invariant
            p <= j <= q <= s@.len(),
            n == bytes_before(s@, j as int) - bytes_before(s@, p as int),
            bytes_before(s@, q as int) <= encode_utf8(s@).len() < usize::MAX,
        decreases q - j,
    {
        proof {
            lemma_bytes_step(s@, j as int);
            lemma_bytes_mono(s@, j + 1, q as int);
            lemma_bytes_mono(s@, p as int, j as int);
        }
        n = n + char_len_utf8(s[j]);
        j = j + 1;
    }
    n
}

fn copy_range(s: &Vec<char>, a: usize, b: usize) -> (r: Vec<char>)
    requires
        a <= b <= s@.len(),
    ensures
        r@ == s@.subrange(a as int, b as int),
{
    let mut r: Vec<char> = Vec::new();
    let mut j = a;
    while j < b
        invariant
            a <= j <= b <= s@.len(),
            r@ == s@.subrange(a as int, j as int),
        decreases b - j,
    {
        r.push(s[j]);
        j = j + 1;
    }
    r
}

pub open spec fn chars_views(v: Seq<Vec<char>>) -> Seq<Seq<char>> {
    Seq::new(v.len(), |k: int| v[k]@)
}

/// The whitespace-separated words of `t`.
fn split_words(t: &Vec<char>) -> (r: Vec<Vec<char>>)
    ensures
        chars_views(r@) == words(t@),
{
    let mut out: Vec<Vec<char>> = Vec::new();
    let mut i: usize = 0;
    proof {
        assert(chars_views(out@) + words_from(t@, 0) =~= words(t@));
    }
    loop
        invariant
            i <= t@.len(),
            chars_views(out@) + words_from(t@, i as int) == words(t@),
        decreases t@.len() - i,
    {
        let a = skip_whitespace(t, i, t.len());
        proof {
            lemma_skip_ws(t@, i as int, t@.len() as int);
        }
        if a >= t.len() {
            proof {
                assert(words_from(t@, i as int) =~= Seq::<Seq<char>>::empty());
                assert(chars_views(out@) + Seq::<Seq<char>>::empty() =~= chars_views(out@));
            }
            return out;
        }
        let b = find_word_end(t, a);
        proof {
            lemma_word_end(t@, a as int);
        }
        let w = copy_range(t, a, b);
        let ghost before = out@;
        out.push(w);
        proof {
            assert(chars_views(out@) =~= chars_views(before).push(t@.subrange(a as int, b as int)));
            assert(words_from(t@, i as int) == seq![t@.subrange(a as int, b as int)] + words_from(t@, b as int));
            assert(chars_views(out@) + words_from(t@, b as int) =~= chars_views(before) + words_from(t@, i as int));
        }
        i = b;
    }
}

fn starts_with_marker(s: &Vec<char>, a: usize, c: usize) -> (r: bool)
    requires
        a <= c <= s@.len(),
    ensures
        r == starts_with(s@.subrange(a as int, c as int), header_marker()),
{
    let marker = vec!['#', 'V', 'R', 'M', 'L', '_', 'S', 'I', 'M'];
    if c - a < marker.len() {
        return false;
    }
    let mut k: usize = 0;
    while k < marker.len()
        invariant
            marker@ == header_marker(),
            a + marker@.len() <= c <= s@.len(),
            k <= marker@.len(),
            forall|m: int| 0 <= m < k ==> s@[a + m] == marker@[m],
        decreases marker@.len() - k,
    {
        if s[a + k] != marker[k] {
            proof {
                assert(s@.subrange(a as int, c as int).take(9)[k as int] == s@[a + k]);
            }
            return false;
        }
        k = k + 1;
    }
    proof {
        assert(s@.subrange(a as int, c as int).take(9) =~= header_marker());
    }
    true
}

/// Finds the `#VRML_SIM` header of a text, as [`header_of`] describes it.
pub fn parse_header(input: &str) -> (r: Option<Header>)
    requires
        encode_utf8(input@).len() <= isize::MAX,
    ensures
        match r {
            Some(h) => header_of(input@) == Some(h@),
            None => header_of(input@) is None,
        },
{
    let s = crate::text::chars_of(input);
    let ghost sv = s@;
    let mut p: usize = 0;
    let mut line: usize = 1;
    proof {
        lemma_bytes_mono(sv, 0, sv.len() as int);
        lemma_whole_bytes(sv);
        assert(sv.take(0) =~= Seq::<char>::empty());
        assert(encode_utf8(Seq::<char>::empty()) =~= Seq::<u8>::empty());
    }
    while p < s.len()
        invariant
            s@ == sv,
            sv == input@,
            p <= sv.len(),
            1 <= line <= p + 1,
            sv.len() <= encode_utf8(sv).len() <= isize::MAX,
            bytes_before(sv, sv.len() as int) == encode_utf8(sv).len(),
            bytes_before(sv, 0) == 0,
            header_of(sv) == header_from(sv, p as int, line as int),
        decreases sv.len() - p,
    {
        let e = find_line_end(&s, p);
        proof {
            lemma_next_line(sv, p as int);
        }
        let c = find_content_end(&s, p, e);
        let a = skip_whitespace(&s, p, c);
        if a >= c {
            p = e;
            line = line + 1;
        } else {
            if !starts_with_marker(&s, a, c) {
                return None;
            }
            let t = copy_range(&s, a, c);
            let w = split_words(&t);
            let version = if w.len() > 1 {
                crate::text::string_from_chars(&w[1])
            } else {
                String::new()
            };
            let encoding = if w.len() > 2 {
                crate::text::string_from_chars(&w[2])
            } else {
                String::new()
            };
            let raw = crate::text::string_from_chars(&t);
            let start_off = bytes_between(&s, 0, a);
            let lead = bytes_between(&s, p, a);
            let len = bytes_between(&s, a, c);
            proof {
                lemma_bytes_mono(sv, 0, p as int);
                lemma_bytes_mono(sv, p as int, a as int);
                lemma_bytes_mono(sv, a as int, c as int);
                lemma_bytes_mono(sv, c as int, sv.len() as int);
            }
            let start_col = lead + 1;
            let span = Span::new(start_off, start_off + len, line, start_col, line, start_col + (c - a));
            let h = Header { version, encoding, raw: Some(raw), span };
            proof {
                assert(word_or_empty(words(t@), 1) == version@);
                assert(word_or_empty(words(t@), 2) == encoding@);
            }
            return Some(h);
        }
    }
    None
}

} // verus!
