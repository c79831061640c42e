//! The tokenizer of PROTO text.
//!
//! The tokenizer works on the characters of the input.  Its behaviour is specified by
//! [`token_at`], which says which token starts at a given character position and where
//! it ends, and by [`span_between`], which gives the byte offsets and line/column
//! numbers of a range of characters.
use crate::ast::Span;
use vstd::prelude::*;
use vstd::utf8::*;

verus! {

// ---------------------------------------------------------------------------
// Character classes
// ---------------------------------------------------------------------------
/// Rust's `char::is_whitespace`: the characters with the Unicode `White_Space` property.
pub open spec fn is_ws(c: char) -> bool {
    ||| ('\u{9}' <= c && c <= '\u{d}')
    ||| c == ' '
    ||| c == '\u{85}'
    ||| c == '\u{a0}'
    ||| c == '\u{1680}'
    ||| ('\u{2000}' <= c && c <= '\u{200a}')
    ||| c == '\u{2028}'
    ||| c == '\u{2029}'
    ||| c == '\u{202f}'
    ||| c == '\u{205f}'
    ||| c == '\u{3000}'
}

pub open spec fn is_nl(c: char) -> bool {
    c == '\n' || c == '\r'
}

pub open spec fn is_digit(c: char) -> bool {
    '0' <= c && c <= '9'
}

/// The `Alphabetic` property of a character (what `char::is_alphabetic` returns).
pub uninterp spec fn alphabetic(c: char) -> bool;

/// The `Numeric` property of a character (what `char::is_numeric` returns).
pub uninterp spec fn numeric(c: char) -> bool;

/// `char::is_alphabetic`: true for characters with the Unicode `Alphabetic` property.
#[verifier::external_body]
fn char_is_alphabetic(c: char) -> (r: bool)
    ensures
        r == alphabetic(c),
{
    c.is_alphabetic()
}

/// `char::is_alphanumeric`: true exactly when the character is alphabetic or numeric,
/// as its documentation states.
#[verifier::external_body]
fn char_is_alphanumeric(c: char) -> (r: bool)
    ensures
        r == (alphabetic(c) || numeric(c)),
{
    c.is_alphanumeric()
}

pub open spec fn ascii_letter(c: char) -> bool {
    ('a' <= c && c <= 'z') || ('A' <= c && c <= 'Z')
}

/// `char::is_alphabetic`: the ASCII letters, and beyond ASCII the characters with the
/// Unicode `Alphabetic` property (no other ASCII character has it).
pub open spec fn is_alpha(c: char) -> bool {
    ascii_letter(c) || ((c as u32) > 0x7f && alphabetic(c))
}

/// `char::is_numeric`: the ASCII digits, and beyond ASCII the characters of the Unicode
/// numeric categories (no other ASCII character is in them).
pub open spec fn is_num(c: char) -> bool {
    is_digit(c) || ((c as u32) > 0x7f && numeric(c))
}

pub open spec fn ident_start(c: char) -> bool {
    is_alpha(c) || c == '_'
}

pub open spec fn ident_char(c: char) -> bool {
    is_alpha(c) || is_num(c) || c == '_' || c == '+' || c == '-'
}

/// True for the characters that may start a number.
pub open spec fn number_start(c: char) -> bool {
    is_digit(c) || c == '-' || c == '+' || c == '.'
}

/// Returns true if the character may start an identifier: a letter or `_`.
pub fn is_identifier_start(c: char) -> (r: bool)
    ensures
        r == ident_start(c),
{
    if (c as u32) < 0x80 {
        ('a' <= c && c <= 'z') || ('A' <= c && c <= 'Z') || c == '_'
    } else {
        char_is_alphabetic(c)
    }
}

/// Returns true if the character may continue an identifier: a letter, a digit, `_`,
/// `+` or `-`.
pub fn is_identifier_char(c: char) -> (r: bool)
    ensures
        r == ident_char(c),
{
    if (c as u32) < 0x80 {
        ('a' <= c && c <= 'z') || ('A' <= c && c <= 'Z') || ('0' <= c && c <= '9') || c == '_' || c
            == '+' || c == '-'
    } else {
        char_is_alphanumeric(c)
    }
}

fn is_whitespace(c: char) -> (r: bool)
    ensures
        r == is_ws(c),
{
    ('\u{9}' <= c && c <= '\u{d}') || c == ' ' || c == '\u{85}' || c == '\u{a0}' || c
        == '\u{1680}' || ('\u{2000}' <= c && c <= '\u{200a}') || c == '\u{2028}' || c
        == '\u{2029}' || c == '\u{202f}' || c == '\u{205f}' || c == '\u{3000}'
}

// ---------------------------------------------------------------------------
// Tokens
// ---------------------------------------------------------------------------
/// The kind of a token, with its text where it has one.
#[derive(Debug, PartialEq)]
pub enum TokenKind {
    Identifier(String),
    Def,
    Use,
    Proto,
    ExternProto,
    Field,
    VrmlField,
    HiddenField,
    DeprecatedField,
    Is,
    Null,
    True,
    False,
    /// A non-integer number, as written.
    Float(String),
    /// An integer and its text as written.
    Int(i64, String),
    /// A string literal, with escapes resolved.
    Str(String),
    OpenBrace,
    CloseBrace,
    OpenBracket,
    CloseBracket,
    Comma,
    Whitespace(String),
    Comment(String),
    Newline(String),
    Template { content: String, is_expression: bool, terminated: bool },
    Eof,
    Unknown(char),
}

/// A token and where it stands.
#[derive(Debug, PartialEq)]
pub struct Token {
    pub kind: TokenKind,
    pub span: Span,
}

/// Model of a token kind.
pub enum KindV {
    Identifier(Seq<char>),
    Def,
    Use,
    Proto,
    ExternProto,
    Field,
    VrmlField,
    HiddenField,
    DeprecatedField,
    Is,
    Null,
    True,
    False,
    Float(Seq<char>),
    Int(i64, Seq<char>),
    Str(Seq<char>),
    OpenBrace,
    CloseBrace,
    OpenBracket,
    CloseBracket,
    Comma,
    Whitespace(Seq<char>),
    Comment(Seq<char>),
    Newline(Seq<char>),
    Template { content: Seq<char>, is_expression: bool, terminated: bool },
    Eof,
    Unknown(char),
}

pub open spec fn kind_view(k: TokenKind) -> KindV {
    match k {
        TokenKind::Identifier(s) => KindV::Identifier(s@),
        TokenKind::Def => KindV::Def,
        TokenKind::Use => KindV::Use,
        TokenKind::Proto => KindV::Proto,
        TokenKind::ExternProto => KindV::ExternProto,
        TokenKind::Field => KindV::Field,
        TokenKind::VrmlField => KindV::VrmlField,
        TokenKind::HiddenField => KindV::HiddenField,
        TokenKind::DeprecatedField => KindV::DeprecatedField,
        TokenKind::Is => KindV::Is,
        TokenKind::Null => KindV::Null,
        TokenKind::True => KindV::True,
        TokenKind::False => KindV::False,
        TokenKind::Float(s) => KindV::Float(s@),
        TokenKind::Int(v, s) => KindV::Int(v, s@),
        TokenKind::Str(s) => KindV::Str(s@),
        TokenKind::OpenBrace => KindV::OpenBrace,
        TokenKind::CloseBrace => KindV::CloseBrace,
        TokenKind::OpenBracket => KindV::OpenBracket,
        TokenKind::CloseBracket => KindV::CloseBracket,
        TokenKind::Comma => KindV::Comma,
        TokenKind::Whitespace(s) => KindV::Whitespace(s@),
        TokenKind::Comment(s) => KindV::Comment(s@),
        TokenKind::Newline(s) => KindV::Newline(s@),
        TokenKind::Template { content, is_expression, terminated } => KindV::Template {
            content: content@,
            is_expression,
            terminated,
        },
        TokenKind::Eof => KindV::Eof,
        TokenKind::Unknown(c) => KindV::Unknown(c),
    }
}

impl View for TokenKind {
    type V = KindV;

    open spec fn view(&self) -> KindV {
        kind_view(*self)
    }
}

// ---------------------------------------------------------------------------
// Positions
// ---------------------------------------------------------------------------
/// The number of UTF-8 bytes of the first `p` characters.
pub open spec fn bytes_before(s: Seq<char>, p: int) -> nat {
    encode_utf8(s.take(p)).len()
}

/// The UTF-8 width of a character.
pub open spec fn char_width(c: char) -> nat {
    if (c as u32) <= 0x7f {
        1
    } else if (c as u32) <= 0x7ff {
        2
    } else if (c as u32) <= 0xffff {
        3
    } else {
        4
    }
}

/// The 1-based line and column at character position `p`.
pub open spec fn line_col(s: Seq<char>, p: int) -> (int, int)
    decreases p,
{
    if p <= 0 {
        (1, 1)
    } else {
        let (l, c) = line_col(s, p - 1);
        if s[p - 1] == '\n' {
            (l + 1, 1)
        } else {
            (l, c + 1)
        }
    }
}

/// The span of the characters `[p, q)`.
pub open spec fn span_between(s: Seq<char>, p: int, q: int) -> Span {
    Span {
        start: bytes_before(s, p) as usize,
        end: bytes_before(s, q) as usize,
        start_line: line_col(s, p).0 as usize,
        start_col: line_col(s, p).1 as usize,
        end_line: line_col(s, q).0 as usize,
        end_col: line_col(s, q).1 as usize,
    }
}

// ---------------------------------------------------------------------------
// The token at a position
// ---------------------------------------------------------------------------
/// End of the run of non-newline whitespace that starts at `i`.
pub open spec fn ws_run_end(s: Seq<char>, i: int) -> int
    decreases s.len() - i,
{
    if 0 <= i < s.len() && is_ws(s[i]) && !is_nl(s[i]) {
        ws_run_end(s, i + 1)
    } else {
        i
    }
}

/// The first position at or after `i` that holds a newline character, or the end.
pub open spec fn line_end(s: Seq<char>, i: int) -> int
    decreases s.len() - i,
{
    if 0 <= i < s.len() && !is_nl(s[i]) {
        line_end(s, i + 1)
    } else {
        i
    }
}

/// The end of the run of identifier characters that starts at `i`.
pub open spec fn ident_end(s: Seq<char>, i: int) -> int
    decreases s.len() - i,
{
    if 0 <= i < s.len() && ident_char(s[i]) {
        ident_end(s, i + 1)
    } else {
        i
    }
}

/// The end of the run of ASCII digits that starts at `i`.
pub open spec fn digits_end(s: Seq<char>, i: int) -> int
    decreases s.len() - i,
{
    if 0 <= i < s.len() && is_digit(s[i]) {
        digits_end(s, i + 1)
    } else {
        i
    }
}

/// The position of the first `>%` at or after `i`, if any.
pub open spec fn template_close(s: Seq<char>, i: int) -> Option<int>
    decreases s.len() - i,
{
    if i < 0 || i + 1 >= s.len() {
        None
    } else if s[i] == '>' && s[i + 1] == '%' {
        Some(i)
    } else {
        template_close(s, i + 1)
    }
}

/// What an escape sequence `\c` stands for inside a string literal.
pub open spec fn unescape(c: char) -> Seq<char> {
    if c == 'n' {
        seq!['\n']
    } else if c == 'r' {
        seq!['\r']
    } else if c == 't' {
        seq!['\t']
    } else if c == '\\' {
        seq!['\\']
    } else if c == '"' {
        seq!['"']
    } else {
        seq!['\\', c]
    }
}

/// Reads the body of a string literal from `i` (just after the opening quote), with
/// `acc` read so far.  Returns the contents and the position after the closing
/// quote, or `None` when the input ends first.
pub open spec fn string_body(s: Seq<char>, i: int, acc: Seq<char>) -> Option<(Seq<char>, int)>
    decreases s.len() - i,
{
    if i < 0 || i >= s.len() {
        None
    } else if s[i] == '"' {
        Some((acc, i + 1))
    } else if s[i] == '\\' {
        if i + 1 >= s.len() {
            None
        } else {
            string_body(s, i + 2, acc + unescape(s[i + 1]))
        }
    } else {
        string_body(s, i + 1, acc.push(s[i]))
    }
}

/// The state after scanning the body of a number from `i`: end position, whether a
/// dot was seen, whether a mantissa digit was seen, whether an exponent marker was
/// seen, and whether the exponent (if any) has a digit.
pub open spec fn number_scan(s: Seq<char>, i: int, dot: bool, digit: bool) -> (int, bool, bool, bool, bool)
    decreases s.len() - i,
{
    if i < 0 || i >= s.len() {
        (i, dot, digit, false, true)
    } else if is_digit(s[i]) {
        number_scan(s, i + 1, dot, true)
    } else if s[i] == '.' {
        if dot {
            (i, dot, digit, false, true)
        } else {
            number_scan(s, i + 1, true, digit)
        }
    } else if s[i] == 'e' || s[i] == 'E' {
        let k = if i + 1 < s.len() && (s[i + 1] == '+' || s[i + 1] == '-') {
            i + 2
        } else {
            i + 1
        };
        let m = digits_end(s, k);
        (m, dot, digit, true, m > k)
    } else {
        (i, dot, digit, false, true)
    }
}

/// The value of a run of ASCII digits.
pub open spec fn digits_value(d: Seq<char>) -> int
    decreases d.len(),
{
    if d.len() == 0 {
        0
    } else {
        digits_value(d.drop_last()) * 10 + (d.last() as int - '0' as int)
    }
}

/// The integer written by `text` (an optional sign followed by digits).
pub open spec fn integer_value(text: Seq<char>) -> int {
    if text.len() > 0 && text[0] == '-' {
        -digits_value(text.drop_first())
    } else if text.len() > 0 && text[0] == '+' {
        digits_value(text.drop_first())
    } else {
        digits_value(text)
    }
}

pub open spec fn fits_i64(v: int) -> bool {
    i64::MIN <= v <= i64::MAX
}

/// The token that a number-like run starting at `p` forms, and its end.
pub open spec fn number_token(s: Seq<char>, p: int) -> (KindV, int) {
    let body = if s[p] == '-' || s[p] == '+' {
        p + 1
    } else {
        p
    };
    let (end, dot, digit, exp, exp_ok) = number_scan(s, body, false, false);
    let text = s.subrange(p, end);
    if !digit && !dot {
        (KindV::Unknown(s[p]), end)
    } else if dot || exp {
        if digit && exp_ok {
            (KindV::Float(text), end)
        } else {
            (KindV::Unknown(s[p]), end)
        }
    } else if fits_i64(integer_value(text)) {
        (KindV::Int(integer_value(text) as i64, text), end)
    } else {
        (KindV::Float(text), end)
    }
}

/// The keyword or identifier that `text` forms.
pub open spec fn word_kind(text: Seq<char>) -> KindV {
    if text == seq!['D', 'E', 'F'] {
        KindV::Def
    } else if text == seq!['U', 'S', 'E'] {
        KindV::Use
    } else if text == seq!['P', 'R', 'O', 'T', 'O'] {
        KindV::Proto
    } else if text == seq!['E', 'X', 'T', 'E', 'R', 'N', 'P', 'R', 'O', 'T', 'O'] {
        KindV::ExternProto
    } else if text == seq!['f', 'i', 'e', 'l', 'd'] {
        KindV::Field
    } else if text == seq!['v', 'r', 'm', 'l', 'F', 'i', 'e', 'l', 'd'] {
        KindV::VrmlField
    } else if text == seq!['h', 'i', 'd', 'd', 'e', 'n', 'F', 'i', 'e', 'l', 'd'] {
        KindV::HiddenField
    } else if text == seq!['d', 'e', 'p', 'r', 'e', 'c', 'a', 't', 'e', 'd', 'F', 'i', 'e', 'l', 'd'] {
        KindV::DeprecatedField
    } else if text == seq!['I', 'S'] {
        KindV::Is
    } else if text == seq!['N', 'U', 'L', 'L'] {
        KindV::Null
    } else if text == seq!['T', 'R', 'U', 'E'] {
        KindV::True
    } else if text == seq!['F', 'A', 'L', 'S', 'E'] {
        KindV::False
    } else {
        KindV::Identifier(text)
    }
}

/// The token that starts at character position `p` (with `p` inside the input), and
/// the position where it ends.
pub open spec fn token_at(s: Seq<char>, p: int) -> (KindV, int) {
    let c = s[p];
    if is_ws(c) {
        if is_nl(c) {
            if c == '\r' && p + 1 < s.len() && s[p + 1] == '\n' {
                (KindV::Newline(s.subrange(p, p + 2)), p + 2)
            } else {
                (KindV::Newline(s.subrange(p, p + 1)), p + 1)
            }
        } else {
            (KindV::Whitespace(s.subrange(p, ws_run_end(s, p))), ws_run_end(s, p))
        }
    } else if c == '#' {
        (KindV::Comment(s.subrange(p, line_end(s, p + 1))), line_end(s, p + 1))
    } else if c == '%' {
        if p + 1 < s.len() && s[p + 1] == '<' {
            let is_expr = p + 2 < s.len() && s[p + 2] == '=';
            let q = if is_expr {
                p + 3
            } else {
                p + 2
            };
            match template_close(s, q) {
                Some(k) => (
                    KindV::Template {
                        content: s.subrange(q, k),
                        is_expression: is_expr,
                        terminated: true,
                    },
                    k + 2,
                ),
                None => (
                    KindV::Template {
                        content: s.subrange(q, s.len() as int),
                        is_expression: is_expr,
                        terminated: false,
                    },
                    s.len() as int,
                ),
            }
        } else {
            (KindV::Unknown('%'), p + 1)
        }
    } else if c == '"' {
        match string_body(s, p + 1, Seq::empty()) {
            Some((body, end)) => (KindV::Str(body), end),
            None => (KindV::Unknown('"'), s.len() as int),
        }
    } else if c == '{' {
        (KindV::OpenBrace, p + 1)
    } else if c == '}' {
        (KindV::CloseBrace, p + 1)
    } else if c == '[' {
        (KindV::OpenBracket, p + 1)
    } else if c == ']' {
        (KindV::CloseBracket, p + 1)
    } else if c == ',' {
        (KindV::Comma, p + 1)
    } else if number_start(c) {
        number_token(s, p)
    } else if ident_start(c) {
        (word_kind(s.subrange(p, ident_end(s, p))), ident_end(s, p))
    } else {
        (KindV::Unknown(c), p + 1)
    }
}

// ---------------------------------------------------------------------------
// Reading runs of characters
// ---------------------------------------------------------------------------
/// A string body of `n` characters, none a quote or a backslash, followed by a quote,
/// reads as those characters.
pub proof fn lemma_string_run(s: Seq<char>, i: int, n: int, acc: Seq<char>)
    requires
        0 <= i,
        0 <= n,
        i + n < s.len(),
        s[i + n] == '"',
        forall|k: int| i <= k < i + n ==> #[trigger] s[k] != '"' && s[k] != '\\',
    ensures
        string_body(s, i, acc) == Some((acc + s.subrange(i, i + n), i + n + 1)),
    decreases n,
{
    if n == 0 {
        assert(acc + s.subrange(i, i) =~= acc);
    } else {
        assert(s[i] != '"' && s[i] != '\\');
        lemma_string_run(s, i + 1, n - 1, acc.push(s[i]));
        assert(acc.push(s[i]) + s.subrange(i + 1, i + n) =~= acc + s.subrange(i, i + n));
    }
}

/// A run of identifier characters from `i` to `j` ends at `j`.
pub proof fn lemma_ident_run(s: Seq<char>, i: int, j: int)
    requires
        0 <= i <= j <= s.len(),
        forall|k: int| i <= k < j ==> #[trigger] ident_char(s[k]),
        j == s.len() || !ident_char(s[j]),
    ensures
        ident_end(s, i) == j,
    decreases j - i,
{
    if i < j {
        lemma_ident_run(s, i + 1, j);
    }
}

/// A word of identifier characters that starts with an ASCII letter or `_` is read
/// as the keyword or identifier it spells.
pub proof fn lemma_token_word(s: Seq<char>, p: int, q: int)
    requires
        0 <= p < q <= s.len(),
        ascii_letter(s[p]) || s[p] == '_',
        forall|k: int| p <= k < q ==> #[trigger] ident_char(s[k]),
        q == s.len() || !ident_char(s[q]),
    ensures
        token_at(s, p) == (word_kind(s.subrange(p, q)), q),
{
    lemma_ident_run(s, p, q);
}

/// A run of spaces from `p` to `q` is one whitespace token.
pub proof fn lemma_token_spaces(s: Seq<char>, p: int, q: int)
    requires
        0 <= p < q <= s.len(),
        forall|k: int| p <= k < q ==> #[trigger] s[k] == ' ',
        q == s.len() || !is_ws(s[q]) || is_nl(s[q]),
    ensures
        token_at(s, p) == (KindV::Whitespace(s.subrange(p, q)), q),
{
    lemma_ws_run(s, p, q);
}

proof fn lemma_ws_run(s: Seq<char>, i: int, j: int)
    requires
        0 <= i <= j <= s.len(),
        forall|k: int| i <= k < j ==> #[trigger] s[k] == ' ',
        j == s.len() || !is_ws(s[j]) || is_nl(s[j]),
    ensures
        ws_run_end(s, i) == j,
    decreases j - i,
{
    if i < j {
        lemma_ws_run(s, i + 1, j);
    }
}

/// A line feed is one newline token.
pub proof fn lemma_token_newline(s: Seq<char>, p: int)
    requires
        0 <= p < s.len(),
        s[p] == '\n',
    ensures
        token_at(s, p) == (KindV::Newline(s.subrange(p, p + 1)), p + 1),
{
}

/// A bracket or a brace is one token.
pub proof fn lemma_token_punct(s: Seq<char>, p: int)
    requires
        0 <= p < s.len(),
        s[p] == '[' || s[p] == ']' || s[p] == '{' || s[p] == '}',
    ensures
        token_at(s, p) == (if s[p] == '[' {
            KindV::OpenBracket
        } else if s[p] == ']' {
            KindV::CloseBracket
        } else if s[p] == '{' {
            KindV::OpenBrace
        } else {
            KindV::CloseBrace
        }, p + 1),
{
}

/// A quoted text with no quote or backslash inside is one string token.
pub proof fn lemma_token_string(s: Seq<char>, p: int, n: int)
    requires
        0 <= p,
        0 <= n,
        p + n + 1 < s.len(),
        s[p] == '"',
        s[p + n + 1] == '"',
        forall|k: int| p + 1 <= k < p + 1 + n ==> #[trigger] s[k] != '"' && s[k] != '\\',
    ensures
        token_at(s, p) == (KindV::Str(s.subrange(p + 1, p + 1 + n)), p + n + 2),
{
    lemma_string_run(s, p + 1, n, Seq::empty());
    assert(Seq::<char>::empty() + s.subrange(p + 1, p + 1 + n) =~= s.subrange(p + 1, p + 1 + n));
}

/// Scanning a run of digits moves over it and notes that a digit was seen.
pub proof fn lemma_scan_digits(s: Seq<char>, i: int, q: int, dot: bool, digit: bool)
    requires
        0 <= i <= q <= s.len(),
        forall|k: int| i <= k < q ==> is_digit(#[trigger] s[k]),
    ensures
        number_scan(s, i, dot, digit) == number_scan(s, q, dot, digit || i < q),
    decreases q - i,
{
    if i < q {
        lemma_scan_digits(s, i + 1, q, dot, true);
    }
}

/// True when the text ends at `q` or its character there cannot continue a number.
pub open spec fn ends_number(s: Seq<char>, q: int) -> bool {
    q == s.len() || (!is_digit(s[q]) && s[q] != '.' && s[q] != 'e' && s[q] != 'E')
}

/// An optional `-` followed by digits, up to a character that cannot continue a number,
/// is one integer token when its value fits in an `i64`.
pub proof fn lemma_token_int(s: Seq<char>, p: int, q: int)
    requires
        0 <= p < q <= s.len(),
        s[p] == '-' ==> p + 1 < q,
        forall|k: int| (if s[p] == '-' { p + 1 } else { p }) <= k < q ==> is_digit(#[trigger] s[k]),
        ends_number(s, q),
        fits_i64(integer_value(s.subrange(p, q))),
    ensures
        token_at(s, p) == (KindV::Int(integer_value(s.subrange(p, q)) as i64, s.subrange(p, q)), q),
{
    let b = if s[p] == '-' { p + 1 } else { p };
    assert(is_digit(s[b]));
    lemma_scan_digits(s, b, q, false, false);
    assert(number_scan(s, q, false, true) == (q, false, true, false, true));
}

/// An optional `-`, digits, a dot and digits, up to a character that cannot continue a
/// number, is one floating-point token.
pub proof fn lemma_token_decimal(s: Seq<char>, p: int, d: int, q: int)
    requires
        0 <= p,
        (if s[p] == '-' { p + 1 } else { p }) < d < q <= s.len(),
        forall|k: int| (if s[p] == '-' { p + 1 } else { p }) <= k < d ==> is_digit(#[trigger] s[k]),
        s[d] == '.',
        forall|k: int| d + 1 <= k < q ==> is_digit(#[trigger] s[k]),
        ends_number(s, q),
    ensures
        token_at(s, p) == (KindV::Float(s.subrange(p, q)), q),
{
    let b = if s[p] == '-' { p + 1 } else { p };
    assert(is_digit(s[b]));
    lemma_scan_digits(s, b, d, false, false);
    lemma_scan_digits(s, d + 1, q, true, true);
    assert(number_scan(s, q, true, true) == (q, true, true, false, true));
}

/// The lexing of a text from `p` is the token there followed by the lexing after it.
pub proof fn lemma_lex_step(s: Seq<char>, p: int)
    requires
        0 <= p < s.len(),
        p < token_at(s, p).1 <= s.len(),
    ensures
        lex_from(s, p) == seq![(token_at(s, p).0, span_between(s, p, token_at(s, p).1))] + lex_from(
            s,
            token_at(s, p).1,
        ),
{
}

// ---------------------------------------------------------------------------
// Lemmas about positions
// ---------------------------------------------------------------------------
proof fn lemma_encode_push(a: Seq<char>, c: char)
    ensures
        encode_utf8(a.push(c)) == encode_utf8(a) + encode_scalar(c as u32),
    decreases a.len(),
{
    if a.len() == 0 {
        assert(a.push(c).drop_first() =~= Seq::<char>::empty());
        assert(encode_utf8(Seq::<char>::empty()) =~= Seq::<u8>::empty());
        assert(encode_scalar(c as u32) + Seq::<u8>::empty() =~= encode_scalar(c as u32));
    } else {
        assert(a.push(c).drop_first() =~= a.drop_first().push(c));
        lemma_encode_push(a.drop_first(), c);
        assert(encode_utf8(a.push(c)) =~= encode_scalar(a[0] as u32) + encode_utf8(
            a.drop_first().push(c),
        ));
        assert(encode_scalar(a[0] as u32) + (encode_utf8(a.drop_first()) + encode_scalar(c as u32))
            =~= (encode_scalar(a[0] as u32) + encode_utf8(a.drop_first())) + encode_scalar(c as u32));
    }
}

proof fn lemma_scalar_width(c: char)
    ensures
        encode_scalar(c as u32).len() == char_width(c),
{
    char_is_scalar(c);
}

/// Advancing one character adds its UTF-8 width to the byte offset.
pub proof fn lemma_bytes_step(s: Seq<char>, p: int)
    requires
        0 <= p < s.len(),
    ensures
        bytes_before(s, p + 1) == bytes_before(s, p) + char_width(s[p]),
{
    assert(s.take(p + 1) =~= s.take(p).push(s[p]));
    lemma_encode_push(s.take(p), s[p]);
    lemma_scalar_width(s[p]);
}

/// Byte offsets grow with the position, and never pass the length of the whole text.
pub proof fn lemma_bytes_mono(s: Seq<char>, p: int, q: int)
    requires
        0 <= p <= q <= s.len(),
    ensures
        bytes_before(s, p) <= bytes_before(s, q),
        q - p <= bytes_before(s, q) - bytes_before(s, p),
    decreases q - p,
{
    if p < q {
        lemma_bytes_mono(s, p, q - 1);
        lemma_bytes_step(s, q - 1);
    }
}

proof fn lemma_line_col_bound(s: Seq<char>, p: int)
    requires
        0 <= p,
    ensures
        1 <= line_col(s, p).0 <= p + 1,
        1 <= line_col(s, p).1 <= p + 1,
    decreases p,
{
    if p > 0 {
        lemma_line_col_bound(s, p - 1);
    }
}

proof fn lemma_ws_run_end(s: Seq<char>, i: int)
    requires
        0 <= i <= s.len(),
    ensures
        i <= ws_run_end(s, i) <= s.len(),
    decreases s.len() - i,
{
    if i < s.len() && is_ws(s[i]) && !is_nl(s[i]) {
        lemma_ws_run_end(s, i + 1);
    }
}

proof fn lemma_line_end(s: Seq<char>, i: int)
    requires
        0 <= i <= s.len(),
    ensures
        i <= line_end(s, i) <= s.len(),
    decreases s.len() - i,
{
    if i < s.len() && !is_nl(s[i]) {
        lemma_line_end(s, i + 1);
    }
}

proof fn lemma_ident_end(s: Seq<char>, i: int)
    requires
        0 <= i <= s.len(),
    ensures
        i <= ident_end(s, i) <= s.len(),
    decreases s.len() - i,
{
    if i < s.len() && ident_char(s[i]) {
        lemma_ident_end(s, i + 1);
    }
}

proof fn lemma_digits_end(s: Seq<char>, i: int)
    requires
        0 <= i <= s.len(),
    ensures
        i <= digits_end(s, i) <= s.len(),
    decreases s.len() - i,
{
    if i < s.len() && is_digit(s[i]) {
        lemma_digits_end(s, i + 1);
    }
}

proof fn lemma_template_close(s: Seq<char>, i: int)
    requires
        0 <= i,
    ensures
        template_close(s, i) matches Some(k) ==> i <= k && k + 1 < s.len(),
    decreases s.len() - i,
{
    if i + 1 < s.len() && !(s[i] == '>' && s[i + 1] == '%') {
        lemma_template_close(s, i + 1);
    }
}

proof fn lemma_string_body(s: Seq<char>, i: int, acc: Seq<char>)
    requires
        0 <= i,
    ensures
        string_body(s, i, acc) matches Some((_, e)) ==> i < e <= s.len(),
    decreases s.len() - i,
{
    if 0 <= i < s.len() && s[i] != '"' {
        if s[i] == '\\' {
            if i + 1 < s.len() {
                lemma_string_body(s, i + 2, acc + unescape(s[i + 1]));
            }
        } else {
            lemma_string_body(s, i + 1, acc.push(s[i]));
        }
    }
}

proof fn lemma_number_scan(s: Seq<char>, i: int, dot: bool, digit: bool)
    requires
        0 <= i <= s.len(),
    ensures
        i <= number_scan(s, i, dot, digit).0 <= s.len(),
        (i < s.len() && (is_digit(s[i]) || (s[i] == '.' && !dot))) ==> number_scan(s, i, dot, digit).0 > i,
    decreases s.len() - i,
{
    if i < s.len() {
        if is_digit(s[i]) {
            lemma_number_scan(s, i + 1, dot, true);
        } else if s[i] == '.' {
            if !dot {
                lemma_number_scan(s, i + 1, true, digit);
            }
        } else if s[i] == 'e' || s[i] == 'E' {
            let k = if i + 1 < s.len() && (s[i + 1] == '+' || s[i + 1] == '-') {
                i + 2
            } else {
                i + 1
            };
            lemma_digits_end(s, k);
        }
    }
}

pub proof fn lemma_whole_bytes(s: Seq<char>)
    ensures
        bytes_before(s, s.len() as int) == encode_utf8(s).len(),
{
    assert(s.take(s.len() as int) =~= s);
}

// ---------------------------------------------------------------------------
// The lexer
// ---------------------------------------------------------------------------
/// Splits PROTO text into tokens.
pub struct Lexer {
    chars: Vec<char>,
    pos: usize,
    byte_offset: usize,
    line: usize,
    col: usize,
}

impl Lexer {
    /// The characters being tokenized.
    pub closed spec fn input(&self) -> Seq<char> {
        self.chars@
    }

    /// The character position of the next token.
    pub closed spec fn position(&self) -> int {
        self.pos as int
    }

    /// The lexer's invariant: its counters describe its position in the input.
    pub closed spec fn wf(&self) -> bool {
        &&& self.pos <= self.chars@.len()
        &&& self.byte_offset == bytes_before(self.chars@, self.pos as int)
        &&& self.line == line_col(self.chars@, self.pos as int).0
        &&& self.col == line_col(self.chars@, self.pos as int).1
        &&& encode_utf8(self.chars@).len() < usize::MAX
    }

    /// Creates a lexer at the start of `input`.
    pub fn new(input: &str) -> (r: Lexer)
        requires
            encode_utf8(input@).len() < usize::MAX,
        ensures
            r.wf(),
            r.input() == input@,
            r.position() == 0,
    {
        let chars = crate::text::chars_of(input);
        proof {
            assert(chars@.take(0) =~= Seq::<char>::empty());
            assert(encode_utf8(Seq::<char>::empty()) =~= Seq::<u8>::empty());
        }
        Lexer { chars, pos: 0, byte_offset: 0, line: 1, col: 1 }
    }

    /// Creates a lexer at the start of the given characters, whose UTF-8 encoding must
    /// fit in memory.
    pub fn from_chars(chars: Vec<char>) -> (r: Lexer)
        requires
            encode_utf8(chars@).len() < usize::MAX,
        ensures
            r.wf(),
            r.input() == chars@,
            r.position() == 0,
    {
        proof {
            assert(chars@.take(0) =~= Seq::<char>::empty());
            assert(encode_utf8(Seq::<char>::empty()) =~= Seq::<u8>::empty());
        }
        Lexer { chars, pos: 0, byte_offset: 0, line: 1, col: 1 }
    }

    /// The next character, without consuming it.
    fn peek(&self) -> (r: Option<char>)
        requires
            self.wf(),
        ensures
            r == (if self.pos < self.chars@.len() {
                Some(self.chars@[self.pos as int])
            } else {
                None::<char>
            }),
    {
        if self.pos < self.chars.len() {
            Some(self.chars[self.pos])
        } else {
            None
        }
    }

    /// Consumes the next character, updating the byte offset, line and column.
    fn advance(&mut self) -> (r: Option<char>)
        requires
            old(self).wf(),
        ensures
            final(self).wf(),
            final(self).chars@ == old(self).chars@,
            old(self).pos < old(self).chars@.len() ==> final(self).pos == old(self).pos + 1 && r
                == Some(old(self).chars@[old(self).pos as int]),
            old(self).pos >= old(self).chars@.len() ==> final(self).pos == old(self).pos && r
                == None::<char>,
    {
        if self.pos < self.chars.len() {
            let c = self.chars[self.pos];
            proof {
                let s = self.chars@;
                let p = self.pos as int;
                lemma_bytes_step(s, p);
                lemma_bytes_mono(s, p + 1, s.len() as int);
                lemma_whole_bytes(s);
                lemma_line_col_bound(s, p + 1);
                lemma_bytes_mono(s, 0, s.len() as int);
                assert(s.take(0) =~= Seq::<char>::empty());
            }
            let w = char_len_utf8(c);
            self.byte_offset = self.byte_offset + w;
            if c == '\n' {
                self.line = self.line + 1;
                self.col = 1;
            } else {
                self.col = self.col + 1;
            }
            self.pos = self.pos + 1;
            Some(c)
        } else {
            None
        }
    }

    /// Moves to character position `q`, updating the byte offset, line and column.
    fn move_to(&mut self, q: usize)
        requires
            old(self).wf(),
            old(self).pos <= q <= old(self).chars@.len(),
        ensures
            final(self).wf(),
            final(self).chars@ == old(self).chars@,
            final(self).pos == q,
    {
        while self.pos < q
            invariant
                self.wf(),
                self.pos <= q <= self.chars@.len(),
                self.chars@ == old(self).chars@,
            decreases q - self.pos,
        {
            let c = self.chars[self.pos];
            proof {
                let s = self.chars@;
                let p = self.pos as int;
                lemma_bytes_step(s, p);
                lemma_bytes_mono(s, p + 1, s.len() as int);
                lemma_whole_bytes(s);
                lemma_line_col_bound(s, p + 1);
                lemma_bytes_mono(s, 0, s.len() as int);
                assert(s.take(0) =~= Seq::<char>::empty());
                assert(encode_utf8(Seq::<char>::empty()) =~= Seq::<u8>::empty());
            }
            let w = char_len_utf8(c);
            self.byte_offset = self.byte_offset + w;
            if c == '\n' {
                self.line = self.line + 1;
                self.col = 1;
            } else {
                self.col = self.col + 1;
            }
            self.pos = self.pos + 1;
        }
    }

    /// Reads the next token.
    pub fn next_token(&mut self) -> (t: Token)
        requires
            old(self).wf(),
        ensures
            final(self).wf(),
            final(self).input() == old(self).input(),
            old(self).position() < old(self).input().len() ==> {
                &&& t.kind@ == token_at(old(self).input(), old(self).position()).0
                &&& final(self).position() == token_at(old(self).input(), old(self).position()).1
                &&& old(self).position() < final(self).position() <= old(self).input().len()
            },
            old(self).position() >= old(self).input().len() ==> {
                &&& t.kind@ == KindV::Eof
                &&& final(self).position() == old(self).position()
            },
            t.span == span_between(old(self).input(), old(self).position(), final(self).position()),
    {
        let start_offset = self.byte_offset;
        let start_line = self.line;
        let start_col = self.col;
        if self.pos >= self.chars.len() {
            return Token {
                kind: TokenKind::Eof,
                span: Span::new(
                    start_offset,
                    start_offset,
                    start_line,
                    start_col,
                    start_line,
                    start_col,
                ),
            };
        }
        proof {
            lemma_bytes_mono(self.chars@, 0, self.chars@.len() as int);
            lemma_whole_bytes(self.chars@);
            assert(self.chars@.take(0) =~= Seq::<char>::empty());
            assert(encode_utf8(Seq::<char>::empty()) =~= Seq::<u8>::empty());
        }
        let (kind, end) = scan_token(&self.chars, self.pos);
        self.move_to(end);
        Token {
            kind,
            span: Span::new(start_offset, self.byte_offset, start_line, start_col, self.line, self.col),
        }
    }
}

/// The token that starts at position `p` of `s`, and where it ends.
pub fn scan_token(s: &Vec<char>, p: usize) -> (r: (TokenKind, usize))
    requires
        s@.len() < usize::MAX,
        p < s@.len(),
    ensures
        r.0@ == token_at(s@, p as int).0,
        r.1 == token_at(s@, p as int).1,
        p < r.1 <= s@.len(),
{
    let c = s[p];
    if is_whitespace(c) {
        scan_whitespace(s, p)
    } else if c == '#' {
        scan_comment(s, p)
    } else if c == '%' {
        if p + 1 < s.len() && s[p + 1] == '<' {
            scan_template(s, p)
        } else {
            (TokenKind::Unknown('%'), p + 1)
        }
    } else if c == '"' {
        scan_string(s, p)
    } else if c == '{' {
        (TokenKind::OpenBrace, p + 1)
    } else if c == '}' {
        (TokenKind::CloseBrace, p + 1)
    } else if c == '[' {
        (TokenKind::OpenBracket, p + 1)
    } else if c == ']' {
        (TokenKind::CloseBracket, p + 1)
    } else if c == ',' {
        (TokenKind::Comma, p + 1)
    } else if ('0' <= c && c <= '9') || c == '-' || c == '+' || c == '.' {
        scan_number(s, p)
    } else if is_identifier_start(c) {
        scan_identifier(s, p)
    } else {
        (TokenKind::Unknown(c), p + 1)
    }
}

fn scan_whitespace(s: &Vec<char>, p: usize) -> (r: (TokenKind, usize))
    requires
        s@.len() < usize::MAX,
        p < s@.len(),
        is_ws(s@[p as int]),
    ensures
        r.0@ == token_at(s@, p as int).0,
        r.1 == token_at(s@, p as int).1,
        p < r.1 <= s@.len(),
{
    let c = s[p];
    let mut v: Vec<char> = Vec::new();
    if c == '\n' || c == '\r' {
        v.push(c);
        if c == '\r' && p + 1 < s.len() && s[p + 1] == '\n' {
            v.push('\n');
            proof {
                assert(v@ =~= s@.subrange(p as int, p + 2));
            }
            return (TokenKind::Newline(crate::text::string_from_chars(&v)), p + 2);
        }
        proof {
            assert(v@ =~= s@.subrange(p as int, p + 1));
        }
        return (TokenKind::Newline(crate::text::string_from_chars(&v)), p + 1);
    }
    proof {
        lemma_ws_run_end(s@, p + 1);
    }
    let mut i = p;
    while i < s.len()
        invariant
            p <= i <= s@.len(),
            ws_run_end(s@, p as int) == ws_run_end(s@, i as int),
            v@ == s@.subrange(p as int, i as int),
        ensures
            ws_run_end(s@, p as int) == i,
            v@ == s@.subrange(p as int, i as int),
        decreases s.len() - i,
    {
        let d = s[i];
        if d == '\n' || d == '\r' || !is_whitespace(d) {
            break;
        }
        v.push(d);
        i = i + 1;
        proof {
            assert(v@ =~= s@.subrange(p as int, i as int));
        }
    }
    (TokenKind::Whitespace(crate::text::string_from_chars(&v)), i)
}

fn scan_comment(s: &Vec<char>, p: usize) -> (r: (TokenKind, usize))
    requires
        s@.len() < usize::MAX,
        p < s@.len(),
        s@[p as int] == '#',
    ensures
        r.0@ == token_at(s@, p as int).0,
        r.1 == token_at(s@, p as int).1,
        p < r.1 <= s@.len(),
{
    proof {
        lemma_line_end(s@, p + 1);
    }
    let mut v: Vec<char> = Vec::new();
    v.push('#');
    let mut i = p + 1;
    proof {
        assert(v@ =~= s@.subrange(p as int, i as int));
    }
    while i < s.len()
        invariant
            p < i <= s@.len(),
            line_end(s@, p + 1) == line_end(s@, i as int),
            v@ == s@.subrange(p as int, i as int),
        ensures
            line_end(s@, p + 1) == i,
            v@ == s@.subrange(p as int, i as int),
        decreases s.len() - i,
    {
        let d = s[i];
        if d == '\n' || d == '\r' {
            break;
        }
        v.push(d);
        i = i + 1;
        proof {
            assert(v@ =~= s@.subrange(p as int, i as int));
        }
    }
    (TokenKind::Comment(crate::text::string_from_chars(&v)), i)
}

fn scan_template(s: &Vec<char>, p: usize) -> (r: (TokenKind, usize))
    requires
        s@.len() < usize::MAX,
        p + 1 < s@.len(),
        s@[p as int] == '%',
        s@[p + 1] == '<',
    ensures
        r.0@ == token_at(s@, p as int).0,
        r.1 == token_at(s@, p as int).1,
        p < r.1 <= s@.len(),
{
    let is_expr = p + 2 < s.len() && s[p + 2] == '=';
    let q = if is_expr {
        p + 3
    } else {
        p + 2
    };
    proof {
        lemma_template_close(s@, q as int);
    }
    let mut v: Vec<char> = Vec::new();
    let mut i = q;
    proof {
        assert(v@ =~= s@.subrange(q as int, i as int));
    }
    while i < s.len()
        invariant
            q <= i <= s@.len(),
            p + 1 < s@.len(),
            s@[p as int] == '%',
            s@[p + 1] == '<',
            is_expr == (p + 2 < s@.len() && s@[p + 2] == '='),
            q == (if is_expr { p + 3 } else { p + 2 }),
            template_close(s@, q as int) == template_close(s@, i as int),
            v@ == s@.subrange(q as int, i as int),
        decreases s.len() - i,
    {
        if s[i] == '>' && i + 1 < s.len() && s[i + 1] == '%' {
            proof {
                assert(template_close(s@, i as int) == Some(i as int));
            }
            return (
                TokenKind::Template {
                    content: crate::text::string_from_chars(&v),
                    is_expression: is_expr,
                    terminated: true,
                },
                i + 2,
            );
        }
        v.push(s[i]);
        i = i + 1;
        proof {
            assert(v@ =~= s@.subrange(q as int, i as int));
        }
    }
    (
        TokenKind::Template {
            content: crate::text::string_from_chars(&v),
            is_expression: is_expr,
            terminated: false,
        },
        s.len(),
    )
}

fn scan_string(s: &Vec<char>, p: usize) -> (r: (TokenKind, usize))
    requires
        s@.len() < usize::MAX,
        p < s@.len(),
        s@[p as int] == '"',
    ensures
        r.0@ == token_at(s@, p as int).0,
        r.1 == token_at(s@, p as int).1,
        p < r.1 <= s@.len(),
{
    proof {
        lemma_string_body(s@, p + 1, Seq::empty());
    }
    let mut v: Vec<char> = Vec::new();
    let mut i = p + 1;
    while i < s.len()
        invariant
            p < i <= s@.len(),
            s@[p as int] == '"',
            string_body(s@, p + 1, Seq::empty()) == string_body(s@, i as int, v@),
        decreases s.len() - i,
    {
        let d = s[i];
        if d == '"' {
            proof {
                assert(string_body(s@, i as int, v@) == Some((v@, i + 1)));
            }
            return (TokenKind::Str(crate::text::string_from_chars(&v)), i + 1);
        } else if d == '\\' {
            if i + 1 < s.len() {
                let e = s[i + 1];
                let ghost before = v@;
                if e == 'n' {
                    v.push('\n');
                } else if e == 'r' {
                    v.push('\r');
                } else if e == 't' {
                    v.push('\t');
                } else if e == '\\' {
                    v.push('\\');
                } else if e == '"' {
                    v.push('"');
                } else {
                    v.push('\\');
                    v.push(e);
                }
                proof {
                    assert(v@ =~= before + unescape(e));
                }
                i = i + 2;
            } else {
                i = i + 1;
            }
        } else {
            v.push(d);
            i = i + 1;
        }
    }
    (TokenKind::Unknown('"'), s.len())
}

fn scan_identifier(s: &Vec<char>, p: usize) -> (r: (TokenKind, usize))
    requires
        s@.len() < usize::MAX,
        p < s@.len(),
        ident_start(s@[p as int]),
        !is_ws(s@[p as int]),
        !number_start(s@[p as int]),
        !(s@[p as int] == '#' || s@[p as int] == '%' || s@[p as int] == '"' || s@[p as int] == '{'
          || s@[p as int] == '}' || s@[p as int] == '[' || s@[p as int] == ']' || s@[p as int] == ','),
    ensures
        r.0@ == token_at(s@, p as int).0,
        r.1 == token_at(s@, p as int).1,
        p < r.1 <= s@.len(),
{
    proof {
        lemma_ident_end(s@, p + 1);
    }
    let mut v: Vec<char> = Vec::new();
    let mut i = p;
    while i < s.len()
        invariant
            p <= i <= s@.len(),
            ident_end(s@, p as int) == ident_end(s@, i as int),
            v@ == s@.subrange(p as int, i as int),
        ensures
            ident_end(s@, p as int) == i,
            v@ == s@.subrange(p as int, i as int),
        decreases s.len() - i,
    {
        let d = s[i];
        if !is_identifier_char(d) {
            break;
        }
        v.push(d);
        i = i + 1;
        proof {
            assert(v@ =~= s@.subrange(p as int, i as int));
        }
    }
    (word_token(v), i)
}

fn scan_number(s: &Vec<char>, p: usize) -> (r: (TokenKind, usize))
    requires
        s@.len() < usize::MAX,
        p < s@.len(),
        number_start(s@[p as int]),
    ensures
        r.0@ == number_token(s@, p as int).0,
        r.1 == number_token(s@, p as int).1,
        p < r.1 <= s@.len(),
{
    let start_char = s[p];
    let mut v: Vec<char> = Vec::new();
    let mut i = p;
    if start_char == '-' || start_char == '+' {
        v.push(start_char);
        i = p + 1;
    }
    let body = i;
    proof {
        assert(v@ =~= s@.subrange(p as int, body as int));
        lemma_number_scan(s@, body as int, false, false);
    }
    let mut has_dot = false;
    let mut has_digit = false;
    let mut has_exp = false;
    let mut exp_ok = true;
    while i < s.len()
        invariant
            p <= body <= i <= s@.len(),
            number_scan(s@, body as int, false, false) == (if has_exp {
                (i as int, has_dot, has_digit, true, exp_ok)
            } else {
                number_scan(s@, i as int, has_dot, has_digit)
            }),
            !has_exp ==> exp_ok,
            v@ == s@.subrange(p as int, i as int),
            body == p || (body == p + 1 && (s@[p as int] == '-' || s@[p as int] == '+')),
            (!has_dot && !has_exp) ==> forall|j: int| body <= j < i ==> is_digit(#[trigger] s@[j]),
            has_digit ==> i > body,
        ensures
            number_scan(s@, body as int, false, false) == (i as int, has_dot, has_digit, has_exp, exp_ok),
            v@ == s@.subrange(p as int, i as int),
            (!has_dot && !has_exp) ==> forall|j: int| body <= j < i ==> is_digit(#[trigger] s@[j]),
            has_digit ==> i > body,
        decreases s.len() - i, if has_exp { 0int } else { 1int },
    {
        if has_exp {
            break;
        }
        let d = s[i];
        if '0' <= d && d <= '9' {
            has_digit = true;
            v.push(d);
            i = i + 1;
        } else if d == '.' {
            if has_dot {
                break;
            }
            has_dot = true;
            v.push(d);
            i = i + 1;
        } else if d == 'e' || d == 'E' {
            v.push(d);
            i = i + 1;
            if i < s.len() && (s[i] == '+' || s[i] == '-') {
                v.push(s[i]);
                i = i + 1;
            }
            let k = i;
            proof {
                assert(v@ =~= s@.subrange(p as int, i as int));
                lemma_digits_end(s@, k as int);
            }
            while i < s.len()
                invariant
                    p <= k <= i <= s@.len(),
                    digits_end(s@, k as int) == digits_end(s@, i as int),
                    v@ == s@.subrange(p as int, i as int),
                ensures
                    digits_end(s@, k as int) == i,
                    v@ == s@.subrange(p as int, i as int),
                decreases s.len() - i,
            {
                let e = s[i];
                if !('0' <= e && e <= '9') {
                    break;
                }
                v.push(e);
                i = i + 1;
                proof {
                    assert(v@ =~= s@.subrange(p as int, i as int));
                }
            }
            has_exp = true;
            exp_ok = i > k;
        } else {
            break;
        }
        proof {
            assert(v@ =~= s@.subrange(p as int, i as int));
        }
    }
    if !has_digit && !has_dot {
        return (TokenKind::Unknown(start_char), i);
    }
    if has_dot || has_exp {
        if has_digit && exp_ok {
            return (TokenKind::Float(crate::text::string_from_chars(&v)), i);
        }
        return (TokenKind::Unknown(start_char), i);
    }
    proof {
        assert forall|j: int| 0 <= j < v@.len() implies (is_digit(#[trigger] v@[j]) || (j == 0 && (v@[j] == '-' || v@[j] == '+'))) by {
            assert(v@[j] == s@[p + j]);
        }
    }
    match parse_integer(&v) {
        Some(value) => (TokenKind::Int(value, crate::text::string_from_chars(&v)), i),
        None => (TokenKind::Float(crate::text::string_from_chars(&v)), i),
    }
}
/// The UTF-8 width of a character, as `char::len_utf8` computes it.
pub fn char_len_utf8(c: char) -> (r: usize)
    ensures
        r == char_width(c),
{
    let u = c as u32;
    if u <= 0x7f {
        1
    } else if u <= 0x7ff {
        2
    } else if u <= 0xffff {
        3
    } else {
        4
    }
}

fn chars_equal(v: &Vec<char>, w: &[char]) -> (r: bool)
    ensures
        r == (v@ == w@),
{
    if v.len() != w.len() {
        return false;
    }
    let mut i: usize = 0;
    while i < v.len()
        invariant
            v@.len() == w@.len(),
            i <= v@.len(),
            forall|j: int| 0 <= j < i ==> v@[j] == w@[j],
        decreases v.len() - i,
    {
        if v[i] != w[i] {
            return false;
        }
        i = i + 1;
    }
    proof {
        assert(v@ =~= w@);
    }
    true
}

/// The keyword token or identifier that the word `v` forms.
fn word_token(v: Vec<char>) -> (k: TokenKind)
    ensures
        k@ == word_kind(v@),
{
    if chars_equal(&v, &['D', 'E', 'F']) {
        TokenKind::Def
    } else if chars_equal(&v, &['U', 'S', 'E']) {
        TokenKind::Use
    } else if chars_equal(&v, &['P', 'R', 'O', 'T', 'O']) {
        TokenKind::Proto
    } else if chars_equal(&v, &['E', 'X', 'T', 'E', 'R', 'N', 'P', 'R', 'O', 'T', 'O']) {
        TokenKind::ExternProto
    } else if chars_equal(&v, &['f', 'i', 'e', 'l', 'd']) {
        TokenKind::Field
    } else if chars_equal(&v, &['v', 'r', 'm', 'l', 'F', 'i', 'e', 'l', 'd']) {
        TokenKind::VrmlField
    } else if chars_equal(&v, &['h', 'i', 'd', 'd', 'e', 'n', 'F', 'i', 'e', 'l', 'd']) {
        TokenKind::HiddenField
    } else if chars_equal(
        &v,
        &['d', 'e', 'p', 'r', 'e', 'c', 'a', 't', 'e', 'd', 'F', 'i', 'e', 'l', 'd'],
    ) {
        TokenKind::DeprecatedField
    } else if chars_equal(&v, &['I', 'S']) {
        TokenKind::Is
    } else if chars_equal(&v, &['N', 'U', 'L', 'L']) {
        TokenKind::Null
    } else if chars_equal(&v, &['T', 'R', 'U', 'E']) {
        TokenKind::True
    } else if chars_equal(&v, &['F', 'A', 'L', 'S', 'E']) {
        TokenKind::False
    } else {
        TokenKind::Identifier(crate::text::string_from_chars(&v))
    }
}

proof fn lemma_digits_value_nonneg(d: Seq<char>)
    requires
        forall|i: int| 0 <= i < d.len() ==> is_digit(#[trigger] d[i]),
    ensures
        digits_value(d) >= 0,
    decreases d.len(),
{
    if d.len() > 0 {
        lemma_digits_value_nonneg(d.drop_last());
    }
}

/// The integer written by `v` (an optional sign and at least one digit), if it fits
/// in an `i64`.
pub fn parse_integer(v: &Vec<char>) -> (r: Option<i64>)
    requires
        v@.len() > 0,
        forall|i: int| 0 <= i < v@.len() ==> (is_digit(#[trigger] v@[i]) || (i == 0 && (v@[i] == '-' || v@[i] == '+'))),
    ensures
        fits_i64(integer_value(v@)) ==> r == Some(integer_value(v@) as i64),
        !fits_i64(integer_value(v@)) ==> r.is_none(),
{
    let negative = v[0] == '-';
    let start: usize = if v[0] == '-' || v[0] == '+' { 1 } else { 0 };
    let ghost d = v@.subrange(start as int, v@.len() as int);
    let mut acc: u128 = 0;
    let mut big = false;
    let mut i = start;
    proof {
        assert(v@.subrange(start as int, start as int) =~= Seq::<char>::empty());
    }
    while i < v.len()
        invariant
            start <= i <= v@.len(),
            d == v@.subrange(start as int, v@.len() as int),
            forall|j: int| start <= j < v@.len() ==> is_digit(#[trigger] v@[j]),
            !big ==> acc == digits_value(v@.subrange(start as int, i as int)),
            !big ==> acc <= 100_000_000_000_000_000_000u128,
            big ==> digits_value(v@.subrange(start as int, i as int)) > 10_000_000_000_000_000_000int,
            digits_value(v@.subrange(start as int, i as int)) >= 0,
        decreases v.len() - i,
    {
        let digit = (v[i] as u32 - '0' as u32) as u128;
        proof {
            assert(v@.subrange(start as int, i + 1).drop_last() =~= v@.subrange(start as int, i as int));
            assert(v@.subrange(start as int, i + 1).last() == v@[i as int]);
        }
        if !big {
            acc = acc * 10 + digit;
            if acc > 10_000_000_000_000_000_000u128 {
                big = true;
            }
        }
        i = i + 1;
    }
    proof {
        assert(v@.subrange(start as int, v@.len() as int) == d);
        if start == 1 {
            assert(v@.drop_first() =~= d);
        } else {
            assert(v@ =~= d);
        }
    }
    if big {
        return None;
    }
    if negative {
        if acc <= 9_223_372_036_854_775_808u128 {
            if acc == 9_223_372_036_854_775_808u128 {
                Some(i64::MIN)
            } else {
                Some(-(acc as i64))
            }
        } else {
            None
        }
    } else {
        if acc <= 9_223_372_036_854_775_807u128 {
            Some(acc as i64)
        } else {
            None
        }
    }
}

// ---------------------------------------------------------------------------
// Whole input
// ---------------------------------------------------------------------------
/// Every token read from position `p` on, with its span, up to and including the
/// end-of-input token.
pub open spec fn lex_from(s: Seq<char>, p: int) -> Seq<(KindV, Span)>
    decreases s.len() - p,
{
    if p < 0 || p >= s.len() {
        seq![(KindV::Eof, span_between(s, p, p))]
    } else {
        let (k, e) = token_at(s, p);
        if p < e <= s.len() {
            seq![(k, span_between(s, p, e))] + lex_from(s, e)
        } else {
            seq![(KindV::Eof, span_between(s, p, p))]
        }
    }
}

/// The tokens of a whole text.
pub open spec fn lex(s: Seq<char>) -> Seq<(KindV, Span)> {
    lex_from(s, 0)
}

/// The model of a sequence of tokens.
pub open spec fn tokens_view(t: Seq<Token>) -> Seq<(KindV, Span)> {
    Seq::new(t.len(), |i: int| (t[i].kind@, t[i].span))
}

/// A token starting inside the input ends after its start and inside the input.
pub proof fn lemma_token_progress(s: Seq<char>, p: int)
    requires
        0 <= p < s.len(),
    ensures
        p < token_at(s, p).1 <= s.len(),
{
    let c = s[p];
    if is_ws(c) {
        if !is_nl(c) {
            lemma_ws_run_end(s, p + 1);
        }
    } else if c == '#' {
        lemma_line_end(s, p + 1);
    } else if c == '%' {
        if p + 1 < s.len() && s[p + 1] == '<' {
            let is_expr = p + 2 < s.len() && s[p + 2] == '=';
            let q = if is_expr {
                p + 3
            } else {
                p + 2
            };
            lemma_template_close(s, q);
        }
    } else if c == '"' {
        lemma_string_body(s, p + 1, Seq::empty());
    } else if c == '{' || c == '}' || c == '[' || c == ']' || c == ',' {
    } else if number_start(c) {
        let body = if c == '-' || c == '+' {
            p + 1
        } else {
            p
        };
        lemma_number_scan(s, body, false, false);
    } else if ident_start(c) {
        lemma_ident_end(s, p + 1);
    }
}

/// The number of line feeds in `s`.
pub open spec fn newline_count(s: Seq<char>) -> nat
    decreases s.len(),
{
    if s.len() == 0 {
        0
    } else {
        newline_count(s.drop_last()) + if s.last() == '\n' {
            1nat
        } else {
            0nat
        }
    }
}

/// The line at character position `p` is one more than the number of line feeds
/// before it.
pub proof fn lemma_line_of(s: Seq<char>, p: int)
    requires
        0 <= p <= s.len(),
    ensures
        line_col(s, p).0 == 1 + newline_count(s.take(p)),
    decreases p,
{
    if p > 0 {
        lemma_line_of(s, p - 1);
        assert(s.take(p).drop_last() =~= s.take(p - 1));
        assert(s.take(p).last() == s[p - 1]);
    } else {
        assert(s.take(0) =~= Seq::<char>::empty());
    }
}

/// Tokenizing partitions the text: the spans of successive tokens meet end to
/// start, the first starts at offset 0 on line 1, column 1, and the last is the
/// end-of-input token, empty, at the byte length of the text and on the line after
/// its last line feed; there is at most one token per character, besides the
/// end-of-input token.
pub proof fn lemma_lex_partition(s: Seq<char>)
    ensures
        lex(s).len() >= 1,
        lex(s).len() <= s.len() + 1,
        lex(s)[0].1.start == 0,
        lex(s)[0].1.start_line == 1,
        lex(s)[0].1.start_col == 1,
        lex(s).last().1 == span_between(s, s.len() as int, s.len() as int),
        line_col(s, s.len() as int).0 == 1 + newline_count(s),
        lex(s).last().0 == KindV::Eof,
        lex(s).last().1.start == encode_utf8(s).len() as usize,
        lex(s).last().1.end == encode_utf8(s).len() as usize,
        forall|i: int| 0 <= i < lex(s).len() - 1 ==> (#[trigger] lex(s)[i]).1.end == lex(s)[i + 1].1.start,
        forall|i: int| 0 <= i < lex(s).len() - 1 ==> !((#[trigger] lex(s)[i]).0 is Eof),
{
    lemma_lex_from_partition(s, 0);
    lemma_lex_from_len(s, 0);
    assert(s.take(0) =~= Seq::<char>::empty());
    assert(encode_utf8(Seq::<char>::empty()) =~= Seq::<u8>::empty());
    lemma_whole_bytes(s);
    lemma_line_of(s, s.len() as int);
    assert(s.take(s.len() as int) =~= s);
    assert(line_col(s, 0) == (1int, 1int));
    if 0 < s.len() {
        lemma_token_progress(s, 0);
        let (k, e) = token_at(s, 0);
        assert(lex(s) == seq![(k, span_between(s, 0, e))] + lex_from(s, e));
        assert(lex(s)[0] == (k, span_between(s, 0, e)));
    } else {
        assert(lex(s)[0] == (KindV::Eof, span_between(s, 0, 0)));
    }
}

proof fn lemma_token_not_eof(s: Seq<char>, p: int)
    requires
        0 <= p < s.len(),
    ensures
        !(token_at(s, p).0 is Eof),
{
}

proof fn lemma_lex_from_partition(s: Seq<char>, p: int)
    requires
        0 <= p <= s.len(),
    ensures
        lex_from(s, p).len() >= 1,
        lex_from(s, p)[0].1.start == bytes_before(s, p) as usize,
        lex_from(s, p).last().0 == KindV::Eof,
        lex_from(s, p).last().1 == span_between(s, s.len() as int, s.len() as int),
        forall|i: int| 0 <= i < lex_from(s, p).len() - 1 ==> (#[trigger] lex_from(s, p)[i]).1.end == lex_from(s, p)[i + 1].1.start,
        forall|i: int| 0 <= i < lex_from(s, p).len() - 1 ==> !((#[trigger] lex_from(s, p)[i]).0 is Eof),
    decreases s.len() - p,
{
    if p < s.len() {
        lemma_token_progress(s, p);
        let (k, e) = token_at(s, p);
        lemma_lex_from_partition(s, e);
        let rest = lex_from(s, e);
        let all = lex_from(s, p);
        assert(all == seq![(k, span_between(s, p, e))] + rest);
        assert forall|i: int| 0 <= i < all.len() - 1 implies (#[trigger] all[i]).1.end == all[i + 1].1.start by {
            if i > 0 {
                assert(all[i] == rest[i - 1]);
                assert(all[i + 1] == rest[i]);
            }
        }
        assert forall|i: int| 0 <= i < all.len() - 1 implies !((#[trigger] all[i]).0 is Eof) by {
            if i > 0 {
                assert(all[i] == rest[i - 1]);
            } else {
                lemma_token_not_eof(s, p);
            }
        }
    }
}

/// Reads every token of `input`, ending with the end-of-input token.
pub fn tokenize(input: &str) -> (r: Vec<Token>)
    requires
        encode_utf8(input@).len() < usize::MAX,
    ensures
        tokens_view(r@) == lex(input@),
{
    let mut lexer = Lexer::new(input);
    let ghost s = input@;
    let mut out: Vec<Token> = Vec::new();
    proof {
        assert(tokens_view(out@) =~= Seq::<(KindV, Span)>::empty());
        assert(Seq::<(KindV, Span)>::empty() + lex_from(s, 0) =~= lex_from(s, 0));
    }
    loop
        invariant
            lexer.wf(),
            lexer.input() == s,
            s == input@,
            0 <= lexer.position() <= s.len(),
            tokens_view(out@) + lex_from(s, lexer.position()) == lex(s),
        decreases s.len() - lexer.position(),
    {
        let ghost p = lexer.position();
        let ghost before = out@;
        let t = lexer.next_token();
        let at_end = match t.kind {
            TokenKind::Eof => true,
            _ => false,
        };
        out.push(t);
        proof {
            assert(tokens_view(out@) =~= tokens_view(before).push((out@.last().kind@, out@.last().span)));
        }
        if at_end {
            proof {
                if p < s.len() {
                    lemma_token_not_eof(s, p);
                }
                assert(lex_from(s, p) =~= seq![(KindV::Eof, span_between(s, p, p))]);
                assert(tokens_view(before) + lex_from(s, p) =~= tokens_view(out@));
                assert(tokens_view(out@) == lex(s));
            }
            return out;
        }
        proof {
            let (k, e) = token_at(s, p);
            assert(lex_from(s, p) == seq![(k, span_between(s, p, e))] + lex_from(s, e));
            assert(tokens_view(out@) + lex_from(s, e) =~= tokens_view(before) + lex_from(s, p));
        }
    }
}

/// There are at most as many tokens from `p` on as characters, plus the end-of-input token.
pub proof fn lemma_lex_from_len(s: Seq<char>, p: int)
    requires
        0 <= p <= s.len(),
    ensures
        lex_from(s, p).len() <= s.len() - p + 1,
    decreases s.len() - p,
{
    if p < s.len() {
        lemma_token_progress(s, p);
        lemma_lex_from_len(s, token_at(s, p).1);
    }
}

/// A text has at most one token more than it has UTF-8 bytes.
pub proof fn lemma_lex_len(s: Seq<char>)
    ensures
        lex(s).len() <= encode_utf8(s).len() + 1,
{
    lemma_lex_from_len(s, 0);
    lemma_bytes_mono(s, 0, s.len() as int);
    lemma_whole_bytes(s);
    assert(s.take(0) =~= Seq::<char>::empty());
    assert(encode_utf8(Seq::<char>::empty()) =~= Seq::<u8>::empty());
}

} // verus!
