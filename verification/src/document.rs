//! Documents as wholes: parsing a text into a [`Proto`] and writing one back.
use crate::ast::{ExternProtoV, NodeV, Proto, ProtoV, Span};
use crate::error::{is_syntax_error, ErrV, Error, ProtoError};
use crate::header::{content_end, header_marker, header_of, lemma_next_line, next_line, skip_ws};
use crate::lexer::{
    ident_end, is_ws, lemma_lex_step, lemma_string_run, lex, lex_from, span_between, string_body,
    token_at, ws_run_end, KindV,
};
use crate::parser::Parser;
use crate::parser_spec::{
    lemma_significant_prepend, read_document, read_document_from, read_extern_proto, read_externs, read_roots,
    significant, span_from,
};
use crate::writer::{document_text, extern_text, externs_text, lossless_text, ProtoWriter};
use vstd::prelude::*;
use vstd::utf8::encode_utf8;

verus! {

/// What a text parses to: the document, with its header, its declarations, its PROTO
/// definition and root nodes as the grammar reads them from the significant tokens,
/// and the text itself as its source; or the first syntax error.
pub open spec fn document_of(s: Seq<char>) -> Result<ProtoV, ErrV> {
    match read_document(significant(lex(s))) {
        Ok((externs, proto, roots)) => Ok(
            ProtoV {
                header: header_of(s),
                externprotos: externs,
                proto,
                root_nodes: roots,
                source_path: None,
                source_content: Some(s),
            },
        ),
        Err(e) => Err(e),
    }
}

/// The `Debug` text of a syntax error with these fields.
pub uninterp spec fn syntax_error_debug(line: usize, col: usize, message: Seq<char>) -> Seq<char>;

/// `format!("{:?}")` of [`Error::Syntax`] with the given fields: the text depends on
/// the three fields alone.
#[verifier::external_body]
fn debug_syntax_error(line: usize, col: usize, message: &String) -> (r: String)
    ensures
        r@ == syntax_error_debug(line, col, message@),
{
    format!("{:?}", Error::Syntax { line, col, message: message.clone() })
}

/// Parses a whole text.
pub fn parse_text(input: &str) -> (r: Result<Proto, Error>)
    requires
        encode_utf8(input@).len() <= isize::MAX,
    ensures
        match (r, document_of(input@)) {
            (Ok(d), Ok(v)) => d@ == v,
            (Err(e), Err(ev)) => is_syntax_error(e, ev),
            _ => false,
        },
{
    let mut parser = Parser::new(input);
    proof {
        assert(read_document_from(parser.tokens(), 0) matches Ok((ex, pr, ro, _)) ==> read_document(
            parser.tokens(),
        ) == Ok::<(Seq<ExternProtoV>, Option<crate::ast::ProtoDefV>, Seq<NodeV>), ErrV>((ex, pr, ro)));
    }
    parser.parse_document()
}

/// What [`Proto::from_text`] answers for a text: the document, or the parse error whose
/// message is the `Debug` text of the syntax error.
pub open spec fn from_text_result(s: Seq<char>, r: Result<Proto, ProtoError>) -> bool {
    match (r, document_of(s)) {
        (Ok(d), Ok(v)) => d@ == v,
        (Err(ProtoError::ParseError(m)), Err(ev)) => m@ == syntax_error_debug(ev.line, ev.col, ev.message),
        _ => false,
    }
}

impl Proto {
    /// Parses a document from text (what `str::parse` does for this type).
    pub fn from_text(s: &str) -> (r: Result<Proto, ProtoError>)
        ensures
            encode_utf8(s@).len() <= isize::MAX ==> from_text_result(s@, r),
            encode_utf8(s@).len() > isize::MAX ==> r is Err,
    {
        let n = s.as_bytes().len();
        if n > isize::MAX as usize {
            // A `str` never holds more than `isize::MAX` bytes.
            return Err(ProtoError::ParseError(String::new()));
        }
        match parse_text(s) {
            Ok(d) => Ok(d),
            Err(e) => match e {
                Error::Syntax { line, col, message } => Err(ProtoError::ParseError(debug_syntax_error(line, col, &message))),
                _ => Err(ProtoError::ParseError(String::new())),
            },
        }
    }

    /// Parses the text read from the file at `path`, and records the path.
    pub fn from_file_content(path: String, content: &str) -> (r: Result<Proto, ProtoError>)
        ensures
            encode_utf8(content@).len() > isize::MAX ==> r is Err,
            encode_utf8(content@).len() <= isize::MAX ==> match (r, document_of(content@)) {
                (Ok(d), Ok(v)) => d@ == (ProtoV { source_path: Some(path@), ..v }),
                (Err(ProtoError::ParseError(m)), Err(ev)) => m@ == syntax_error_debug(ev.line, ev.col, ev.message),
                _ => false,
            },
    {
        match Proto::from_text(content) {
            Ok(mut d) => {
                d.source_path = Some(path);
                Ok(d)
            },
            Err(e) => Err(e),
        }
    }

    /// The document as text, keeping the formatting of its source (see
    /// [`ProtoWriter::write_lossless`]).
    pub fn to_lossless_string(&self) -> (r: Result<String, ProtoError>)
        ensures
            r matches Ok(s) && s@ == lossless_text(self@),
    {
        ProtoWriter::new().write_lossless(self)
    }

    /// The canonical text of the document.
    pub fn to_canonical_string(&self) -> (r: Result<String, ProtoError>)
        ensures
            r matches Ok(s) && s@ == document_text(self@),
    {
        Ok(ProtoWriter::new().write_canonical(self))
    }
}

impl std::str::FromStr for Proto {
    type Err = ProtoError;

    fn from_str(s: &str) -> Result<Proto, ProtoError> {
        Proto::from_text(s)
    }
}

/// Lossless round trip: writing a parsed document losslessly gives back exactly the
/// text it was parsed from.
pub proof fn lemma_lossless_round_trip(s: Seq<char>)
    requires
        document_of(s) is Ok,
    ensures
        lossless_text(document_of(s)->Ok_0) == s,
{
}

/// Idempotency: parsing the lossless output of a parsed document and writing it
/// again gives the same text, and the same document as the first parse.
pub proof fn lemma_lossless_idempotent(s: Seq<char>)
    requires
        document_of(s) is Ok,
    ensures
        document_of(lossless_text(document_of(s)->Ok_0)) == document_of(s),
        lossless_text(document_of(lossless_text(document_of(s)->Ok_0))->Ok_0) == lossless_text(document_of(s)->Ok_0),
{
    lemma_lossless_round_trip(s);
}

/// A parsed document records no file path, and its source text is the parsed text.
pub proof fn lemma_parsed_source(s: Seq<char>)
    requires
        document_of(s) is Ok,
    ensures
        document_of(s)->Ok_0.source_content == Some(s),
        document_of(s)->Ok_0.source_path is None,
{
}

/// The document that holds one EXTERNPROTO declaration and nothing else.
pub open spec fn extern_only(e: ExternProtoV) -> ProtoV {
    ProtoV {
        header: None,
        externprotos: seq![e],
        proto: None,
        root_nodes: Seq::empty(),
        source_path: None,
        source_content: None,
    }
}

/// True when a URL can be written between quotes as it is: it holds no quote and no
/// backslash.
pub open spec fn quotable(url: Seq<char>) -> bool {
    forall|k: int| 0 <= k < url.len() ==> url[k] != '"' && url[k] != '\\'
}

/// A text that starts with a character other than whitespace and `#` has no header.
pub proof fn lemma_no_header(t: Seq<char>)
    requires
        t.len() > 0,
        !is_ws(t[0]),
        t[0] != '#',
    ensures
        header_of(t) is None,
{
    lemma_next_line(t, 0);
    let e = next_line(t, 0);
    let c = content_end(t, 0);
    assert(t[0] != '\n' && t[0] != '\r');
    assert(c >= 1);
    assert(skip_ws(t, 0, c) == 0);
    let line = t.subrange(0, c);
    assert(line[0] == t[0]);
    if line.len() >= header_marker().len() {
        assert(line.take(9)[0] != header_marker()[0]);
    }
}

/// The characters of a declaration's text: the URL sits between quotes after the
/// keywords.
proof fn lemma_url_chars(t: Seq<char>, url: Seq<char>, o: int)
    requires
        0 <= o,
        t.len() == o + 14 + url.len(),
        t.subrange(o + 13, o + 13 + url.len()) == url,
        t[o + 13 + url.len()] == '"',
        quotable(url),
    ensures
        string_body(t, o + 13, Seq::empty()) == Some((url, o + 14 + url.len())),
{
    let n = url.len() as int;
    assert forall|k: int| o + 13 <= k < o + 13 + n implies #[trigger] t[k] != '"' && t[k] != '\\' by {
        assert(t.subrange(o + 13, o + 13 + n)[k - o - 13] == t[k]);
    }
    lemma_string_run(t, o + 13, n, Seq::empty());
    assert(Seq::<char>::empty() + t.subrange(o + 13, o + 13 + n) =~= url);
}

/// The tokens of `IMPORTABLE EXTERNPROTO "url"`.
#[verifier::rlimit(40)]
proof fn lemma_importable_tokens(t: Seq<char>, url: Seq<char>)
    requires
        t == "IMPORTABLE "@ + "EXTERNPROTO \""@ + url + seq!['"'],
        quotable(url),
    ensures
        token_at(t, 0) == (KindV::Identifier("IMPORTABLE"@), 10int),
        token_at(t, 10) == (KindV::Whitespace(t.subrange(10, 11)), 11int),
        token_at(t, 11) == (KindV::ExternProto, 22int),
        token_at(t, 22) == (KindV::Whitespace(t.subrange(22, 23)), 23int),
        token_at(t, 23) == (KindV::Str(url), 25 + url.len() as int),
        t.len() == 25 + url.len(),
{
    reveal_strlit("IMPORTABLE ");
    reveal_strlit("EXTERNPROTO \"");
    reveal_strlit("IMPORTABLE");
    let n = url.len() as int;
    assert(t.len() == 25 + n);
    assert(t.subrange(24, 24 + n) =~= url);
    assert(t[24 + n] == '"');
    lemma_url_chars(t, url, 11);

        assert(t[0] == 'I');
        assert(t[1] == 'M');
        assert(t[2] == 'P');
        assert(t[3] == 'O');
        assert(t[4] == 'R');
        assert(t[5] == 'T');
        assert(t[6] == 'A');
        assert(t[7] == 'B');
        assert(t[8] == 'L');
        assert(t[9] == 'E');
        assert(t[10] == ' ');
        assert(t[11] == 'E');
        assert(t[12] == 'X');
        assert(t[13] == 'T');
        assert(t[14] == 'E');
        assert(t[15] == 'R');
        assert(t[16] == 'N');
        assert(t[17] == 'P');
        assert(t[18] == 'R');
        assert(t[19] == 'O');
        assert(t[20] == 'T');
        assert(t[21] == 'O');
        assert(t[22] == ' ');
        assert(t[23] == '"');
        assert(ident_end(t, 10) == 10);
        assert(ident_end(t, 9) == 10);
        assert(ident_end(t, 8) == 10);
        assert(ident_end(t, 7) == 10);
        assert(ident_end(t, 6) == 10);
        assert(ident_end(t, 5) == 10);
        assert(ident_end(t, 4) == 10);
        assert(ident_end(t, 3) == 10);
        assert(ident_end(t, 2) == 10);
        assert(ident_end(t, 1) == 10);
        assert(ident_end(t, 0) == 10);
        assert(ws_run_end(t, 11) == 11);
        assert(ws_run_end(t, 10) == 11);
        assert(ident_end(t, 22) == 22);
        assert(ident_end(t, 21) == 22);
        assert(ident_end(t, 20) == 22);
        assert(ident_end(t, 19) == 22);
        assert(ident_end(t, 18) == 22);
        assert(ident_end(t, 17) == 22);
        assert(ident_end(t, 16) == 22);
        assert(ident_end(t, 15) == 22);
        assert(ident_end(t, 14) == 22);
        assert(ident_end(t, 13) == 22);
        assert(ident_end(t, 12) == 22);
        assert(ident_end(t, 11) == 22);
        assert(ws_run_end(t, 23) == 23);
        assert(ws_run_end(t, 22) == 23);

    assert(t.subrange(0, 10) =~= "IMPORTABLE"@);
    assert(t.subrange(11, 22) =~= seq!['E', 'X', 'T', 'E', 'R', 'N', 'P', 'R', 'O', 'T', 'O']);
}

/// The tokens of `EXTERNPROTO "url"`.
#[verifier::rlimit(40)]
proof fn lemma_plain_extern_tokens(t: Seq<char>, url: Seq<char>)
    requires
        t == "EXTERNPROTO \""@ + url + seq!['"'],
        quotable(url),
    ensures
        token_at(t, 0) == (KindV::ExternProto, 11int),
        token_at(t, 11) == (KindV::Whitespace(t.subrange(11, 12)), 12int),
        token_at(t, 12) == (KindV::Str(url), 14 + url.len() as int),
        t.len() == 14 + url.len(),
{
    reveal_strlit("EXTERNPROTO \"");
    let n = url.len() as int;
    assert(t.subrange(13, 13 + n) =~= url);
    assert(t[13 + n] == '"');
    lemma_url_chars(t, url, 0);

        assert(t[0] == 'E');
        assert(t[1] == 'X');
        assert(t[2] == 'T');
        assert(t[3] == 'E');
        assert(t[4] == 'R');
        assert(t[5] == 'N');
        assert(t[6] == 'P');
        assert(t[7] == 'R');
        assert(t[8] == 'O');
        assert(t[9] == 'T');
        assert(t[10] == 'O');
        assert(t[11] == ' ');
        assert(t[12] == '"');
        assert(ident_end(t, 11) == 11);
        assert(ident_end(t, 10) == 11);
        assert(ident_end(t, 9) == 11);
        assert(ident_end(t, 8) == 11);
        assert(ident_end(t, 7) == 11);
        assert(ident_end(t, 6) == 11);
        assert(ident_end(t, 5) == 11);
        assert(ident_end(t, 4) == 11);
        assert(ident_end(t, 3) == 11);
        assert(ident_end(t, 2) == 11);
        assert(ident_end(t, 1) == 11);
        assert(ident_end(t, 0) == 11);
        assert(ws_run_end(t, 12) == 12);
        assert(ws_run_end(t, 11) == 12);

    assert(t.subrange(0, 11) =~= seq!['E', 'X', 'T', 'E', 'R', 'N', 'P', 'R', 'O', 'T', 'O']);
}

/// What a declaration's text reads back as.
pub open spec fn reads_back_as(t: Seq<char>, url: Seq<char>, importable: bool) -> bool {
    document_of(t) matches Ok(d) && d.header is None && d.externprotos.len() == 1
        && d.externprotos[0].url == url && d.externprotos[0].importable == importable
        && d.externprotos[0].alias is None && d.proto is None && d.root_nodes.len() == 0
}

#[verifier::rlimit(40)]
proof fn lemma_importable_document(t: Seq<char>, url: Seq<char>)
    requires
        t == "IMPORTABLE "@ + "EXTERNPROTO \""@ + url + seq!['"'],
        quotable(url),
    ensures
        reads_back_as(t, url, true),
{
    lemma_importable_tokens(t, url);
    let end = t.len() as int;
    let eof = (KindV::Eof, span_between(t, end, end));
    assert(lex_from(t, end) == seq![eof]);
    lemma_significant_prepend(eof, Seq::empty());
    assert(seq![eof] + Seq::<(KindV, Span)>::empty() =~= seq![eof]);
    let a0 = (KindV::Identifier("IMPORTABLE"@), span_between(t, 0, 10));
    let a1 = (KindV::Whitespace(t.subrange(10, 11)), span_between(t, 10, 11));
    let a2 = (KindV::ExternProto, span_between(t, 11, 22));
    let a3 = (KindV::Whitespace(t.subrange(22, 23)), span_between(t, 22, 23));
    let a4 = (KindV::Str(url), span_between(t, 23, end));
    lemma_lex_step(t, 23);
    lemma_lex_step(t, 22);
    lemma_lex_step(t, 11);
    lemma_lex_step(t, 10);
    lemma_lex_step(t, 0);
    lemma_significant_prepend(a4, seq![eof]);
    lemma_significant_prepend(a3, seq![a4] + seq![eof]);
    lemma_significant_prepend(a2, seq![a3] + (seq![a4] + seq![eof]));
    lemma_significant_prepend(a1, seq![a2] + (seq![a3] + (seq![a4] + seq![eof])));
    lemma_significant_prepend(a0, seq![a1] + (seq![a2] + (seq![a3] + (seq![a4] + seq![eof]))));
    let ts = significant(lex(t));
    assert(ts =~= seq![a0, a2, a4, eof]);
    lemma_read_importable(ts, url);
    reveal_strlit("IMPORTABLE ");
    assert(t[0] == 'I');
    lemma_no_header(t);
}

#[verifier::rlimit(40)]
proof fn lemma_plain_extern_document(t: Seq<char>, url: Seq<char>)
    requires
        t == "EXTERNPROTO \""@ + url + seq!['"'],
        quotable(url),
    ensures
        reads_back_as(t, url, false),
{
    lemma_plain_extern_tokens(t, url);
    let end = t.len() as int;
    let eof = (KindV::Eof, span_between(t, end, end));
    assert(lex_from(t, end) == seq![eof]);
    lemma_significant_prepend(eof, Seq::empty());
    assert(seq![eof] + Seq::<(KindV, Span)>::empty() =~= seq![eof]);
    let a0 = (KindV::ExternProto, span_between(t, 0, 11));
    let a1 = (KindV::Whitespace(t.subrange(11, 12)), span_between(t, 11, 12));
    let a2 = (KindV::Str(url), span_between(t, 12, end));
    lemma_lex_step(t, 12);
    lemma_lex_step(t, 11);
    lemma_lex_step(t, 0);
    lemma_significant_prepend(a2, seq![eof]);
    lemma_significant_prepend(a1, seq![a2] + seq![eof]);
    lemma_significant_prepend(a0, seq![a1] + (seq![a2] + seq![eof]));
    let ts = significant(lex(t));
    assert(ts =~= seq![a0, a2, eof]);
    lemma_read_plain_extern(ts, url);
    reveal_strlit("EXTERNPROTO \"");
    assert(t[0] == 'E');
    lemma_no_header(t);
}

/// EXTERNPROTO round trip: the canonical text of a document that holds one
/// declaration without an alias, whose URL can be written between quotes as it is,
/// reads back as that declaration, with the same URL and the same `IMPORTABLE` flag,
/// and nothing else.
pub proof fn lemma_extern_round_trip(e: ExternProtoV)
    requires
        e.alias is None,
        quotable(e.url),
    ensures
        reads_back_as(document_text(extern_only(e)), e.url, e.importable),
{
    let t = document_text(extern_only(e));
    assert(externs_text(seq![e], false) =~= extern_text(e)) by {
        assert(seq![e].drop_last() =~= Seq::<ExternProtoV>::empty());
    }
    if e.importable {
        assert(t =~= "IMPORTABLE "@ + "EXTERNPROTO \""@ + e.url + seq!['"']);
        lemma_importable_document(t, e.url);
    } else {
        assert(t =~= "EXTERNPROTO \""@ + e.url + seq!['"']);
        lemma_plain_extern_document(t, e.url);
    }
}

/// Reading the tokens `IMPORTABLE EXTERNPROTO "url"` and the end.
proof fn lemma_read_importable(ts: Seq<(KindV, Span)>, url: Seq<char>)
    requires
        ts.len() == 4,
        ts[0].0 == KindV::Identifier("IMPORTABLE"@),
        ts[1].0 == KindV::ExternProto,
        ts[2].0 == KindV::Str(url),
        ts[3].0 == KindV::Eof,
    ensures
        read_document(ts) == Ok::<(Seq<ExternProtoV>, Option<crate::ast::ProtoDefV>, Seq<NodeV>), ErrV>(
            (seq![ExternProtoV { url, alias: None, importable: true, span: span_from(ts, ts[0].1, 3) }], None, Seq::empty()),
        ),
{
    let x = ExternProtoV { url, alias: None, importable: true, span: span_from(ts, ts[0].1, 3) };
    assert(read_extern_proto(ts, 0) == Ok::<(ExternProtoV, int), ErrV>((x, 3)));
    assert(read_externs(ts, 3, seq![x]) == Ok::<(Seq<ExternProtoV>, int), ErrV>((seq![x], 3)));
    assert(read_externs(ts, 0, Seq::empty()) == Ok::<(Seq<ExternProtoV>, int), ErrV>((seq![x], 3)));
    assert(read_roots(ts, 3, Seq::empty()) == Ok::<(Seq<NodeV>, int), ErrV>((Seq::empty(), 3)));
}

/// Reading the tokens `EXTERNPROTO "url"` and the end.
proof fn lemma_read_plain_extern(ts: Seq<(KindV, Span)>, url: Seq<char>)
    requires
        ts.len() == 3,
        ts[0].0 == KindV::ExternProto,
        ts[1].0 == KindV::Str(url),
        ts[2].0 == KindV::Eof,
    ensures
        read_document(ts) == Ok::<(Seq<ExternProtoV>, Option<crate::ast::ProtoDefV>, Seq<NodeV>), ErrV>(
            (seq![ExternProtoV { url, alias: None, importable: false, span: span_from(ts, ts[0].1, 2) }], None, Seq::empty()),
        ),
{
    let x = ExternProtoV { url, alias: None, importable: false, span: span_from(ts, ts[0].1, 2) };
    assert(read_extern_proto(ts, 0) == Ok::<(ExternProtoV, int), ErrV>((x, 2)));
    assert(read_externs(ts, 2, seq![x]) == Ok::<(Seq<ExternProtoV>, int), ErrV>((seq![x], 2)));
    assert(read_externs(ts, 0, Seq::empty()) == Ok::<(Seq<ExternProtoV>, int), ErrV>((seq![x], 2)));
    assert(read_roots(ts, 2, Seq::empty()) == Ok::<(Seq<NodeV>, int), ErrV>((Seq::empty(), 2)));
}

} // verus!
