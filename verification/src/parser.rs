//! The recursive-descent parser of PROTO documents.
//!
//! Each reading function agrees with its counterpart in [`crate::parser_spec`]: it
//! returns the value that the grammar gives at that position, and the position after
//! it, or the syntax error that the grammar gives.
use crate::ast::{array_view, body_view, element_view, elements_view, externs_view, nodes_view, numbers_view, proto_fields_view, value_view, values_view, ArrayElement, ArrayValue, AstNode, AstNodeKind, BodyItemV, ExternProto, ExternProtoV, FieldKeyword, FieldType, NodeV, ProtoBodyItem, ProtoDefinition, ProtoField, ProtoFieldV, Proto, ProtoV, ElementV, FieldValue, Header, NodeBodyElement, NodeField, NumberSequence, NumberSequenceElement, RawSyntax, Span, TemplateBlock, ValueV};
use crate::error::{is_syntax_error, Error};
use crate::header::{header_of, parse_header};
use crate::lexer::{lemma_lex_len, lemma_lex_partition, lex, tokenize, tokens_view, KindV, Token, TokenKind};
use crate::parser_spec::{err_at, field_type_of, is_extern_start, is_field_start, is_importable_start, is_number, is_trivia, kind_debug, lemma_significant_len, number_run, number_value, read_array, read_body, read_document_from, read_expect, read_extern_proto, read_externs, read_identifier, read_interface, read_node, read_proto_body, read_proto_definition, read_proto_field, read_restrictions, read_roots, read_template, read_value, significant, span_from, token_text, well_ended, NumberMode, Read, Toks};
use vstd::prelude::*;

verus! {

/// `Debug` of a token kind, through `format!("{:?}")`; the text depends on the kind
/// and its payload alone.
#[verifier::external_body]
fn debug_kind(k: &TokenKind) -> (r: String)
    ensures
        r@ == kind_debug(k@),
{
    format!("{:?}", k)
}

/// True when `r` is what the grammar `s` reads: the same value (by its model) and
/// position, or the same syntax error.
pub open spec fn agrees<X: View>(r: Result<(X, usize), Error>, s: Read<X::V>) -> bool {
    match (r, s) {
        (Ok((x, j)), Ok((sx, sj))) => x@ == sx && j == sj,
        (Err(e), Err(se)) => is_syntax_error(e, se),
        _ => false,
    }
}

/// True when a successful read ends after position `i` and before the end-of-input
/// token at `n - 1`.
pub open spec fn advanced<X>(r: Result<(X, usize), Error>, i: int, n: int) -> bool {
    r matches Ok((_, j)) ==> i < j < n
}

/// Reads a document from its significant tokens.
pub struct Parser {
    input: String,
    toks: Vec<Token>,
    header: Option<Header>,
    pos: usize,
}

proof fn lemma_significant_ends(ts: Toks)
    requires
        ts.len() >= 1,
        ts.last().0 is Eof,
        forall|i: int| 0 <= i < ts.len() - 1 ==> !((#[trigger] ts[i]).0 is Eof),
    ensures
        well_ended(significant(ts)),
{
    let s = significant(ts.drop_last());
    lemma_significant_no_eof(ts.drop_last());
    assert(significant(ts) == s.push(ts.last()));
    assert forall|i: int| 0 <= i < significant(ts).len() - 1 implies !((#[trigger] significant(ts)[i]).0 is Eof) by {
        assert(significant(ts)[i] == s[i]);
    }
}

proof fn lemma_significant_no_eof(ts: Toks)
    requires
        forall|i: int| 0 <= i < ts.len() ==> !((#[trigger] ts[i]).0 is Eof),
    ensures
        forall|i: int| 0 <= i < significant(ts).len() ==> !((#[trigger] significant(ts)[i]).0 is Eof),
    decreases ts.len(),
{
    if ts.len() > 0 {
        assert forall|i: int| 0 <= i < ts.drop_last().len() implies !((#[trigger] ts.drop_last()[i]).0 is Eof) by {
            assert(ts.drop_last()[i] == ts[i]);
        }
        lemma_significant_no_eof(ts.drop_last());
        let s = significant(ts.drop_last());
        if !is_trivia(ts.last().0) {
            assert forall|i: int| 0 <= i < s.push(ts.last()).len() implies !((#[trigger] s.push(ts.last())[i]).0 is Eof) by {
                if i < s.len() {
                    assert(s.push(ts.last())[i] == s[i]);
                }
            }
        }
    }
}

/// A token other than the end-of-input token is not the last one.
proof fn lemma_not_last(t: Toks, i: int)
    requires
        well_ended(t),
        0 <= i < t.len(),
        !(t[i].0 is Eof),
    ensures
        i + 1 < t.len(),
{
}

fn lit(s: &str) -> (r: String)
    ensures
        r@ == s@,
{
    String::from_str(s)
}

fn is_trivia_kind(k: &TokenKind) -> (r: bool)
    ensures
        r == is_trivia(k@),
{
    match k {
        TokenKind::Whitespace(_) | TokenKind::Comment(_) | TokenKind::Newline(_) | TokenKind::Comma => true,
        _ => false,
    }
}

fn clone_kind(k: &TokenKind) -> (r: TokenKind)
    ensures
        r@ == k@,
{
    match k {
        TokenKind::Identifier(v) => TokenKind::Identifier(v.clone()),
        TokenKind::Def => TokenKind::Def,
        TokenKind::Use => TokenKind::Use,
        TokenKind::Proto => TokenKind::Proto,
        TokenKind::ExternProto => TokenKind::ExternProto,
        TokenKind::Field => TokenKind::Field,
        TokenKind::VrmlField => TokenKind::VrmlField,
        TokenKind::HiddenField => TokenKind::HiddenField,
        TokenKind::DeprecatedField => TokenKind::DeprecatedField,
        TokenKind::Is => TokenKind::Is,
        TokenKind::Null => TokenKind::Null,
        TokenKind::True => TokenKind::True,
        TokenKind::False => TokenKind::False,
        TokenKind::Float(v) => TokenKind::Float(v.clone()),
        TokenKind::Int(n, v) => TokenKind::Int(*n, v.clone()),
        TokenKind::Str(v) => TokenKind::Str(v.clone()),
        TokenKind::OpenBrace => TokenKind::OpenBrace,
        TokenKind::CloseBrace => TokenKind::CloseBrace,
        TokenKind::OpenBracket => TokenKind::OpenBracket,
        TokenKind::CloseBracket => TokenKind::CloseBracket,
        TokenKind::Comma => TokenKind::Comma,
        TokenKind::Whitespace(v) => TokenKind::Whitespace(v.clone()),
        TokenKind::Comment(v) => TokenKind::Comment(v.clone()),
        TokenKind::Newline(v) => TokenKind::Newline(v.clone()),
        TokenKind::Template { content, is_expression, terminated } => TokenKind::Template {
            content: content.clone(),
            is_expression: *is_expression,
            terminated: *terminated,
        },
        TokenKind::Eof => TokenKind::Eof,
        TokenKind::Unknown(c) => TokenKind::Unknown(*c),
    }
}

/// The tokens of `ts` that are not trivia.
fn keep_significant(ts: &Vec<Token>) -> (r: Vec<Token>)
    ensures
        tokens_view(r@) == significant(tokens_view(ts@)),
{
    let ghost all = tokens_view(ts@);
    let mut out: Vec<Token> = Vec::new();
    let mut i: usize = 0;
    proof {
        assert(all.take(0) =~= Seq::<(KindV, Span)>::empty());
        assert(tokens_view(out@) =~= Seq::<(KindV, Span)>::empty());
    }
    while i < ts.len()
        invariant
            all == tokens_view(ts@),
            i <= ts@.len(),
            tokens_view(out@) == significant(all.take(i as int)),
        decreases ts@.len() - i,
    {
        proof {
            assert(all.take(i + 1).drop_last() =~= all.take(i as int));
            assert(all.take(i + 1).last() == all[i as int]);
        }
        if !is_trivia_kind(&ts[i].kind) {
            let ghost before = out@;
            out.push(Token { kind: clone_kind(&ts[i].kind), span: ts[i].span });
            proof {
                assert(tokens_view(out@) =~= tokens_view(before).push(all[i as int]));
            }
        }
        i = i + 1;
    }
    proof {
        assert(all.take(ts@.len() as int) =~= all);
    }
    out
}

impl Parser {
    /// The tokens the parser reads.
    pub closed spec fn tokens(&self) -> Toks {
        tokens_view(self.toks@)
    }

    /// The text being parsed.
    pub closed spec fn source(&self) -> Seq<char> {
        self.input@
    }

    /// The header found in the text, not yet handed out.
    pub closed spec fn pending_header(&self) -> Option<Header> {
        self.header
    }

    /// The index, among the significant tokens, of the token the parser stands at.
    pub closed spec fn position(&self) -> int {
        self.pos as int
    }

    pub closed spec fn wf(&self) -> bool {
        &&& well_ended(self.tokens())
        &&& self.tokens() == significant(lex(self.input@))
        &&& self.toks@.len() < usize::MAX
        &&& self.pos < self.toks@.len()
    }

    /// Creates a parser for `input`: tokenizes it and reads its header.
    pub fn new(input: &str) -> (r: Parser)
        requires
            vstd::utf8::encode_utf8(input@).len() <= isize::MAX,
        ensures
            r.wf(),
            r.source() == input@,
            r.tokens() == significant(lex(input@)),
            r.pending_header() matches Some(h) ==> header_of(input@) == Some(h@),
            r.pending_header() is None ==> header_of(input@) is None,
            r.position() == 0,
    {
        let all = tokenize(input);
        proof {
            lemma_lex_partition(input@);
            lemma_significant_ends(lex(input@));
        }
        let toks = keep_significant(&all);
        proof {
            lemma_significant_len(lex(input@));
            lemma_lex_len(input@);
        }
        let header = parse_header(input);
        Parser { input: String::from_str(input), toks, header, pos: 0 }
    }

    fn error_at(&self, i: usize, message: String) -> (e: Error)
        requires
            i < self.toks@.len(),
        ensures
            is_syntax_error(e, err_at(self.tokens(), i as int, message@)),
    {
        Error::Syntax { line: self.toks[i].span.start_line, col: self.toks[i].span.start_col, message }
    }

    fn span_from(&self, start: Span, i: usize) -> (r: Span)
        requires
            i <= self.toks@.len(),
        ensures
            r == span_from(self.tokens(), start, i as int),
    {
        let prev = if i > 0 {
            self.toks[i - 1].span
        } else {
            Span::zero()
        };
        Span::new(start.start, prev.end, start.start_line, start.start_col, prev.end_line, prev.end_col)
    }

    fn parse_identifier(&self, i: usize) -> (r: Result<(String, usize), Error>)
        requires
            self.wf(),
            i < self.toks@.len(),
        ensures
            agrees(r, read_identifier(self.tokens(), i as int)),
            advanced(r, i as int, self.toks@.len() as int),
    {
        match &self.toks[i].kind {
            TokenKind::Identifier(v) => Ok((v.clone(), i + 1)),
            k => {
                let mut m = lit("Expected Identifier, got ");
                m.append(debug_kind(k).as_str());
                Err(self.error_at(i, m))
            },
        }
    }

    fn expect(&self, i: usize, expected: TokenKind) -> (r: Result<((), usize), Error>)
        requires
            self.wf(),
            i < self.toks@.len(),
            expected is ExternProto || expected is Proto || expected is OpenBracket || expected is CloseBracket
                || expected is OpenBrace || expected is CloseBrace,
        ensures
            agrees(r, read_expect(self.tokens(), i as int, expected@)),
            advanced(r, i as int, self.toks@.len() as int),
    {
        let k = &self.toks[i].kind;
        let ok = match (k, &expected) {
            (TokenKind::ExternProto, TokenKind::ExternProto) => true,
            (TokenKind::Proto, TokenKind::Proto) => true,
            (TokenKind::OpenBracket, TokenKind::OpenBracket) => true,
            (TokenKind::CloseBracket, TokenKind::CloseBracket) => true,
            (TokenKind::OpenBrace, TokenKind::OpenBrace) => true,
            (TokenKind::CloseBrace, TokenKind::CloseBrace) => true,
            _ => false,
        };
        if ok {
            Ok(((), i + 1))
        } else {
            let mut m = lit("Expected ");
            m.append(debug_kind(&expected).as_str());
            m.append(", got ");
            m.append(debug_kind(k).as_str());
            proof {
                assert(m@ =~= "Expected "@ + kind_debug(expected@) + ", got "@ + kind_debug(k@));
            }
            Err(self.error_at(i, m))
        }
    }

    fn parse_template_block(&self, i: usize, context: &str) -> (r: Result<(TemplateBlock, usize), Error>)
        requires
            self.wf(),
            i < self.toks@.len(),
            self.tokens()[i as int].0 is Template,
        ensures
            agrees(r, read_template(self.tokens(), i as int, context@)),
            advanced(r, i as int, self.toks@.len() as int),
    {
        let tok = &self.toks[i];
        match &tok.kind {
            TokenKind::Template { content, is_expression, terminated } => {
                if !*terminated {
                    let mut m = lit("Unterminated template block in ");
                    m.append(context);
                    return Err(self.error_at(i + 1, m));
                }
                Ok((TemplateBlock { content: content.clone(), is_expression: *is_expression, span: tok.span }, i + 1))
            },
            _ => Err(self.error_at(i + 1, lit("Expected template token after template start"))),
        }
    }

    fn number_value(&self, i: usize) -> (v: FieldValue)
        requires
            self.wf(),
            i < self.toks@.len(),
            is_number(self.tokens()[i as int].0),
        ensures
            v@ == number_value(self.tokens()[i as int].0),
    {
        match &self.toks[i].kind {
            TokenKind::Int(v, raw) => FieldValue::Int(*v, Some(raw.clone())),
            TokenKind::Float(raw) => FieldValue::Float(raw.clone(), Some(raw.clone())),
            k => FieldValue::Raw(debug_kind(k)),
        }
    }

    fn is_number_at(&self, i: usize) -> (r: bool)
        requires
            i < self.toks@.len(),
        ensures
            r == is_number(self.tokens()[i as int].0),
    {
        match &self.toks[i].kind {
            TokenKind::Int(_, _) | TokenKind::Float(_) => true,
            _ => false,
        }
    }

    fn parse_number_sequence(&self, i: usize) -> (r: (FieldValue, usize))
        requires
            self.wf(),
            i < self.toks@.len(),
            is_number(self.tokens()[i as int].0),
        ensures
            r.0@ == ValueV::NumberSequence(
                seq![number_value(self.tokens()[i as int].0)] + number_run(self.tokens(), i + 1).0,
            ),
            r.1 == number_run(self.tokens(), i + 1).1,
            i < r.1 < self.toks@.len(),
    {
        let ghost t = self.tokens();
        let mut elements: Vec<NumberSequenceElement> = Vec::new();
        elements.push(NumberSequenceElement { value: self.number_value(i) });
        let mut j = i + 1;
        proof {
            assert(numbers_view(elements@) =~= seq![number_value(t[i as int].0)]) by {
                let e0 = elements@;
                assert(e0.drop_last() =~= Seq::<NumberSequenceElement>::empty());
                assert(numbers_view(Seq::<NumberSequenceElement>::empty()) =~= Seq::<ValueV>::empty());
                assert(numbers_view(e0) == numbers_view(e0.drop_last()).push(value_view(e0.last().value)));
            }
            assert(numbers_view(elements@) + number_run(t, j as int).0 =~= seq![number_value(t[i as int].0)] + number_run(t, i + 1).0);
        }
        while j < self.toks.len() && self.is_number_at(j)
            invariant
                self.wf(),
                t == self.tokens(),
                i < j < self.toks@.len(),
                numbers_view(elements@) + number_run(t, j as int).0 == seq![number_value(t[i as int].0)] + number_run(t, i + 1).0,
                number_run(t, j as int).1 == number_run(t, i + 1).1,
            decreases self.toks@.len() - j,
        {
            let ghost before = elements@;
            let v = self.number_value(j);
            elements.push(NumberSequenceElement { value: v });
            proof {
                assert(elements@.drop_last() =~= before);
                assert(numbers_view(elements@) =~= numbers_view(before).push(number_value(t[j as int].0)));
                assert(numbers_view(elements@) + number_run(t, j + 1).0 =~= numbers_view(before) + number_run(t, j as int).0);
            }
            j = j + 1;
        }
        proof {
            assert(number_run(t, j as int).0 =~= Seq::<ValueV>::empty());
            assert(numbers_view(elements@) + number_run(t, j as int).0 =~= numbers_view(elements@));
        }
        (FieldValue::NumberSequence(NumberSequence { elements }), j)
    }

    fn parse_field_value(&self, i: usize, mode: NumberMode, context: &str) -> (r: Result<(FieldValue, usize), Error>)
        requires
            self.wf(),
            i < self.toks@.len(),
        ensures
            agrees(r, read_value(self.tokens(), i as int, mode, context@)),
            advanced(r, i as int, self.toks@.len() as int),
        decreases self.toks@.len() - i, 2int,
    {
        let ghost t = self.tokens();
        let k = &self.toks[i].kind;
        if let TokenKind::Eof = k {
            let mut m = lit("Unexpected token in ");
            m.append(context);
            m.append(": ");
            m.append(debug_kind(k).as_str());
            proof {
                assert(m@ =~= "Unexpected token in "@ + context@ + ": "@ + kind_debug(t[i as int].0));
            }
            return Err(self.error_at(i, m));
        }
        proof {
            lemma_not_last(t, i as int);
        }
        if self.is_number_at(i) {
            return match mode {
                NumberMode::Sequence => Ok(self.parse_number_sequence(i)),
                NumberMode::Single => Ok((self.number_value(i), i + 1)),
            };
        }
        match k {
            TokenKind::True => Ok((FieldValue::Bool(true), i + 1)),
            TokenKind::False => Ok((FieldValue::Bool(false), i + 1)),
            TokenKind::Str(v) => Ok((FieldValue::String(v.clone()), i + 1)),
            TokenKind::Null => Ok((FieldValue::Null, i + 1)),
            TokenKind::Is => {
                let (name, j) = self.parse_identifier(i + 1)?;
                Ok((FieldValue::Is(name), j))
            },
            TokenKind::OpenBracket => {
                let (elements, j) = self.parse_array_value(i + 1)?;
                Ok((FieldValue::Array(ArrayValue { elements }), j))
            },
            TokenKind::Identifier(_) | TokenKind::Def | TokenKind::Use => {
                let (node, j) = self.parse_node(i)?;
                Ok((FieldValue::Node(Box::new(node)), j))
            },
            TokenKind::Template { .. } => {
                let (tb, j) = self.parse_template_block(i, context)?;
                Ok((FieldValue::Template(tb), j))
            },
            _ => {
                let mut m = lit("Unexpected token in ");
                m.append(context);
                m.append(": ");
                m.append(debug_kind(k).as_str());
                proof {
                    assert(m@ =~= "Unexpected token in "@ + context@ + ": "@ + kind_debug(t[i as int].0));
                }
                Err(self.error_at(i, m))
            },
        }
    }

    /// Reads array elements from `i` (after `[`) through the closing `]`.
    fn parse_array_value(&self, i: usize) -> (r: Result<(Vec<ArrayElement>, usize), Error>)
        requires
            self.wf(),
            i < self.toks@.len(),
        ensures
            match (r, read_array(self.tokens(), i as int, Seq::empty())) {
                (Ok((v, j)), Ok((sv, sj))) => array_view(v@) == sv && j == sj,
                (Err(e), Err(se)) => is_syntax_error(e, se),
                _ => false,
            },
            advanced(r, i as int, self.toks@.len() as int),
        decreases self.toks@.len() - i, 3int,
    {
        let ghost t = self.tokens();
        let mut elements: Vec<ArrayElement> = Vec::new();
        let mut j = i;
        proof {
            assert(array_view(elements@) =~= Seq::<ValueV>::empty());
        }
        loop
            invariant
                self.wf(),
                t == self.tokens(),
                i <= j < self.toks@.len(),
                read_array(t, i as int, Seq::empty()) == read_array(t, j as int, array_view(elements@)),
            decreases self.toks@.len() - j,
        {
            match &self.toks[j].kind {
                TokenKind::CloseBracket | TokenKind::Eof => {
                    let (_, k) = self.expect(j, TokenKind::CloseBracket)?;
                    return Ok((elements, k));
                },
                _ => {},
            }
            let (v, k) = self.parse_field_value(j, NumberMode::Single, "array value")?;
            let ghost before = elements@;
            elements.push(ArrayElement { value: v });
            proof {
                assert(elements@.drop_last() =~= before);
                assert(array_view(elements@) =~= array_view(before).push(v@));
            }
            j = k;
        }
    }

    fn is_field_start(&self, i: usize) -> (r: bool)
        requires
            self.wf(),
            i < self.toks@.len() - 1,
        ensures
            r == is_field_start(self.tokens(), i as int),
    {
        match &self.toks[i].kind {
            TokenKind::Identifier(_) => match &self.toks[i + 1].kind {
                TokenKind::OpenBrace => false,
                _ => true,
            },
            _ => false,
        }
    }

    fn raw_of(&self, i: usize) -> (r: RawSyntax)
        requires
            self.wf(),
            i < self.toks@.len(),
        ensures
            r.text@ == token_text(self.tokens()[i as int].0),
            r.span == self.tokens()[i as int].1,
    {
        RawSyntax { text: token_text_of(&self.toks[i].kind), span: self.toks[i].span }
    }

    /// Reads a node at `i`.
    fn parse_node(&self, i: usize) -> (r: Result<(AstNode, usize), Error>)
        requires
            self.wf(),
            i + 1 < self.toks@.len(),
        ensures
            agrees(r, read_node(self.tokens(), i as int)),
            advanced(r, i as int, self.toks@.len() as int),
        decreases self.toks@.len() - i, 1int,
    {
        let ghost t = self.tokens();
        let start = self.toks[i].span;
        let mut j = i;
        let mut def_name: Option<String> = None;
        if let TokenKind::Def = &self.toks[i].kind {
            let (name, k) = self.parse_identifier(i + 1)?;
            def_name = Some(name);
            j = k;
        }
        let is_use = match &self.toks[j].kind {
            TokenKind::Use => true,
            _ => false,
        };
        if def_name.is_some() && is_use {
            return Err(self.error_at(j, lit("DEF cannot be followed by USE")));
        }
        if is_use {
            let (use_name, k) = self.parse_identifier(j + 1)?;
            return Ok((AstNode { kind: AstNodeKind::Use { use_name }, span: self.span_from(start, k) }, k));
        }
        let (node_type, k) = self.parse_identifier(j)?;
        let (_, m) = self.expect(k, TokenKind::OpenBrace)?;
        let (fields, n) = self.parse_node_body(m)?;
        let (_, q) = self.expect(n, TokenKind::CloseBrace)?;
        let node = AstNode { kind: AstNodeKind::Node { node_type, def_name, fields }, span: self.span_from(start, q) };
        Ok((node, q))
    }

    /// Reads node body elements from `i` up to the closing brace or the end of input.
    fn parse_node_body(&self, i: usize) -> (r: Result<(Vec<NodeBodyElement>, usize), Error>)
        requires
            self.wf(),
            i < self.toks@.len(),
        ensures
            match (r, read_body(self.tokens(), i as int, Seq::empty())) {
                (Ok((v, j)), Ok((sv, sj))) => elements_view(v@) == sv && j == sj,
                (Err(e), Err(se)) => is_syntax_error(e, se),
                _ => false,
            },
            r matches Ok((_, j)) ==> i <= j < self.toks@.len(),
        decreases self.toks@.len() - i, 0int,
    {
        let ghost t = self.tokens();
        let mut fields: Vec<NodeBodyElement> = Vec::new();
        let mut j = i;
        proof {
            assert(elements_view(fields@) =~= Seq::<ElementV>::empty());
        }
        loop
            invariant
                self.wf(),
                t == self.tokens(),
                i <= j < self.toks@.len(),
                read_body(t, i as int, Seq::empty()) == read_body(t, j as int, elements_view(fields@)),
            decreases self.toks@.len() - j,
        {
            let ghost before = fields@;
            match &self.toks[j].kind {
                TokenKind::CloseBrace | TokenKind::Eof => {
                    return Ok((fields, j));
                },
                _ => {},
            }
            proof {
                lemma_not_last(t, j as int);
            }
            let is_template = match &self.toks[j].kind {
                TokenKind::Template { .. } => true,
                _ => false,
            };
            let is_def = match &self.toks[j].kind {
                TokenKind::Def => true,
                _ => false,
            };
            if is_template {
                let (tb, k) = self.parse_template_block(j, "node body")?;
                fields.push(NodeBodyElement::Template(tb));
                proof {
                    assert(fields@.drop_last() =~= before);
                    assert(elements_view(fields@) == elements_view(before).push(ElementV::Template(tb@)));
                }
                j = k;
            } else if is_def {
                let raw1 = self.raw_of(j);
                let ghost e1 = ElementV::Raw { text: raw1.text@, span: raw1.span };
                fields.push(NodeBodyElement::Raw(raw1));
                proof {
                    assert(fields@.drop_last() =~= before);
                    assert(elements_view(fields@) == elements_view(before).push(e1));
                }
                let is_ident = match &self.toks[j + 1].kind {
                    TokenKind::Identifier(_) => true,
                    _ => false,
                };
                if is_ident {
                    proof {
                        lemma_not_last(t, j + 1);
                    }
                    let ghost mid = fields@;
                    let raw2 = self.raw_of(j + 1);
                    let ghost e2 = ElementV::Raw { text: raw2.text@, span: raw2.span };
                    fields.push(NodeBodyElement::Raw(raw2));
                    proof {
                        assert(fields@.drop_last() =~= mid);
                        assert(elements_view(mid) == elements_view(before).push(e1));
                        assert(elements_view(fields@) == elements_view(fields@.drop_last()).push(element_view(fields@.last())));
                        assert(element_view(fields@.last()) == e2);
                        assert(elements_view(fields@) == elements_view(before).push(e1).push(e2));
                    }
                    j = j + 2;
                } else {
                    j = j + 1;
                }
            } else if self.is_field_start(j) {
                let start = self.toks[j].span;
                let name = match &self.toks[j].kind {
                    TokenKind::Identifier(v) => v.clone(),
                    _ => lit(""),
                };
                let (value, k) = self.parse_field_value(j + 1, NumberMode::Sequence, "field value")?;
                let span = self.span_from(start, k);
                let ghost e = ElementV::Field { name: name@, value: value@, span };
                fields.push(NodeBodyElement::Field(NodeField { name, value, span }));
                proof {
                    assert(fields@.drop_last() =~= before);
                    assert(elements_view(fields@) == elements_view(before).push(e));
                }
                j = k;
            } else {
                let raw = self.raw_of(j);
                let ghost e = ElementV::Raw { text: raw.text@, span: raw.span };
                fields.push(NodeBodyElement::Raw(raw));
                proof {
                    assert(fields@.drop_last() =~= before);
                    assert(fields@.len() == before.len() + 1);
                    assert(elements_view(fields@) == elements_view(fields@.drop_last()).push(element_view(fields@.last())));
                    assert(element_view(fields@.last()) == e);
                    assert(elements_view(fields@) == elements_view(before).push(e));
                }
                j = j + 1;
            }
        }
    }
}

/// True when `a` holds the text `b`.
fn same_text(a: &String, b: &str) -> (r: bool)
    ensures
        r == (a@ == b@),
{
    let t = String::from_str(b);
    a.eq(&t)
}

/// The field type that a type name stands for.
fn field_type_from(name: &String) -> (r: FieldType)
    ensures
        r@ == field_type_of(name@),
{
    if same_text(name, "SFBool") {
        FieldType::SFBool
    } else if same_text(name, "SFInt32") {
        FieldType::SFInt32
    } else if same_text(name, "SFFloat") {
        FieldType::SFFloat
    } else if same_text(name, "SFString") {
        FieldType::SFString
    } else if same_text(name, "SFVec2f") {
        FieldType::SFVec2f
    } else if same_text(name, "SFVec3f") {
        FieldType::SFVec3f
    } else if same_text(name, "SFRotation") {
        FieldType::SFRotation
    } else if same_text(name, "SFColor") {
        FieldType::SFColor
    } else if same_text(name, "SFNode") {
        FieldType::SFNode
    } else if same_text(name, "MFBool") {
        FieldType::MFBool
    } else if same_text(name, "MFInt32") {
        FieldType::MFInt32
    } else if same_text(name, "MFFloat") {
        FieldType::MFFloat
    } else if same_text(name, "MFString") {
        FieldType::MFString
    } else if same_text(name, "MFVec2f") {
        FieldType::MFVec2f
    } else if same_text(name, "MFVec3f") {
        FieldType::MFVec3f
    } else if same_text(name, "MFRotation") {
        FieldType::MFRotation
    } else if same_text(name, "MFColor") {
        FieldType::MFColor
    } else if same_text(name, "MFNode") {
        FieldType::MFNode
    } else {
        FieldType::Unknown(name.clone())
    }
}

impl Parser {
    /// Reads restriction values from `i` (after `{`) up to the closing brace or the end
    /// of input.
    fn parse_restrictions(&self, i: usize) -> (r: Result<(Vec<FieldValue>, usize), Error>)
        requires
            self.wf(),
            i < self.toks@.len(),
        ensures
            match (r, read_restrictions(self.tokens(), i as int, Seq::empty())) {
                (Ok((v, j)), Ok((sv, sj))) => values_view(v@) == sv && j == sj,
                (Err(e), Err(se)) => is_syntax_error(e, se),
                _ => false,
            },
            r matches Ok((_, j)) ==> i <= j < self.toks@.len(),
    {
        let ghost t = self.tokens();
        let mut items: Vec<FieldValue> = Vec::new();
        let mut j = i;
        proof {
            assert(values_view(items@) =~= Seq::<ValueV>::empty());
        }
        loop
            invariant
                self.wf(),
                t == self.tokens(),
                i <= j < self.toks@.len(),
                read_restrictions(t, i as int, Seq::empty()) == read_restrictions(t, j as int, values_view(items@)),
            decreases self.toks@.len() - j,
        {
            match &self.toks[j].kind {
                TokenKind::CloseBrace | TokenKind::Eof => {
                    return Ok((items, j));
                },
                _ => {},
            }
            let (v, k) = self.parse_field_value(j, NumberMode::Sequence, "field value")?;
            let ghost before = items@;
            let ghost vv = v@;
            items.push(v);
            proof {
                assert(items@.drop_last() =~= before);
                assert(values_view(items@) == values_view(items@.drop_last()).push(value_view(items@.last())));
                assert(values_view(items@) == values_view(before).push(vv));
            }
            j = k;
        }
    }

    /// Reads an interface field declaration at `i`.
    fn parse_proto_field(&self, i: usize) -> (r: Result<(ProtoField, usize), Error>)
        requires
            self.wf(),
            i + 1 < self.toks@.len(),
        ensures
            agrees(r, read_proto_field(self.tokens(), i as int)),
            advanced(r, i as int, self.toks@.len() as int),
    {
        let ghost t = self.tokens();
        let start = self.toks[i].span;
        let keyword = match &self.toks[i].kind {
            TokenKind::Field => FieldKeyword::Field,
            TokenKind::VrmlField => FieldKeyword::VrmlField,
            TokenKind::HiddenField => FieldKeyword::HiddenField,
            TokenKind::DeprecatedField => FieldKeyword::DeprecatedField,
            k => {
                let mut m = lit("Expected field keyword, got ");
                m.append(debug_kind(k).as_str());
                return Err(self.error_at(i, m));
            },
        };
        let (ty_name, j) = self.parse_identifier(i + 1)?;
        let field_type = field_type_from(&ty_name);
        let is_brace = match &self.toks[j].kind {
            TokenKind::OpenBrace => true,
            _ => false,
        };
        let mut restrictions: Option<Vec<FieldValue>> = None;
        let mut k = j;
        if is_brace {
            proof {
                lemma_not_last(t, j as int);
            }
            let (items, m) = self.parse_restrictions(j + 1)?;
            let (_, n) = self.expect(m, TokenKind::CloseBrace)?;
            restrictions = Some(items);
            k = n;
        }
        let (name, m) = self.parse_identifier(k)?;
        let (value, n) = self.parse_field_value(m, NumberMode::Sequence, "field value")?;
        let span = self.span_from(start, n);
        let field = ProtoField { name, field_type, default_value: Some(value), keyword, restrictions, span };
        Ok((field, n))
    }

    /// Reads interface fields from `i` up to the closing bracket or the end of input.
    fn parse_interface(&self, i: usize) -> (r: Result<(Vec<ProtoField>, usize), Error>)
        requires
            self.wf(),
            i < self.toks@.len(),
        ensures
            match (r, read_interface(self.tokens(), i as int, Seq::empty())) {
                (Ok((v, j)), Ok((sv, sj))) => proto_fields_view(v@) == sv && j == sj,
                (Err(e), Err(se)) => is_syntax_error(e, se),
                _ => false,
            },
            r matches Ok((_, j)) ==> i <= j < self.toks@.len(),
    {
        let ghost t = self.tokens();
        let mut fields: Vec<ProtoField> = Vec::new();
        let mut j = i;
        proof {
            assert(proto_fields_view(fields@) =~= Seq::<ProtoFieldV>::empty());
        }
        loop
            invariant
                self.wf(),
                t == self.tokens(),
                i <= j < self.toks@.len(),
                read_interface(t, i as int, Seq::empty()) == read_interface(t, j as int, proto_fields_view(fields@)),
            decreases self.toks@.len() - j,
        {
            match &self.toks[j].kind {
                TokenKind::CloseBracket | TokenKind::Eof => {
                    return Ok((fields, j));
                },
                _ => {},
            }
            proof {
                lemma_not_last(t, j as int);
            }
            let (f, k) = self.parse_proto_field(j)?;
            let ghost before = fields@;
            let ghost fv = f@;
            fields.push(f);
            proof {
                assert(proto_fields_view(fields@) =~= proto_fields_view(before).push(fv));
            }
            j = k;
        }
    }

    /// Reads PROTO body items from `i` up to the closing brace or the end of input.
    fn parse_proto_body(&self, i: usize) -> (r: Result<(Vec<ProtoBodyItem>, usize), Error>)
        requires
            self.wf(),
            i < self.toks@.len(),
        ensures
            match (r, read_proto_body(self.tokens(), i as int, Seq::empty())) {
                (Ok((v, j)), Ok((sv, sj))) => body_view(v@) == sv && j == sj,
                (Err(e), Err(se)) => is_syntax_error(e, se),
                _ => false,
            },
            r matches Ok((_, j)) ==> i <= j < self.toks@.len(),
    {
        let ghost t = self.tokens();
        let mut items: Vec<ProtoBodyItem> = Vec::new();
        let mut j = i;
        proof {
            assert(body_view(items@) =~= Seq::<BodyItemV>::empty());
        }
        loop
            invariant
                self.wf(),
                t == self.tokens(),
                i <= j < self.toks@.len(),
                read_proto_body(t, i as int, Seq::empty()) == read_proto_body(t, j as int, body_view(items@)),
            decreases self.toks@.len() - j,
        {
            let is_template = match &self.toks[j].kind {
                TokenKind::CloseBrace | TokenKind::Eof => {
                    return Ok((items, j));
                },
                TokenKind::Template { .. } => true,
                _ => false,
            };
            proof {
                lemma_not_last(t, j as int);
            }
            let ghost before = items@;
            if is_template {
                let (tb, k) = self.parse_template_block(j, "PROTO body")?;
                let ghost tv = tb@;
                items.push(ProtoBodyItem::Template(tb));
                proof {
                    assert(body_view(items@) =~= body_view(before).push(BodyItemV::Template(tv)));
                }
                j = k;
            } else {
                let (n, k) = self.parse_node(j)?;
                let ghost nv = n@;
                items.push(ProtoBodyItem::Node(n));
                proof {
                    assert(body_view(items@) =~= body_view(before).push(BodyItemV::Node(nv)));
                }
                j = k;
            }
        }
    }

    /// Reads `PROTO name [ interface ] { body }` at `i`.
    fn parse_proto_definition(&self, i: usize) -> (r: Result<(ProtoDefinition, usize), Error>)
        requires
            self.wf(),
            i < self.toks@.len(),
        ensures
            agrees(r, read_proto_definition(self.tokens(), i as int)),
            advanced(r, i as int, self.toks@.len() as int),
    {
        let start = self.toks[i].span;
        let (_, a) = self.expect(i, TokenKind::Proto)?;
        let (name, b) = self.parse_identifier(a)?;
        let (_, c) = self.expect(b, TokenKind::OpenBracket)?;
        let (fields, d) = self.parse_interface(c)?;
        let (_, e) = self.expect(d, TokenKind::CloseBracket)?;
        let (_, f) = self.expect(e, TokenKind::OpenBrace)?;
        let (body, g) = self.parse_proto_body(f)?;
        let close = self.toks[g].span;
        let (_, h) = self.expect(g, TokenKind::CloseBrace)?;
        let span = Span::new(start.start, close.end, start.start_line, start.start_col, close.end_line, close.end_col);
        Ok((ProtoDefinition { name, fields, body, span }, h))
    }

    fn is_importable_at(&self, i: usize) -> (r: bool)
        requires
            self.wf(),
            i < self.toks@.len(),
        ensures
            r == is_importable_start(self.tokens(), i as int),
    {
        if i + 1 >= self.toks.len() {
            return false;
        }
        let next_is_extern = match &self.toks[i + 1].kind {
            TokenKind::ExternProto => true,
            _ => false,
        };
        match &self.toks[i].kind {
            TokenKind::Identifier(v) => {
                proof {
                    reveal_strlit("IMPORTABLE");
                }
                next_is_extern && same_text(v, "IMPORTABLE")
            },
            _ => false,
        }
    }

    /// Reads `[IMPORTABLE] EXTERNPROTO "url" [alias]` at `i`.
    fn parse_extern_proto(&self, i: usize) -> (r: Result<(ExternProto, usize), Error>)
        requires
            self.wf(),
            i + 1 < self.toks@.len(),
        ensures
            agrees(r, read_extern_proto(self.tokens(), i as int)),
            advanced(r, i as int, self.toks@.len() as int),
    {
        let ghost t = self.tokens();
        let start = self.toks[i].span;
        let importable = self.is_importable_at(i);
        let k = if importable {
            i + 1
        } else {
            i
        };
        let (_, j) = self.expect(k, TokenKind::ExternProto)?;
        let url = match &self.toks[j].kind {
            TokenKind::Str(v) => v.clone(),
            other => {
                let mut m = lit("Expected string for EXTERNPROTO url, got ");
                m.append(debug_kind(other).as_str());
                proof {
                    assert(m@ =~= "Expected string for EXTERNPROTO url, got "@ + kind_debug(t[j as int].0));
                }
                return Err(self.error_at(j, m));
            },
        };
        proof {
            lemma_not_last(t, j as int);
        }
        let url_line = self.toks[j].span.end_line;
        let alias: Option<String> = match &self.toks[j + 1].kind {
            TokenKind::Identifier(v) => if self.toks[j + 1].span.start_line == url_line {
                Some(v.clone())
            } else {
                None
            },
            _ => None,
        };
        let end = if alias.is_some() {
            proof {
                lemma_not_last(t, j + 1);
            }
            j + 2
        } else {
            j + 1
        };
        let span = self.span_from(start, end);
        Ok((ExternProto { url, alias, importable, span }, end))
    }

    fn is_extern_at(&self, i: usize) -> (r: bool)
        requires
            self.wf(),
            i < self.toks@.len(),
        ensures
            r == is_extern_start(self.tokens(), i as int),
    {
        match &self.toks[i].kind {
            TokenKind::ExternProto => true,
            _ => self.is_importable_at(i),
        }
    }

    /// Reads EXTERNPROTO declarations from `i` on.
    fn parse_externs(&self, i: usize) -> (r: Result<(Vec<ExternProto>, usize), Error>)
        requires
            self.wf(),
            i < self.toks@.len(),
        ensures
            match (r, read_externs(self.tokens(), i as int, Seq::empty())) {
                (Ok((v, j)), Ok((sv, sj))) => externs_view(v@) == sv && j == sj,
                (Err(e), Err(se)) => is_syntax_error(e, se),
                _ => false,
            },
            r matches Ok((_, j)) ==> i <= j < self.toks@.len(),
    {
        let ghost t = self.tokens();
        let mut items: Vec<ExternProto> = Vec::new();
        let mut j = i;
        proof {
            assert(externs_view(items@) =~= Seq::<ExternProtoV>::empty());
        }
        loop
            invariant
                self.wf(),
                t == self.tokens(),
                i <= j < self.toks@.len(),
                read_externs(t, i as int, Seq::empty()) == read_externs(t, j as int, externs_view(items@)),
            decreases self.toks@.len() - j,
        {
            if !self.is_extern_at(j) {
                return Ok((items, j));
            }
            proof {
                lemma_not_last(t, j as int);
            }
            let (e, k) = self.parse_extern_proto(j)?;
            let ghost before = items@;
            let ghost ev = e@;
            items.push(e);
            proof {
                assert(externs_view(items@) =~= externs_view(before).push(ev));
            }
            j = k;
        }
    }

    /// Reads root nodes from `i` to the end of input.
    fn parse_roots(&self, i: usize) -> (r: Result<(Vec<AstNode>, usize), Error>)
        requires
            self.wf(),
            i < self.toks@.len(),
        ensures
            match (r, read_roots(self.tokens(), i as int, Seq::empty())) {
                (Ok((v, j)), Ok((sv, sj))) => nodes_view(v@) == sv && j == sj,
                (Err(e), Err(se)) => is_syntax_error(e, se),
                _ => false,
            },
            r matches Ok((_, j)) ==> i <= j < self.toks@.len(),
    {
        let ghost t = self.tokens();
        let mut nodes: Vec<AstNode> = Vec::new();
        let mut j = i;
        proof {
            assert(nodes_view(nodes@) =~= Seq::<NodeV>::empty());
        }
        loop
            invariant
                self.wf(),
                t == self.tokens(),
                i <= j < self.toks@.len(),
                read_roots(t, i as int, Seq::empty()) == read_roots(t, j as int, nodes_view(nodes@)),
            decreases self.toks@.len() - j,
        {
            match &self.toks[j].kind {
                TokenKind::Eof => {
                    return Ok((nodes, j));
                },
                TokenKind::Proto => {
                    return Err(self.error_at(j, lit("Unexpected second PROTO definition")));
                },
                _ => {},
            }
            proof {
                lemma_not_last(t, j as int);
            }
            let (n, k) = self.parse_node(j)?;
            let ghost before = nodes@;
            let ghost nv = n@;
            nodes.push(n);
            proof {
                assert(nodes@.drop_last() =~= before);
                assert(nodes_view(nodes@) == nodes_view(nodes@.drop_last()).push(nodes@.last()@));
                assert(nodes_view(nodes@) == nodes_view(before).push(nv));
            }
            j = k;
        }
    }

    /// Parses the document from the parser's position on: its EXTERNPROTO
    /// declarations, its PROTO definition and its root nodes, up to the end of input.
    /// The header found by [`Parser::new`] is handed out with it (once), and the
    /// parsed text is kept as the document's source.
    pub fn parse_document(&mut self) -> (r: Result<Proto, Error>)
        requires
            old(self).wf(),
        ensures
            final(self).wf(),
            final(self).tokens() == old(self).tokens(),
            final(self).source() == old(self).source(),
            final(self).pending_header() is None,
            match (r, read_document_from(old(self).tokens(), old(self).position())) {
                (Ok(_), Ok((_, _, _, end))) => final(self).position() == end,
                _ => true,
            },
            match (r, read_document_from(old(self).tokens(), old(self).position())) {
                (Ok(doc), Ok((externs, proto, roots, _))) => doc@ == (ProtoV {
                    header: match old(self).pending_header() {
                        Some(h) => Some(h@),
                        None => None,
                    },
                    externprotos: externs,
                    proto,
                    root_nodes: roots,
                    source_path: None,
                    source_content: Some(old(self).source()),
                }),
                (Err(e), Err(se)) => is_syntax_error(e, se),
                _ => false,
            },
    {
        let header = self.header.take();
        let ghost t = self.tokens();
        let (externprotos, i) = self.parse_externs(self.pos)?;
        let is_proto = match &self.toks[i].kind {
            TokenKind::Proto => true,
            _ => false,
        };
        let mut proto: Option<ProtoDefinition> = None;
        let mut j = i;
        if is_proto {
            let (p, k) = self.parse_proto_definition(i)?;
            proto = Some(p);
            j = k;
        }
        let (root_nodes, end) = self.parse_roots(j)?;
        self.pos = end;
        let doc = Proto {
            header,
            externprotos,
            proto,
            root_nodes,
            source_path: None,
            source_content: Some(self.input.clone()),
        };
        Ok(doc)
    }

    /// Parses PROTO body items (nodes and template blocks) from the parser's position
    /// up to the closing brace or the end of input, and moves the parser there.
    pub fn parse_body(&mut self) -> (r: Result<Vec<ProtoBodyItem>, Error>)
        requires
            old(self).wf(),
        ensures
            final(self).wf(),
            final(self).tokens() == old(self).tokens(),
            final(self).source() == old(self).source(),
            final(self).pending_header() == old(self).pending_header(),
            match (r, read_proto_body(old(self).tokens(), old(self).position(), Seq::empty())) {
                (Ok(v), Ok((sv, sj))) => body_view(v@) == sv && final(self).position() == sj,
                (Err(e), Err(se)) => is_syntax_error(e, se) && final(self).position() == old(self).position(),
                _ => false,
            },
    {
        let (items, j) = self.parse_proto_body(self.pos)?;
        self.pos = j;
        Ok(items)
    }
}

/// The text a token is written with (see [`token_text`]).
pub fn token_text_of(k: &TokenKind) -> (r: String)
    ensures
        r@ == token_text(k@),
{
    match k {
        TokenKind::Identifier(v) => v.clone(),
        TokenKind::Def => lit("DEF"),
        TokenKind::Use => lit("USE"),
        TokenKind::Proto => lit("PROTO"),
        TokenKind::ExternProto => lit("EXTERNPROTO"),
        TokenKind::Field => lit("field"),
        TokenKind::VrmlField => lit("vrmlField"),
        TokenKind::HiddenField => lit("hiddenField"),
        TokenKind::DeprecatedField => lit("deprecatedField"),
        TokenKind::Is => lit("IS"),
        TokenKind::Null => lit("NULL"),
        TokenKind::True => lit("TRUE"),
        TokenKind::False => lit("FALSE"),
        TokenKind::Float(raw) => raw.clone(),
        TokenKind::Int(_, raw) => raw.clone(),
        TokenKind::Str(v) => {
            let mut out: Vec<char> = Vec::new();
            out.push('"');
            crate::text::push_escaped_str(&mut out, v.as_str());
            out.push('"');
            proof {
                assert(out@ =~= seq!['"'] + crate::text::escape_default(v@) + seq!['"']);
            }
            crate::text::string_from_chars(&out)
        },
        TokenKind::OpenBrace => lit("{"),
        TokenKind::CloseBrace => lit("}"),
        TokenKind::OpenBracket => lit("["),
        TokenKind::CloseBracket => lit("]"),
        TokenKind::Comma => lit(","),
        TokenKind::Whitespace(v) => v.clone(),
        TokenKind::Comment(v) => v.clone(),
        TokenKind::Newline(v) => v.clone(),
        TokenKind::Template { content, is_expression, terminated } => {
            let mut out: Vec<char> = Vec::new();
            out.push('%');
            out.push('<');
            if *is_expression {
                out.push('=');
            }
            crate::text::push_str(&mut out, content.as_str());
            if *terminated {
                out.push('>');
                out.push('%');
            }
            proof {
                let open = if *is_expression { seq!['%', '<', '='] } else { seq!['%', '<'] };
                let close = if *terminated { seq!['>', '%'] } else { Seq::<char>::empty() };
                assert(out@ =~= open + content@ + close);
            }
            crate::text::string_from_chars(&out)
        },
        TokenKind::Eof => String::new(),
        TokenKind::Unknown(c) => {
            let out: Vec<char> = vec![*c];
            proof {
                assert(out@ =~= seq![*c]);
            }
            crate::text::string_from_chars(&out)
        },
    }
}

} // verus!
