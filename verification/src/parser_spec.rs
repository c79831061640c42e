//! The grammar of PROTO documents, as functions on the token sequence.
//!
//! The parser reads the significant tokens of the input (trivia and commas left
//! out).  Each function here takes that sequence and a position and says what is
//! read there: a value and the position after it, or the syntax error found.
use crate::ast::{
    BodyItemV, ElementV, ExternProtoV, FieldKeyword, FieldTypeV, NodeKindV, NodeV, ProtoDefV,
    ProtoFieldV, Span, TemplateV, ValueV,
};
use crate::error::ErrV;
use crate::lexer::KindV;
use vstd::prelude::*;

verus! {

pub type Toks = Seq<(KindV, Span)>;

/// The outcome of reading something of model `X`.
pub type Read<X> = Result<(X, int), ErrV>;

/// Whitespace, comments, newlines and commas carry no meaning for the parser.
pub open spec fn is_trivia(k: KindV) -> bool {
    k is Whitespace || k is Comment || k is Newline || k is Comma
}

/// The tokens that the parser reads: all but trivia.
pub open spec fn significant(ts: Toks) -> Toks
    decreases ts.len(),
{
    if ts.len() == 0 {
        Seq::empty()
    } else if is_trivia(ts.last().0) {
        significant(ts.drop_last())
    } else {
        significant(ts.drop_last()).push(ts.last())
    }
}

/// The significant tokens of a token followed by more: that token unless it is
/// trivia, then the significant tokens of the rest.
pub proof fn lemma_significant_prepend(x: (KindV, Span), rest: Toks)
    ensures
        significant(seq![x] + rest) == (if is_trivia(x.0) {
            significant(rest)
        } else {
            seq![x] + significant(rest)
        }),
    decreases rest.len(),
{
    let whole = seq![x] + rest;
    if rest.len() == 0 {
        assert(whole.drop_last() =~= Seq::<(KindV, Span)>::empty());
        assert(whole.last() == x);
        assert(significant(Seq::<(KindV, Span)>::empty()) == Seq::<(KindV, Span)>::empty());
        assert(significant(rest) == Seq::<(KindV, Span)>::empty());
        if !is_trivia(x.0) {
            assert(significant(whole) == Seq::<(KindV, Span)>::empty().push(x));
            assert(Seq::<(KindV, Span)>::empty().push(x) =~= seq![x] + Seq::<(KindV, Span)>::empty());
        }
    } else {
        let init = rest.drop_last();
        let y = rest.last();
        lemma_significant_prepend(x, init);
        assert(whole.drop_last() =~= seq![x] + init);
        assert(whole.last() == y);
        if is_trivia(y.0) {
            assert(significant(whole) == significant(seq![x] + init));
            assert(significant(rest) == significant(init));
        } else {
            assert(significant(whole) == significant(seq![x] + init).push(y));
            assert(significant(rest) == significant(init).push(y));
            if !is_trivia(x.0) {
                assert((seq![x] + significant(init)).push(y) =~= seq![x] + significant(init).push(y));
            }
        }
    }
}

/// Leaving out trivia never lengthens a token sequence.
pub proof fn lemma_significant_len(ts: Toks)
    ensures
        significant(ts).len() <= ts.len(),
    decreases ts.len(),
{
    if ts.len() > 0 {
        lemma_significant_len(ts.drop_last());
    }
}

/// A token sequence as the parser receives it: it ends with the end-of-input token and
/// holds no other.
pub open spec fn well_ended(t: Toks) -> bool {
    &&& t.len() >= 1
    &&& t.last().0 is Eof
    &&& forall|i: int| 0 <= i < t.len() - 1 ==> !((#[trigger] t[i]).0 is Eof)
}

/// The text of `Debug` for a token kind.
pub uninterp spec fn kind_debug(k: KindV) -> Seq<char>;

/// The zero span.
pub open spec fn zero_span() -> Span {
    Span { start: 0, end: 0, start_line: 0, start_col: 0, end_line: 0, end_col: 0 }
}

/// The span of the token read last before position `i`.
pub open spec fn prev_span(t: Toks, i: int) -> Span {
    if i > 0 {
        t[i - 1].1
    } else {
        zero_span()
    }
}

/// The span from the start of `start` to the end of the token before position `i`.
pub open spec fn span_from(t: Toks, start: Span, i: int) -> Span {
    Span {
        start: start.start,
        end: prev_span(t, i).end,
        start_line: start.start_line,
        start_col: start.start_col,
        end_line: prev_span(t, i).end_line,
        end_col: prev_span(t, i).end_col,
    }
}

/// A syntax error reported at the token at position `i`.
pub open spec fn err_at(t: Toks, i: int, message: Seq<char>) -> ErrV {
    ErrV { line: t[i].1.start_line, col: t[i].1.start_col, message }
}

/// Stands for cases that a well-ended token sequence never reaches.
pub open spec fn unreachable_err() -> ErrV {
    ErrV { line: 0, col: 0, message: Seq::empty() }
}

pub open spec fn is_number(k: KindV) -> bool {
    k is Int || k is Float
}

/// The field value that a number token stands for.
pub open spec fn number_value(k: KindV) -> ValueV {
    match k {
        KindV::Int(v, raw) => ValueV::Int(v, Some(raw)),
        KindV::Float(raw) => ValueV::Float(raw, Some(raw)),
        _ => ValueV::Raw(kind_debug(k)),
    }
}

/// The text that a token is written with, kept when the token is kept verbatim.
pub open spec fn token_text(k: KindV) -> Seq<char> {
    match k {
        KindV::Identifier(v) => v,
        KindV::Def => "DEF"@,
        KindV::Use => "USE"@,
        KindV::Proto => "PROTO"@,
        KindV::ExternProto => "EXTERNPROTO"@,
        KindV::Field => "field"@,
        KindV::VrmlField => "vrmlField"@,
        KindV::HiddenField => "hiddenField"@,
        KindV::DeprecatedField => "deprecatedField"@,
        KindV::Is => "IS"@,
        KindV::Null => "NULL"@,
        KindV::True => "TRUE"@,
        KindV::False => "FALSE"@,
        KindV::Float(raw) => raw,
        KindV::Int(_, raw) => raw,
        KindV::Str(v) => seq!['"'] + crate::text::escape_default(v) + seq!['"'],
        KindV::OpenBrace => "{"@,
        KindV::CloseBrace => "}"@,
        KindV::OpenBracket => "["@,
        KindV::CloseBracket => "]"@,
        KindV::Comma => ","@,
        KindV::Whitespace(v) => v,
        KindV::Comment(v) => v,
        KindV::Newline(v) => v,
        KindV::Template { content, is_expression, terminated } => {
            let open = if is_expression {
                seq!['%', '<', '=']
            } else {
                seq!['%', '<']
            };
            let close = if terminated {
                seq!['>', '%']
            } else {
                Seq::empty()
            };
            open + content + close
        },
        KindV::Eof => Seq::empty(),
        KindV::Unknown(c) => seq![c],
    }
}

/// True when the current token is of the kind `expected` asks for (tokens with a
/// payload match on their kind alone).
pub open spec fn kind_matches(current: KindV, expected: KindV) -> bool {
    match (current, expected) {
        (KindV::Identifier(_), KindV::Identifier(_)) => true,
        (KindV::Str(_), KindV::Str(_)) => true,
        (KindV::Int(_, _), KindV::Int(_, _)) => true,
        (KindV::Float(_), KindV::Float(_)) => true,
        (KindV::Template { .. }, KindV::Template { .. }) => true,
        (KindV::Unknown(_), KindV::Unknown(_)) => true,
        _ => current == expected,
    }
}

/// Reads an identifier.
pub open spec fn read_identifier(t: Toks, i: int) -> Read<Seq<char>> {
    if !(0 <= i < t.len()) {
        Err(unreachable_err())
    } else {
        match t[i].0 {
            KindV::Identifier(v) => Ok((v, i + 1)),
            _ => Err(err_at(t, i, "Expected Identifier, got "@ + kind_debug(t[i].0))),
        }
    }
}

/// Reads a token of the expected kind.
pub open spec fn read_expect(t: Toks, i: int, expected: KindV) -> Read<()> {
    if !(0 <= i < t.len()) {
        Err(unreachable_err())
    } else if kind_matches(t[i].0, expected) {
        Ok(((), i + 1))
    } else {
        Err(
            err_at(
                t,
                i,
                "Expected "@ + kind_debug(expected) + ", got "@ + kind_debug(t[i].0),
            ),
        )
    }
}

/// Reads a template block (the current token is a template token).
pub open spec fn read_template(t: Toks, i: int, context: Seq<char>) -> Read<TemplateV> {
    if !(0 <= i < t.len() - 1) {
        Err(unreachable_err())
    } else {
        match t[i].0 {
            KindV::Template { content, is_expression, terminated } => if !terminated {
                Err(err_at(t, i + 1, "Unterminated template block in "@ + context))
            } else {
                Ok((TemplateV { content, is_expression, span: t[i].1 }, i + 1))
            },
            _ => Err(err_at(t, i + 1, "Expected template token after template start"@)),
        }
    }
}

/// The run of numbers from `i` on, and where it ends.
pub open spec fn number_run(t: Toks, i: int) -> (Seq<ValueV>, int)
    decreases t.len() - i,
{
    if 0 <= i < t.len() && is_number(t[i].0) {
        let (rest, end) = number_run(t, i + 1);
        (seq![number_value(t[i].0)] + rest, end)
    } else {
        (Seq::empty(), i)
    }
}

/// How numbers are read where a value is expected: as a sequence (field values) or one
/// at a time (array elements).
pub enum NumberMode {
    Sequence,
    Single,
}

pub open spec fn field_value_context() -> Seq<char> {
    "field value"@
}

pub open spec fn array_value_context() -> Seq<char> {
    "array value"@
}

/// Reads a field value.
pub open spec fn read_value(t: Toks, i: int, mode: NumberMode, context: Seq<char>) -> Read<ValueV>
    decreases t.len() - i, 2int,
{
    if !(0 <= i < t.len() - 1) {
        if 0 <= i < t.len() {
            Err(err_at(t, i, "Unexpected token in "@ + context + ": "@ + kind_debug(t[i].0)))
        } else {
            Err(unreachable_err())
        }
    } else {
        let k = t[i].0;
        if is_number(k) {
            match mode {
                NumberMode::Sequence => {
                    let (rest, end) = number_run(t, i + 1);
                    Ok((ValueV::NumberSequence(seq![number_value(k)] + rest), end))
                },
                NumberMode::Single => Ok((number_value(k), i + 1)),
            }
        } else {
            match k {
                KindV::True => Ok((ValueV::Bool(true), i + 1)),
                KindV::False => Ok((ValueV::Bool(false), i + 1)),
                KindV::Str(v) => Ok((ValueV::String(v), i + 1)),
                KindV::Null => Ok((ValueV::Null, i + 1)),
                KindV::Is => match read_identifier(t, i + 1) {
                    Ok((name, j)) => Ok((ValueV::Is(name), j)),
                    Err(e) => Err(e),
                },
                KindV::OpenBracket => match read_array(t, i + 1, Seq::empty()) {
                    Ok((items, j)) => Ok((ValueV::Array(items), j)),
                    Err(e) => Err(e),
                },
                KindV::Identifier(_) | KindV::Def | KindV::Use => match read_node(t, i) {
                    Ok((n, j)) => Ok((ValueV::Node(Box::new(n)), j)),
                    Err(e) => Err(e),
                },
                KindV::Template { .. } => match read_template(t, i, context) {
                    Ok((tb, j)) => Ok((ValueV::Template(tb), j)),
                    Err(e) => Err(e),
                },
                _ => Err(err_at(t, i, "Unexpected token in "@ + context + ": "@ + kind_debug(k))),
            }
        }
    }
}

/// Reads the elements of an array from `i` (after `[`), with `acc` read so far, up to
/// and including the closing `]`.
pub open spec fn read_array(t: Toks, i: int, acc: Seq<ValueV>) -> Read<Seq<ValueV>>
    decreases t.len() - i, 3int,
{
    if !(0 <= i < t.len()) {
        Err(unreachable_err())
    } else if t[i].0 is CloseBracket || t[i].0 is Eof {
        match read_expect(t, i, KindV::CloseBracket) {
            Ok((_, j)) => Ok((acc, j)),
            Err(e) => Err(e),
        }
    } else {
        match read_value(t, i, NumberMode::Single, array_value_context()) {
            Ok((v, j)) => if i < j <= t.len() {
                read_array(t, j, acc.push(v))
            } else {
                Err(unreachable_err())
            },
            Err(e) => Err(e),
        }
    }
}

/// Reads a node: `USE name` or `[DEF name] Type { body }`.
pub open spec fn read_node(t: Toks, i: int) -> Read<NodeV>
    decreases t.len() - i, 1int,
{
    if !(0 <= i < t.len() - 1) {
        Err(unreachable_err())
    } else {
        let start = t[i].1;
        let def = if t[i].0 is Def {
            match read_identifier(t, i + 1) {
                Ok((name, j)) => Ok((Some(name), j)),
                Err(e) => Err(e),
            }
        } else {
            Ok((None::<Seq<char>>, i))
        };
        match def {
            Err(e) => Err(e),
            Ok((def_name, j)) => if !(0 <= j < t.len()) {
                Err(unreachable_err())
            } else if def_name is Some && t[j].0 is Use {
                Err(err_at(t, j, "DEF cannot be followed by USE"@))
            } else if t[j].0 is Use {
                match read_identifier(t, j + 1) {
                    Ok((name, k)) => Ok(
                        (NodeV { kind: NodeKindV::Use { use_name: name }, span: span_from(t, start, k) }, k),
                    ),
                    Err(e) => Err(e),
                }
            } else {
                match read_identifier(t, j) {
                    Err(e) => Err(e),
                    Ok((ty, k)) => match read_expect(t, k, KindV::OpenBrace) {
                        Err(e) => Err(e),
                        Ok((_, m)) => if i < m <= t.len() {
                            match read_body(t, m, Seq::empty()) {
                                Err(e) => Err(e),
                                Ok((fields, n)) => match read_expect(t, n, KindV::CloseBrace) {
                                    Err(e) => Err(e),
                                    Ok((_, q)) => Ok(
                                        (
                                            NodeV {
                                                kind: NodeKindV::Node {
                                                    node_type: ty,
                                                    def_name,
                                                    fields,
                                                },
                                                span: span_from(t, start, q),
                                            },
                                            q,
                                        ),
                                    ),
                                },
                            }
                        } else {
                            Err(unreachable_err())
                        },
                    },
                }
            },
        }
    }
}

/// True when the token at `i` starts a field assignment: an identifier not followed by `{`.
pub open spec fn is_field_start(t: Toks, i: int) -> bool {
    t[i].0 is Identifier && !(t[i + 1].0 is OpenBrace)
}

/// Reads the elements of a node body from `i`, with `acc` read so far, up to (not
/// including) the closing brace or the end of input.
pub open spec fn read_body(t: Toks, i: int, acc: Seq<ElementV>) -> Read<Seq<ElementV>>
    decreases t.len() - i, 0int,
{
    if !(0 <= i < t.len()) {
        Err(unreachable_err())
    } else if t[i].0 is CloseBrace || t[i].0 is Eof {
        Ok((acc, i))
    } else if !(i < t.len() - 1) {
        Err(unreachable_err())
    } else if t[i].0 is Template {
        match read_template(t, i, "node body"@) {
            Ok((tb, j)) => read_body(t, j, acc.push(ElementV::Template(tb))),
            Err(e) => Err(e),
        }
    } else if t[i].0 is Def {
        let raw1 = ElementV::Raw { text: token_text(t[i].0), span: t[i].1 };
        if t[i + 1].0 is Identifier {
            let raw2 = ElementV::Raw { text: token_text(t[i + 1].0), span: t[i + 1].1 };
            read_body(t, i + 2, acc.push(raw1).push(raw2))
        } else {
            read_body(t, i + 1, acc.push(raw1))
        }
    } else if is_field_start(t, i) {
        match t[i].0 {
            KindV::Identifier(name) => match read_value(t, i + 1, NumberMode::Sequence, field_value_context()) {
                Ok((v, j)) => if i < j <= t.len() {
                    read_body(
                        t,
                        j,
                        acc.push(ElementV::Field { name, value: v, span: span_from(t, t[i].1, j) }),
                    )
                } else {
                    Err(unreachable_err())
                },
                Err(e) => Err(e),
            },
            _ => Err(unreachable_err()),
        }
    } else {
        read_body(t, i + 1, acc.push(ElementV::Raw { text: token_text(t[i].0), span: t[i].1 }))
    }
}

/// The field type that a type name stands for.
pub open spec fn field_type_of(name: Seq<char>) -> FieldTypeV {
    if name == "SFBool"@ {
        FieldTypeV::SFBool
    } else if name == "SFInt32"@ {
        FieldTypeV::SFInt32
    } else if name == "SFFloat"@ {
        FieldTypeV::SFFloat
    } else if name == "SFString"@ {
        FieldTypeV::SFString
    } else if name == "SFVec2f"@ {
        FieldTypeV::SFVec2f
    } else if name == "SFVec3f"@ {
        FieldTypeV::SFVec3f
    } else if name == "SFRotation"@ {
        FieldTypeV::SFRotation
    } else if name == "SFColor"@ {
        FieldTypeV::SFColor
    } else if name == "SFNode"@ {
        FieldTypeV::SFNode
    } else if name == "MFBool"@ {
        FieldTypeV::MFBool
    } else if name == "MFInt32"@ {
        FieldTypeV::MFInt32
    } else if name == "MFFloat"@ {
        FieldTypeV::MFFloat
    } else if name == "MFString"@ {
        FieldTypeV::MFString
    } else if name == "MFVec2f"@ {
        FieldTypeV::MFVec2f
    } else if name == "MFVec3f"@ {
        FieldTypeV::MFVec3f
    } else if name == "MFRotation"@ {
        FieldTypeV::MFRotation
    } else if name == "MFColor"@ {
        FieldTypeV::MFColor
    } else if name == "MFNode"@ {
        FieldTypeV::MFNode
    } else {
        FieldTypeV::Unknown(name)
    }
}

/// The keyword that a token stands for, if it is a field keyword.
pub open spec fn keyword_of(k: KindV) -> Option<FieldKeyword> {
    match k {
        KindV::Field => Some(FieldKeyword::Field),
        KindV::VrmlField => Some(FieldKeyword::VrmlField),
        KindV::HiddenField => Some(FieldKeyword::HiddenField),
        KindV::DeprecatedField => Some(FieldKeyword::DeprecatedField),
        _ => None,
    }
}

/// Reads the values listed in a restriction `{ ... }` from `i` (after `{`), with `acc`
/// read so far, up to (not including) the closing brace or the end of input.
pub open spec fn read_restrictions(t: Toks, i: int, acc: Seq<ValueV>) -> Read<Seq<ValueV>>
    decreases t.len() - i,
{
    if !(0 <= i < t.len()) {
        Err(unreachable_err())
    } else if t[i].0 is CloseBrace || t[i].0 is Eof {
        Ok((acc, i))
    } else {
        match read_value(t, i, NumberMode::Sequence, field_value_context()) {
            Ok((v, j)) => if i < j <= t.len() {
                read_restrictions(t, j, acc.push(v))
            } else {
                Err(unreachable_err())
            },
            Err(e) => Err(e),
        }
    }
}

/// Reads an interface field declaration.
pub open spec fn read_proto_field(t: Toks, i: int) -> Read<ProtoFieldV> {
    if !(0 <= i < t.len() - 1) {
        Err(unreachable_err())
    } else {
        match keyword_of(t[i].0) {
            None => Err(err_at(t, i, "Expected field keyword, got "@ + kind_debug(t[i].0))),
            Some(keyword) => match read_identifier(t, i + 1) {
                Err(e) => Err(e),
                Ok((ty_name, j)) => {
                    let restr = if 0 <= j < t.len() && t[j].0 is OpenBrace {
                        match read_restrictions(t, j + 1, Seq::empty()) {
                            Err(e) => Err(e),
                            Ok((items, k)) => match read_expect(t, k, KindV::CloseBrace) {
                                Err(e) => Err(e),
                                Ok((_, m)) => Ok((Some(items), m)),
                            },
                        }
                    } else {
                        Ok((None::<Seq<ValueV>>, j))
                    };
                    match restr {
                        Err(e) => Err(e),
                        Ok((restrictions, k)) => match read_identifier(t, k) {
                            Err(e) => Err(e),
                            Ok((name, m)) => match read_value(
                                t,
                                m,
                                NumberMode::Sequence,
                                field_value_context(),
                            ) {
                                Err(e) => Err(e),
                                Ok((v, n)) => Ok(
                                    (
                                        ProtoFieldV {
                                            name,
                                            field_type: field_type_of(ty_name),
                                            default_value: Some(v),
                                            keyword,
                                            restrictions,
                                            span: span_from(t, t[i].1, n),
                                        },
                                        n,
                                    ),
                                ),
                            },
                        },
                    }
                },
            },
        }
    }
}

/// Reads interface fields from `i`, with `acc` read so far, up to (not including) the
/// closing bracket or the end of input.
pub open spec fn read_interface(t: Toks, i: int, acc: Seq<ProtoFieldV>) -> Read<Seq<ProtoFieldV>>
    decreases t.len() - i,
{
    if !(0 <= i < t.len()) {
        Err(unreachable_err())
    } else if t[i].0 is CloseBracket || t[i].0 is Eof {
        Ok((acc, i))
    } else {
        match read_proto_field(t, i) {
            Ok((f, j)) => if i < j <= t.len() {
                read_interface(t, j, acc.push(f))
            } else {
                Err(unreachable_err())
            },
            Err(e) => Err(e),
        }
    }
}

/// Reads the items of a PROTO body from `i`, with `acc` read so far, up to (not
/// including) the closing brace or the end of input.
pub open spec fn read_proto_body(t: Toks, i: int, acc: Seq<BodyItemV>) -> Read<Seq<BodyItemV>>
    decreases t.len() - i,
{
    if !(0 <= i < t.len()) {
        Err(unreachable_err())
    } else if t[i].0 is CloseBrace || t[i].0 is Eof {
        Ok((acc, i))
    } else if t[i].0 is Template {
        match read_template(t, i, "PROTO body"@) {
            Ok((tb, j)) => if i < j <= t.len() {
                read_proto_body(t, j, acc.push(BodyItemV::Template(tb)))
            } else {
                Err(unreachable_err())
            },
            Err(e) => Err(e),
        }
    } else {
        match read_node(t, i) {
            Ok((n, j)) => if i < j <= t.len() {
                read_proto_body(t, j, acc.push(BodyItemV::Node(n)))
            } else {
                Err(unreachable_err())
            },
            Err(e) => Err(e),
        }
    }
}

/// Reads `PROTO name [ interface ] { body }`.
pub open spec fn read_proto_definition(t: Toks, i: int) -> Read<ProtoDefV> {
    if !(0 <= i < t.len()) {
        Err(unreachable_err())
    } else {
        let start = t[i].1;
        match read_expect(t, i, KindV::Proto) {
            Err(e) => Err(e),
            Ok((_, a)) => match read_identifier(t, a) {
                Err(e) => Err(e),
                Ok((name, b)) => match read_expect(t, b, KindV::OpenBracket) {
                    Err(e) => Err(e),
                    Ok((_, c)) => match read_interface(t, c, Seq::empty()) {
                        Err(e) => Err(e),
                        Ok((fields, d)) => match read_expect(t, d, KindV::CloseBracket) {
                            Err(e) => Err(e),
                            Ok((_, e1)) => match read_expect(t, e1, KindV::OpenBrace) {
                                Err(e) => Err(e),
                                Ok((_, f)) => match read_proto_body(t, f, Seq::empty()) {
                                    Err(e) => Err(e),
                                    Ok((body, g)) => match read_expect(t, g, KindV::CloseBrace) {
                                        Err(e) => Err(e),
                                        Ok((_, h)) => {
                                            let close = t[g].1;
                                            Ok(
                                                (
                                                    ProtoDefV {
                                                        name,
                                                        fields,
                                                        body,
                                                        span: Span {
                                                            start: start.start,
                                                            end: close.end,
                                                            start_line: start.start_line,
                                                            start_col: start.start_col,
                                                            end_line: close.end_line,
                                                            end_col: close.end_col,
                                                        },
                                                    },
                                                    h,
                                                ),
                                            )
                                        },
                                    },
                                },
                            },
                        },
                    },
                },
            },
        }
    }
}

/// True when the token at `i` is the word `IMPORTABLE` and an `EXTERNPROTO` follows.
pub open spec fn is_importable_start(t: Toks, i: int) -> bool {
    0 <= i < t.len() - 1 && t[i].0 == KindV::Identifier("IMPORTABLE"@) && t[i + 1].0
        is ExternProto
}

/// True when an EXTERNPROTO declaration starts at `i`.
pub open spec fn is_extern_start(t: Toks, i: int) -> bool {
    (0 <= i < t.len() && t[i].0 is ExternProto) || is_importable_start(t, i)
}

/// Reads `[IMPORTABLE] EXTERNPROTO "url" [alias]`.
pub open spec fn read_extern_proto(t: Toks, i: int) -> Read<ExternProtoV> {
    if !(0 <= i < t.len() - 1) {
        Err(unreachable_err())
    } else {
        let start = t[i].1;
        let importable = is_importable_start(t, i);
        let k = if importable {
            i + 1
        } else {
            i
        };
        match read_expect(t, k, KindV::ExternProto) {
            Err(e) => Err(e),
            Ok((_, j)) => if !(0 <= j < t.len()) {
                Err(unreachable_err())
            } else {
                match t[j].0 {
                    KindV::Str(url) => {
                        let has_alias = j + 1 < t.len() && t[j + 1].0 is Identifier && t[j
                            + 1].1.start_line == t[j].1.end_line;
                        let alias = if has_alias {
                            Some(t[j + 1].0->Identifier_0)
                        } else {
                            None
                        };
                        let end = if has_alias {
                            j + 2
                        } else {
                            j + 1
                        };
                        Ok(
                            (
                                ExternProtoV {
                                    url,
                                    alias,
                                    importable,
                                    span: span_from(t, start, end),
                                },
                                end,
                            ),
                        )
                    },
                    _ => Err(
                        err_at(
                            t,
                            j,
                            "Expected string for EXTERNPROTO url, got "@ + kind_debug(t[j].0),
                        ),
                    ),
                }
            },
        }
    }
}

/// Reads EXTERNPROTO declarations from `i`, with `acc` read so far.
pub open spec fn read_externs(t: Toks, i: int, acc: Seq<ExternProtoV>) -> Read<Seq<ExternProtoV>>
    decreases t.len() - i,
{
    if !(0 <= i < t.len()) {
        Err(unreachable_err())
    } else if !is_extern_start(t, i) {
        Ok((acc, i))
    } else {
        match read_extern_proto(t, i) {
            Ok((e, j)) => if i < j <= t.len() {
                read_externs(t, j, acc.push(e))
            } else {
                Err(unreachable_err())
            },
            Err(e) => Err(e),
        }
    }
}

/// Reads root nodes from `i` to the end of input, with `acc` read so far.
pub open spec fn read_roots(t: Toks, i: int, acc: Seq<NodeV>) -> Read<Seq<NodeV>>
    decreases t.len() - i,
{
    if !(0 <= i < t.len()) {
        Err(unreachable_err())
    } else if t[i].0 is Eof {
        Ok((acc, i))
    } else if t[i].0 is Proto {
        Err(err_at(t, i, "Unexpected second PROTO definition"@))
    } else {
        match read_node(t, i) {
            Ok((n, j)) => if i < j <= t.len() {
                read_roots(t, j, acc.push(n))
            } else {
                Err(unreachable_err())
            },
            Err(e) => Err(e),
        }
    }
}

/// What a document's tokens give: its EXTERNPROTOs, its PROTO definition and its
/// root nodes, or the first syntax error.
pub open spec fn read_document(t: Toks) -> Result<(Seq<ExternProtoV>, Option<ProtoDefV>, Seq<NodeV>), ErrV> {
    match read_externs(t, 0, Seq::empty()) {
        Err(e) => Err(e),
        Ok((externs, i)) => {
            let proto = if 0 <= i < t.len() && t[i].0 is Proto {
                match read_proto_definition(t, i) {
                    Ok((p, j)) => Ok((Some(p), j)),
                    Err(e) => Err(e),
                }
            } else {
                Ok((None::<ProtoDefV>, i))
            };
            match proto {
                Err(e) => Err(e),
                Ok((p, j)) => match read_roots(t, j, Seq::empty()) {
                    Err(e) => Err(e),
                    Ok((roots, _)) => Ok((externs, p, roots)),
                },
            }
        },
    }
}

/// The document read from the token at `p` on, with the index of the end-of-input
/// token that ends it.
pub open spec fn read_document_from(t: Toks, p: int) -> Result<(Seq<ExternProtoV>, Option<ProtoDefV>, Seq<NodeV>, int), ErrV> {
    match read_externs(t, p, Seq::empty()) {
        Err(e) => Err(e),
        Ok((externs, i)) => {
            let proto = if 0 <= i < t.len() && t[i].0 is Proto {
                match read_proto_definition(t, i) {
                    Ok((p, j)) => Ok((Some(p), j)),
                    Err(e) => Err(e),
                }
            } else {
                Ok((None::<ProtoDefV>, i))
            };
            match proto {
                Err(e) => Err(e),
                Ok((q, j)) => match read_roots(t, j, Seq::empty()) {
                    Err(e) => Err(e),
                    Ok((roots, end)) => Ok((externs, q, roots, end)),
                },
            }
        },
    }
}

} // verus!
