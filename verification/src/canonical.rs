//! Canonical round trips: what the canonical writer produces reads back as what was
//! written.
use crate::ast::{FieldKeyword, FieldTypeV, ProtoDefV, ProtoFieldV, ProtoV, Span, ValueV};
use crate::document::{document_of, lemma_no_header};
use crate::lexer::{
    ascii_letter, digits_value, fits_i64, ident_char, integer_value, is_digit, is_ws, lemma_lex_step,
    lemma_token_decimal, lemma_token_int, lemma_token_newline, lemma_token_punct,
    lemma_token_spaces, lemma_token_string,
    lemma_token_word, lex, lex_from, span_between, token_at, word_kind, KindV,
};
use crate::parser_spec::{
    field_type_of, field_value_context, is_number, lemma_significant_prepend, number_run,
    number_value, read_document, read_externs, read_interface, read_proto_body,
    read_proto_definition, read_proto_field, read_roots, read_value, significant, NumberMode,
};
use crate::text::{escape_char, escape_default};
use crate::writer::{
    digit_char, digits_text, document_text, field_type_text, int_text, join, proto_field_text,
    proto_fields_text, value_text,
};
use vstd::prelude::*;

verus! {

/// The document that holds a PROTO definition and nothing else.
pub open spec fn proto_only(p: ProtoDefV) -> ProtoV {
    ProtoV {
        header: None,
        externprotos: Seq::empty(),
        proto: Some(p),
        root_nodes: Seq::empty(),
        source_path: None,
        source_content: None,
    }
}

/// True when a text is written as it is between quotes: printable ASCII with no quote,
/// apostrophe or backslash.
pub open spec fn simple_text(s: Seq<char>) -> bool {
    forall|k: int|
        0 <= k < s.len() ==> ' ' <= #[trigger] s[k] <= '~' && s[k] != '"' && s[k] != '\'' && s[k]
            != '\\'
}

proof fn lemma_escape_simple(s: Seq<char>)
    requires
        simple_text(s),
    ensures
        escape_default(s) == s,
    decreases s.len(),
{
    if s.len() > 0 {
        assert(simple_text(s.drop_last())) by {
            assert forall|k: int| 0 <= k < s.drop_last().len() implies ' ' <= #[trigger] s.drop_last()[k] <= '~'
                && s.drop_last()[k] != '"' && s.drop_last()[k] != '\'' && s.drop_last()[k] != '\\' by {
                assert(s.drop_last()[k] == s[k]);
            }
        }
        lemma_escape_simple(s.drop_last());
        let c = s[s.len() - 1];
        assert(escape_char(c) == seq![c]);
        assert(s.drop_last().push(c) =~= s);
    }
}

/// The decimal digits of `n` are digits that read back as `n`.
pub proof fn lemma_digits_text(n: nat)
    ensures
        digits_text(n).len() >= 1,
        forall|k: int| 0 <= k < digits_text(n).len() ==> is_digit(#[trigger] digits_text(n)[k]),
        digits_value(digits_text(n)) == n,
    decreases n,
{
    let t = digits_text(n);
    if n < 10 {
        assert(t.drop_last() =~= Seq::<char>::empty());
        assert(digits_value(Seq::<char>::empty()) == 0);
        assert(t.last() == digit_char(n));
        assert(digit_char(n) as int == '0' as int + n);
        assert(digits_value(t) == digits_value(t.drop_last()) * 10 + (t.last() as int - '0' as int));
    } else {
        lemma_digits_text(n / 10);
        let d = digits_text(n / 10);
        assert(t.drop_last() =~= d);
        assert(t.last() == digit_char(n % 10));
        assert(digit_char(n % 10) as int == '0' as int + n % 10);
        assert(digits_value(t) == digits_value(t.drop_last()) * 10 + (t.last() as int - '0' as int));
        assert(n == (n / 10) * 10 + n % 10);
    }
}

/// The decimal text of an integer: an optional `-` and at least one digit, which reads
/// back as the integer.
pub proof fn lemma_int_text(v: i64)
    ensures
        int_text(v).len() >= 1,
        int_text(v)[0] != '+',
        int_text(v)[0] == '-' ==> int_text(v).len() >= 2,
        forall|k: int|
            (if int_text(v)[0] == '-' { 1int } else { 0int }) <= k < int_text(v).len() ==> is_digit(
                #[trigger] int_text(v)[k],
            ),
        integer_value(int_text(v)) == v,
{
    if v < 0 {
        let n = (-v) as nat;
        lemma_digits_text(n);
        assert(int_text(v).drop_first() =~= digits_text(n));
        assert forall|k: int| 1 <= k < int_text(v).len() implies is_digit(#[trigger] int_text(v)[k]) by {
            assert(int_text(v)[k] == digits_text(n)[k - 1]);
        }
    } else {
        lemma_digits_text(v as nat);
        assert(is_digit(int_text(v)[0]));
    }
}

/// What a one-field PROTO text reads back as: a PROTO `Test` whose one field
/// `testVal`, declared with `field` and the type named `ty_name`, has the default `v`.
pub open spec fn reads_back_field(t: Seq<char>, ty_name: Seq<char>, v: ValueV) -> bool {
    match document_of(t) {
        Ok(d) => match d.proto {
            Some(q) => {
                &&& d.header is None
                &&& d.externprotos.len() == 0
                &&& d.root_nodes.len() == 0
                &&& q.name == seq!['T', 'e', 's', 't']
                &&& q.body.len() == 0
                &&& q.fields.len() == 1
                &&& q.fields[0].name == seq!['t', 'e', 's', 't', 'V', 'a', 'l']
                &&& q.fields[0].field_type == field_type_of(ty_name)
                &&& q.fields[0].default_value == Some(v)
                &&& q.fields[0].keyword == FieldKeyword::Field
                &&& q.fields[0].restrictions is None
            },
            None => false,
        },
        Err(_) => false,
    }
}

/// Reading the tokens `PROTO Test [ field TYPE testVal VALUE ] { }` and the end.
#[verifier::rlimit(40)]
proof fn lemma_read_single_field(ts: Seq<(KindV, Span)>, ty_name: Seq<char>, v: ValueV)
    requires
        ts.len() == 11,
        ts[0].0 == KindV::Proto,
        ts[1].0 == KindV::Identifier(seq!['T', 'e', 's', 't']),
        ts[2].0 == KindV::OpenBracket,
        ts[3].0 == KindV::Field,
        ts[4].0 == KindV::Identifier(ty_name),
        ts[5].0 == KindV::Identifier(seq!['t', 'e', 's', 't', 'V', 'a', 'l']),
        match ts[6].0 {
            KindV::True => v == ValueV::Bool(true),
            KindV::False => v == ValueV::Bool(false),
            KindV::Str(x) => v == ValueV::String(x),
            _ => false,
        },
        ts[7].0 == KindV::CloseBracket,
        ts[8].0 == KindV::OpenBrace,
        ts[9].0 == KindV::CloseBrace,
        ts[10].0 == KindV::Eof,
    ensures
        read_document(ts) matches Ok((ex, Some(q), roots)) && ex.len() == 0 && roots.len() == 0
            && q.name == seq!['T', 'e', 's', 't'] && q.body.len() == 0 && q.fields.len() == 1
            && q.fields[0].name == seq!['t', 'e', 's', 't', 'V', 'a', 'l'] && q.fields[0].field_type
            == field_type_of(ty_name) && q.fields[0].default_value == Some(v) && q.fields[0].keyword
            == FieldKeyword::Field && q.fields[0].restrictions is None,
{
    assert(read_value(ts, 6, NumberMode::Sequence, field_value_context()) == Ok::<(ValueV, int), crate::error::ErrV>((v, 7)));
    let f = read_proto_field(ts, 3);
    assert(f matches Ok((pf, k)) && k == 7 && pf.name == seq!['t', 'e', 's', 't', 'V', 'a', 'l']
        && pf.field_type == field_type_of(ty_name) && pf.default_value == Some(v)
        && pf.keyword == FieldKeyword::Field && pf.restrictions is None);
    let pf = f->Ok_0.0;
    assert(read_interface(ts, 7, seq![pf]) == Ok::<(Seq<ProtoFieldV>, int), crate::error::ErrV>((seq![pf], 7)));
    assert(read_interface(ts, 3, Seq::empty()) == Ok::<(Seq<ProtoFieldV>, int), crate::error::ErrV>((seq![pf], 7)));
    assert(read_proto_body(ts, 9, Seq::empty()) == Ok::<(Seq<crate::ast::BodyItemV>, int), crate::error::ErrV>((Seq::empty(), 9)));
    let pd = read_proto_definition(ts, 0);
    assert(pd matches Ok((q, k)) && k == 10 && q.name == seq!['T', 'e', 's', 't'] && q.fields == seq![pf] && q.body.len() == 0);
    assert(read_externs(ts, 0, Seq::empty()) == Ok::<(Seq<crate::ast::ExternProtoV>, int), crate::error::ErrV>((Seq::empty(), 0)));
    assert(read_roots(ts, 10, Seq::empty()) == Ok::<(Seq<crate::ast::NodeV>, int), crate::error::ErrV>((Seq::empty(), 10)));
}

/// The values of the `n` number tokens from `i`.
pub open spec fn numbers_from(ts: Seq<(KindV, Span)>, i: int, n: nat) -> Seq<ValueV> {
    Seq::new(n, |x: int| number_value(ts[i + x].0))
}

/// A run of number tokens from `i` up to `j` reads as their values.
proof fn lemma_number_run(ts: Seq<(KindV, Span)>, i: int, j: int)
    requires
        0 <= i <= j < ts.len(),
        forall|k: int| i <= k < j ==> is_number(#[trigger] ts[k].0),
        !is_number(ts[j].0),
    ensures
        number_run(ts, i) == (numbers_from(ts, i, (j - i) as nat), j),
    decreases j - i,
{
    if i == j {
        assert(numbers_from(ts, i, 0) =~= Seq::<ValueV>::empty());
    } else {
        lemma_number_run(ts, i + 1, j);
        assert(seq![number_value(ts[i].0)] + numbers_from(ts, i + 1, (j - i - 1) as nat) =~= numbers_from(
            ts,
            i,
            (j - i) as nat,
        ));
    }
}

/// Reading the tokens `PROTO Test [ field TYPE testVal N1 .. Nn ] { }` and the end.
#[verifier::rlimit(40)]
proof fn lemma_read_number_field(ts: Seq<(KindV, Span)>, ty_name: Seq<char>, n: int)
    requires
        n >= 1,
        ts.len() == 10 + n,
        ts[0].0 == KindV::Proto,
        ts[1].0 == KindV::Identifier(seq!['T', 'e', 's', 't']),
        ts[2].0 == KindV::OpenBracket,
        ts[3].0 == KindV::Field,
        ts[4].0 == KindV::Identifier(ty_name),
        ts[5].0 == KindV::Identifier(seq!['t', 'e', 's', 't', 'V', 'a', 'l']),
        forall|k: int| 6 <= k < 6 + n ==> is_number(#[trigger] ts[k].0),
        ts[6 + n].0 == KindV::CloseBracket,
        ts[7 + n].0 == KindV::OpenBrace,
        ts[8 + n].0 == KindV::CloseBrace,
        ts[9 + n].0 == KindV::Eof,
    ensures
        read_document(ts) matches Ok((ex, Some(q), roots)) && ex.len() == 0 && roots.len() == 0
            && q.name == seq!['T', 'e', 's', 't'] && q.body.len() == 0 && q.fields.len() == 1
            && q.fields[0].name == seq!['t', 'e', 's', 't', 'V', 'a', 'l'] && q.fields[0].field_type
            == field_type_of(ty_name) && q.fields[0].default_value == Some(
            ValueV::NumberSequence(numbers_from(ts, 6, n as nat)),
        ) && q.fields[0].keyword == FieldKeyword::Field && q.fields[0].restrictions is None,
{
    let v = ValueV::NumberSequence(numbers_from(ts, 6, n as nat));
    let e = 6 + n;
    lemma_number_run(ts, 7, e);
    assert(seq![number_value(ts[6].0)] + numbers_from(ts, 7, (n - 1) as nat) =~= numbers_from(ts, 6, n as nat));
    assert(read_value(ts, 6, NumberMode::Sequence, field_value_context()) == Ok::<(ValueV, int), crate::error::ErrV>((v, e)));
    let f = read_proto_field(ts, 3);
    assert(f matches Ok((pf, k)) && k == e && pf.name == seq!['t', 'e', 's', 't', 'V', 'a', 'l']
        && pf.field_type == field_type_of(ty_name) && pf.default_value == Some(v)
        && pf.keyword == FieldKeyword::Field && pf.restrictions is None);
    let pf = f->Ok_0.0;
    assert(read_interface(ts, e, seq![pf]) == Ok::<(Seq<ProtoFieldV>, int), crate::error::ErrV>((seq![pf], e)));
    assert(read_interface(ts, 3, Seq::empty()) == Ok::<(Seq<ProtoFieldV>, int), crate::error::ErrV>((seq![pf], e)));
    assert(read_proto_body(ts, e + 2, Seq::empty()) == Ok::<(Seq<crate::ast::BodyItemV>, int), crate::error::ErrV>((Seq::empty(), e + 2)));
    let pd = read_proto_definition(ts, 0);
    assert(pd matches Ok((q, k)) && k == e + 3 && q.name == seq!['T', 'e', 's', 't'] && q.fields == seq![pf] && q.body.len() == 0);
    assert(read_externs(ts, 0, Seq::empty()) == Ok::<(Seq<crate::ast::ExternProtoV>, int), crate::error::ErrV>((Seq::empty(), 0)));
    assert(read_roots(ts, e + 3, Seq::empty()) == Ok::<(Seq<crate::ast::NodeV>, int), crate::error::ErrV>((Seq::empty(), e + 3)));
}

/// The tokens of `PROTO Test [   field SFBool testVal TRUE ] { }`.
#[verifier::rlimit(60)]
#[verifier::spinoff_prover]
proof fn lemma_true_field_tokens(t: Seq<char>)
    requires
        t == "PROTO Test [\n  field SFBool testVal TRUE\n]\n{\n}"@,
    ensures
        t.len() == 46,
        token_at(t, 0) == (KindV::Proto, 5int),
        token_at(t, 5) == (KindV::Whitespace(t.subrange(5, 6)), 6int),
        token_at(t, 6) == (KindV::Identifier(seq!['T', 'e', 's', 't']), 10int),
        token_at(t, 10) == (KindV::Whitespace(t.subrange(10, 11)), 11int),
        token_at(t, 11) == (KindV::OpenBracket, 12int),
        token_at(t, 12) == (KindV::Newline(t.subrange(12, 13)), 13int),
        token_at(t, 13) == (KindV::Whitespace(t.subrange(13, 15)), 15int),
        token_at(t, 15) == (KindV::Field, 20int),
        token_at(t, 20) == (KindV::Whitespace(t.subrange(20, 21)), 21int),
        token_at(t, 21) == (KindV::Identifier(seq!['S', 'F', 'B', 'o', 'o', 'l']), 27int),
        token_at(t, 27) == (KindV::Whitespace(t.subrange(27, 28)), 28int),
        token_at(t, 28) == (KindV::Identifier(seq!['t', 'e', 's', 't', 'V', 'a', 'l']), 35int),
        token_at(t, 35) == (KindV::Whitespace(t.subrange(35, 36)), 36int),
        token_at(t, 36) == (KindV::True, 40int),
        token_at(t, 40) == (KindV::Newline(t.subrange(40, 41)), 41int),
        token_at(t, 41) == (KindV::CloseBracket, 42int),
        token_at(t, 42) == (KindV::Newline(t.subrange(42, 43)), 43int),
        token_at(t, 43) == (KindV::OpenBrace, 44int),
        token_at(t, 44) == (KindV::Newline(t.subrange(44, 45)), 45int),
        token_at(t, 45) == (KindV::CloseBrace, 46int),
{
    reveal_strlit("PROTO Test [\n  field SFBool testVal TRUE\n]\n{\n}");
    assert(t.len() == 46);
    assert forall|k: int| 0 <= k < 5 implies #[trigger] ident_char(t[k]) by { if k == 0 {} else if k == 1 {} else if k == 2 {} else if k == 3 {} else {} }
    lemma_token_word(t, 0, 5);
    assert(t.subrange(0, 5) =~= seq!['P', 'R', 'O', 'T', 'O']);
    assert forall|k: int| 5 <= k < 6 implies #[trigger] t[k] == ' ' by {  }
    lemma_token_spaces(t, 5, 6);
    assert forall|k: int| 6 <= k < 10 implies #[trigger] ident_char(t[k]) by { if k == 6 {} else if k == 7 {} else if k == 8 {} else {} }
    assert(t.subrange(6, 10)[0] != seq!['N', 'U', 'L', 'L'][0]);
    assert(t.subrange(6, 10)[1] != seq!['T', 'R', 'U', 'E'][1]);
    lemma_token_word(t, 6, 10);
    assert(t.subrange(6, 10) =~= seq!['T', 'e', 's', 't']);
    assert forall|k: int| 10 <= k < 11 implies #[trigger] t[k] == ' ' by {  }
    lemma_token_spaces(t, 10, 11);
    lemma_token_punct(t, 11);
    lemma_token_newline(t, 12);
    assert forall|k: int| 13 <= k < 15 implies #[trigger] t[k] == ' ' by { if k == 13 {} else {} }
    lemma_token_spaces(t, 13, 15);
    assert forall|k: int| 15 <= k < 20 implies #[trigger] ident_char(t[k]) by { if k == 15 {} else if k == 16 {} else if k == 17 {} else if k == 18 {} else {} }
    assert(t.subrange(15, 20)[0] != seq!['P', 'R', 'O', 'T', 'O'][0]);
    lemma_token_word(t, 15, 20);
    assert(t.subrange(15, 20) =~= seq!['f', 'i', 'e', 'l', 'd']);
    assert forall|k: int| 20 <= k < 21 implies #[trigger] t[k] == ' ' by {  }
    lemma_token_spaces(t, 20, 21);
    assert forall|k: int| 21 <= k < 27 implies #[trigger] ident_char(t[k]) by { if k == 21 {} else if k == 22 {} else if k == 23 {} else if k == 24 {} else if k == 25 {} else {} }
    lemma_token_word(t, 21, 27);
    assert(t.subrange(21, 27) =~= seq!['S', 'F', 'B', 'o', 'o', 'l']);
    assert forall|k: int| 27 <= k < 28 implies #[trigger] t[k] == ' ' by {  }
    lemma_token_spaces(t, 27, 28);
    assert forall|k: int| 28 <= k < 35 implies #[trigger] ident_char(t[k]) by { if k == 28 {} else if k == 29 {} else if k == 30 {} else if k == 31 {} else if k == 32 {} else if k == 33 {} else {} }
    lemma_token_word(t, 28, 35);
    assert(t.subrange(28, 35) =~= seq!['t', 'e', 's', 't', 'V', 'a', 'l']);
    assert forall|k: int| 35 <= k < 36 implies #[trigger] t[k] == ' ' by {  }
    lemma_token_spaces(t, 35, 36);
    assert forall|k: int| 36 <= k < 40 implies #[trigger] ident_char(t[k]) by { if k == 36 {} else if k == 37 {} else if k == 38 {} else {} }
    assert(t.subrange(36, 40)[0] != seq!['N', 'U', 'L', 'L'][0]);
    lemma_token_word(t, 36, 40);
    assert(t.subrange(36, 40) =~= seq!['T', 'R', 'U', 'E']);
    lemma_token_newline(t, 40);
    lemma_token_punct(t, 41);
    lemma_token_newline(t, 42);
    lemma_token_punct(t, 43);
    lemma_token_newline(t, 44);
    lemma_token_punct(t, 45);
}

/// The tokens of `PROTO Test [   field SFBool testVal FALSE ] { }`.
#[verifier::rlimit(60)]
#[verifier::spinoff_prover]
proof fn lemma_false_field_tokens(t: Seq<char>)
    requires
        t == "PROTO Test [\n  field SFBool testVal FALSE\n]\n{\n}"@,
    ensures
        t.len() == 47,
        token_at(t, 0) == (KindV::Proto, 5int),
        token_at(t, 5) == (KindV::Whitespace(t.subrange(5, 6)), 6int),
        token_at(t, 6) == (KindV::Identifier(seq!['T', 'e', 's', 't']), 10int),
        token_at(t, 10) == (KindV::Whitespace(t.subrange(10, 11)), 11int),
        token_at(t, 11) == (KindV::OpenBracket, 12int),
        token_at(t, 12) == (KindV::Newline(t.subrange(12, 13)), 13int),
        token_at(t, 13) == (KindV::Whitespace(t.subrange(13, 15)), 15int),
        token_at(t, 15) == (KindV::Field, 20int),
        token_at(t, 20) == (KindV::Whitespace(t.subrange(20, 21)), 21int),
        token_at(t, 21) == (KindV::Identifier(seq!['S', 'F', 'B', 'o', 'o', 'l']), 27int),
        token_at(t, 27) == (KindV::Whitespace(t.subrange(27, 28)), 28int),
        token_at(t, 28) == (KindV::Identifier(seq!['t', 'e', 's', 't', 'V', 'a', 'l']), 35int),
        token_at(t, 35) == (KindV::Whitespace(t.subrange(35, 36)), 36int),
        token_at(t, 36) == (KindV::False, 41int),
        token_at(t, 41) == (KindV::Newline(t.subrange(41, 42)), 42int),
        token_at(t, 42) == (KindV::CloseBracket, 43int),
        token_at(t, 43) == (KindV::Newline(t.subrange(43, 44)), 44int),
        token_at(t, 44) == (KindV::OpenBrace, 45int),
        token_at(t, 45) == (KindV::Newline(t.subrange(45, 46)), 46int),
        token_at(t, 46) == (KindV::CloseBrace, 47int),
{
    reveal_strlit("PROTO Test [\n  field SFBool testVal FALSE\n]\n{\n}");
    assert(t.len() == 47);
    assert forall|k: int| 0 <= k < 5 implies #[trigger] ident_char(t[k]) by { if k == 0 {} else if k == 1 {} else if k == 2 {} else if k == 3 {} else {} }
    lemma_token_word(t, 0, 5);
    assert(t.subrange(0, 5) =~= seq!['P', 'R', 'O', 'T', 'O']);
    assert forall|k: int| 5 <= k < 6 implies #[trigger] t[k] == ' ' by {  }
    lemma_token_spaces(t, 5, 6);
    assert forall|k: int| 6 <= k < 10 implies #[trigger] ident_char(t[k]) by { if k == 6 {} else if k == 7 {} else if k == 8 {} else {} }
    assert(t.subrange(6, 10)[0] != seq!['N', 'U', 'L', 'L'][0]);
    assert(t.subrange(6, 10)[1] != seq!['T', 'R', 'U', 'E'][1]);
    lemma_token_word(t, 6, 10);
    assert(t.subrange(6, 10) =~= seq!['T', 'e', 's', 't']);
    assert forall|k: int| 10 <= k < 11 implies #[trigger] t[k] == ' ' by {  }
    lemma_token_spaces(t, 10, 11);
    lemma_token_punct(t, 11);
    lemma_token_newline(t, 12);
    assert forall|k: int| 13 <= k < 15 implies #[trigger] t[k] == ' ' by { if k == 13 {} else {} }
    lemma_token_spaces(t, 13, 15);
    assert forall|k: int| 15 <= k < 20 implies #[trigger] ident_char(t[k]) by { if k == 15 {} else if k == 16 {} else if k == 17 {} else if k == 18 {} else {} }
    assert(t.subrange(15, 20)[0] != seq!['P', 'R', 'O', 'T', 'O'][0]);
    lemma_token_word(t, 15, 20);
    assert(t.subrange(15, 20) =~= seq!['f', 'i', 'e', 'l', 'd']);
    assert forall|k: int| 20 <= k < 21 implies #[trigger] t[k] == ' ' by {  }
    lemma_token_spaces(t, 20, 21);
    assert forall|k: int| 21 <= k < 27 implies #[trigger] ident_char(t[k]) by { if k == 21 {} else if k == 22 {} else if k == 23 {} else if k == 24 {} else if k == 25 {} else {} }
    lemma_token_word(t, 21, 27);
    assert(t.subrange(21, 27) =~= seq!['S', 'F', 'B', 'o', 'o', 'l']);
    assert forall|k: int| 27 <= k < 28 implies #[trigger] t[k] == ' ' by {  }
    lemma_token_spaces(t, 27, 28);
    assert forall|k: int| 28 <= k < 35 implies #[trigger] ident_char(t[k]) by { if k == 28 {} else if k == 29 {} else if k == 30 {} else if k == 31 {} else if k == 32 {} else if k == 33 {} else {} }
    lemma_token_word(t, 28, 35);
    assert(t.subrange(28, 35) =~= seq!['t', 'e', 's', 't', 'V', 'a', 'l']);
    assert forall|k: int| 35 <= k < 36 implies #[trigger] t[k] == ' ' by {  }
    lemma_token_spaces(t, 35, 36);
    assert forall|k: int| 36 <= k < 41 implies #[trigger] ident_char(t[k]) by { if k == 36 {} else if k == 37 {} else if k == 38 {} else if k == 39 {} else {} }
    assert(t.subrange(36, 41)[0] != seq!['P', 'R', 'O', 'T', 'O'][0]);
    assert(t.subrange(36, 41)[0] != seq!['f', 'i', 'e', 'l', 'd'][0]);
    lemma_token_word(t, 36, 41);
    assert(t.subrange(36, 41) =~= seq!['F', 'A', 'L', 'S', 'E']);
    lemma_token_newline(t, 41);
    lemma_token_punct(t, 42);
    lemma_token_newline(t, 43);
    lemma_token_punct(t, 44);
    lemma_token_newline(t, 45);
    lemma_token_punct(t, 46);
}

/// The tokens of `PROTO Test [ field SFString testVal "s" ] { }`.
#[verifier::rlimit(60)]
#[verifier::spinoff_prover]
proof fn lemma_string_field_tokens(t: Seq<char>, s: Seq<char>)
    requires
        t == "PROTO Test [\n  field SFString testVal "@ + seq!['"'] + s + seq!['"'] + "\n]\n{\n}"@,
        simple_text(s),
    ensures
        t.len() == 38 + s.len() as int + 8,
        token_at(t, 0) == (KindV::Proto, 5int),
        token_at(t, 5) == (KindV::Whitespace(t.subrange(5, 6)), 6int),
        token_at(t, 6) == (KindV::Identifier(seq!['T', 'e', 's', 't']), 10int),
        token_at(t, 10) == (KindV::Whitespace(t.subrange(10, 11)), 11int),
        token_at(t, 11) == (KindV::OpenBracket, 12int),
        token_at(t, 12) == (KindV::Newline(t.subrange(12, 13)), 13int),
        token_at(t, 13) == (KindV::Whitespace(t.subrange(13, 15)), 15int),
        token_at(t, 15) == (KindV::Field, 20int),
        token_at(t, 20) == (KindV::Whitespace(t.subrange(20, 21)), 21int),
        token_at(t, 21) == (KindV::Identifier(seq!['S', 'F', 'S', 't', 'r', 'i', 'n', 'g']), 29int),
        token_at(t, 29) == (KindV::Whitespace(t.subrange(29, 30)), 30int),
        token_at(t, 30) == (KindV::Identifier(seq!['t', 'e', 's', 't', 'V', 'a', 'l']), 37int),
        token_at(t, 37) == (KindV::Whitespace(t.subrange(37, 38)), 38int),
        token_at(t, 38) == (KindV::Str(s), 38 + s.len() as int + 2),
        token_at(t, 38 + s.len() as int + 2) == (KindV::Newline(t.subrange(38 + s.len() as int + 2, 38 + s.len() as int + 3)), 38 + s.len() as int + 3),
        token_at(t, 38 + s.len() as int + 3) == (KindV::CloseBracket, 38 + s.len() as int + 4),
        token_at(t, 38 + s.len() as int + 4) == (KindV::Newline(t.subrange(38 + s.len() as int + 4, 38 + s.len() as int + 5)), 38 + s.len() as int + 5),
        token_at(t, 38 + s.len() as int + 5) == (KindV::OpenBrace, 38 + s.len() as int + 6),
        token_at(t, 38 + s.len() as int + 6) == (KindV::Newline(t.subrange(38 + s.len() as int + 6, 38 + s.len() as int + 7)), 38 + s.len() as int + 7),
        token_at(t, 38 + s.len() as int + 7) == (KindV::CloseBrace, 38 + s.len() as int + 8),
{
    reveal_strlit("PROTO Test [\n  field SFString testVal ");
    reveal_strlit("\n]\n{\n}");
    let n = s.len() as int;
    assert(t.len() == 38 + n + 8);
    assert forall|k: int| 0 <= k < 5 implies #[trigger] ident_char(t[k]) by { if k == 0 {} else if k == 1 {} else if k == 2 {} else if k == 3 {} else {} }
    lemma_token_word(t, 0, 5);
    assert(t.subrange(0, 5) =~= seq!['P', 'R', 'O', 'T', 'O']);
    assert forall|k: int| 5 <= k < 6 implies #[trigger] t[k] == ' ' by {  }
    lemma_token_spaces(t, 5, 6);
    assert forall|k: int| 6 <= k < 10 implies #[trigger] ident_char(t[k]) by { if k == 6 {} else if k == 7 {} else if k == 8 {} else {} }
    assert(t.subrange(6, 10)[0] != seq!['N', 'U', 'L', 'L'][0]);
    assert(t.subrange(6, 10)[1] != seq!['T', 'R', 'U', 'E'][1]);
    lemma_token_word(t, 6, 10);
    assert(t.subrange(6, 10) =~= seq!['T', 'e', 's', 't']);
    assert forall|k: int| 10 <= k < 11 implies #[trigger] t[k] == ' ' by {  }
    lemma_token_spaces(t, 10, 11);
    lemma_token_punct(t, 11);
    lemma_token_newline(t, 12);
    assert forall|k: int| 13 <= k < 15 implies #[trigger] t[k] == ' ' by { if k == 13 {} else {} }
    lemma_token_spaces(t, 13, 15);
    assert forall|k: int| 15 <= k < 20 implies #[trigger] ident_char(t[k]) by { if k == 15 {} else if k == 16 {} else if k == 17 {} else if k == 18 {} else {} }
    assert(t.subrange(15, 20)[0] != seq!['P', 'R', 'O', 'T', 'O'][0]);
    lemma_token_word(t, 15, 20);
    assert(t.subrange(15, 20) =~= seq!['f', 'i', 'e', 'l', 'd']);
    assert forall|k: int| 20 <= k < 21 implies #[trigger] t[k] == ' ' by {  }
    lemma_token_spaces(t, 20, 21);
    assert forall|k: int| 21 <= k < 29 implies #[trigger] ident_char(t[k]) by { if k == 21 {} else if k == 22 {} else if k == 23 {} else if k == 24 {} else if k == 25 {} else if k == 26 {} else if k == 27 {} else {} }
    lemma_token_word(t, 21, 29);
    assert(t.subrange(21, 29) =~= seq!['S', 'F', 'S', 't', 'r', 'i', 'n', 'g']);
    assert forall|k: int| 29 <= k < 30 implies #[trigger] t[k] == ' ' by {  }
    lemma_token_spaces(t, 29, 30);
    assert forall|k: int| 30 <= k < 37 implies #[trigger] ident_char(t[k]) by { if k == 30 {} else if k == 31 {} else if k == 32 {} else if k == 33 {} else if k == 34 {} else if k == 35 {} else {} }
    lemma_token_word(t, 30, 37);
    assert(t.subrange(30, 37) =~= seq!['t', 'e', 's', 't', 'V', 'a', 'l']);
    assert forall|k: int| 37 <= k < 38 implies #[trigger] t[k] == ' ' by {  }
    lemma_token_spaces(t, 37, 38);
    assert(t[38] == '"');
    assert(t[38 + n + 1] == '"');
    assert forall|k: int| 38 + 1 <= k < 38 + 1 + n implies #[trigger] t[k] != '"' && t[k] != '\\' by {
        assert(t[k] == s[k - 38 - 1]);
    }
    lemma_token_string(t, 38, n);
    assert(t.subrange(39int, 39 + n) =~= s);
    assert(t[38 + n + 2] == '\n');
    assert(t[38 + n + 3] == ']');
    assert(t[38 + n + 4] == '\n');
    assert(t[38 + n + 5] == '{');
    assert(t[38 + n + 6] == '\n');
    assert(t[38 + n + 7] == '}');
    lemma_token_newline(t, 38 + n + 2);
    lemma_token_punct(t, 38 + n + 3);
    lemma_token_newline(t, 38 + n + 4);
    lemma_token_punct(t, 38 + n + 5);
    lemma_token_newline(t, 38 + n + 6);
    lemma_token_punct(t, 38 + n + 7);
}

#[verifier::rlimit(60)]
#[verifier::spinoff_prover]
proof fn lemma_true_field_document(t: Seq<char>)
    requires
        t == "PROTO Test [\n  field SFBool testVal TRUE\n]\n{\n}"@,
    ensures
        reads_back_field(t, "SFBool"@, ValueV::Bool(true)),
{
    lemma_true_field_tokens(t);
    let end = 46;
    let eof = (KindV::Eof, span_between(t, end, end));
    assert(lex_from(t, end) == seq![eof]);
    lemma_significant_prepend(eof, Seq::empty());
    assert(seq![eof] + Seq::<(KindV, Span)>::empty() =~= seq![eof]);
    let a0 = (KindV::Proto, span_between(t, 0, 5));
    let a1 = (KindV::Whitespace(t.subrange(5, 6)), span_between(t, 5, 6));
    let a2 = (KindV::Identifier(seq!['T', 'e', 's', 't']), span_between(t, 6, 10));
    let a3 = (KindV::Whitespace(t.subrange(10, 11)), span_between(t, 10, 11));
    let a4 = (KindV::OpenBracket, span_between(t, 11, 12));
    let a5 = (KindV::Newline(t.subrange(12, 13)), span_between(t, 12, 13));
    let a6 = (KindV::Whitespace(t.subrange(13, 15)), span_between(t, 13, 15));
    let a7 = (KindV::Field, span_between(t, 15, 20));
    let a8 = (KindV::Whitespace(t.subrange(20, 21)), span_between(t, 20, 21));
    let a9 = (KindV::Identifier(seq!['S', 'F', 'B', 'o', 'o', 'l']), span_between(t, 21, 27));
    let a10 = (KindV::Whitespace(t.subrange(27, 28)), span_between(t, 27, 28));
    let a11 = (KindV::Identifier(seq!['t', 'e', 's', 't', 'V', 'a', 'l']), span_between(t, 28, 35));
    let a12 = (KindV::Whitespace(t.subrange(35, 36)), span_between(t, 35, 36));
    let a13 = (KindV::True, span_between(t, 36, 40));
    let a14 = (KindV::Newline(t.subrange(40, 41)), span_between(t, 40, 41));
    let a15 = (KindV::CloseBracket, span_between(t, 41, 42));
    let a16 = (KindV::Newline(t.subrange(42, 43)), span_between(t, 42, 43));
    let a17 = (KindV::OpenBrace, span_between(t, 43, 44));
    let a18 = (KindV::Newline(t.subrange(44, 45)), span_between(t, 44, 45));
    let a19 = (KindV::CloseBrace, span_between(t, 45, 46));
    lemma_lex_step(t, 45);
    lemma_lex_step(t, 44);
    lemma_lex_step(t, 43);
    lemma_lex_step(t, 42);
    lemma_lex_step(t, 41);
    lemma_lex_step(t, 40);
    lemma_lex_step(t, 36);
    lemma_lex_step(t, 35);
    lemma_lex_step(t, 28);
    lemma_lex_step(t, 27);
    lemma_lex_step(t, 21);
    lemma_lex_step(t, 20);
    lemma_lex_step(t, 15);
    lemma_lex_step(t, 13);
    lemma_lex_step(t, 12);
    lemma_lex_step(t, 11);
    lemma_lex_step(t, 10);
    lemma_lex_step(t, 6);
    lemma_lex_step(t, 5);
    lemma_lex_step(t, 0);
    lemma_significant_prepend(a19, seq![eof]);
    lemma_significant_prepend(a18, seq![a19] + (seq![eof]));
    lemma_significant_prepend(a17, seq![a18] + (seq![a19] + (seq![eof])));
    lemma_significant_prepend(a16, seq![a17] + (seq![a18] + (seq![a19] + (seq![eof]))));
    lemma_significant_prepend(a15, seq![a16] + (seq![a17] + (seq![a18] + (seq![a19] + (seq![eof])))));
    lemma_significant_prepend(a14, seq![a15] + (seq![a16] + (seq![a17] + (seq![a18] + (seq![a19] + (seq![eof]))))));
    lemma_significant_prepend(a13, seq![a14] + (seq![a15] + (seq![a16] + (seq![a17] + (seq![a18] + (seq![a19] + (seq![eof])))))));
    lemma_significant_prepend(a12, seq![a13] + (seq![a14] + (seq![a15] + (seq![a16] + (seq![a17] + (seq![a18] + (seq![a19] + (seq![eof]))))))));
    lemma_significant_prepend(a11, seq![a12] + (seq![a13] + (seq![a14] + (seq![a15] + (seq![a16] + (seq![a17] + (seq![a18] + (seq![a19] + (seq![eof])))))))));
    lemma_significant_prepend(a10, seq![a11] + (seq![a12] + (seq![a13] + (seq![a14] + (seq![a15] + (seq![a16] + (seq![a17] + (seq![a18] + (seq![a19] + (seq![eof]))))))))));
    lemma_significant_prepend(a9, seq![a10] + (seq![a11] + (seq![a12] + (seq![a13] + (seq![a14] + (seq![a15] + (seq![a16] + (seq![a17] + (seq![a18] + (seq![a19] + (seq![eof])))))))))));
    lemma_significant_prepend(a8, seq![a9] + (seq![a10] + (seq![a11] + (seq![a12] + (seq![a13] + (seq![a14] + (seq![a15] + (seq![a16] + (seq![a17] + (seq![a18] + (seq![a19] + (seq![eof]))))))))))));
    lemma_significant_prepend(a7, seq![a8] + (seq![a9] + (seq![a10] + (seq![a11] + (seq![a12] + (seq![a13] + (seq![a14] + (seq![a15] + (seq![a16] + (seq![a17] + (seq![a18] + (seq![a19] + (seq![eof])))))))))))));
    lemma_significant_prepend(a6, seq![a7] + (seq![a8] + (seq![a9] + (seq![a10] + (seq![a11] + (seq![a12] + (seq![a13] + (seq![a14] + (seq![a15] + (seq![a16] + (seq![a17] + (seq![a18] + (seq![a19] + (seq![eof]))))))))))))));
    lemma_significant_prepend(a5, seq![a6] + (seq![a7] + (seq![a8] + (seq![a9] + (seq![a10] + (seq![a11] + (seq![a12] + (seq![a13] + (seq![a14] + (seq![a15] + (seq![a16] + (seq![a17] + (seq![a18] + (seq![a19] + (seq![eof])))))))))))))));
    lemma_significant_prepend(a4, seq![a5] + (seq![a6] + (seq![a7] + (seq![a8] + (seq![a9] + (seq![a10] + (seq![a11] + (seq![a12] + (seq![a13] + (seq![a14] + (seq![a15] + (seq![a16] + (seq![a17] + (seq![a18] + (seq![a19] + (seq![eof]))))))))))))))));
    lemma_significant_prepend(a3, seq![a4] + (seq![a5] + (seq![a6] + (seq![a7] + (seq![a8] + (seq![a9] + (seq![a10] + (seq![a11] + (seq![a12] + (seq![a13] + (seq![a14] + (seq![a15] + (seq![a16] + (seq![a17] + (seq![a18] + (seq![a19] + (seq![eof])))))))))))))))));
    lemma_significant_prepend(a2, seq![a3] + (seq![a4] + (seq![a5] + (seq![a6] + (seq![a7] + (seq![a8] + (seq![a9] + (seq![a10] + (seq![a11] + (seq![a12] + (seq![a13] + (seq![a14] + (seq![a15] + (seq![a16] + (seq![a17] + (seq![a18] + (seq![a19] + (seq![eof]))))))))))))))))));
    lemma_significant_prepend(a1, seq![a2] + (seq![a3] + (seq![a4] + (seq![a5] + (seq![a6] + (seq![a7] + (seq![a8] + (seq![a9] + (seq![a10] + (seq![a11] + (seq![a12] + (seq![a13] + (seq![a14] + (seq![a15] + (seq![a16] + (seq![a17] + (seq![a18] + (seq![a19] + (seq![eof])))))))))))))))))));
    lemma_significant_prepend(a0, seq![a1] + (seq![a2] + (seq![a3] + (seq![a4] + (seq![a5] + (seq![a6] + (seq![a7] + (seq![a8] + (seq![a9] + (seq![a10] + (seq![a11] + (seq![a12] + (seq![a13] + (seq![a14] + (seq![a15] + (seq![a16] + (seq![a17] + (seq![a18] + (seq![a19] + (seq![eof]))))))))))))))))))));
    let ts = significant(lex(t));
    assert(ts =~= seq![a0, a2, a4, a7, a9, a11, a13, a15, a17, a19, eof]);
    reveal_strlit("SFBool");
    assert("SFBool"@ =~= seq!['S', 'F', 'B', 'o', 'o', 'l']);
    lemma_read_single_field(ts, "SFBool"@, ValueV::Bool(true));
    reveal_strlit("PROTO Test [\n  field SFBool testVal TRUE\n]\n{\n}");
    assert(t[0] == 'P');
    lemma_no_header(t);
}

#[verifier::rlimit(60)]
#[verifier::spinoff_prover]
proof fn lemma_false_field_document(t: Seq<char>)
    requires
        t == "PROTO Test [\n  field SFBool testVal FALSE\n]\n{\n}"@,
    ensures
        reads_back_field(t, "SFBool"@, ValueV::Bool(false)),
{
    lemma_false_field_tokens(t);
    let end = 47;
    let eof = (KindV::Eof, span_between(t, end, end));
    assert(lex_from(t, end) == seq![eof]);
    lemma_significant_prepend(eof, Seq::empty());
    assert(seq![eof] + Seq::<(KindV, Span)>::empty() =~= seq![eof]);
    let a0 = (KindV::Proto, span_between(t, 0, 5));
    let a1 = (KindV::Whitespace(t.subrange(5, 6)), span_between(t, 5, 6));
    let a2 = (KindV::Identifier(seq!['T', 'e', 's', 't']), span_between(t, 6, 10));
    let a3 = (KindV::Whitespace(t.subrange(10, 11)), span_between(t, 10, 11));
    let a4 = (KindV::OpenBracket, span_between(t, 11, 12));
    let a5 = (KindV::Newline(t.subrange(12, 13)), span_between(t, 12, 13));
    let a6 = (KindV::Whitespace(t.subrange(13, 15)), span_between(t, 13, 15));
    let a7 = (KindV::Field, span_between(t, 15, 20));
    let a8 = (KindV::Whitespace(t.subrange(20, 21)), span_between(t, 20, 21));
    let a9 = (KindV::Identifier(seq!['S', 'F', 'B', 'o', 'o', 'l']), span_between(t, 21, 27));
    let a10 = (KindV::Whitespace(t.subrange(27, 28)), span_between(t, 27, 28));
    let a11 = (KindV::Identifier(seq!['t', 'e', 's', 't', 'V', 'a', 'l']), span_between(t, 28, 35));
    let a12 = (KindV::Whitespace(t.subrange(35, 36)), span_between(t, 35, 36));
    let a13 = (KindV::False, span_between(t, 36, 41));
    let a14 = (KindV::Newline(t.subrange(41, 42)), span_between(t, 41, 42));
    let a15 = (KindV::CloseBracket, span_between(t, 42, 43));
    let a16 = (KindV::Newline(t.subrange(43, 44)), span_between(t, 43, 44));
    let a17 = (KindV::OpenBrace, span_between(t, 44, 45));
    let a18 = (KindV::Newline(t.subrange(45, 46)), span_between(t, 45, 46));
    let a19 = (KindV::CloseBrace, span_between(t, 46, 47));
    lemma_lex_step(t, 46);
    lemma_lex_step(t, 45);
    lemma_lex_step(t, 44);
    lemma_lex_step(t, 43);
    lemma_lex_step(t, 42);
    lemma_lex_step(t, 41);
    lemma_lex_step(t, 36);
    lemma_lex_step(t, 35);
    lemma_lex_step(t, 28);
    lemma_lex_step(t, 27);
    lemma_lex_step(t, 21);
    lemma_lex_step(t, 20);
    lemma_lex_step(t, 15);
    lemma_lex_step(t, 13);
    lemma_lex_step(t, 12);
    lemma_lex_step(t, 11);
    lemma_lex_step(t, 10);
    lemma_lex_step(t, 6);
    lemma_lex_step(t, 5);
    lemma_lex_step(t, 0);
    lemma_significant_prepend(a19, seq![eof]);
    lemma_significant_prepend(a18, seq![a19] + (seq![eof]));
    lemma_significant_prepend(a17, seq![a18] + (seq![a19] + (seq![eof])));
    lemma_significant_prepend(a16, seq![a17] + (seq![a18] + (seq![a19] + (seq![eof]))));
    lemma_significant_prepend(a15, seq![a16] + (seq![a17] + (seq![a18] + (seq![a19] + (seq![eof])))));
    lemma_significant_prepend(a14, seq![a15] + (seq![a16] + (seq![a17] + (seq![a18] + (seq![a19] + (seq![eof]))))));
    lemma_significant_prepend(a13, seq![a14] + (seq![a15] + (seq![a16] + (seq![a17] + (seq![a18] + (seq![a19] + (seq![eof])))))));
    lemma_significant_prepend(a12, seq![a13] + (seq![a14] + (seq![a15] + (seq![a16] + (seq![a17] + (seq![a18] + (seq![a19] + (seq![eof]))))))));
    lemma_significant_prepend(a11, seq![a12] + (seq![a13] + (seq![a14] + (seq![a15] + (seq![a16] + (seq![a17] + (seq![a18] + (seq![a19] + (seq![eof])))))))));
    lemma_significant_prepend(a10, seq![a11] + (seq![a12] + (seq![a13] + (seq![a14] + (seq![a15] + (seq![a16] + (seq![a17] + (seq![a18] + (seq![a19] + (seq![eof]))))))))));
    lemma_significant_prepend(a9, seq![a10] + (seq![a11] + (seq![a12] + (seq![a13] + (seq![a14] + (seq![a15] + (seq![a16] + (seq![a17] + (seq![a18] + (seq![a19] + (seq![eof])))))))))));
    lemma_significant_prepend(a8, seq![a9] + (seq![a10] + (seq![a11] + (seq![a12] + (seq![a13] + (seq![a14] + (seq![a15] + (seq![a16] + (seq![a17] + (seq![a18] + (seq![a19] + (seq![eof]))))))))))));
    lemma_significant_prepend(a7, seq![a8] + (seq![a9] + (seq![a10] + (seq![a11] + (seq![a12] + (seq![a13] + (seq![a14] + (seq![a15] + (seq![a16] + (seq![a17] + (seq![a18] + (seq![a19] + (seq![eof])))))))))))));
    lemma_significant_prepend(a6, seq![a7] + (seq![a8] + (seq![a9] + (seq![a10] + (seq![a11] + (seq![a12] + (seq![a13] + (seq![a14] + (seq![a15] + (seq![a16] + (seq![a17] + (seq![a18] + (seq![a19] + (seq![eof]))))))))))))));
    lemma_significant_prepend(a5, seq![a6] + (seq![a7] + (seq![a8] + (seq![a9] + (seq![a10] + (seq![a11] + (seq![a12] + (seq![a13] + (seq![a14] + (seq![a15] + (seq![a16] + (seq![a17] + (seq![a18] + (seq![a19] + (seq![eof])))))))))))))));
    lemma_significant_prepend(a4, seq![a5] + (seq![a6] + (seq![a7] + (seq![a8] + (seq![a9] + (seq![a10] + (seq![a11] + (seq![a12] + (seq![a13] + (seq![a14] + (seq![a15] + (seq![a16] + (seq![a17] + (seq![a18] + (seq![a19] + (seq![eof]))))))))))))))));
    lemma_significant_prepend(a3, seq![a4] + (seq![a5] + (seq![a6] + (seq![a7] + (seq![a8] + (seq![a9] + (seq![a10] + (seq![a11] + (seq![a12] + (seq![a13] + (seq![a14] + (seq![a15] + (seq![a16] + (seq![a17] + (seq![a18] + (seq![a19] + (seq![eof])))))))))))))))));
    lemma_significant_prepend(a2, seq![a3] + (seq![a4] + (seq![a5] + (seq![a6] + (seq![a7] + (seq![a8] + (seq![a9] + (seq![a10] + (seq![a11] + (seq![a12] + (seq![a13] + (seq![a14] + (seq![a15] + (seq![a16] + (seq![a17] + (seq![a18] + (seq![a19] + (seq![eof]))))))))))))))))));
    lemma_significant_prepend(a1, seq![a2] + (seq![a3] + (seq![a4] + (seq![a5] + (seq![a6] + (seq![a7] + (seq![a8] + (seq![a9] + (seq![a10] + (seq![a11] + (seq![a12] + (seq![a13] + (seq![a14] + (seq![a15] + (seq![a16] + (seq![a17] + (seq![a18] + (seq![a19] + (seq![eof])))))))))))))))))));
    lemma_significant_prepend(a0, seq![a1] + (seq![a2] + (seq![a3] + (seq![a4] + (seq![a5] + (seq![a6] + (seq![a7] + (seq![a8] + (seq![a9] + (seq![a10] + (seq![a11] + (seq![a12] + (seq![a13] + (seq![a14] + (seq![a15] + (seq![a16] + (seq![a17] + (seq![a18] + (seq![a19] + (seq![eof]))))))))))))))))))));
    let ts = significant(lex(t));
    assert(ts =~= seq![a0, a2, a4, a7, a9, a11, a13, a15, a17, a19, eof]);
    reveal_strlit("SFBool");
    assert("SFBool"@ =~= seq!['S', 'F', 'B', 'o', 'o', 'l']);
    lemma_read_single_field(ts, "SFBool"@, ValueV::Bool(false));
    reveal_strlit("PROTO Test [\n  field SFBool testVal FALSE\n]\n{\n}");
    assert(t[0] == 'P');
    lemma_no_header(t);
}

#[verifier::rlimit(100)]
#[verifier::spinoff_prover]
proof fn lemma_string_field_document(t: Seq<char>, s: Seq<char>)
    requires
        t == "PROTO Test [\n  field SFString testVal "@ + seq!['"'] + s + seq!['"'] + "\n]\n{\n}"@,
        simple_text(s),
    ensures
        reads_back_field(t, "SFString"@, ValueV::String(s)),
{
    lemma_string_field_tokens(t, s);
    let end = 38 + s.len() as int + 8;
    let eof = (KindV::Eof, span_between(t, end, end));
    assert(lex_from(t, end) == seq![eof]);
    lemma_significant_prepend(eof, Seq::empty());
    assert(seq![eof] + Seq::<(KindV, Span)>::empty() =~= seq![eof]);
    let a0 = (KindV::Proto, span_between(t, 0, 5));
    let a1 = (KindV::Whitespace(t.subrange(5, 6)), span_between(t, 5, 6));
    let a2 = (KindV::Identifier(seq!['T', 'e', 's', 't']), span_between(t, 6, 10));
    let a3 = (KindV::Whitespace(t.subrange(10, 11)), span_between(t, 10, 11));
    let a4 = (KindV::OpenBracket, span_between(t, 11, 12));
    let a5 = (KindV::Newline(t.subrange(12, 13)), span_between(t, 12, 13));
    let a6 = (KindV::Whitespace(t.subrange(13, 15)), span_between(t, 13, 15));
    let a7 = (KindV::Field, span_between(t, 15, 20));
    let a8 = (KindV::Whitespace(t.subrange(20, 21)), span_between(t, 20, 21));
    let a9 = (KindV::Identifier(seq!['S', 'F', 'S', 't', 'r', 'i', 'n', 'g']), span_between(t, 21, 29));
    let a10 = (KindV::Whitespace(t.subrange(29, 30)), span_between(t, 29, 30));
    let a11 = (KindV::Identifier(seq!['t', 'e', 's', 't', 'V', 'a', 'l']), span_between(t, 30, 37));
    let a12 = (KindV::Whitespace(t.subrange(37, 38)), span_between(t, 37, 38));
    let a13 = (KindV::Str(s), span_between(t, 38, 38 + s.len() as int + 2));
    let a14 = (KindV::Newline(t.subrange(38 + s.len() as int + 2, 38 + s.len() as int + 3)), span_between(t, 38 + s.len() as int + 2, 38 + s.len() as int + 3));
    let a15 = (KindV::CloseBracket, span_between(t, 38 + s.len() as int + 3, 38 + s.len() as int + 4));
    let a16 = (KindV::Newline(t.subrange(38 + s.len() as int + 4, 38 + s.len() as int + 5)), span_between(t, 38 + s.len() as int + 4, 38 + s.len() as int + 5));
    let a17 = (KindV::OpenBrace, span_between(t, 38 + s.len() as int + 5, 38 + s.len() as int + 6));
    let a18 = (KindV::Newline(t.subrange(38 + s.len() as int + 6, 38 + s.len() as int + 7)), span_between(t, 38 + s.len() as int + 6, 38 + s.len() as int + 7));
    let a19 = (KindV::CloseBrace, span_between(t, 38 + s.len() as int + 7, 38 + s.len() as int + 8));
    lemma_lex_step(t, 38 + s.len() as int + 7);
    lemma_lex_step(t, 38 + s.len() as int + 6);
    lemma_lex_step(t, 38 + s.len() as int + 5);
    lemma_lex_step(t, 38 + s.len() as int + 4);
    lemma_lex_step(t, 38 + s.len() as int + 3);
    lemma_lex_step(t, 38 + s.len() as int + 2);
    lemma_lex_step(t, 38);
    lemma_lex_step(t, 37);
    lemma_lex_step(t, 30);
    lemma_lex_step(t, 29);
    lemma_lex_step(t, 21);
    lemma_lex_step(t, 20);
    lemma_lex_step(t, 15);
    lemma_lex_step(t, 13);
    lemma_lex_step(t, 12);
    lemma_lex_step(t, 11);
    lemma_lex_step(t, 10);
    lemma_lex_step(t, 6);
    lemma_lex_step(t, 5);
    lemma_lex_step(t, 0);
    lemma_significant_prepend(a19, seq![eof]);
    lemma_significant_prepend(a18, seq![a19] + (seq![eof]));
    lemma_significant_prepend(a17, seq![a18] + (seq![a19] + (seq![eof])));
    lemma_significant_prepend(a16, seq![a17] + (seq![a18] + (seq![a19] + (seq![eof]))));
    lemma_significant_prepend(a15, seq![a16] + (seq![a17] + (seq![a18] + (seq![a19] + (seq![eof])))));
    lemma_significant_prepend(a14, seq![a15] + (seq![a16] + (seq![a17] + (seq![a18] + (seq![a19] + (seq![eof]))))));
    lemma_significant_prepend(a13, seq![a14] + (seq![a15] + (seq![a16] + (seq![a17] + (seq![a18] + (seq![a19] + (seq![eof])))))));
    lemma_significant_prepend(a12, seq![a13] + (seq![a14] + (seq![a15] + (seq![a16] + (seq![a17] + (seq![a18] + (seq![a19] + (seq![eof]))))))));
    lemma_significant_prepend(a11, seq![a12] + (seq![a13] + (seq![a14] + (seq![a15] + (seq![a16] + (seq![a17] + (seq![a18] + (seq![a19] + (seq![eof])))))))));
    lemma_significant_prepend(a10, seq![a11] + (seq![a12] + (seq![a13] + (seq![a14] + (seq![a15] + (seq![a16] + (seq![a17] + (seq![a18] + (seq![a19] + (seq![eof]))))))))));
    lemma_significant_prepend(a9, seq![a10] + (seq![a11] + (seq![a12] + (seq![a13] + (seq![a14] + (seq![a15] + (seq![a16] + (seq![a17] + (seq![a18] + (seq![a19] + (seq![eof])))))))))));
    lemma_significant_prepend(a8, seq![a9] + (seq![a10] + (seq![a11] + (seq![a12] + (seq![a13] + (seq![a14] + (seq![a15] + (seq![a16] + (seq![a17] + (seq![a18] + (seq![a19] + (seq![eof]))))))))))));
    lemma_significant_prepend(a7, seq![a8] + (seq![a9] + (seq![a10] + (seq![a11] + (seq![a12] + (seq![a13] + (seq![a14] + (seq![a15] + (seq![a16] + (seq![a17] + (seq![a18] + (seq![a19] + (seq![eof])))))))))))));
    lemma_significant_prepend(a6, seq![a7] + (seq![a8] + (seq![a9] + (seq![a10] + (seq![a11] + (seq![a12] + (seq![a13] + (seq![a14] + (seq![a15] + (seq![a16] + (seq![a17] + (seq![a18] + (seq![a19] + (seq![eof]))))))))))))));
    lemma_significant_prepend(a5, seq![a6] + (seq![a7] + (seq![a8] + (seq![a9] + (seq![a10] + (seq![a11] + (seq![a12] + (seq![a13] + (seq![a14] + (seq![a15] + (seq![a16] + (seq![a17] + (seq![a18] + (seq![a19] + (seq![eof])))))))))))))));
    lemma_significant_prepend(a4, seq![a5] + (seq![a6] + (seq![a7] + (seq![a8] + (seq![a9] + (seq![a10] + (seq![a11] + (seq![a12] + (seq![a13] + (seq![a14] + (seq![a15] + (seq![a16] + (seq![a17] + (seq![a18] + (seq![a19] + (seq![eof]))))))))))))))));
    lemma_significant_prepend(a3, seq![a4] + (seq![a5] + (seq![a6] + (seq![a7] + (seq![a8] + (seq![a9] + (seq![a10] + (seq![a11] + (seq![a12] + (seq![a13] + (seq![a14] + (seq![a15] + (seq![a16] + (seq![a17] + (seq![a18] + (seq![a19] + (seq![eof])))))))))))))))));
    lemma_significant_prepend(a2, seq![a3] + (seq![a4] + (seq![a5] + (seq![a6] + (seq![a7] + (seq![a8] + (seq![a9] + (seq![a10] + (seq![a11] + (seq![a12] + (seq![a13] + (seq![a14] + (seq![a15] + (seq![a16] + (seq![a17] + (seq![a18] + (seq![a19] + (seq![eof]))))))))))))))))));
    lemma_significant_prepend(a1, seq![a2] + (seq![a3] + (seq![a4] + (seq![a5] + (seq![a6] + (seq![a7] + (seq![a8] + (seq![a9] + (seq![a10] + (seq![a11] + (seq![a12] + (seq![a13] + (seq![a14] + (seq![a15] + (seq![a16] + (seq![a17] + (seq![a18] + (seq![a19] + (seq![eof])))))))))))))))))));
    lemma_significant_prepend(a0, seq![a1] + (seq![a2] + (seq![a3] + (seq![a4] + (seq![a5] + (seq![a6] + (seq![a7] + (seq![a8] + (seq![a9] + (seq![a10] + (seq![a11] + (seq![a12] + (seq![a13] + (seq![a14] + (seq![a15] + (seq![a16] + (seq![a17] + (seq![a18] + (seq![a19] + (seq![eof]))))))))))))))))))));
    let ts = significant(lex(t));
    assert(ts =~= seq![a0, a2, a4, a7, a9, a11, a13, a15, a17, a19, eof]);
    reveal_strlit("SFString");
    assert("SFString"@ =~= seq!['S', 'F', 'S', 't', 'r', 'i', 'n', 'g']);
    lemma_read_single_field(ts, "SFString"@, ValueV::String(s));
    reveal_strlit("PROTO Test [\n  field SFString testVal ");
    assert(t[0] == 'P');
    lemma_no_header(t);
}

/// The tokens around the default of `PROTO Test [ field TYPE testVal VALUE ] { }`, for
/// a type name that is an identifier and a default written `w` that starts with no
/// whitespace; the default starts at `30 + ty.len()`.
#[verifier::rlimit(60)]
#[verifier::spinoff_prover]
proof fn lemma_field_frame_tokens(t: Seq<char>, ty: Seq<char>, w: Seq<char>)
    requires
        t == "PROTO Test [\n  field "@ + ty + " testVal "@ + w + "\n]\n{\n}"@,
        ty.len() >= 1,
        ascii_letter(ty[0]),
        forall|j: int| 0 <= j < ty.len() ==> #[trigger] ident_char(ty[j]),
        word_kind(ty) == KindV::Identifier(ty),
        w.len() >= 1,
        !is_ws(w[0]),
    ensures
        ({
            let n = ty.len() as int;
            let m = 30 + n + w.len();
            &&& t.len() == m + 6
            &&& token_at(t, 0) == (KindV::Proto, 5int)
            &&& token_at(t, 5) == (KindV::Whitespace(t.subrange(5, 6)), 6int)
            &&& token_at(t, 6) == (KindV::Identifier(seq!['T', 'e', 's', 't']), 10int)
            &&& token_at(t, 10) == (KindV::Whitespace(t.subrange(10, 11)), 11int)
            &&& token_at(t, 11) == (KindV::OpenBracket, 12int)
            &&& token_at(t, 12) == (KindV::Newline(t.subrange(12, 13)), 13int)
            &&& token_at(t, 13) == (KindV::Whitespace(t.subrange(13, 15)), 15int)
            &&& token_at(t, 15) == (KindV::Field, 20int)
            &&& token_at(t, 20) == (KindV::Whitespace(t.subrange(20, 21)), 21int)
            &&& token_at(t, 21) == (KindV::Identifier(ty), 21 + n)
            &&& token_at(t, 21 + n) == (KindV::Whitespace(t.subrange(21 + n, 22 + n)), 22 + n)
            &&& token_at(t, 22 + n) == (KindV::Identifier(seq!['t', 'e', 's', 't', 'V', 'a', 'l']), 29 + n)
            &&& token_at(t, 29 + n) == (KindV::Whitespace(t.subrange(29 + n, 30 + n)), 30 + n)
            &&& t.subrange(30 + n, m) == w
            &&& t[m] == '\n'
            &&& token_at(t, m) == (KindV::Newline(t.subrange(m, m + 1)), m + 1)
            &&& token_at(t, m + 1) == (KindV::CloseBracket, m + 2)
            &&& token_at(t, m + 2) == (KindV::Newline(t.subrange(m + 2, m + 3)), m + 3)
            &&& token_at(t, m + 3) == (KindV::OpenBrace, m + 4)
            &&& token_at(t, m + 4) == (KindV::Newline(t.subrange(m + 4, m + 5)), m + 5)
            &&& token_at(t, m + 5) == (KindV::CloseBrace, m + 6)
        }),
{
    reveal_strlit("PROTO Test [\n  field ");
    reveal_strlit(" testVal ");
    reveal_strlit("\n]\n{\n}");
    let n = ty.len() as int;
    let m = 30 + n + w.len();
    assert(t.len() == m + 6);
    assert forall|j: int| 0 <= j < 5 implies #[trigger] ident_char(t[j]) by { if j == 0 {} else if j == 1 {} else if j == 2 {} else if j == 3 {} else {} }
    lemma_token_word(t, 0, 5);
    assert(t.subrange(0, 5) =~= seq!['P', 'R', 'O', 'T', 'O']);
    assert forall|j: int| 5 <= j < 6 implies #[trigger] t[j] == ' ' by {  }
    lemma_token_spaces(t, 5, 6);
    assert forall|j: int| 6 <= j < 10 implies #[trigger] ident_char(t[j]) by { if j == 6 {} else if j == 7 {} else if j == 8 {} else {} }
    assert(t.subrange(6, 10)[0] != seq!['N', 'U', 'L', 'L'][0]);
    assert(t.subrange(6, 10)[1] != seq!['T', 'R', 'U', 'E'][1]);
    lemma_token_word(t, 6, 10);
    assert(t.subrange(6, 10) =~= seq!['T', 'e', 's', 't']);
    assert forall|j: int| 10 <= j < 11 implies #[trigger] t[j] == ' ' by {  }
    lemma_token_spaces(t, 10, 11);
    lemma_token_punct(t, 11);
    lemma_token_newline(t, 12);
    assert forall|j: int| 13 <= j < 15 implies #[trigger] t[j] == ' ' by { if j == 13 {} else {} }
    lemma_token_spaces(t, 13, 15);
    assert forall|j: int| 15 <= j < 20 implies #[trigger] ident_char(t[j]) by { if j == 15 {} else if j == 16 {} else if j == 17 {} else if j == 18 {} else {} }
    assert(t.subrange(15, 20)[0] != seq!['P', 'R', 'O', 'T', 'O'][0]);
    lemma_token_word(t, 15, 20);
    assert(t.subrange(15, 20) =~= seq!['f', 'i', 'e', 'l', 'd']);
    assert forall|j: int| 20 <= j < 21 implies #[trigger] t[j] == ' ' by {  }
    lemma_token_spaces(t, 20, 21);
    assert forall|j: int| 21 <= j < 21 + n implies #[trigger] ident_char(t[j]) by {
        assert(t[j] == ty[j - 21]);
    }
    assert(t[21] == ty[0]);
    assert(t[21 + n] == ' ');
    lemma_token_word(t, 21, 21 + n);
    assert(t.subrange(21, 21 + n) =~= ty);
    assert forall|j: int| 21 + n <= j < 22 + n implies #[trigger] t[j] == ' ' by {  }
    assert(t[22 + n] == 't');
    lemma_token_spaces(t, 21 + n, 22 + n);
    assert forall|j: int| 22 + n <= j < 29 + n implies #[trigger] ident_char(t[j]) by {
        let r = j - 22 - n;
        assert(t[j] == " testVal "@[r + 1]);
        if r == 0 {} else if r == 1 {} else if r == 2 {} else if r == 3 {} else if r == 4 {} else if r == 5 {} else {}
    }
    assert(t[29 + n] == ' ');
    lemma_token_word(t, 22 + n, 29 + n);
    assert(t.subrange(22 + n, 29 + n) =~= seq!['t', 'e', 's', 't', 'V', 'a', 'l']);
    assert forall|j: int| 29 + n <= j < 30 + n implies #[trigger] t[j] == ' ' by {  }
    assert(t[30 + n] == w[0]);
    lemma_token_spaces(t, 29 + n, 30 + n);
    assert(t.subrange(30 + n, m) =~= w);
    assert(t[m] == '\n');
    assert(t[m + 1] == ']');
    assert(t[m + 2] == '\n');
    assert(t[m + 3] == '{');
    assert(t[m + 4] == '\n');
    assert(t[m + 5] == '}');
    lemma_token_newline(t, m);
    lemma_token_punct(t, m + 1);
    lemma_token_newline(t, m + 2);
    lemma_token_punct(t, m + 3);
    lemma_token_newline(t, m + 4);
    lemma_token_punct(t, m + 5);
}

/// The significant tokens of a one-field PROTO text up to its default: `PROTO`, `Test`,
/// `[`, `field`, the type name and `testVal`, then those from the default on.
#[verifier::rlimit(60)]
#[verifier::spinoff_prover]
proof fn lemma_frame_significant(t: Seq<char>, ty: Seq<char>, w: Seq<char>)
    requires
        t == "PROTO Test [\n  field "@ + ty + " testVal "@ + w + "\n]\n{\n}"@,
        ty.len() >= 1,
        ascii_letter(ty[0]),
        forall|j: int| 0 <= j < ty.len() ==> #[trigger] ident_char(ty[j]),
        word_kind(ty) == KindV::Identifier(ty),
        w.len() >= 1,
        !is_ws(w[0]),
    ensures
        ({
            let n = ty.len() as int;
            significant(lex(t)) == seq![
                (KindV::Proto, span_between(t, 0, 5)),
                (KindV::Identifier(seq!['T', 'e', 's', 't']), span_between(t, 6, 10)),
                (KindV::OpenBracket, span_between(t, 11, 12)),
                (KindV::Field, span_between(t, 15, 20)),
                (KindV::Identifier(ty), span_between(t, 21, 21 + n)),
                (KindV::Identifier(seq!['t', 'e', 's', 't', 'V', 'a', 'l']), span_between(t, 22 + n, 29 + n)),
            ] + significant(lex_from(t, 30 + n))
        }),
{
    lemma_field_frame_tokens(t, ty, w);
    let n = ty.len() as int;
    let t0 = (KindV::Proto, span_between(t, 0, 5));
    let t1 = (KindV::Whitespace(t.subrange(5, 6)), span_between(t, 5, 6));
    let t2 = (KindV::Identifier(seq!['T', 'e', 's', 't']), span_between(t, 6, 10));
    let t3 = (KindV::Whitespace(t.subrange(10, 11)), span_between(t, 10, 11));
    let t4 = (KindV::OpenBracket, span_between(t, 11, 12));
    let t5 = (KindV::Newline(t.subrange(12, 13)), span_between(t, 12, 13));
    let t6 = (KindV::Whitespace(t.subrange(13, 15)), span_between(t, 13, 15));
    let t7 = (KindV::Field, span_between(t, 15, 20));
    let t8 = (KindV::Whitespace(t.subrange(20, 21)), span_between(t, 20, 21));
    let t9 = (KindV::Identifier(ty), span_between(t, 21, 21 + n));
    let t10 = (KindV::Whitespace(t.subrange(21 + n, 22 + n)), span_between(t, 21 + n, 22 + n));
    let t11 = (KindV::Identifier(seq!['t', 'e', 's', 't', 'V', 'a', 'l']), span_between(t, 22 + n, 29 + n));
    let t12 = (KindV::Whitespace(t.subrange(29 + n, 30 + n)), span_between(t, 29 + n, 30 + n));
    lemma_lex_step(t, 29 + n);
    lemma_significant_prepend(t12, lex_from(t, 30 + n));
    lemma_lex_step(t, 22 + n);
    lemma_significant_prepend(t11, lex_from(t, 29 + n));
    lemma_lex_step(t, 21 + n);
    lemma_significant_prepend(t10, lex_from(t, 22 + n));
    lemma_lex_step(t, 21);
    lemma_significant_prepend(t9, lex_from(t, 21 + n));
    lemma_lex_step(t, 20);
    lemma_significant_prepend(t8, lex_from(t, 21));
    lemma_lex_step(t, 15);
    lemma_significant_prepend(t7, lex_from(t, 20));
    lemma_lex_step(t, 13);
    lemma_significant_prepend(t6, lex_from(t, 15));
    lemma_lex_step(t, 12);
    lemma_significant_prepend(t5, lex_from(t, 13));
    lemma_lex_step(t, 11);
    lemma_significant_prepend(t4, lex_from(t, 12));
    lemma_lex_step(t, 10);
    lemma_significant_prepend(t3, lex_from(t, 11));
    lemma_lex_step(t, 6);
    lemma_significant_prepend(t2, lex_from(t, 10));
    lemma_lex_step(t, 5);
    lemma_significant_prepend(t1, lex_from(t, 6));
    lemma_lex_step(t, 0);
    lemma_significant_prepend(t0, lex_from(t, 5));
    assert(significant(lex(t)) =~= seq![t0, t2, t4, t7, t9, t11] + significant(lex_from(t, 30 + n)));
}

/// The significant tokens of a one-field PROTO text from the end of its default.
#[verifier::rlimit(40)]
proof fn lemma_field_end_significant(t: Seq<char>, ty: Seq<char>, w: Seq<char>)
    requires
        t == "PROTO Test [\n  field "@ + ty + " testVal "@ + w + "\n]\n{\n}"@,
        ty.len() >= 1,
        ascii_letter(ty[0]),
        forall|j: int| 0 <= j < ty.len() ==> #[trigger] ident_char(ty[j]),
        word_kind(ty) == KindV::Identifier(ty),
        w.len() >= 1,
        !is_ws(w[0]),
    ensures
        ({
            let m = 30 + ty.len() + w.len() as int;
            significant(lex_from(t, m)) == seq![
                (KindV::CloseBracket, span_between(t, m + 1, m + 2)),
                (KindV::OpenBrace, span_between(t, m + 3, m + 4)),
                (KindV::CloseBrace, span_between(t, m + 5, m + 6)),
                (KindV::Eof, span_between(t, m + 6, m + 6)),
            ]
        }),
{
    lemma_field_frame_tokens(t, ty, w);
    lemma_suffix_significant(t, 30 + ty.len() + w.len() as int);
}

/// The significant tokens of the end `\n]\n{\n}` of a one-field PROTO text, from `m`.
#[verifier::rlimit(40)]
proof fn lemma_suffix_significant(t: Seq<char>, m: int)
    requires
        0 <= m,
        t.len() == m + 6,
        token_at(t, m) == (KindV::Newline(t.subrange(m, m + 1)), m + 1),
        token_at(t, m + 1) == (KindV::CloseBracket, m + 2),
        token_at(t, m + 2) == (KindV::Newline(t.subrange(m + 2, m + 3)), m + 3),
        token_at(t, m + 3) == (KindV::OpenBrace, m + 4),
        token_at(t, m + 4) == (KindV::Newline(t.subrange(m + 4, m + 5)), m + 5),
        token_at(t, m + 5) == (KindV::CloseBrace, m + 6),
    ensures
        significant(lex_from(t, m)) == seq![
            (KindV::CloseBracket, span_between(t, m + 1, m + 2)),
            (KindV::OpenBrace, span_between(t, m + 3, m + 4)),
            (KindV::CloseBrace, span_between(t, m + 5, m + 6)),
            (KindV::Eof, span_between(t, m + 6, m + 6)),
        ],
{
    let eof = (KindV::Eof, span_between(t, m + 6, m + 6));
    assert(lex_from(t, m + 6) == seq![eof]);
    lemma_significant_prepend(eof, Seq::empty());
    assert(seq![eof] + Seq::<(KindV, Span)>::empty() =~= seq![eof]);
    let t0 = (KindV::Newline(t.subrange(m, m + 1)), span_between(t, m, m + 1));
    let t1 = (KindV::CloseBracket, span_between(t, m + 1, m + 2));
    let t2 = (KindV::Newline(t.subrange(m + 2, m + 3)), span_between(t, m + 2, m + 3));
    let t3 = (KindV::OpenBrace, span_between(t, m + 3, m + 4));
    let t4 = (KindV::Newline(t.subrange(m + 4, m + 5)), span_between(t, m + 4, m + 5));
    let t5 = (KindV::CloseBrace, span_between(t, m + 5, m + 6));
    lemma_lex_step(t, m + 5);
    lemma_significant_prepend(t5, lex_from(t, m + 6));
    lemma_lex_step(t, m + 4);
    lemma_significant_prepend(t4, lex_from(t, m + 5));
    lemma_lex_step(t, m + 3);
    lemma_significant_prepend(t3, lex_from(t, m + 4));
    lemma_lex_step(t, m + 2);
    lemma_significant_prepend(t2, lex_from(t, m + 3));
    lemma_lex_step(t, m + 1);
    lemma_significant_prepend(t1, lex_from(t, m + 2));
    lemma_lex_step(t, m);
    lemma_significant_prepend(t0, lex_from(t, m + 1));
    assert(significant(lex_from(t, m)) =~= seq![t1, t3, t5, eof]);
}

/// The tokens of the one number of a one-field PROTO text's default.
#[verifier::rlimit(60)]
#[verifier::spinoff_prover]
proof fn lemma_numbers1_value_tokens(t: Seq<char>, ty: Seq<char>, a: Seq<Seq<char>>)
    requires
        t == "PROTO Test [\n  field "@ + ty + " testVal "@ + (a[0]) + "\n]\n{\n}"@,
        a.len() == 1,
        forall|i: int| 0 <= i < a.len() ==> number_text(#[trigger] a[i]),
    ensures
        ({
            let n = ty.len() as int;
            let o0 = 30 + n;
            let e0 = o0 + a[0].len();
            &&& e0 == 30 + n + (a[0]).len()
            &&& t.len() == e0 + 6
            &&& o0 < e0
            &&& token_at(t, o0) == (number_token_of(a[0]), e0)
        }),
{
    let w = a[0];
    reveal_strlit("PROTO Test [\n  field ");
    reveal_strlit(" testVal ");
    reveal_strlit("\n]\n{\n}");
    lemma_number_text_start(a[0]);
    let n = ty.len() as int;
    let m = 30 + n + w.len();
    assert(t.subrange(30 + n, m) =~= w);
    assert(t[m] == '\n');
    let o0 = 30 + n;
    let e0 = o0 + a[0].len();
    assert(e0 == m);
    assert(t.subrange(o0, e0) =~= a[0]) by {
        assert forall|k: int| 0 <= k < a[0].len() implies t.subrange(o0, e0)[k] == a[0][k] by {
            assert(t.subrange(o0, m)[o0 - o0 + k] == w[o0 - o0 + k]);
        }
    }
    lemma_number_in(t, o0, a[0]);
}

/// The tokens of the two numbers of a one-field PROTO text's default.
#[verifier::rlimit(60)]
#[verifier::spinoff_prover]
proof fn lemma_numbers2_value_tokens(t: Seq<char>, ty: Seq<char>, a: Seq<Seq<char>>)
    requires
        t == "PROTO Test [\n  field "@ + ty + " testVal "@ + (a[0] + seq![' '] + a[1]) + "\n]\n{\n}"@,
        a.len() == 2,
        forall|i: int| 0 <= i < a.len() ==> number_text(#[trigger] a[i]),
    ensures
        ({
            let n = ty.len() as int;
            let o0 = 30 + n;
            let e0 = o0 + a[0].len();
            let o1 = e0 + 1;
            let e1 = o1 + a[1].len();
            &&& e1 == 30 + n + (a[0] + seq![' '] + a[1]).len()
            &&& t.len() == e1 + 6
            &&& o0 < e0
            &&& o1 < e1
            &&& token_at(t, o0) == (number_token_of(a[0]), e0)
            &&& token_at(t, e0) == (KindV::Whitespace(t.subrange(e0, o1)), o1)
            &&& token_at(t, o1) == (number_token_of(a[1]), e1)
        }),
{
    let w = a[0] + seq![' '] + a[1];
    reveal_strlit("PROTO Test [\n  field ");
    reveal_strlit(" testVal ");
    reveal_strlit("\n]\n{\n}");
    lemma_number_text_start(a[0]);
    lemma_number_text_start(a[1]);
    let n = ty.len() as int;
    let m = 30 + n + w.len();
    assert(t.subrange(30 + n, m) =~= w);
    assert(t[m] == '\n');
    let o0 = 30 + n;
    let e0 = o0 + a[0].len();
    let o1 = e0 + 1;
    let e1 = o1 + a[1].len();
    assert(e1 == m);
    assert(t.subrange(o0, e0) =~= a[0]) by {
        assert forall|k: int| 0 <= k < a[0].len() implies t.subrange(o0, e0)[k] == a[0][k] by {
            assert(t.subrange(o0, m)[o0 - o0 + k] == w[o0 - o0 + k]);
        }
    }
    assert(t[e0] == ' ') by { assert(t.subrange(o0, m)[e0 - o0] == w[e0 - o0]); }
    assert(t[o1] == a[1][0]) by { assert(t.subrange(o0, m)[o1 - o0] == w[o1 - o0]); }
    lemma_number_in(t, o0, a[0]);
    assert forall|j: int| e0 <= j < o1 implies #[trigger] t[j] == ' ' by { }
    lemma_token_spaces(t, e0, o1);
    assert(t.subrange(o1, e1) =~= a[1]) by {
        assert forall|k: int| 0 <= k < a[1].len() implies t.subrange(o1, e1)[k] == a[1][k] by {
            assert(t.subrange(o0, m)[o1 - o0 + k] == w[o1 - o0 + k]);
        }
    }
    lemma_number_in(t, o1, a[1]);
}

/// The tokens of the three numbers of a one-field PROTO text's default.
#[verifier::rlimit(60)]
#[verifier::spinoff_prover]
proof fn lemma_numbers3_value_tokens(t: Seq<char>, ty: Seq<char>, a: Seq<Seq<char>>)
    requires
        t == "PROTO Test [\n  field "@ + ty + " testVal "@ + (a[0] + seq![' '] + a[1] + seq![' '] + a[2]) + "\n]\n{\n}"@,
        a.len() == 3,
        forall|i: int| 0 <= i < a.len() ==> number_text(#[trigger] a[i]),
    ensures
        ({
            let n = ty.len() as int;
            let o0 = 30 + n;
            let e0 = o0 + a[0].len();
            let o1 = e0 + 1;
            let e1 = o1 + a[1].len();
            let o2 = e1 + 1;
            let e2 = o2 + a[2].len();
            &&& e2 == 30 + n + (a[0] + seq![' '] + a[1] + seq![' '] + a[2]).len()
            &&& t.len() == e2 + 6
            &&& o0 < e0
            &&& o1 < e1
            &&& o2 < e2
            &&& token_at(t, o0) == (number_token_of(a[0]), e0)
            &&& token_at(t, e0) == (KindV::Whitespace(t.subrange(e0, o1)), o1)
            &&& token_at(t, o1) == (number_token_of(a[1]), e1)
            &&& token_at(t, e1) == (KindV::Whitespace(t.subrange(e1, o2)), o2)
            &&& token_at(t, o2) == (number_token_of(a[2]), e2)
        }),
{
    let w = a[0] + seq![' '] + a[1] + seq![' '] + a[2];
    reveal_strlit("PROTO Test [\n  field ");
    reveal_strlit(" testVal ");
    reveal_strlit("\n]\n{\n}");
    lemma_number_text_start(a[0]);
    lemma_number_text_start(a[1]);
    lemma_number_text_start(a[2]);
    let n = ty.len() as int;
    let m = 30 + n + w.len();
    assert(t.subrange(30 + n, m) =~= w);
    assert(t[m] == '\n');
    let o0 = 30 + n;
    let e0 = o0 + a[0].len();
    let o1 = e0 + 1;
    let e1 = o1 + a[1].len();
    let o2 = e1 + 1;
    let e2 = o2 + a[2].len();
    assert(e2 == m);
    assert(t.subrange(o0, e0) =~= a[0]) by {
        assert forall|k: int| 0 <= k < a[0].len() implies t.subrange(o0, e0)[k] == a[0][k] by {
            assert(t.subrange(o0, m)[o0 - o0 + k] == w[o0 - o0 + k]);
        }
    }
    assert(t[e0] == ' ') by { assert(t.subrange(o0, m)[e0 - o0] == w[e0 - o0]); }
    assert(t[o1] == a[1][0]) by { assert(t.subrange(o0, m)[o1 - o0] == w[o1 - o0]); }
    lemma_number_in(t, o0, a[0]);
    assert forall|j: int| e0 <= j < o1 implies #[trigger] t[j] == ' ' by { }
    lemma_token_spaces(t, e0, o1);
    assert(t.subrange(o1, e1) =~= a[1]) by {
        assert forall|k: int| 0 <= k < a[1].len() implies t.subrange(o1, e1)[k] == a[1][k] by {
            assert(t.subrange(o0, m)[o1 - o0 + k] == w[o1 - o0 + k]);
        }
    }
    assert(t[e1] == ' ') by { assert(t.subrange(o0, m)[e1 - o0] == w[e1 - o0]); }
    assert(t[o2] == a[2][0]) by { assert(t.subrange(o0, m)[o2 - o0] == w[o2 - o0]); }
    lemma_number_in(t, o1, a[1]);
    assert forall|j: int| e1 <= j < o2 implies #[trigger] t[j] == ' ' by { }
    lemma_token_spaces(t, e1, o2);
    assert(t.subrange(o2, e2) =~= a[2]) by {
        assert forall|k: int| 0 <= k < a[2].len() implies t.subrange(o2, e2)[k] == a[2][k] by {
            assert(t.subrange(o0, m)[o2 - o0 + k] == w[o2 - o0 + k]);
        }
    }
    lemma_number_in(t, o2, a[2]);
}

/// The tokens of the four numbers of a one-field PROTO text's default.
#[verifier::rlimit(60)]
#[verifier::spinoff_prover]
proof fn lemma_numbers4_value_tokens(t: Seq<char>, ty: Seq<char>, a: Seq<Seq<char>>)
    requires
        t == "PROTO Test [\n  field "@ + ty + " testVal "@ + (a[0] + seq![' '] + a[1] + seq![' '] + a[2] + seq![' '] + a[3]) + "\n]\n{\n}"@,
        a.len() == 4,
        forall|i: int| 0 <= i < a.len() ==> number_text(#[trigger] a[i]),
    ensures
        ({
            let n = ty.len() as int;
            let o0 = 30 + n;
            let e0 = o0 + a[0].len();
            let o1 = e0 + 1;
            let e1 = o1 + a[1].len();
            let o2 = e1 + 1;
            let e2 = o2 + a[2].len();
            let o3 = e2 + 1;
            let e3 = o3 + a[3].len();
            &&& e3 == 30 + n + (a[0] + seq![' '] + a[1] + seq![' '] + a[2] + seq![' '] + a[3]).len()
            &&& t.len() == e3 + 6
            &&& o0 < e0
            &&& o1 < e1
            &&& o2 < e2
            &&& o3 < e3
            &&& token_at(t, o0) == (number_token_of(a[0]), e0)
            &&& token_at(t, e0) == (KindV::Whitespace(t.subrange(e0, o1)), o1)
            &&& token_at(t, o1) == (number_token_of(a[1]), e1)
            &&& token_at(t, e1) == (KindV::Whitespace(t.subrange(e1, o2)), o2)
            &&& token_at(t, o2) == (number_token_of(a[2]), e2)
            &&& token_at(t, e2) == (KindV::Whitespace(t.subrange(e2, o3)), o3)
            &&& token_at(t, o3) == (number_token_of(a[3]), e3)
        }),
{
    let w = a[0] + seq![' '] + a[1] + seq![' '] + a[2] + seq![' '] + a[3];
    reveal_strlit("PROTO Test [\n  field ");
    reveal_strlit(" testVal ");
    reveal_strlit("\n]\n{\n}");
    lemma_number_text_start(a[0]);
    lemma_number_text_start(a[1]);
    lemma_number_text_start(a[2]);
    lemma_number_text_start(a[3]);
    let n = ty.len() as int;
    let m = 30 + n + w.len();
    assert(t.subrange(30 + n, m) =~= w);
    assert(t[m] == '\n');
    let o0 = 30 + n;
    let e0 = o0 + a[0].len();
    let o1 = e0 + 1;
    let e1 = o1 + a[1].len();
    let o2 = e1 + 1;
    let e2 = o2 + a[2].len();
    let o3 = e2 + 1;
    let e3 = o3 + a[3].len();
    assert(e3 == m);
    assert(t.subrange(o0, e0) =~= a[0]) by {
        assert forall|k: int| 0 <= k < a[0].len() implies t.subrange(o0, e0)[k] == a[0][k] by {
            assert(t.subrange(o0, m)[o0 - o0 + k] == w[o0 - o0 + k]);
        }
    }
    assert(t[e0] == ' ') by { assert(t.subrange(o0, m)[e0 - o0] == w[e0 - o0]); }
    assert(t[o1] == a[1][0]) by { assert(t.subrange(o0, m)[o1 - o0] == w[o1 - o0]); }
    lemma_number_in(t, o0, a[0]);
    assert forall|j: int| e0 <= j < o1 implies #[trigger] t[j] == ' ' by { }
    lemma_token_spaces(t, e0, o1);
    assert(t.subrange(o1, e1) =~= a[1]) by {
        assert forall|k: int| 0 <= k < a[1].len() implies t.subrange(o1, e1)[k] == a[1][k] by {
            assert(t.subrange(o0, m)[o1 - o0 + k] == w[o1 - o0 + k]);
        }
    }
    assert(t[e1] == ' ') by { assert(t.subrange(o0, m)[e1 - o0] == w[e1 - o0]); }
    assert(t[o2] == a[2][0]) by { assert(t.subrange(o0, m)[o2 - o0] == w[o2 - o0]); }
    lemma_number_in(t, o1, a[1]);
    assert forall|j: int| e1 <= j < o2 implies #[trigger] t[j] == ' ' by { }
    lemma_token_spaces(t, e1, o2);
    assert(t.subrange(o2, e2) =~= a[2]) by {
        assert forall|k: int| 0 <= k < a[2].len() implies t.subrange(o2, e2)[k] == a[2][k] by {
            assert(t.subrange(o0, m)[o2 - o0 + k] == w[o2 - o0 + k]);
        }
    }
    assert(t[e2] == ' ') by { assert(t.subrange(o0, m)[e2 - o0] == w[e2 - o0]); }
    assert(t[o3] == a[3][0]) by { assert(t.subrange(o0, m)[o3 - o0] == w[o3 - o0]); }
    lemma_number_in(t, o2, a[2]);
    assert forall|j: int| e2 <= j < o3 implies #[trigger] t[j] == ' ' by { }
    lemma_token_spaces(t, e2, o3);
    assert(t.subrange(o3, e3) =~= a[3]) by {
        assert forall|k: int| 0 <= k < a[3].len() implies t.subrange(o3, e3)[k] == a[3][k] by {
            assert(t.subrange(o0, m)[o3 - o0 + k] == w[o3 - o0 + k]);
        }
    }
    lemma_number_in(t, o3, a[3]);
}

/// The significant tokens from the default of a one-field PROTO text whose default is
/// one number: the number tokens, then those after the default.
#[verifier::rlimit(60)]
#[verifier::spinoff_prover]
proof fn lemma_numbers1_significant(t: Seq<char>, ty: Seq<char>, a: Seq<Seq<char>>)
    requires
        t == "PROTO Test [\n  field "@ + ty + " testVal "@ + (a[0]) + "\n]\n{\n}"@,
        a.len() == 1,
        forall|i: int| 0 <= i < a.len() ==> number_text(#[trigger] a[i]),
    ensures
        ({
            let n = ty.len() as int;
            let o0 = 30 + n;
            let e0 = o0 + a[0].len();
            significant(lex_from(t, o0)) == seq![(number_token_of(a[0]), span_between(t, o0, e0))] + significant(lex_from(t, e0))
        }),
{
    lemma_numbers1_value_tokens(t, ty, a);
    let n = ty.len() as int;
    let o0 = 30 + n;
    let e0 = o0 + a[0].len();
    let v0 = (number_token_of(a[0]), span_between(t, o0, e0));
    lemma_lex_step(t, o0);
    lemma_significant_prepend(v0, lex_from(t, e0));
    assert(significant(lex_from(t, o0)) =~= seq![v0] + significant(lex_from(t, e0)));
}

/// The significant tokens of a one-field PROTO text whose default is one number.
#[verifier::rlimit(100)]
#[verifier::spinoff_prover]
proof fn lemma_numbers1_document_tokens(t: Seq<char>, ty: Seq<char>, a: Seq<Seq<char>>)
    requires
        t == "PROTO Test [\n  field "@ + ty + " testVal "@ + (a[0]) + "\n]\n{\n}"@,
        a.len() == 1,
        forall|i: int| 0 <= i < a.len() ==> number_text(#[trigger] a[i]),
        ty.len() >= 1,
        ascii_letter(ty[0]),
        forall|j: int| 0 <= j < ty.len() ==> #[trigger] ident_char(ty[j]),
        word_kind(ty) == KindV::Identifier(ty),
    ensures
        ({
            let n = ty.len() as int;
            let o0 = 30 + n;
            let e0 = o0 + a[0].len();
            let m = e0;
            significant(lex(t)) == seq![(KindV::Proto, span_between(t, 0, 5)), (KindV::Identifier(seq!['T', 'e', 's', 't']), span_between(t, 6, 10)), (KindV::OpenBracket, span_between(t, 11, 12)), (KindV::Field, span_between(t, 15, 20)), (KindV::Identifier(ty), span_between(t, 21, 21 + n)), (KindV::Identifier(seq!['t', 'e', 's', 't', 'V', 'a', 'l']), span_between(t, 22 + n, 29 + n)), (number_token_of(a[0]), span_between(t, o0, e0)), (KindV::CloseBracket, span_between(t, m + 1, m + 2)), (KindV::OpenBrace, span_between(t, m + 3, m + 4)), (KindV::CloseBrace, span_between(t, m + 5, m + 6)), (KindV::Eof, span_between(t, m + 6, m + 6))]
        }),
{
    let w = a[0];
    lemma_number_text_start(a[0]);
    assert(w[0] == a[0][0]);
    lemma_frame_significant(t, ty, w);
    lemma_field_end_significant(t, ty, w);
    lemma_numbers1_significant(t, ty, a);
    let n = ty.len() as int;
    let o0 = 30 + n;
    let e0 = o0 + a[0].len();
    let m = 30 + n + w.len();
    assert(e0 == m);
    let pre = seq![(KindV::Proto, span_between(t, 0, 5)), (KindV::Identifier(seq!['T', 'e', 's', 't']), span_between(t, 6, 10)), (KindV::OpenBracket, span_between(t, 11, 12)), (KindV::Field, span_between(t, 15, 20)), (KindV::Identifier(ty), span_between(t, 21, 21 + n)), (KindV::Identifier(seq!['t', 'e', 's', 't', 'V', 'a', 'l']), span_between(t, 22 + n, 29 + n))];
    let nums = seq![(number_token_of(a[0]), span_between(t, o0, e0))];
    let suf = seq![(KindV::CloseBracket, span_between(t, m + 1, m + 2)), (KindV::OpenBrace, span_between(t, m + 3, m + 4)), (KindV::CloseBrace, span_between(t, m + 5, m + 6)), (KindV::Eof, span_between(t, m + 6, m + 6))];
    assert(significant(lex_from(t, o0)) == nums + suf);
    assert(significant(lex(t)) == pre + (nums + suf));
    assert(pre + (nums + suf) =~= seq![(KindV::Proto, span_between(t, 0, 5)), (KindV::Identifier(seq!['T', 'e', 's', 't']), span_between(t, 6, 10)), (KindV::OpenBracket, span_between(t, 11, 12)), (KindV::Field, span_between(t, 15, 20)), (KindV::Identifier(ty), span_between(t, 21, 21 + n)), (KindV::Identifier(seq!['t', 'e', 's', 't', 'V', 'a', 'l']), span_between(t, 22 + n, 29 + n)), (number_token_of(a[0]), span_between(t, o0, e0)), (KindV::CloseBracket, span_between(t, m + 1, m + 2)), (KindV::OpenBrace, span_between(t, m + 3, m + 4)), (KindV::CloseBrace, span_between(t, m + 5, m + 6)), (KindV::Eof, span_between(t, m + 6, m + 6))]);
}

/// A one-field PROTO text whose default is one number reads back with that number
/// as a one-element number sequence.
#[verifier::rlimit(60)]
#[verifier::spinoff_prover]
proof fn lemma_numbers1_field_document(t: Seq<char>, ty: Seq<char>, a: Seq<Seq<char>>)
    requires
        t == "PROTO Test [\n  field "@ + ty + " testVal "@ + (a[0]) + "\n]\n{\n}"@,
        a.len() == 1,
        forall|i: int| 0 <= i < a.len() ==> number_text(#[trigger] a[i]),
        ty.len() >= 1,
        ascii_letter(ty[0]),
        forall|j: int| 0 <= j < ty.len() ==> #[trigger] ident_char(ty[j]),
        word_kind(ty) == KindV::Identifier(ty),
    ensures
        reads_back_field(t, ty, ValueV::NumberSequence(numbers_of(a))),
{
    lemma_numbers1_document_tokens(t, ty, a);
    let ts = significant(lex(t));
    lemma_read_number_field(ts, ty, 1);
    assert(numbers_from(ts, 6, 1) =~= numbers_of(a));
    reveal_strlit("PROTO Test [\n  field ");
    assert(t[0] == 'P');
    lemma_no_header(t);
}

/// The significant tokens from the default of a one-field PROTO text whose default is
/// two numbers: the number tokens, then those after the default.
#[verifier::rlimit(60)]
#[verifier::spinoff_prover]
proof fn lemma_numbers2_significant(t: Seq<char>, ty: Seq<char>, a: Seq<Seq<char>>)
    requires
        t == "PROTO Test [\n  field "@ + ty + " testVal "@ + (a[0] + seq![' '] + a[1]) + "\n]\n{\n}"@,
        a.len() == 2,
        forall|i: int| 0 <= i < a.len() ==> number_text(#[trigger] a[i]),
    ensures
        ({
            let n = ty.len() as int;
            let o0 = 30 + n;
            let e0 = o0 + a[0].len();
            let o1 = e0 + 1;
            let e1 = o1 + a[1].len();
            significant(lex_from(t, o0)) == seq![(number_token_of(a[0]), span_between(t, o0, e0)), (number_token_of(a[1]), span_between(t, o1, e1))] + significant(lex_from(t, e1))
        }),
{
    lemma_numbers2_value_tokens(t, ty, a);
    let n = ty.len() as int;
    let o0 = 30 + n;
    let e0 = o0 + a[0].len();
    let o1 = e0 + 1;
    let e1 = o1 + a[1].len();
    let v1 = (number_token_of(a[1]), span_between(t, o1, e1));
    lemma_lex_step(t, o1);
    lemma_significant_prepend(v1, lex_from(t, e1));
    let v0 = (number_token_of(a[0]), span_between(t, o0, e0));
    let s0 = (KindV::Whitespace(t.subrange(e0, o1)), span_between(t, e0, o1));
    lemma_lex_step(t, e0);
    lemma_significant_prepend(s0, lex_from(t, o1));
    lemma_lex_step(t, o0);
    lemma_significant_prepend(v0, lex_from(t, e0));
    assert(significant(lex_from(t, o0)) =~= seq![v0, v1] + significant(lex_from(t, e1)));
}

/// The significant tokens of a one-field PROTO text whose default is two numbers.
#[verifier::rlimit(100)]
#[verifier::spinoff_prover]
proof fn lemma_numbers2_document_tokens(t: Seq<char>, ty: Seq<char>, a: Seq<Seq<char>>)
    requires
        t == "PROTO Test [\n  field "@ + ty + " testVal "@ + (a[0] + seq![' '] + a[1]) + "\n]\n{\n}"@,
        a.len() == 2,
        forall|i: int| 0 <= i < a.len() ==> number_text(#[trigger] a[i]),
        ty.len() >= 1,
        ascii_letter(ty[0]),
        forall|j: int| 0 <= j < ty.len() ==> #[trigger] ident_char(ty[j]),
        word_kind(ty) == KindV::Identifier(ty),
    ensures
        ({
            let n = ty.len() as int;
            let o0 = 30 + n;
            let e0 = o0 + a[0].len();
            let o1 = e0 + 1;
            let e1 = o1 + a[1].len();
            let m = e1;
            significant(lex(t)) == seq![(KindV::Proto, span_between(t, 0, 5)), (KindV::Identifier(seq!['T', 'e', 's', 't']), span_between(t, 6, 10)), (KindV::OpenBracket, span_between(t, 11, 12)), (KindV::Field, span_between(t, 15, 20)), (KindV::Identifier(ty), span_between(t, 21, 21 + n)), (KindV::Identifier(seq!['t', 'e', 's', 't', 'V', 'a', 'l']), span_between(t, 22 + n, 29 + n)), (number_token_of(a[0]), span_between(t, o0, e0)), (number_token_of(a[1]), span_between(t, o1, e1)), (KindV::CloseBracket, span_between(t, m + 1, m + 2)), (KindV::OpenBrace, span_between(t, m + 3, m + 4)), (KindV::CloseBrace, span_between(t, m + 5, m + 6)), (KindV::Eof, span_between(t, m + 6, m + 6))]
        }),
{
    let w = a[0] + seq![' '] + a[1];
    lemma_number_text_start(a[0]);
    assert(w[0] == a[0][0]);
    lemma_frame_significant(t, ty, w);
    lemma_field_end_significant(t, ty, w);
    lemma_numbers2_significant(t, ty, a);
    let n = ty.len() as int;
    let o0 = 30 + n;
    let e0 = o0 + a[0].len();
    let o1 = e0 + 1;
    let e1 = o1 + a[1].len();
    let m = 30 + n + w.len();
    assert(e1 == m);
    let pre = seq![(KindV::Proto, span_between(t, 0, 5)), (KindV::Identifier(seq!['T', 'e', 's', 't']), span_between(t, 6, 10)), (KindV::OpenBracket, span_between(t, 11, 12)), (KindV::Field, span_between(t, 15, 20)), (KindV::Identifier(ty), span_between(t, 21, 21 + n)), (KindV::Identifier(seq!['t', 'e', 's', 't', 'V', 'a', 'l']), span_between(t, 22 + n, 29 + n))];
    let nums = seq![(number_token_of(a[0]), span_between(t, o0, e0)), (number_token_of(a[1]), span_between(t, o1, e1))];
    let suf = seq![(KindV::CloseBracket, span_between(t, m + 1, m + 2)), (KindV::OpenBrace, span_between(t, m + 3, m + 4)), (KindV::CloseBrace, span_between(t, m + 5, m + 6)), (KindV::Eof, span_between(t, m + 6, m + 6))];
    assert(significant(lex_from(t, o0)) == nums + suf);
    assert(significant(lex(t)) == pre + (nums + suf));
    assert(pre + (nums + suf) =~= seq![(KindV::Proto, span_between(t, 0, 5)), (KindV::Identifier(seq!['T', 'e', 's', 't']), span_between(t, 6, 10)), (KindV::OpenBracket, span_between(t, 11, 12)), (KindV::Field, span_between(t, 15, 20)), (KindV::Identifier(ty), span_between(t, 21, 21 + n)), (KindV::Identifier(seq!['t', 'e', 's', 't', 'V', 'a', 'l']), span_between(t, 22 + n, 29 + n)), (number_token_of(a[0]), span_between(t, o0, e0)), (number_token_of(a[1]), span_between(t, o1, e1)), (KindV::CloseBracket, span_between(t, m + 1, m + 2)), (KindV::OpenBrace, span_between(t, m + 3, m + 4)), (KindV::CloseBrace, span_between(t, m + 5, m + 6)), (KindV::Eof, span_between(t, m + 6, m + 6))]);
}

/// A one-field PROTO text whose default is two numbers separated by spaces reads
/// back with those numbers as a number sequence.
#[verifier::rlimit(60)]
#[verifier::spinoff_prover]
proof fn lemma_numbers2_field_document(t: Seq<char>, ty: Seq<char>, a: Seq<Seq<char>>)
    requires
        t == "PROTO Test [\n  field "@ + ty + " testVal "@ + (a[0] + seq![' '] + a[1]) + "\n]\n{\n}"@,
        a.len() == 2,
        forall|i: int| 0 <= i < a.len() ==> number_text(#[trigger] a[i]),
        ty.len() >= 1,
        ascii_letter(ty[0]),
        forall|j: int| 0 <= j < ty.len() ==> #[trigger] ident_char(ty[j]),
        word_kind(ty) == KindV::Identifier(ty),
    ensures
        reads_back_field(t, ty, ValueV::NumberSequence(numbers_of(a))),
{
    lemma_numbers2_document_tokens(t, ty, a);
    let ts = significant(lex(t));
    lemma_read_number_field(ts, ty, 2);
    assert(numbers_from(ts, 6, 2) =~= numbers_of(a));
    reveal_strlit("PROTO Test [\n  field ");
    assert(t[0] == 'P');
    lemma_no_header(t);
}

/// The significant tokens from the default of a one-field PROTO text whose default is
/// three numbers: the number tokens, then those after the default.
#[verifier::rlimit(60)]
#[verifier::spinoff_prover]
proof fn lemma_numbers3_significant(t: Seq<char>, ty: Seq<char>, a: Seq<Seq<char>>)
    requires
        t == "PROTO Test [\n  field "@ + ty + " testVal "@ + (a[0] + seq![' '] + a[1] + seq![' '] + a[2]) + "\n]\n{\n}"@,
        a.len() == 3,
        forall|i: int| 0 <= i < a.len() ==> number_text(#[trigger] a[i]),
    ensures
        ({
            let n = ty.len() as int;
            let o0 = 30 + n;
            let e0 = o0 + a[0].len();
            let o1 = e0 + 1;
            let e1 = o1 + a[1].len();
            let o2 = e1 + 1;
            let e2 = o2 + a[2].len();
            significant(lex_from(t, o0)) == seq![(number_token_of(a[0]), span_between(t, o0, e0)), (number_token_of(a[1]), span_between(t, o1, e1)), (number_token_of(a[2]), span_between(t, o2, e2))] + significant(lex_from(t, e2))
        }),
{
    lemma_numbers3_value_tokens(t, ty, a);
    let n = ty.len() as int;
    let o0 = 30 + n;
    let e0 = o0 + a[0].len();
    let o1 = e0 + 1;
    let e1 = o1 + a[1].len();
    let o2 = e1 + 1;
    let e2 = o2 + a[2].len();
    let v2 = (number_token_of(a[2]), span_between(t, o2, e2));
    lemma_lex_step(t, o2);
    lemma_significant_prepend(v2, lex_from(t, e2));
    let v1 = (number_token_of(a[1]), span_between(t, o1, e1));
    let s1 = (KindV::Whitespace(t.subrange(e1, o2)), span_between(t, e1, o2));
    lemma_lex_step(t, e1);
    lemma_significant_prepend(s1, lex_from(t, o2));
    lemma_lex_step(t, o1);
    lemma_significant_prepend(v1, lex_from(t, e1));
    let v0 = (number_token_of(a[0]), span_between(t, o0, e0));
    let s0 = (KindV::Whitespace(t.subrange(e0, o1)), span_between(t, e0, o1));
    lemma_lex_step(t, e0);
    lemma_significant_prepend(s0, lex_from(t, o1));
    lemma_lex_step(t, o0);
    lemma_significant_prepend(v0, lex_from(t, e0));
    assert(significant(lex_from(t, o0)) =~= seq![v0, v1, v2] + significant(lex_from(t, e2)));
}

/// The significant tokens of a one-field PROTO text whose default is three numbers.
#[verifier::rlimit(100)]
#[verifier::spinoff_prover]
proof fn lemma_numbers3_document_tokens(t: Seq<char>, ty: Seq<char>, a: Seq<Seq<char>>)
    requires
        t == "PROTO Test [\n  field "@ + ty + " testVal "@ + (a[0] + seq![' '] + a[1] + seq![' '] + a[2]) + "\n]\n{\n}"@,
        a.len() == 3,
        forall|i: int| 0 <= i < a.len() ==> number_text(#[trigger] a[i]),
        ty.len() >= 1,
        ascii_letter(ty[0]),
        forall|j: int| 0 <= j < ty.len() ==> #[trigger] ident_char(ty[j]),
        word_kind(ty) == KindV::Identifier(ty),
    ensures
        ({
            let n = ty.len() as int;
            let o0 = 30 + n;
            let e0 = o0 + a[0].len();
            let o1 = e0 + 1;
            let e1 = o1 + a[1].len();
            let o2 = e1 + 1;
            let e2 = o2 + a[2].len();
            let m = e2;
            significant(lex(t)) == seq![(KindV::Proto, span_between(t, 0, 5)), (KindV::Identifier(seq!['T', 'e', 's', 't']), span_between(t, 6, 10)), (KindV::OpenBracket, span_between(t, 11, 12)), (KindV::Field, span_between(t, 15, 20)), (KindV::Identifier(ty), span_between(t, 21, 21 + n)), (KindV::Identifier(seq!['t', 'e', 's', 't', 'V', 'a', 'l']), span_between(t, 22 + n, 29 + n)), (number_token_of(a[0]), span_between(t, o0, e0)), (number_token_of(a[1]), span_between(t, o1, e1)), (number_token_of(a[2]), span_between(t, o2, e2)), (KindV::CloseBracket, span_between(t, m + 1, m + 2)), (KindV::OpenBrace, span_between(t, m + 3, m + 4)), (KindV::CloseBrace, span_between(t, m + 5, m + 6)), (KindV::Eof, span_between(t, m + 6, m + 6))]
        }),
{
    let w = a[0] + seq![' '] + a[1] + seq![' '] + a[2];
    lemma_number_text_start(a[0]);
    assert(w[0] == a[0][0]);
    lemma_frame_significant(t, ty, w);
    lemma_field_end_significant(t, ty, w);
    lemma_numbers3_significant(t, ty, a);
    let n = ty.len() as int;
    let o0 = 30 + n;
    let e0 = o0 + a[0].len();
    let o1 = e0 + 1;
    let e1 = o1 + a[1].len();
    let o2 = e1 + 1;
    let e2 = o2 + a[2].len();
    let m = 30 + n + w.len();
    assert(e2 == m);
    let pre = seq![(KindV::Proto, span_between(t, 0, 5)), (KindV::Identifier(seq!['T', 'e', 's', 't']), span_between(t, 6, 10)), (KindV::OpenBracket, span_between(t, 11, 12)), (KindV::Field, span_between(t, 15, 20)), (KindV::Identifier(ty), span_between(t, 21, 21 + n)), (KindV::Identifier(seq!['t', 'e', 's', 't', 'V', 'a', 'l']), span_between(t, 22 + n, 29 + n))];
    let nums = seq![(number_token_of(a[0]), span_between(t, o0, e0)), (number_token_of(a[1]), span_between(t, o1, e1)), (number_token_of(a[2]), span_between(t, o2, e2))];
    let suf = seq![(KindV::CloseBracket, span_between(t, m + 1, m + 2)), (KindV::OpenBrace, span_between(t, m + 3, m + 4)), (KindV::CloseBrace, span_between(t, m + 5, m + 6)), (KindV::Eof, span_between(t, m + 6, m + 6))];
    assert(significant(lex_from(t, o0)) == nums + suf);
    assert(significant(lex(t)) == pre + (nums + suf));
    assert(pre + (nums + suf) =~= seq![(KindV::Proto, span_between(t, 0, 5)), (KindV::Identifier(seq!['T', 'e', 's', 't']), span_between(t, 6, 10)), (KindV::OpenBracket, span_between(t, 11, 12)), (KindV::Field, span_between(t, 15, 20)), (KindV::Identifier(ty), span_between(t, 21, 21 + n)), (KindV::Identifier(seq!['t', 'e', 's', 't', 'V', 'a', 'l']), span_between(t, 22 + n, 29 + n)), (number_token_of(a[0]), span_between(t, o0, e0)), (number_token_of(a[1]), span_between(t, o1, e1)), (number_token_of(a[2]), span_between(t, o2, e2)), (KindV::CloseBracket, span_between(t, m + 1, m + 2)), (KindV::OpenBrace, span_between(t, m + 3, m + 4)), (KindV::CloseBrace, span_between(t, m + 5, m + 6)), (KindV::Eof, span_between(t, m + 6, m + 6))]);
}

/// A one-field PROTO text whose default is three numbers separated by spaces reads
/// back with those numbers as a number sequence.
#[verifier::rlimit(60)]
#[verifier::spinoff_prover]
proof fn lemma_numbers3_field_document(t: Seq<char>, ty: Seq<char>, a: Seq<Seq<char>>)
    requires
        t == "PROTO Test [\n  field "@ + ty + " testVal "@ + (a[0] + seq![' '] + a[1] + seq![' '] + a[2]) + "\n]\n{\n}"@,
        a.len() == 3,
        forall|i: int| 0 <= i < a.len() ==> number_text(#[trigger] a[i]),
        ty.len() >= 1,
        ascii_letter(ty[0]),
        forall|j: int| 0 <= j < ty.len() ==> #[trigger] ident_char(ty[j]),
        word_kind(ty) == KindV::Identifier(ty),
    ensures
        reads_back_field(t, ty, ValueV::NumberSequence(numbers_of(a))),
{
    lemma_numbers3_document_tokens(t, ty, a);
    let ts = significant(lex(t));
    lemma_read_number_field(ts, ty, 3);
    assert(numbers_from(ts, 6, 3) =~= numbers_of(a));
    reveal_strlit("PROTO Test [\n  field ");
    assert(t[0] == 'P');
    lemma_no_header(t);
}

/// The significant tokens from the default of a one-field PROTO text whose default is
/// four numbers: the number tokens, then those after the default.
#[verifier::rlimit(60)]
#[verifier::spinoff_prover]
proof fn lemma_numbers4_significant(t: Seq<char>, ty: Seq<char>, a: Seq<Seq<char>>)
    requires
        t == "PROTO Test [\n  field "@ + ty + " testVal "@ + (a[0] + seq![' '] + a[1] + seq![' '] + a[2] + seq![' '] + a[3]) + "\n]\n{\n}"@,
        a.len() == 4,
        forall|i: int| 0 <= i < a.len() ==> number_text(#[trigger] a[i]),
    ensures
        ({
            let n = ty.len() as int;
            let o0 = 30 + n;
            let e0 = o0 + a[0].len();
            let o1 = e0 + 1;
            let e1 = o1 + a[1].len();
            let o2 = e1 + 1;
            let e2 = o2 + a[2].len();
            let o3 = e2 + 1;
            let e3 = o3 + a[3].len();
            significant(lex_from(t, o0)) == seq![(number_token_of(a[0]), span_between(t, o0, e0)), (number_token_of(a[1]), span_between(t, o1, e1)), (number_token_of(a[2]), span_between(t, o2, e2)), (number_token_of(a[3]), span_between(t, o3, e3))] + significant(lex_from(t, e3))
        }),
{
    lemma_numbers4_value_tokens(t, ty, a);
    let n = ty.len() as int;
    let o0 = 30 + n;
    let e0 = o0 + a[0].len();
    let o1 = e0 + 1;
    let e1 = o1 + a[1].len();
    let o2 = e1 + 1;
    let e2 = o2 + a[2].len();
    let o3 = e2 + 1;
    let e3 = o3 + a[3].len();
    let v3 = (number_token_of(a[3]), span_between(t, o3, e3));
    lemma_lex_step(t, o3);
    lemma_significant_prepend(v3, lex_from(t, e3));
    let v2 = (number_token_of(a[2]), span_between(t, o2, e2));
    let s2 = (KindV::Whitespace(t.subrange(e2, o3)), span_between(t, e2, o3));
    lemma_lex_step(t, e2);
    lemma_significant_prepend(s2, lex_from(t, o3));
    lemma_lex_step(t, o2);
    lemma_significant_prepend(v2, lex_from(t, e2));
    let v1 = (number_token_of(a[1]), span_between(t, o1, e1));
    let s1 = (KindV::Whitespace(t.subrange(e1, o2)), span_between(t, e1, o2));
    lemma_lex_step(t, e1);
    lemma_significant_prepend(s1, lex_from(t, o2));
    lemma_lex_step(t, o1);
    lemma_significant_prepend(v1, lex_from(t, e1));
    let v0 = (number_token_of(a[0]), span_between(t, o0, e0));
    let s0 = (KindV::Whitespace(t.subrange(e0, o1)), span_between(t, e0, o1));
    lemma_lex_step(t, e0);
    lemma_significant_prepend(s0, lex_from(t, o1));
    lemma_lex_step(t, o0);
    lemma_significant_prepend(v0, lex_from(t, e0));
    assert(significant(lex_from(t, o0)) =~= seq![v0, v1, v2, v3] + significant(lex_from(t, e3)));
}

/// The significant tokens of a one-field PROTO text whose default is four numbers.
#[verifier::rlimit(100)]
#[verifier::spinoff_prover]
proof fn lemma_numbers4_document_tokens(t: Seq<char>, ty: Seq<char>, a: Seq<Seq<char>>)
    requires
        t == "PROTO Test [\n  field "@ + ty + " testVal "@ + (a[0] + seq![' '] + a[1] + seq![' '] + a[2] + seq![' '] + a[3]) + "\n]\n{\n}"@,
        a.len() == 4,
        forall|i: int| 0 <= i < a.len() ==> number_text(#[trigger] a[i]),
        ty.len() >= 1,
        ascii_letter(ty[0]),
        forall|j: int| 0 <= j < ty.len() ==> #[trigger] ident_char(ty[j]),
        word_kind(ty) == KindV::Identifier(ty),
    ensures
        ({
            let n = ty.len() as int;
            let o0 = 30 + n;
            let e0 = o0 + a[0].len();
            let o1 = e0 + 1;
            let e1 = o1 + a[1].len();
            let o2 = e1 + 1;
            let e2 = o2 + a[2].len();
            let o3 = e2 + 1;
            let e3 = o3 + a[3].len();
            let m = e3;
            significant(lex(t)) == seq![(KindV::Proto, span_between(t, 0, 5)), (KindV::Identifier(seq!['T', 'e', 's', 't']), span_between(t, 6, 10)), (KindV::OpenBracket, span_between(t, 11, 12)), (KindV::Field, span_between(t, 15, 20)), (KindV::Identifier(ty), span_between(t, 21, 21 + n)), (KindV::Identifier(seq!['t', 'e', 's', 't', 'V', 'a', 'l']), span_between(t, 22 + n, 29 + n)), (number_token_of(a[0]), span_between(t, o0, e0)), (number_token_of(a[1]), span_between(t, o1, e1)), (number_token_of(a[2]), span_between(t, o2, e2)), (number_token_of(a[3]), span_between(t, o3, e3)), (KindV::CloseBracket, span_between(t, m + 1, m + 2)), (KindV::OpenBrace, span_between(t, m + 3, m + 4)), (KindV::CloseBrace, span_between(t, m + 5, m + 6)), (KindV::Eof, span_between(t, m + 6, m + 6))]
        }),
{
    let w = a[0] + seq![' '] + a[1] + seq![' '] + a[2] + seq![' '] + a[3];
    lemma_number_text_start(a[0]);
    assert(w[0] == a[0][0]);
    lemma_frame_significant(t, ty, w);
    lemma_field_end_significant(t, ty, w);
    lemma_numbers4_significant(t, ty, a);
    let n = ty.len() as int;
    let o0 = 30 + n;
    let e0 = o0 + a[0].len();
    let o1 = e0 + 1;
    let e1 = o1 + a[1].len();
    let o2 = e1 + 1;
    let e2 = o2 + a[2].len();
    let o3 = e2 + 1;
    let e3 = o3 + a[3].len();
    let m = 30 + n + w.len();
    assert(e3 == m);
    let pre = seq![(KindV::Proto, span_between(t, 0, 5)), (KindV::Identifier(seq!['T', 'e', 's', 't']), span_between(t, 6, 10)), (KindV::OpenBracket, span_between(t, 11, 12)), (KindV::Field, span_between(t, 15, 20)), (KindV::Identifier(ty), span_between(t, 21, 21 + n)), (KindV::Identifier(seq!['t', 'e', 's', 't', 'V', 'a', 'l']), span_between(t, 22 + n, 29 + n))];
    let nums = seq![(number_token_of(a[0]), span_between(t, o0, e0)), (number_token_of(a[1]), span_between(t, o1, e1)), (number_token_of(a[2]), span_between(t, o2, e2)), (number_token_of(a[3]), span_between(t, o3, e3))];
    let suf = seq![(KindV::CloseBracket, span_between(t, m + 1, m + 2)), (KindV::OpenBrace, span_between(t, m + 3, m + 4)), (KindV::CloseBrace, span_between(t, m + 5, m + 6)), (KindV::Eof, span_between(t, m + 6, m + 6))];
    assert(significant(lex_from(t, o0)) == nums + suf);
    assert(significant(lex(t)) == pre + (nums + suf));
    assert(pre + (nums + suf) =~= seq![(KindV::Proto, span_between(t, 0, 5)), (KindV::Identifier(seq!['T', 'e', 's', 't']), span_between(t, 6, 10)), (KindV::OpenBracket, span_between(t, 11, 12)), (KindV::Field, span_between(t, 15, 20)), (KindV::Identifier(ty), span_between(t, 21, 21 + n)), (KindV::Identifier(seq!['t', 'e', 's', 't', 'V', 'a', 'l']), span_between(t, 22 + n, 29 + n)), (number_token_of(a[0]), span_between(t, o0, e0)), (number_token_of(a[1]), span_between(t, o1, e1)), (number_token_of(a[2]), span_between(t, o2, e2)), (number_token_of(a[3]), span_between(t, o3, e3)), (KindV::CloseBracket, span_between(t, m + 1, m + 2)), (KindV::OpenBrace, span_between(t, m + 3, m + 4)), (KindV::CloseBrace, span_between(t, m + 5, m + 6)), (KindV::Eof, span_between(t, m + 6, m + 6))]);
}

/// A one-field PROTO text whose default is four numbers separated by spaces reads
/// back with those numbers as a number sequence.
#[verifier::rlimit(60)]
#[verifier::spinoff_prover]
proof fn lemma_numbers4_field_document(t: Seq<char>, ty: Seq<char>, a: Seq<Seq<char>>)
    requires
        t == "PROTO Test [\n  field "@ + ty + " testVal "@ + (a[0] + seq![' '] + a[1] + seq![' '] + a[2] + seq![' '] + a[3]) + "\n]\n{\n}"@,
        a.len() == 4,
        forall|i: int| 0 <= i < a.len() ==> number_text(#[trigger] a[i]),
        ty.len() >= 1,
        ascii_letter(ty[0]),
        forall|j: int| 0 <= j < ty.len() ==> #[trigger] ident_char(ty[j]),
        word_kind(ty) == KindV::Identifier(ty),
    ensures
        reads_back_field(t, ty, ValueV::NumberSequence(numbers_of(a))),
{
    lemma_numbers4_document_tokens(t, ty, a);
    let ts = significant(lex(t));
    lemma_read_number_field(ts, ty, 4);
    assert(numbers_from(ts, 6, 4) =~= numbers_of(a));
    reveal_strlit("PROTO Test [\n  field ");
    assert(t[0] == 'P');
    lemma_no_header(t);
}

/// True when `w` is a decimal number with a fraction: an optional `-`, at least one
/// digit, a dot, and digits.
pub open spec fn decimal_text(w: Seq<char>) -> bool {
    exists|d: int| #[trigger] decimal_at(w, d)
}

/// True when `w` is an optional `-`, at least one digit, a dot at `d`, and digits.
pub open spec fn decimal_at(w: Seq<char>, d: int) -> bool {
    let b = if w.len() > 0 && w[0] == '-' {
        1int
    } else {
        0int
    };
    &&& b < d < w.len()
    &&& w[d] == '.'
    &&& forall|k: int| b <= k < d ==> is_digit(#[trigger] w[k])
    &&& forall|k: int| d < k < w.len() ==> is_digit(#[trigger] w[k])
}

/// True when `w` is an optional `-` and digits whose value fits in an `i64`.
pub open spec fn integer_text(w: Seq<char>) -> bool {
    let b = if w.len() > 0 && w[0] == '-' {
        1int
    } else {
        0int
    };
    &&& b < w.len()
    &&& forall|k: int| b <= k < w.len() ==> is_digit(#[trigger] w[k])
    &&& fits_i64(integer_value(w))
}

/// True when `w` is written as one number token: an integer that fits in an `i64`, or
/// a decimal number with a fraction.
pub open spec fn number_text(w: Seq<char>) -> bool {
    decimal_text(w) || integer_text(w)
}

/// The token that a number text forms.
pub open spec fn number_token_of(w: Seq<char>) -> KindV {
    if decimal_text(w) {
        KindV::Float(w)
    } else {
        KindV::Int(integer_value(w) as i64, w)
    }
}

/// The values that number texts read back as.
pub open spec fn numbers_of(a: Seq<Seq<char>>) -> Seq<ValueV> {
    Seq::new(a.len(), |i: int| number_value(number_token_of(a[i])))
}

/// True when every text of `a` is written as one number token.
pub open spec fn all_number_texts(a: Seq<Seq<char>>) -> bool {
    forall|i: int| 0 <= i < a.len() ==> number_text(#[trigger] a[i])
}

/// What a default value reads back as from its canonical text: an integer comes back as
/// a one-number sequence holding the integer and its decimal text; a number held as
/// text, and each number of a vector, rotation or color, comes back as the number token
/// that its text forms, in a number sequence; the other values come back as they were.
pub open spec fn read_back_default(v: Option<ValueV>) -> Option<ValueV> {
    match v {
        Some(ValueV::Int(i, _)) => Some(ValueV::NumberSequence(seq![ValueV::Int(i, Some(int_text(i)))])),
        Some(ValueV::Float(w, _)) => Some(ValueV::NumberSequence(numbers_of(seq![w]))),
        Some(ValueV::Vec2f(a)) => Some(ValueV::NumberSequence(numbers_of(a))),
        Some(ValueV::Vec3f(a)) => Some(ValueV::NumberSequence(numbers_of(a))),
        Some(ValueV::Rotation(a)) => Some(ValueV::NumberSequence(numbers_of(a))),
        Some(ValueV::Color(a)) => Some(ValueV::NumberSequence(numbers_of(a))),
        _ => v,
    }
}

/// A number text starts with `-` or a digit.
proof fn lemma_number_text_start(w: Seq<char>)
    requires
        number_text(w),
    ensures
        w.len() >= 1,
        w[0] == '-' || is_digit(w[0]),
        !is_ws(w[0]),
{
    if decimal_text(w) {
        let d = choose|d: int| #[trigger] decimal_at(w, d);
        if w[0] != '-' {
            assert(is_digit(w[0]));
        }
    } else {
        if w[0] != '-' {
            assert(is_digit(w[0]));
        }
    }
}

/// A number text followed by a space or a line break is one number token.
proof fn lemma_number_in(t: Seq<char>, o: int, w: Seq<char>)
    requires
        number_text(w),
        0 <= o,
        o + w.len() < t.len(),
        t.subrange(o, o + w.len()) == w,
        t[o + w.len()] == ' ' || t[o + w.len()] == '\n',
    ensures
        token_at(t, o) == (number_token_of(w), o + w.len()),
{
    let m = w.len() as int;
    lemma_number_text_start(w);
    assert forall|k: int| 0 <= k < m implies t[o + k] == #[trigger] w[k] by {
        assert(t.subrange(o, o + m)[k] == w[k]);
    }
    assert(t[o] == w[0]);
    if decimal_text(w) {
        let d = choose|d: int| #[trigger] decimal_at(w, d);
        assert forall|k: int| (if t[o] == '-' { o + 1 } else { o }) <= k < o + d implies is_digit(#[trigger] t[k]) by {
            assert(t[o + (k - o)] == w[k - o]);
        }
        assert forall|k: int| o + d + 1 <= k < o + m implies is_digit(#[trigger] t[k]) by {
            assert(t[o + (k - o)] == w[k - o]);
        }
        assert(t[o + d] == w[d]);
        lemma_token_decimal(t, o, o + d, o + m);
    } else {
        assert forall|k: int| (if t[o] == '-' { o + 1 } else { o }) <= k < o + m implies is_digit(#[trigger] t[k]) by {
            assert(t[o + (k - o)] == w[k - o]);
        }
        lemma_token_int(t, o, o + m);
    }
}

/// The decimal text of an integer is written as the integer's token.
proof fn lemma_int_number_text(v: i64)
    ensures
        number_text(int_text(v)),
        number_token_of(int_text(v)) == KindV::Int(v, int_text(v)),
{
    lemma_int_text(v);
    let w = int_text(v);
    if decimal_text(w) {
        let d = choose|d: int| #[trigger] decimal_at(w, d);
        assert(is_digit(w[d]));
    }
}

/// The canonical text of a one-field PROTO whose default is written `w`.
proof fn lemma_number_text(p: ProtoDefV, w: Seq<char>)
    requires
        p.name == "Test"@,
        p.body.len() == 0,
        p.fields.len() == 1,
        proto_fields_text(p.fields, 1) == proto_field_text(p.fields[0], 1),
        p.fields[0].name == "testVal"@,
        p.fields[0].keyword == FieldKeyword::Field,
        p.fields[0].restrictions is None,
        p.fields[0].default_value is Some,
        value_text(p.fields[0].default_value->0, 1) == w,
    ensures
        document_text(proto_only(p)) == "PROTO Test [\n  field "@ + field_type_text(p.fields[0].field_type)
            + " testVal "@ + w + "\n]\n{\n}"@,
{
    reveal_strlit("PROTO Test [\n  field ");
    reveal_strlit(" testVal ");
    reveal_strlit("\n]\n{\n}");
    reveal_strlit("PROTO ");
    reveal_strlit(" [\n");
    reveal_strlit("]\n");
    reveal_strlit("{\n");
    reveal_strlit("field");
    reveal_strlit("Test");
    reveal_strlit("testVal");
    assert(document_text(proto_only(p)) =~= "PROTO Test [\n  field "@ + field_type_text(p.fields[0].field_type)
        + " testVal "@ + w + "\n]\n{\n}"@);
}

/// A type name made of ASCII letters and digits and starting with `S` is an identifier.
proof fn lemma_type_word(ty: Seq<char>)
    requires
        ty.len() >= 1,
        ty[0] == 'S',
        forall|j: int| 0 <= j < ty.len() ==> ascii_letter(#[trigger] ty[j]) || is_digit(ty[j]),
    ensures
        ascii_letter(ty[0]),
        forall|j: int| 0 <= j < ty.len() ==> #[trigger] ident_char(ty[j]),
        word_kind(ty) == KindV::Identifier(ty),
{
    assert forall|j: int| 0 <= j < ty.len() implies #[trigger] ident_char(ty[j]) by {
        assert(ascii_letter(ty[j]) || is_digit(ty[j]));
    }
    assert(ty != seq!['D', 'E', 'F']) by { assert(seq!['D', 'E', 'F'][0] == 'D'); }
    assert(ty != seq!['U', 'S', 'E']) by { assert(seq!['U', 'S', 'E'][0] == 'U'); }
    assert(ty != seq!['P', 'R', 'O', 'T', 'O']) by { assert(seq!['P', 'R', 'O', 'T', 'O'][0] == 'P'); }
    assert(ty != seq!['E', 'X', 'T', 'E', 'R', 'N', 'P', 'R', 'O', 'T', 'O']) by {
        assert(seq!['E', 'X', 'T', 'E', 'R', 'N', 'P', 'R', 'O', 'T', 'O'][0] == 'E');
    }
    assert(ty != seq!['f', 'i', 'e', 'l', 'd']) by { assert(seq!['f', 'i', 'e', 'l', 'd'][0] == 'f'); }
    assert(ty != seq!['v', 'r', 'm', 'l', 'F', 'i', 'e', 'l', 'd']) by {
        assert(seq!['v', 'r', 'm', 'l', 'F', 'i', 'e', 'l', 'd'][0] == 'v');
    }
    assert(ty != seq!['h', 'i', 'd', 'd', 'e', 'n', 'F', 'i', 'e', 'l', 'd']) by {
        assert(seq!['h', 'i', 'd', 'd', 'e', 'n', 'F', 'i', 'e', 'l', 'd'][0] == 'h');
    }
    assert(ty != seq!['d', 'e', 'p', 'r', 'e', 'c', 'a', 't', 'e', 'd', 'F', 'i', 'e', 'l', 'd']) by {
        assert(seq!['d', 'e', 'p', 'r', 'e', 'c', 'a', 't', 'e', 'd', 'F', 'i', 'e', 'l', 'd'][0] == 'd');
    }
    assert(ty != seq!['I', 'S']) by { assert(seq!['I', 'S'][0] == 'I'); }
    assert(ty != seq!['N', 'U', 'L', 'L']) by { assert(seq!['N', 'U', 'L', 'L'][0] == 'N'); }
    assert(ty != seq!['T', 'R', 'U', 'E']) by { assert(seq!['T', 'R', 'U', 'E'][0] == 'T'); }
    assert(ty != seq!['F', 'A', 'L', 'S', 'E']) by { assert(seq!['F', 'A', 'L', 'S', 'E'][0] == 'F'); }
}

/// The type names of the numeric field types are identifiers.
proof fn lemma_numeric_type_words()
    ensures
        forall|ty: Seq<char>|
            #![trigger word_kind(ty)]
            ty == "SFInt32"@ || ty == "SFFloat"@ || ty == "SFVec2f"@ || ty == "SFVec3f"@ || ty
                == "SFRotation"@ || ty == "SFColor"@ ==> {
                &&& ty.len() >= 1
                &&& ascii_letter(ty[0])
                &&& forall|j: int| 0 <= j < ty.len() ==> #[trigger] ident_char(ty[j])
                &&& word_kind(ty) == KindV::Identifier(ty)
            },
{
    reveal_strlit("SFInt32");
    reveal_strlit("SFFloat");
    reveal_strlit("SFVec2f");
    reveal_strlit("SFVec3f");
    reveal_strlit("SFRotation");
    reveal_strlit("SFColor");
    assert forall|ty: Seq<char>|
        #![trigger word_kind(ty)]
        ty == "SFInt32"@ || ty == "SFFloat"@ || ty == "SFVec2f"@ || ty == "SFVec3f"@ || ty
            == "SFRotation"@ || ty == "SFColor"@ implies {
        &&& ty.len() >= 1
        &&& ascii_letter(ty[0])
        &&& forall|j: int| 0 <= j < ty.len() ==> #[trigger] ident_char(ty[j])
        &&& word_kind(ty) == KindV::Identifier(ty)
    } by {
        assert forall|j: int| 0 <= j < ty.len() implies ascii_letter(#[trigger] ty[j]) || is_digit(ty[j]) by {
            if j == 0 {} else if j == 1 {} else if j == 2 {} else if j == 3 {} else if j == 4 {}
            else if j == 5 {} else if j == 6 {} else if j == 7 {} else if j == 8 {} else {}
        }
        lemma_type_word(ty);
    }
}

/// Canonical round trip of field values: the canonical text of a PROTO `Test` whose
/// one interface field `testVal` has a boolean default (declared SFBool), an integer
/// default (declared SFInt32), a decimal default with a fraction (declared SFFloat), or
/// a text default made of printable ASCII with no quote, apostrophe or backslash
/// (declared SFString), reads back as a PROTO with that name and a field with that
/// name, keyword and type; a boolean or text default comes back as it was, an integer
/// or decimal one as a one-number sequence holding the same number.
pub proof fn lemma_field_value_round_trip(p: ProtoDefV)
    requires
        p.name == "Test"@,
        p.body.len() == 0,
        p.fields.len() == 1,
        p.fields[0].name == "testVal"@,
        p.fields[0].keyword == FieldKeyword::Field,
        p.fields[0].restrictions is None,
        match p.fields[0].default_value {
            Some(ValueV::Bool(_)) => p.fields[0].field_type == FieldTypeV::SFBool,
            Some(ValueV::Int(_, _)) => p.fields[0].field_type == FieldTypeV::SFInt32,
            Some(ValueV::Float(w, _)) => p.fields[0].field_type == FieldTypeV::SFFloat && number_text(w),
            Some(ValueV::String(s)) => p.fields[0].field_type == FieldTypeV::SFString && simple_text(s),
            Some(ValueV::Vec2f(a)) => p.fields[0].field_type == FieldTypeV::SFVec2f && a.len() == 2
                && all_number_texts(a),
            Some(ValueV::Vec3f(a)) => p.fields[0].field_type == FieldTypeV::SFVec3f && a.len() == 3
                && all_number_texts(a),
            Some(ValueV::Rotation(a)) => p.fields[0].field_type == FieldTypeV::SFRotation && a.len()
                == 4 && all_number_texts(a),
            Some(ValueV::Color(a)) => p.fields[0].field_type == FieldTypeV::SFColor && a.len() == 3
                && all_number_texts(a),
            _ => false,
        },
    ensures
        match document_of(document_text(proto_only(p))) {
            Ok(d) => match d.proto {
                Some(q) => {
                    &&& d.header is None
                    &&& d.externprotos.len() == 0
                    &&& d.root_nodes.len() == 0
                    &&& q.name == p.name
                    &&& q.body.len() == 0
                    &&& q.fields.len() == 1
                    &&& q.fields[0].name == p.fields[0].name
                    &&& q.fields[0].field_type == p.fields[0].field_type
                    &&& q.fields[0].default_value == read_back_default(p.fields[0].default_value)
                    &&& q.fields[0].keyword == p.fields[0].keyword
                    &&& q.fields[0].restrictions is None
                },
                None => false,
            },
            Err(_) => false,
        },
{
    let f = p.fields[0];
    let t = document_text(proto_only(p));
    assert(proto_fields_text(p.fields, 1) == proto_field_text(f, 1)) by {
        reveal_with_fuel(proto_fields_text, 2);
        assert(p.fields.drop_last() =~= Seq::<ProtoFieldV>::empty());
        assert(p.fields.last() == f);
        assert(Seq::<char>::empty() + proto_field_text(f, 1) =~= proto_field_text(f, 1));
    }
    lemma_field_type_names();
    lemma_numeric_type_words();
    reveal_strlit("Test");
    reveal_strlit("testVal");
    assert("Test"@ =~= seq!['T', 'e', 's', 't']);
    assert("testVal"@ =~= seq!['t', 'e', 's', 't', 'V', 'a', 'l']);
    match f.default_value {
        Some(ValueV::Bool(b)) => {
            if b {
                lemma_true_text(p);
                lemma_true_field_document(t);
            } else {
                lemma_false_text(p);
                lemma_false_field_document(t);
            }
        },
        Some(ValueV::String(s)) => {
            lemma_escape_simple(s);
            lemma_string_text(p, s);
            lemma_string_field_document(t, s);
        },
        Some(ValueV::Int(i, _)) => {
            lemma_int_number_text(i);
            let a = seq![int_text(i)];
            lemma_number_text(p, a[0]);
            lemma_numbers1_field_document(t, "SFInt32"@, a);
            assert(numbers_of(a) =~= seq![ValueV::Int(i, Some(int_text(i)))]);
        },
        Some(ValueV::Float(w, _)) => {
            let a = seq![w];
            lemma_number_text(p, a[0]);
            lemma_numbers1_field_document(t, "SFFloat"@, a);
        },
        Some(ValueV::Vec2f(a)) => {
            assert(value_text(ValueV::Vec2f(a), 1) =~= a[0] + seq![' '] + a[1]) by {
                reveal_with_fuel(join, 3);
            }
            lemma_number_text(p, a[0] + seq![' '] + a[1]);
            lemma_numbers2_field_document(t, "SFVec2f"@, a);
        },
        Some(ValueV::Vec3f(a)) => {
            assert(value_text(ValueV::Vec3f(a), 1) =~= a[0] + seq![' '] + a[1] + seq![' '] + a[2]) by {
                reveal_with_fuel(join, 4);
            }
            lemma_number_text(p, a[0] + seq![' '] + a[1] + seq![' '] + a[2]);
            lemma_numbers3_field_document(t, "SFVec3f"@, a);
        },
        Some(ValueV::Color(a)) => {
            assert(value_text(ValueV::Color(a), 1) =~= a[0] + seq![' '] + a[1] + seq![' '] + a[2]) by {
                reveal_with_fuel(join, 4);
            }
            lemma_number_text(p, a[0] + seq![' '] + a[1] + seq![' '] + a[2]);
            lemma_numbers3_field_document(t, "SFColor"@, a);
        },
        Some(ValueV::Rotation(a)) => {
            assert(value_text(ValueV::Rotation(a), 1) =~= a[0] + seq![' '] + a[1] + seq![' '] + a[2]
                + seq![' '] + a[3]) by {
                reveal_with_fuel(join, 5);
            }
            lemma_number_text(p, a[0] + seq![' '] + a[1] + seq![' '] + a[2] + seq![' '] + a[3]);
            lemma_numbers4_field_document(t, "SFRotation"@, a);
        },
        _ => {},
    }
}

proof fn lemma_field_type_names()
    ensures
        field_type_of("SFBool"@) == FieldTypeV::SFBool,
        field_type_of("SFString"@) == FieldTypeV::SFString,
        field_type_of("SFInt32"@) == FieldTypeV::SFInt32,
        field_type_of("SFFloat"@) == FieldTypeV::SFFloat,
        field_type_of("SFVec2f"@) == FieldTypeV::SFVec2f,
        field_type_of("SFVec3f"@) == FieldTypeV::SFVec3f,
        field_type_of("SFRotation"@) == FieldTypeV::SFRotation,
        field_type_of("SFColor"@) == FieldTypeV::SFColor,
{
    reveal_strlit("SFVec2f");
    reveal_strlit("SFVec3f");
    reveal_strlit("SFRotation");
    reveal_strlit("SFColor");
    reveal_strlit("SFBool");
    reveal_strlit("SFInt32");
    reveal_strlit("SFFloat");
    reveal_strlit("SFString");
    assert("SFVec2f"@ != "SFInt32"@) by { assert("SFVec2f"@[2] != "SFInt32"@[2]); }
    assert("SFVec2f"@ != "SFFloat"@) by { assert("SFVec2f"@[2] != "SFFloat"@[2]); }
    assert("SFVec3f"@ != "SFInt32"@) by { assert("SFVec3f"@[2] != "SFInt32"@[2]); }
    assert("SFVec3f"@ != "SFFloat"@) by { assert("SFVec3f"@[2] != "SFFloat"@[2]); }
    assert("SFVec3f"@ != "SFVec2f"@) by { assert("SFVec3f"@[5] != "SFVec2f"@[5]); }
    assert("SFColor"@ != "SFInt32"@) by { assert("SFColor"@[2] != "SFInt32"@[2]); }
    assert("SFColor"@ != "SFFloat"@) by { assert("SFColor"@[2] != "SFFloat"@[2]); }
    assert("SFColor"@ != "SFVec2f"@) by { assert("SFColor"@[2] != "SFVec2f"@[2]); }
    assert("SFColor"@ != "SFVec3f"@) by { assert("SFColor"@[2] != "SFVec3f"@[2]); }
    assert("SFRotation"@.len() == 10);
    assert("SFString"@.len() == 8);
    assert("SFBool"@.len() == 6);
    assert("SFInt32"@.len() == 7);
    assert("SFBool"@ != "SFInt32"@);
    assert("SFBool"@ != "SFFloat"@);
    assert("SFInt32"@[2] != "SFFloat"@[2]);
    assert("SFInt32"@ != "SFFloat"@);
    assert("SFBool"@ != "SFString"@);
    assert("SFInt32"@ != "SFString"@);
    assert("SFFloat"@ != "SFString"@);
}

proof fn lemma_true_text(p: ProtoDefV)
    requires
        p.name == "Test"@,
        p.body.len() == 0,
        p.fields.len() == 1,
        proto_fields_text(p.fields, 1) == proto_field_text(p.fields[0], 1),
        p.fields[0].name == "testVal"@,
        p.fields[0].keyword == FieldKeyword::Field,
        p.fields[0].restrictions is None,
        p.fields[0].field_type == FieldTypeV::SFBool,
        p.fields[0].default_value == Some(ValueV::Bool(true)),
    ensures
        document_text(proto_only(p)) == "PROTO Test [\n  field SFBool testVal TRUE\n]\n{\n}"@,
{
    reveal_strlit("PROTO Test [\n  field SFBool testVal TRUE\n]\n{\n}");
    reveal_strlit("PROTO ");
    reveal_strlit(" [\n");
    reveal_strlit("]\n");
    reveal_strlit("{\n");
    reveal_strlit("field");
    reveal_strlit("SFBool");
    reveal_strlit("TRUE");
    reveal_strlit("Test");
    reveal_strlit("testVal");
    assert(document_text(proto_only(p)) =~= "PROTO Test [\n  field SFBool testVal TRUE\n]\n{\n}"@);
}

proof fn lemma_false_text(p: ProtoDefV)
    requires
        p.name == "Test"@,
        p.body.len() == 0,
        p.fields.len() == 1,
        proto_fields_text(p.fields, 1) == proto_field_text(p.fields[0], 1),
        p.fields[0].name == "testVal"@,
        p.fields[0].keyword == FieldKeyword::Field,
        p.fields[0].restrictions is None,
        p.fields[0].field_type == FieldTypeV::SFBool,
        p.fields[0].default_value == Some(ValueV::Bool(false)),
    ensures
        document_text(proto_only(p)) == "PROTO Test [\n  field SFBool testVal FALSE\n]\n{\n}"@,
{
    reveal_strlit("PROTO Test [\n  field SFBool testVal FALSE\n]\n{\n}");
    reveal_strlit("PROTO ");
    reveal_strlit(" [\n");
    reveal_strlit("]\n");
    reveal_strlit("{\n");
    reveal_strlit("field");
    reveal_strlit("SFBool");
    reveal_strlit("FALSE");
    reveal_strlit("Test");
    reveal_strlit("testVal");
    assert(document_text(proto_only(p)) =~= "PROTO Test [\n  field SFBool testVal FALSE\n]\n{\n}"@);
}

proof fn lemma_string_text(p: ProtoDefV, s: Seq<char>)
    requires
        p.name == "Test"@,
        p.body.len() == 0,
        p.fields.len() == 1,
        proto_fields_text(p.fields, 1) == proto_field_text(p.fields[0], 1),
        p.fields[0].name == "testVal"@,
        p.fields[0].keyword == FieldKeyword::Field,
        p.fields[0].restrictions is None,
        p.fields[0].field_type == FieldTypeV::SFString,
        p.fields[0].default_value == Some(ValueV::String(s)),
        escape_default(s) == s,
    ensures
        document_text(proto_only(p)) == "PROTO Test [\n  field SFString testVal "@ + seq!['"'] + s
            + seq!['"'] + "\n]\n{\n}"@,
{
    reveal_strlit("PROTO Test [\n  field SFString testVal ");
    reveal_strlit("\n]\n{\n}");
    reveal_strlit("PROTO ");
    reveal_strlit(" [\n");
    reveal_strlit("]\n");
    reveal_strlit("{\n");
    reveal_strlit("field");
    reveal_strlit("SFString");
    reveal_strlit("Test");
    reveal_strlit("testVal");
    assert(document_text(proto_only(p)) =~= "PROTO Test [\n  field SFString testVal "@ + seq!['"'] + s
        + seq!['"'] + "\n]\n{\n}"@);
}

} // verus!
