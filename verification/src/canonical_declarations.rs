//! Canonical round trip of EXTERNPROTO declarations: the canonical text of a document
//! that holds only declarations reads back as the same declarations.
use crate::ast::{ExternProtoV, NodeV, ProtoDefV, ProtoV, Span};
use crate::document::{document_of, lemma_no_header, quotable};
use crate::error::ErrV;
use crate::header::header_of;
use crate::lexer::{
    ascii_letter, ident_char, lemma_lex_step, lemma_token_newline, lemma_token_spaces, lemma_token_string,
    lemma_token_word, lex, lex_from, line_col, span_between, word_kind, KindV,
};
use crate::parser_spec::{
    is_importable_start, lemma_significant_prepend, read_document, read_expect,
    read_extern_proto, read_externs, read_roots, significant,
};
use crate::writer::{document_text, extern_text, externs_text, externs_text_all};
use vstd::prelude::*;

verus! {

/// The canonical text of a declaration, read from the front: the declaration, then a
/// line break and the text of the others.
proof fn lemma_externs_all_front(s: Seq<ExternProtoV>)
    requires
        s.len() >= 1,
    ensures
        externs_text_all(s) == extern_text(s[0]) + seq!['\n'] + externs_text_all(s.drop_first()),
    decreases s.len(),
{
    if s.len() == 1 {
        assert(s.drop_last() =~= Seq::<ExternProtoV>::empty());
        assert(s.drop_first() =~= Seq::<ExternProtoV>::empty());
        assert(externs_text_all(s) =~= extern_text(s[0]) + seq!['\n'] + Seq::<char>::empty());
    } else {
        lemma_externs_all_front(s.drop_last());
        assert(s.drop_last().drop_first() =~= s.drop_first().drop_last());
        assert(s.drop_last()[0] == s[0]);
        assert(s.drop_first().last() == s.last());
        assert(externs_text_all(s) =~= extern_text(s[0]) + seq!['\n'] + externs_text_all(s.drop_first()));
    }
}

/// The canonical text of the declarations of a document that holds nothing else, read
/// from the front.
proof fn lemma_externs_front(s: Seq<ExternProtoV>)
    requires
        s.len() >= 1,
    ensures
        externs_text(s, false) == extern_text(s[0]) + (if s.len() == 1 {
            Seq::empty()
        } else {
            seq!['\n'] + externs_text(s.drop_first(), false)
        }),
{
    if s.len() == 1 {
        assert(s.drop_last() =~= Seq::<ExternProtoV>::empty());
        assert(externs_text(s, false) =~= extern_text(s[0]));
        assert(extern_text(s[0]) + Seq::<char>::empty() =~= extern_text(s[0]));
    } else {
        lemma_externs_all_front(s.drop_last());
        assert(s.drop_last().drop_first() =~= s.drop_first().drop_last());
        assert(s.drop_last()[0] == s[0]);
        assert(s.drop_first().last() == s.last());
        assert(externs_text(s, false) =~= extern_text(s[0]) + (seq!['\n'] + externs_text(s.drop_first(), false)));
    }
}

/// True when `a` reads as one identifier: it starts with an ASCII letter or `_`, holds
/// identifier characters only, and is no keyword.
pub open spec fn alias_word(a: Seq<char>) -> bool {
    &&& a.len() >= 1
    &&& (ascii_letter(a[0]) || a[0] == '_')
    &&& forall|k: int| 0 <= k < a.len() ==> #[trigger] ident_char(a[k])
    &&& word_kind(a) == KindV::Identifier(a)
}

/// True when a declaration's URL can be written between quotes as it is, and its alias,
/// if it has one, reads as one identifier.
pub open spec fn plain_declaration(e: ExternProtoV) -> bool {
    &&& quotable(e.url)
    &&& match e.alias {
        Some(a) => alias_word(a),
        None => true,
    }
}

/// The significant tokens of a declaration whose text starts at `p`.
pub open spec fn declaration_tokens(t: Seq<char>, p: int, e: ExternProtoV) -> Seq<(KindV, Span)> {
    let b = if e.importable {
        p + 11
    } else {
        p
    };
    let q = b + 14 + e.url.len();
    let head = if e.importable {
        seq![(KindV::Identifier("IMPORTABLE"@), span_between(t, p, p + 10))]
    } else {
        Seq::empty()
    };
    head + seq![
        (KindV::ExternProto, span_between(t, b, b + 11)),
        (KindV::Str(e.url), span_between(t, b + 12, q)),
    ] + match e.alias {
        Some(a) => seq![(KindV::Identifier(a), span_between(t, q + 1, q + 1 + a.len()))],
        None => Seq::empty(),
    }
}

/// The significant tokens from a declaration's text at `p`: the declaration's, then
/// those after it.
#[verifier::rlimit(60)]
#[verifier::spinoff_prover]
proof fn lemma_declaration_significant(t: Seq<char>, p: int, e: ExternProtoV)
    requires
        plain_declaration(e),
        0 <= p,
        p + extern_text(e).len() <= t.len(),
        t.subrange(p, p + extern_text(e).len()) == extern_text(e),
        p + extern_text(e).len() == t.len() || t[p + extern_text(e).len()] == '\n',
    ensures
        significant(lex_from(t, p)) == declaration_tokens(t, p, e) + significant(
            lex_from(t, p + extern_text(e).len()),
        ),
        extern_text(e).len() >= 14,
        t[p] == (if e.importable { 'I' } else { 'E' }),
{
    reveal_strlit("IMPORTABLE ");
    reveal_strlit("EXTERNPROTO \"");
    reveal_strlit("IMPORTABLE");
    let x = extern_text(e);
    let n = e.url.len() as int;
    let end = p + x.len();
    let tail_alias = match e.alias {
        Some(a) => seq![' '] + a,
        None => Seq::empty(),
    };
    assert(x =~= (if e.importable { "IMPORTABLE "@ } else { Seq::empty() }) + "EXTERNPROTO \""@ + e.url
        + seq!['"'] + tail_alias);
    assert forall|k: int| 0 <= k < x.len() implies t[p + k] == #[trigger] x[k] by {
        assert(t.subrange(p, end)[k] == x[k]);
    }
    let b = if e.importable { p + 11 } else { p };
    if e.importable {
        assert forall|k: int| p <= k < p + 10 implies #[trigger] ident_char(t[k]) by {
            let r = k - p;
            assert(t[p + r] == x[r]);
            if r == 0 {} else if r == 1 {} else if r == 2 {} else if r == 3 {} else if r == 4 {}
            else if r == 5 {} else if r == 6 {} else if r == 7 {} else if r == 8 {} else {}
        }
        assert(t[p] == x[0]);
        assert(t[p + 10] == x[10]);
        lemma_token_word(t, p, p + 10);
        assert(t.subrange(p, p + 10) =~= "IMPORTABLE"@);
        assert(word_kind("IMPORTABLE"@) == KindV::Identifier("IMPORTABLE"@));
        assert forall|k: int| p + 10 <= k < p + 11 implies #[trigger] t[k] == ' ' by {
            assert(t[p + 10] == x[10]);
        }
        assert(t[p + 11] == x[11]);
        lemma_token_spaces(t, p + 10, p + 11);
    }
    assert forall|k: int| b <= k < b + 11 implies #[trigger] ident_char(t[k]) by {
        let r = k - p;
        assert(t[p + r] == x[r]);
        let q = k - b;
        if q == 0 {} else if q == 1 {} else if q == 2 {} else if q == 3 {} else if q == 4 {}
        else if q == 5 {} else if q == 6 {} else if q == 7 {} else if q == 8 {} else if q == 9 {} else {}
    }
    assert(t[b] == x[b - p]);
    assert(t[b + 11] == x[b + 11 - p]);
    assert(t[b + 12] == x[b + 12 - p]);
    lemma_token_word(t, b, b + 11);
    let kw = seq!['E', 'X', 'T', 'E', 'R', 'N', 'P', 'R', 'O', 'T', 'O'];
    assert(t.subrange(b, b + 11) =~= kw) by {
        assert forall|k: int| 0 <= k < 11 implies t.subrange(b, b + 11)[k] == kw[k] by {
            assert(t[b + k] == x[b + k - p]);
            if k == 0 {} else if k == 1 {} else if k == 2 {} else if k == 3 {} else if k == 4 {}
            else if k == 5 {} else if k == 6 {} else if k == 7 {} else if k == 8 {} else if k == 9 {} else {}
        }
    }
    assert forall|k: int| b + 11 <= k < b + 12 implies #[trigger] t[k] == ' ' by {
        assert(t[b + 11] == x[b + 11 - p]);
    }
    lemma_token_spaces(t, b + 11, b + 12);
    assert(end >= b + 14 + n);
    assert(t[b + 13 + n] == x[b + 13 + n - p]);
    assert forall|k: int| b + 13 <= k < b + 13 + n implies #[trigger] t[k] != '"' && t[k] != '\\' by {
        assert(t[k] == x[k - p]);
        assert(x[k - p] == e.url[k - b - 13]);
    }
    lemma_token_string(t, b + 12, n);
    assert(t.subrange(b + 13, b + 13 + n) =~= e.url) by {
        assert forall|k: int| 0 <= k < n implies t.subrange(b + 13, b + 13 + n)[k] == e.url[k] by {
            assert(t[b + 13 + k] == x[b + 13 + k - p]);
        }
    }
    let q = b + 14 + n;
    let s0 = (KindV::Str(e.url), span_between(t, b + 12, q));
    let w1 = (KindV::Whitespace(t.subrange(b + 11, b + 12)), span_between(t, b + 11, b + 12));
    let k0 = (KindV::ExternProto, span_between(t, b, b + 11));
    let alias_toks = match e.alias {
        Some(a) => seq![(KindV::Identifier(a), span_between(t, q + 1, q + 1 + a.len()))],
        None => Seq::<(KindV, Span)>::empty(),
    };
    match e.alias {
        Some(a) => {
            let m = a.len() as int;
            assert(end == q + 1 + m);
            assert(t[q] == x[q - p]);
            assert(t[q + 1] == x[q + 1 - p]);
            assert forall|k: int| q <= k < q + 1 implies #[trigger] t[k] == ' ' by {
                assert(t[q] == x[q - p]);
            }
            lemma_token_spaces(t, q, q + 1);
            assert forall|k: int| q + 1 <= k < q + 1 + m implies #[trigger] ident_char(t[k]) by {
                assert(t[k] == x[k - p]);
                assert(x[k - p] == a[k - q - 1]);
            }
            assert(t[q + 1] == a[0]);
            lemma_token_word(t, q + 1, q + 1 + m);
            assert(t.subrange(q + 1, q + 1 + m) =~= a) by {
                assert forall|k: int| 0 <= k < m implies t.subrange(q + 1, q + 1 + m)[k] == a[k] by {
                    assert(t[q + 1 + k] == x[q + 1 + k - p]);
                }
            }
            let w2 = (KindV::Whitespace(t.subrange(q, q + 1)), span_between(t, q, q + 1));
            let a0 = (KindV::Identifier(a), span_between(t, q + 1, q + 1 + m));
            lemma_lex_step(t, q + 1);
            lemma_significant_prepend(a0, lex_from(t, end));
            lemma_lex_step(t, q);
            lemma_significant_prepend(w2, lex_from(t, q + 1));
            assert(significant(lex_from(t, q)) =~= alias_toks + significant(lex_from(t, end)));
        },
        None => {
            assert(end == q);
            assert(significant(lex_from(t, q)) =~= alias_toks + significant(lex_from(t, end)));
        },
    }
    lemma_lex_step(t, b + 12);
    lemma_significant_prepend(s0, lex_from(t, q));
    lemma_lex_step(t, b + 11);
    lemma_significant_prepend(w1, lex_from(t, b + 12));
    lemma_lex_step(t, b);
    lemma_significant_prepend(k0, lex_from(t, b + 11));
    if e.importable {
        let i0 = (KindV::Identifier("IMPORTABLE"@), span_between(t, p, p + 10));
        let w0 = (KindV::Whitespace(t.subrange(p + 10, p + 11)), span_between(t, p + 10, p + 11));
        lemma_lex_step(t, p + 10);
        lemma_significant_prepend(w0, lex_from(t, p + 11));
        lemma_lex_step(t, p);
        lemma_significant_prepend(i0, lex_from(t, p + 10));
        assert(significant(lex_from(t, p)) =~= seq![i0, k0, s0] + alias_toks + significant(lex_from(t, end)));
    } else {
        assert(significant(lex_from(t, p)) =~= seq![k0, s0] + alias_toks + significant(lex_from(t, end)));
    }
    assert(t[p] == x[0]);
}

/// The significant tokens of the declarations whose canonical text starts at `p`.
pub open spec fn declarations_tokens(t: Seq<char>, p: int, s: Seq<ExternProtoV>) -> Seq<(KindV, Span)>
    decreases s.len(),
{
    if s.len() == 0 {
        Seq::empty()
    } else {
        declaration_tokens(t, p, s[0]) + declarations_tokens(
            t,
            p + extern_text(s[0]).len() + 1,
            s.drop_first(),
        )
    }
}

/// The end-of-input token of a text.
pub open spec fn end_token(t: Seq<char>) -> (KindV, Span) {
    (KindV::Eof, span_between(t, t.len() as int, t.len() as int))
}

/// True when every declaration has no alias and a URL that can be written between
/// quotes as it is.
pub open spec fn plain_declarations(s: Seq<ExternProtoV>) -> bool {
    forall|k: int| 0 <= k < s.len() ==> plain_declaration(#[trigger] s[k])
}

/// The significant tokens of the canonical text of declarations, from `p` to the end.
#[verifier::rlimit(40)]
proof fn lemma_declarations_significant(t: Seq<char>, p: int, s: Seq<ExternProtoV>)
    requires
        s.len() >= 1,
        plain_declarations(s),
        0 <= p <= t.len(),
        t.subrange(p, t.len() as int) == externs_text(s, false),
    ensures
        significant(lex_from(t, p)) == declarations_tokens(t, p, s) + seq![end_token(t)],
    decreases s.len(),
{
    lemma_externs_front(s);
    let x0 = extern_text(s[0]);
    let l = x0.len() as int;
    assert(plain_declaration(s[0]));
    assert(t.subrange(p, p + l) =~= x0) by {
        assert forall|k: int| 0 <= k < l implies t.subrange(p, p + l)[k] == x0[k] by {
            assert(t.subrange(p, t.len() as int)[k] == t[p + k]);
        }
    }
    if s.len() == 1 {
        assert(p + l == t.len());
        lemma_declaration_significant(t, p, s[0]);
        assert(lex_from(t, p + l) == seq![end_token(t)]);
        lemma_significant_prepend(end_token(t), Seq::empty());
        assert(seq![end_token(t)] + Seq::<(KindV, Span)>::empty() =~= seq![end_token(t)]);
        assert(s.drop_first() =~= Seq::<ExternProtoV>::empty());
        assert(declarations_tokens(t, p + l + 1, s.drop_first()) == Seq::<(KindV, Span)>::empty());
        assert(declarations_tokens(t, p, s) =~= declaration_tokens(t, p, s[0]));
    } else {
        assert(t[p + l] == '\n') by {
            assert(t.subrange(p, t.len() as int)[l] == t[p + l]);
        }
        lemma_declaration_significant(t, p, s[0]);
        lemma_token_newline(t, p + l);
        lemma_lex_step(t, p + l);
        let nl = (KindV::Newline(t.subrange(p + l, p + l + 1)), span_between(t, p + l, p + l + 1));
        lemma_significant_prepend(nl, lex_from(t, p + l + 1));
        let rest = s.drop_first();
        assert(plain_declarations(rest)) by {
            assert forall|k: int| 0 <= k < rest.len() implies plain_declaration(#[trigger] rest[k]) by {
                assert(rest[k] == s[k + 1]);
            }
        }
        assert(t.subrange(p + l + 1, t.len() as int) =~= externs_text(rest, false)) by {
            assert forall|k: int| 0 <= k < t.len() - (p + l + 1) implies t.subrange(
                p + l + 1,
                t.len() as int,
            )[k] == externs_text(rest, false)[k] by {
                assert(t.subrange(p, t.len() as int)[l + 1 + k] == t[p + l + 1 + k]);
            }
        }
        lemma_declarations_significant(t, p + l + 1, rest);
        assert(significant(lex_from(t, p)) =~= declarations_tokens(t, p, s) + seq![end_token(t)]);
    }
}

/// A line number is at most one more than the position.
proof fn lemma_line_bound(t: Seq<char>, q: int)
    requires
        0 <= q,
    ensures
        1 <= line_col(t, q).0 <= q + 1,
    decreases q,
{
    if q > 0 {
        lemma_line_bound(t, q - 1);
    }
}

/// Reading one declaration from its significant tokens at `i`: it comes back with its
/// URL, `IMPORTABLE` flag and alias, and reading goes on after its tokens.
#[verifier::rlimit(40)]
proof fn lemma_read_declaration(t: Seq<char>, ts: Seq<(KindV, Span)>, i: int, p: int, e: ExternProtoV)
    requires
        plain_declaration(e),
        0 <= i,
        i + declaration_tokens(t, p, e).len() < ts.len(),
        forall|k: int|
            0 <= k < declaration_tokens(t, p, e).len() ==> ts[i + k] == #[trigger] declaration_tokens(
                t,
                p,
                e,
            )[k],
        0 <= p,
        p + extern_text(e).len() <= t.len(),
        t.subrange(p, p + extern_text(e).len()) == extern_text(e),
        e.alias is None && ts[i + declaration_tokens(t, p, e).len()].0 is Identifier ==> ts[i
            + declaration_tokens(t, p, e).len()].1.start_line != ts[i + declaration_tokens(
            t,
            p,
            e,
        ).len() - 1].1.end_line,
    ensures
        read_extern_proto(ts, i) matches Ok((x, j)) && j == i + declaration_tokens(t, p, e).len()
            && x.url == e.url && x.importable == e.importable && x.alias == e.alias,
{
    let d = declaration_tokens(t, p, e);
    let c = d.len() as int;
    let k0 = if e.importable { i + 1 } else { i };
    let b = if e.importable { p + 11 } else { p };
    let q = b + 14 + e.url.len();
    assert(ts[i] == d[0]);
    assert(ts[i + 1] == d[1]);
    assert(ts[k0] == d[k0 - i]);
    assert(ts[k0 + 1] == d[k0 + 1 - i]);
    assert(is_importable_start(ts, i) == e.importable);
    assert(read_expect(ts, k0, KindV::ExternProto) == Ok::<((), int), ErrV>(((), k0 + 1)));
    assert(ts[k0 + 1].0 == KindV::Str(e.url));
    match e.alias {
        Some(a) => {
            assert(c == k0 - i + 3);
            assert(ts[k0 + 2] == d[k0 + 2 - i]);
            let x = extern_text(e);
            assert(x =~= (if e.importable { "IMPORTABLE "@ } else { Seq::empty() }) + "EXTERNPROTO \""@ + e.url
                + seq!['"'] + (seq![' '] + a)) by {
                reveal_strlit("IMPORTABLE ");
                reveal_strlit("EXTERNPROTO \"");
            }
            reveal_strlit("IMPORTABLE ");
            reveal_strlit("EXTERNPROTO \"");
            assert(t[q] == ' ') by {
                assert(t.subrange(p, p + x.len())[q - p] == x[q - p]);
            }
            assert(line_col(t, q + 1).0 == line_col(t, q).0);
        },
        None => {
            assert(c == k0 - i + 2);
        },
    }
}

/// The significant tokens from `i` are the first declaration's, then the others'.
#[verifier::rlimit(40)]
proof fn lemma_split_tokens(t: Seq<char>, ts: Seq<(KindV, Span)>, i: int, p: int, s: Seq<ExternProtoV>)
    requires
        s.len() >= 1,
        0 <= i < ts.len(),
        ts.subrange(i, ts.len() as int) == declarations_tokens(t, p, s) + seq![end_token(t)],
    ensures
        ({
            let d = declaration_tokens(t, p, s[0]);
            let c = d.len() as int;
            let p2 = p + extern_text(s[0]).len() + 1;
            let tail = declarations_tokens(t, p2, s.drop_first()) + seq![end_token(t)];
            &&& ts.len() - i == c + tail.len()
            &&& forall|k: int| 0 <= k < c ==> ts[i + k] == #[trigger] d[k]
            &&& ts.subrange(i + c, ts.len() as int) == tail
            &&& ts[i + c] == tail[0]
        }),
{
    let d = declaration_tokens(t, p, s[0]);
    let c = d.len() as int;
    let p2 = p + extern_text(s[0]).len() + 1;
    let tail = declarations_tokens(t, p2, s.drop_first()) + seq![end_token(t)];
    assert(declarations_tokens(t, p, s) + seq![end_token(t)] =~= d + tail);
    assert forall|k: int| 0 <= k < c implies ts[i + k] == #[trigger] d[k] by {
        assert(ts.subrange(i, ts.len() as int)[k] == ts[i + k]);
    }
    assert(ts.subrange(i + c, ts.len() as int) =~= tail) by {
        assert forall|k: int| 0 <= k < tail.len() implies ts.subrange(i + c, ts.len() as int)[k] == tail[k] by {
            assert(ts.subrange(i, ts.len() as int)[c + k] == ts[i + c + k]);
        }
    }
    assert(ts[i + c] == ts.subrange(i + c, ts.len() as int)[0]);
}

/// After a declaration without an alias, the next token is no identifier on the same
/// line: the next declaration starts on the next line.
#[verifier::rlimit(40)]
proof fn lemma_next_not_alias(t: Seq<char>, ts: Seq<(KindV, Span)>, i: int, p: int, s: Seq<ExternProtoV>)
    requires
        s.len() >= 1,
        plain_declarations(s),
        0 <= i < ts.len(),
        0 <= p <= t.len(),
        t.len() < usize::MAX,
        ts.subrange(i, ts.len() as int) == declarations_tokens(t, p, s) + seq![end_token(t)],
        t.subrange(p, t.len() as int) == externs_text(s, false),
    ensures
        ({
            let c = declaration_tokens(t, p, s[0]).len() as int;
            s[0].alias is None && ts[i + c].0 is Identifier ==> ts[i + c].1.start_line != ts[i + c
                - 1].1.end_line
        }),
{
    let e = s[0];
    let d = declaration_tokens(t, p, e);
    let c = d.len() as int;
    let rest = s.drop_first();
    let l = extern_text(e).len() as int;
    let p2 = p + l + 1;
    let tail = declarations_tokens(t, p2, rest) + seq![end_token(t)];
    lemma_split_tokens(t, ts, i, p, s);
    lemma_externs_front(s);
    if rest.len() >= 1 && e.alias is None {
        assert(declarations_tokens(t, p2, rest) == declaration_tokens(t, p2, rest[0])
            + declarations_tokens(t, p2 + extern_text(rest[0]).len() + 1, rest.drop_first()));
        assert(tail[0] == declaration_tokens(t, p2, rest[0])[0]);
        if rest[0].importable {
            assert(t[p + l] == '\n') by {
                assert(t.subrange(p, t.len() as int)[l] == t[p + l]);
            }
            lemma_line_bound(t, p + l);
            assert(line_col(t, p2).0 == line_col(t, p + l).0 + 1);
            assert(ts[i + c - 1] == d[c - 1]);
            assert(l == (if e.importable { 11int } else { 0int }) + 14 + e.url.len()) by {
                reveal_strlit("IMPORTABLE ");
                reveal_strlit("EXTERNPROTO \"");
            }
            assert(d[c - 1].1.end_line == line_col(t, p + l).0 as usize);
        }
    } else if rest.len() == 0 {
        assert(declarations_tokens(t, p2, rest) =~= Seq::<(KindV, Span)>::empty());
    }
}

/// Reading declarations from their significant tokens, at `i`, after `acc`: each comes
/// back with its URL, `IMPORTABLE` flag and alias, and reading stops at the end.
#[verifier::rlimit(60)]
#[verifier::spinoff_prover]
proof fn lemma_read_declarations(
    t: Seq<char>,
    ts: Seq<(KindV, Span)>,
    i: int,
    p: int,
    s: Seq<ExternProtoV>,
    acc: Seq<ExternProtoV>,
)
    requires
        plain_declarations(s),
        0 <= i < ts.len(),
        0 <= p <= t.len(),
        t.len() < usize::MAX,
        ts.subrange(i, ts.len() as int) == declarations_tokens(t, p, s) + seq![end_token(t)],
        s.len() >= 1 ==> t.subrange(p, t.len() as int) == externs_text(s, false),
    ensures
        read_externs(ts, i, acc) matches Ok((r, j)) && j == ts.len() - 1 && r.len() == acc.len()
            + s.len() && r.take(acc.len() as int) == acc && (forall|k: int|
            0 <= k < s.len() ==> (#[trigger] r[acc.len() + k]).url == s[k].url && r[acc.len()
                + k].importable == s[k].importable && r[acc.len() + k].alias == s[k].alias),
    decreases s.len(),
{
    assert(ts[i] == ts.subrange(i, ts.len() as int)[0]);
    if s.len() == 0 {
        assert(ts.subrange(i, ts.len() as int) =~= seq![end_token(t)]);
        assert(ts.len() == i + 1);
        assert(acc.take(acc.len() as int) =~= acc);
    } else {
        let e = s[0];
        assert(plain_declaration(e));
        let d = declaration_tokens(t, p, e);
        let c = d.len() as int;
        let rest = s.drop_first();
        let x0 = extern_text(e);
        let l = x0.len() as int;
        lemma_externs_front(s);
        assert(t.subrange(p, p + l) =~= x0) by {
            assert forall|k: int| 0 <= k < l implies t.subrange(p, p + l)[k] == x0[k] by {
                assert(t.subrange(p, t.len() as int)[k] == t[p + k]);
            }
        }
        let p2 = p + l + 1;
        lemma_split_tokens(t, ts, i, p, s);
        lemma_next_not_alias(t, ts, i, p, s);
        lemma_read_declaration(t, ts, i, p, e);
        let got = read_extern_proto(ts, i);
        let x = got->Ok_0.0;
        assert(plain_declarations(rest)) by {
            assert forall|k: int| 0 <= k < rest.len() implies plain_declaration(#[trigger] rest[k]) by {
                assert(rest[k] == s[k + 1]);
            }
        }
        if rest.len() >= 1 {
            assert(t.subrange(p2, t.len() as int) =~= externs_text(rest, false)) by {
                assert forall|k: int| 0 <= k < t.len() - p2 implies t.subrange(p2, t.len() as int)[k]
                    == externs_text(rest, false)[k] by {
                    assert(t.subrange(p, t.len() as int)[l + 1 + k] == t[p2 + k]);
                }
            }
        }
        lemma_read_declarations(t, ts, i + c, if rest.len() >= 1 { p2 } else { p }, rest, acc.push(x));
        let r = read_externs(ts, i + c, acc.push(x))->Ok_0.0;
        assert(read_externs(ts, i, acc) == read_externs(ts, i + c, acc.push(x)));
        assert(r.take(acc.len() as int) =~= acc) by {
            assert forall|k: int| 0 <= k < acc.len() implies r.take(acc.len() as int)[k] == acc[k] by {
                assert(r.take(acc.len() as int + 1)[k] == acc.push(x)[k]);
            }
        }
        assert forall|k: int| 0 <= k < s.len() implies (#[trigger] r[acc.len() + k]).url == s[k].url
            && r[acc.len() + k].importable == s[k].importable && r[acc.len() + k].alias == s[k].alias by {
            if k == 0 {
                assert(r.take(acc.len() as int + 1)[acc.len() as int] == acc.push(x)[acc.len() as int]);
            } else {
                assert(r[acc.push(x).len() + (k - 1)] == r[acc.len() + k]);
                assert(rest[k - 1] == s[k]);
            }
        }
    }
}

/// The document that holds the declarations `s` and nothing else.
pub open spec fn declarations_only(s: Seq<ExternProtoV>) -> ProtoV {
    ProtoV {
        header: None,
        externprotos: s,
        proto: None,
        root_nodes: Seq::empty(),
        source_path: None,
        source_content: None,
    }
}

/// What a text reads back as: a document with the declarations of `s`, with their URLs,
/// `IMPORTABLE` flags and aliases, and nothing else.
pub open spec fn reads_back_declarations(t: Seq<char>, s: Seq<ExternProtoV>) -> bool {
    match document_of(t) {
        Ok(d) => {
            &&& d.header is None
            &&& d.proto is None
            &&& d.root_nodes.len() == 0
            &&& d.externprotos.len() == s.len()
            &&& forall|k: int|
                0 <= k < s.len() ==> (#[trigger] d.externprotos[k]).url == s[k].url
                    && d.externprotos[k].importable == s[k].importable
                    && d.externprotos[k].alias == s[k].alias
        },
        Err(_) => false,
    }
}

/// The empty text reads back as a document with nothing in it.
proof fn lemma_empty_reads_back(t: Seq<char>)
    requires
        t.len() == 0,
    ensures
        reads_back_declarations(t, Seq::empty()),
{
    let ts = significant(lex(t));
    assert(lex(t) == seq![end_token(t)]);
    lemma_significant_prepend(end_token(t), Seq::empty());
    assert(seq![end_token(t)] + Seq::<(KindV, Span)>::empty() =~= seq![end_token(t)]);
    assert(ts == seq![end_token(t)]);
    assert(read_externs(ts, 0, Seq::empty()) == Ok::<(Seq<ExternProtoV>, int), ErrV>((Seq::empty(), 0)));
    assert(read_roots(ts, 0, Seq::empty()) == Ok::<(Seq<NodeV>, int), ErrV>((Seq::empty(), 0)));
    assert(header_of(t) is None);
}

/// The canonical text of one or more declarations reads back as them.
#[verifier::rlimit(40)]
proof fn lemma_declarations_read_back(t: Seq<char>, s: Seq<ExternProtoV>)
    requires
        s.len() >= 1,
        plain_declarations(s),
        t == externs_text(s, false),
        t.len() < usize::MAX,
    ensures
        reads_back_declarations(t, s),
{
    let ts = significant(lex(t));
    assert(t.subrange(0, t.len() as int) =~= t);
    lemma_declarations_significant(t, 0, s);
    assert(ts.subrange(0, ts.len() as int) =~= ts);
    lemma_read_declarations(t, ts, 0, 0, s, Seq::empty());
    let r = read_externs(ts, 0, Seq::empty())->Ok_0.0;
    let j = ts.len() - 1;
    assert(ts[j] == end_token(t));
    assert(read_roots(ts, j, Seq::empty()) == Ok::<(Seq<NodeV>, int), ErrV>((Seq::empty(), j)));
    assert(read_document(ts) == Ok::<(Seq<ExternProtoV>, Option<ProtoDefV>, Seq<NodeV>), ErrV>(
        (r, None, Seq::empty()),
    ));
    assert(plain_declaration(s[0]));
    lemma_externs_front(s);
    assert(t.subrange(0, extern_text(s[0]).len() as int) =~= extern_text(s[0]));
    lemma_declaration_significant(t, 0, s[0]);
    lemma_no_header(t);
    assert forall|k: int| 0 <= k < s.len() implies (#[trigger] r[k]).url == s[k].url
        && r[k].importable == s[k].importable && r[k].alias == s[k].alias by {
        assert(r[0 + k] == r[k]);
    }
}

/// EXTERNPROTO round trip: the canonical text of a document that holds only
/// declarations whose URLs can be written between quotes as they are and whose aliases,
/// where they have one, read as one identifier, reads back as the same declarations, in
/// the same order, with the same URLs, `IMPORTABLE` flags and aliases, and nothing else.
pub proof fn lemma_declarations_round_trip(s: Seq<ExternProtoV>)
    requires
        plain_declarations(s),
        document_text(declarations_only(s)).len() < usize::MAX,
    ensures
        reads_back_declarations(document_text(declarations_only(s)), s),
{
    let t = document_text(declarations_only(s));
    assert(t =~= externs_text(s, false));
    if s.len() == 0 {
        lemma_empty_reads_back(t);
        assert(s =~= Seq::<ExternProtoV>::empty());
    } else {
        lemma_declarations_read_back(t, s);
    }
}

} // verus!
