//! JSON values, as the typed node layer exchanges them with the AST: objects keep their
//! keys in ascending order with no key twice, and a value prints as compact JSON text.
use crate::text::{chars_of, hex_char, push_str, string_from_chars};
use crate::writer::{int_text, push_int};
use vstd::prelude::*;

verus! {

/// A JSON value. A number is an integer, or a floating-point number held as its
/// decimal text; an object is its entries in ascending key order.
#[derive(Debug, PartialEq)]
pub enum JsonValue {
    Null,
    Bool(bool),
    Int(i64),
    Float(String),
    String(String),
    Array(Vec<JsonValue>),
    Object(Vec<(String, JsonValue)>),
}

/// Model of a JSON value.
pub enum JsonV {
    Null,
    Bool(bool),
    Int(i64),
    Float(Seq<char>),
    Str(Seq<char>),
    Array(Seq<JsonV>),
    Object(Seq<(Seq<char>, JsonV)>),
}

pub open spec fn json_view(j: JsonValue) -> JsonV
    decreases j,
{
    match j {
        JsonValue::Null => JsonV::Null,
        JsonValue::Bool(b) => JsonV::Bool(b),
        JsonValue::Int(i) => JsonV::Int(i),
        JsonValue::Float(t) => JsonV::Float(t@),
        JsonValue::String(s) => JsonV::Str(s@),
        JsonValue::Array(items) => JsonV::Array(jsons_view(items@)),
        JsonValue::Object(es) => JsonV::Object(entries_view(es@)),
    }
}

pub open spec fn jsons_view(s: Seq<JsonValue>) -> Seq<JsonV>
    decreases s,
{
    if s.len() == 0 {
        Seq::empty()
    } else {
        jsons_view(s.drop_last()).push(json_view(s.last()))
    }
}

pub open spec fn entries_view(s: Seq<(String, JsonValue)>) -> Seq<(Seq<char>, JsonV)>
    decreases s,
{
    if s.len() == 0 {
        Seq::empty()
    } else {
        entries_view(s.drop_last()).push((s.last().0@, json_view(s.last().1)))
    }
}

impl View for JsonValue {
    type V = JsonV;

    open spec fn view(&self) -> JsonV {
        json_view(*self)
    }
}

/// The model of a list of values, element by element.
pub proof fn lemma_jsons_view(s: Seq<JsonValue>)
    ensures
        jsons_view(s).len() == s.len(),
        forall|i: int| 0 <= i < s.len() ==> #[trigger] jsons_view(s)[i] == json_view(s[i]),
    decreases s.len(),
{
    if s.len() > 0 {
        lemma_jsons_view(s.drop_last());
        assert forall|i: int| 0 <= i < s.len() implies #[trigger] jsons_view(s)[i] == json_view(s[i]) by {
            if i < s.len() - 1 {
                assert(s.drop_last()[i] == s[i]);
            }
        }
    }
}

/// The model of a list of entries, entry by entry.
pub proof fn lemma_entries_view(s: Seq<(String, JsonValue)>)
    ensures
        entries_view(s).len() == s.len(),
        forall|i: int| 0 <= i < s.len() ==> #[trigger] entries_view(s)[i] == (s[i].0@, json_view(s[i].1)),
    decreases s.len(),
{
    if s.len() > 0 {
        lemma_entries_view(s.drop_last());
        assert forall|i: int| 0 <= i < s.len() implies #[trigger] entries_view(s)[i] == (s[i].0@, json_view(s[i].1)) by {
            if i < s.len() - 1 {
                assert(s.drop_last()[i] == s[i]);
            }
        }
    }
}

// ---------------------------------------------------------------------------
// Objects
// ---------------------------------------------------------------------------
/// The order of object keys: lexicographic by code point, which is the byte order of
/// their UTF-8 text.
pub open spec fn key_lt(a: Seq<char>, b: Seq<char>) -> bool
    decreases a.len(),
{
    if a.len() == 0 {
        b.len() > 0
    } else if b.len() == 0 {
        false
    } else if a[0] != b[0] {
        (a[0] as u32) < (b[0] as u32)
    } else {
        key_lt(a.drop_first(), b.drop_first())
    }
}

/// An object with `k` set to `v`: the entry for `k` replaced in place, or a new entry
/// placed before the first greater key.
pub open spec fn obj_insert(es: Seq<(Seq<char>, JsonV)>, k: Seq<char>, v: JsonV) -> Seq<(Seq<char>, JsonV)>
    decreases es.len(),
{
    if es.len() == 0 {
        seq![(k, v)]
    } else if es[0].0 == k {
        seq![(k, v)] + es.drop_first()
    } else if key_lt(k, es[0].0) {
        seq![(k, v)] + es
    } else {
        seq![es[0]] + obj_insert(es.drop_first(), k, v)
    }
}

/// The position of the entry for key `k`, if any (the first one).
pub open spec fn obj_find(es: Seq<(Seq<char>, JsonV)>, k: Seq<char>) -> Option<int>
    decreases es.len(),
{
    if es.len() == 0 {
        None
    } else if es[0].0 == k {
        Some(0)
    } else {
        match obj_find(es.drop_first(), k) {
            Some(i) => Some(i + 1),
            None => None,
        }
    }
}

/// The entry found is in the object, under that key.
pub proof fn lemma_obj_find(es: Seq<(Seq<char>, JsonV)>, k: Seq<char>)
    ensures
        match obj_find(es, k) {
            Some(i) => 0 <= i < es.len() && es[i].0 == k,
            None => forall|i: int| 0 <= i < es.len() ==> #[trigger] es[i].0 != k,
        },
    decreases es.len(),
{
    if es.len() > 0 && es[0].0 != k {
        let rest = es.drop_first();
        lemma_obj_find(rest, k);
        match obj_find(rest, k) {
            Some(j) => {
                assert(es[j + 1] == rest[j]);
            },
            None => {
                assert forall|i: int| 0 <= i < es.len() implies #[trigger] es[i].0 != k by {
                    if i > 0 {
                        assert(es[i] == rest[i - 1]);
                    }
                }
            },
        }
    }
}

fn key_less(a: &String, b: &String) -> (r: bool)
    ensures
        r == key_lt(a@, b@),
{
    let x = chars_of(a.as_str());
    let y = chars_of(b.as_str());
    let mut i: usize = 0;
    proof {
        assert(x@.skip(0) =~= x@);
        assert(y@.skip(0) =~= y@);
    }
    while i < x.len() && i < y.len() && x[i] == y[i]
        invariant
            i <= x@.len(),
            i <= y@.len(),
            x@ == a@,
            y@ == b@,
            key_lt(a@, b@) == key_lt(x@.skip(i as int), y@.skip(i as int)),
        decreases x@.len() - i,
    {
        proof {
            assert(x@.skip(i as int).drop_first() =~= x@.skip(i + 1));
            assert(y@.skip(i as int).drop_first() =~= y@.skip(i + 1));
        }
        i = i + 1;
    }
    if i == x.len() {
        i < y.len()
    } else if i == y.len() {
        false
    } else {
        (x[i] as u32) < (y[i] as u32)
    }
}


/// Sets key `k` of an object to `v` (see [`obj_insert`]).
pub fn object_insert(es: &mut Vec<(String, JsonValue)>, k: String, v: JsonValue)
    ensures
        entries_view(final(es)@) == obj_insert(entries_view(old(es)@), k@, v@),
{
    let ghost all = entries_view(es@);
    let ghost want = obj_insert(all, k@, v@);
    proof {
        lemma_entries_view(es@);
        assert(all.skip(0) =~= all);
        assert(all.take(0) + obj_insert(all.skip(0), k@, v@) =~= want);
    }
    let mut i: usize = 0;
    while i < es.len()
        invariant
            i <= es@.len(),
            all == entries_view(es@),
            all == entries_view(old(es)@),
            all.len() == es@.len(),
            forall|j: int| 0 <= j < es@.len() ==> #[trigger] all[j] == (es@[j].0@, json_view(es@[j].1)),
            want == obj_insert(all, k@, v@),
            want == all.take(i as int) + obj_insert(all.skip(i as int), k@, v@),
        decreases es@.len() - i,
    {
        let ghost rest = all.skip(i as int);
        proof {
            assert(rest[0] == all[i as int]);
            assert(rest.drop_first() =~= all.skip(i + 1));
        }
        if es[i].0.eq(&k) {
            let ghost before = es@;
            es.remove(i);
            es.insert(i, (k, v));
            proof {
                lemma_entries_view(es@);
                assert(es@ =~= before.update(i as int, es@[i as int]));
                assert(entries_view(es@) =~= all.take(i as int) + obj_insert(rest, k@, v@));
            }
            return;
        }
        if key_less(&k, &es[i].0) {
            let ghost before = es@;
            es.insert(i, (k, v));
            proof {
                lemma_entries_view(es@);
                assert(es@ =~= before.insert(i as int, es@[i as int]));
                assert(entries_view(es@) =~= all.take(i as int) + obj_insert(rest, k@, v@));
            }
            return;
        }
        proof {
            assert(obj_insert(rest, k@, v@) == seq![rest[0]] + obj_insert(all.skip(i + 1), k@, v@));
            assert(all.take(i + 1) =~= all.take(i as int).push(all[i as int]));
            assert(want =~= all.take(i + 1) + obj_insert(all.skip(i + 1), k@, v@));
        }
        i = i + 1;
    }
    let ghost before = es@;
    es.push((k, v));
    proof {
        lemma_entries_view(es@);
        assert(all.skip(i as int) =~= Seq::<(Seq<char>, JsonV)>::empty());
        assert(all.take(i as int) =~= all);
        assert(entries_view(es@) =~= want);
    }
}

/// The position of the entry for key `k` (see [`obj_find`]).
pub fn object_find(es: &Vec<(String, JsonValue)>, k: &str) -> (r: Option<usize>)
    ensures
        match r {
            Some(i) => obj_find(entries_view(es@), k@) == Some(i as int),
            None => obj_find(entries_view(es@), k@) is None,
        },
{
    let ghost all = entries_view(es@);
    proof {
        lemma_entries_view(es@);
        assert(all.skip(0) =~= all);
    }
    let key = String::from_str(k);
    let mut i: usize = 0;
    while i < es.len()
        invariant
            i <= es@.len(),
            all == entries_view(es@),
            all.len() == es@.len(),
            forall|j: int| 0 <= j < es@.len() ==> #[trigger] all[j] == (es@[j].0@, json_view(es@[j].1)),
            key@ == k@,
            obj_find(all, k@) == (match obj_find(all.skip(i as int), k@) {
                Some(q) => Some(q + i),
                None => None::<int>,
            }),
        decreases es@.len() - i,
    {
        proof {
            assert(all.skip(i as int)[0] == all[i as int]);
            assert(all.skip(i as int).drop_first() =~= all.skip(i + 1));
        }
        if es[i].0.eq(&key) {
            return Some(i);
        }
        i = i + 1;
    }
    None
}

// ---------------------------------------------------------------------------
// JSON text
// ---------------------------------------------------------------------------
/// How a character is written inside a JSON string: `"` and `\` escaped, the control
/// characters as `\b`, `\t`, `\n`, `\f`, `\r` or `\u00` and two lowercase hexadecimal
/// digits, any other character as itself.
pub open spec fn json_escape_char(c: char) -> Seq<char> {
    if c == '"' {
        seq!['\\', '"']
    } else if c == '\\' {
        seq!['\\', '\\']
    } else if c == '\u{8}' {
        seq!['\\', 'b']
    } else if c == '\t' {
        seq!['\\', 't']
    } else if c == '\n' {
        seq!['\\', 'n']
    } else if c == '\u{c}' {
        seq!['\\', 'f']
    } else if c == '\r' {
        seq!['\\', 'r']
    } else if (c as u32) < 0x20 {
        seq!['\\', 'u', '0', '0', hex_char((c as nat) / 16), hex_char((c as nat) % 16)]
    } else {
        seq![c]
    }
}

/// A text as a JSON string literal.
pub open spec fn json_escape(s: Seq<char>) -> Seq<char>
    decreases s.len(),
{
    if s.len() == 0 {
        Seq::empty()
    } else {
        json_escape(s.drop_last()) + json_escape_char(s.last())
    }
}

pub open spec fn json_quote(s: Seq<char>) -> Seq<char> {
    seq!['"'] + json_escape(s) + seq!['"']
}

/// A value as compact JSON text (no spaces).
pub open spec fn json_text(j: JsonV) -> Seq<char>
    decreases j,
{
    match j {
        JsonV::Null => seq!['n', 'u', 'l', 'l'],
        JsonV::Bool(b) => if b {
            seq!['t', 'r', 'u', 'e']
        } else {
            seq!['f', 'a', 'l', 's', 'e']
        },
        JsonV::Int(i) => int_text(i),
        JsonV::Float(t) => t,
        JsonV::Str(s) => json_quote(s),
        JsonV::Array(items) => seq!['['] + items_text(items) + seq![']'],
        JsonV::Object(es) => seq!['{'] + members_text(es) + seq!['}'],
    }
}

/// Values separated by commas.
pub open spec fn items_text(s: Seq<JsonV>) -> Seq<char>
    decreases s,
{
    if s.len() == 0 {
        Seq::empty()
    } else if s.len() == 1 {
        json_text(s[0])
    } else {
        items_text(s.drop_last()) + seq![','] + json_text(s.last())
    }
}

/// Object members `"key":value` separated by commas.
pub open spec fn members_text(s: Seq<(Seq<char>, JsonV)>) -> Seq<char>
    decreases s,
{
    if s.len() == 0 {
        Seq::empty()
    } else if s.len() == 1 {
        json_quote(s[0].0) + seq![':'] + json_text(s[0].1)
    } else {
        members_text(s.drop_last()) + seq![','] + json_quote(s.last().0) + seq![':'] + json_text(s.last().1)
    }
}

/// `serde_json::to_string` of a string: its JSON string literal. As serde_json's
/// source writes it (its `ESCAPE` table and `format_escaped_str`), the literal is the
/// text between double quotes with `"` and `\` escaped by a backslash, backspace,
/// tab, line feed, form feed and carriage return written `\b`, `\t`, `\n`, `\f`,
/// `\r`, every other character below U+0020 written `\u00` and two lowercase hex
/// digits, and every other character as it is; serializing a string does not fail.
#[verifier::external_body]
fn json_string_literal(s: &str) -> (r: String)
    ensures
        r@ == json_quote(s@),
{
    serde_json::to_string(s).unwrap_or_default()
}

fn push_json_quoted(out: &mut Vec<char>, s: &String)
    ensures
        final(out)@ == old(out)@ + json_quote(s@),
{
    let q = json_string_literal(s.as_str());
    push_str(out, q.as_str());
}

fn push_json(out: &mut Vec<char>, j: &JsonValue)
    ensures
        final(out)@ == old(out)@ + json_text(j@),
    decreases j, 1u64,
{
    let ghost before = out@;
    match j {
        JsonValue::Null => {
            out.push('n');
            out.push('u');
            out.push('l');
            out.push('l');
        },
        JsonValue::Bool(b) => if *b {
            out.push('t');
            out.push('r');
            out.push('u');
            out.push('e');
        } else {
            out.push('f');
            out.push('a');
            out.push('l');
            out.push('s');
            out.push('e');
        },
        JsonValue::Int(i) => push_int(out, *i),
        JsonValue::Float(t) => push_str(out, t.as_str()),
        JsonValue::String(s) => push_json_quoted(out, s),
        JsonValue::Array(items) => {
            out.push('[');
            push_json_items(out, items);
            out.push(']');
        },
        JsonValue::Object(es) => {
            out.push('{');
            push_json_members(out, es);
            out.push('}');
        },
    }
    proof {
        assert(out@ =~= before + json_text(j@));
    }
}

fn push_json_items(out: &mut Vec<char>, items: &Vec<JsonValue>)
    ensures
        final(out)@ == old(out)@ + items_text(jsons_view(items@)),
    decreases items@, 0u64,
{
    let ghost before = out@;
    proof {
        lemma_jsons_view(items@);
    }
    let ghost iv = jsons_view(items@);
    let mut i: usize = 0;
    proof {
        assert(iv.take(0) =~= Seq::<JsonV>::empty());
        assert(out@ =~= before + items_text(iv.take(0)));
    }
    while i < items.len()
        invariant
            i <= items@.len(),
            iv == jsons_view(items@),
            iv.len() == items@.len(),
            forall|k: int| 0 <= k < items@.len() ==> #[trigger] iv[k] == json_view(items@[k]),
            out@ == before + items_text(iv.take(i as int)),
        decreases items@.len() - i,
    {
        proof {
            assert(decreases_to!(items@ => items@[i as int]));
            assert(iv.take(i + 1).drop_last() =~= iv.take(i as int));
            assert(iv.take(i + 1).last() == iv[i as int]);
        }
        if i > 0 {
            out.push(',');
        }
        push_json(out, &items[i]);
        proof {
            if i == 0 {
                assert(iv.take(1)[0] == iv[0]);
            }
            assert(out@ =~= before + items_text(iv.take(i + 1)));
        }
        i = i + 1;
    }
    proof {
        assert(iv.take(i as int) =~= iv);
    }
}

fn push_json_members(out: &mut Vec<char>, es: &Vec<(String, JsonValue)>)
    ensures
        final(out)@ == old(out)@ + members_text(entries_view(es@)),
    decreases es@, 0u64,
{
    let ghost before = out@;
    proof {
        lemma_entries_view(es@);
    }
    let ghost ev = entries_view(es@);
    let mut i: usize = 0;
    proof {
        assert(ev.take(0) =~= Seq::<(Seq<char>, JsonV)>::empty());
        assert(out@ =~= before + members_text(ev.take(0)));
    }
    while i < es.len()
        invariant
            i <= es@.len(),
            ev == entries_view(es@),
            ev.len() == es@.len(),
            forall|k: int| 0 <= k < es@.len() ==> #[trigger] ev[k] == (es@[k].0@, json_view(es@[k].1)),
            out@ == before + members_text(ev.take(i as int)),
        decreases es@.len() - i,
    {
        proof {
            assert(decreases_to!(es@ => es@[i as int]));
            assert(decreases_to!(es@[i as int] => es@[i as int].1));
            assert(ev.take(i + 1).drop_last() =~= ev.take(i as int));
            assert(ev.take(i + 1).last() == ev[i as int]);
        }
        if i > 0 {
            out.push(',');
        }
        push_json_quoted(out, &es[i].0);
        out.push(':');
        push_json(out, &es[i].1);
        proof {
            if i == 0 {
                assert(ev.take(1)[0] == ev[0]);
            }
            assert(out@ =~= before + members_text(ev.take(i + 1)));
        }
        i = i + 1;
    }
    proof {
        assert(ev.take(i as int) =~= ev);
    }
}

impl JsonValue {
    /// The value as compact JSON text (what `Display` gives for a JSON value).
    pub fn to_json_text(&self) -> (r: String)
        ensures
            r@ == json_text(self@),
    {
        let mut out: Vec<char> = Vec::new();
        push_json(&mut out, self);
        proof {
            assert(out@ =~= json_text(self@));
        }
        string_from_chars(&out)
    }
}

} // verus!
