//! Conversion between AST nodes and the JSON form in which typed nodes are exchanged.
use crate::ast::{array_view, elements_view, lemma_array_view, lemma_elements_view, lemma_numbers_view, numbers_view, strs_view, ArrayElement, ArrayValue, AstNode, AstNodeKind, FieldType, FieldValue, NodeBodyElement, NodeField, NumberSequenceElement, Span};
use crate::conversion_spec::{element_type, fields_json, fixed_vec, flat_numbers, floats_json, item_numbers, json_fields, json_node, json_numbers, json_typed, json_typed_items, json_untyped, json_untyped_items, json_value, mismatch, node_json, schema_type, single, tuple_json, typed_items, typed_json, untyped_items, untyped_json, value_json};
use crate::error::ProtoError;
use crate::json::{entries_view, json_text, jsons_view, lemma_entries_view, lemma_jsons_view, lemma_obj_find, obj_find, object_find, object_insert, JsonV, JsonValue};
use crate::number::float_to_i64;
use crate::schema::get_builtin_schema;
use crate::text::string_from_chars;
use crate::validation::debug_value;
use crate::writer::{digits_text, int_text, push_digits, push_int, ProtoWriter};
use vstd::prelude::*;

verus! {

broadcast use vstd::std_specs::vec::group_vec_axioms;

/// The model of an optional field type.
pub open spec fn opt_type(o: Option<FieldType>) -> Option<crate::ast::FieldTypeV> {
    match o {
        Some(t) => Some(t@),
        None => None,
    }
}

/// True when `e` is the error of kind `parse` (a parse error, else a serialization
/// error) with message `m`.
pub open spec fn error_is(e: ProtoError, m: Seq<char>, parse: bool) -> bool {
    match e {
        ProtoError::ParseError(x) => parse && x@ == m,
        ProtoError::SerializationError(x) => !parse && x@ == m,
        _ => false,
    }
}

pub open spec fn json_res(r: Result<JsonValue, ProtoError>, s: Result<JsonV, Seq<char>>) -> bool {
    match (r, s) {
        (Ok(j), Ok(v)) => j@ == v,
        (Err(e), Err(m)) => error_is(e, m, false),
        _ => false,
    }
}

pub open spec fn jsons_res(r: Result<Vec<JsonValue>, ProtoError>, s: Result<Seq<JsonV>, Seq<char>>) -> bool {
    match (r, s) {
        (Ok(j), Ok(v)) => jsons_view(j@) == v,
        (Err(e), Err(m)) => error_is(e, m, false),
        _ => false,
    }
}

pub open spec fn entries_res(r: Result<Vec<(String, JsonValue)>, ProtoError>, s: Result<Seq<(Seq<char>, JsonV)>, Seq<char>>) -> bool {
    match (r, s) {
        (Ok(j), Ok(v)) => entries_view(j@) == v,
        (Err(e), Err(m)) => error_is(e, m, false),
        _ => false,
    }
}

pub open spec fn texts_res(r: Result<Vec<String>, ProtoError>, s: Result<Seq<Seq<char>>, Seq<char>>, parse: bool) -> bool {
    match (r, s) {
        (Ok(j), Ok(v)) => strs_view(j@) == v,
        (Err(e), Err(m)) => error_is(e, m, parse),
        _ => false,
    }
}

// ---------------------------------------------------------------------------
// Errors in a prefix are the errors of the whole
// ---------------------------------------------------------------------------
proof fn lemma_fields_json_prefix(t: Seq<char>, es: Seq<crate::ast::ElementV>, k: int)
    requires
        0 <= k <= es.len(),
        fields_json(t, es.take(k)) is Err,
    ensures
        fields_json(t, es) == fields_json(t, es.take(k)),
    decreases es.len() - k,
{
    if k < es.len() {
        assert(es.take(k + 1).drop_last() =~= es.take(k));
        lemma_fields_json_prefix(t, es, k + 1);
    } else {
        assert(es.take(k) =~= es);
    }
}

proof fn lemma_untyped_items_prefix(items: Seq<crate::ast::ValueV>, k: int)
    requires
        0 <= k <= items.len(),
        untyped_items(items.take(k)) is Err,
    ensures
        untyped_items(items) == untyped_items(items.take(k)),
    decreases items.len() - k,
{
    if k < items.len() {
        assert(items.take(k + 1).drop_last() =~= items.take(k));
        lemma_untyped_items_prefix(items, k + 1);
    } else {
        assert(items.take(k) =~= items);
    }
}

proof fn lemma_typed_items_prefix(items: Seq<crate::ast::ValueV>, ft: crate::ast::FieldTypeV, k: int)
    requires
        0 <= k <= items.len(),
        typed_items(items.take(k), ft) is Err,
    ensures
        typed_items(items, ft) == typed_items(items.take(k), ft),
    decreases items.len() - k,
{
    if k < items.len() {
        assert(items.take(k + 1).drop_last() =~= items.take(k));
        lemma_typed_items_prefix(items, ft, k + 1);
    } else {
        assert(items.take(k) =~= items);
    }
}

proof fn lemma_item_numbers_prefix(items: Seq<crate::ast::ValueV>, k: int)
    requires
        0 <= k <= items.len(),
        item_numbers(items.take(k)) is Err,
    ensures
        item_numbers(items) == item_numbers(items.take(k)),
    decreases items.len() - k,
{
    if k < items.len() {
        assert(items.take(k + 1).drop_last() =~= items.take(k));
        lemma_item_numbers_prefix(items, k + 1);
    } else {
        assert(items.take(k) =~= items);
    }
}

// ---------------------------------------------------------------------------
// Small builders
// ---------------------------------------------------------------------------
fn lit(s: &str) -> (r: String)
    ensures
        r@ == s@,
{
    String::from_str(s)
}

fn concat(a: &str, b: &str) -> (r: String)
    ensures
        r@ == a@ + b@,
{
    let mut s = String::from_str(a);
    s.append(b);
    s
}

/// `{k: v}`.
fn single_entry(k: String, v: JsonValue) -> (r: JsonValue)
    ensures
        r@ == single(k@, v@),
{
    let ghost kv = k@;
    let ghost vv = v@;
    let mut es: Vec<(String, JsonValue)> = Vec::new();
    es.push((k, v));
    proof {
        lemma_entries_view(es@);
        assert(entries_view(es@) =~= seq![(kv, vv)]);
    }
    JsonValue::Object(es)
}

fn int_string(v: i64) -> (r: String)
    ensures
        r@ == int_text(v),
{
    let mut out: Vec<char> = Vec::new();
    push_int(&mut out, v);
    proof {
        assert(out@ =~= int_text(v));
    }
    string_from_chars(&out)
}

fn count_string(n: usize) -> (r: String)
    ensures
        r@ == digits_text(n as nat),
{
    let mut out: Vec<char> = Vec::new();
    push_digits(&mut out, n as u64);
    proof {
        assert(out@ =~= digits_text(n as nat));
    }
    string_from_chars(&out)
}

fn clone_strings(a: &[String]) -> (r: Vec<String>)
    ensures
        strs_view(r@) == strs_view(a@),
{
    let mut out: Vec<String> = Vec::new();
    let mut i: usize = 0;
    while i < a.len()
        invariant
            i <= a@.len(),
            out@.len() == i,
            forall|k: int| 0 <= k < i ==> #[trigger] out@[k]@ == a@[k]@,
        decreases a@.len() - i,
    {
        out.push(a[i].clone());
        i = i + 1;
    }
    proof {
        assert(strs_view(out@) =~= strs_view(a@));
    }
    out
}

fn floats_of(ns: &Vec<String>) -> (r: Vec<JsonValue>)
    ensures
        jsons_view(r@) == floats_json(strs_view(ns@)),
{
    let mut out: Vec<JsonValue> = Vec::new();
    let mut i: usize = 0;
    while i < ns.len()
        invariant
            i <= ns@.len(),
            out@.len() == i,
            forall|k: int| 0 <= k < i ==> #[trigger] out@[k]@ == JsonV::Float(ns@[k]@),
        decreases ns@.len() - i,
    {
        out.push(JsonValue::Float(ns[i].clone()));
        i = i + 1;
    }
    proof {
        lemma_jsons_view(out@);
        assert forall|k: int| 0 <= k < out@.len() implies #[trigger] jsons_view(out@)[k] == floats_json(strs_view(ns@))[k] by {
            assert(out@[k]@ == JsonV::Float(ns@[k]@));
        }
        assert(jsons_view(out@) =~= floats_json(strs_view(ns@)));
    }
    out
}

/// The type the built-in schema gives field `name` of node type `t` (see
/// [`schema_type`]).
fn schema_field_type(t: &str, name: &str) -> (r: Option<FieldType>)
    ensures
        opt_type(r) == schema_type(t@, name@),
{
    match get_builtin_schema(t) {
        Some(s) => s.get_field_type(name),
        None => None,
    }
}

fn mismatch_error(expected: &str, v: &FieldValue) -> (r: ProtoError)
    ensures
        error_is(r, mismatch(expected@, v@), false),
{
    let mut m = concat("Expected ", expected);
    m.append(", got ");
    m.append(debug_value(v).as_str());
    ProtoError::SerializationError(m)
}

fn element_type_of(ft: &FieldType) -> (r: FieldType)
    ensures
        r@ == element_type(ft@),
{
    match ft {
        FieldType::MFBool => FieldType::SFBool,
        FieldType::MFInt32 => FieldType::SFInt32,
        FieldType::MFFloat => FieldType::SFFloat,
        FieldType::MFString => FieldType::SFString,
        FieldType::MFVec2f => FieldType::SFVec2f,
        FieldType::MFVec3f => FieldType::SFVec3f,
        FieldType::MFRotation => FieldType::SFRotation,
        FieldType::MFColor => FieldType::SFColor,
        _ => FieldType::SFNode,
    }
}

// ---------------------------------------------------------------------------
// From the AST
// ---------------------------------------------------------------------------
/// A node in the JSON form of typed nodes (see [`node_json`]).
pub fn ast_node_to_json(node: &AstNode) -> (r: Result<JsonValue, ProtoError>)
    ensures
        json_res(r, node_json(node@)),
    decreases node, 3u64,
{
    match &node.kind {
        AstNodeKind::Use { use_name } => Ok(single_entry(lit("Use"), JsonValue::String(use_name.clone()))),
        AstNodeKind::Node { node_type, def_name, fields } => match fields_to_json(node_type, fields) {
            Err(e) => Err(e),
            Ok(payload) => {
                let typed = single_entry(node_type.clone(), JsonValue::Object(payload));
                match def_name {
                    Some(d) => {
                        let ghost dv = d@;
                        let ghost tv = typed@;
                        let mut a: Vec<JsonValue> = Vec::new();
                        a.push(JsonValue::String(d.clone()));
                        a.push(typed);
                        proof {
                            lemma_jsons_view(a@);
                            assert(jsons_view(a@) =~= seq![JsonV::Str(dv), tv]);
                        }
                        Ok(single_entry(lit("Def"), JsonValue::Array(a)))
                    },
                    None => Ok(typed),
                }
            },
        },
    }
}

fn fields_to_json(t: &String, es: &Vec<NodeBodyElement>) -> (r: Result<Vec<(String, JsonValue)>, ProtoError>)
    ensures
        entries_res(r, fields_json(t@, elements_view(es@))),
    decreases es@, 3u64,
{
    let ghost ev = elements_view(es@);
    proof {
        lemma_elements_view(es@);
        assert(ev.take(0) =~= Seq::<crate::ast::ElementV>::empty());
    }
    let mut out: Vec<(String, JsonValue)> = Vec::new();
    let mut i: usize = 0;
    while i < es.len()
        invariant
            i <= es@.len(),
            ev == elements_view(es@),
            ev.len() == es@.len(),
            forall|k: int| 0 <= k < es@.len() ==> #[trigger] ev[k] == crate::ast::element_view(es@[k]),
            fields_json(t@, ev.take(i as int)) == Ok::<Seq<(Seq<char>, JsonV)>, Seq<char>>(entries_view(out@)),
        decreases es@.len() - i,
    {
        proof {
            assert(decreases_to!(es@ => es@[i as int]));
            assert(ev.take(i + 1).drop_last() =~= ev.take(i as int));
            assert(ev.take(i + 1).last() == ev[i as int]);
        }
        match &es[i] {
            NodeBodyElement::Field(f) => {
                proof {
                    assert(decreases_to!(es@[i as int] => f.value));
                }
                let et = schema_field_type(t.as_str(), f.name.as_str());
                let skip = match (&et, &f.value) {
                    (Some(FieldType::SFNode), FieldValue::Null) => true,
                    _ => false,
                };
                if !skip {
                    match &f.value {
                        FieldValue::Is(r) => {
                            let b = single_entry(lit("Is"), JsonValue::String(r.clone()));
                            object_insert(&mut out, f.name.clone(), b);
                        },
                        _ => match value_to_json(&f.value, &et) {
                            Err(e) => {
                                proof {
                                    lemma_fields_json_prefix(t@, ev, i + 1);
                                }
                                return Err(e);
                            },
                            Ok(j) => {
                                let b = single_entry(lit("Value"), j);
                                object_insert(&mut out, f.name.clone(), b);
                            },
                        },
                    }
                }
            },
            _ => {},
        }
        i = i + 1;
    }
    proof {
        assert(ev.take(i as int) =~= ev);
    }
    Ok(out)
}

fn value_to_json(v: &FieldValue, et: &Option<FieldType>) -> (r: Result<JsonValue, ProtoError>)
    ensures
        json_res(r, value_json(v@, opt_type(*et))),
    decreases v, 2u64,
{
    match et {
        Some(ft) => typed_to_json(v, ft),
        None => untyped_to_json(v),
    }
}

fn untyped_to_json(v: &FieldValue) -> (r: Result<JsonValue, ProtoError>)
    ensures
        json_res(r, untyped_json(v@)),
    decreases v, 0u64,
{
    match v {
        FieldValue::Bool(b) => Ok(JsonValue::Bool(*b)),
        FieldValue::Int(i, _) => Ok(JsonValue::Int(*i)),
        FieldValue::Float(t, _) => Ok(JsonValue::Float(t.clone())),
        FieldValue::String(s) => Ok(JsonValue::String(s.clone())),
        FieldValue::Vec2f(a) => Ok(JsonValue::Array(floats_of(&clone_strings(a)))),
        FieldValue::Vec3f(a) => Ok(JsonValue::Array(floats_of(&clone_strings(a)))),
        FieldValue::Rotation(a) => Ok(JsonValue::Array(floats_of(&clone_strings(a)))),
        FieldValue::Color(a) => Ok(JsonValue::Array(floats_of(&clone_strings(a)))),
        FieldValue::Node(c) => ast_node_to_json(c),
        FieldValue::Array(a) => match untyped_array(&a.elements) {
            Err(e) => Err(e),
            Ok(js) => Ok(JsonValue::Array(js)),
        },
        FieldValue::NumberSequence(s) => match untyped_numbers(&s.elements) {
            Err(e) => Err(e),
            Ok(js) => Ok(JsonValue::Array(js)),
        },
        FieldValue::Null => Ok(JsonValue::Null),
        FieldValue::Raw(r) => Ok(JsonValue::String(r.clone())),
        FieldValue::Template(_) => Err(
            ProtoError::SerializationError(lit("Template values are not supported in typed node conversion")),
        ),
        FieldValue::Is(r) => Ok(single_entry(lit("Is"), JsonValue::String(r.clone()))),
    }
}

fn untyped_array(items: &Vec<ArrayElement>) -> (r: Result<Vec<JsonValue>, ProtoError>)
    ensures
        jsons_res(r, untyped_items(array_view(items@))),
    decreases items@, 0u64,
{
    let ghost iv = array_view(items@);
    proof {
        lemma_array_view(items@);
        assert(iv.take(0) =~= Seq::<crate::ast::ValueV>::empty());
    }
    let mut out: Vec<JsonValue> = Vec::new();
    let mut i: usize = 0;
    while i < items.len()
        invariant
            i <= items@.len(),
            iv == array_view(items@),
            iv.len() == items@.len(),
            forall|k: int| 0 <= k < items@.len() ==> #[trigger] iv[k] == items@[k].value@,
            untyped_items(iv.take(i as int)) == Ok::<Seq<JsonV>, Seq<char>>(jsons_view(out@)),
        decreases items@.len() - i,
    {
        proof {
            assert(decreases_to!(items@ => items@[i as int]));
            assert(decreases_to!(items@[i as int] => items@[i as int].value));
            assert(iv.take(i + 1).drop_last() =~= iv.take(i as int));
            assert(iv.take(i + 1).last() == iv[i as int]);
        }
        match untyped_to_json(&items[i].value) {
            Err(e) => {
                proof {
                    lemma_untyped_items_prefix(iv, i + 1);
                }
                return Err(e);
            },
            Ok(j) => {
                let ghost before = out@;
                out.push(j);
                proof {
                    assert(out@.drop_last() =~= before);
                }
            },
        }
        i = i + 1;
    }
    proof {
        assert(iv.take(i as int) =~= iv);
    }
    Ok(out)
}

fn untyped_numbers(items: &Vec<NumberSequenceElement>) -> (r: Result<Vec<JsonValue>, ProtoError>)
    ensures
        jsons_res(r, untyped_items(numbers_view(items@))),
    decreases items@, 0u64,
{
    let ghost iv = numbers_view(items@);
    proof {
        lemma_numbers_view(items@);
        assert(iv.take(0) =~= Seq::<crate::ast::ValueV>::empty());
    }
    let mut out: Vec<JsonValue> = Vec::new();
    let mut i: usize = 0;
    while i < items.len()
        invariant
            i <= items@.len(),
            iv == numbers_view(items@),
            iv.len() == items@.len(),
            forall|k: int| 0 <= k < items@.len() ==> #[trigger] iv[k] == items@[k].value@,
            untyped_items(iv.take(i as int)) == Ok::<Seq<JsonV>, Seq<char>>(jsons_view(out@)),
        decreases items@.len() - i,
    {
        proof {
            assert(decreases_to!(items@ => items@[i as int]));
            assert(decreases_to!(items@[i as int] => items@[i as int].value));
            assert(iv.take(i + 1).drop_last() =~= iv.take(i as int));
            assert(iv.take(i + 1).last() == iv[i as int]);
        }
        match untyped_to_json(&items[i].value) {
            Err(e) => {
                proof {
                    lemma_untyped_items_prefix(iv, i + 1);
                }
                return Err(e);
            },
            Ok(j) => {
                let ghost before = out@;
                out.push(j);
                proof {
                    assert(out@.drop_last() =~= before);
                }
            },
        }
        i = i + 1;
    }
    proof {
        assert(iv.take(i as int) =~= iv);
    }
    Ok(out)
}

fn typed_to_json(v: &FieldValue, ft: &FieldType) -> (r: Result<JsonValue, ProtoError>)
    ensures
        json_res(r, typed_json(v@, ft@)),
    decreases v, 1u64,
{
    match ft {
        FieldType::SFBool => match v {
            FieldValue::Bool(b) => Ok(JsonValue::Bool(*b)),
            FieldValue::Int(i, _) => Ok(JsonValue::Bool(*i != 0)),
            _ => Err(mismatch_error("SFBool", v)),
        },
        FieldType::SFInt32 => match v {
            FieldValue::Int(i, _) => Ok(JsonValue::Int(*i)),
            FieldValue::Float(t, _) => Ok(JsonValue::Int(float_to_i64(t))),
            FieldValue::NumberSequence(s) => first_number_json(&s.elements, ft, "Empty number sequence for SFInt32"),
            _ => Err(mismatch_error("SFInt32", v)),
        },
        FieldType::SFFloat => match v {
            FieldValue::Float(t, _) => Ok(JsonValue::Float(t.clone())),
            FieldValue::Int(i, _) => Ok(JsonValue::Float(int_string(*i))),
            FieldValue::NumberSequence(s) => first_number_json(&s.elements, ft, "Empty number sequence for SFFloat"),
            _ => Err(mismatch_error("SFFloat", v)),
        },
        FieldType::SFString => match v {
            FieldValue::String(s) => Ok(JsonValue::String(s.clone())),
            _ => Err(mismatch_error("SFString", v)),
        },
        FieldType::SFVec2f => tuple_to_json(v, 2),
        FieldType::SFVec3f => tuple_to_json(v, 3),
        FieldType::SFColor => tuple_to_json(v, 3),
        FieldType::SFRotation => tuple_to_json(v, 4),
        FieldType::SFNode => match v {
            FieldValue::Node(c) => ast_node_to_json(c),
            FieldValue::Null => Ok(JsonValue::Null),
            _ => Err(mismatch_error("SFNode", v)),
        },
        FieldType::Unknown(_) => untyped_to_json(v),
        _ => match v {
            FieldValue::Array(a) => match typed_array(&a.elements, &element_type_of(ft)) {
                Err(e) => Err(e),
                Ok(js) => Ok(JsonValue::Array(js)),
            },
            _ => Err(mismatch_error("MF* array", v)),
        },
    }
}

fn first_number_json(items: &Vec<NumberSequenceElement>, ft: &FieldType, empty: &str) -> (r: Result<JsonValue, ProtoError>)
    ensures
        json_res(
            r,
            if numbers_view(items@).len() == 0 {
                Err(empty@)
            } else {
                typed_json(numbers_view(items@)[0], ft@)
            },
        ),
    decreases items@, 1u64,
{
    proof {
        lemma_numbers_view(items@);
    }
    if items.len() == 0 {
        return Err(ProtoError::SerializationError(lit(empty)));
    }
    proof {
        assert(decreases_to!(items@ => items@[0]));
        assert(decreases_to!(items@[0] => items@[0].value));
    }
    typed_to_json(&items[0].value, ft)
}

fn typed_array(items: &Vec<ArrayElement>, ft: &FieldType) -> (r: Result<Vec<JsonValue>, ProtoError>)
    ensures
        jsons_res(r, typed_items(array_view(items@), ft@)),
    decreases items@, 1u64,
{
    let ghost iv = array_view(items@);
    proof {
        lemma_array_view(items@);
        assert(iv.take(0) =~= Seq::<crate::ast::ValueV>::empty());
    }
    let mut out: Vec<JsonValue> = Vec::new();
    let mut i: usize = 0;
    while i < items.len()
        invariant
            i <= items@.len(),
            iv == array_view(items@),
            iv.len() == items@.len(),
            forall|k: int| 0 <= k < items@.len() ==> #[trigger] iv[k] == items@[k].value@,
            typed_items(iv.take(i as int), ft@) == Ok::<Seq<JsonV>, Seq<char>>(jsons_view(out@)),
        decreases items@.len() - i,
    {
        proof {
            assert(decreases_to!(items@ => items@[i as int]));
            assert(decreases_to!(items@[i as int] => items@[i as int].value));
            assert(iv.take(i + 1).drop_last() =~= iv.take(i as int));
            assert(iv.take(i + 1).last() == iv[i as int]);
        }
        match typed_to_json(&items[i].value, ft) {
            Err(e) => {
                proof {
                    lemma_typed_items_prefix(iv, ft@, i + 1);
                }
                return Err(e);
            },
            Ok(j) => {
                let ghost before = out@;
                out.push(j);
                proof {
                    assert(out@.drop_last() =~= before);
                }
            },
        }
        i = i + 1;
    }
    proof {
        assert(iv.take(i as int) =~= iv);
    }
    Ok(out)
}

/// The number texts of `items` (see [`item_numbers`]).
fn numbers_of(Ghost(items): Ghost<Seq<crate::ast::ValueV>>, vals: &Vec<&FieldValue>) -> (r: Result<Vec<String>, ProtoError>)
    requires
        vals@.len() == items.len(),
        forall|k: int| 0 <= k < items.len() ==> #[trigger] items[k] == vals@[k]@,
    ensures
        texts_res(r, item_numbers(items), false),
{
    let mut out: Vec<String> = Vec::new();
    let mut i: usize = 0;
    proof {
        assert(items.take(0) =~= Seq::<crate::ast::ValueV>::empty());
        assert(strs_view(out@) =~= Seq::<Seq<char>>::empty());
    }
    while i < vals.len()
        invariant
            i <= vals@.len(),
            vals@.len() == items.len(),
            forall|k: int| 0 <= k < items.len() ==> #[trigger] items[k] == vals@[k]@,
            item_numbers(items.take(i as int)) == Ok::<Seq<Seq<char>>, Seq<char>>(strs_view(out@)),
        decreases vals@.len() - i,
    {
        proof {
            assert(items.take(i + 1).drop_last() =~= items.take(i as int));
            assert(items.take(i + 1).last() == items[i as int]);
        }
        let ghost before = out@;
        match vals[i] {
            FieldValue::Float(t, _) => out.push(t.clone()),
            FieldValue::Int(n, _) => out.push(int_string(*n)),
            other => {
                proof {
                    lemma_item_numbers_prefix(items, i + 1);
                }
                let m = concat("Expected number, got ", debug_value(other).as_str());
                return Err(ProtoError::SerializationError(m));
            },
        }
        proof {
            assert(strs_view(out@) =~= strs_view(before).push(out@.last()@));
        }
        i = i + 1;
    }
    proof {
        assert(items.take(i as int) =~= items);
    }
    Ok(out)
}

fn array_values(items: &Vec<ArrayElement>) -> (r: Vec<&FieldValue>)
    ensures
        r@.len() == items@.len(),
        forall|k: int| 0 <= k < items@.len() ==> #[trigger] r@[k] == &items@[k].value,
{
    let mut out: Vec<&FieldValue> = Vec::new();
    let mut i: usize = 0;
    while i < items.len()
        invariant
            i <= items@.len(),
            out@.len() == i,
            forall|k: int| 0 <= k < i ==> #[trigger] out@[k] == &items@[k].value,
        decreases items@.len() - i,
    {
        out.push(&items[i].value);
        i = i + 1;
    }
    out
}

fn sequence_values(items: &Vec<NumberSequenceElement>) -> (r: Vec<&FieldValue>)
    ensures
        r@.len() == items@.len(),
        forall|k: int| 0 <= k < items@.len() ==> #[trigger] r@[k] == &items@[k].value,
{
    let mut out: Vec<&FieldValue> = Vec::new();
    let mut i: usize = 0;
    while i < items.len()
        invariant
            i <= items@.len(),
            out@.len() == i,
            forall|k: int| 0 <= k < i ==> #[trigger] out@[k] == &items@[k].value,
        decreases items@.len() - i,
    {
        out.push(&items[i].value);
        i = i + 1;
    }
    out
}

/// The numbers of a tuple value (see [`flat_numbers`]).
fn flat_number_texts(v: &FieldValue) -> (r: Result<Vec<String>, ProtoError>)
    ensures
        texts_res(r, flat_numbers(v@), false),
{
    match v {
        FieldValue::Vec2f(a) => Ok(clone_strings(a)),
        FieldValue::Vec3f(a) => Ok(clone_strings(a)),
        FieldValue::Color(a) => Ok(clone_strings(a)),
        FieldValue::Rotation(a) => Ok(clone_strings(a)),
        FieldValue::NumberSequence(s) => {
            proof {
                lemma_numbers_view(s.elements@);
            }
            numbers_of(Ghost(numbers_view(s.elements@)), &sequence_values(&s.elements))
        },
        FieldValue::Array(a) => {
            proof {
                lemma_array_view(a.elements@);
            }
            numbers_of(Ghost(array_view(a.elements@)), &array_values(&a.elements))
        },
        _ => Err(ProtoError::SerializationError(concat("Expected numeric tuple, got ", debug_value(v).as_str()))),
    }
}

fn tuple_to_json(v: &FieldValue, n: usize) -> (r: Result<JsonValue, ProtoError>)
    ensures
        json_res(r, tuple_json(v@, n as nat)),
{
    match flat_number_texts(v) {
        Err(e) => Err(e),
        Ok(ns) => if ns.len() != n {
            let mut m = concat("Expected ", count_string(n).as_str());
            m.append(" numbers, got ");
            m.append(count_string(ns.len()).as_str());
            Err(ProtoError::SerializationError(m))
        } else {
            Ok(JsonValue::Array(floats_of(&ns)))
        },
    }
}

// ---------------------------------------------------------------------------
// Back to the AST
// ---------------------------------------------------------------------------
pub open spec fn node_res(r: Result<AstNode, ProtoError>, s: Result<crate::ast::NodeV, Seq<char>>) -> bool {
    match (r, s) {
        (Ok(n), Ok(v)) => n@ == v,
        (Err(e), Err(m)) => error_is(e, m, true),
        _ => false,
    }
}

pub open spec fn value_res(r: Result<FieldValue, ProtoError>, s: Result<crate::ast::ValueV, Seq<char>>) -> bool {
    match (r, s) {
        (Ok(n), Ok(v)) => n@ == v,
        (Err(e), Err(m)) => error_is(e, m, true),
        _ => false,
    }
}

pub open spec fn elements_res(r: Result<Vec<NodeBodyElement>, ProtoError>, s: Result<Seq<crate::ast::ElementV>, Seq<char>>) -> bool {
    match (r, s) {
        (Ok(n), Ok(v)) => elements_view(n@) == v,
        (Err(e), Err(m)) => error_is(e, m, true),
        _ => false,
    }
}

pub open spec fn items_res(r: Result<Vec<ArrayElement>, ProtoError>, s: Result<Seq<crate::ast::ValueV>, Seq<char>>) -> bool {
    match (r, s) {
        (Ok(n), Ok(v)) => array_view(n@) == v,
        (Err(e), Err(m)) => error_is(e, m, true),
        _ => false,
    }
}

proof fn lemma_json_fields_prefix(t: Seq<char>, fs: Seq<(Seq<char>, JsonV)>, k: int)
    requires
        0 <= k <= fs.len(),
        json_fields(t, fs.take(k)) is Err,
    ensures
        json_fields(t, fs) == json_fields(t, fs.take(k)),
    decreases fs.len() - k,
{
    if k < fs.len() {
        assert(fs.take(k + 1).drop_last() =~= fs.take(k));
        lemma_json_fields_prefix(t, fs, k + 1);
    } else {
        assert(fs.take(k) =~= fs);
    }
}

proof fn lemma_json_untyped_prefix(items: Seq<JsonV>, k: int)
    requires
        0 <= k <= items.len(),
        json_untyped_items(items.take(k)) is Err,
    ensures
        json_untyped_items(items) == json_untyped_items(items.take(k)),
    decreases items.len() - k,
{
    if k < items.len() {
        assert(items.take(k + 1).drop_last() =~= items.take(k));
        lemma_json_untyped_prefix(items, k + 1);
    } else {
        assert(items.take(k) =~= items);
    }
}

proof fn lemma_json_typed_prefix(items: Seq<JsonV>, ft: crate::ast::FieldTypeV, k: int)
    requires
        0 <= k <= items.len(),
        json_typed_items(items.take(k), ft) is Err,
    ensures
        json_typed_items(items, ft) == json_typed_items(items.take(k), ft),
    decreases items.len() - k,
{
    if k < items.len() {
        assert(items.take(k + 1).drop_last() =~= items.take(k));
        lemma_json_typed_prefix(items, ft, k + 1);
    } else {
        assert(items.take(k) =~= items);
    }
}

proof fn lemma_json_numbers_prefix(items: Seq<JsonV>, k: int)
    requires
        0 <= k <= items.len(),
        json_numbers(items.take(k)) is Err,
    ensures
        json_numbers(items) == json_numbers(items.take(k)),
    decreases items.len() - k,
{
    if k < items.len() {
        assert(items.take(k + 1).drop_last() =~= items.take(k));
        lemma_json_numbers_prefix(items, k + 1);
    } else {
        assert(items.take(k) =~= items);
    }
}

fn parse_error(s: &str) -> (r: ProtoError)
    ensures
        error_is(r, s@, true),
{
    ProtoError::ParseError(lit(s))
}

fn with_json(prefix: &str, j: &JsonValue) -> (r: ProtoError)
    ensures
        error_is(r, prefix@ + json_text(j@), true),
{
    ProtoError::ParseError(concat(prefix, j.to_json_text().as_str()))
}

/// The AST node of a typed node in JSON form (see [`json_node`]).
pub fn json_to_ast_node(j: &JsonValue) -> (r: Result<AstNode, ProtoError>)
    ensures
        node_res(r, json_node(j@)),
    decreases j, 0u64,
{
    match j {
        JsonValue::Object(es) => entry_node(es),
        _ => Err(parse_error("Typed node JSON value is not an object")),
    }
}

fn entry_node(es: &Vec<(String, JsonValue)>) -> (r: Result<AstNode, ProtoError>)
    ensures
        node_res(r, json_node(JsonV::Object(entries_view(es@)))),
    decreases es@, 0u64,
{
    proof {
        lemma_entries_view(es@);
    }
    if es.len() != 1 {
        return Err(parse_error("Typed node JSON object must contain exactly one variant key"));
    }
    proof {
        assert(decreases_to!(es@ => es@[0]));
        assert(decreases_to!(es@[0] => es@[0].1));
    }
    let variant = &es[0].0;
    let payload = &es[0].1;
    if variant.eq(&lit("Use")) {
        match payload {
            JsonValue::String(s) => Ok(AstNode { kind: AstNodeKind::Use { use_name: s.clone() }, span: Span::zero() }),
            _ => Err(parse_error("Use variant payload must be a string")),
        }
    } else if variant.eq(&lit("Def")) {
        match payload {
            JsonValue::Array(a) => def_node(a),
            _ => Err(parse_error("Def variant payload must be [name, node]")),
        }
    } else {
        match payload {
            JsonValue::Object(fs) => match json_fields_to_ast(variant, fs) {
                Err(e) => Err(e),
                Ok(elements) => Ok(
                    AstNode {
                        kind: AstNodeKind::Node { node_type: variant.clone(), def_name: None, fields: elements },
                        span: Span::zero(),
                    },
                ),
            },
            _ => {
                let mut m = concat("Node variant '", variant.as_str());
                m.append("' payload must be an object");
                Err(ProtoError::ParseError(m))
            },
        }
    }
}

fn def_node(a: &Vec<JsonValue>) -> (r: Result<AstNode, ProtoError>)
    ensures
        node_res(
            r,
            json_node(JsonV::Object(seq![("Def"@, JsonV::Array(jsons_view(a@)))])),
        ),
    decreases a@, 0u64,
{
    proof {
        lemma_jsons_view(a@);
        reveal_strlit("Def");
        reveal_strlit("Use");
        assert("Def"@[0] != "Use"@[0]);
    }
    if a.len() != 2 {
        return Err(parse_error("Def variant payload must have exactly 2 elements"));
    }
    match &a[0] {
        JsonValue::String(d) => {
            proof {
                assert(decreases_to!(a@ => a@[1]));
            }
            match json_to_ast_node(&a[1]) {
                Err(e) => Err(e),
                Ok(inner) => match inner.kind {
                    AstNodeKind::Node { node_type, fields, .. } => Ok(
                        AstNode { kind: AstNodeKind::Node { node_type, def_name: Some(d.clone()), fields }, span: inner.span },
                    ),
                    AstNodeKind::Use { .. } => Err(parse_error("Def payload must wrap a standard node")),
                },
            }
        },
        _ => Err(parse_error("Def name must be a string")),
    }
}

fn json_fields_to_ast(t: &String, fs: &Vec<(String, JsonValue)>) -> (r: Result<Vec<NodeBodyElement>, ProtoError>)
    ensures
        elements_res(r, json_fields(t@, entries_view(fs@))),
    decreases fs@, 0u64,
{
    let ghost fv = entries_view(fs@);
    proof {
        lemma_entries_view(fs@);
        assert(fv.take(0) =~= Seq::<(Seq<char>, JsonV)>::empty());
    }
    let mut out: Vec<NodeBodyElement> = Vec::new();
    proof {
        assert(elements_view(out@) =~= Seq::<crate::ast::ElementV>::empty());
    }
    let mut i: usize = 0;
    while i < fs.len()
        invariant
            i <= fs@.len(),
            fv == entries_view(fs@),
            fv.len() == fs@.len(),
            forall|k: int| 0 <= k < fs@.len() ==> #[trigger] fv[k] == (fs@[k].0@, fs@[k].1@),
            json_fields(t@, fv.take(i as int)) == Ok::<Seq<crate::ast::ElementV>, Seq<char>>(elements_view(out@)),
        decreases fs@.len() - i,
    {
        proof {
            assert(decreases_to!(fs@ => fs@[i as int]));
            assert(decreases_to!(fs@[i as int] => fs@[i as int].1));
            assert(fv.take(i + 1).drop_last() =~= fv.take(i as int));
            assert(fv.take(i + 1).last() == fv[i as int]);
        }
        let name = &fs[i].0;
        let payload = &fs[i].1;
        let et = schema_field_type(t.as_str(), name.as_str());
        let value = match payload {
            JsonValue::Object(o) => match object_binding(o, name, &et) {
                Some(v) => v,
                None => json_to_value(payload, &et),
            },
            _ => json_to_value(payload, &et),
        };
        match value {
            Err(e) => {
                proof {
                    lemma_json_fields_prefix(t@, fv, i + 1);
                }
                return Err(e);
            },
            Ok(v) => {
                let ghost before = out@;
                out.push(NodeBodyElement::Field(NodeField { name: name.clone(), value: v, span: Span::zero() }));
                proof {
                    crate::ast::lemma_elements_view(out@);
                    crate::ast::lemma_elements_view(before);
                    assert(elements_view(out@) =~= elements_view(before).push(crate::ast::element_view(out@.last())));
                }
            },
        }
        i = i + 1;
    }
    proof {
        assert(fv.take(i as int) =~= fv);
    }
    Ok(out)
}

/// The value a field's object payload `o` gives: its `IS` binding or its `Value`
/// entry; `None` when it has neither, and the object itself is the value.
fn object_binding(o: &Vec<(String, JsonValue)>, name: &String, et: &Option<FieldType>) -> (r: Option<Result<FieldValue, ProtoError>>)
    ensures
        match obj_find(entries_view(o@), "Is"@) {
            Some(i) => r matches Some(v) && value_res(
                v,
                match entries_view(o@)[i].1 {
                    JsonV::Str(s) => Ok(crate::ast::ValueV::Is(s)),
                    _ => Err("Field '"@ + name@ + "' IS binding must be a string"@),
                },
            ),
            None => match obj_find(entries_view(o@), "Value"@) {
                Some(i) => r matches Some(v) && value_res(v, json_value(entries_view(o@)[i].1, opt_type(*et))),
                None => r is None,
            },
        },
    decreases o@, 4u64,
{
    proof {
        lemma_entries_view(o@);
        lemma_obj_find(entries_view(o@), "Is"@);
        lemma_obj_find(entries_view(o@), "Value"@);
    }
    match object_find(o, "Is") {
        Some(i) => match &o[i].1 {
            JsonValue::String(s) => {
                let v = FieldValue::Is(s.clone());
                proof {
                    assert(entries_view(o@)[i as int] == (o@[i as int].0@, o@[i as int].1@));
                    assert(o@[i as int].1@ == JsonV::Str(s@));
                    assert(obj_find(entries_view(o@), "Is"@) == Some(i as int));
                    assert(v@ == crate::ast::ValueV::Is(s@));
                }
                Some(Ok(v))
            },
            _ => {
                proof {
                    assert(entries_view(o@)[i as int] == (o@[i as int].0@, o@[i as int].1@));
                }
                let mut m = concat("Field '", name.as_str());
                m.append("' IS binding must be a string");
                Some(Err(ProtoError::ParseError(m)))
            },
        },
        None => match object_find(o, "Value") {
            Some(i) => {
                proof {
                    assert(decreases_to!(o@ => o@[i as int]));
                    assert(decreases_to!(o@[i as int] => o@[i as int].1));
                    assert(entries_view(o@)[i as int] == (o@[i as int].0@, o@[i as int].1@));
                }
                Some(json_to_value(&o[i].1, et))
            },
            None => None,
        },
    }
}

fn json_to_value(j: &JsonValue, et: &Option<FieldType>) -> (r: Result<FieldValue, ProtoError>)
    ensures
        value_res(r, json_value(j@, opt_type(*et))),
    decreases j, 3u64,
{
    if let JsonValue::Null = j {
        return Ok(FieldValue::Null);
    }
    match et {
        Some(ft) => json_typed_value(j, ft),
        None => json_untyped_value(j),
    }
}

fn json_untyped_value(j: &JsonValue) -> (r: Result<FieldValue, ProtoError>)
    ensures
        value_res(r, json_untyped(j@)),
    decreases j, 1u64,
{
    match j {
        JsonValue::Null => Ok(FieldValue::Null),
        JsonValue::Bool(b) => Ok(FieldValue::Bool(*b)),
        JsonValue::Int(i) => Ok(FieldValue::Int(*i, None)),
        JsonValue::Float(t) => Ok(FieldValue::Float(t.clone(), None)),
        JsonValue::String(s) => Ok(FieldValue::String(s.clone())),
        JsonValue::Array(items) => match json_untyped_array(items) {
            Err(e) => Err(e),
            Ok(vs) => Ok(FieldValue::Array(ArrayValue { elements: vs })),
        },
        JsonValue::Object(_) => match json_to_ast_node(j) {
            Ok(n) => Ok(FieldValue::Node(Box::new(n))),
            Err(_) => Ok(FieldValue::Raw(j.to_json_text())),
        },
    }
}

fn json_untyped_array(items: &Vec<JsonValue>) -> (r: Result<Vec<ArrayElement>, ProtoError>)
    ensures
        items_res(r, json_untyped_items(jsons_view(items@))),
    decreases items@, 1u64,
{
    let ghost iv = jsons_view(items@);
    proof {
        lemma_jsons_view(items@);
        assert(iv.take(0) =~= Seq::<JsonV>::empty());
    }
    let mut out: Vec<ArrayElement> = Vec::new();
    proof {
        assert(array_view(out@) =~= Seq::<crate::ast::ValueV>::empty());
    }
    let mut i: usize = 0;
    while i < items.len()
        invariant
            i <= items@.len(),
            iv == jsons_view(items@),
            iv.len() == items@.len(),
            forall|k: int| 0 <= k < items@.len() ==> #[trigger] iv[k] == items@[k]@,
            json_untyped_items(iv.take(i as int)) == Ok::<Seq<crate::ast::ValueV>, Seq<char>>(array_view(out@)),
        decreases items@.len() - i,
    {
        proof {
            assert(decreases_to!(items@ => items@[i as int]));
            assert(iv.take(i + 1).drop_last() =~= iv.take(i as int));
            assert(iv.take(i + 1).last() == iv[i as int]);
        }
        match json_untyped_value(&items[i]) {
            Err(e) => {
                proof {
                    lemma_json_untyped_prefix(iv, i + 1);
                }
                return Err(e);
            },
            Ok(v) => {
                let ghost before = out@;
                out.push(ArrayElement { value: v });
                proof {
                    assert(out@.drop_last() =~= before);
                }
            },
        }
        i = i + 1;
    }
    proof {
        assert(iv.take(i as int) =~= iv);
    }
    Ok(out)
}

fn json_typed_value(j: &JsonValue, ft: &FieldType) -> (r: Result<FieldValue, ProtoError>)
    ensures
        value_res(r, json_typed(j@, ft@)),
    decreases j, 2u64,
{
    match ft {
        FieldType::SFBool => match j {
            JsonValue::Bool(b) => Ok(FieldValue::Bool(*b)),
            _ => Err(with_json("Expected bool for SFBool, got ", j)),
        },
        FieldType::SFInt32 => match j {
            JsonValue::Int(i) => Ok(FieldValue::Int(*i, None)),
            _ => Err(with_json("Expected integer for SFInt32, got ", j)),
        },
        FieldType::SFFloat => match j {
            JsonValue::Float(t) => Ok(FieldValue::Float(t.clone(), None)),
            JsonValue::Int(i) => Ok(FieldValue::Float(int_string(*i), None)),
            _ => Err(with_json("Expected number for SFFloat, got ", j)),
        },
        FieldType::SFString => match j {
            JsonValue::String(s) => Ok(FieldValue::String(s.clone())),
            _ => Err(with_json("Expected string for SFString, got ", j)),
        },
        FieldType::SFVec2f => fixed_vec_value(j, 2),
        FieldType::SFVec3f => fixed_vec_value(j, 3),
        FieldType::SFRotation => fixed_vec_value(j, 4),
        FieldType::SFColor => fixed_vec_value(j, 3),
        FieldType::SFNode => {
            if let JsonValue::Null = j {
                return Ok(FieldValue::Null);
            }
            match json_to_ast_node(j) {
                Err(e) => Err(e),
                Ok(n) => Ok(FieldValue::Node(Box::new(n))),
            }
        },
        FieldType::Unknown(_) => {
            if let JsonValue::Null = j {
                return Ok(FieldValue::Null);
            }
            json_untyped_value(j)
        },
        _ => match j {
            JsonValue::Array(items) => match json_typed_array(items, &element_type_of(ft)) {
                Err(e) => Err(e),
                Ok(vs) => Ok(FieldValue::Array(ArrayValue { elements: vs })),
            },
            _ => {
                let mut m = concat("Expected array for ", ProtoWriter::new().field_type_name(ft).as_str());
                m.append(", got ");
                m.append(j.to_json_text().as_str());
                Err(ProtoError::ParseError(m))
            },
        },
    }
}

fn json_typed_array(items: &Vec<JsonValue>, ft: &FieldType) -> (r: Result<Vec<ArrayElement>, ProtoError>)
    ensures
        items_res(r, json_typed_items(jsons_view(items@), ft@)),
    decreases items@, 2u64,
{
    let ghost iv = jsons_view(items@);
    proof {
        lemma_jsons_view(items@);
        assert(iv.take(0) =~= Seq::<JsonV>::empty());
    }
    let mut out: Vec<ArrayElement> = Vec::new();
    proof {
        assert(array_view(out@) =~= Seq::<crate::ast::ValueV>::empty());
    }
    let mut i: usize = 0;
    while i < items.len()
        invariant
            i <= items@.len(),
            iv == jsons_view(items@),
            iv.len() == items@.len(),
            forall|k: int| 0 <= k < items@.len() ==> #[trigger] iv[k] == items@[k]@,
            json_typed_items(iv.take(i as int), ft@) == Ok::<Seq<crate::ast::ValueV>, Seq<char>>(array_view(out@)),
        decreases items@.len() - i,
    {
        proof {
            assert(decreases_to!(items@ => items@[i as int]));
            assert(iv.take(i + 1).drop_last() =~= iv.take(i as int));
            assert(iv.take(i + 1).last() == iv[i as int]);
        }
        match json_typed_value(&items[i], ft) {
            Err(e) => {
                proof {
                    lemma_json_typed_prefix(iv, ft@, i + 1);
                }
                return Err(e);
            },
            Ok(v) => {
                let ghost before = out@;
                out.push(ArrayElement { value: v });
                proof {
                    assert(out@.drop_last() =~= before);
                }
            },
        }
        i = i + 1;
    }
    proof {
        assert(iv.take(i as int) =~= iv);
    }
    Ok(out)
}

fn json_number_texts(items: &Vec<JsonValue>) -> (r: Result<Vec<String>, ProtoError>)
    ensures
        texts_res(r, json_numbers(jsons_view(items@)), true),
        r matches Ok(ns) ==> ns@.len() == items@.len(),
{
    let ghost iv = jsons_view(items@);
    proof {
        lemma_jsons_view(items@);
        assert(iv.take(0) =~= Seq::<JsonV>::empty());
    }
    let mut out: Vec<String> = Vec::new();
    proof {
        assert(strs_view(out@) =~= Seq::<Seq<char>>::empty());
    }
    let mut i: usize = 0;
    while i < items.len()
        invariant
            i <= items@.len(),
            iv == jsons_view(items@),
            iv.len() == items@.len(),
            forall|k: int| 0 <= k < items@.len() ==> #[trigger] iv[k] == items@[k]@,
            json_numbers(iv.take(i as int)) == Ok::<Seq<Seq<char>>, Seq<char>>(strs_view(out@)),
            out@.len() == i,
        decreases items@.len() - i,
    {
        proof {
            assert(iv.take(i + 1).drop_last() =~= iv.take(i as int));
            assert(iv.take(i + 1).last() == iv[i as int]);
        }
        let ghost before = out@;
        match &items[i] {
            JsonValue::Float(t) => out.push(t.clone()),
            JsonValue::Int(n) => out.push(int_string(*n)),
            other => {
                proof {
                    lemma_json_numbers_prefix(iv, i + 1);
                }
                return Err(with_json("Expected numeric entry, got ", other));
            },
        }
        proof {
            assert(strs_view(out@) =~= strs_view(before).push(out@.last()@));
        }
        i = i + 1;
    }
    proof {
        assert(iv.take(i as int) =~= iv);
    }
    Ok(out)
}

fn fixed_vec_value(j: &JsonValue, n: usize) -> (r: Result<FieldValue, ProtoError>)
    requires
        2 <= n <= 4,
    ensures
        value_res(r, fixed_vec(j@, n as nat)),
{
    match j {
        JsonValue::Array(items) => {
            proof {
                lemma_jsons_view(items@);
            }
            if items.len() != n {
                let mut m = concat("Expected ", count_string(n).as_str());
                m.append(" values, got ");
                m.append(count_string(items.len()).as_str());
                return Err(ProtoError::ParseError(m));
            }
            match json_number_texts(items) {
                Err(e) => Err(e),
                Ok(ns) => {
                    if n == 2 {
                        let a = [ns[0].clone(), ns[1].clone()];
                        proof {
                            assert(strs_view(a@) =~= strs_view(ns@));
                        }
                        Ok(FieldValue::Vec2f(a))
                    } else if n == 3 {
                        let a = [ns[0].clone(), ns[1].clone(), ns[2].clone()];
                        proof {
                            assert(strs_view(a@) =~= strs_view(ns@));
                        }
                        Ok(FieldValue::Vec3f(a))
                    } else {
                        let a = [ns[0].clone(), ns[1].clone(), ns[2].clone(), ns[3].clone()];
                        proof {
                            assert(strs_view(a@) =~= strs_view(ns@));
                        }
                        Ok(FieldValue::Rotation(a))
                    }
                },
            }
        },
        _ => Err(with_json("Expected number array, got ", j)),
    }
}

} // verus!
