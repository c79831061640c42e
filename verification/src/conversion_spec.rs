//! What converting between AST nodes and the JSON form of typed nodes gives.
use crate::ast::{ElementV, FieldTypeV, NodeKindV, NodeV, Span, ValueV};
use crate::json::{json_text, lemma_obj_find, obj_find, obj_insert, JsonV};
use crate::lexer::is_digit;
use crate::schema::{builtin_schema, find_field};
use crate::validation_spec::{scalar_match, value_debug};
use crate::writer::{digits_text, field_type_text, int_text};
use vstd::prelude::*;

verus! {

/// The type the built-in schema gives field `name` of node type `t`, if any.
pub open spec fn schema_type(t: Seq<char>, name: Seq<char>) -> Option<FieldTypeV> {
    match builtin_schema(t) {
        Some(fs) => find_field(fs, name),
        None => None,
    }
}

// ---------------------------------------------------------------------------
// A number's integer part
// ---------------------------------------------------------------------------
pub open spec fn digit_value(c: char) -> nat {
    if is_digit(c) {
        (c as int - '0' as int) as nat
    } else {
        0
    }
}

/// The value of a run of decimal digits.
pub open spec fn dec_value(d: Seq<char>) -> nat
    decreases d.len(),
{
    if d.len() == 0 {
        0
    } else {
        dec_value(d.drop_last()) * 10 + digit_value(d.last())
    }
}

/// The position of the first character of `s` that satisfies `is_marker` (the
/// exponent marker or the decimal point), or the length of `s`.
pub open spec fn exp_pos(s: Seq<char>) -> nat
    decreases s.len(),
{
    if s.len() == 0 || s[0] == 'e' || s[0] == 'E' {
        0
    } else {
        1 + exp_pos(s.drop_first())
    }
}

pub open spec fn dot_pos(s: Seq<char>) -> nat
    decreases s.len(),
{
    if s.len() == 0 || s[0] == '.' {
        0
    } else {
        1 + dot_pos(s.drop_first())
    }
}

/// The text of a number without its sign.
pub open spec fn unsigned_part(t: Seq<char>) -> Seq<char> {
    if t.len() > 0 && (t[0] == '-' || t[0] == '+') {
        t.drop_first()
    } else {
        t
    }
}

pub open spec fn mantissa(t: Seq<char>) -> Seq<char> {
    unsigned_part(t).take(exp_pos(unsigned_part(t)) as int)
}

/// The exponent of a number: the signed value of the digits after `e`, or 0.
pub open spec fn exponent(t: Seq<char>) -> int {
    let b = unsigned_part(t);
    let p = exp_pos(b);
    if p < b.len() {
        let x = b.skip(p as int + 1);
        if x.len() > 0 && x[0] == '-' {
            -(dec_value(x.drop_first()) as int)
        } else if x.len() > 0 && x[0] == '+' {
            dec_value(x.drop_first()) as int
        } else {
            dec_value(x) as int
        }
    } else {
        0
    }
}

/// The digits before the decimal point, and those after it.
pub open spec fn int_part(t: Seq<char>) -> Seq<char> {
    mantissa(t).take(dot_pos(mantissa(t)) as int)
}

pub open spec fn frac_part(t: Seq<char>) -> Seq<char> {
    let m = mantissa(t);
    if dot_pos(m) < m.len() {
        m.skip(dot_pos(m) as int + 1)
    } else {
        Seq::empty()
    }
}

pub open spec fn zeros(k: nat) -> Seq<char> {
    Seq::new(k, |i: int| '0')
}

/// The digits of the integer part of a decimal number: its digits with the decimal
/// point moved by the exponent, cut after the point.
pub open spec fn trunc_digits(t: Seq<char>) -> Seq<char> {
    let m = int_part(t) + frac_part(t);
    let p = int_part(t).len() + exponent(t);
    if p <= 0 {
        Seq::empty()
    } else if p <= m.len() {
        m.take(p)
    } else {
        m + zeros((p - m.len()) as nat)
    }
}

pub open spec fn saturate(v: int) -> i64 {
    if v > i64::MAX {
        i64::MAX
    } else if v < i64::MIN {
        i64::MIN
    } else {
        v as i64
    }
}

/// A decimal number truncated toward zero to an `i64`, saturating at its bounds.
pub open spec fn float_trunc(t: Seq<char>) -> i64 {
    let v = dec_value(trunc_digits(t)) as int;
    saturate(
        if t.len() > 0 && t[0] == '-' {
            -v
        } else {
            v
        },
    )
}

// ---------------------------------------------------------------------------
// From the AST
// ---------------------------------------------------------------------------
pub open spec fn single(k: Seq<char>, v: JsonV) -> JsonV {
    JsonV::Object(seq![(k, v)])
}

pub open spec fn mismatch(expected: Seq<char>, v: ValueV) -> Seq<char> {
    "Expected "@ + expected + ", got "@ + value_debug(v)
}

/// A node in the JSON form of typed nodes: `{"Use": name}`, `{Type: {field: ...}}`,
/// or `{"Def": [name, {Type: ...}]}`; or the message of the first value that cannot be
/// converted.
pub open spec fn node_json(n: NodeV) -> Result<JsonV, Seq<char>>
    decreases n, 3int,
{
    match n.kind {
        NodeKindV::Use { use_name } => Ok(single("Use"@, JsonV::Str(use_name))),
        NodeKindV::Node { node_type, def_name, fields } => match fields_json(node_type, fields) {
            Err(e) => Err(e),
            Ok(payload) => {
                let typed = single(node_type, JsonV::Object(payload));
                match def_name {
                    Some(d) => Ok(single("Def"@, JsonV::Array(seq![JsonV::Str(d), typed]))),
                    None => Ok(typed),
                }
            },
        },
    }
}

/// The fields of a node of type `t` as an object: `{"Is": name}` for an `IS`
/// binding, `{"Value": ...}` otherwise; a NULL in a field the schema types SFNode is
/// left out, and so are the template and raw elements.
pub open spec fn fields_json(t: Seq<char>, es: Seq<ElementV>) -> Result<Seq<(Seq<char>, JsonV)>, Seq<char>>
    decreases es, 3int,
{
    if es.len() == 0 {
        Ok(Seq::empty())
    } else {
        match fields_json(t, es.drop_last()) {
            Err(e) => Err(e),
            Ok(p) => match es.last() {
                ElementV::Field { name, value, .. } => {
                    let et = schema_type(t, name);
                    if et == Some(FieldTypeV::SFNode) && value is Null {
                        Ok(p)
                    } else {
                        match value {
                            ValueV::Is(r) => Ok(obj_insert(p, name, single("Is"@, JsonV::Str(r)))),
                            _ => match value_json(value, et) {
                                Err(e) => Err(e),
                                Ok(j) => Ok(obj_insert(p, name, single("Value"@, j))),
                            },
                        }
                    }
                },
                _ => Ok(p),
            },
        }
    }
}

/// A field value, by the type the schema gives it when it gives one.
pub open spec fn value_json(v: ValueV, et: Option<FieldTypeV>) -> Result<JsonV, Seq<char>>
    decreases v, 2int,
{
    match et {
        Some(ft) => typed_json(v, ft),
        None => untyped_json(v),
    }
}

pub open spec fn floats_json(a: Seq<Seq<char>>) -> Seq<JsonV> {
    Seq::new(a.len(), |i: int| JsonV::Float(a[i]))
}

/// A value with no schema type: each kind as its JSON counterpart.
pub open spec fn untyped_json(v: ValueV) -> Result<JsonV, Seq<char>>
    decreases v, 0int,
{
    match v {
        ValueV::Bool(b) => Ok(JsonV::Bool(b)),
        ValueV::Int(i, _) => Ok(JsonV::Int(i)),
        ValueV::Float(t, _) => Ok(JsonV::Float(t)),
        ValueV::String(s) => Ok(JsonV::Str(s)),
        ValueV::Vec2f(a) => Ok(JsonV::Array(floats_json(a))),
        ValueV::Vec3f(a) => Ok(JsonV::Array(floats_json(a))),
        ValueV::Color(a) => Ok(JsonV::Array(floats_json(a))),
        ValueV::Rotation(a) => Ok(JsonV::Array(floats_json(a))),
        ValueV::Node(c) => node_json(*c),
        ValueV::Array(items) => match untyped_items(items) {
            Err(e) => Err(e),
            Ok(js) => Ok(JsonV::Array(js)),
        },
        ValueV::NumberSequence(items) => match untyped_items(items) {
            Err(e) => Err(e),
            Ok(js) => Ok(JsonV::Array(js)),
        },
        ValueV::Null => Ok(JsonV::Null),
        ValueV::Raw(r) => Ok(JsonV::Str(r)),
        ValueV::Template(_) => Err("Template values are not supported in typed node conversion"@),
        ValueV::Is(r) => Ok(single("Is"@, JsonV::Str(r))),
    }
}

pub open spec fn untyped_items(items: Seq<ValueV>) -> Result<Seq<JsonV>, Seq<char>>
    decreases items, 0int,
{
    if items.len() == 0 {
        Ok(Seq::empty())
    } else {
        match untyped_items(items.drop_last()) {
            Err(e) => Err(e),
            Ok(js) => match untyped_json(items.last()) {
                Err(e) => Err(e),
                Ok(j) => Ok(js.push(j)),
            },
        }
    }
}

/// The single-value type of the elements of a multiple-value type.
pub open spec fn element_type(ft: FieldTypeV) -> FieldTypeV {
    match ft {
        FieldTypeV::MFBool => FieldTypeV::SFBool,
        FieldTypeV::MFInt32 => FieldTypeV::SFInt32,
        FieldTypeV::MFFloat => FieldTypeV::SFFloat,
        FieldTypeV::MFString => FieldTypeV::SFString,
        FieldTypeV::MFVec2f => FieldTypeV::SFVec2f,
        FieldTypeV::MFVec3f => FieldTypeV::SFVec3f,
        FieldTypeV::MFRotation => FieldTypeV::SFRotation,
        FieldTypeV::MFColor => FieldTypeV::SFColor,
        _ => FieldTypeV::SFNode,
    }
}

pub open spec fn is_multiple(ft: FieldTypeV) -> bool {
    match ft {
        FieldTypeV::MFBool | FieldTypeV::MFInt32 | FieldTypeV::MFFloat | FieldTypeV::MFString
        | FieldTypeV::MFVec2f | FieldTypeV::MFVec3f | FieldTypeV::MFRotation | FieldTypeV::MFColor
        | FieldTypeV::MFNode => true,
        _ => false,
    }
}

/// A value of a known field type: booleans from booleans or integers (non-zero is
/// true), integers from integers or from numbers cut to their integer part, numbers
/// from numbers, the first element of a number sequence for a single number, tuples
/// of 2, 3 or 4 numbers, nodes or NULL, and arrays element by element.
pub open spec fn typed_json(v: ValueV, ft: FieldTypeV) -> Result<JsonV, Seq<char>>
    decreases v, 1int,
{
    match ft {
        FieldTypeV::SFBool => match v {
            ValueV::Bool(b) => Ok(JsonV::Bool(b)),
            ValueV::Int(i, _) => Ok(JsonV::Bool(i != 0)),
            _ => Err(mismatch("SFBool"@, v)),
        },
        FieldTypeV::SFInt32 => match v {
            ValueV::Int(i, _) => Ok(JsonV::Int(i)),
            ValueV::Float(t, _) => Ok(JsonV::Int(float_trunc(t))),
            ValueV::NumberSequence(items) => if items.len() == 0 {
                Err("Empty number sequence for SFInt32"@)
            } else {
                typed_json(items[0], ft)
            },
            _ => Err(mismatch("SFInt32"@, v)),
        },
        FieldTypeV::SFFloat => match v {
            ValueV::Float(t, _) => Ok(JsonV::Float(t)),
            ValueV::Int(i, _) => Ok(JsonV::Float(int_text(i))),
            ValueV::NumberSequence(items) => if items.len() == 0 {
                Err("Empty number sequence for SFFloat"@)
            } else {
                typed_json(items[0], ft)
            },
            _ => Err(mismatch("SFFloat"@, v)),
        },
        FieldTypeV::SFString => match v {
            ValueV::String(s) => Ok(JsonV::Str(s)),
            _ => Err(mismatch("SFString"@, v)),
        },
        FieldTypeV::SFVec2f => tuple_json(v, 2),
        FieldTypeV::SFVec3f => tuple_json(v, 3),
        FieldTypeV::SFColor => tuple_json(v, 3),
        FieldTypeV::SFRotation => tuple_json(v, 4),
        FieldTypeV::SFNode => match v {
            ValueV::Node(c) => node_json(*c),
            ValueV::Null => Ok(JsonV::Null),
            _ => Err(mismatch("SFNode"@, v)),
        },
        FieldTypeV::Unknown(_) => untyped_json(v),
        _ => match v {
            ValueV::Array(items) => match typed_items(items, element_type(ft)) {
                Err(e) => Err(e),
                Ok(js) => Ok(JsonV::Array(js)),
            },
            _ => Err(mismatch("MF* array"@, v)),
        },
    }
}

pub open spec fn typed_items(items: Seq<ValueV>, ft: FieldTypeV) -> Result<Seq<JsonV>, Seq<char>>
    decreases items, 1int,
{
    if items.len() == 0 {
        Ok(Seq::empty())
    } else {
        match typed_items(items.drop_last(), ft) {
            Err(e) => Err(e),
            Ok(js) => match typed_json(items.last(), ft) {
                Err(e) => Err(e),
                Ok(j) => Ok(js.push(j)),
            },
        }
    }
}

/// The numbers of a tuple value, as decimal texts.
pub open spec fn flat_numbers(v: ValueV) -> Result<Seq<Seq<char>>, Seq<char>> {
    match v {
        ValueV::Vec2f(a) => Ok(a),
        ValueV::Vec3f(a) => Ok(a),
        ValueV::Color(a) => Ok(a),
        ValueV::Rotation(a) => Ok(a),
        ValueV::NumberSequence(items) => item_numbers(items),
        ValueV::Array(items) => item_numbers(items),
        _ => Err("Expected numeric tuple, got "@ + value_debug(v)),
    }
}

pub open spec fn item_numbers(items: Seq<ValueV>) -> Result<Seq<Seq<char>>, Seq<char>>
    decreases items.len(),
{
    if items.len() == 0 {
        Ok(Seq::empty())
    } else {
        match item_numbers(items.drop_last()) {
            Err(e) => Err(e),
            Ok(ns) => match items.last() {
                ValueV::Float(t, _) => Ok(ns.push(t)),
                ValueV::Int(i, _) => Ok(ns.push(int_text(i))),
                other => Err("Expected number, got "@ + value_debug(other)),
            },
        }
    }
}

pub open spec fn tuple_json(v: ValueV, n: nat) -> Result<JsonV, Seq<char>> {
    match flat_numbers(v) {
        Err(e) => Err(e),
        Ok(ns) => if ns.len() != n {
            Err("Expected "@ + digits_text(n) + " numbers, got "@ + digits_text(ns.len()))
        } else {
            Ok(JsonV::Array(floats_json(ns)))
        },
    }
}

// ---------------------------------------------------------------------------
// Back to the AST
// ---------------------------------------------------------------------------
pub open spec fn zero_span() -> Span {
    Span { start: 0, end: 0, start_line: 0, start_col: 0, end_line: 0, end_col: 0 }
}

/// The AST node of a typed node in JSON form, with no source positions; or the
/// message of the first part that is not in that form.
pub open spec fn json_node(j: JsonV) -> Result<NodeV, Seq<char>>
    decreases j, 0int,
{
    match j {
        JsonV::Object(es) => if es.len() != 1 {
            Err("Typed node JSON object must contain exactly one variant key"@)
        } else {
            let variant = es[0].0;
            let payload = es[0].1;
            if variant == "Use"@ {
                match payload {
                    JsonV::Str(s) => Ok(NodeV { kind: NodeKindV::Use { use_name: s }, span: zero_span() }),
                    _ => Err("Use variant payload must be a string"@),
                }
            } else if variant == "Def"@ {
                match payload {
                    JsonV::Array(a) => if a.len() != 2 {
                        Err("Def variant payload must have exactly 2 elements"@)
                    } else {
                        match a[0] {
                            JsonV::Str(d) => match json_node(a[1]) {
                                Err(e) => Err(e),
                                Ok(inner) => match inner.kind {
                                    NodeKindV::Node { node_type, fields, .. } => Ok(
                                        NodeV {
                                            kind: NodeKindV::Node { node_type, def_name: Some(d), fields },
                                            span: inner.span,
                                        },
                                    ),
                                    NodeKindV::Use { .. } => Err("Def payload must wrap a standard node"@),
                                },
                            },
                            _ => Err("Def name must be a string"@),
                        }
                    },
                    _ => Err("Def variant payload must be [name, node]"@),
                }
            } else {
                match payload {
                    JsonV::Object(fs) => match json_fields(variant, fs) {
                        Err(e) => Err(e),
                        Ok(elements) => Ok(
                            NodeV {
                                kind: NodeKindV::Node { node_type: variant, def_name: None, fields: elements },
                                span: zero_span(),
                            },
                        ),
                    },
                    _ => Err("Node variant '"@ + variant + "' payload must be an object"@),
                }
            }
        },
        _ => Err("Typed node JSON value is not an object"@),
    }
}

/// The fields of a node of type `t`, in the order of the object: an `{"Is": name}`
/// object gives an `IS` binding, a `{"Value": ...}` object its value, anything else
/// is the value itself.
pub open spec fn json_fields(t: Seq<char>, fs: Seq<(Seq<char>, JsonV)>) -> Result<Seq<ElementV>, Seq<char>>
    decreases fs, 0int,
{
    if fs.len() == 0 {
        Ok(Seq::empty())
    } else {
        match json_fields(t, fs.drop_last()) {
            Err(e) => Err(e),
            Ok(els) => {
                let name = fs.last().0;
                let payload = fs.last().1;
                let et = schema_type(t, name);
                let value = match payload {
                    JsonV::Object(o) => match obj_find(o, "Is"@) {
                        Some(i) => {
                            proof {
                                lemma_obj_find(o, "Is"@);
                            }
                            match o[i].1 {
                                JsonV::Str(s) => Ok(ValueV::Is(s)),
                                _ => Err("Field '"@ + name + "' IS binding must be a string"@),
                            }
                        },
                        None => match obj_find(o, "Value"@) {
                            Some(i) => {
                                proof {
                                    lemma_obj_find(o, "Value"@);
                                }
                                json_value(o[i].1, et)
                            },
                            None => json_value(payload, et),
                        },
                    },
                    _ => json_value(payload, et),
                };
                match value {
                    Err(e) => Err(e),
                    Ok(v) => Ok(els.push(ElementV::Field { name, value: v, span: zero_span() })),
                }
            },
        }
    }
}

/// A JSON value as a field value: NULL for null, otherwise by the schema type when
/// there is one.
pub open spec fn json_value(j: JsonV, et: Option<FieldTypeV>) -> Result<ValueV, Seq<char>>
    decreases j, 3int,
{
    if j is Null {
        Ok(ValueV::Null)
    } else {
        match et {
            Some(ft) => json_typed(j, ft),
            None => json_untyped(j),
        }
    }
}

/// A JSON value with no schema type: each kind as its value counterpart; an object
/// is a node when it is one, and its JSON text otherwise.
pub open spec fn json_untyped(j: JsonV) -> Result<ValueV, Seq<char>>
    decreases j, 1int,
{
    match j {
        JsonV::Null => Ok(ValueV::Null),
        JsonV::Bool(b) => Ok(ValueV::Bool(b)),
        JsonV::Int(i) => Ok(ValueV::Int(i, None)),
        JsonV::Float(t) => Ok(ValueV::Float(t, None)),
        JsonV::Str(s) => Ok(ValueV::String(s)),
        JsonV::Array(items) => match json_untyped_items(items) {
            Err(e) => Err(e),
            Ok(vs) => Ok(ValueV::Array(vs)),
        },
        JsonV::Object(_) => match json_node(j) {
            Ok(n) => Ok(ValueV::Node(Box::new(n))),
            Err(_) => Ok(ValueV::Raw(json_text(j))),
        },
    }
}

pub open spec fn json_untyped_items(items: Seq<JsonV>) -> Result<Seq<ValueV>, Seq<char>>
    decreases items, 1int,
{
    if items.len() == 0 {
        Ok(Seq::empty())
    } else {
        match json_untyped_items(items.drop_last()) {
            Err(e) => Err(e),
            Ok(vs) => match json_untyped(items.last()) {
                Err(e) => Err(e),
                Ok(v) => Ok(vs.push(v)),
            },
        }
    }
}

/// A JSON value of a known field type (the inverse of [`typed_json`]).
pub open spec fn json_typed(j: JsonV, ft: FieldTypeV) -> Result<ValueV, Seq<char>>
    decreases j, 2int,
{
    match ft {
        FieldTypeV::SFBool => match j {
            JsonV::Bool(b) => Ok(ValueV::Bool(b)),
            _ => Err("Expected bool for SFBool, got "@ + json_text(j)),
        },
        FieldTypeV::SFInt32 => match j {
            JsonV::Int(i) => Ok(ValueV::Int(i, None)),
            _ => Err("Expected integer for SFInt32, got "@ + json_text(j)),
        },
        FieldTypeV::SFFloat => match j {
            JsonV::Float(t) => Ok(ValueV::Float(t, None)),
            JsonV::Int(i) => Ok(ValueV::Float(int_text(i), None)),
            _ => Err("Expected number for SFFloat, got "@ + json_text(j)),
        },
        FieldTypeV::SFString => match j {
            JsonV::Str(s) => Ok(ValueV::String(s)),
            _ => Err("Expected string for SFString, got "@ + json_text(j)),
        },
        FieldTypeV::SFVec2f => fixed_vec(j, 2),
        FieldTypeV::SFVec3f => fixed_vec(j, 3),
        FieldTypeV::SFRotation => fixed_vec(j, 4),
        FieldTypeV::SFColor => fixed_vec(j, 3),
        FieldTypeV::SFNode => if j is Null {
            Ok(ValueV::Null)
        } else {
            match json_node(j) {
                Err(e) => Err(e),
                Ok(n) => Ok(ValueV::Node(Box::new(n))),
            }
        },
        FieldTypeV::Unknown(_) => if j is Null {
            Ok(ValueV::Null)
        } else {
            json_untyped(j)
        },
        _ => match j {
            JsonV::Array(items) => match json_typed_items(items, element_type(ft)) {
                Err(e) => Err(e),
                Ok(vs) => Ok(ValueV::Array(vs)),
            },
            _ => Err("Expected array for "@ + field_type_text(ft) + ", got "@ + json_text(j)),
        },
    }
}

pub open spec fn json_typed_items(items: Seq<JsonV>, ft: FieldTypeV) -> Result<Seq<ValueV>, Seq<char>>
    decreases items, 2int,
{
    if items.len() == 0 {
        Ok(Seq::empty())
    } else {
        match json_typed_items(items.drop_last(), ft) {
            Err(e) => Err(e),
            Ok(vs) => match json_typed(items.last(), ft) {
                Err(e) => Err(e),
                Ok(v) => Ok(vs.push(v)),
            },
        }
    }
}

/// The numbers of a JSON array, as decimal texts.
pub open spec fn json_numbers(items: Seq<JsonV>) -> Result<Seq<Seq<char>>, Seq<char>>
    decreases items.len(),
{
    if items.len() == 0 {
        Ok(Seq::empty())
    } else {
        match json_numbers(items.drop_last()) {
            Err(e) => Err(e),
            Ok(ns) => match items.last() {
                JsonV::Float(t) => Ok(ns.push(t)),
                JsonV::Int(i) => Ok(ns.push(int_text(i))),
                other => Err("Expected numeric entry, got "@ + json_text(other)),
            },
        }
    }
}

/// Every value that validation accepts as it is for a boolean, integer, float or
/// string field converts to its typed JSON form; in particular an integer given for
/// a float field.
pub proof fn lemma_typed_accepts_valid_scalars(v: ValueV, t: FieldTypeV)
    requires
        t is SFBool || t is SFInt32 || t is SFFloat || t is SFString,
        scalar_match(v, t),
    ensures
        typed_json(v, t) is Ok,
{
}

/// An integer given for a float field converts to the number with the same value: the
/// same JSON number as the decimal with that integer's digits, alone or as the one
/// number of a sequence.
pub proof fn lemma_typed_float_of_int(i: i64, w: Option<Seq<char>>)
    ensures
        typed_json(ValueV::Int(i, w), FieldTypeV::SFFloat) == Ok::<JsonV, Seq<char>>(JsonV::Float(int_text(i))),
        typed_json(ValueV::Int(i, w), FieldTypeV::SFFloat) == typed_json(ValueV::Float(int_text(i), None), FieldTypeV::SFFloat),
        typed_json(ValueV::NumberSequence(seq![ValueV::Int(i, w)]), FieldTypeV::SFFloat) == typed_json(ValueV::Int(i, w), FieldTypeV::SFFloat),
{
}

/// A tuple of `n` numbers: a Vec2f, a Vec3f or a Rotation for 2, 3 or 4.
pub open spec fn fixed_vec(j: JsonV, n: nat) -> Result<ValueV, Seq<char>> {
    match j {
        JsonV::Array(items) => if items.len() != n {
            Err("Expected "@ + digits_text(n) + " values, got "@ + digits_text(items.len()))
        } else {
            match json_numbers(items) {
                Err(e) => Err(e),
                Ok(ns) => if n == 2 {
                    Ok(ValueV::Vec2f(ns))
                } else if n == 3 {
                    Ok(ValueV::Vec3f(ns))
                } else {
                    Ok(ValueV::Rotation(ns))
                },
            }
        },
        _ => Err("Expected number array, got "@ + json_text(j)),
    }
}

} // verus!
