//! Validation of documents against the Webots node schemas.
//!
//! Every function here reports exactly the diagnostics that its counterpart in
//! [`crate::validation_spec`] gives, in the same order.
use crate::ast::{array_view, element_view, elements_view, lemma_array_view, lemma_elements_view, lemma_numbers_view, numbers_view, value_view, ArrayElement, AstNode, AstNodeKind, FieldType, FieldValue, NodeBodyElement, Span, TemplateBlock, ValueV};
use crate::diagnostics::{DiagV, Diagnostic, DiagnosticSet, Severity};
use crate::lexer::{digits_value, is_digit};
use crate::schema::{get_builtin_schema, schema_fields_view, NodeSchema};
use crate::builtin_nodes::RawField;
use crate::ast::{NodeField, NodeV, BodyItemV, ProtoBodyItem, body_view, nodes_view, lemma_nodes_view, ElementV, Proto, ProtoDefinition, ProtoField, proto_fields_view, values_view, lemma_values_view};
use crate::validation_spec::{array_walk, body_walk, children_walk, def_type, document_diags, fields_walk, DefTable, find_iface, is_diags, known_field_diags, node_walk, nodes_walk, schema_names, semantics_diags, strings_view, closest_index, distance, header_diags, iface_field_diags, interface_diags, lev, child_solids, decimal_is_int, diag, duplicate_name_diags, effective_name, element_type, explicit_inertia, first_with, flat_check, get_field, group_size, inertia_warning, is_multiple, is_numeric, is_solid, items_diags, mismatch, plain_decimal, runtime_fields, runtime_items, runtime_node_diags, runtime_tree, runtime_value, scalar_match, sequence_fits, solids_from_items, solids_from_node, solids_from_value, type_name_text, value_debug, value_diags, values_equal};
use crate::writer::{digits_text, push_digits};
use vstd::prelude::*;

verus! {

broadcast use vstd::std_specs::vec::group_vec_axioms;

/// `format!("{:?}")` of a field value: the text depends on the value alone.
#[verifier::external_body]
pub(crate) fn debug_value(v: &FieldValue) -> (r: String)
    ensures
        r@ == value_debug(v@),
{
    format!("{:?}", v)
}

fn lit(s: &str) -> (r: String)
    ensures
        r@ == s@,
{
    String::from_str(s)
}

fn cat(a: String, b: &str) -> (r: String)
    ensures
        r@ == a@ + b@,
{
    let mut a = a;
    a.append(b);
    a
}

fn usize_text(n: usize) -> (r: String)
    ensures
        r@ == digits_text(n as nat),
{
    let mut v: Vec<char> = Vec::new();
    push_digits(&mut v, n as u64);
    proof {
        assert(v@ =~= digits_text(n as nat));
    }
    crate::text::string_from_chars(&v)
}

fn new_diag(span: Span, severity: Severity, message: String, suggestion: Option<String>) -> (r: Diagnostic)
    ensures
        r@ == diag(
            span,
            severity,
            message@,
            match suggestion {
                Some(s) => Some(s@),
                None => None,
            },
        ),
{
    Diagnostic { span, severity, message, suggestion }
}

fn single(d: Diagnostic) -> (r: DiagnosticSet)
    ensures
        r@ == seq![d@],
{
    let mut r = DiagnosticSet::new();
    r.add(d);
    r
}

// ---------------------------------------------------------------------------
// Field types
// ---------------------------------------------------------------------------
/// The name of a field type in messages.
pub fn field_type_name(t: &FieldType) -> (r: String)
    ensures
        r@ == type_name_text(t@),
{
    match t {
        FieldType::SFBool => lit("SFBool"),
        FieldType::SFInt32 => lit("SFInt32"),
        FieldType::SFFloat => lit("SFFloat"),
        FieldType::SFString => lit("SFString"),
        FieldType::SFVec2f => lit("SFVec2f"),
        FieldType::SFVec3f => lit("SFVec3f"),
        FieldType::SFRotation => lit("SFRotation"),
        FieldType::SFColor => lit("SFColor"),
        FieldType::SFNode => lit("SFNode"),
        FieldType::MFBool => lit("MFBool"),
        FieldType::MFInt32 => lit("MFInt32"),
        FieldType::MFFloat => lit("MFFloat"),
        FieldType::MFString => lit("MFString"),
        FieldType::MFVec2f => lit("MFVec2f"),
        FieldType::MFVec3f => lit("MFVec3f"),
        FieldType::MFRotation => lit("MFRotation"),
        FieldType::MFColor => lit("MFColor"),
        FieldType::MFNode => lit("MFNode"),
        FieldType::Unknown(s) => cat(cat(lit("Unknown("), s.as_str()), ")"),
    }
}

/// True for the multiple-valued field types.
pub fn expected_type_is_multiple(t: &FieldType) -> (r: bool)
    ensures
        r == is_multiple(t@),
{
    match t {
        FieldType::MFBool | FieldType::MFInt32 | FieldType::MFFloat | FieldType::MFString
        | FieldType::MFVec2f | FieldType::MFVec3f | FieldType::MFColor | FieldType::MFRotation
        | FieldType::MFNode => true,
        _ => false,
    }
}

/// The type of one element of a multiple-valued type.
pub fn get_element_type(t: &FieldType) -> (r: FieldType)
    ensures
        r@ == element_type(t@),
{
    match t {
        FieldType::MFBool => FieldType::SFBool,
        FieldType::MFInt32 => FieldType::SFInt32,
        FieldType::MFFloat => FieldType::SFFloat,
        FieldType::MFString => FieldType::SFString,
        FieldType::MFVec2f => FieldType::SFVec2f,
        FieldType::MFVec3f => FieldType::SFVec3f,
        FieldType::MFColor => FieldType::SFColor,
        FieldType::MFRotation => FieldType::SFRotation,
        FieldType::MFNode => FieldType::SFNode,
        _ => crate::schema::clone_field_type(t),
    }
}

/// The number of values per element when a vector type is given as a flat list.
pub fn flat_numeric_group_size(t: &FieldType) -> (r: Option<usize>)
    ensures
        match r {
            Some(g) => group_size(t@) == Some(g as nat),
            None => group_size(t@) is None,
        },
{
    match t {
        FieldType::MFVec2f => Some(2),
        FieldType::MFVec3f => Some(3),
        FieldType::MFRotation => Some(4),
        FieldType::MFColor => Some(3),
        _ => None,
    }
}

fn is_numeric_scalar(v: &FieldValue) -> (r: bool)
    ensures
        r == is_numeric(v@),
{
    match v {
        FieldValue::Int(_, _) | FieldValue::Float(_, _) => true,
        _ => false,
    }
}

/// Two field types bound by `IS` must be the same type.
pub fn types_are_compatible(actual: &FieldType, expected: &FieldType) -> (r: bool)
    ensures
        r == (actual@ == expected@),
{
    match (actual, expected) {
        (FieldType::SFBool, FieldType::SFBool) => true,
        (FieldType::SFInt32, FieldType::SFInt32) => true,
        (FieldType::SFFloat, FieldType::SFFloat) => true,
        (FieldType::SFString, FieldType::SFString) => true,
        (FieldType::SFVec2f, FieldType::SFVec2f) => true,
        (FieldType::SFVec3f, FieldType::SFVec3f) => true,
        (FieldType::SFRotation, FieldType::SFRotation) => true,
        (FieldType::SFColor, FieldType::SFColor) => true,
        (FieldType::SFNode, FieldType::SFNode) => true,
        (FieldType::MFBool, FieldType::MFBool) => true,
        (FieldType::MFInt32, FieldType::MFInt32) => true,
        (FieldType::MFFloat, FieldType::MFFloat) => true,
        (FieldType::MFString, FieldType::MFString) => true,
        (FieldType::MFVec2f, FieldType::MFVec2f) => true,
        (FieldType::MFVec3f, FieldType::MFVec3f) => true,
        (FieldType::MFRotation, FieldType::MFRotation) => true,
        (FieldType::MFColor, FieldType::MFColor) => true,
        (FieldType::MFNode, FieldType::MFNode) => true,
        (FieldType::Unknown(a), FieldType::Unknown(b)) => a.eq(b),
        _ => false,
    }
}

fn scalar_type_match(v: &FieldValue, t: &FieldType) -> (r: bool)
    ensures
        r == scalar_match(v@, t@),
{
    match (v, t) {
        (FieldValue::Bool(_), FieldType::SFBool) => true,
        (FieldValue::Int(_, _), FieldType::SFInt32) => true,
        (FieldValue::Float(_, _), FieldType::SFFloat) => true,
        (FieldValue::Int(_, _), FieldType::SFFloat) => true,
        (FieldValue::String(_), FieldType::SFString) => true,
        (FieldValue::Vec2f(_), FieldType::SFVec2f) => true,
        (FieldValue::Vec3f(_), FieldType::SFVec3f) => true,
        (FieldValue::Rotation(_), FieldType::SFRotation) => true,
        (FieldValue::Color(_), FieldType::SFColor) => true,
        (FieldValue::Node(_), FieldType::SFNode) => true,
        (FieldValue::Null, FieldType::SFNode) => true,
        _ => false,
    }
}

fn sequence_fits_exec(t: &FieldType, n: usize) -> (r: bool)
    ensures
        r == sequence_fits(t@, n as nat),
{
    match t {
        FieldType::SFVec2f => n == 2,
        FieldType::SFVec3f => n == 3,
        FieldType::SFColor => n == 3,
        FieldType::SFRotation => n == 4,
        _ => false,
    }
}

// ---------------------------------------------------------------------------
// Values
// ---------------------------------------------------------------------------
fn type_mismatch(t: &FieldType, v: &FieldValue, span: Span) -> (r: Diagnostic)
    ensures
        r@ == mismatch(t@, v@, span),
{
    let m = cat(cat(cat(lit("Type mismatch: expected "), field_type_name(t).as_str()), ", found "), debug_value(v).as_str());
    new_diag(span, Severity::Error, m, None)
}

/// Checks a bracketed list given for a vector type as a flat list of numbers: returns
/// false (and reports nothing) when it is not one; otherwise reports a length that is
/// not a multiple of the group size.
fn validate_flat_numeric_array(elems: &Vec<ArrayElement>, t: &FieldType, span: Span, diagnostics: &mut DiagnosticSet) -> (r: bool)
    ensures
        match flat_check(array_view(elems@), t@, span) {
            Some(ds) => r && final(diagnostics)@ == old(diagnostics)@ + ds,
            None => !r && final(diagnostics)@ == old(diagnostics)@,
        },
{
    let ghost items = array_view(elems@);
    proof {
        lemma_array_view(elems@);
    }
    let g = match flat_numeric_group_size(t) {
        None => {
            return false;
        },
        Some(g) => g,
    };
    if elems.len() == 0 {
        proof {
            assert(old(diagnostics)@ + Seq::<DiagV>::empty() =~= old(diagnostics)@);
        }
        return true;
    }
    let mut i: usize = 0;
    while i < elems.len()
        invariant
            i <= elems@.len(),
            items == array_view(elems@),
            items.len() == elems@.len(),
            forall|k: int| 0 <= k < elems@.len() ==> #[trigger] items[k] == value_view(elems@[k].value),
            forall|k: int| 0 <= k < i ==> is_numeric(#[trigger] items[k]),
        decreases elems@.len() - i,
    {
        if !is_numeric_scalar(&elems[i].value) {
            proof {
                assert(!is_numeric(items[i as int]));
            }
            return false;
        }
        i = i + 1;
    }
    if elems.len() % g != 0 {
        let m = cat(cat(cat(cat(lit("Invalid flat array length for "), field_type_name(t).as_str()), ": expected a multiple of "), usize_text(g).as_str()), " values");
        diagnostics.add(new_diag(span, Severity::Error, m, None));
    } else {
        proof {
            assert(old(diagnostics)@ + Seq::<DiagV>::empty() =~= old(diagnostics)@);
        }
    }
    true
}

/// Checks a value against the type it should have.
#[verifier::loop_isolation(false)]
pub fn validate_field_value(value: &FieldValue, expected: &FieldType, span: Span) -> (r: DiagnosticSet)
    ensures
        r@ == value_diags(value@, expected@, span),
    decreases value,
{
    let mut diagnostics = DiagnosticSet::new();
    if scalar_type_match(value, expected) {
        return diagnostics;
    }
    match value {
        FieldValue::Array(arr) => {
            if expected_type_is_multiple(expected) {
                let handled = validate_flat_numeric_array(&arr.elements, expected, span, &mut diagnostics);
                if !handled {
                    let et = get_element_type(expected);
                    let ghost items = array_view(arr.elements@);
                    proof {
                        lemma_array_view(arr.elements@);
                        assert(items.take(0) =~= Seq::<ValueV>::empty());
                    }
                    let mut i: usize = 0;
                    while i < arr.elements.len()
                        invariant
                            i <= arr.elements@.len(),
                            items == array_view(arr.elements@),
                            items.len() == arr.elements@.len(),
                            forall|k: int| 0 <= k < arr.elements@.len() ==> #[trigger] items[k] == value_view(arr.elements@[k].value),
                            diagnostics@ == items_diags(items.take(i as int), et@, span),
                        decreases arr.elements@.len() - i,
                    {
                        proof {
                            assert(decreases_to!(arr.elements@ => arr.elements@[i as int]));
                            assert(decreases_to!(arr.elements@[i as int] => arr.elements@[i as int].value));
                        }
                        let d = validate_field_value(&arr.elements[i].value, &et, span);
                        diagnostics.extend(d);
                        proof {
                            assert(items.take(i + 1).drop_last() =~= items.take(i as int));
                            assert(items.take(i + 1).last() == items[i as int]);
                        }
                        i = i + 1;
                    }
                    proof {
                        assert(items.take(i as int) =~= items);
                    }
                }
                diagnostics
            } else {
                single(type_mismatch(expected, value, span))
            }
        },
        FieldValue::Is(_) => diagnostics,
        FieldValue::NumberSequence(s) => {
            proof {
                lemma_numbers_view(s.elements@);
            }
            if s.elements.len() == 1 {
                proof {
                    assert(decreases_to!(s.elements@ => s.elements@[0]));
                    assert(decreases_to!(s.elements@[0] => s.elements@[0].value));
                }
                validate_field_value(&s.elements[0].value, expected, span)
            } else if sequence_fits_exec(expected, s.elements.len()) {
                diagnostics
            } else {
                let m = cat(lit("Invalid number sequence length for "), field_type_name(expected).as_str());
                single(new_diag(span, Severity::Error, m, None))
            }
        },
        FieldValue::Null => {
            match expected {
                FieldType::MFNode => single(new_diag(span, Severity::Error, lit("NULL not allowed for MFNode; use [] instead"), Some(lit("[]")))),
                _ => single(type_mismatch(expected, value, span)),
            }
        },
        FieldValue::Template(_) => diagnostics,
        _ => single(type_mismatch(expected, value, span)),
    }
}

// ---------------------------------------------------------------------------
// Value equality
// ---------------------------------------------------------------------------
fn opt_text_eq(a: &Option<String>, b: &Option<String>) -> (r: bool)
    ensures
        r == (crate::ast::opt_str(*a) == crate::ast::opt_str(*b)),
{
    match (a, b) {
        (Some(x), Some(y)) => x.eq(y),
        (None, None) => true,
        _ => false,
    }
}

fn texts_eq(a: &[String], b: &[String]) -> (r: bool)
    ensures
        r == (crate::ast::strs_view(a@) == crate::ast::strs_view(b@)),
{
    if a.len() != b.len() {
        proof {
            assert(crate::ast::strs_view(a@).len() != crate::ast::strs_view(b@).len());
        }
        return false;
    }
    let mut i: usize = 0;
    while i < a.len()
        invariant
            i <= a@.len(),
            a@.len() == b@.len(),
            forall|k: int| 0 <= k < i ==> (#[trigger] a@[k])@ == b@[k]@,
        decreases a@.len() - i,
    {
        if !a[i].eq(&b[i]) {
            proof {
                assert(crate::ast::strs_view(a@)[i as int] != crate::ast::strs_view(b@)[i as int]);
            }
            return false;
        }
        i = i + 1;
    }
    proof {
        assert(crate::ast::strs_view(a@) =~= crate::ast::strs_view(b@));
    }
    true
}

fn template_eq(a: &TemplateBlock, b: &TemplateBlock) -> (r: bool)
    ensures
        r == (a@ == b@),
{
    a.content.eq(&b.content) && a.is_expression == b.is_expression && a.span == b.span
}

/// True when two values are the same value (by their models).
pub fn value_eq(a: &FieldValue, b: &FieldValue) -> (r: bool)
    ensures
        r == (a@ == b@),
    decreases a,
{
    match (a, b) {
        (FieldValue::Bool(x), FieldValue::Bool(y)) => *x == *y,
        (FieldValue::Int(x, rx), FieldValue::Int(y, ry)) => *x == *y && opt_text_eq(rx, ry),
        (FieldValue::Float(x, rx), FieldValue::Float(y, ry)) => x.eq(y) && opt_text_eq(rx, ry),
        (FieldValue::String(x), FieldValue::String(y)) => x.eq(y),
        (FieldValue::Vec2f(x), FieldValue::Vec2f(y)) => texts_eq(x, y),
        (FieldValue::Vec3f(x), FieldValue::Vec3f(y)) => texts_eq(x, y),
        (FieldValue::Rotation(x), FieldValue::Rotation(y)) => texts_eq(x, y),
        (FieldValue::Color(x), FieldValue::Color(y)) => texts_eq(x, y),
        (FieldValue::Node(x), FieldValue::Node(y)) => node_eq(x, y),
        (FieldValue::Array(x), FieldValue::Array(y)) => {
            let r = array_eq(&x.elements, &y.elements);
            r
        },
        (FieldValue::NumberSequence(x), FieldValue::NumberSequence(y)) => {
            let r = numbers_eq(&x.elements, &y.elements);
            r
        },
        (FieldValue::Is(x), FieldValue::Is(y)) => x.eq(y),
        (FieldValue::Null, FieldValue::Null) => true,
        (FieldValue::Template(x), FieldValue::Template(y)) => template_eq(x, y),
        (FieldValue::Raw(x), FieldValue::Raw(y)) => x.eq(y),
        _ => false,
    }
}

fn array_eq(a: &Vec<ArrayElement>, b: &Vec<ArrayElement>) -> (r: bool)
    ensures
        r == (array_view(a@) == array_view(b@)),
    decreases a@,
{
    proof {
        lemma_array_view(a@);
        lemma_array_view(b@);
    }
    if a.len() != b.len() {
        return false;
    }
    let mut i: usize = 0;
    while i < a.len()
        invariant
            i <= a@.len(),
            a@.len() == b@.len(),
            array_view(a@).len() == a@.len(),
            array_view(b@).len() == b@.len(),
            forall|k: int| 0 <= k < a@.len() ==> #[trigger] array_view(a@)[k] == value_view(a@[k].value),
            forall|k: int| 0 <= k < b@.len() ==> #[trigger] array_view(b@)[k] == value_view(b@[k].value),
            forall|k: int| 0 <= k < i ==> #[trigger] array_view(a@)[k] == array_view(b@)[k],
        decreases a@.len() - i,
    {
        proof {
            assert(decreases_to!(a@ => a@[i as int]));
            assert(decreases_to!(a@[i as int] => a@[i as int].value));
        }
        if !value_eq(&a[i].value, &b[i].value) {
            proof {
                assert(array_view(a@)[i as int] != array_view(b@)[i as int]);
            }
            return false;
        }
        i = i + 1;
    }
    proof {
        assert(array_view(a@) =~= array_view(b@));
    }
    true
}

fn numbers_eq(a: &Vec<crate::ast::NumberSequenceElement>, b: &Vec<crate::ast::NumberSequenceElement>) -> (r: bool)
    ensures
        r == (numbers_view(a@) == numbers_view(b@)),
    decreases a@,
{
    proof {
        lemma_numbers_view(a@);
        lemma_numbers_view(b@);
    }
    if a.len() != b.len() {
        return false;
    }
    let mut i: usize = 0;
    while i < a.len()
        invariant
            i <= a@.len(),
            a@.len() == b@.len(),
            numbers_view(a@).len() == a@.len(),
            numbers_view(b@).len() == b@.len(),
            forall|k: int| 0 <= k < a@.len() ==> #[trigger] numbers_view(a@)[k] == value_view(a@[k].value),
            forall|k: int| 0 <= k < b@.len() ==> #[trigger] numbers_view(b@)[k] == value_view(b@[k].value),
            forall|k: int| 0 <= k < i ==> #[trigger] numbers_view(a@)[k] == numbers_view(b@)[k],
        decreases a@.len() - i,
    {
        proof {
            assert(decreases_to!(a@ => a@[i as int]));
            assert(decreases_to!(a@[i as int] => a@[i as int].value));
        }
        if !value_eq(&a[i].value, &b[i].value) {
            proof {
                assert(numbers_view(a@)[i as int] != numbers_view(b@)[i as int]);
            }
            return false;
        }
        i = i + 1;
    }
    proof {
        assert(numbers_view(a@) =~= numbers_view(b@));
    }
    true
}

fn node_eq(a: &AstNode, b: &AstNode) -> (r: bool)
    ensures
        r == (a@ == b@),
    decreases a,
{
    if a.span != b.span {
        return false;
    }
    match (&a.kind, &b.kind) {
        (AstNodeKind::Use { use_name: x }, AstNodeKind::Use { use_name: y }) => x.eq(y),
        (AstNodeKind::Node { node_type: tx, def_name: dx, fields: fx }, AstNodeKind::Node { node_type: ty, def_name: dy, fields: fy }) => {
            if !tx.eq(ty) || !opt_text_eq(dx, dy) {
                return false;
            }
            let r = elements_eq(fx, fy);
            r
        },
        _ => false,
    }
}

fn elements_eq(a: &Vec<NodeBodyElement>, b: &Vec<NodeBodyElement>) -> (r: bool)
    ensures
        r == (elements_view(a@) == elements_view(b@)),
    decreases a@,
{
    proof {
        lemma_elements_view(a@);
        lemma_elements_view(b@);
    }
    if a.len() != b.len() {
        return false;
    }
    let mut i: usize = 0;
    while i < a.len()
        invariant
            i <= a@.len(),
            a@.len() == b@.len(),
            elements_view(a@).len() == a@.len(),
            elements_view(b@).len() == b@.len(),
            forall|k: int| 0 <= k < a@.len() ==> #[trigger] elements_view(a@)[k] == element_view(a@[k]),
            forall|k: int| 0 <= k < b@.len() ==> #[trigger] elements_view(b@)[k] == element_view(b@[k]),
            forall|k: int| 0 <= k < i ==> #[trigger] elements_view(a@)[k] == elements_view(b@)[k],
        decreases a@.len() - i,
    {
        proof {
            assert(decreases_to!(a@ => a@[i as int]));
        }
        let same = match (&a[i], &b[i]) {
            (NodeBodyElement::Field(x), NodeBodyElement::Field(y)) => {
                proof {
                    assert(decreases_to!(a@[i as int] => x.value));
                }
                x.name.eq(&y.name) && x.span == y.span && value_eq(&x.value, &y.value)
            },
            (NodeBodyElement::Template(x), NodeBodyElement::Template(y)) => template_eq(x, y),
            (NodeBodyElement::Raw(x), NodeBodyElement::Raw(y)) => x.text.eq(&y.text) && x.span == y.span,
            _ => false,
        };
        if !same {
            proof {
                assert(elements_view(a@)[i as int] != elements_view(b@)[i as int]);
            }
            return false;
        }
        i = i + 1;
    }
    proof {
        assert(elements_view(a@) =~= elements_view(b@));
    }
    true
}

proof fn lemma_digits_prefix(d: Seq<char>, k: int)
    requires
        0 <= k <= d.len(),
        forall|i: int| 0 <= i < d.len() ==> is_digit(#[trigger] d[i]),
    ensures
        digits_value(d.take(k)) <= digits_value(d),
        0 <= digits_value(d.take(k)),
    decreases d.len() - k,
{
    if k < d.len() {
        lemma_digits_prefix(d, k + 1);
        assert(d.take(k + 1).drop_last() =~= d.take(k));
        assert(d.take(k + 1).last() == d[k]);
    } else {
        assert(d.take(k) =~= d);
        lemma_digits_nonneg(d);
    }
}

proof fn lemma_digits_nonneg(d: Seq<char>)
    requires
        forall|i: int| 0 <= i < d.len() ==> is_digit(#[trigger] d[i]),
    ensures
        0 <= digits_value(d),
    decreases d.len(),
{
    if d.len() > 0 {
        assert forall|i: int| 0 <= i < d.drop_last().len() implies is_digit(#[trigger] d.drop_last()[i]) by {
            assert(d.drop_last()[i] == d[i]);
        }
        lemma_digits_nonneg(d.drop_last());
    }
}

/// True when the digits `d` write the number `target`.
fn digits_value_is(d: &Vec<char>, target: u64) -> (r: bool)
    requires
        forall|i: int| 0 <= i < d@.len() ==> is_digit(#[trigger] d@[i]),
    ensures
        r == (digits_value(d@) == target),
{
    let mut acc: u128 = 0;
    let mut k: usize = 0;
    proof {
        assert(d@.take(0) =~= Seq::<char>::empty());
    }
    while k < d.len()
        invariant
            k <= d@.len(),
            forall|i: int| 0 <= i < d@.len() ==> is_digit(#[trigger] d@[i]),
            acc == digits_value(d@.take(k as int)),
            acc <= u64::MAX,
        decreases d@.len() - k,
    {
        let c = d[k];
        let v = (c as u32 - '0' as u32) as u128;
        let next = acc * 10 + v;
        proof {
            assert(d@.take(k + 1).drop_last() =~= d@.take(k as int));
            assert(d@.take(k + 1).last() == c);
        }
        if next > u64::MAX as u128 {
            proof {
                lemma_digits_prefix(d@, k + 1);
            }
            return false;
        }
        acc = next;
        k = k + 1;
    }
    proof {
        assert(d@.take(k as int) =~= d@);
    }
    acc == target as u128
}

fn first_dot_from(s: &Vec<char>, i: usize) -> (r: Option<usize>)
    requires
        i <= s@.len(),
    ensures
        match r {
            Some(k) => crate::validation_spec::first_dot(s@, i as int) == Some(k as int) && k < s@.len(),
            None => crate::validation_spec::first_dot(s@, i as int) is None,
        },
{
    let mut j = i;
    while j < s.len()
        invariant
            i <= j <= s@.len(),
            crate::validation_spec::first_dot(s@, i as int) == crate::validation_spec::first_dot(s@, j as int),
        decreases s@.len() - j,
    {
        if s[j] == '.' {
            return Some(j);
        }
        j = j + 1;
    }
    None
}

proof fn lemma_first_dot(s: Seq<char>, i: int)
    requires
        0 <= i,
    ensures
        match crate::validation_spec::first_dot(s, i) {
            Some(k) => i <= k < s.len() && s[k] == '.' && forall|q: int| i <= q < k ==> #[trigger] s[q] != '.',
            None => forall|q: int| i <= q < s.len() ==> #[trigger] s[q] != '.',
        },
    decreases s.len() - i,
{
    if i < s.len() && s[i] != '.' {
        lemma_first_dot(s, i + 1);
    }
}

/// True when the decimal text `t`, written without exponent, is the integer `i`.
#[verifier::loop_isolation(false)]
fn decimal_equals_int(t: &String, i: i64) -> (r: bool)
    ensures
        r == decimal_is_int(t@, i),
{
    let cs = crate::text::chars_of(t.as_str());
    let neg = cs.len() > 0 && cs[0] == '-';
    let start: usize = if cs.len() > 0 && (cs[0] == '-' || cs[0] == '+') {
        1
    } else {
        0
    };
    let mut body: Vec<char> = Vec::new();
    let mut k = start;
    while k < cs.len()
        invariant
            start <= k <= cs@.len(),
            start <= 1,
            start as int == crate::validation_spec::sign_len(cs@),
            body@ == cs@.subrange(start as int, k as int),
        decreases cs@.len() - k,
    {
        body.push(cs[k]);
        k = k + 1;
    }
    proof {
        assert(body@ =~= t@.skip(crate::validation_spec::sign_len(t@)));
    }
    if body.len() == 0 || (body.len() == 1 && body[0] == '.') {
        proof {
            if body@.len() == 1 {
                assert(body@ =~= seq!['.']);
            }
        }
        return false;
    }
    let mut m: usize = 0;
    while m < body.len()
        invariant
            m <= body@.len(),
            forall|q: int| 0 <= q < m ==> is_digit(#[trigger] body@[q]) || body@[q] == '.',
        decreases body@.len() - m,
    {
        let c = body[m];
        if !(('0' <= c && c <= '9') || c == '.') {
            proof {
                assert(!(is_digit(body@[m as int]) || body@[m as int] == '.'));
                assert(plain_decimal(t@) is None);
            }
            return false;
        }
        m = m + 1;
    }
    let (int_digits, frac) = match first_dot_from(&body, 0) {
        None => (body, Vec::new()),
        Some(d) => {
            if first_dot_from(&body, d + 1).is_some() {
                return false;
            }
            let mut a: Vec<char> = Vec::new();
            let mut q: usize = 0;
            while q < d
                invariant
                    q <= d < body@.len(),
                    a@ == body@.take(q as int),
                decreases d - q,
            {
                a.push(body[q]);
                q = q + 1;
            }
            let mut b: Vec<char> = Vec::new();
            let mut q: usize = d + 1;
            while q < body.len()
                invariant
                    d + 1 <= q <= body@.len(),
                    b@ == body@.subrange(d + 1, q as int),
                decreases body@.len() - q,
            {
                b.push(body[q]);
                q = q + 1;
            }
            proof {
                assert(b@ =~= body@.skip(d + 1));
            }
            (a, b)
        },
    };
    proof {
        assert(plain_decimal(t@) == Some((neg, int_digits@, frac@)));
    }
    let mut z: usize = 0;
    while z < frac.len()
        invariant
            z <= frac@.len(),
            forall|q: int| 0 <= q < z ==> #[trigger] frac@[q] == '0',
        decreases frac@.len() - z,
    {
        if frac[z] != '0' {
            proof {
                let p = plain_decimal(t@).unwrap();
                assert(p.2 == frac@);
                assert(p.2[z as int] != '0');
                assert(!decimal_is_int(t@, i));
            }
            return false;
        }
        z = z + 1;
    }
    proof {
        lemma_first_dot(body@, 0);
        assert forall|q: int| 0 <= q < int_digits@.len() implies is_digit(#[trigger] int_digits@[q]) by {
            assert(int_digits@[q] == body@[q]);
            assert(body@[q] != '.');
        }
        lemma_digits_nonneg(int_digits@);
    }
    if neg {
        if i > 0 {
            return false;
        }
        let target: u64 = (0i128 - i as i128) as u64;
        digits_value_is(&int_digits, target)
    } else {
        if i < 0 {
            return false;
        }
        digits_value_is(&int_digits, i as u64)
    }
}

/// When two values are the same allowed value (see [`values_equal`]).
fn values_are_equal(a: &FieldValue, b: &FieldValue) -> (r: bool)
    ensures
        r == values_equal(a@, b@),
{
    match (a, b) {
        (FieldValue::Int(i, _), FieldValue::Float(t, _)) => decimal_equals_int(t, *i),
        (FieldValue::Float(t, _), FieldValue::Int(i, _)) => decimal_equals_int(t, *i),
        _ => value_eq(a, b),
    }
}

// ---------------------------------------------------------------------------
// Runtime rules on Solid nodes
// ---------------------------------------------------------------------------
/// The first field named `name` among node body elements.
fn get_node_field<'a>(fields: &'a Vec<NodeBodyElement>, name: &str) -> (r: Option<&'a NodeField>)
    ensures
        match r {
            Some(f) => get_field(elements_view(fields@), name@) == Some((f.value@, f.span)),
            None => get_field(elements_view(fields@), name@) is None,
        },
{
    let ghost all = elements_view(fields@);
    proof {
        lemma_elements_view(fields@);
        assert(all.skip(0) =~= all);
    }
    let mut i: usize = 0;
    while i < fields.len()
        invariant
            i <= fields@.len(),
            all == elements_view(fields@),
            all.len() == fields@.len(),
            forall|k: int| 0 <= k < fields@.len() ==> #[trigger] all[k] == element_view(fields@[k]),
            get_field(all, name@) == get_field(all.skip(i as int), name@),
        decreases fields@.len() - i,
    {
        proof {
            assert(all.skip(i as int)[0] == all[i as int]);
            assert(all.skip(i as int).drop_first() =~= all.skip(i + 1));
        }
        match &fields[i] {
            NodeBodyElement::Field(f) => {
                if f.name.eq(&String::from_str(name)) {
                    return Some(f);
                }
            },
            _ => {},
        }
        i = i + 1;
    }
    None
}

pub open spec fn solids_view(v: Seq<(String, Span)>) -> Seq<(Seq<char>, Span)> {
    Seq::new(v.len(), |i: int| (v[i].0@, v[i].1))
}

fn get_effective_solid_name(node: &AstNode) -> (r: String)
    ensures
        r@ == effective_name(node@),
{
    match &node.kind {
        AstNodeKind::Node { fields, .. } => match get_node_field(fields, "name") {
            Some(f) => match &f.value {
                FieldValue::String(name) => name.clone(),
                _ => lit("solid"),
            },
            None => lit("solid"),
        },
        AstNodeKind::Use { .. } => lit("solid"),
    }
}

fn is_solid_node(node: &AstNode) -> (r: bool)
    ensures
        r == is_solid(node@),
{
    match &node.kind {
        AstNodeKind::Node { node_type, .. } => node_type.eq(&String::from_str("Solid")),
        _ => false,
    }
}

fn collect_child_solids_from_node(node: &AstNode) -> (r: Vec<(String, Span)>)
    ensures
        solids_view(r@) == solids_from_node(node@),
{
    let mut out: Vec<(String, Span)> = Vec::new();
    match &node.kind {
        AstNodeKind::Node { node_type, fields, .. } => {
            if node_type.eq(&String::from_str("Solid")) {
                out.push((get_effective_solid_name(node), node.span));
                proof {
                    assert(solids_view(out@) =~= solids_from_node(node@));
                }
                return out;
            }
            match get_node_field(fields, "endPoint") {
                Some(f) => match &f.value {
                    FieldValue::Node(e) => {
                        if is_solid_node(e) {
                            out.push((get_effective_solid_name(e), e.span));
                        }
                    },
                    _ => {},
                },
                None => {},
            }
        },
        AstNodeKind::Use { .. } => {},
    }
    proof {
        assert(solids_view(out@) =~= solids_from_node(node@));
    }
    out
}

fn append_solids(out: &mut Vec<(String, Span)>, more: Vec<(String, Span)>)
    ensures
        solids_view(final(out)@) == solids_view(old(out)@) + solids_view(more@),
{
    let ghost start = solids_view(out@);
    let ghost n0 = out@.len();
    let mut i: usize = 0;
    while i < more.len()
        invariant
            i <= more@.len(),
            out@.len() == n0 + i,
            start.len() == n0,
            solids_view(out@) == start + solids_view(more@).take(i as int),
        decreases more@.len() - i,
    {
        let ghost before = out@;
        out.push((more[i].0.clone(), more[i].1));
        proof {
            let want = start + solids_view(more@).take(i + 1);
            assert forall|k: int| 0 <= k < out@.len() implies #[trigger] solids_view(out@)[k] == want[k] by {
                if k < before.len() {
                    assert(out@[k] == before[k]);
                    assert(solids_view(before)[k] == (start + solids_view(more@).take(i as int))[k]);
                }
            }
            assert(solids_view(out@) =~= want);
        }
        i = i + 1;
    }
    proof {
        assert(solids_view(more@).take(i as int) =~= solids_view(more@));
    }
}

#[verifier::loop_isolation(false)]
fn collect_child_solids_from_value(v: &FieldValue) -> (r: Vec<(String, Span)>)
    ensures
        solids_view(r@) == solids_from_value(v@),
    decreases v,
{
    match v {
        FieldValue::Node(n) => collect_child_solids_from_node(n),
        FieldValue::Array(arr) => {
            let ghost items = array_view(arr.elements@);
            proof {
                lemma_array_view(arr.elements@);
                assert(items.take(0) =~= Seq::<ValueV>::empty());
            }
            let mut out: Vec<(String, Span)> = Vec::new();
            proof {
                assert(solids_view(out@) =~= Seq::<(Seq<char>, Span)>::empty());
            }
            let mut i: usize = 0;
            while i < arr.elements.len()
                invariant
                    i <= arr.elements@.len(),
                    items == array_view(arr.elements@),
                    solids_view(out@) == solids_from_items(items.take(i as int)),
                decreases arr.elements@.len() - i,
            {
                proof {
                    assert(decreases_to!(arr.elements@ => arr.elements@[i as int]));
                    assert(decreases_to!(arr.elements@[i as int] => arr.elements@[i as int].value));
                }
                let more = collect_child_solids_from_value(&arr.elements[i].value);
                append_solids(&mut out, more);
                proof {
                    assert(items.take(i + 1).drop_last() =~= items.take(i as int));
                    assert(items.take(i + 1).last() == items[i as int]);
                }
                i = i + 1;
            }
            proof {
                assert(items.take(i as int) =~= items);
            }
            out
        },
        _ => {
            let out: Vec<(String, Span)> = Vec::new();
            proof {
                assert(solids_view(out@) =~= Seq::<(Seq<char>, Span)>::empty());
            }
            out
        },
    }
}

fn collect_immediate_child_solids(fields: &Vec<NodeBodyElement>) -> (r: Vec<(String, Span)>)
    ensures
        solids_view(r@) == child_solids(elements_view(fields@)),
{
    match get_node_field(fields, "children") {
        None => {
            let out: Vec<(String, Span)> = Vec::new();
            proof {
                assert(solids_view(out@) =~= Seq::<(Seq<char>, Span)>::empty());
            }
            out
        },
        Some(f) => collect_child_solids_from_value(&f.value),
    }
}

/// The span of the first of the first `n` solids named `name`.
fn first_span_with(solids: &Vec<(String, Span)>, n: usize, name: &String) -> (r: Option<Span>)
    requires
        n <= solids@.len(),
    ensures
        r == first_with(solids_view(solids@).take(n as int), name@),
{
    let ghost all = solids_view(solids@).take(n as int);
    proof {
        assert(all.skip(0) =~= all);
    }
    let mut i: usize = 0;
    while i < n
        invariant
            i <= n <= solids@.len(),
            all == solids_view(solids@).take(n as int),
            first_with(all, name@) == first_with(all.skip(i as int), name@),
        decreases n - i,
    {
        proof {
            assert(all.skip(i as int)[0] == all[i as int]);
            assert(all.skip(i as int).drop_first() =~= all.skip(i + 1));
        }
        if solids[i].0.eq(name) {
            return Some(solids[i].1);
        }
        i = i + 1;
    }
    None
}

/// Warns of each Solid child whose name an earlier sibling Solid already has.
fn validate_sibling_solid_name_uniqueness(fields: &Vec<NodeBodyElement>) -> (r: DiagnosticSet)
    ensures
        r@ == duplicate_name_diags(child_solids(elements_view(fields@))),
{
    let solids = collect_immediate_child_solids(fields);
    let ghost sv = solids_view(solids@);
    let mut diagnostics = DiagnosticSet::new();
    let mut i: usize = 0;
    proof {
        assert(sv.take(0) =~= Seq::<(Seq<char>, Span)>::empty());
    }
    while i < solids.len()
        invariant
            i <= solids@.len(),
            sv == solids_view(solids@),
            diagnostics@ == duplicate_name_diags(sv.take(i as int)),
        decreases solids@.len() - i,
    {
        proof {
            assert(sv.take(i + 1).drop_last() =~= sv.take(i as int));
            assert(sv.take(i + 1).last() == sv[i as int]);
        }
        match first_span_with(&solids, i, &solids[i].0) {
            Some(first) => {
                let m = cat(cat(lit("'name' field value should be unique among sibling Solid nodes: '"), solids[i].0.as_str()), "'");
                let sug = cat(cat(lit("Rename one of the sibling Solid nodes; first occurrence is at line "), usize_text(first.start_line).as_str()), ".");
                diagnostics.add(new_diag(solids[i].1, Severity::Warning, m, Some(sug)));
            },
            None => {},
        }
        i = i + 1;
    }
    proof {
        assert(sv.take(i as int) =~= sv);
    }
    diagnostics
}

fn physics_has_explicit_inertia_matrix(physics: &AstNode) -> (r: bool)
    ensures
        r == explicit_inertia(physics@),
{
    match &physics.kind {
        AstNodeKind::Node { fields, .. } => match get_node_field(fields, "inertiaMatrix") {
            None => false,
            Some(f) => match &f.value {
                FieldValue::Null => false,
                FieldValue::Array(items) => {
                    proof {
                        lemma_array_view(items.elements@);
                    }
                    items.elements.len() > 0
                },
                _ => true,
            },
        },
        AstNodeKind::Use { .. } => false,
    }
}

fn solid_requires_inertia_warning(fields: &Vec<NodeBodyElement>) -> (r: bool)
    ensures
        r == inertia_warning(elements_view(fields@)),
{
    match get_node_field(fields, "physics") {
        None => false,
        Some(pf) => match &pf.value {
            FieldValue::Node(p) => {
                let has_bounding = match get_node_field(fields, "boundingObject") {
                    Some(b) => match &b.value {
                        FieldValue::Node(_) | FieldValue::Template(_) | FieldValue::Is(_) => true,
                        _ => false,
                    },
                    None => false,
                };
                if has_bounding {
                    return false;
                }
                !physics_has_explicit_inertia_matrix(p)
            },
            _ => false,
        },
    }
}

/// The runtime diagnostics of one node (not its descendants).
fn validate_runtime_semantics_for_node(node: &AstNode) -> (r: DiagnosticSet)
    ensures
        r@ == runtime_node_diags(node@),
{
    let mut diagnostics = DiagnosticSet::new();
    match &node.kind {
        AstNodeKind::Node { node_type, fields, .. } => {
            if node_type.eq(&String::from_str("Solid")) || node_type.eq(&String::from_str("Robot")) {
                if solid_requires_inertia_warning(fields) {
                    diagnostics.add(new_diag(
                        node.span,
                        Severity::Warning,
                        lit("Undefined inertia matrix: using the identity matrix. Please specify 'boundingObject' or 'inertiaMatrix' values."),
                        Some(lit("Add a non-NULL `boundingObject` on this Solid or set `Physics.inertiaMatrix`.")),
                    ));
                }
                diagnostics.extend(validate_sibling_solid_name_uniqueness(fields));
            }
        },
        AstNodeKind::Use { .. } => {},
    }
    proof {
        assert(diagnostics@ =~= runtime_node_diags(node@));
    }
    diagnostics
}

#[verifier::loop_isolation(false)]
fn validate_runtime_semantics_recursive(node: &AstNode, diagnostics: &mut DiagnosticSet)
    ensures
        final(diagnostics)@ == old(diagnostics)@ + runtime_tree(node@),
    decreases node,
{
    let ghost start = diagnostics@;
    diagnostics.extend(validate_runtime_semantics_for_node(node));
    match &node.kind {
        AstNodeKind::Node { fields, .. } => {
            let ghost es = elements_view(fields@);
            let ghost mid = diagnostics@;
            proof {
                lemma_elements_view(fields@);
                assert(es.take(0) =~= Seq::<ElementV>::empty());
                assert(mid + runtime_fields(es.take(0)) =~= mid);
            }
            let mut i: usize = 0;
            while i < fields.len()
                invariant
                    i <= fields@.len(),
                    es == elements_view(fields@),
                    diagnostics@ == mid + runtime_fields(es.take(i as int)),
                decreases fields@.len() - i,
            {
                proof {
                    assert(decreases_to!(fields@ => fields@[i as int]));
                    assert(es.take(i + 1).drop_last() =~= es.take(i as int));
                    assert(es.take(i + 1).last() == es[i as int]);
                }
                match &fields[i] {
                    NodeBodyElement::Field(f) => {
                        proof {
                            assert(decreases_to!(fields@[i as int] => f.value));
                        }
                        collect_runtime_semantics_from_value(&f.value, diagnostics);
                    },
                    _ => {},
                }
                proof {
                    assert(diagnostics@ =~= mid + runtime_fields(es.take(i + 1)));
                }
                i = i + 1;
            }
            proof {
                assert(es.take(i as int) =~= es);
                assert(diagnostics@ =~= start + runtime_tree(node@));
            }
        },
        AstNodeKind::Use { .. } => {
            proof {
                assert(diagnostics@ =~= start + runtime_tree(node@));
            }
        },
    }
}

#[verifier::loop_isolation(false)]
fn collect_runtime_semantics_from_value(v: &FieldValue, diagnostics: &mut DiagnosticSet)
    ensures
        final(diagnostics)@ == old(diagnostics)@ + runtime_value(v@),
    decreases v,
{
    let ghost start = diagnostics@;
    match v {
        FieldValue::Node(n) => validate_runtime_semantics_recursive(n, diagnostics),
        FieldValue::Array(arr) => {
            let ghost items = array_view(arr.elements@);
            proof {
                lemma_array_view(arr.elements@);
                assert(items.take(0) =~= Seq::<ValueV>::empty());
                assert(start + runtime_items(items.take(0)) =~= start);
            }
            let mut i: usize = 0;
            while i < arr.elements.len()
                invariant
                    i <= arr.elements@.len(),
                    items == array_view(arr.elements@),
                    diagnostics@ == start + runtime_items(items.take(i as int)),
                decreases arr.elements@.len() - i,
            {
                proof {
                    assert(decreases_to!(arr.elements@ => arr.elements@[i as int]));
                    assert(decreases_to!(arr.elements@[i as int] => arr.elements@[i as int].value));
                    assert(items.take(i + 1).drop_last() =~= items.take(i as int));
                    assert(items.take(i + 1).last() == items[i as int]);
                }
                collect_runtime_semantics_from_value(&arr.elements[i].value, diagnostics);
                proof {
                    assert(diagnostics@ =~= start + runtime_items(items.take(i + 1)));
                }
                i = i + 1;
            }
            proof {
                assert(items.take(i as int) =~= items);
            }
        },
        _ => {
            proof {
                assert(diagnostics@ =~= start + runtime_value(v@));
            }
        },
    }
}

/// Checks the runtime-only rules on a node tree: for each Solid or Robot, a physics
/// node without bounding object or inertia matrix, and sibling Solids with the same
/// name.
pub fn validate_runtime_semantics(node: &AstNode) -> (r: DiagnosticSet)
    ensures
        r@ == runtime_tree(node@),
{
    let mut diagnostics = DiagnosticSet::new();
    validate_runtime_semantics_recursive(node, &mut diagnostics);
    proof {
        assert(diagnostics@ =~= runtime_tree(node@));
    }
    diagnostics
}

// ---------------------------------------------------------------------------
// Field-name suggestions
// ---------------------------------------------------------------------------
proof fn lemma_lev_bound(a: Seq<char>, b: Seq<char>, i: nat, j: nat)
    ensures
        lev(a, b, i, j) <= if i >= j {
            i
        } else {
            j
        },
    decreases i + j,
{
    if i > 0 && j > 0 {
        lemma_lev_bound(a, b, (i - 1) as nat, (j - 1) as nat);
        lemma_lev_bound(a, b, (i - 1) as nat, j);
        lemma_lev_bound(a, b, i, (j - 1) as nat);
    }
}

fn min3(a: usize, b: usize, c: usize) -> (r: usize)
    ensures
        r == (if a <= b && a <= c {
            a
        } else if b <= c {
            b
        } else {
            c
        }),
{
    if a <= b && a <= c {
        a
    } else if b <= c {
        b
    } else {
        c
    }
}

/// The Levenshtein distance between two texts (see [`distance`]).
pub fn levenshtein_distance(s1: &str, s2: &str) -> (r: usize)
    ensures
        r == distance(s1@, s2@),
{
    let v1 = crate::text::chars_of(s1);
    let v2 = crate::text::chars_of(s2);
    let n = v1.len();
    let m = v2.len();
    if n == usize::MAX || m == usize::MAX {
        return usize::MAX;
    }
    let ghost a = v1@;
    let ghost b = v2@;
    let mut prev: Vec<usize> = Vec::new();
    let mut j: usize = 0;
    while j <= m
        invariant
            j <= m + 1,
            m < usize::MAX,
            prev@.len() == j,
            forall|k: int| 0 <= k < j ==> #[trigger] prev@[k] == lev(a, b, 0, k as nat),
        decreases m + 1 - j,
    {
        prev.push(j);
        j = j + 1;
    }
    let mut i: usize = 1;
    while i <= n
        invariant
            1 <= i <= n + 1,
            n < usize::MAX,
            m < usize::MAX,
            a == v1@,
            b == v2@,
            n == a.len(),
            m == b.len(),
            prev@.len() == m + 1,
            forall|k: int| 0 <= k <= m ==> #[trigger] prev@[k] == lev(a, b, (i - 1) as nat, k as nat),
        decreases n + 1 - i,
    {
        let mut cur: Vec<usize> = Vec::new();
        cur.push(i);
        let mut j: usize = 1;
        while j <= m
            invariant
                1 <= i <= n,
                1 <= j <= m + 1,
                n < usize::MAX,
                m < usize::MAX,
                a == v1@,
                b == v2@,
                n == a.len(),
                m == b.len(),
                prev@.len() == m + 1,
                forall|k: int| 0 <= k <= m ==> #[trigger] prev@[k] == lev(a, b, (i - 1) as nat, k as nat),
                cur@.len() == j,
                forall|k: int| 0 <= k < j ==> #[trigger] cur@[k] == lev(a, b, i as nat, k as nat),
            decreases m + 1 - j,
        {
            proof {
                lemma_lev_bound(a, b, (i - 1) as nat, j as nat);
                lemma_lev_bound(a, b, i as nat, (j - 1) as nat);
                lemma_lev_bound(a, b, (i - 1) as nat, (j - 1) as nat);
            }
            let cost: usize = if v1[i - 1] == v2[j - 1] {
                0
            } else {
                1
            };
            let d = min3(prev[j] + 1, cur[j - 1] + 1, prev[j - 1] + cost);
            cur.push(d);
            j = j + 1;
        }
        prev = cur;
        i = i + 1;
    }
    prev[m]
}

/// The candidate closest to `name` within distance 3, the first of the closest ones.
pub fn find_closest_match(name: &str, candidates: &Vec<String>) -> (r: Option<String>)
    ensures
        match r {
            Some(s) => closest_index(name@, crate::validation_spec::strings_view(candidates@)) matches Some(i)
                && 0 <= i < candidates@.len() && s@ == candidates@[i]@,
            None => closest_index(name@, crate::validation_spec::strings_view(candidates@)) is None,
        },
{
    let ghost cands = crate::validation_spec::strings_view(candidates@);
    let mut best: Option<usize> = None;
    let mut best_distance: usize = usize::MAX;
    let mut i: usize = 0;
    proof {
        assert(cands.take(0) =~= Seq::<Seq<char>>::empty());
    }
    while i < candidates.len()
        invariant
            i <= candidates@.len(),
            cands == crate::validation_spec::strings_view(candidates@),
            match best {
                Some(k) => closest_index(name@, cands.take(i as int)) == Some(k as int) && k < i
                    && best_distance == distance(name@, cands[k as int]),
                None => closest_index(name@, cands.take(i as int)) is None && best_distance == usize::MAX,
            },
        decreases candidates@.len() - i,
    {
        let d = levenshtein_distance(name, candidates[i].as_str());
        proof {
            assert(cands.take(i + 1).drop_last() =~= cands.take(i as int));
            assert(cands.take(i + 1).last() == cands[i as int]);
            match best {
                Some(k) => {
                    assert(cands.take(i + 1)[k as int] == cands[k as int]);
                },
                None => {},
            }
        }
        if d < best_distance && d <= 3 {
            best_distance = d;
            best = Some(i);
        }
        i = i + 1;
    }
    proof {
        assert(cands.take(i as int) =~= cands);
    }
    match best {
        Some(k) => Some(candidates[k].clone()),
        None => None,
    }
}

// ---------------------------------------------------------------------------
// Header and interface
// ---------------------------------------------------------------------------
/// Checks the header: version `R2025a` and encoding `utf8`, and that a document with
/// content has one.
fn validate_header(document: &Proto) -> (r: DiagnosticSet)
    ensures
        r@ == header_diags(document@),
{
    let mut diagnostics = DiagnosticSet::new();
    match &document.header {
        Some(h) => {
            if !h.version.eq(&String::from_str("R2025a")) {
                let m = cat(lit("Unsupported version: "), h.version.as_str());
                diagnostics.add(new_diag(h.span, Severity::Error, m, Some(lit("Use R2025a"))));
            }
            if !h.encoding.eq(&String::from_str("utf8")) {
                let m = cat(lit("Unsupported encoding: "), h.encoding.as_str());
                diagnostics.add(new_diag(h.span, Severity::Error, m, Some(lit("Use utf8"))));
            }
        },
        None => {
            if document.proto.is_some() || document.root_nodes.len() > 0 {
                proof {
                    crate::ast::lemma_nodes_view(document.root_nodes@);
                }
                diagnostics.add(new_diag(
                    Span::zero(),
                    Severity::Error,
                    lit("Missing PROTO header"),
                    Some(lit("Add #VRML_SIM R2025a utf8 at the beginning of the file")),
                ));
            } else {
                proof {
                    crate::ast::lemma_nodes_view(document.root_nodes@);
                }
            }
        },
    }
    proof {
        assert(diagnostics@ =~= header_diags(document@));
    }
    diagnostics
}

fn restrictions_allow(restrictions: &Vec<FieldValue>, v: &FieldValue) -> (r: bool)
    ensures
        r == exists|i: int| 0 <= i < restrictions@.len() && values_equal(#[trigger] values_view(restrictions@)[i], v@),
{
    proof {
        lemma_values_view(restrictions@);
    }
    let mut i: usize = 0;
    while i < restrictions.len()
        invariant
            i <= restrictions@.len(),
            values_view(restrictions@).len() == restrictions@.len(),
            forall|k: int| 0 <= k < restrictions@.len() ==> #[trigger] values_view(restrictions@)[k] == value_view(restrictions@[k]),
            forall|k: int| 0 <= k < i ==> !values_equal(#[trigger] values_view(restrictions@)[k], v@),
        decreases restrictions@.len() - i,
    {
        if values_are_equal(&restrictions[i], v) {
            proof {
                assert(values_equal(values_view(restrictions@)[i as int], v@));
            }
            return true;
        }
        i = i + 1;
    }
    false
}

fn validate_interface_field(field: &ProtoField) -> (r: DiagnosticSet)
    ensures
        r@ == iface_field_diags(field@),
{
    let mut diagnostics = DiagnosticSet::new();
    match &field.default_value {
        Some(d) => {
            diagnostics.extend(validate_field_value(d, &field.field_type, field.span));
            match &field.restrictions {
                Some(rs) => {
                    if !restrictions_allow(rs, d) {
                        let m = cat(cat(lit("Default value "), debug_value(d).as_str()), " is not in the allowed restrictions");
                        diagnostics.add(new_diag(field.span, Severity::Error, m, None));
                    }
                },
                None => {},
            }
        },
        None => {},
    }
    let ghost mid = diagnostics@;
    match &field.restrictions {
        Some(rs) => {
            let ghost items = values_view(rs@);
            proof {
                lemma_values_view(rs@);
                assert(items.take(0) =~= Seq::<ValueV>::empty());
                assert(mid + items_diags(items.take(0), field.field_type@, field.span) =~= mid);
            }
            let mut i: usize = 0;
            while i < rs.len()
                invariant
                    i <= rs@.len(),
                    items == values_view(rs@),
                    items.len() == rs@.len(),
                    forall|k: int| 0 <= k < rs@.len() ==> #[trigger] items[k] == value_view(rs@[k]),
                    diagnostics@ == mid + items_diags(items.take(i as int), field.field_type@, field.span),
                decreases rs@.len() - i,
            {
                diagnostics.extend(validate_field_value(&rs[i], &field.field_type, field.span));
                proof {
                    assert(items.take(i + 1).drop_last() =~= items.take(i as int));
                    assert(items.take(i + 1).last() == items[i as int]);
                    assert(diagnostics@ =~= mid + items_diags(items.take(i + 1), field.field_type@, field.span));
                }
                i = i + 1;
            }
            proof {
                assert(items.take(i as int) =~= items);
            }
        },
        None => {},
    }
    proof {
        assert(diagnostics@ =~= iface_field_diags(field@));
    }
    diagnostics
}

/// Checks the interface fields of a PROTO definition.
fn validate_interface(proto_def: &ProtoDefinition) -> (r: DiagnosticSet)
    ensures
        r@ == interface_diags(proto_fields_view(proto_def.fields@)),
{
    let ghost fs = proto_fields_view(proto_def.fields@);
    let mut diagnostics = DiagnosticSet::new();
    let mut i: usize = 0;
    proof {
        assert(fs.take(0) =~= Seq::<crate::ast::ProtoFieldV>::empty());
    }
    while i < proto_def.fields.len()
        invariant
            i <= proto_def.fields@.len(),
            fs == proto_fields_view(proto_def.fields@),
            diagnostics@ == interface_diags(fs.take(i as int)),
        decreases proto_def.fields@.len() - i,
    {
        diagnostics.extend(validate_interface_field(&proto_def.fields[i]));
        proof {
            assert(fs.take(i + 1).drop_last() =~= fs.take(i as int));
            assert(fs.take(i + 1).last() == proto_def.fields@[i as int]@);
        }
        i = i + 1;
    }
    proof {
        assert(fs.take(i as int) =~= fs);
    }
    diagnostics
}

// ---------------------------------------------------------------------------
// Nodes
// ---------------------------------------------------------------------------
/// The model of a table of `DEF` names and the types of the nodes they name.
pub open spec fn defs_view(v: Seq<(String, String)>) -> DefTable {
    Seq::new(v.len(), |i: int| (v[i].0@, v[i].1@))
}

/// The type of the node that `name` was last defined as (see [`def_type`]).
fn find_def<'a>(defs: &'a Vec<(String, String)>, name: &String) -> (r: Option<&'a String>)
    ensures
        match r {
            Some(t) => def_type(defs_view(defs@), name@) == Some(t@),
            None => def_type(defs_view(defs@), name@) is None,
        },
{
    let ghost all = defs_view(defs@);
    let mut i = defs.len();
    proof {
        assert(all.take(i as int) =~= all);
    }
    while i > 0
        invariant
            i <= defs@.len(),
            all == defs_view(defs@),
            def_type(all, name@) == def_type(all.take(i as int), name@),
        decreases i,
    {
        proof {
            assert(all.take(i as int).last() == all[i - 1]);
            assert(all.take(i as int).drop_last() =~= all.take(i - 1));
        }
        if defs[i - 1].0.eq(name) {
            return Some(&defs[i - 1].1);
        }
        i = i - 1;
    }
    None
}

fn find_interface_field<'a>(iface: &'a Vec<ProtoField>, name: &String) -> (r: Option<&'a ProtoField>)
    ensures
        match r {
            Some(f) => find_iface(proto_fields_view(iface@), name@) == Some(f@),
            None => find_iface(proto_fields_view(iface@), name@) is None,
        },
{
    let ghost all = proto_fields_view(iface@);
    proof {
        assert(all.skip(0) =~= all);
    }
    let mut i: usize = 0;
    while i < iface.len()
        invariant
            i <= iface@.len(),
            all == proto_fields_view(iface@),
            find_iface(all, name@) == find_iface(all.skip(i as int), name@),
        decreases iface@.len() - i,
    {
        proof {
            assert(all.skip(i as int)[0] == all[i as int]);
            assert(all.skip(i as int).drop_first() =~= all.skip(i + 1));
        }
        if iface[i].name.eq(name) {
            return Some(&iface[i]);
        }
        i = i + 1;
    }
    None
}

/// Checks an `IS` binding of the node field `fname` (of type `t`) against the
/// interface.
fn validate_is_binding(value: &FieldValue, fname: &String, t: &FieldType, span: Span, iface: &Vec<ProtoField>) -> (r: DiagnosticSet)
    ensures
        r@ == is_diags(value@, fname@, t@, span, proto_fields_view(iface@)),
{
    match value {
        FieldValue::Is(reference) => match find_interface_field(iface, reference) {
            Some(f) => {
                if !types_are_compatible(&f.field_type, t) {
                    let m = cat(cat(cat(cat(cat(cat(cat(lit("Type mismatch in IS binding: interface field '"), reference.as_str()), "' is "), field_type_name(&f.field_type).as_str()), ", but node field '"), fname.as_str()), "' expects "), field_type_name(t).as_str());
                    single(new_diag(span, Severity::Error, m, None))
                } else {
                    DiagnosticSet::new()
                }
            },
            None => {
                let m = cat(lit("Undefined IS reference: "), reference.as_str());
                single(new_diag(span, Severity::Error, m, None))
            },
        },
        _ => DiagnosticSet::new(),
    }
}

/// Warns of a CAD shape given as the geometry of a Shape.
fn validate_node_field_semantics(parent: &String, fname: &String, value: &FieldValue, span: Span) -> (r: DiagnosticSet)
    ensures
        r@ == semantics_diags(parent@, fname@, value@, span),
{
    if parent.eq(&String::from_str("Shape")) && fname.eq(&String::from_str("geometry")) {
        match value {
            FieldValue::Node(n) => match &n.kind {
                AstNodeKind::Node { node_type, .. } => {
                    if node_type.eq(&String::from_str("CadShape")) {
                        return single(new_diag(
                            span,
                            Severity::Warning,
                            lit("Skipped node: Cannot insert CadShape node in 'geometry' field of Shape node."),
                            Some(lit("Use a geometry node supported by Shape.geometry, such as Mesh, Box, Sphere, or IndexedFaceSet.")),
                        ));
                    }
                },
                _ => {},
            },
            _ => {},
        }
    }
    let r = DiagnosticSet::new();
    r
}

fn schema_field_names(schema: &NodeSchema) -> (r: Vec<String>)
    ensures
        strings_view(r@) == schema_names(schema_fields_view(schema.fields@)),
{
    let mut out: Vec<String> = Vec::new();
    let mut i: usize = 0;
    while i < schema.fields.len()
        invariant
            i <= schema.fields@.len(),
            out@.len() == i,
            forall|k: int| 0 <= k < i ==> (#[trigger] out@[k])@ == schema.fields@[k].name@,
        decreases schema.fields@.len() - i,
    {
        out.push(schema.fields[i].name.clone());
        i = i + 1;
    }
    proof {
        assert(strings_view(out@) =~= schema_names(schema_fields_view(schema.fields@)));
    }
    out
}

/// Checks a field of a node whose type has a schema: its value against the schema's
/// type for it, the Shape geometry rule and its `IS` binding; or warns of a field the
/// schema does not have, suggesting the closest name.
fn validate_schema_field(ty: &String, schema: &NodeSchema, f: &NodeField, iface: &Vec<ProtoField>) -> (r: DiagnosticSet)
    ensures
        r@ == known_field_diags(ty@, schema_fields_view(schema.fields@), f.name@, f.value@, f.span, proto_fields_view(iface@)),
{
    match schema.get_field_type(f.name.as_str()) {
        Some(t) => {
            let mut diagnostics = validate_field_value(&f.value, &t, f.span);
            diagnostics.extend(validate_node_field_semantics(ty, &f.name, &f.value, f.span));
            diagnostics.extend(validate_is_binding(&f.value, &f.name, &t, f.span, iface));
            diagnostics
        },
        None => {
            let names = schema_field_names(schema);
            let suggestion = match find_closest_match(f.name.as_str(), &names) {
                Some(s) => {
                    proof {
                        let i = closest_index(f.name@, strings_view(names@))->Some_0;
                        assert(strings_view(names@)[i] == s@);
                        assert(crate::validation_spec::closest_match(
                            f.name@,
                            schema_names(schema_fields_view(schema.fields@)),
                        ) == Some(s@));
                    }
                    Some(cat(cat(lit("Did you mean '"), s.as_str()), "'?"))
                },
                None => None,
            };
            let m = cat(cat(cat(cat(lit("Unknown field '"), f.name.as_str()), "' for node '"), ty.as_str()), "'");
            single(new_diag(f.span, Severity::Warning, m, suggestion))
        },
    }
}

/// Validates a node and the nodes below it (see [`node_walk`]): `defs` holds the `DEF`
/// names seen so far, in order.
#[verifier::loop_isolation(false)]
fn walk_node(node: &AstNode, defs: &mut Vec<(String, String)>, iface: &Vec<ProtoField>) -> (r: DiagnosticSet)
    ensures
        (r@, defs_view(final(defs)@)) == node_walk(node@, defs_view(old(defs)@), proto_fields_view(iface@)),
    decreases node,
{
    let ghost pf = proto_fields_view(iface@);
    match &node.kind {
        AstNodeKind::Use { use_name } => {
            if find_def(defs, use_name).is_some() {
                DiagnosticSet::new()
            } else {
                let m = cat(lit("Undefined USE reference: "), use_name.as_str());
                single(new_diag(node.span, Severity::Error, m, None))
            }
        },
        AstNodeKind::Node { node_type, def_name, fields } => {
            match def_name {
                Some(d) => {
                    defs.push((d.clone(), node_type.clone()));
                    proof {
                        assert(defs_view(defs@) =~= defs_view(old(defs)@).push((d@, node_type@)));
                    }
                },
                None => {},
            }
            let ghost defs1 = defs_view(defs@);
            let mut diagnostics = validate_runtime_semantics_for_node(node);
            let schema = get_builtin_schema(node_type.as_str());
            let ghost sv: Option<Seq<RawField>> = match schema {
                Some(ref s) => Some(schema_fields_view(s.fields@)),
                None => None,
            };
            if schema.is_none() {
                let m = cat(cat(lit("Unknown node type '"), node_type.as_str()), "'");
                diagnostics.add(new_diag(node.span, Severity::Warning, m, None));
            }
            let ghost mid = diagnostics@;
            let ghost es = elements_view(fields@);
            proof {
                lemma_elements_view(fields@);
                assert(es.take(0) =~= Seq::<ElementV>::empty());
                assert(mid + Seq::<DiagV>::empty() =~= mid);
            }
            let mut i: usize = 0;
            while i < fields.len()
                invariant
                    i <= fields@.len(),
                    es == elements_view(fields@),
                    es.len() == fields@.len(),
                    forall|k: int| 0 <= k < fields@.len() ==> #[trigger] es[k] == element_view(fields@[k]),
                    diagnostics@ == mid + fields_walk(es.take(i as int), node_type@, sv, defs1, pf).0,
                    defs_view(defs@) == fields_walk(es.take(i as int), node_type@, sv, defs1, pf).1,
                decreases fields@.len() - i,
            {
                proof {
                    assert(decreases_to!(fields@ => fields@[i as int]));
                    assert(es.take(i + 1).drop_last() =~= es.take(i as int));
                    assert(es.take(i + 1).last() == es[i as int]);
                }
                let ghost d0 = diagnostics@;
                match &fields[i] {
                    NodeBodyElement::Field(f) => {
                        proof {
                            assert(decreases_to!(fields@[i as int] => f.value));
                        }
                        match &schema {
                            Some(sch) => {
                                diagnostics.extend(validate_schema_field(node_type, sch, f, iface));
                            },
                            None => {},
                        }
                        let c = validate_children(&f.value, defs, iface);
                        diagnostics.extend(c);
                        proof {
                            assert(diagnostics@ =~= mid + fields_walk(es.take(i + 1), node_type@, sv, defs1, pf).0);
                        }
                    },
                    _ => {},
                }
                i = i + 1;
            }
            proof {
                assert(es.take(i as int) =~= es);
                assert(diagnostics@ =~= node_walk(node@, defs_view(old(defs)@), pf).0);
            }
            diagnostics
        },
    }
}

/// Validates the nodes held by a field value: the node itself, or the nodes of an
/// array.
#[verifier::loop_isolation(false)]
fn validate_children(value: &FieldValue, defs: &mut Vec<(String, String)>, iface: &Vec<ProtoField>) -> (r: DiagnosticSet)
    ensures
        (r@, defs_view(final(defs)@)) == children_walk(value@, defs_view(old(defs)@), proto_fields_view(iface@)),
    decreases value,
{
    let ghost pf = proto_fields_view(iface@);
    match value {
        FieldValue::Node(c) => walk_node(c, defs, iface),
        FieldValue::Array(arr) => {
            let ghost items = array_view(arr.elements@);
            let ghost defs0 = defs_view(defs@);
            proof {
                lemma_array_view(arr.elements@);
                assert(items.take(0) =~= Seq::<ValueV>::empty());
            }
            let mut diagnostics = DiagnosticSet::new();
            let mut i: usize = 0;
            while i < arr.elements.len()
                invariant
                    i <= arr.elements@.len(),
                    items == array_view(arr.elements@),
                    items.len() == arr.elements@.len(),
                    forall|k: int| 0 <= k < arr.elements@.len() ==> #[trigger] items[k] == value_view(arr.elements@[k].value),
                    diagnostics@ == array_walk(items.take(i as int), defs0, pf).0,
                    defs_view(defs@) == array_walk(items.take(i as int), defs0, pf).1,
                decreases arr.elements@.len() - i,
            {
                proof {
                    assert(decreases_to!(arr.elements@ => arr.elements@[i as int]));
                    assert(decreases_to!(arr.elements@[i as int] => arr.elements@[i as int].value));
                    assert(items.take(i + 1).drop_last() =~= items.take(i as int));
                    assert(items.take(i + 1).last() == items[i as int]);
                }
                match &arr.elements[i].value {
                    FieldValue::Node(c) => {
                        proof {
                            assert(decreases_to!(arr.elements@[i as int].value => **c));
                        }
                        let d = walk_node(c, defs, iface);
                        diagnostics.extend(d);
                    },
                    _ => {},
                }
                i = i + 1;
            }
            proof {
                assert(items.take(i as int) =~= items);
            }
            diagnostics
        },
        _ => DiagnosticSet::new(),
    }
}

// ---------------------------------------------------------------------------
// Documents
// ---------------------------------------------------------------------------
/// What validation keeps while it walks a document: the `DEF` names seen so far, in
/// order, and the interface fields that `IS` refers to.
pub struct ValidationContext {
    /// The `DEF` names seen, each with the type of the node it names, in order.
    pub defs: Vec<(String, String)>,
    /// The interface fields of the PROTO being validated.
    pub interface_fields: Vec<ProtoField>,
}

impl ValidationContext {
    /// A context that has seen no `DEF` and knows no interface field.
    pub fn new() -> (r: ValidationContext)
        ensures
            r.defs@.len() == 0,
            r.interface_fields@.len() == 0,
    {
        ValidationContext { defs: Vec::new(), interface_fields: Vec::new() }
    }

    /// The type of the node that `name` was last defined as.
    pub fn def_type(&self, name: &String) -> (r: Option<String>)
        ensures
            crate::ast::opt_str(r) == def_type(defs_view(self.defs@), name@),
    {
        match find_def(&self.defs, name) {
            Some(t) => Some(t.clone()),
            None => None,
        }
    }
}

/// Validates a node and the nodes below it (see [`node_walk`]) against the `DEF`s and
/// interface fields of `context`, recording the `DEF`s met in it.
fn validate_ast_node(node: &AstNode, context: &mut ValidationContext) -> (r: DiagnosticSet)
    ensures
        (r@, defs_view(final(context).defs@)) == node_walk(node@, defs_view(old(context).defs@), proto_fields_view(old(context).interface_fields@)),
        final(context).interface_fields == old(context).interface_fields,
{
    walk_node(node, &mut context.defs, &context.interface_fields)
}

fn clone_values(v: &Vec<FieldValue>) -> (r: Vec<FieldValue>)
    ensures
        values_view(r@) == values_view(v@),
{
    let mut out: Vec<FieldValue> = Vec::new();
    let mut i: usize = 0;
    proof {
        assert(v@.take(0) =~= Seq::<FieldValue>::empty());
    }
    while i < v.len()
        invariant
            i <= v@.len(),
            values_view(out@) == values_view(v@.take(i as int)),
        decreases v@.len() - i,
    {
        let c = crate::expand::clone_value(&v[i]);
        proof {
            assert(v@.take(i + 1).drop_last() =~= v@.take(i as int));
            assert(v@.take(i + 1).last() == v@[i as int]);
            assert(out@.push(c).drop_last() =~= out@);
        }
        out.push(c);
        i = i + 1;
    }
    proof {
        assert(v@.take(i as int) =~= v@);
    }
    out
}

fn clone_proto_field(f: &ProtoField) -> (r: ProtoField)
    ensures
        r@ == f@,
{
    let default_value = match &f.default_value {
        Some(v) => Some(crate::expand::clone_value(v)),
        None => None,
    };
    let restrictions = match &f.restrictions {
        Some(r) => Some(clone_values(r)),
        None => None,
    };
    ProtoField {
        name: f.name.clone(),
        field_type: crate::schema::clone_field_type(&f.field_type),
        default_value,
        keyword: f.keyword,
        restrictions,
        span: f.span,
    }
}

fn clone_proto_fields(v: &Vec<ProtoField>) -> (r: Vec<ProtoField>)
    ensures
        proto_fields_view(r@) == proto_fields_view(v@),
{
    let mut out: Vec<ProtoField> = Vec::new();
    let mut i: usize = 0;
    while i < v.len()
        invariant
            i <= v@.len(),
            out@.len() == i,
            forall|k: int| 0 <= k < i ==> #[trigger] out@[k]@ == v@[k]@,
        decreases v@.len() - i,
    {
        out.push(clone_proto_field(&v[i]));
        i = i + 1;
    }
    proof {
        assert forall|k: int| 0 <= k < v@.len() implies #[trigger] proto_fields_view(out@)[k] == proto_fields_view(v@)[k] by {
            assert(out@[k]@ == v@[k]@);
        }
        assert(proto_fields_view(out@) =~= proto_fields_view(v@));
    }
    out
}

/// Validates the nodes of a PROTO body, in order (template blocks are not checked).
fn validate_node_body(items: &Vec<ProtoBodyItem>, context: &mut ValidationContext) -> (r: DiagnosticSet)
    ensures
        (r@, defs_view(final(context).defs@)) == body_walk(body_view(items@), defs_view(old(context).defs@), proto_fields_view(old(context).interface_fields@)),
        final(context).interface_fields == old(context).interface_fields,
{
    let ghost bs = body_view(items@);
    let ghost defs0 = defs_view(context.defs@);
    let ghost pf = proto_fields_view(context.interface_fields@);
    let ghost iface0 = context.interface_fields;
    let mut diagnostics = DiagnosticSet::new();
    let mut i: usize = 0;
    proof {
        assert(bs.take(0) =~= Seq::<BodyItemV>::empty());
    }
    while i < items.len()
        invariant
            i <= items@.len(),
            bs == body_view(items@),
            context.interface_fields == iface0,
            pf == proto_fields_view(context.interface_fields@),
            diagnostics@ == body_walk(bs.take(i as int), defs0, pf).0,
            defs_view(context.defs@) == body_walk(bs.take(i as int), defs0, pf).1,
        decreases items@.len() - i,
    {
        proof {
            assert(bs.take(i + 1).drop_last() =~= bs.take(i as int));
            assert(bs.take(i + 1).last() == bs[i as int]);
        }
        match &items[i] {
            ProtoBodyItem::Node(n) => {
                let d = validate_ast_node(n, context);
                diagnostics.extend(d);
            },
            ProtoBodyItem::Template(_) => {},
        }
        i = i + 1;
    }
    proof {
        assert(bs.take(i as int) =~= bs);
    }
    diagnostics
}

fn validate_root_nodes(nodes: &Vec<AstNode>, context: &mut ValidationContext) -> (r: DiagnosticSet)
    ensures
        (r@, defs_view(final(context).defs@)) == nodes_walk(nodes_view(nodes@), defs_view(old(context).defs@), proto_fields_view(old(context).interface_fields@)),
        final(context).interface_fields == old(context).interface_fields,
{
    let ghost ns = nodes_view(nodes@);
    let ghost defs0 = defs_view(context.defs@);
    let ghost pf = proto_fields_view(context.interface_fields@);
    let ghost iface0 = context.interface_fields;
    proof {
        lemma_nodes_view(nodes@);
        assert(ns.take(0) =~= Seq::<NodeV>::empty());
    }
    let mut diagnostics = DiagnosticSet::new();
    let mut i: usize = 0;
    while i < nodes.len()
        invariant
            i <= nodes@.len(),
            ns == nodes_view(nodes@),
            ns.len() == nodes@.len(),
            forall|k: int| 0 <= k < nodes@.len() ==> #[trigger] ns[k] == nodes@[k]@,
            context.interface_fields == iface0,
            pf == proto_fields_view(context.interface_fields@),
            diagnostics@ == nodes_walk(ns.take(i as int), defs0, pf).0,
            defs_view(context.defs@) == nodes_walk(ns.take(i as int), defs0, pf).1,
        decreases nodes@.len() - i,
    {
        proof {
            assert(ns.take(i + 1).drop_last() =~= ns.take(i as int));
            assert(ns.take(i + 1).last() == ns[i as int]);
        }
        let d = validate_ast_node(&nodes[i], context);
        diagnostics.extend(d);
        i = i + 1;
    }
    proof {
        assert(ns.take(i as int) =~= ns);
    }
    diagnostics
}

/// Validates a whole document (see [`document_diags`]).
pub fn validate_document(document: &Proto) -> (r: DiagnosticSet)
    ensures
        r@ == document_diags(document@),
{
    let mut diagnostics = DiagnosticSet::new();
    let mut context = ValidationContext::new();
    diagnostics.extend(validate_header(document));
    proof {
        assert(defs_view(context.defs@) =~= Seq::<(Seq<char>, Seq<char>)>::empty());
        assert(proto_fields_view(context.interface_fields@) =~= Seq::<crate::ast::ProtoFieldV>::empty());
    }
    match &document.proto {
        Some(p) => {
            context.interface_fields = clone_proto_fields(&p.fields);
            diagnostics.extend(validate_interface(p));
            let b = validate_node_body(&p.body, &mut context);
            diagnostics.extend(b);
            let r = validate_root_nodes(&document.root_nodes, &mut context);
            diagnostics.extend(r);
        },
        None => {
            let r = validate_root_nodes(&document.root_nodes, &mut context);
            diagnostics.extend(r);
        },
    }
    proof {
        assert(diagnostics@ =~= document_diags(document@));
    }
    diagnostics
}

/// Validates a document: its header, its PROTO interface and body, and its root
/// nodes, against the schemas of the built-in nodes.
pub fn validate(proto: &Proto) -> (r: DiagnosticSet)
    ensures
        r@ == document_diags(proto@),
{
    validate_document(proto)
}

} // verus!
