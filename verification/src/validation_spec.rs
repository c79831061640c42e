//! What validating a document reports, as functions on the document's model.
//!
//! Each function gives the diagnostics, in the order the validator reports them, for
//! one part of a document: its header, its PROTO interface, its nodes (walked in
//! order, with the `DEF` names seen so far), and the runtime rules on `Solid`
//! nodes.
use crate::ast::{BodyItemV, ElementV, FieldTypeV, NodeKindV, NodeV, ProtoFieldV, ProtoV, Span, ValueV};
use crate::builtin_nodes::RawField;
use crate::diagnostics::{DiagV, Severity};
use crate::lexer::{digits_value, is_digit};
use crate::schema::{builtin_schema, find_field};
use crate::writer::digits_text;
use vstd::prelude::*;

verus! {

pub open spec fn diag(span: Span, severity: Severity, message: Seq<char>, suggestion: Option<Seq<char>>) -> DiagV {
    DiagV { span, severity, message, suggestion }
}

pub open spec fn zero_span() -> Span {
    Span { start: 0, end: 0, start_line: 0, start_col: 0, end_line: 0, end_col: 0 }
}

// ---------------------------------------------------------------------------
// Field types
// ---------------------------------------------------------------------------
/// The name of a field type in messages.
pub open spec fn type_name_text(t: FieldTypeV) -> Seq<char> {
    match t {
        FieldTypeV::SFBool => "SFBool"@,
        FieldTypeV::SFInt32 => "SFInt32"@,
        FieldTypeV::SFFloat => "SFFloat"@,
        FieldTypeV::SFString => "SFString"@,
        FieldTypeV::SFVec2f => "SFVec2f"@,
        FieldTypeV::SFVec3f => "SFVec3f"@,
        FieldTypeV::SFRotation => "SFRotation"@,
        FieldTypeV::SFColor => "SFColor"@,
        FieldTypeV::SFNode => "SFNode"@,
        FieldTypeV::MFBool => "MFBool"@,
        FieldTypeV::MFInt32 => "MFInt32"@,
        FieldTypeV::MFFloat => "MFFloat"@,
        FieldTypeV::MFString => "MFString"@,
        FieldTypeV::MFVec2f => "MFVec2f"@,
        FieldTypeV::MFVec3f => "MFVec3f"@,
        FieldTypeV::MFRotation => "MFRotation"@,
        FieldTypeV::MFColor => "MFColor"@,
        FieldTypeV::MFNode => "MFNode"@,
        FieldTypeV::Unknown(s) => "Unknown("@ + s + ")"@,
    }
}

/// True for the multiple-valued (`MF...`) field types.
pub open spec fn is_multiple(t: FieldTypeV) -> bool {
    t is MFBool || t is MFInt32 || t is MFFloat || t is MFString || t is MFVec2f || t is MFVec3f
        || t is MFColor || t is MFRotation || t is MFNode
}

/// The type of one element of a multiple-valued type (any other type is its own).
pub open spec fn element_type(t: FieldTypeV) -> FieldTypeV {
    match t {
        FieldTypeV::MFBool => FieldTypeV::SFBool,
        FieldTypeV::MFInt32 => FieldTypeV::SFInt32,
        FieldTypeV::MFFloat => FieldTypeV::SFFloat,
        FieldTypeV::MFString => FieldTypeV::SFString,
        FieldTypeV::MFVec2f => FieldTypeV::SFVec2f,
        FieldTypeV::MFVec3f => FieldTypeV::SFVec3f,
        FieldTypeV::MFColor => FieldTypeV::SFColor,
        FieldTypeV::MFRotation => FieldTypeV::SFRotation,
        FieldTypeV::MFNode => FieldTypeV::SFNode,
        _ => t,
    }
}

/// Element types: a type is multiple-valued exactly when its element type differs from
/// it, which is exactly when its name starts with `MF`; the element type of a
/// multiple-valued type is named with `SF` in place of `MF`; and taking the element
/// type twice gives the same as once.
pub proof fn lemma_element_type(t: FieldTypeV)
    ensures
        is_multiple(t) <==> element_type(t) != t,
        is_multiple(t) <==> (type_name_text(t).len() >= 2 && type_name_text(t).take(2) == seq!['M', 'F']),
        is_multiple(t) ==> type_name_text(element_type(t)) == seq!['S', 'F'] + type_name_text(t).skip(2),
        element_type(element_type(t)) == element_type(t),
{
    reveal_strlit("SFBool");
    reveal_strlit("SFInt32");
    reveal_strlit("SFFloat");
    reveal_strlit("SFString");
    reveal_strlit("SFVec2f");
    reveal_strlit("SFVec3f");
    reveal_strlit("SFRotation");
    reveal_strlit("SFColor");
    reveal_strlit("SFNode");
    reveal_strlit("MFBool");
    reveal_strlit("MFInt32");
    reveal_strlit("MFFloat");
    reveal_strlit("MFString");
    reveal_strlit("MFVec2f");
    reveal_strlit("MFVec3f");
    reveal_strlit("MFRotation");
    reveal_strlit("MFColor");
    reveal_strlit("MFNode");
    reveal_strlit("Unknown(");
    reveal_strlit(")");
    let n = type_name_text(t);
    if is_multiple(t) {
        assert(n.take(2) =~= seq!['M', 'F']);
        assert(type_name_text(element_type(t)) =~= seq!['S', 'F'] + n.skip(2));
    } else {
        if n.len() >= 2 {
            assert(n.take(2)[0] == n[0]);
            assert(n[0] != 'M' || n[1] != 'F');
            assert(n.take(2)[1] == n[1]);
        }
    }
}

/// How many numbers make one element of a multiple-valued vector type, when its
/// values may be written as one flat list of numbers.
pub open spec fn group_size(t: FieldTypeV) -> Option<nat> {
    match t {
        FieldTypeV::MFVec2f => Some(2),
        FieldTypeV::MFVec3f => Some(3),
        FieldTypeV::MFRotation => Some(4),
        FieldTypeV::MFColor => Some(3),
        _ => None,
    }
}

pub open spec fn is_numeric(v: ValueV) -> bool {
    v is Int || v is Float
}

/// True when the value is directly of the type (an integer also fits a float field).
pub open spec fn scalar_match(v: ValueV, t: FieldTypeV) -> bool {
    ||| (v is Bool && t is SFBool)
    ||| (v is Int && t is SFInt32)
    ||| (v is Float && t is SFFloat)
    ||| (v is Int && t is SFFloat)
    ||| (v is String && t is SFString)
    ||| (v is Vec2f && t is SFVec2f)
    ||| (v is Vec3f && t is SFVec3f)
    ||| (v is Rotation && t is SFRotation)
    ||| (v is Color && t is SFColor)
    ||| (v is Node && t is SFNode)
    ||| (v is Null && t is SFNode)
}

// ---------------------------------------------------------------------------
// Values
// ---------------------------------------------------------------------------
/// The `Debug` text of a field value.
pub uninterp spec fn value_debug(v: ValueV) -> Seq<char>;

pub open spec fn mismatch(t: FieldTypeV, v: ValueV, span: Span) -> DiagV {
    diag(
        span,
        Severity::Error,
        "Type mismatch: expected "@ + type_name_text(t) + ", found "@ + value_debug(v),
        None,
    )
}

/// The diagnostics of a bracketed list of numbers given for a vector type, when it is
/// one (every element a number): none, or one for a length that is not a multiple of
/// the group size.
pub open spec fn flat_check(items: Seq<ValueV>, t: FieldTypeV, span: Span) -> Option<Seq<DiagV>> {
    match group_size(t) {
        None => None,
        Some(g) => if items.len() == 0 {
            Some(Seq::empty())
        } else if !(forall|i: int| 0 <= i < items.len() ==> is_numeric(#[trigger] items[i])) {
            None
        } else if items.len() % g != 0 {
            Some(
                seq![
                    diag(
                        span,
                        Severity::Error,
                        "Invalid flat array length for "@ + type_name_text(t)
                            + ": expected a multiple of "@ + digits_text(g) + " values"@,
                        None,
                    ),
                ],
            )
        } else {
            Some(Seq::empty())
        },
    }
}

/// True when a number sequence of this length is a value of the fixed-size type.
pub open spec fn sequence_fits(t: FieldTypeV, n: nat) -> bool {
    (t is SFVec2f && n == 2) || (t is SFVec3f && n == 3) || (t is SFColor && n == 3) || (
    t is SFRotation && n == 4)
}

/// The diagnostics of a value checked against the type it should have.
pub open spec fn value_diags(v: ValueV, t: FieldTypeV, span: Span) -> Seq<DiagV>
    decreases v,
{
    if scalar_match(v, t) {
        Seq::empty()
    } else {
        match v {
            ValueV::Array(items) => if is_multiple(t) {
                match flat_check(items, t, span) {
                    Some(ds) => ds,
                    None => items_diags(items, element_type(t), span),
                }
            } else {
                seq![mismatch(t, v, span)]
            },
            ValueV::Is(_) => Seq::empty(),
            ValueV::NumberSequence(items) => if items.len() == 1 {
                value_diags(items[0], t, span)
            } else if sequence_fits(t, items.len()) {
                Seq::empty()
            } else {
                seq![
                    diag(
                        span,
                        Severity::Error,
                        "Invalid number sequence length for "@ + type_name_text(t),
                        None,
                    ),
                ]
            },
            ValueV::Null => if t is MFNode {
                seq![
                    diag(
                        span,
                        Severity::Error,
                        "NULL not allowed for MFNode; use [] instead"@,
                        Some("[]"@),
                    ),
                ]
            } else {
                seq![mismatch(t, v, span)]
            },
            ValueV::Template(_) => Seq::empty(),
            _ => seq![mismatch(t, v, span)],
        }
    }
}

/// The diagnostics of each element of a list checked against the element type.
pub open spec fn items_diags(items: Seq<ValueV>, t: FieldTypeV, span: Span) -> Seq<DiagV>
    decreases items,
{
    if items.len() == 0 {
        Seq::empty()
    } else {
        items_diags(items.drop_last(), t, span) + value_diags(items.last(), t, span)
    }
}

// ---------------------------------------------------------------------------
// Value equality for restrictions
// ---------------------------------------------------------------------------
/// The position of the first `.` of `s` from `i` on.
pub open spec fn first_dot(s: Seq<char>, i: int) -> Option<int>
    decreases s.len() - i,
{
    if !(0 <= i < s.len()) {
        None
    } else if s[i] == '.' {
        Some(i)
    } else {
        first_dot(s, i + 1)
    }
}

/// The length of the sign that starts a number's text (0 or 1).
pub open spec fn sign_len(t: Seq<char>) -> int {
    if t.len() > 0 && (t[0] == '-' || t[0] == '+') {
        1
    } else {
        0
    }
}

/// The parts of a decimal text with an optional sign, digits and at most one dot,
/// and no exponent: whether it is negative, its integer digits and its fraction
/// digits.
pub open spec fn plain_decimal(t: Seq<char>) -> Option<(bool, Seq<char>, Seq<char>)> {
    let neg = t.len() > 0 && t[0] == '-';
    let body = t.skip(sign_len(t));
    if body.len() == 0 || body == seq!['.'] || !(forall|i: int|
        0 <= i < body.len() ==> is_digit(#[trigger] body[i]) || body[i] == '.') {
        None
    } else {
        match first_dot(body, 0) {
            None => Some((neg, body, Seq::empty())),
            Some(k) => if first_dot(body, k + 1) is Some {
                None
            } else {
                Some((neg, body.take(k), body.skip(k + 1)))
            },
        }
    }
}

/// True when the decimal text `t` (written without exponent) is the integer `i`.
pub open spec fn decimal_is_int(t: Seq<char>, i: i64) -> bool {
    match plain_decimal(t) {
        Some((neg, int_digits, frac)) => {
            &&& forall|k: int| 0 <= k < frac.len() ==> #[trigger] frac[k] == '0'
            &&& if neg {
                -digits_value(int_digits) == i
            } else {
                digits_value(int_digits) == i
            }
        },
        None => false,
    }
}

/// When two values are the same allowed value: equal, or an integer and a decimal
/// number of the same value.
pub open spec fn values_equal(a: ValueV, b: ValueV) -> bool {
    match (a, b) {
        (ValueV::Int(i, _), ValueV::Float(t, _)) => decimal_is_int(t, i),
        (ValueV::Float(t, _), ValueV::Int(i, _)) => decimal_is_int(t, i),
        _ => a == b,
    }
}

// ---------------------------------------------------------------------------
// The PROTO interface
// ---------------------------------------------------------------------------
pub open spec fn restriction_diags(f: ProtoFieldV, d: ValueV) -> Seq<DiagV> {
    match f.restrictions {
        Some(r) => if !(exists|i: int| 0 <= i < r.len() && values_equal(#[trigger] r[i], d)) {
            seq![
                diag(
                    f.span,
                    Severity::Error,
                    "Default value "@ + value_debug(d) + " is not in the allowed restrictions"@,
                    None,
                ),
            ]
        } else {
            Seq::empty()
        },
        None => Seq::empty(),
    }
}

/// The diagnostics of one interface field: its default value against its type and
/// its restrictions, then each restriction against its type.
pub open spec fn iface_field_diags(f: ProtoFieldV) -> Seq<DiagV> {
    (match f.default_value {
        Some(d) => value_diags(d, f.field_type, f.span) + restriction_diags(f, d),
        None => Seq::empty(),
    }) + (match f.restrictions {
        Some(r) => items_diags(r, f.field_type, f.span),
        None => Seq::empty(),
    })
}

pub open spec fn interface_diags(fs: Seq<ProtoFieldV>) -> Seq<DiagV>
    decreases fs.len(),
{
    if fs.len() == 0 {
        Seq::empty()
    } else {
        interface_diags(fs.drop_last()) + iface_field_diags(fs.last())
    }
}

// ---------------------------------------------------------------------------
// The header
// ---------------------------------------------------------------------------
pub open spec fn header_diags(d: ProtoV) -> Seq<DiagV> {
    match d.header {
        Some(h) => (if h.version != "R2025a"@ {
            seq![
                diag(
                    h.span,
                    Severity::Error,
                    "Unsupported version: "@ + h.version,
                    Some("Use R2025a"@),
                ),
            ]
        } else {
            Seq::empty()
        }) + (if h.encoding != "utf8"@ {
            seq![
                diag(
                    h.span,
                    Severity::Error,
                    "Unsupported encoding: "@ + h.encoding,
                    Some("Use utf8"@),
                ),
            ]
        } else {
            Seq::empty()
        }),
        None => if d.proto is Some || d.root_nodes.len() > 0 {
            seq![
                diag(
                    zero_span(),
                    Severity::Error,
                    "Missing PROTO header"@,
                    Some("Add #VRML_SIM R2025a utf8 at the beginning of the file"@),
                ),
            ]
        } else {
            Seq::empty()
        },
    }
}

// ---------------------------------------------------------------------------
// Runtime rules on Solid nodes
// ---------------------------------------------------------------------------
/// The value and span of the first field named `name` among node body elements.
pub open spec fn get_field(es: Seq<ElementV>, name: Seq<char>) -> Option<(ValueV, Span)>
    decreases es.len(),
{
    if es.len() == 0 {
        None
    } else {
        match es[0] {
            ElementV::Field { name: n, value, span } => if n == name {
                Some((value, span))
            } else {
                get_field(es.drop_first(), name)
            },
            _ => get_field(es.drop_first(), name),
        }
    }
}

pub open spec fn has_bounding_object(fields: Seq<ElementV>) -> bool {
    match get_field(fields, "boundingObject"@) {
        Some((v, _)) => v is Node || v is Template || v is Is,
        None => false,
    }
}

/// True when a `Physics` node sets its inertia matrix.
pub open spec fn explicit_inertia(p: NodeV) -> bool {
    match p.kind {
        NodeKindV::Node { fields, .. } => match get_field(fields, "inertiaMatrix"@) {
            None => false,
            Some((v, _)) => match v {
                ValueV::Null => false,
                ValueV::Array(items) => items.len() > 0,
                _ => true,
            },
        },
        NodeKindV::Use { .. } => false,
    }
}

/// True when a Solid with these fields has physics but neither a bounding object nor
/// an inertia matrix.
pub open spec fn inertia_warning(fields: Seq<ElementV>) -> bool {
    match get_field(fields, "physics"@) {
        None => false,
        Some((v, _)) => match v {
            ValueV::Node(p) => !has_bounding_object(fields) && !explicit_inertia(*p),
            _ => false,
        },
    }
}

/// The `name` a Solid node has (`"solid"` when it sets none).
pub open spec fn effective_name(n: NodeV) -> Seq<char> {
    match n.kind {
        NodeKindV::Node { fields, .. } => match get_field(fields, "name"@) {
            Some((ValueV::String(s), _)) => s,
            _ => "solid"@,
        },
        NodeKindV::Use { .. } => "solid"@,
    }
}

pub open spec fn is_solid(n: NodeV) -> bool {
    n.kind matches NodeKindV::Node { node_type, .. } && node_type == "Solid"@
}

/// The Solid that a child node contributes among its siblings: itself, or the Solid
/// end point of a joint.
pub open spec fn solids_from_node(n: NodeV) -> Seq<(Seq<char>, Span)> {
    match n.kind {
        NodeKindV::Node { node_type, fields, .. } => if node_type == "Solid"@ {
            seq![(effective_name(n), n.span)]
        } else {
            match get_field(fields, "endPoint"@) {
                Some((ValueV::Node(e), _)) => if is_solid(*e) {
                    seq![(effective_name(*e), e.span)]
                } else {
                    Seq::empty()
                },
                _ => Seq::empty(),
            }
        },
        NodeKindV::Use { .. } => Seq::empty(),
    }
}

pub open spec fn solids_from_value(v: ValueV) -> Seq<(Seq<char>, Span)>
    decreases v,
{
    match v {
        ValueV::Node(n) => solids_from_node(*n),
        ValueV::Array(items) => solids_from_items(items),
        _ => Seq::empty(),
    }
}

pub open spec fn solids_from_items(items: Seq<ValueV>) -> Seq<(Seq<char>, Span)>
    decreases items,
{
    if items.len() == 0 {
        Seq::empty()
    } else {
        solids_from_items(items.drop_last()) + solids_from_value(items.last())
    }
}

/// The Solid children of a node with these fields, with their names and spans.
pub open spec fn child_solids(fields: Seq<ElementV>) -> Seq<(Seq<char>, Span)> {
    match get_field(fields, "children"@) {
        None => Seq::empty(),
        Some((v, _)) => solids_from_value(v),
    }
}

/// The span of the first Solid named `name` in the list.
pub open spec fn first_with(s: Seq<(Seq<char>, Span)>, name: Seq<char>) -> Option<Span>
    decreases s.len(),
{
    if s.len() == 0 {
        None
    } else if s[0].0 == name {
        Some(s[0].1)
    } else {
        first_with(s.drop_first(), name)
    }
}

/// A warning for each Solid whose name an earlier sibling Solid already has.
pub open spec fn duplicate_name_diags(s: Seq<(Seq<char>, Span)>) -> Seq<DiagV>
    decreases s.len(),
{
    if s.len() == 0 {
        Seq::empty()
    } else {
        duplicate_name_diags(s.drop_last()) + match first_with(s.drop_last(), s.last().0) {
            Some(first) => seq![
                diag(
                    s.last().1,
                    Severity::Warning,
                    "'name' field value should be unique among sibling Solid nodes: '"@ + s.last().0
                        + "'"@,
                    Some(
                        "Rename one of the sibling Solid nodes; first occurrence is at line "@
                            + digits_text(first.start_line as nat) + "."@,
                    ),
                ),
            ],
            None => Seq::empty(),
        }
    }
}

pub open spec fn inertia_message() -> Seq<char> {
    "Undefined inertia matrix: using the identity matrix. Please specify 'boundingObject' or 'inertiaMatrix' values."@
}

pub open spec fn inertia_suggestion() -> Seq<char> {
    "Add a non-NULL `boundingObject` on this Solid or set `Physics.inertiaMatrix`."@
}

/// The runtime diagnostics of one node (not its descendants): for a Solid or a Robot,
/// the missing-inertia warning and the duplicate-name warnings among its Solid
/// children.
pub open spec fn runtime_node_diags(n: NodeV) -> Seq<DiagV> {
    match n.kind {
        NodeKindV::Node { node_type, fields, .. } => if node_type == "Solid"@ || node_type
            == "Robot"@ {
            (if inertia_warning(fields) {
                seq![diag(n.span, Severity::Warning, inertia_message(), Some(inertia_suggestion()))]
            } else {
                Seq::empty()
            }) + duplicate_name_diags(child_solids(fields))
        } else {
            Seq::empty()
        },
        NodeKindV::Use { .. } => Seq::empty(),
    }
}

/// A sequence of several numbers written for a vector field is accepted exactly when
/// it has as many numbers as a value of the field's type has components: 2 for
/// SFVec2f, 3 for SFVec3f and SFColor, 4 for SFRotation (axis and angle), the same
/// number that groups a flat list of the matching multiple-valued type; for any other
/// type it is refused.
pub proof fn lemma_number_sequence_length(items: Seq<ValueV>, t: FieldTypeV, span: Span)
    requires
        items.len() >= 2,
    ensures
        (value_diags(ValueV::NumberSequence(items), t, span).len() == 0) <==> ((t is SFVec2f && items.len() == 2)
            || (t is SFVec3f && items.len() == 3) || (t is SFColor && items.len() == 3) || (t is SFRotation
            && items.len() == 4)),
        forall|m: FieldTypeV|
            #![trigger group_size(m)]
            is_multiple(m) && element_type(m) == t && group_size(m) is Some ==> ((value_diags(
                ValueV::NumberSequence(items),
                t,
                span,
            ).len() == 0) <==> group_size(m) == Some(items.len())),
{
    assert(!scalar_match(ValueV::NumberSequence(items), t));
}

/// The runtime diagnostics of a node and all nodes below it, in document order.
pub open spec fn runtime_tree(n: NodeV) -> Seq<DiagV>
    decreases n,
{
    runtime_node_diags(n) + match n.kind {
        NodeKindV::Node { fields, .. } => runtime_fields(fields),
        NodeKindV::Use { .. } => Seq::empty(),
    }
}

pub open spec fn runtime_fields(es: Seq<ElementV>) -> Seq<DiagV>
    decreases es,
{
    if es.len() == 0 {
        Seq::empty()
    } else {
        runtime_fields(es.drop_last()) + match es.last() {
            ElementV::Field { value, .. } => runtime_value(value),
            _ => Seq::empty(),
        }
    }
}

pub open spec fn runtime_value(v: ValueV) -> Seq<DiagV>
    decreases v,
{
    match v {
        ValueV::Node(n) => runtime_tree(*n),
        ValueV::Array(items) => runtime_items(items),
        _ => Seq::empty(),
    }
}

pub open spec fn runtime_items(items: Seq<ValueV>) -> Seq<DiagV>
    decreases items,
{
    if items.len() == 0 {
        Seq::empty()
    } else {
        runtime_items(items.drop_last()) + runtime_value(items.last())
    }
}

// ---------------------------------------------------------------------------
// Runtime diagnostics of nodes below a node
// ---------------------------------------------------------------------------
/// `t` occurs in `s` as a contiguous part.
pub open spec fn occurs_in(t: Seq<DiagV>, s: Seq<DiagV>) -> bool {
    exists|a: Seq<DiagV>, b: Seq<DiagV>| s == #[trigger] (a + t + b)
}

/// `c` is a node directly below `n`: the value of one of its fields, or a node
/// element of an array that is the value of one of its fields (`children [...]`).
pub open spec fn child_of(n: NodeV, c: NodeV) -> bool {
    match n.kind {
        NodeKindV::Node { fields, .. } => exists|i: int|
            0 <= i < fields.len() && match #[trigger] fields[i] {
                ElementV::Field { value, .. } => match value {
                    ValueV::Node(m) => *m == c,
                    ValueV::Array(items) => exists|j: int| 0 <= j < items.len() && #[trigger] items[j] == ValueV::Node(Box::new(c)),
                    _ => false,
                },
                _ => false,
            },
        NodeKindV::Use { .. } => false,
    }
}

/// `c` is `n` itself or a node `k` levels below it.
pub open spec fn below(n: NodeV, c: NodeV, k: nat) -> bool
    decreases k,
{
    if k == 0 {
        n == c
    } else {
        exists|m: NodeV| #[trigger] child_of(n, m) && below(m, c, (k - 1) as nat)
    }
}

proof fn lemma_fields_part(es: Seq<ElementV>, i: int) -> (r: (Seq<DiagV>, Seq<DiagV>))
    requires
        0 <= i < es.len(),
    ensures
        runtime_fields(es) == r.0 + (match es[i] {
            ElementV::Field { value, .. } => runtime_value(value),
            _ => Seq::empty(),
        }) + r.1,
    decreases es.len(),
{
    let x = match es[i] {
        ElementV::Field { value, .. } => runtime_value(value),
        _ => Seq::<DiagV>::empty(),
    };
    if i == es.len() - 1 {
        let r = (runtime_fields(es.drop_last()), Seq::<DiagV>::empty());
        assert(runtime_fields(es) =~= r.0 + x + r.1);
        r
    } else {
        let (a, b) = lemma_fields_part(es.drop_last(), i);
        assert(es.drop_last()[i] == es[i]);
        let last = match es.last() {
            ElementV::Field { value, .. } => runtime_value(value),
            _ => Seq::<DiagV>::empty(),
        };
        let r = (a, b + last);
        assert(runtime_fields(es) =~= r.0 + x + r.1);
        r
    }
}

proof fn lemma_items_part(items: Seq<ValueV>, j: int) -> (r: (Seq<DiagV>, Seq<DiagV>))
    requires
        0 <= j < items.len(),
    ensures
        runtime_items(items) == r.0 + runtime_value(items[j]) + r.1,
    decreases items.len(),
{
    if j == items.len() - 1 {
        let r = (runtime_items(items.drop_last()), Seq::<DiagV>::empty());
        assert(runtime_items(items) =~= r.0 + runtime_value(items[j]) + r.1);
        r
    } else {
        let (a, b) = lemma_items_part(items.drop_last(), j);
        assert(items.drop_last()[j] == items[j]);
        let r = (a, b + runtime_value(items.last()));
        assert(runtime_items(items) =~= r.0 + runtime_value(items[j]) + r.1);
        r
    }
}

proof fn lemma_child_part(n: NodeV, c: NodeV) -> (r: (Seq<DiagV>, Seq<DiagV>))
    requires
        child_of(n, c),
    ensures
        runtime_tree(n) == r.0 + runtime_tree(c) + r.1,
{
    match n.kind {
        NodeKindV::Node { fields, .. } => {
            let i = choose|i: int|
                0 <= i < fields.len() && match #[trigger] fields[i] {
                    ElementV::Field { value, .. } => match value {
                        ValueV::Node(m) => *m == c,
                        ValueV::Array(items) => exists|j: int| 0 <= j < items.len() && #[trigger] items[j] == ValueV::Node(Box::new(c)),
                        _ => false,
                    },
                    _ => false,
                };
            let (a, b) = lemma_fields_part(fields, i);
            match fields[i] {
                ElementV::Field { value, .. } => match value {
                    ValueV::Node(m) => {
                        let r = (runtime_node_diags(n) + a, b);
                        assert(runtime_tree(n) =~= r.0 + runtime_tree(c) + r.1);
                        r
                    },
                    ValueV::Array(items) => {
                        let j = choose|j: int| 0 <= j < items.len() && #[trigger] items[j] == ValueV::Node(Box::new(c));
                        let (a2, b2) = lemma_items_part(items, j);
                        let r = (runtime_node_diags(n) + a + a2, b2 + b);
                        assert(runtime_tree(n) =~= r.0 + runtime_tree(c) + r.1);
                        r
                    },
                    _ => (Seq::empty(), Seq::empty()),
                },
                _ => (Seq::empty(), Seq::empty()),
            }
        },
        NodeKindV::Use { .. } => (Seq::empty(), Seq::empty()),
    }
}

proof fn lemma_below_part(n: NodeV, c: NodeV, k: nat) -> (r: (Seq<DiagV>, Seq<DiagV>))
    requires
        below(n, c, k),
    ensures
        runtime_tree(n) == r.0 + runtime_tree(c) + r.1,
    decreases k,
{
    if k == 0 {
        assert(runtime_tree(n) =~= Seq::<DiagV>::empty() + runtime_tree(c) + Seq::<DiagV>::empty());
        (Seq::empty(), Seq::empty())
    } else {
        let m = choose|m: NodeV| #[trigger] child_of(n, m) && below(m, c, (k - 1) as nat);
        let (a, b) = lemma_child_part(n, m);
        let (a2, b2) = lemma_below_part(m, c, (k - 1) as nat);
        let r = (a + a2, b2 + b);
        assert(runtime_tree(n) =~= r.0 + runtime_tree(c) + r.1);
        r
    }
}

/// The runtime checks of a tree cover every node in it: for each node `c` at any depth
/// below `n`, reached through node-valued fields or through array elements such as
/// `children [...]`, the diagnostics of `c` itself (a missing inertia matrix,
/// duplicate sibling Solid names), and indeed of its whole subtree, occur in those
/// of `n`.
pub proof fn lemma_runtime_covers_descendants(n: NodeV, c: NodeV, k: nat)
    requires
        below(n, c, k),
    ensures
        occurs_in(runtime_tree(c), runtime_tree(n)),
        occurs_in(runtime_node_diags(c), runtime_tree(n)),
{
    let (a, b) = lemma_below_part(n, c, k);
    assert(runtime_tree(n) == a + runtime_tree(c) + b);
    let rest = match c.kind {
        NodeKindV::Node { fields, .. } => runtime_fields(fields),
        NodeKindV::Use { .. } => Seq::<DiagV>::empty(),
    };
    assert(runtime_tree(c) == runtime_node_diags(c) + rest);
    assert(runtime_tree(n) =~= a + runtime_node_diags(c) + (rest + b));
}

// ---------------------------------------------------------------------------
// Field-name suggestions
// ---------------------------------------------------------------------------
/// The edit distance between the first `i` characters of `a` and the first `j` of `b`.
pub open spec fn lev(a: Seq<char>, b: Seq<char>, i: nat, j: nat) -> nat
    decreases i + j,
{
    if i == 0 {
        j
    } else if j == 0 {
        i
    } else {
        let cost: nat = if a[i - 1] == b[j - 1] {
            0
        } else {
            1
        };
        let del = lev(a, b, (i - 1) as nat, j) + 1;
        let ins = lev(a, b, i, (j - 1) as nat) + 1;
        let sub = lev(a, b, (i - 1) as nat, (j - 1) as nat) + cost;
        if del <= ins && del <= sub {
            del
        } else if ins <= sub {
            ins
        } else {
            sub
        }
    }
}

/// The Levenshtein distance between two texts.
pub open spec fn levenshtein(a: Seq<char>, b: Seq<char>) -> nat {
    lev(a, b, a.len(), b.len())
}

/// A text is at distance 0 from itself.
pub proof fn lemma_levenshtein_self(a: Seq<char>)
    ensures
        levenshtein(a, a) == 0,
{
    lemma_lev_diagonal(a, a.len());
}

proof fn lemma_lev_diagonal(a: Seq<char>, i: nat)
    ensures
        lev(a, a, i, i) == 0,
    decreases i,
{
    if i > 0 {
        lemma_lev_diagonal(a, (i - 1) as nat);
    }
}

proof fn lemma_lev_symmetric(a: Seq<char>, b: Seq<char>, i: nat, j: nat)
    ensures
        lev(a, b, i, j) == lev(b, a, j, i),
    decreases i + j,
{
    if i > 0 && j > 0 {
        lemma_lev_symmetric(a, b, (i - 1) as nat, j);
        lemma_lev_symmetric(a, b, i, (j - 1) as nat);
        lemma_lev_symmetric(a, b, (i - 1) as nat, (j - 1) as nat);
    }
}

proof fn lemma_lev_bounds(a: Seq<char>, b: Seq<char>, i: nat, j: nat)
    ensures
        lev(a, b, i, j) <= if i >= j { i } else { j },
        lev(a, b, i, j) >= if i >= j { i - j } else { j - i },
        lev(a, b, i, j) <= lev(a, b, (i - 1) as nat, (j - 1) as nat) + 1 || i == 0 || j == 0,
    decreases i + j,
{
    if i > 0 && j > 0 {
        lemma_lev_bounds(a, b, (i - 1) as nat, j);
        lemma_lev_bounds(a, b, i, (j - 1) as nat);
        lemma_lev_bounds(a, b, (i - 1) as nat, (j - 1) as nat);
    }
}

proof fn lemma_lev_zero(a: Seq<char>, b: Seq<char>, i: nat)
    requires
        i <= a.len(),
        i <= b.len(),
        lev(a, b, i, i) == 0,
    ensures
        forall|k: int| 0 <= k < i ==> a[k] == b[k],
    decreases i,
{
    if i > 0 {
        lemma_lev_bounds(a, b, (i - 1) as nat, i);
        lemma_lev_bounds(a, b, i, (i - 1) as nat);
        assert(a[i - 1] == b[i - 1]);
        lemma_lev_zero(a, b, (i - 1) as nat);
    }
}

proof fn lemma_lev_triangle(a: Seq<char>, b: Seq<char>, c: Seq<char>, i: nat, j: nat, k: nat)
    requires
        i <= a.len(),
        j <= b.len(),
        k <= c.len(),
    ensures
        lev(a, c, i, k) <= lev(a, b, i, j) + lev(b, c, j, k),
    decreases i + j + k,
{
    lemma_lev_bounds(a, c, i, k);
    lemma_lev_bounds(a, b, i, j);
    lemma_lev_bounds(b, c, j, k);
    if i == 0 || j == 0 || k == 0 {
    } else {
        let l1 = lev(a, b, i, j);
        let l2 = lev(b, c, j, k);
        let c1: nat = if a[i - 1] == b[j - 1] { 0 } else { 1 };
        let c2: nat = if b[j - 1] == c[k - 1] { 0 } else { 1 };
        if l1 == lev(a, b, (i - 1) as nat, j) + 1 {
            lemma_lev_triangle(a, b, c, (i - 1) as nat, j, k);
        } else if l2 == lev(b, c, j, (k - 1) as nat) + 1 {
            lemma_lev_triangle(a, b, c, i, j, (k - 1) as nat);
        } else if l1 == lev(a, b, i, (j - 1) as nat) + 1 {
            if l2 == lev(b, c, (j - 1) as nat, k) + 1 {
                lemma_lev_triangle(a, b, c, i, (j - 1) as nat, k);
            } else {
                assert(l2 == lev(b, c, (j - 1) as nat, (k - 1) as nat) + c2);
                lemma_lev_triangle(a, b, c, i, (j - 1) as nat, (k - 1) as nat);
            }
        } else {
            assert(l1 == lev(a, b, (i - 1) as nat, (j - 1) as nat) + c1);
            if l2 == lev(b, c, (j - 1) as nat, k) + 1 {
                lemma_lev_triangle(a, b, c, (i - 1) as nat, (j - 1) as nat, k);
            } else {
                assert(l2 == lev(b, c, (j - 1) as nat, (k - 1) as nat) + c2);
                lemma_lev_triangle(a, b, c, (i - 1) as nat, (j - 1) as nat, (k - 1) as nat);
            }
        }
    }
}

/// The Levenshtein distance is a metric: it is symmetric, is 0 exactly between equal
/// texts, and meets the triangle inequality; and it is at least the difference of the
/// lengths and at most the larger length.
pub proof fn lemma_levenshtein_metric(a: Seq<char>, b: Seq<char>, c: Seq<char>)
    ensures
        levenshtein(a, c) <= levenshtein(a, b) + levenshtein(b, c),
        levenshtein(a, b) == levenshtein(b, a),
        (levenshtein(a, b) == 0) <==> a == b,
        levenshtein(a, b) >= if a.len() >= b.len() { a.len() - b.len() } else { b.len() - a.len() },
        levenshtein(a, b) <= if a.len() >= b.len() { a.len() } else { b.len() },
{
    lemma_lev_symmetric(a, b, a.len(), b.len());
    lemma_lev_bounds(a, b, a.len(), b.len());
    lemma_lev_triangle(a, b, c, a.len(), b.len(), c.len());
    if a == b {
        lemma_levenshtein_self(a);
    }
    if levenshtein(a, b) == 0 {
        lemma_lev_zero(a, b, a.len());
        assert(a =~= b);
    }
}

/// The distance the validator computes: the Levenshtein distance (two texts of which
/// one had `usize::MAX` characters, which no text in memory has, count as far apart).
pub open spec fn distance(a: Seq<char>, b: Seq<char>) -> nat {
    if a.len() < usize::MAX && b.len() < usize::MAX {
        levenshtein(a, b)
    } else {
        usize::MAX as nat
    }
}

/// The index of the closest candidate within distance 3 (the first of the closest
/// ones), if any.
pub open spec fn closest_index(name: Seq<char>, cands: Seq<Seq<char>>) -> Option<int>
    decreases cands.len(),
{
    if cands.len() == 0 {
        None
    } else {
        let prev = closest_index(name, cands.drop_last());
        let d = distance(name, cands.last());
        if d <= 3 && (prev is None || d < distance(name, cands[prev->0])) {
            Some(cands.len() - 1)
        } else {
            prev
        }
    }
}

/// The suggestion is the closest candidate: it is within distance 3, no candidate is
/// closer, and every candidate before it is farther; when there is none, every
/// candidate is farther than 3.
pub proof fn lemma_closest_index_is_closest(name: Seq<char>, cands: Seq<Seq<char>>)
    ensures
        match closest_index(name, cands) {
            Some(i) => {
                &&& 0 <= i < cands.len()
                &&& distance(name, cands[i]) <= 3
                &&& forall|k: int| 0 <= k < cands.len() ==> distance(name, cands[i]) <= #[trigger] distance(name, cands[k])
                &&& forall|k: int| 0 <= k < i ==> distance(name, cands[i]) < #[trigger] distance(name, cands[k])
            },
            None => forall|k: int| 0 <= k < cands.len() ==> #[trigger] distance(name, cands[k]) > 3,
        },
    decreases cands.len(),
{
    if cands.len() > 0 {
        let init = cands.drop_last();
        let n = cands.len() - 1;
        lemma_closest_index_is_closest(name, init);
        let d = distance(name, cands[n]);
        assert(cands.last() == cands[n]);
        assert forall|k: int| 0 <= k < n implies #[trigger] distance(name, cands[k]) == distance(name, init[k]) by {
            assert(init[k] == cands[k]);
        }
        match closest_index(name, init) {
            Some(p) => {
                assert(distance(name, init[p]) == distance(name, cands[p]));
                if d <= 3 && d < distance(name, cands[p]) {
                    assert forall|k: int| 0 <= k < n implies d < #[trigger] distance(name, cands[k]) by {
                        assert(distance(name, init[p]) <= distance(name, init[k]));
                    }
                } else {
                    assert forall|k: int| 0 <= k < cands.len() implies distance(name, cands[p]) <= #[trigger] distance(name, cands[k]) by {
                        if k < n {
                            assert(distance(name, init[p]) <= distance(name, init[k]));
                        }
                    }
                    assert forall|k: int| 0 <= k < p implies distance(name, cands[p]) < #[trigger] distance(name, cands[k]) by {
                        assert(distance(name, init[p]) < distance(name, init[k]));
                    }
                }
            },
            None => {
                assert forall|k: int| 0 <= k < n implies #[trigger] distance(name, cands[k]) > 3 by {
                    assert(distance(name, init[k]) > 3);
                }
            },
        }
    }
}

/// The model of a list of strings.
pub open spec fn strings_view(v: Seq<String>) -> Seq<Seq<char>> {
    Seq::new(v.len(), |i: int| v[i]@)
}

pub open spec fn closest_match(name: Seq<char>, cands: Seq<Seq<char>>) -> Option<Seq<char>> {
    match closest_index(name, cands) {
        Some(i) => Some(cands[i]),
        None => None,
    }
}

// ---------------------------------------------------------------------------
// Nodes
// ---------------------------------------------------------------------------
/// The interface field named `name`, if any (the first such).
pub open spec fn find_iface(iface: Seq<ProtoFieldV>, name: Seq<char>) -> Option<ProtoFieldV>
    decreases iface.len(),
{
    if iface.len() == 0 {
        None
    } else if iface[0].name == name {
        Some(iface[0])
    } else {
        find_iface(iface.drop_first(), name)
    }
}

/// The diagnostics of an `IS` binding of the node field `fname`, of type `t`.
pub open spec fn is_diags(v: ValueV, fname: Seq<char>, t: FieldTypeV, span: Span, iface: Seq<ProtoFieldV>) -> Seq<DiagV> {
    match v {
        ValueV::Is(r) => match find_iface(iface, r) {
            Some(f) => if f.field_type != t {
                seq![
                    diag(
                        span,
                        Severity::Error,
                        "Type mismatch in IS binding: interface field '"@ + r + "' is "@
                            + type_name_text(f.field_type) + ", but node field '"@ + fname
                            + "' expects "@ + type_name_text(t),
                        None,
                    ),
                ]
            } else {
                Seq::empty()
            },
            None => seq![diag(span, Severity::Error, "Undefined IS reference: "@ + r, None)],
        },
        _ => Seq::empty(),
    }
}

/// The warning for a CAD shape given as a Shape's geometry.
pub open spec fn semantics_diags(parent: Seq<char>, fname: Seq<char>, v: ValueV, span: Span) -> Seq<DiagV> {
    if parent == "Shape"@ && fname == "geometry"@ && (v matches ValueV::Node(n) && n.kind matches NodeKindV::Node {
        node_type,
        ..
    } && node_type == "CadShape"@) {
        seq![
            diag(
                span,
                Severity::Warning,
                "Skipped node: Cannot insert CadShape node in 'geometry' field of Shape node."@,
                Some(
                    "Use a geometry node supported by Shape.geometry, such as Mesh, Box, Sphere, or IndexedFaceSet."@,
                ),
            ),
        ]
    } else {
        Seq::empty()
    }
}

pub open spec fn schema_names(schema: Seq<RawField>) -> Seq<Seq<char>> {
    Seq::new(schema.len(), |i: int| schema[i].0)
}

/// The diagnostics of a field of a node of a known type, before its children.
pub open spec fn known_field_diags(ty: Seq<char>, schema: Seq<RawField>, name: Seq<char>, v: ValueV, span: Span, iface: Seq<ProtoFieldV>) -> Seq<DiagV> {
    match find_field(schema, name) {
        Some(t) => value_diags(v, t, span) + semantics_diags(ty, name, v, span) + is_diags(
            v,
            name,
            t,
            span,
            iface,
        ),
        None => seq![
            diag(
                span,
                Severity::Warning,
                "Unknown field '"@ + name + "' for node '"@ + ty + "'"@,
                match closest_match(name, schema_names(schema)) {
                    Some(s) => Some("Did you mean '"@ + s + "'?"@),
                    None => None,
                },
            ),
        ],
    }
}

/// The state of the walk: the diagnostics so far and the `DEF` names seen so far.
pub type Walk = (Seq<DiagV>, DefTable);

/// The `DEF` names seen so far, each with the type of the node it names, in order.
pub type DefTable = Seq<(Seq<char>, Seq<char>)>;

/// The type of the node that `name` was last defined as.
pub open spec fn def_type(defs: DefTable, name: Seq<char>) -> Option<Seq<char>>
    decreases defs.len(),
{
    if defs.len() == 0 {
        None
    } else if defs.last().0 == name {
        Some(defs.last().1)
    } else {
        def_type(defs.drop_last(), name)
    }
}

/// Validates a node: registers its `DEF` name, checks the runtime rules, then its
/// fields against the schema of its type (or warns of an unknown type), and walks
/// into child nodes.  `USE` needs an earlier `DEF` of the name.
pub open spec fn node_walk(n: NodeV, defs: DefTable, iface: Seq<ProtoFieldV>) -> Walk
    decreases n,
{
    match n.kind {
        NodeKindV::Use { use_name } => (
            if def_type(defs, use_name) is Some {
                Seq::empty()
            } else {
                seq![
                    diag(n.span, Severity::Error, "Undefined USE reference: "@ + use_name, None),
                ]
            },
            defs,
        ),
        NodeKindV::Node { node_type, def_name, fields } => {
            let defs1 = match def_name {
                Some(d) => defs.push((d, node_type)),
                None => defs,
            };
            let rt = runtime_node_diags(n);
            match builtin_schema(node_type) {
                Some(schema) => {
                    let w = fields_walk(fields, node_type, Some(schema), defs1, iface);
                    (rt + w.0, w.1)
                },
                None => {
                    let w = fields_walk(fields, node_type, None, defs1, iface);
                    (
                        rt + seq![
                            diag(
                                n.span,
                                Severity::Warning,
                                "Unknown node type '"@ + node_type + "'"@,
                                None,
                            ),
                        ] + w.0,
                        w.1,
                    )
                },
            }
        },
    }
}

/// Walks the fields of a node of type `ty` (with its schema when the type is known).
pub open spec fn fields_walk(es: Seq<ElementV>, ty: Seq<char>, schema: Option<Seq<RawField>>, defs: DefTable, iface: Seq<ProtoFieldV>) -> Walk
    decreases es,
{
    if es.len() == 0 {
        (Seq::empty(), defs)
    } else {
        let w = fields_walk(es.drop_last(), ty, schema, defs, iface);
        match es.last() {
            ElementV::Field { name, value, span } => {
                let own = match schema {
                    Some(s) => known_field_diags(ty, s, name, value, span, iface),
                    None => Seq::empty(),
                };
                let c = children_walk(value, w.1, iface);
                (w.0 + own + c.0, c.1)
            },
            _ => w,
        }
    }
}

/// Walks the child nodes of a field value: the node itself, or the nodes of an array.
pub open spec fn children_walk(v: ValueV, defs: DefTable, iface: Seq<ProtoFieldV>) -> Walk
    decreases v,
{
    match v {
        ValueV::Node(c) => node_walk(*c, defs, iface),
        ValueV::Array(items) => array_walk(items, defs, iface),
        _ => (Seq::empty(), defs),
    }
}

pub open spec fn array_walk(items: Seq<ValueV>, defs: DefTable, iface: Seq<ProtoFieldV>) -> Walk
    decreases items,
{
    if items.len() == 0 {
        (Seq::empty(), defs)
    } else {
        let w = array_walk(items.drop_last(), defs, iface);
        match items.last() {
            ValueV::Node(c) => {
                let c2 = node_walk(*c, w.1, iface);
                (w.0 + c2.0, c2.1)
            },
            _ => w,
        }
    }
}

pub open spec fn body_walk(items: Seq<BodyItemV>, defs: DefTable, iface: Seq<ProtoFieldV>) -> Walk
    decreases items.len(),
{
    if items.len() == 0 {
        (Seq::empty(), defs)
    } else {
        let w = body_walk(items.drop_last(), defs, iface);
        match items.last() {
            BodyItemV::Node(n) => {
                let c = node_walk(n, w.1, iface);
                (w.0 + c.0, c.1)
            },
            BodyItemV::Template(_) => w,
        }
    }
}

pub open spec fn nodes_walk(ns: Seq<NodeV>, defs: DefTable, iface: Seq<ProtoFieldV>) -> Walk
    decreases ns.len(),
{
    if ns.len() == 0 {
        (Seq::empty(), defs)
    } else {
        let w = nodes_walk(ns.drop_last(), defs, iface);
        let c = node_walk(ns.last(), w.1, iface);
        (w.0 + c.0, c.1)
    }
}

/// Everything validating a document reports, in order: the header, then (when there
/// is a PROTO definition) its interface and its body, then the root nodes.  `DEF`
/// names seen in the body count for the root nodes too.
pub open spec fn document_diags(d: ProtoV) -> Seq<DiagV> {
    let iface = match d.proto {
        Some(p) => p.fields,
        None => Seq::empty(),
    };
    let pw: Walk = match d.proto {
        Some(p) => {
            let b = body_walk(p.body, Seq::empty(), iface);
            (interface_diags(p.fields) + b.0, b.1)
        },
        None => (Seq::empty(), Seq::empty()),
    };
    header_diags(d) + pw.0 + nodes_walk(d.root_nodes, pw.1, iface).0
}

} // verus!
