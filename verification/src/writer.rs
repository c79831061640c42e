//! Writing documents back to text: losslessly (the source text, when the document
//! was parsed from one) or in a canonical layout.
//!
//! The canonical layout is given by the spec functions of this module
//! ([`document_text`] and the functions it calls); the writer produces exactly that
//! text.
use crate::ast::{
    array_view, lemma_array_view, lemma_elements_view, lemma_nodes_view, lemma_numbers_view,
    lemma_values_view, elements_view, externs_view, node_view, nodes_view, numbers_view,
    value_view, values_view, body_view, proto_fields_view, ArrayElement, AstNode, AstNodeKind,
    BodyItemV, ElementV, ExternProto, ExternProtoV, FieldKeyword, FieldType, FieldTypeV,
    FieldValue, Header, HeaderV, NodeBodyElement, NodeKindV, NodeV, Proto, ProtoBodyItem,
    ProtoDefV, ProtoDefinition, ProtoField, ProtoFieldV, ProtoV, TemplateBlock, TemplateV,
    Span, ValueV,
};
use crate::error::ProtoError;
use crate::text::{escape_default, push_escaped_str, push_str, string_from_chars};
use vstd::prelude::*;

verus! {

broadcast use vstd::std_specs::vec::group_vec_axioms;

// ---------------------------------------------------------------------------
// The canonical text
// ---------------------------------------------------------------------------
/// `n` levels of indentation, two spaces each.
pub open spec fn spaces(n: nat) -> Seq<char>
    decreases n,
{
    if n == 0 {
        Seq::empty()
    } else {
        spaces((n - 1) as nat) + seq![' ', ' ']
    }
}

/// One level deeper (indentation is counted in a `usize`, which never overflows here:
/// at its maximum it stays there).
pub open spec fn deeper(i: usize) -> usize {
    if i < usize::MAX {
        (i + 1) as usize
    } else {
        i
    }
}

pub open spec fn digit_char(d: nat) -> char {
    (('0' as nat) + d) as char
}

/// The decimal digits of `n`.
pub open spec fn digits_text(n: nat) -> Seq<char>
    decreases n,
{
    if n < 10 {
        seq![digit_char(n)]
    } else {
        digits_text(n / 10).push(digit_char(n % 10))
    }
}

/// An integer in decimal, as `Display` writes it.
pub open spec fn int_text(v: i64) -> Seq<char> {
    if v < 0 {
        seq!['-'] + digits_text((-v) as nat)
    } else {
        digits_text(v as nat)
    }
}

/// A template block: `%<= content >%` for an expression, `%< content >%` otherwise.
pub open spec fn template_text(t: TemplateV) -> Seq<char> {
    (if t.is_expression {
        "%<="@
    } else {
        "%<"@
    }) + t.content + ">%"@
}

/// Texts joined with a separator.
pub open spec fn join(parts: Seq<Seq<char>>, sep: Seq<char>) -> Seq<char>
    decreases parts.len(),
{
    if parts.len() == 0 {
        Seq::empty()
    } else if parts.len() == 1 {
        parts[0]
    } else {
        join(parts.drop_last(), sep) + sep + parts.last()
    }
}

/// Nodes and templates put an array on several lines.
pub open spec fn is_block_value(v: ValueV) -> bool {
    v is Node || v is Template
}

/// True when an array must be written one element per line: it holds a node or a
/// template.
pub open spec fn multiline(items: Seq<ValueV>) -> bool {
    exists|i: int| 0 <= i < items.len() && #[trigger] is_block_value(items[i])
}

/// The canonical text of a value at indentation `ind`.
pub open spec fn value_text(v: ValueV, ind: usize) -> Seq<char>
    decreases v,
{
    match v {
        ValueV::Bool(b) => if b {
            "TRUE"@
        } else {
            "FALSE"@
        },
        ValueV::Int(i, _) => int_text(i),
        ValueV::Float(t, _) => t,
        ValueV::String(s) => seq!['"'] + escape_default(s) + seq!['"'],
        ValueV::Vec2f(a) => join(a, seq![' ']),
        ValueV::Vec3f(a) => join(a, seq![' ']),
        ValueV::Rotation(a) => join(a, seq![' ']),
        ValueV::Color(a) => join(a, seq![' ']),
        ValueV::Node(n) => node_text(*n, ind, false),
        ValueV::Array(items) => if items.len() == 0 {
            "[]"@
        } else if multiline(items) {
            "[\n"@ + array_lines(items, deeper(ind)) + spaces(ind as nat) + seq![']']
        } else {
            seq!['['] + joined_values(items, ind, ", "@) + seq![']']
        },
        ValueV::NumberSequence(items) => joined_values(items, ind, seq![' ']),
        ValueV::Is(name) => "IS "@ + name,
        ValueV::Null => "NULL"@,
        ValueV::Template(t) => template_text(t),
        ValueV::Raw(s) => s,
    }
}

/// Values written one after another with a separator between them.
pub open spec fn joined_values(items: Seq<ValueV>, ind: usize, sep: Seq<char>) -> Seq<char>
    decreases items,
{
    if items.len() == 0 {
        Seq::empty()
    } else if items.len() == 1 {
        value_text(items[0], ind)
    } else {
        joined_values(items.drop_last(), ind, sep) + sep + value_text(items.last(), ind)
    }
}

/// The elements of a multi-line array, each on its own line at indentation `ind`: a
/// node in block layout, anything else indented.
pub open spec fn array_lines(items: Seq<ValueV>, ind: usize) -> Seq<char>
    decreases items,
{
    if items.len() == 0 {
        Seq::empty()
    } else {
        let item = match items.last() {
            ValueV::Node(n) => node_text(*n, ind, true),
            ValueV::Template(t) => spaces(ind as nat) + template_text(t),
            _ => spaces(ind as nat) + value_text(items.last(), ind),
        };
        array_lines(items.drop_last(), ind) + item + seq!['\n']
    }
}

/// One element of a multi-line array, as [`array_lines`] writes it.
pub open spec fn array_item_text(v: ValueV, ind: usize) -> Seq<char> {
    match v {
        ValueV::Node(n) => node_text(*n, ind, true),
        ValueV::Template(t) => spaces(ind as nat) + template_text(t),
        _ => spaces(ind as nat) + value_text(v, ind),
    }
}

/// The `DEF name ` prefix of a node, when it has one.
pub open spec fn def_text(def_name: Option<Seq<char>>) -> Seq<char> {
    match def_name {
        Some(d) => "DEF "@ + d + seq![' '],
        None => Seq::empty(),
    }
}

/// A node, in block layout (one element per line) or inline.
pub open spec fn node_text(n: NodeV, ind: usize, block: bool) -> Seq<char>
    decreases n,
{
    match n.kind {
        NodeKindV::Use { use_name } => spaces(ind as nat) + "USE "@ + use_name,
        NodeKindV::Node { node_type, def_name, fields } => if block {
            spaces(ind as nat) + def_text(def_name) + node_type + " {\n"@ + block_elements(
                fields,
                deeper(ind),
            ) + spaces(ind as nat) + seq!['}']
        } else {
            def_text(def_name) + node_type + " {"@ + inline_elements(fields, ind) + " }"@
        },
    }
}

/// Node body elements written inline, each preceded by a space.
pub open spec fn inline_elements(s: Seq<ElementV>, ind: usize) -> Seq<char>
    decreases s,
{
    if s.len() == 0 {
        Seq::empty()
    } else {
        inline_elements(s.drop_last(), ind) + inline_element(s.last(), ind)
    }
}

pub open spec fn inline_element(e: ElementV, ind: usize) -> Seq<char>
    decreases e,
{
    match e {
        ElementV::Field { name, value, .. } => seq![' '] + name + seq![' '] + value_text(value, ind),
        ElementV::Template(t) => seq![' '] + template_text(t),
        ElementV::Raw { text, .. } => seq![' '] + text,
    }
}

/// Node body elements written one per line at indentation `ind`.
pub open spec fn block_elements(s: Seq<ElementV>, ind: usize) -> Seq<char>
    decreases s,
{
    if s.len() == 0 {
        Seq::empty()
    } else {
        block_elements(s.drop_last(), ind) + block_element(s.last(), ind)
    }
}

pub open spec fn block_element(e: ElementV, ind: usize) -> Seq<char>
    decreases e,
{
    match e {
        ElementV::Field { name, value, .. } => spaces(ind as nat) + name + seq![' '] + value_text(
            value,
            ind,
        ) + seq!['\n'],
        ElementV::Template(t) => spaces(ind as nat) + template_text(t) + seq!['\n'],
        ElementV::Raw { text, .. } => spaces(ind as nat) + text + seq!['\n'],
    }
}

/// The name a field type is written with.
pub open spec fn field_type_text(t: FieldTypeV) -> Seq<char> {
    match t {
        FieldTypeV::SFBool => "SFBool"@,
        FieldTypeV::SFInt32 => "SFInt32"@,
        FieldTypeV::SFFloat => "SFFloat"@,
        FieldTypeV::SFString => "SFString"@,
        FieldTypeV::SFVec2f => "SFVec2f"@,
        FieldTypeV::SFVec3f => "SFVec3f"@,
        FieldTypeV::SFRotation => "SFRotation"@,
        FieldTypeV::SFColor => "SFColor"@,
        FieldTypeV::SFNode => "SFNode"@,
        FieldTypeV::MFBool => "MFBool"@,
        FieldTypeV::MFInt32 => "MFInt32"@,
        FieldTypeV::MFFloat => "MFFloat"@,
        FieldTypeV::MFString => "MFString"@,
        FieldTypeV::MFVec2f => "MFVec2f"@,
        FieldTypeV::MFVec3f => "MFVec3f"@,
        FieldTypeV::MFRotation => "MFRotation"@,
        FieldTypeV::MFColor => "MFColor"@,
        FieldTypeV::MFNode => "MFNode"@,
        FieldTypeV::Unknown(raw) => raw,
    }
}

pub open spec fn keyword_text(k: FieldKeyword) -> Seq<char> {
    match k {
        FieldKeyword::Field => "field"@,
        FieldKeyword::VrmlField => "vrmlField"@,
        FieldKeyword::HiddenField => "hiddenField"@,
        FieldKeyword::DeprecatedField => "deprecatedField"@,
    }
}

/// An interface field declaration, on its own line at indentation `ind`.
pub open spec fn proto_field_text(f: ProtoFieldV, ind: usize) -> Seq<char> {
    spaces(ind as nat) + keyword_text(f.keyword) + seq![' '] + field_type_text(f.field_type) + seq![
        ' ',
    ] + f.name + restrictions_text(f.restrictions, ind) + default_text(f.default_value, ind) + seq!['\n']
}

pub open spec fn proto_fields_text(s: Seq<ProtoFieldV>, ind: usize) -> Seq<char>
    decreases s.len(),
{
    if s.len() == 0 {
        Seq::empty()
    } else {
        proto_fields_text(s.drop_last(), ind) + proto_field_text(s.last(), ind)
    }
}

pub open spec fn body_item_text(b: BodyItemV, ind: usize) -> Seq<char> {
    match b {
        BodyItemV::Node(n) => node_text(n, ind, true) + seq!['\n'],
        BodyItemV::Template(t) => spaces(ind as nat) + template_text(t) + seq!['\n'],
    }
}

pub open spec fn body_text(s: Seq<BodyItemV>, ind: usize) -> Seq<char>
    decreases s.len(),
{
    if s.len() == 0 {
        Seq::empty()
    } else {
        body_text(s.drop_last(), ind) + body_item_text(s.last(), ind)
    }
}

/// A PROTO definition at indentation `ind`.
pub open spec fn proto_def_text(p: ProtoDefV, ind: usize) -> Seq<char> {
    spaces(ind as nat) + "PROTO "@ + p.name + " [\n"@ + proto_fields_text(p.fields, deeper(ind))
        + spaces(ind as nat) + "]\n"@ + spaces(ind as nat) + "{\n"@ + body_text(p.body, deeper(ind))
        + spaces(ind as nat) + seq!['}']
}

/// An EXTERNPROTO declaration.
pub open spec fn extern_text(e: ExternProtoV) -> Seq<char> {
    (if e.importable {
        "IMPORTABLE "@
    } else {
        Seq::empty()
    }) + "EXTERNPROTO \""@ + e.url + seq!['"'] + (match e.alias {
        Some(a) => seq![' '] + a,
        None => Seq::empty(),
    })
}

/// The EXTERNPROTO declarations, each followed by a line break unless it is the last
/// thing in the document.
pub open spec fn externs_text(s: Seq<ExternProtoV>, more: bool) -> Seq<char>
    decreases s.len(),
{
    if s.len() == 0 {
        Seq::empty()
    } else {
        let last_break = if more {
            seq!['\n']
        } else {
            Seq::empty()
        };
        externs_text_all(s.drop_last()) + extern_text(s.last()) + last_break
    }
}

/// Declarations each followed by a line break.
pub open spec fn externs_text_all(s: Seq<ExternProtoV>) -> Seq<char>
    decreases s.len(),
{
    if s.len() == 0 {
        Seq::empty()
    } else {
        externs_text_all(s.drop_last()) + extern_text(s.last()) + seq!['\n']
    }
}

/// Root nodes in block layout, separated by line breaks.
pub open spec fn roots_text(s: Seq<NodeV>) -> Seq<char>
    decreases s.len(),
{
    if s.len() == 0 {
        Seq::empty()
    } else if s.len() == 1 {
        node_text(s[0], 0, true)
    } else {
        roots_text(s.drop_last()) + seq!['\n'] + node_text(s.last(), 0, true)
    }
}

pub open spec fn header_text(h: HeaderV) -> Seq<char> {
    "#VRML_SIM "@ + h.version + seq![' '] + h.encoding + seq!['\n']
}

/// The canonical text of a document.
pub open spec fn document_text(d: ProtoV) -> Seq<char> {
    (match d.header {
        Some(h) => header_text(h),
        None => Seq::empty(),
    }) + externs_text(d.externprotos, d.proto is Some || d.root_nodes.len() > 0) + proto_part_text(
        d.proto,
        d.root_nodes.len() > 0,
    ) + roots_text(d.root_nodes)
}

/// What the lossless writer gives: the source text when there is one, the canonical
/// text otherwise.
pub open spec fn lossless_text(d: ProtoV) -> Seq<char> {
    match d.source_content {
        Some(s) => s,
        None => document_text(d),
    }
}

// ---------------------------------------------------------------------------
// Writing
// ---------------------------------------------------------------------------
fn next_indent(i: usize) -> (r: usize)
    ensures
        r == deeper(i),
{
    if i < usize::MAX {
        i + 1
    } else {
        i
    }
}

fn push_lit(out: &mut Vec<char>, s: &str)
    ensures
        final(out)@ == old(out)@ + s@,
{
    push_str(out, s);
}

fn push_spaces(out: &mut Vec<char>, n: usize)
    ensures
        final(out)@ == old(out)@ + spaces(n as nat),
{
    let ghost before = out@;
    let mut k: usize = 0;
    while k < n
        invariant
            k <= n,
            out@ == before + spaces(k as nat),
        decreases n - k,
    {
        out.push(' ');
        out.push(' ');
        k = k + 1;
        proof {
            assert(out@ =~= before + spaces(k as nat));
        }
    }
}

pub fn push_digits(out: &mut Vec<char>, n: u64)
    ensures
        final(out)@ == old(out)@ + digits_text(n as nat),
    decreases n,
{
    let ghost before = out@;
    if n >= 10 {
        push_digits(out, n / 10);
    }
    let d = (n % 10) as u8;
    let c = (48u8 + d) as char;
    proof {
        assert(c == digit_char((n % 10) as nat));
    }
    out.push(c);
    proof {
        assert(out@ =~= before + digits_text(n as nat));
    }
}

pub(crate) fn push_int(out: &mut Vec<char>, v: i64)
    ensures
        final(out)@ == old(out)@ + int_text(v),
{
    let ghost before = out@;
    if v < 0 {
        out.push('-');
        let m: u64 = (0i128 - (v as i128)) as u64;
        push_digits(out, m);
        proof {
            assert(out@ =~= before + int_text(v));
        }
    } else {
        push_digits(out, v as u64);
    }
}

fn push_template(out: &mut Vec<char>, t: &TemplateBlock)
    ensures
        final(out)@ == old(out)@ + template_text(t@),
{
    let ghost before = out@;
    if t.is_expression {
        push_lit(out, "%<=");
    } else {
        push_lit(out, "%<");
    }
    push_str(out, t.content.as_str());
    push_lit(out, ">%");
    proof {
        assert(out@ =~= before + template_text(t@));
    }
}

/// Writes the texts of `a`, separated by single spaces.
fn push_joined_words(out: &mut Vec<char>, a: &[String])
    ensures
        final(out)@ == old(out)@ + join(Seq::new(a@.len(), |i: int| a@[i]@), seq![' ']),
{
    let ghost before = out@;
    let ghost parts = Seq::new(a@.len(), |i: int| a@[i]@);
    let mut k: usize = 0;
    while k < a.len()
        invariant
            k <= a@.len(),
            parts == Seq::new(a@.len(), |i: int| a@[i]@),
            out@ == before + join(parts.take(k as int), seq![' ']),
        decreases a@.len() - k,
    {
        let ghost mid = out@;
        if k > 0 {
            out.push(' ');
        }
        push_str(out, a[k].as_str());
        proof {
            assert(parts.take(k + 1).drop_last() =~= parts.take(k as int));
            assert(parts.take(k + 1).last() == a@[k as int]@);
            if k == 0 {
                assert(parts.take(1) =~= seq![a@[0]@]);
                assert(join(Seq::<Seq<char>>::empty(), seq![' ']) =~= Seq::<char>::empty());
            }
            assert(out@ =~= before + join(parts.take(k + 1), seq![' ']));
        }
        k = k + 1;
    }
    proof {
        assert(parts.take(a@.len() as int) =~= parts);
    }
}

/// Writes a field value. A non-integer number is written as the decimal text it is
/// held as (see [`FieldValue`]), so it keeps the form it was read in (`1.50`, `1e3`)
/// rather than the shortest form of a floating-point value.
fn push_value(out: &mut Vec<char>, v: &FieldValue, ind: usize)
    ensures
        final(out)@ == old(out)@ + value_text(v@, ind),
    decreases v,
{
    let ghost before = out@;
    match v {
        FieldValue::Bool(b) => {
            if *b {
                push_lit(out, "TRUE");
            } else {
                push_lit(out, "FALSE");
            }
        },
        FieldValue::Int(i, _) => push_int(out, *i),
        FieldValue::Float(t, _) => push_str(out, t.as_str()),
        FieldValue::String(s) => {
            out.push('"');
            push_escaped_str(out, s.as_str());
            out.push('"');
            proof {
                assert(out@ =~= before + value_text(v@, ind));
            }
        },
        FieldValue::Vec2f(a) => {
            push_joined_words(out, a);
            proof {
                assert(Seq::new(a@.len(), |i: int| a@[i]@) =~= crate::ast::strs_view(a@));
            }
        },
        FieldValue::Vec3f(a) => {
            push_joined_words(out, a);
            proof {
                assert(Seq::new(a@.len(), |i: int| a@[i]@) =~= crate::ast::strs_view(a@));
            }
        },
        FieldValue::Rotation(a) => {
            push_joined_words(out, a);
            proof {
                assert(Seq::new(a@.len(), |i: int| a@[i]@) =~= crate::ast::strs_view(a@));
            }
        },
        FieldValue::Color(a) => {
            push_joined_words(out, a);
            proof {
                assert(Seq::new(a@.len(), |i: int| a@[i]@) =~= crate::ast::strs_view(a@));
            }
        },
        FieldValue::Node(n) => {
            push_node(out, n, ind, false);
        },
        FieldValue::Array(a) => {
            push_array(out, &a.elements, ind);
        },
        FieldValue::NumberSequence(s) => {
            proof {
                lemma_numbers_view(s.elements@);
            }
            push_number_run(out, &s.elements, ind);
        },
        FieldValue::Is(name) => {
            push_lit(out, "IS ");
            push_str(out, name.as_str());
            proof {
                assert(out@ =~= before + value_text(v@, ind));
            }
        },
        FieldValue::Null => push_lit(out, "NULL"),
        FieldValue::Template(t) => push_template(out, t),
        FieldValue::Raw(s) => push_str(out, s.as_str()),
    }
}

/// Writes a number sequence: its values separated by spaces.
fn push_number_run(out: &mut Vec<char>, elems: &Vec<crate::ast::NumberSequenceElement>, ind: usize)
    ensures
        final(out)@ == old(out)@ + joined_values(numbers_view(elems@), ind, seq![' ']),
    decreases elems@,
{
    let ghost before = out@;
    let ghost items = numbers_view(elems@);
    proof {
        lemma_numbers_view(elems@);
    }
    let mut k: usize = 0;
    while k < elems.len()
        invariant
            k <= elems@.len(),
            items == numbers_view(elems@),
            items.len() == elems@.len(),
            forall|i: int| 0 <= i < elems@.len() ==> #[trigger] items[i] == value_view(elems@[i].value),
            out@ == before + joined_values(items.take(k as int), ind, seq![' ']),
        decreases elems@.len() - k,
    {
        if k > 0 {
            out.push(' ');
        }
        proof {
            assert(decreases_to!(elems@ => elems@[k as int]));
            assert(decreases_to!(elems@[k as int] => elems@[k as int].value));
        }
        push_value(out, &elems[k].value, ind);
        proof {
            assert(items.take(k + 1).drop_last() =~= items.take(k as int));
            assert(items.take(k + 1).last() == items[k as int]);
            if k == 0 {
                assert(items.take(1) =~= seq![items[0]]);
            }
            assert(out@ =~= before + joined_values(items.take(k + 1), ind, seq![' ']));
        }
        k = k + 1;
    }
    proof {
        assert(items.take(elems@.len() as int) =~= items);
    }
}

fn is_block_item(v: &FieldValue) -> (r: bool)
    ensures
        r == is_block_value(v@),
{
    match v {
        FieldValue::Node(_) | FieldValue::Template(_) => true,
        _ => false,
    }
}

/// Writes an array value.
fn push_array(out: &mut Vec<char>, elems: &Vec<ArrayElement>, ind: usize)
    ensures
        final(out)@ == old(out)@ + value_text(ValueV::Array(array_view(elems@)), ind),
    decreases elems@,
{
    let ghost before = out@;
    let ghost items = array_view(elems@);
    proof {
        lemma_array_view(elems@);
    }
    if elems.len() == 0 {
        push_lit(out, "[]");
        return;
    }
    let mut multi = false;
    let mut k: usize = 0;
    while k < elems.len()
        invariant
            k <= elems@.len(),
            items == array_view(elems@),
            items.len() == elems@.len(),
            forall|i: int| 0 <= i < elems@.len() ==> #[trigger] items[i] == value_view(elems@[i].value),
            multi == multiline(items.take(k as int)),
        decreases elems@.len() - k,
    {
        let b = is_block_item(&elems[k].value);
        proof {
            let t1 = items.take(k + 1);
            let t0 = items.take(k as int);
            assert(t1[k as int] == items[k as int]);
            if b {
                assert(is_block_value(t1[k as int]));
            }
            if multiline(t0) {
                let w = choose|i: int| 0 <= i < t0.len() && #[trigger] is_block_value(t0[i]);
                assert(t1[w] == t0[w]);
            }
            if multiline(t1) && !b {
                let w = choose|i: int| 0 <= i < t1.len() && #[trigger] is_block_value(t1[i]);
                assert(t0[w] == t1[w]);
            }
        }
        if b {
            multi = true;
        }
        k = k + 1;
    }
    proof {
        assert(items.take(elems@.len() as int) =~= items);
    }
    let inner = next_indent(ind);
    if multi {
        push_lit(out, "[\n");
        let ghost start = out@;
        let mut k: usize = 0;
        while k < elems.len()
            invariant
                k <= elems@.len(),
                items == array_view(elems@),
                items.len() == elems@.len(),
                forall|i: int| 0 <= i < elems@.len() ==> #[trigger] items[i] == value_view(elems@[i].value),
                out@ == start + array_lines(items.take(k as int), inner),
                inner == deeper(ind),
            decreases elems@.len() - k,
        {
            proof {
                assert(decreases_to!(elems@ => elems@[k as int]));
                assert(decreases_to!(elems@[k as int] => elems@[k as int].value));
            }
            let ghost mid = out@;
            match &elems[k].value {
                FieldValue::Node(n) => push_node(out, n, inner, true),
                FieldValue::Template(t) => {
                    push_spaces(out, inner);
                    push_template(out, t);
                },
                other => {
                    push_spaces(out, inner);
                    push_value(out, other, inner);
                },
            }
            out.push('\n');
            proof {
                assert(out@ =~= mid + array_item_text(items[k as int], inner) + seq!['\n']);
                assert(items.take(k + 1).drop_last() =~= items.take(k as int));
                assert(items.take(k + 1).last() == items[k as int]);
                assert(array_lines(items.take(k + 1), inner) == array_lines(items.take(k as int), inner)
                    + array_item_text(items[k as int], inner) + seq!['\n']);
                assert(out@ =~= start + array_lines(items.take(k + 1), inner));
            }
            k = k + 1;
        }
        push_spaces(out, ind);
        out.push(']');
        proof {
            assert(items.take(elems@.len() as int) =~= items);
            assert(multiline(items));
            assert(out@ =~= before + value_text(ValueV::Array(items), ind));
        }
    } else {
        out.push('[');
        let ghost start = out@;
        let mut k: usize = 0;
        while k < elems.len()
            invariant
                k <= elems@.len(),
                items == array_view(elems@),
                items.len() == elems@.len(),
                forall|i: int| 0 <= i < elems@.len() ==> #[trigger] items[i] == value_view(elems@[i].value),
                out@ == start + joined_values(items.take(k as int), ind, ", "@),
            decreases elems@.len() - k,
        {
            if k > 0 {
                push_lit(out, ", ");
            }
            proof {
                assert(decreases_to!(elems@ => elems@[k as int]));
                assert(decreases_to!(elems@[k as int] => elems@[k as int].value));
            }
            push_value(out, &elems[k].value, ind);
            proof {
                assert(items.take(k + 1).drop_last() =~= items.take(k as int));
                assert(items.take(k + 1).last() == items[k as int]);
                if k == 0 {
                    assert(items.take(1) =~= seq![items[0]]);
                }
                assert(out@ =~= start + joined_values(items.take(k + 1), ind, ", "@));
            }
            k = k + 1;
        }
        out.push(']');
        proof {
            assert(items.take(elems@.len() as int) =~= items);
            assert(!multiline(items));
            assert(out@ =~= before + value_text(ValueV::Array(items), ind));
        }
    }
}

fn push_def(out: &mut Vec<char>, def_name: &Option<String>)
    ensures
        final(out)@ == old(out)@ + def_text(crate::ast::opt_str(*def_name)),
{
    let ghost d0 = out@;
    match def_name {
        Some(d) => {
            push_lit(out, "DEF ");
            push_str(out, d.as_str());
            out.push(' ');
        },
        None => {},
    }
    proof {
        assert(out@ =~= d0 + def_text(crate::ast::opt_str(*def_name)));
    }
}

#[verifier::spinoff_prover]
fn push_node(out: &mut Vec<char>, n: &AstNode, ind: usize, block: bool)
    ensures
        final(out)@ == old(out)@ + node_text(n@, ind, block),
    decreases n,
{
    let ghost before = out@;
    match &n.kind {
        AstNodeKind::Use { use_name } => {
            push_spaces(out, ind);
            push_lit(out, "USE ");
            push_str(out, use_name.as_str());
            proof {
                assert(out@ =~= before + node_text(n@, ind, block));
            }
        },
        AstNodeKind::Node { node_type, def_name, fields } => {
            let ghost head = def_text(crate::ast::opt_str(*def_name)) + node_type@;
            if block {
                push_spaces(out, ind);
                push_def(out, def_name);
                push_str(out, node_type.as_str());
                push_lit(out, " {\n");
                let inner = next_indent(ind);
                push_block_elements(out, fields, inner);
                push_spaces(out, ind);
                out.push('}');
                proof {
                    assert(out@ =~= before + spaces(ind as nat) + head + " {\n"@ + block_elements(
                        elements_view(fields@),
                        deeper(ind),
                    ) + spaces(ind as nat) + seq!['}']);
                }
            } else {
                push_def(out, def_name);
                push_str(out, node_type.as_str());
                push_lit(out, " {");
                push_inline_elements(out, fields, ind);
                push_lit(out, " }");
                proof {
                    assert(out@ =~= before + head + " {"@ + inline_elements(elements_view(fields@), ind)
                        + " }"@);
                }
            }
        },
    }
}

fn push_inline_elements(out: &mut Vec<char>, fields: &Vec<NodeBodyElement>, ind: usize)
    ensures
        final(out)@ == old(out)@ + inline_elements(elements_view(fields@), ind),
    decreases fields@,
{
    let ghost before = out@;
    let ghost items = elements_view(fields@);
    proof {
        lemma_elements_view(fields@);
    }
    let mut k: usize = 0;
    while k < fields.len()
        invariant
            k <= fields@.len(),
            items == elements_view(fields@),
            items.len() == fields@.len(),
            forall|i: int| 0 <= i < fields@.len() ==> #[trigger] items[i] == crate::ast::element_view(fields@[i]),
            out@ == before + inline_elements(items.take(k as int), ind),
        decreases fields@.len() - k,
    {
        let ghost mid = out@;
        proof {
            assert(decreases_to!(fields@ => fields@[k as int]));
        }
        match &fields[k] {
            NodeBodyElement::Field(f) => {
                out.push(' ');
                push_str(out, f.name.as_str());
                out.push(' ');
                proof {
                    assert(decreases_to!(fields@[k as int] => f.value));
                }
                push_value(out, &f.value, ind);
            },
            NodeBodyElement::Template(t) => {
                out.push(' ');
                push_template(out, t);
            },
            NodeBodyElement::Raw(r) => {
                out.push(' ');
                push_str(out, r.text.as_str());
            },
        }
        proof {
            assert(out@ =~= mid + inline_element(items[k as int], ind));
            assert(items.take(k + 1).drop_last() =~= items.take(k as int));
            assert(items.take(k + 1).last() == items[k as int]);
            assert(out@ =~= before + inline_elements(items.take(k + 1), ind));
        }
        k = k + 1;
    }
    proof {
        assert(items.take(fields@.len() as int) =~= items);
    }
}

fn push_block_elements(out: &mut Vec<char>, fields: &Vec<NodeBodyElement>, ind: usize)
    ensures
        final(out)@ == old(out)@ + block_elements(elements_view(fields@), ind),
    decreases fields@,
{
    let ghost before = out@;
    let ghost items = elements_view(fields@);
    proof {
        lemma_elements_view(fields@);
    }
    let mut k: usize = 0;
    while k < fields.len()
        invariant
            k <= fields@.len(),
            items == elements_view(fields@),
            items.len() == fields@.len(),
            forall|i: int| 0 <= i < fields@.len() ==> #[trigger] items[i] == crate::ast::element_view(fields@[i]),
            out@ == before + block_elements(items.take(k as int), ind),
        decreases fields@.len() - k,
    {
        let ghost mid = out@;
        proof {
            assert(decreases_to!(fields@ => fields@[k as int]));
        }
        push_spaces(out, ind);
        match &fields[k] {
            NodeBodyElement::Field(f) => {
                push_str(out, f.name.as_str());
                out.push(' ');
                proof {
                    assert(decreases_to!(fields@[k as int] => f.value));
                }
                push_value(out, &f.value, ind);
            },
            NodeBodyElement::Template(t) => {
                push_template(out, t);
            },
            NodeBodyElement::Raw(r) => {
                push_str(out, r.text.as_str());
            },
        }
        out.push('\n');
        proof {
            assert(out@ =~= mid + block_element(items[k as int], ind));
            assert(items.take(k + 1).drop_last() =~= items.take(k as int));
            assert(items.take(k + 1).last() == items[k as int]);
            assert(out@ =~= before + block_elements(items.take(k + 1), ind));
        }
        k = k + 1;
    }
    proof {
        assert(items.take(fields@.len() as int) =~= items);
    }
}

fn push_field_type(out: &mut Vec<char>, t: &FieldType)
    ensures
        final(out)@ == old(out)@ + field_type_text(t@),
{
    match t {
        FieldType::SFBool => push_lit(out, "SFBool"),
        FieldType::SFInt32 => push_lit(out, "SFInt32"),
        FieldType::SFFloat => push_lit(out, "SFFloat"),
        FieldType::SFString => push_lit(out, "SFString"),
        FieldType::SFVec2f => push_lit(out, "SFVec2f"),
        FieldType::SFVec3f => push_lit(out, "SFVec3f"),
        FieldType::SFRotation => push_lit(out, "SFRotation"),
        FieldType::SFColor => push_lit(out, "SFColor"),
        FieldType::SFNode => push_lit(out, "SFNode"),
        FieldType::MFBool => push_lit(out, "MFBool"),
        FieldType::MFInt32 => push_lit(out, "MFInt32"),
        FieldType::MFFloat => push_lit(out, "MFFloat"),
        FieldType::MFString => push_lit(out, "MFString"),
        FieldType::MFVec2f => push_lit(out, "MFVec2f"),
        FieldType::MFVec3f => push_lit(out, "MFVec3f"),
        FieldType::MFRotation => push_lit(out, "MFRotation"),
        FieldType::MFColor => push_lit(out, "MFColor"),
        FieldType::MFNode => push_lit(out, "MFNode"),
        FieldType::Unknown(raw) => push_str(out, raw.as_str()),
    }
}

fn push_restrictions(out: &mut Vec<char>, items: &Vec<FieldValue>, ind: usize)
    ensures
        final(out)@ == old(out)@ + joined_values(values_view(items@), ind, ", "@),
{
    let ghost before = out@;
    let ghost vs = values_view(items@);
    proof {
        lemma_values_view(items@);
    }
    let mut k: usize = 0;
    while k < items.len()
        invariant
            k <= items@.len(),
            vs == values_view(items@),
            vs.len() == items@.len(),
            forall|i: int| 0 <= i < items@.len() ==> #[trigger] vs[i] == value_view(items@[i]),
            out@ == before + joined_values(vs.take(k as int), ind, ", "@),
        decreases items@.len() - k,
    {
        if k > 0 {
            push_lit(out, ", ");
        }
        push_value(out, &items[k], ind);
        proof {
            assert(vs.take(k + 1).drop_last() =~= vs.take(k as int));
            assert(vs.take(k + 1).last() == vs[k as int]);
            if k == 0 {
                assert(vs.take(1) =~= seq![vs[0]]);
            }
            assert(out@ =~= before + joined_values(vs.take(k + 1), ind, ", "@));
        }
        k = k + 1;
    }
    proof {
        assert(vs.take(items@.len() as int) =~= vs);
    }
}

fn push_proto_field(out: &mut Vec<char>, f: &ProtoField, ind: usize)
    ensures
        final(out)@ == old(out)@ + proto_field_text(f@, ind),
{
    let ghost before = out@;
    let ghost fv = f@;
    push_spaces(out, ind);
    push_keyword(out, f.keyword);
    out.push(' ');
    push_field_type(out, &f.field_type);
    out.push(' ');
    push_str(out, f.name.as_str());
    let ghost m0 = out@;
    push_field_restrictions(out, &f.restrictions, ind);
    let ghost m1 = out@;
    push_default(out, &f.default_value, ind);
    let ghost m2 = out@;
    out.push('\n');
    proof {
        assert(m1 == m0 + restrictions_text(fv.restrictions, ind));
        assert(m2 == m1 + default_text(fv.default_value, ind));
        assert(m0 =~= before + spaces(ind as nat) + keyword_text(fv.keyword) + seq![' '] + field_type_text(
            fv.field_type,
        ) + seq![' '] + fv.name);
        assert(out@ =~= before + proto_field_text(fv, ind));
    }
}

fn push_keyword(out: &mut Vec<char>, k: FieldKeyword)
    ensures
        final(out)@ == old(out)@ + keyword_text(k),
{
    match k {
        FieldKeyword::Field => push_lit(out, "field"),
        FieldKeyword::VrmlField => push_lit(out, "vrmlField"),
        FieldKeyword::HiddenField => push_lit(out, "hiddenField"),
        FieldKeyword::DeprecatedField => push_lit(out, "deprecatedField"),
    }
}

pub open spec fn restrictions_text(r: Option<Seq<ValueV>>, ind: usize) -> Seq<char> {
    match r {
        Some(r) => " { "@ + joined_values(r, ind, ", "@) + " }"@,
        None => Seq::empty(),
    }
}

pub open spec fn default_text(d: Option<ValueV>, ind: usize) -> Seq<char> {
    match d {
        Some(v) => seq![' '] + value_text(v, ind),
        None => Seq::empty(),
    }
}

fn push_field_restrictions(out: &mut Vec<char>, r: &Option<Vec<FieldValue>>, ind: usize)
    ensures
        final(out)@ == old(out)@ + restrictions_text(
            match *r {
                Some(v) => Some(values_view(v@)),
                None => None,
            },
            ind,
        ),
{
    let ghost m0 = out@;
    match r {
        Some(r) => {
            push_lit(out, " { ");
            push_restrictions(out, r, ind);
            push_lit(out, " }");
        },
        None => {},
    }
    proof {
        assert(out@ =~= m0 + restrictions_text(
            match *r {
                Some(v) => Some(values_view(v@)),
                None => None,
            },
            ind,
        ));
    }
}

fn push_default(out: &mut Vec<char>, d: &Option<FieldValue>, ind: usize)
    ensures
        final(out)@ == old(out)@ + default_text(
            match *d {
                Some(v) => Some(v@),
                None => None,
            },
            ind,
        ),
{
    let ghost m0 = out@;
    match d {
        Some(v) => {
            out.push(' ');
            push_value(out, v, ind);
        },
        None => {},
    }
    proof {
        assert(out@ =~= m0 + default_text(
            match *d {
                Some(v) => Some(v@),
                None => None,
            },
            ind,
        ));
    }
}

fn push_proto_def(out: &mut Vec<char>, p: &ProtoDefinition, ind: usize)
    ensures
        final(out)@ == old(out)@ + proto_def_text(p@, ind),
{
    let ghost before = out@;
    let inner = next_indent(ind);
    push_spaces(out, ind);
    push_lit(out, "PROTO ");
    push_str(out, p.name.as_str());
    push_lit(out, " [\n");
    let ghost f0 = out@;
    let ghost fs = proto_fields_view(p.fields@);
    let mut k: usize = 0;
    while k < p.fields.len()
        invariant
            k <= p.fields@.len(),
            fs == proto_fields_view(p.fields@),
            inner == deeper(ind),
            out@ == f0 + proto_fields_text(fs.take(k as int), inner),
        decreases p.fields@.len() - k,
    {
        push_proto_field(out, &p.fields[k], inner);
        proof {
            assert(fs.take(k + 1).drop_last() =~= fs.take(k as int));
            assert(fs.take(k + 1).last() == p.fields@[k as int]@);
            assert(out@ =~= f0 + proto_fields_text(fs.take(k + 1), inner));
        }
        k = k + 1;
    }
    proof {
        assert(fs.take(p.fields@.len() as int) =~= fs);
    }
    push_spaces(out, ind);
    push_lit(out, "]\n");
    push_spaces(out, ind);
    push_lit(out, "{\n");
    let ghost b0 = out@;
    let ghost bs = body_view(p.body@);
    let mut k: usize = 0;
    while k < p.body.len()
        invariant
            k <= p.body@.len(),
            bs == body_view(p.body@),
            inner == deeper(ind),
            out@ == b0 + body_text(bs.take(k as int), inner),
        decreases p.body@.len() - k,
    {
        let ghost mid = out@;
        match &p.body[k] {
            ProtoBodyItem::Node(n) => {
                push_node(out, n, inner, true);
                out.push('\n');
            },
            ProtoBodyItem::Template(t) => {
                push_spaces(out, inner);
                push_template(out, t);
                out.push('\n');
            },
        }
        proof {
            assert(out@ =~= mid + body_item_text(bs[k as int], inner));
            assert(bs.take(k + 1).drop_last() =~= bs.take(k as int));
            assert(bs.take(k + 1).last() == bs[k as int]);
            assert(out@ =~= b0 + body_text(bs.take(k + 1), inner));
        }
        k = k + 1;
    }
    proof {
        assert(bs.take(p.body@.len() as int) =~= bs);
    }
    push_spaces(out, ind);
    out.push('}');
    proof {
        assert(out@ =~= before + proto_def_text(p@, ind));
    }
}

fn push_extern(out: &mut Vec<char>, e: &ExternProto)
    ensures
        final(out)@ == old(out)@ + extern_text(e@),
{
    let ghost before = out@;
    if e.importable {
        push_lit(out, "IMPORTABLE ");
    }
    push_lit(out, "EXTERNPROTO \"");
    push_str(out, e.url.as_str());
    out.push('"');
    match &e.alias {
        Some(a) => {
            out.push(' ');
            push_str(out, a.as_str());
        },
        None => {},
    }
    proof {
        assert(out@ =~= before + extern_text(e@));
    }
}

proof fn lemma_externs_text(s: Seq<ExternProtoV>, more: bool)
    requires
        s.len() > 0,
    ensures
        externs_text(s, more) == externs_text_all(s.drop_last()) + extern_text(s.last()) + (if more {
            seq!['\n']
        } else {
            Seq::<char>::empty()
        }),
{
}

fn push_header(out: &mut Vec<char>, header: &Option<Header>)
    ensures
        final(out)@ == old(out)@ + (match *header {
            Some(h) => header_text(h@),
            None => Seq::empty(),
        }),
{
    let ghost before = out@;
    match header {
        Some(h) => {
            push_lit(out, "#VRML_SIM ");
            push_str(out, h.version.as_str());
            out.push(' ');
            push_str(out, h.encoding.as_str());
            out.push('\n');
        },
        None => {},
    }
    proof {
        assert(out@ =~= before + (match *header {
            Some(h) => header_text(h@),
            None => Seq::empty(),
        }));
    }
}

fn push_externs(out: &mut Vec<char>, externs: &Vec<ExternProto>, more: bool)
    ensures
        final(out)@ == old(out)@ + externs_text(externs_view(externs@), more),
{
    let ghost h0 = out@;
    let n = externs.len();
    let ghost es = externs_view(externs@);
    if n == 0 {
        proof {
            assert(out@ =~= h0 + externs_text(es, more));
        }
        return;
    }
    let mut k: usize = 0;
    proof {
        assert(es.take(0) =~= Seq::<ExternProtoV>::empty());
    }
    while k + 1 < n
        invariant
            n == externs@.len(),
            n > 0,
            k + 1 <= n,
            es == externs_view(externs@),
            out@ == h0 + externs_text_all(es.take(k as int)),
        decreases n - k,
    {
        push_extern(out, &externs[k]);
        out.push('\n');
        proof {
            assert(es.take(k + 1).drop_last() =~= es.take(k as int));
            assert(es.take(k + 1).last() == es[k as int]);
            assert(out@ =~= h0 + externs_text_all(es.take(k + 1)));
        }
        k = k + 1;
    }
    push_extern(out, &externs[k]);
    if more {
        out.push('\n');
    }
    proof {
        assert(es.drop_last() =~= es.take(k as int));
        lemma_externs_text(es, more);
        assert(out@ =~= h0 + externs_text(es, more));
    }
}

pub open spec fn proto_part_text(p: Option<ProtoDefV>, more: bool) -> Seq<char> {
    match p {
        Some(p) => proto_def_text(p, 0) + (if more {
            seq!['\n']
        } else {
            Seq::empty()
        }),
        None => Seq::empty(),
    }
}

fn push_proto_part(out: &mut Vec<char>, p: &Option<ProtoDefinition>, more: bool)
    ensures
        final(out)@ == old(out)@ + proto_part_text(
            match *p {
                Some(d) => Some(d@),
                None => None,
            },
            more,
        ),
{
    let ghost before = out@;
    match p {
        Some(d) => {
            push_proto_def(out, d, 0);
            if more {
                out.push('\n');
            }
        },
        None => {},
    }
    proof {
        assert(out@ =~= before + proto_part_text(
            match *p {
                Some(d) => Some(d@),
                None => None,
            },
            more,
        ));
    }
}

fn push_roots(out: &mut Vec<char>, roots: &Vec<AstNode>)
    ensures
        final(out)@ == old(out)@ + roots_text(nodes_view(roots@)),
{
    let ghost p0 = out@;
    let ghost rs = nodes_view(roots@);
    proof {
        lemma_nodes_view(roots@);
    }
    let mut k: usize = 0;
    while k < roots.len()
        invariant
            k <= roots@.len(),
            rs == nodes_view(roots@),
            rs.len() == roots@.len(),
            forall|i: int| 0 <= i < rs.len() ==> #[trigger] rs[i] == node_view(roots@[i]),
            out@ == p0 + roots_text(rs.take(k as int)),
        decreases roots@.len() - k,
    {
        if k > 0 {
            out.push('\n');
        }
        push_node(out, &roots[k], 0, true);
        proof {
            assert(rs.take(k + 1).drop_last() =~= rs.take(k as int));
            assert(rs.take(k + 1).last() == rs[k as int]);
            if k == 0 {
                assert(rs.take(1) =~= seq![rs[0]]);
            }
            assert(out@ =~= p0 + roots_text(rs.take(k + 1)));
        }
        k = k + 1;
    }
    proof {
        assert(rs.take(roots@.len() as int) =~= rs);
    }
}

fn push_document(out: &mut Vec<char>, doc: &Proto)
    ensures
        final(out)@ == old(out)@ + document_text(doc@),
{
    let ghost before = out@;
    push_header(out, &doc.header);
    let more = doc.proto.is_some() || doc.root_nodes.len() > 0;
    push_externs(out, &doc.externprotos, more);
    push_proto_part(out, &doc.proto, doc.root_nodes.len() > 0);
    push_roots(out, &doc.root_nodes);
    proof {
        assert(out@ =~= before + document_text(doc@));
    }
}

/// Writes documents, nodes and templates as text.
pub struct ProtoWriter;

impl ProtoWriter {
    /// Creates a writer.
    pub fn new() -> (r: ProtoWriter)
        ensures
            r == ProtoWriter,
    {
        ProtoWriter
    }

    /// The document as text, keeping the formatting of its source: its source text when it
    /// was parsed from one, its canonical text otherwise.
    pub fn write_lossless(&self, doc: &Proto) -> (r: Result<String, ProtoError>)
        ensures
            r matches Ok(s) && s@ == lossless_text(doc@),
    {
        match &doc.source_content {
            Some(s) => Ok(s.clone()),
            None => Ok(self.write_canonical(doc)),
        }
    }

    /// The canonical text of the document.
    pub fn write_canonical(&self, doc: &Proto) -> (r: String)
        ensures
            r@ == document_text(doc@),
    {
        let mut out: Vec<char> = Vec::new();
        push_document(&mut out, doc);
        proof {
            assert(out@ =~= document_text(doc@));
        }
        string_from_chars(&out)
    }

    /// Appends the canonical text of the document to `out`.
    pub fn write_document_canonical(&self, out: &mut String, doc: &Proto) -> (r: Result<(), std::fmt::Error>)
        ensures
            r is Ok,
            final(out)@ == old(out)@ + document_text(doc@),
    {
        let text = self.write_canonical(doc);
        out.append(text.as_str());
        Ok(())
    }

    /// Appends the canonical block layout of a node, at indentation zero, to `out`.
    pub fn write_node(&self, out: &mut String, node: &AstNode) -> (r: Result<(), std::fmt::Error>)
        ensures
            r is Ok,
            final(out)@ == old(out)@ + node_text(node@, 0, true),
    {
        let mut buf: Vec<char> = Vec::new();
        push_node(&mut buf, node, 0, true);
        proof {
            assert(buf@ =~= node_text(node@, 0, true));
        }
        let text = string_from_chars(&buf);
        out.append(text.as_str());
        Ok(())
    }

    /// Appends a template block, `%<...>%` or `%<=...>%`, to `out`.
    pub fn write_template(&self, out: &mut String, template: &TemplateBlock) -> (r: Result<(), std::fmt::Error>)
        ensures
            r is Ok,
            final(out)@ == old(out)@ + template_text(template@),
    {
        let mut buf: Vec<char> = Vec::new();
        push_template(&mut buf, template);
        proof {
            assert(buf@ =~= template_text(template@));
        }
        let text = string_from_chars(&buf);
        out.append(text.as_str());
        Ok(())
    }

    /// The name a field type is written with.
    pub fn field_type_name(&self, field_type: &FieldType) -> (r: String)
        ensures
            r@ == field_type_text(field_type@),
    {
        let mut buf: Vec<char> = Vec::new();
        push_field_type(&mut buf, field_type);
        proof {
            assert(buf@ =~= field_type_text(field_type@));
        }
        string_from_chars(&buf)
    }
}

/// Canonical writing keeps `DEF` names: a node with the `DEF` name `d` is written as
/// the same node without it, with `DEF d ` put in front of its type (after the
/// indentation, for a node written on its own lines).
pub proof fn lemma_node_text_def(node_type: Seq<char>, d: Seq<char>, fields: Seq<ElementV>, span: Span, ind: usize)
    ensures
        ({
            let named = NodeV { kind: NodeKindV::Node { node_type, def_name: Some(d), fields }, span };
            let plain = NodeV { kind: NodeKindV::Node { node_type, def_name: None, fields }, span };
            &&& node_text(named, ind, false) == "DEF "@ + d + seq![' '] + node_text(plain, ind, false)
            &&& exists|x: Seq<char>|
                node_text(plain, ind, true) == #[trigger] (spaces(ind as nat) + x) && node_text(named, ind, true)
                    == spaces(ind as nat) + ("DEF "@ + d + seq![' ']) + x
        }),
{
    let named = NodeV { kind: NodeKindV::Node { node_type, def_name: Some(d), fields }, span };
    let plain = NodeV { kind: NodeKindV::Node { node_type, def_name: None, fields }, span };
    let x = node_type + " {\n"@ + block_elements(fields, deeper(ind)) + spaces(ind as nat) + seq!['}'];
    assert(node_text(plain, ind, true) =~= spaces(ind as nat) + x);
    assert(node_text(named, ind, true) =~= spaces(ind as nat) + ("DEF "@ + d + seq![' ']) + x);
    assert(node_text(named, ind, false) =~= "DEF "@ + d + seq![' '] + node_text(plain, ind, false));
}

} // verus!
