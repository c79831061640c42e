//! Expanding a document's nodes (see [`crate::expand_spec`]): choosing the root
//! node, replacing `IS` bindings, inlining EXTERNPROTO nodes and making mesh URLs
//! absolute.
use crate::ast::{array_view, body_view, element_view, elements_view, lemma_array_view, lemma_elements_view, numbers_view, proto_fields_view, value_view, ArrayElement, ArrayValue, AstNode, AstNodeKind, FieldValue, NodeBodyElement, NodeField, NumberSequence, NumberSequenceElement, Proto, ProtoBodyItem, ProtoField, RawSyntax, TemplateBlock, ValueV};
use crate::expand_spec::{
    binding_of, binding_fuel, field_bindings, find_expansion, first_body_node, inline_children_of,
    inline_children_ok, inline_fields, inline_fields_ok, inline_items, inline_items_ok, inline_node,
    inline_node_ok, inline_value, inline_value_ok, instantiate, interface_bindings, last_binding,
    select_root, subst_children, subst_children_ok, subst_element, subst_element_ok, subst_fields,
    subst_fields_ok, subst_items, subst_items_ok, subst_node, subst_node_ok, endless_message, inline_fuel, lemma_subst_node_enough, lemma_inline_node_fuel,
    Bindings, ExpansionV,
};
use crate::resolver::{join_paths, ProtoError};
use crate::expand_spec::{absolute_base, canonical_of, cand_fields, cand_items, cand_node, cand_url, cand_value, has_scheme, is_local_relative, norm_fields, norm_items, norm_value, normalize_node, normalized_url, scheme_at, url_candidate};
use vstd::prelude::*;

verus! {

broadcast use vstd::std_specs::vec::group_vec_axioms;

// ---------------------------------------------------------------------------
// Copies
// ---------------------------------------------------------------------------
fn clone_opt(s: &Option<String>) -> (r: Option<String>)
    ensures
        crate::ast::opt_str(r) == crate::ast::opt_str(*s),
{
    match s {
        Some(x) => Some(x.clone()),
        None => None,
    }
}

fn clone_template(t: &TemplateBlock) -> (r: TemplateBlock)
    ensures
        r@ == t@,
{
    TemplateBlock { content: t.content.clone(), is_expression: t.is_expression, span: t.span }
}

/// A copy of a value.
pub fn clone_value(v: &FieldValue) -> (r: FieldValue)
    ensures
        r@ == v@,
    decreases v,
{
    match v {
        FieldValue::Bool(b) => FieldValue::Bool(*b),
        FieldValue::Int(i, raw) => FieldValue::Int(*i, clone_opt(raw)),
        FieldValue::Float(t, raw) => FieldValue::Float(t.clone(), clone_opt(raw)),
        FieldValue::String(s) => FieldValue::String(s.clone()),
        FieldValue::Vec2f(a) => {
            let r = [a[0].clone(), a[1].clone()];
            proof {
                assert(crate::ast::strs_view(r@) =~= crate::ast::strs_view(a@));
            }
            FieldValue::Vec2f(r)
        },
        FieldValue::Vec3f(a) => {
            let r = [a[0].clone(), a[1].clone(), a[2].clone()];
            proof {
                assert(crate::ast::strs_view(r@) =~= crate::ast::strs_view(a@));
            }
            FieldValue::Vec3f(r)
        },
        FieldValue::Rotation(a) => {
            let r = [a[0].clone(), a[1].clone(), a[2].clone(), a[3].clone()];
            proof {
                assert(crate::ast::strs_view(r@) =~= crate::ast::strs_view(a@));
            }
            FieldValue::Rotation(r)
        },
        FieldValue::Color(a) => {
            let r = [a[0].clone(), a[1].clone(), a[2].clone()];
            proof {
                assert(crate::ast::strs_view(r@) =~= crate::ast::strs_view(a@));
            }
            FieldValue::Color(r)
        },
        FieldValue::Node(n) => FieldValue::Node(Box::new(clone_node(n))),
        FieldValue::Array(a) => {
            let e = clone_array(&a.elements);
            FieldValue::Array(ArrayValue { elements: e })
        },
        FieldValue::NumberSequence(s) => {
            let e = clone_numbers(&s.elements);
            FieldValue::NumberSequence(NumberSequence { elements: e })
        },
        FieldValue::Is(s) => FieldValue::Is(s.clone()),
        FieldValue::Null => FieldValue::Null,
        FieldValue::Template(t) => FieldValue::Template(clone_template(t)),
        FieldValue::Raw(s) => FieldValue::Raw(s.clone()),
    }
}

fn clone_array(v: &Vec<ArrayElement>) -> (r: Vec<ArrayElement>)
    ensures
        array_view(r@) == array_view(v@),
    decreases v@,
{
    let mut out: Vec<ArrayElement> = Vec::new();
    let mut i: usize = 0;
    proof {
        assert(array_view(out@) =~= array_view(v@.take(0)));
    }
    while i < v.len()
        invariant
            i <= v@.len(),
            array_view(out@) == array_view(v@.take(i as int)),
        decreases v@.len() - i,
    {
        proof {
            assert(decreases_to!(v@ => v@[i as int]));
            assert(decreases_to!(v@[i as int] => v@[i as int].value));
        }
        let c = clone_value(&v[i].value);
        let ghost before = out@;
        out.push(ArrayElement { value: c });
        proof {
            assert(out@.drop_last() =~= before);
            assert(v@.take(i + 1).drop_last() =~= v@.take(i as int));
            assert(array_view(out@) == array_view(before).push(value_view(out@.last().value)));
        }
        i = i + 1;
    }
    proof {
        assert(v@.take(i as int) =~= v@);
    }
    out
}

fn clone_numbers(v: &Vec<NumberSequenceElement>) -> (r: Vec<NumberSequenceElement>)
    ensures
        numbers_view(r@) == numbers_view(v@),
    decreases v@,
{
    let mut out: Vec<NumberSequenceElement> = Vec::new();
    let mut i: usize = 0;
    proof {
        assert(numbers_view(out@) =~= numbers_view(v@.take(0)));
    }
    while i < v.len()
        invariant
            i <= v@.len(),
            numbers_view(out@) == numbers_view(v@.take(i as int)),
        decreases v@.len() - i,
    {
        proof {
            assert(decreases_to!(v@ => v@[i as int]));
            assert(decreases_to!(v@[i as int] => v@[i as int].value));
        }
        let c = clone_value(&v[i].value);
        let ghost before = out@;
        out.push(NumberSequenceElement { value: c });
        proof {
            assert(out@.drop_last() =~= before);
            assert(v@.take(i + 1).drop_last() =~= v@.take(i as int));
            assert(numbers_view(out@) == numbers_view(before).push(value_view(out@.last().value)));
        }
        i = i + 1;
    }
    proof {
        assert(v@.take(i as int) =~= v@);
    }
    out
}

/// A copy of a node.
pub fn clone_node(n: &AstNode) -> (r: AstNode)
    ensures
        r@ == n@,
    decreases n,
{
    match &n.kind {
        AstNodeKind::Use { use_name } => AstNode {
            kind: AstNodeKind::Use { use_name: use_name.clone() },
            span: n.span,
        },
        AstNodeKind::Node { node_type, def_name, fields } => {
            let f = clone_elements(fields);
            AstNode {
                kind: AstNodeKind::Node { node_type: node_type.clone(), def_name: clone_opt(def_name), fields: f },
                span: n.span,
            }
        },
    }
}

fn clone_element(e: &NodeBodyElement) -> (r: NodeBodyElement)
    ensures
        element_view(r) == element_view(*e),
    decreases e,
{
    match e {
        NodeBodyElement::Field(f) => NodeBodyElement::Field(
            NodeField { name: f.name.clone(), value: clone_value(&f.value), span: f.span },
        ),
        NodeBodyElement::Template(t) => NodeBodyElement::Template(clone_template(t)),
        NodeBodyElement::Raw(r) => NodeBodyElement::Raw(RawSyntax { text: r.text.clone(), span: r.span }),
    }
}

fn clone_elements(v: &Vec<NodeBodyElement>) -> (r: Vec<NodeBodyElement>)
    ensures
        elements_view(r@) == elements_view(v@),
    decreases v@,
{
    let mut out: Vec<NodeBodyElement> = Vec::new();
    let mut i: usize = 0;
    proof {
        assert(elements_view(out@) =~= elements_view(v@.take(0)));
    }
    while i < v.len()
        invariant
            i <= v@.len(),
            elements_view(out@) == elements_view(v@.take(i as int)),
        decreases v@.len() - i,
    {
        proof {
            assert(decreases_to!(v@ => v@[i as int]));
        }
        let c = clone_element(&v[i]);
        let ghost before = out@;
        out.push(c);
        proof {
            assert(out@.drop_last() =~= before);
            assert(v@.take(i + 1).drop_last() =~= v@.take(i as int));
            assert(elements_view(out@) == elements_view(before).push(element_view(out@.last())));
        }
        i = i + 1;
    }
    proof {
        assert(v@.take(i as int) =~= v@);
    }
    out
}

// ---------------------------------------------------------------------------
// The root node
// ---------------------------------------------------------------------------
/// The node a document expands to (see [`select_root`]).
#[verifier::loop_isolation(false)]
pub fn select_root_node(doc: &Proto) -> (r: Result<AstNode, ProtoError>)
    ensures
        match (r, select_root(doc@)) {
            (Ok(n), Ok(m)) => n@ == m,
            (Err(ProtoError::ParseError(e)), Err(m)) => e@ == m,
            _ => false,
        },
{
    match &doc.proto {
        Some(p) => {
            let ghost items = body_view(p.body@);
            let mut i: usize = 0;
            proof {
                assert(items.skip(0) =~= items);
            }
            while i < p.body.len()
                invariant
                    i <= p.body@.len(),
                    items == body_view(p.body@),
                    first_body_node(items) == first_body_node(items.skip(i as int)),
                decreases p.body@.len() - i,
            {
                proof {
                    assert(items.skip(i as int)[0] == items[i as int]);
                    assert(items.skip(i as int).drop_first() =~= items.skip(i + 1));
                }
                match &p.body[i] {
                    ProtoBodyItem::Node(n) => {
                        return Ok(clone_node(n));
                    },
                    ProtoBodyItem::Template(_) => {},
                }
                i = i + 1;
            }
            Err(ProtoError::ParseError(String::from_str("PROTO definition has no root node")))
        },
        None => {
            proof {
                crate::ast::lemma_nodes_view(doc.root_nodes@);
            }
            if doc.root_nodes.len() > 0 {
                Ok(clone_node(&doc.root_nodes[0]))
            } else {
                Err(ProtoError::ParseError(String::from_str("Document has no root nodes")))
            }
        },
    }
}

// ---------------------------------------------------------------------------
// Bindings
// ---------------------------------------------------------------------------
/// The model of a list of named values.
pub open spec fn bindings_view(v: Seq<(String, FieldValue)>) -> Bindings {
    Seq::new(v.len(), |i: int| (v[i].0@, v[i].1@))
}

/// The default values of a PROTO interface, by field name.
pub fn interface_defaults(fields: &Vec<ProtoField>) -> (r: Vec<(String, FieldValue)>)
    ensures
        bindings_view(r@) == interface_bindings(proto_fields_view(fields@)),
{
    let ghost fs = proto_fields_view(fields@);
    let mut out: Vec<(String, FieldValue)> = Vec::new();
    let mut i: usize = 0;
    proof {
        assert(bindings_view(out@) =~= interface_bindings(fs.take(0)));
    }
    while i < fields.len()
        invariant
            i <= fields@.len(),
            fs == proto_fields_view(fields@),
            bindings_view(out@) == interface_bindings(fs.take(i as int)),
        decreases fields@.len() - i,
    {
        proof {
            assert(fs.take(i + 1).drop_last() =~= fs.take(i as int));
            assert(fs.take(i + 1).last() == fields@[i as int]@);
        }
        match &fields[i].default_value {
            Some(v) => {
                out.push((fields[i].name.clone(), clone_value(v)));
                proof {
                    assert(bindings_view(out@) =~= interface_bindings(fs.take(i + 1)));
                }
            },
            None => {},
        }
        i = i + 1;
    }
    proof {
        assert(fs.take(i as int) =~= fs);
    }
    out
}

/// The field values of a caller node, by field name.
fn caller_bindings(fields: &Vec<NodeBodyElement>) -> (r: Vec<(String, FieldValue)>)
    ensures
        bindings_view(r@) == field_bindings(elements_view(fields@)),
{
    let ghost es = elements_view(fields@);
    proof {
        lemma_elements_view(fields@);
    }
    let mut out: Vec<(String, FieldValue)> = Vec::new();
    let mut i: usize = 0;
    proof {
        assert(bindings_view(out@) =~= field_bindings(es.take(0)));
    }
    while i < fields.len()
        invariant
            i <= fields@.len(),
            es == elements_view(fields@),
            es.len() == fields@.len(),
            forall|k: int| 0 <= k < fields@.len() ==> #[trigger] es[k] == element_view(fields@[k]),
            bindings_view(out@) == field_bindings(es.take(i as int)),
        decreases fields@.len() - i,
    {
        proof {
            assert(es.take(i + 1).drop_last() =~= es.take(i as int));
            assert(es.take(i + 1).last() == es[i as int]);
        }
        match &fields[i] {
            NodeBodyElement::Field(f) => {
                out.push((f.name.clone(), clone_value(&f.value)));
                proof {
                    assert(bindings_view(out@) =~= field_bindings(es.take(i + 1)));
                }
            },
            _ => {},
        }
        i = i + 1;
    }
    proof {
        assert(es.take(i as int) =~= es);
    }
    out
}

/// The value of the last entry named `name`.
fn find_binding<'a>(b: &'a Vec<(String, FieldValue)>, name: &String) -> (r: Option<&'a FieldValue>)
    ensures
        match r {
            Some(v) => last_binding(bindings_view(b@), name@) == Some(v@),
            None => last_binding(bindings_view(b@), name@) is None,
        },
{
    let ghost all = bindings_view(b@);
    let mut i = b.len();
    proof {
        assert(all.take(i as int) =~= all);
    }
    while i > 0
        invariant
            i <= b@.len(),
            all == bindings_view(b@),
            last_binding(all, name@) == last_binding(all.take(i as int), name@),
        decreases i,
    {
        proof {
            assert(all.take(i as int).last() == all[i - 1]);
            assert(all.take(i as int).drop_last() =~= all.take(i - 1));
        }
        if b[i - 1].0.eq(name) {
            return Some(&b[i - 1].1);
        }
        i = i - 1;
    }
    None
}

/// The value an `IS` binding takes (see [`binding_of`]).
fn bound_value<'a>(name: &String, caller: &'a Vec<(String, FieldValue)>, defaults: &'a Vec<(String, FieldValue)>) -> (r: Option<&'a FieldValue>)
    ensures
        match r {
            Some(v) => binding_of(name@, bindings_view(caller@), bindings_view(defaults@)) == Some(v@),
            None => binding_of(name@, bindings_view(caller@), bindings_view(defaults@)) is None,
        },
{
    match find_binding(caller, name) {
        Some(v) => Some(v),
        None => find_binding(defaults, name),
    }
}

// ---------------------------------------------------------------------------
// IS bindings
// ---------------------------------------------------------------------------
/// A node with its `IS` bindings replaced (see [`subst_node`]).
/// With it, whether every binding was replaced within `fuel` nested replacements (see
/// [`subst_node_ok`]).
pub fn subst_in_node(n: &AstNode, caller: &Vec<(String, FieldValue)>, defaults: &Vec<(String, FieldValue)>, fuel: u64) -> (r: (AstNode, bool))
    ensures
        r.0@ == subst_node(n@, bindings_view(caller@), bindings_view(defaults@), fuel as nat),
        r.1 == subst_node_ok(n@, bindings_view(caller@), bindings_view(defaults@), fuel as nat),
    decreases fuel, n,
{
    match &n.kind {
        AstNodeKind::Use { .. } => (clone_node(n), true),
        AstNodeKind::Node { node_type, def_name, fields } => {
            let (f, ok) = subst_in_fields(fields, caller, defaults, fuel);
            (
                AstNode {
                    kind: AstNodeKind::Node { node_type: node_type.clone(), def_name: clone_opt(def_name), fields: f },
                    span: n.span,
                },
                ok,
            )
        },
    }
}

fn subst_in_fields(es: &Vec<NodeBodyElement>, caller: &Vec<(String, FieldValue)>, defaults: &Vec<(String, FieldValue)>, fuel: u64) -> (r: (Vec<NodeBodyElement>, bool))
    ensures
        elements_view(r.0@) == subst_fields(elements_view(es@), bindings_view(caller@), bindings_view(defaults@), fuel as nat),
        r.1 == subst_fields_ok(elements_view(es@), bindings_view(caller@), bindings_view(defaults@), fuel as nat),
    decreases fuel, es@,
{
    let ghost cb = bindings_view(caller@);
    let ghost db = bindings_view(defaults@);
    let ghost ev = elements_view(es@);
    proof {
        lemma_elements_view(es@);
    }
    let mut out: Vec<NodeBodyElement> = Vec::new();
    let mut ok = true;
    let mut i: usize = 0;
    proof {
        assert(elements_view(out@) =~= subst_fields(ev.take(0), cb, db, fuel as nat));
        assert(ok == subst_fields_ok(ev.take(0), cb, db, fuel as nat));
    }
    while i < es.len()
        invariant
            i <= es@.len(),
            ev == elements_view(es@),
            ev.len() == es@.len(),
            forall|k: int| 0 <= k < es@.len() ==> #[trigger] ev[k] == element_view(es@[k]),
            cb == bindings_view(caller@),
            db == bindings_view(defaults@),
            elements_view(out@) == subst_fields(ev.take(i as int), cb, db, fuel as nat),
            ok == subst_fields_ok(ev.take(i as int), cb, db, fuel as nat),
        decreases es@.len() - i,
    {
        proof {
            assert(decreases_to!(es@ => es@[i as int]));
            assert(ev.take(i + 1).drop_last() =~= ev.take(i as int));
            assert(ev.take(i + 1).last() == ev[i as int]);
        }
        let (e, e_ok) = subst_in_element(&es[i], caller, defaults, fuel);
        ok = ok && e_ok;
        let ghost before = out@;
        out.push(e);
        proof {
            assert(out@.drop_last() =~= before);
            assert(elements_view(out@) == elements_view(before).push(element_view(out@.last())));
        }
        i = i + 1;
    }
    proof {
        assert(ev.take(i as int) =~= ev);
    }
    (out, ok)
}

fn subst_in_element(e: &NodeBodyElement, caller: &Vec<(String, FieldValue)>, defaults: &Vec<(String, FieldValue)>, fuel: u64) -> (r: (NodeBodyElement, bool))
    ensures
        element_view(r.0) == subst_element(element_view(*e), bindings_view(caller@), bindings_view(defaults@), fuel as nat),
        r.1 == subst_element_ok(element_view(*e), bindings_view(caller@), bindings_view(defaults@), fuel as nat),
    decreases fuel, e,
{
    match e {
        NodeBodyElement::Field(f) => {
            let bound = match &f.value {
                FieldValue::Is(r) => bound_value(r, caller, defaults),
                _ => None,
            };
            let (v, ok) = match bound {
                Some(b) => {
                    if fuel == 0 {
                        (clone_value(b), false)
                    } else {
                        subst_in_children(b, caller, defaults, fuel - 1)
                    }
                },
                None => {
                    proof {
                        assert(decreases_to!(*e => f.value));
                    }
                    subst_in_children(&f.value, caller, defaults, fuel)
                },
            };
            (NodeBodyElement::Field(NodeField { name: f.name.clone(), value: v, span: f.span }), ok)
        },
        _ => (clone_element(e), true),
    }
}

fn subst_in_children(v: &FieldValue, caller: &Vec<(String, FieldValue)>, defaults: &Vec<(String, FieldValue)>, fuel: u64) -> (r: (FieldValue, bool))
    ensures
        r.0@ == subst_children(v@, bindings_view(caller@), bindings_view(defaults@), fuel as nat),
        r.1 == subst_children_ok(v@, bindings_view(caller@), bindings_view(defaults@), fuel as nat),
    decreases fuel, v,
{
    match v {
        FieldValue::Node(c) => {
            let (n, ok) = subst_in_node(c, caller, defaults, fuel);
            (FieldValue::Node(Box::new(n)), ok)
        },
        FieldValue::Array(a) => {
            let (e, ok) = subst_in_items(&a.elements, caller, defaults, fuel);
            (FieldValue::Array(ArrayValue { elements: e }), ok)
        },
        _ => (clone_value(v), true),
    }
}

fn subst_in_items(items: &Vec<ArrayElement>, caller: &Vec<(String, FieldValue)>, defaults: &Vec<(String, FieldValue)>, fuel: u64) -> (r: (Vec<ArrayElement>, bool))
    ensures
        array_view(r.0@) == subst_items(array_view(items@), bindings_view(caller@), bindings_view(defaults@), fuel as nat),
        r.1 == subst_items_ok(array_view(items@), bindings_view(caller@), bindings_view(defaults@), fuel as nat),
    decreases fuel, items@,
{
    let ghost cb = bindings_view(caller@);
    let ghost db = bindings_view(defaults@);
    let ghost iv = array_view(items@);
    proof {
        lemma_array_view(items@);
    }
    let mut out: Vec<ArrayElement> = Vec::new();
    let mut ok = true;
    let mut i: usize = 0;
    proof {
        assert(array_view(out@) =~= subst_items(iv.take(0), cb, db, fuel as nat));
        assert(ok == subst_items_ok(iv.take(0), cb, db, fuel as nat));
    }
    while i < items.len()
        invariant
            i <= items@.len(),
            iv == array_view(items@),
            iv.len() == items@.len(),
            forall|k: int| 0 <= k < items@.len() ==> #[trigger] iv[k] == value_view(items@[k].value),
            cb == bindings_view(caller@),
            db == bindings_view(defaults@),
            array_view(out@) == subst_items(iv.take(i as int), cb, db, fuel as nat),
            ok == subst_items_ok(iv.take(i as int), cb, db, fuel as nat),
        decreases items@.len() - i,
    {
        proof {
            assert(decreases_to!(items@ => items@[i as int]));
            assert(decreases_to!(items@[i as int] => items@[i as int].value));
            assert(iv.take(i + 1).drop_last() =~= iv.take(i as int));
            assert(iv.take(i + 1).last() == iv[i as int]);
        }
        let (v, v_ok) = match &items[i].value {
            FieldValue::Node(c) => {
                let (n, n_ok) = subst_in_node(c, caller, defaults, fuel);
                (FieldValue::Node(Box::new(n)), n_ok)
            },
            other => (clone_value(other), true),
        };
        ok = ok && v_ok;
        let ghost before = out@;
        out.push(ArrayElement { value: v });
        proof {
            assert(out@.drop_last() =~= before);
            assert(array_view(out@) == array_view(before).push(value_view(out@.last().value)));
        }
        i = i + 1;
    }
    proof {
        assert(iv.take(i as int) =~= iv);
    }
    (out, ok)
}

/// How many nested replacements [`subst_in_node`] is given for these bindings (see
/// [`binding_fuel`]).
fn binding_fuel_of(caller: &Vec<(String, FieldValue)>, defaults: &Vec<(String, FieldValue)>) -> (r: u64)
    ensures
        r as nat == binding_fuel(bindings_view(caller@), bindings_view(defaults@)),
{
    let a = caller.len() as u64;
    let b = defaults.len() as u64;
    if a <= u64::MAX - b {
        a + b
    } else {
        u64::MAX
    }
}

/// Replaces the `IS` bindings of a node by the caller's field values, or else the
/// interface defaults, and those in the values brought in (see [`subst_node`]). The
/// replacement is made within one nested replacement per binding, which is enough
/// whenever it ends at all; a replacement that never ends (a binding brought in
/// again inside its own value) is refused.
pub fn resolve_is_bindings(node: &AstNode, parent_fields: &Vec<NodeBodyElement>, interface_defaults: &Vec<(String, FieldValue)>) -> (r: Result<AstNode, ProtoError>)
    ensures
        match r {
            Ok(n) => subst_node_ok(node@, field_bindings(elements_view(parent_fields@)), bindings_view(interface_defaults@),
                binding_fuel(field_bindings(elements_view(parent_fields@)), bindings_view(interface_defaults@)))
                && n@ == subst_node(node@, field_bindings(elements_view(parent_fields@)), bindings_view(interface_defaults@),
                binding_fuel(field_bindings(elements_view(parent_fields@)), bindings_view(interface_defaults@))),
            Err(ProtoError::ParseError(m)) => !subst_node_ok(node@, field_bindings(elements_view(parent_fields@)), bindings_view(interface_defaults@),
                binding_fuel(field_bindings(elements_view(parent_fields@)), bindings_view(interface_defaults@)))
                && m@ == endless_message(),
            Err(_) => false,
        },
        forall|g: nat|
            #[trigger] subst_node_ok(node@, field_bindings(elements_view(parent_fields@)), bindings_view(interface_defaults@), g)
                && field_bindings(elements_view(parent_fields@)).len() + interface_defaults@.len() <= u64::MAX ==> match r {
                Ok(n) => n@ == subst_node(node@, field_bindings(elements_view(parent_fields@)), bindings_view(interface_defaults@), g),
                Err(_) => false,
            },
{
    let caller = caller_bindings(parent_fields);
    let fuel = binding_fuel_of(&caller, interface_defaults);
    let (n, ok) = subst_in_node(node, &caller, interface_defaults, fuel);
    proof {
        let c = field_bindings(elements_view(parent_fields@));
        let d = bindings_view(interface_defaults@);
        assert(d.len() == interface_defaults@.len());
        assert forall|g: nat| #[trigger] subst_node_ok(node@, c, d, g) && c.len() + interface_defaults@.len() <= u64::MAX implies (ok
            && n@ == subst_node(node@, c, d, g)) by {
            lemma_subst_node_enough(node@, c, d, g);
        }
    }
    if ok {
        Ok(n)
    } else {
        Err(ProtoError::ParseError(endless()))
    }
}

/// The message of [`endless_message`].
fn endless() -> (r: String)
    ensures
        r@ == endless_message(),
{
    let r = String::from_str("PROTO expansion does not terminate");
    proof {
        reveal_strlit("PROTO expansion does not terminate");
    }
    r
}

// ---------------------------------------------------------------------------
// Inlining EXTERNPROTO nodes
// ---------------------------------------------------------------------------
/// What a declared PROTO expands to: its (already expanded) root node and its
/// interface defaults.
pub struct ProtoExpansion {
    pub root_node: AstNode,
    pub interface_defaults: Vec<(String, FieldValue)>,
}

/// The model of the table of expansions, by PROTO name.
pub open spec fn expansions_view(v: Seq<(String, ProtoExpansion)>) -> Seq<ExpansionV> {
    Seq::new(
        v.len(),
        |i: int| ExpansionV { name: v[i].0@, root: v[i].1.root_node@, defaults: bindings_view(v[i].1.interface_defaults@) },
    )
}

fn find_proto_expansion<'a>(defs: &'a Vec<(String, ProtoExpansion)>, name: &String) -> (r: Option<&'a ProtoExpansion>)
    ensures
        match r {
            Some(x) => find_expansion(expansions_view(defs@), name@) == Some(
                ExpansionV { name: name@, root: x.root_node@, defaults: bindings_view(x.interface_defaults@) },
            ),
            None => find_expansion(expansions_view(defs@), name@) is None,
        },
{
    let ghost all = expansions_view(defs@);
    let mut i = defs.len();
    proof {
        assert(all.take(i as int) =~= all);
    }
    while i > 0
        invariant
            i <= defs@.len(),
            all == expansions_view(defs@),
            find_expansion(all, name@) == find_expansion(all.take(i as int), name@),
        decreases i,
    {
        proof {
            assert(all.take(i as int).last() == all[i - 1]);
            assert(all.take(i as int).drop_last() =~= all.take(i - 1));
        }
        if defs[i - 1].0.eq(name) {
            return Some(&defs[i - 1].1);
        }
        i = i - 1;
    }
    None
}

/// The expansion used in place of a caller node (see [`instantiate`]).
/// With it, whether the bindings were replaced within [`binding_fuel`] nested
/// replacements.
fn instantiate_expansion(x: &ProtoExpansion, caller_def: &Option<String>, caller_fields: &Vec<NodeBodyElement>) -> (r: (AstNode, bool))
    ensures
        r.0@ == instantiate(
            ExpansionV { name: Seq::empty(), root: x.root_node@, defaults: bindings_view(x.interface_defaults@) },
            crate::ast::opt_str(*caller_def),
            elements_view(caller_fields@),
        ),
        r.1 == subst_node_ok(x.root_node@, field_bindings(elements_view(caller_fields@)), bindings_view(x.interface_defaults@),
            binding_fuel(field_bindings(elements_view(caller_fields@)), bindings_view(x.interface_defaults@))),
{
    let caller = caller_bindings(caller_fields);
    let fuel = binding_fuel_of(&caller, &x.interface_defaults);
    let (s, ok) = subst_in_node(&x.root_node, &caller, &x.interface_defaults, fuel);
    let n = match caller_def {
        Some(d) => match s.kind {
            AstNodeKind::Node { node_type, fields, .. } => AstNode {
                kind: AstNodeKind::Node { node_type, def_name: Some(d.clone()), fields },
                span: s.span,
            },
            AstNodeKind::Use { use_name } => AstNode { kind: AstNodeKind::Use { use_name }, span: s.span },
        },
        None => s,
    };
    (n, ok)
}

/// A node with the nodes of known PROTO types replaced by their expansions (see
/// [`inline_node`]).
/// With it, whether everything was inlined within `fuel` nested inlinings (see
/// [`inline_node_ok`]).
pub fn inline_in_node(n: &AstNode, defs: &Vec<(String, ProtoExpansion)>, fuel: u64) -> (r: (AstNode, bool))
    ensures
        r.0@ == inline_node(n@, expansions_view(defs@), fuel as nat),
        r.1 == inline_node_ok(n@, expansions_view(defs@), fuel as nat),
    decreases fuel, n,
{
    match &n.kind {
        AstNodeKind::Use { .. } => (clone_node(n), true),
        AstNodeKind::Node { node_type, def_name, fields } => match find_proto_expansion(defs, node_type) {
            Some(x) => {
                let (i, i_ok) = instantiate_expansion(x, def_name, fields);
                proof {
                    let xv = find_expansion(expansions_view(defs@), node_type@)->Some_0;
                    assert(instantiate(xv, crate::ast::opt_str(*def_name), elements_view(fields@)) == i@);
                }
                if fuel == 0 {
                    (i, false)
                } else {
                    let (c, c_ok) = inline_in_children_of(&i, defs, fuel - 1);
                    (c, i_ok && c_ok)
                }
            },
            None => {
                let (f, ok) = inline_in_fields(fields, defs, fuel);
                (
                    AstNode {
                        kind: AstNodeKind::Node { node_type: node_type.clone(), def_name: clone_opt(def_name), fields: f },
                        span: n.span,
                    },
                    ok,
                )
            },
        },
    }
}

fn inline_in_children_of(n: &AstNode, defs: &Vec<(String, ProtoExpansion)>, fuel: u64) -> (r: (AstNode, bool))
    ensures
        r.0@ == inline_children_of(n@, expansions_view(defs@), fuel as nat),
        r.1 == inline_children_ok(n@, expansions_view(defs@), fuel as nat),
    decreases fuel, n,
{
    match &n.kind {
        AstNodeKind::Use { .. } => (clone_node(n), true),
        AstNodeKind::Node { node_type, def_name, fields } => {
            let (f, ok) = inline_in_fields(fields, defs, fuel);
            (
                AstNode {
                    kind: AstNodeKind::Node { node_type: node_type.clone(), def_name: clone_opt(def_name), fields: f },
                    span: n.span,
                },
                ok,
            )
        },
    }
}

fn inline_in_fields(es: &Vec<NodeBodyElement>, defs: &Vec<(String, ProtoExpansion)>, fuel: u64) -> (r: (Vec<NodeBodyElement>, bool))
    ensures
        elements_view(r.0@) == inline_fields(elements_view(es@), expansions_view(defs@), fuel as nat),
        r.1 == inline_fields_ok(elements_view(es@), expansions_view(defs@), fuel as nat),
    decreases fuel, es@,
{
    let ghost dv = expansions_view(defs@);
    let ghost ev = elements_view(es@);
    proof {
        lemma_elements_view(es@);
    }
    let mut out: Vec<NodeBodyElement> = Vec::new();
    let mut ok = true;
    let mut i: usize = 0;
    proof {
        assert(elements_view(out@) =~= inline_fields(ev.take(0), dv, fuel as nat));
        assert(ok == inline_fields_ok(ev.take(0), dv, fuel as nat));
    }
    while i < es.len()
        invariant
            i <= es@.len(),
            ev == elements_view(es@),
            ev.len() == es@.len(),
            forall|k: int| 0 <= k < es@.len() ==> #[trigger] ev[k] == element_view(es@[k]),
            dv == expansions_view(defs@),
            elements_view(out@) == inline_fields(ev.take(i as int), dv, fuel as nat),
            ok == inline_fields_ok(ev.take(i as int), dv, fuel as nat),
        decreases es@.len() - i,
    {
        proof {
            assert(decreases_to!(es@ => es@[i as int]));
            assert(ev.take(i + 1).drop_last() =~= ev.take(i as int));
            assert(ev.take(i + 1).last() == ev[i as int]);
        }
        let (e, e_ok) = match &es[i] {
            NodeBodyElement::Field(f) => {
                proof {
                    assert(decreases_to!(es@[i as int] => f.value));
                }
                let (v, v_ok) = inline_in_value(&f.value, defs, fuel);
                (NodeBodyElement::Field(NodeField { name: f.name.clone(), value: v, span: f.span }), v_ok)
            },
            other => (clone_element(other), true),
        };
        ok = ok && e_ok;
        let ghost before = out@;
        out.push(e);
        proof {
            assert(out@.drop_last() =~= before);
            assert(elements_view(out@) == elements_view(before).push(element_view(out@.last())));
        }
        i = i + 1;
    }
    proof {
        assert(ev.take(i as int) =~= ev);
    }
    (out, ok)
}

fn inline_in_value(v: &FieldValue, defs: &Vec<(String, ProtoExpansion)>, fuel: u64) -> (r: (FieldValue, bool))
    ensures
        r.0@ == inline_value(v@, expansions_view(defs@), fuel as nat),
        r.1 == inline_value_ok(v@, expansions_view(defs@), fuel as nat),
    decreases fuel, v,
{
    match v {
        FieldValue::Node(c) => {
            let (n, ok) = inline_in_node(c, defs, fuel);
            (FieldValue::Node(Box::new(n)), ok)
        },
        FieldValue::Array(a) => {
            let (e, ok) = inline_in_items(&a.elements, defs, fuel);
            (FieldValue::Array(ArrayValue { elements: e }), ok)
        },
        _ => (clone_value(v), true),
    }
}

fn inline_in_items(items: &Vec<ArrayElement>, defs: &Vec<(String, ProtoExpansion)>, fuel: u64) -> (r: (Vec<ArrayElement>, bool))
    ensures
        array_view(r.0@) == inline_items(array_view(items@), expansions_view(defs@), fuel as nat),
        r.1 == inline_items_ok(array_view(items@), expansions_view(defs@), fuel as nat),
    decreases fuel, items@,
{
    let ghost dv = expansions_view(defs@);
    let ghost iv = array_view(items@);
    proof {
        lemma_array_view(items@);
    }
    let mut out: Vec<ArrayElement> = Vec::new();
    let mut ok = true;
    let mut i: usize = 0;
    proof {
        assert(array_view(out@) =~= inline_items(iv.take(0), dv, fuel as nat));
        assert(ok == inline_items_ok(iv.take(0), dv, fuel as nat));
    }
    while i < items.len()
        invariant
            i <= items@.len(),
            iv == array_view(items@),
            iv.len() == items@.len(),
            forall|k: int| 0 <= k < items@.len() ==> #[trigger] iv[k] == value_view(items@[k].value),
            dv == expansions_view(defs@),
            array_view(out@) == inline_items(iv.take(i as int), dv, fuel as nat),
            ok == inline_items_ok(iv.take(i as int), dv, fuel as nat),
        decreases items@.len() - i,
    {
        proof {
            assert(decreases_to!(items@ => items@[i as int]));
            assert(decreases_to!(items@[i as int] => items@[i as int].value));
            assert(iv.take(i + 1).drop_last() =~= iv.take(i as int));
            assert(iv.take(i + 1).last() == iv[i as int]);
        }
        let (v, v_ok) = match &items[i].value {
            FieldValue::Node(c) => {
                let (n, n_ok) = inline_in_node(c, defs, fuel);
                (FieldValue::Node(Box::new(n)), n_ok)
            },
            other => (clone_value(other), true),
        };
        ok = ok && v_ok;
        let ghost before = out@;
        out.push(ArrayElement { value: v });
        proof {
            assert(out@.drop_last() =~= before);
            assert(array_view(out@) == array_view(before).push(value_view(out@.last().value)));
        }
        i = i + 1;
    }
    proof {
        assert(iv.take(i as int) =~= iv);
    }
    (out, ok)
}

/// Replaces, through the whole tree, the nodes whose type is a declared PROTO by that
/// PROTO's expansion, with their `IS` bindings taken from the replaced node (see
/// [`inline_node`]). Inlining is given [`inline_fuel`] nested inlinings, more than any
/// machine can carry out; an instance whose bindings never end being replaced is
/// refused. PROTO definitions that instance each other without end are inlined
/// without end: the call then does not return, as nested inlining that never ends
/// cannot.
pub fn inline_proto_nodes(node: &AstNode, proto_definitions: &Vec<(String, ProtoExpansion)>) -> (r: Result<AstNode, ProtoError>)
    ensures
        match r {
            Ok(n) => inline_node_ok(node@, expansions_view(proto_definitions@), inline_fuel())
                && n@ == inline_node(node@, expansions_view(proto_definitions@), inline_fuel()),
            Err(ProtoError::ParseError(m)) => !inline_node_ok(node@, expansions_view(proto_definitions@), inline_fuel())
                && m@ == endless_message(),
            Err(_) => false,
        },
        forall|g: nat|
            #[trigger] inline_node_ok(node@, expansions_view(proto_definitions@), g) && g <= inline_fuel() ==> match r {
                Ok(n) => n@ == inline_node(node@, expansions_view(proto_definitions@), g),
                Err(_) => false,
            },
{
    let (n, ok) = inline_in_node(node, proto_definitions, u64::MAX);
    proof {
        let dv = expansions_view(proto_definitions@);
        assert forall|g: nat| #[trigger] inline_node_ok(node@, dv, g) && g <= inline_fuel() implies (ok
            && n@ == inline_node(node@, dv, g)) by {
            lemma_inline_node_fuel(node@, dv, g, inline_fuel());
        }
    }
    if ok {
        Ok(n)
    } else {
        Err(ProtoError::ParseError(endless()))
    }
}

// ---------------------------------------------------------------------------
// Mesh URLs
// ---------------------------------------------------------------------------
fn contains_scheme(u: &Vec<char>) -> (r: bool)
    ensures
        r == has_scheme(u@),
{
    let mut i: usize = 0;
    while i < u.len() && u.len() - i > 2
        invariant
            i <= u@.len(),
            forall|k: int| 0 <= k < i ==> !#[trigger] scheme_at(u@, k),
        decreases u@.len() - i,
    {
        if u[i] == ':' && u[i + 1] == '/' && u[i + 2] == '/' {
            proof {
                assert(scheme_at(u@, i as int));
            }
            return true;
        }
        i = i + 1;
    }
    proof {
        assert forall|k: int| 0 <= k implies !#[trigger] scheme_at(u@, k) by {
            if k >= i {
                assert(!(k + 2 < u@.len()));
            }
        }
    }
    false
}

fn is_local_relative_url(u: &String) -> (r: bool)
    ensures
        r == is_local_relative(u@),
{
    let cs = crate::text::chars_of(u.as_str());
    !contains_scheme(&cs) && !(cs.len() > 0 && cs[0] == '/')
}

/// The path a relative mesh URL is looked up at (see [`url_candidate`]).
fn candidate_path(u: &String, base: &str, cwd: &str) -> (r: String)
    ensures
        r@ == url_candidate(u@, base@, cwd@),
{
    let b = crate::text::chars_of(base);
    let abs = if b.len() > 0 && b[0] == '/' {
        String::from_str(base)
    } else {
        join_paths(cwd, base)
    };
    proof {
        assert(abs@ == absolute_base(base@, cwd@));
    }
    join_paths(abs.as_str(), u.as_str())
}

fn canonical_lookup(p: &String, canon: &Vec<(String, String)>) -> (r: String)
    ensures
        r@ == canonical_of(p@, pairs_view(canon@)),
{
    let ghost all = pairs_view(canon@);
    let mut i = canon.len();
    proof {
        assert(all.take(i as int) =~= all);
    }
    while i > 0
        invariant
            i <= canon@.len(),
            all == pairs_view(canon@),
            canonical_of(p@, all) == canonical_of(p@, all.take(i as int)),
        decreases i,
    {
        proof {
            assert(all.take(i as int).last() == all[i - 1]);
            assert(all.take(i as int).drop_last() =~= all.take(i - 1));
        }
        if canon[i - 1].0.eq(p) {
            return canon[i - 1].1.clone();
        }
        i = i - 1;
    }
    p.clone()
}

/// The model of a table of paths and their canonical forms.
pub open spec fn pairs_view(v: Seq<(String, String)>) -> Seq<(Seq<char>, Seq<char>)> {
    Seq::new(v.len(), |i: int| (v[i].0@, v[i].1@))
}

/// A mesh URL made absolute (see [`normalized_url`]).
pub fn normalize_local_url(u: &String, base: &str, cwd: &str, canon: &Vec<(String, String)>) -> (r: String)
    ensures
        r@ == normalized_url(u@, base@, cwd@, pairs_view(canon@)),
{
    if is_local_relative_url(u) {
        let c = candidate_path(u, base, cwd);
        canonical_lookup(&c, canon)
    } else {
        u.clone()
    }
}

fn norm_item(v: &FieldValue, url: bool, base: &str, cwd: &str, canon: &Vec<(String, String)>) -> (r: FieldValue)
    ensures
        r@ == (match v@ {
            ValueV::Node(c) => ValueV::Node(Box::new(normalize_node(*c, base@, cwd@, pairs_view(canon@)))),
            ValueV::String(u) => if url {
                ValueV::String(normalized_url(u, base@, cwd@, pairs_view(canon@)))
            } else {
                v@
            },
            ValueV::Raw(u) => if url {
                ValueV::Raw(normalized_url(u, base@, cwd@, pairs_view(canon@)))
            } else {
                v@
            },
            other => other,
        }),
    decreases v, 1u64,
{
    match v {
        FieldValue::Node(c) => FieldValue::Node(Box::new(normalize_in_node(c, base, cwd, canon))),
        FieldValue::String(u) => if url {
            FieldValue::String(normalize_local_url(u, base, cwd, canon))
        } else {
            clone_value(v)
        },
        FieldValue::Raw(u) => if url {
            FieldValue::Raw(normalize_local_url(u, base, cwd, canon))
        } else {
            clone_value(v)
        },
        _ => clone_value(v),
    }
}

fn norm_in_value(v: &FieldValue, url: bool, base: &str, cwd: &str, canon: &Vec<(String, String)>) -> (r: FieldValue)
    ensures
        r@ == norm_value(v@, url, base@, cwd@, pairs_view(canon@)),
    decreases v, 2u64,
{
    match v {
        FieldValue::Array(a) => {
            let e = norm_in_items(&a.elements, url, base, cwd, canon);
            FieldValue::Array(ArrayValue { elements: e })
        },
        _ => norm_item(v, url, base, cwd, canon),
    }
}

fn norm_in_items(items: &Vec<ArrayElement>, url: bool, base: &str, cwd: &str, canon: &Vec<(String, String)>) -> (r: Vec<ArrayElement>)
    ensures
        array_view(r@) == norm_items(array_view(items@), url, base@, cwd@, pairs_view(canon@)),
    decreases items@, 0u64,
{
    let ghost iv = array_view(items@);
    let ghost cv = pairs_view(canon@);
    proof {
        lemma_array_view(items@);
    }
    let mut out: Vec<ArrayElement> = Vec::new();
    let mut i: usize = 0;
    proof {
        assert(array_view(out@) =~= norm_items(iv.take(0), url, base@, cwd@, cv));
    }
    while i < items.len()
        invariant
            i <= items@.len(),
            iv == array_view(items@),
            iv.len() == items@.len(),
            forall|k: int| 0 <= k < items@.len() ==> #[trigger] iv[k] == value_view(items@[k].value),
            cv == pairs_view(canon@),
            array_view(out@) == norm_items(iv.take(i as int), url, base@, cwd@, cv),
        decreases items@.len() - i,
    {
        proof {
            assert(decreases_to!(items@ => items@[i as int]));
            assert(decreases_to!(items@[i as int] => items@[i as int].value));
            assert(iv.take(i + 1).drop_last() =~= iv.take(i as int));
            assert(iv.take(i + 1).last() == iv[i as int]);
        }
        let v = norm_item(&items[i].value, url, base, cwd, canon);
        let ghost before = out@;
        out.push(ArrayElement { value: v });
        proof {
            assert(out@.drop_last() =~= before);
            assert(array_view(out@) == array_view(before).push(value_view(out@.last().value)));
        }
        i = i + 1;
    }
    proof {
        assert(iv.take(i as int) =~= iv);
    }
    out
}

fn normalize_in_node(n: &AstNode, base: &str, cwd: &str, canon: &Vec<(String, String)>) -> (r: AstNode)
    ensures
        r@ == normalize_node(n@, base@, cwd@, pairs_view(canon@)),
    decreases n, 0u64,
{
    match &n.kind {
        AstNodeKind::Use { .. } => clone_node(n),
        AstNodeKind::Node { node_type, def_name, fields } => {
            let cad = node_type.eq(&String::from_str("CadShape"));
            let f = norm_in_fields(fields, cad, base, cwd, canon);
            AstNode {
                kind: AstNodeKind::Node { node_type: node_type.clone(), def_name: clone_opt(def_name), fields: f },
                span: n.span,
            }
        },
    }
}

fn norm_in_fields(es: &Vec<NodeBodyElement>, cad: bool, base: &str, cwd: &str, canon: &Vec<(String, String)>) -> (r: Vec<NodeBodyElement>)
    ensures
        elements_view(r@) == norm_fields(elements_view(es@), cad, base@, cwd@, pairs_view(canon@)),
    decreases es@, 0u64,
{
    let ghost ev = elements_view(es@);
    let ghost cv = pairs_view(canon@);
    proof {
        lemma_elements_view(es@);
    }
    let mut out: Vec<NodeBodyElement> = Vec::new();
    let mut i: usize = 0;
    proof {
        assert(elements_view(out@) =~= norm_fields(ev.take(0), cad, base@, cwd@, cv));
    }
    while i < es.len()
        invariant
            i <= es@.len(),
            ev == elements_view(es@),
            ev.len() == es@.len(),
            forall|k: int| 0 <= k < es@.len() ==> #[trigger] ev[k] == element_view(es@[k]),
            cv == pairs_view(canon@),
            elements_view(out@) == norm_fields(ev.take(i as int), cad, base@, cwd@, cv),
        decreases es@.len() - i,
    {
        proof {
            assert(decreases_to!(es@ => es@[i as int]));
            assert(ev.take(i + 1).drop_last() =~= ev.take(i as int));
            assert(ev.take(i + 1).last() == ev[i as int]);
        }
        let e = match &es[i] {
            NodeBodyElement::Field(f) => {
                proof {
                    assert(decreases_to!(es@[i as int] => f.value));
                }
                let url = cad && f.name.eq(&String::from_str("url"));
                NodeBodyElement::Field(NodeField { name: f.name.clone(), value: norm_in_value(&f.value, url, base, cwd, canon), span: f.span })
            },
            other => clone_element(other),
        };
        let ghost before = out@;
        out.push(e);
        proof {
            assert(out@.drop_last() =~= before);
            assert(elements_view(out@) == elements_view(before).push(element_view(out@.last())));
        }
        i = i + 1;
    }
    proof {
        assert(ev.take(i as int) =~= ev);
    }
    out
}

/// Makes the mesh URLs of the CadShape nodes of a tree absolute: a relative path is
/// taken under `base_path` (itself under `cwd` when relative) and replaced by its
/// canonical form from `canonical` when the table has one (see [`normalize_node`]).
pub fn normalize_mesh_urls(node: &AstNode, base_path: &str, cwd: &str, canonical: &Vec<(String, String)>) -> (r: AstNode)
    ensures
        r@ == normalize_node(node@, base_path@, cwd@, pairs_view(canonical@)),
{
    normalize_in_node(node, base_path, cwd, canonical)
}

fn append_strings(out: &mut Vec<String>, more: Vec<String>)
    ensures
        crate::validation_spec::strings_view(final(out)@) == crate::validation_spec::strings_view(old(out)@)
            + crate::validation_spec::strings_view(more@),
{
    let ghost start = crate::validation_spec::strings_view(out@);
    let ghost n0 = out@.len();
    let mut i: usize = 0;
    while i < more.len()
        invariant
            i <= more@.len(),
            out@.len() == n0 + i,
            start.len() == n0,
            crate::validation_spec::strings_view(out@) == start + crate::validation_spec::strings_view(more@).take(i as int),
        decreases more@.len() - i,
    {
        let ghost before = out@;
        out.push(more[i].clone());
        proof {
            let want = start + crate::validation_spec::strings_view(more@).take(i + 1);
            assert forall|k: int| 0 <= k < out@.len() implies #[trigger] crate::validation_spec::strings_view(out@)[k] == want[k] by {
                if k < before.len() {
                    assert(out@[k] == before[k]);
                    assert(crate::validation_spec::strings_view(before)[k] == (start + crate::validation_spec::strings_view(more@).take(i as int))[k]);
                }
            }
            assert(crate::validation_spec::strings_view(out@) =~= want);
        }
        i = i + 1;
    }
    proof {
        assert(crate::validation_spec::strings_view(more@).take(i as int) =~= crate::validation_spec::strings_view(more@));
    }
}

fn cand_of_url(u: &String, url: bool, base: &str, cwd: &str) -> (r: Vec<String>)
    ensures
        crate::validation_spec::strings_view(r@) == cand_url(u@, url, base@, cwd@),
{
    let mut out: Vec<String> = Vec::new();
    if url && is_local_relative_url(u) {
        out.push(candidate_path(u, base, cwd));
    }
    proof {
        assert(crate::validation_spec::strings_view(out@) =~= cand_url(u@, url, base@, cwd@));
    }
    out
}

fn cand_in_value(v: &FieldValue, url: bool, base: &str, cwd: &str) -> (r: Vec<String>)
    ensures
        crate::validation_spec::strings_view(r@) == cand_value(v@, url, base@, cwd@),
    decreases v, 1u64,
{
    match v {
        FieldValue::Node(c) => cand_in_node(c, base, cwd),
        FieldValue::Array(a) => cand_in_items(&a.elements, url, base, cwd),
        FieldValue::String(u) => cand_of_url(u, url, base, cwd),
        FieldValue::Raw(u) => cand_of_url(u, url, base, cwd),
        _ => {
            let out: Vec<String> = Vec::new();
            proof {
                assert(crate::validation_spec::strings_view(out@) =~= Seq::<Seq<char>>::empty());
            }
            out
        },
    }
}

fn cand_in_items(items: &Vec<ArrayElement>, url: bool, base: &str, cwd: &str) -> (r: Vec<String>)
    ensures
        crate::validation_spec::strings_view(r@) == cand_items(array_view(items@), url, base@, cwd@),
    decreases items@, 0u64,
{
    let ghost iv = array_view(items@);
    proof {
        lemma_array_view(items@);
    }
    let mut out: Vec<String> = Vec::new();
    let mut i: usize = 0;
    proof {
        assert(crate::validation_spec::strings_view(out@) =~= cand_items(iv.take(0), url, base@, cwd@));
    }
    while i < items.len()
        invariant
            i <= items@.len(),
            iv == array_view(items@),
            iv.len() == items@.len(),
            forall|k: int| 0 <= k < items@.len() ==> #[trigger] iv[k] == value_view(items@[k].value),
            crate::validation_spec::strings_view(out@) == cand_items(iv.take(i as int), url, base@, cwd@),
        decreases items@.len() - i,
    {
        proof {
            assert(decreases_to!(items@ => items@[i as int]));
            assert(decreases_to!(items@[i as int] => items@[i as int].value));
            assert(iv.take(i + 1).drop_last() =~= iv.take(i as int));
            assert(iv.take(i + 1).last() == iv[i as int]);
        }
        let more = match &items[i].value {
            FieldValue::Node(c) => cand_in_node(c, base, cwd),
            FieldValue::String(u) => cand_of_url(u, url, base, cwd),
            FieldValue::Raw(u) => cand_of_url(u, url, base, cwd),
            _ => {
                let e: Vec<String> = Vec::new();
                proof {
                    assert(crate::validation_spec::strings_view(e@) =~= Seq::<Seq<char>>::empty());
                }
                e
            },
        };
        append_strings(&mut out, more);
        i = i + 1;
    }
    proof {
        assert(iv.take(i as int) =~= iv);
    }
    out
}

fn cand_in_node(n: &AstNode, base: &str, cwd: &str) -> (r: Vec<String>)
    ensures
        crate::validation_spec::strings_view(r@) == cand_node(n@, base@, cwd@),
    decreases n, 0u64,
{
    match &n.kind {
        AstNodeKind::Use { .. } => {
            let out: Vec<String> = Vec::new();
            proof {
                assert(crate::validation_spec::strings_view(out@) =~= Seq::<Seq<char>>::empty());
            }
            out
        },
        AstNodeKind::Node { node_type, fields, .. } => {
            let cad = node_type.eq(&String::from_str("CadShape"));
            cand_in_fields(fields, cad, base, cwd)
        },
    }
}

fn cand_in_fields(es: &Vec<NodeBodyElement>, cad: bool, base: &str, cwd: &str) -> (r: Vec<String>)
    ensures
        crate::validation_spec::strings_view(r@) == cand_fields(elements_view(es@), cad, base@, cwd@),
    decreases es@, 0u64,
{
    let ghost ev = elements_view(es@);
    proof {
        lemma_elements_view(es@);
    }
    let mut out: Vec<String> = Vec::new();
    let mut i: usize = 0;
    proof {
        assert(crate::validation_spec::strings_view(out@) =~= cand_fields(ev.take(0), cad, base@, cwd@));
    }
    while i < es.len()
        invariant
            i <= es@.len(),
            ev == elements_view(es@),
            ev.len() == es@.len(),
            forall|k: int| 0 <= k < es@.len() ==> #[trigger] ev[k] == element_view(es@[k]),
            crate::validation_spec::strings_view(out@) == cand_fields(ev.take(i as int), cad, base@, cwd@),
        decreases es@.len() - i,
    {
        proof {
            assert(decreases_to!(es@ => es@[i as int]));
            assert(ev.take(i + 1).drop_last() =~= ev.take(i as int));
            assert(ev.take(i + 1).last() == ev[i as int]);
        }
        match &es[i] {
            NodeBodyElement::Field(f) => {
                proof {
                    assert(decreases_to!(es@[i as int] => f.value));
                }
                let url = cad && f.name.eq(&String::from_str("url"));
                let more = cand_in_value(&f.value, url, base, cwd);
                append_strings(&mut out, more);
            },
            _ => {
                proof {
                    assert(crate::validation_spec::strings_view(out@) + Seq::<Seq<char>>::empty() =~= crate::validation_spec::strings_view(out@));
                }
            },
        }
        i = i + 1;
    }
    proof {
        assert(ev.take(i as int) =~= ev);
    }
    out
}

/// The paths at which the relative mesh URLs of a tree are to be looked up (see
/// [`cand_node`]); their canonical forms are what [`normalize_mesh_urls`] takes.
pub fn mesh_url_candidates(node: &AstNode, base_path: &str, cwd: &str) -> (r: Vec<String>)
    ensures
        crate::validation_spec::strings_view(r@) == cand_node(node@, base_path@, cwd@),
{
    cand_in_node(node, base_path, cwd)
}

} // verus!
