//! What expanding a document does to its nodes, as functions on their models: the
//! root node chosen, `IS` bindings replaced by the caller's values (or the interface
//! defaults), EXTERNPROTO nodes replaced by their expansions, and mesh URLs made
//! absolute.
//!
//! Replacing a value by another can bring in further bindings to replace, without
//! bound in general (a caller value that refers to its own binding brings itself in
//! again). Each function below is given how many nested replacements it may make;
//! the `_ok` functions say when the expansion ends within that many, and then its
//! result does not depend on how many more it was given. Replacing `IS` bindings
//! ends, if it ends at all, within as many nested replacements as there are
//! bindings ([`lemma_subst_node_enough`]).
use crate::ast::{ElementV, NodeKindV, NodeV, ProtoFieldV, ProtoV, ValueV, BodyItemV};
use crate::resolver::{is_absolute, join_path};
use vstd::prelude::*;

verus! {

/// How many nested replacements of `IS` bindings are made: one per binding (capped
/// at the largest `u64`), which is enough whenever the replacement ends at all (see
/// [`lemma_subst_node_enough`]).
pub open spec fn binding_fuel(caller: Bindings, defaults: Bindings) -> nat {
    if caller.len() + defaults.len() <= u64::MAX {
        caller.len() + defaults.len()
    } else {
        u64::MAX as nat
    }
}

/// How many nested inlinings of PROTO instances are made: the largest `u64`, more
/// than any machine can carry out (each nested inlining takes a stack frame of the
/// recursion that performs it).
pub open spec fn inline_fuel() -> nat {
    u64::MAX as nat
}

/// The message of an expansion that does not end.
pub open spec fn endless_message() -> Seq<char> {
    "PROTO expansion does not terminate"@
}

// ---------------------------------------------------------------------------
// The root node
// ---------------------------------------------------------------------------
/// The first node of a PROTO body.
pub open spec fn first_body_node(items: Seq<BodyItemV>) -> Option<NodeV>
    decreases items.len(),
{
    if items.len() == 0 {
        None
    } else {
        match items[0] {
            BodyItemV::Node(n) => Some(n),
            BodyItemV::Template(_) => first_body_node(items.drop_first()),
        }
    }
}

/// The node a document expands to: the first node of its PROTO body, or its first
/// root node when it has no PROTO definition.
pub open spec fn select_root(d: ProtoV) -> Result<NodeV, Seq<char>> {
    match d.proto {
        Some(p) => match first_body_node(p.body) {
            Some(n) => Ok(n),
            None => Err("PROTO definition has no root node"@),
        },
        None => if d.root_nodes.len() > 0 {
            Ok(d.root_nodes[0])
        } else {
            Err("Document has no root nodes"@)
        },
    }
}

// ---------------------------------------------------------------------------
// IS bindings
// ---------------------------------------------------------------------------
/// A list of named values in which a later entry of a name hides the earlier ones.
pub type Bindings = Seq<(Seq<char>, ValueV)>;

/// The value of the last entry named `name`.
pub open spec fn last_binding(b: Bindings, name: Seq<char>) -> Option<ValueV>
    decreases b.len(),
{
    if b.len() == 0 {
        None
    } else if b.last().0 == name {
        Some(b.last().1)
    } else {
        last_binding(b.drop_last(), name)
    }
}

/// The default values of a PROTO interface, by field name.
pub open spec fn interface_bindings(fields: Seq<ProtoFieldV>) -> Bindings
    decreases fields.len(),
{
    if fields.len() == 0 {
        Seq::empty()
    } else {
        let rest = interface_bindings(fields.drop_last());
        match fields.last().default_value {
            Some(v) => rest.push((fields.last().name, v)),
            None => rest,
        }
    }
}

/// The field values of a caller node, by field name.
pub open spec fn field_bindings(es: Seq<ElementV>) -> Bindings
    decreases es.len(),
{
    if es.len() == 0 {
        Seq::empty()
    } else {
        let rest = field_bindings(es.drop_last());
        match es.last() {
            ElementV::Field { name, value, .. } => rest.push((name, value)),
            _ => rest,
        }
    }
}

/// The value an `IS name` binding takes: the caller's field, else the interface
/// default.
pub open spec fn binding_of(name: Seq<char>, caller: Bindings, defaults: Bindings) -> Option<ValueV> {
    match last_binding(caller, name) {
        Some(v) => Some(v),
        None => last_binding(defaults, name),
    }
}

/// A node with its `IS` bindings replaced, and those in the values brought in (up to
/// `fuel` replacements deep).
pub open spec fn subst_node(n: NodeV, caller: Bindings, defaults: Bindings, fuel: nat) -> NodeV
    decreases fuel, n,
{
    match n.kind {
        NodeKindV::Node { node_type, def_name, fields } => NodeV {
            kind: NodeKindV::Node { node_type, def_name, fields: subst_fields(fields, caller, defaults, fuel) },
            span: n.span,
        },
        NodeKindV::Use { .. } => n,
    }
}

pub open spec fn subst_fields(es: Seq<ElementV>, caller: Bindings, defaults: Bindings, fuel: nat) -> Seq<ElementV>
    decreases fuel, es,
{
    if es.len() == 0 {
        Seq::empty()
    } else {
        subst_fields(es.drop_last(), caller, defaults, fuel).push(
            subst_element(es.last(), caller, defaults, fuel),
        )
    }
}

pub open spec fn subst_element(e: ElementV, caller: Bindings, defaults: Bindings, fuel: nat) -> ElementV
    decreases fuel, e,
{
    match e {
        ElementV::Field { name, value, span } => {
            let bound = match value {
                ValueV::Is(r) => binding_of(r, caller, defaults),
                _ => None,
            };
            let v = match bound {
                Some(b) => if fuel == 0 {
                    b
                } else {
                    subst_children(b, caller, defaults, (fuel - 1) as nat)
                },
                None => subst_children(value, caller, defaults, fuel),
            };
            ElementV::Field { name, value: v, span }
        },
        _ => e,
    }
}

pub open spec fn subst_children(v: ValueV, caller: Bindings, defaults: Bindings, fuel: nat) -> ValueV
    decreases fuel, v,
{
    match v {
        ValueV::Node(c) => ValueV::Node(Box::new(subst_node(*c, caller, defaults, fuel))),
        ValueV::Array(items) => ValueV::Array(subst_items(items, caller, defaults, fuel)),
        _ => v,
    }
}

pub open spec fn subst_items(items: Seq<ValueV>, caller: Bindings, defaults: Bindings, fuel: nat) -> Seq<ValueV>
    decreases fuel, items,
{
    if items.len() == 0 {
        Seq::empty()
    } else {
        let last = match items.last() {
            ValueV::Node(c) => ValueV::Node(Box::new(subst_node(*c, caller, defaults, fuel))),
            other => other,
        };
        subst_items(items.drop_last(), caller, defaults, fuel).push(last)
    }
}

/// True when [`subst_node`] replaces every binding within `fuel` nested replacements.
pub open spec fn subst_node_ok(n: NodeV, caller: Bindings, defaults: Bindings, fuel: nat) -> bool
    decreases fuel, n,
{
    match n.kind {
        NodeKindV::Node { fields, .. } => subst_fields_ok(fields, caller, defaults, fuel),
        NodeKindV::Use { .. } => true,
    }
}

pub open spec fn subst_fields_ok(es: Seq<ElementV>, caller: Bindings, defaults: Bindings, fuel: nat) -> bool
    decreases fuel, es,
{
    if es.len() == 0 {
        true
    } else {
        subst_fields_ok(es.drop_last(), caller, defaults, fuel) && subst_element_ok(
            es.last(),
            caller,
            defaults,
            fuel,
        )
    }
}

pub open spec fn subst_element_ok(e: ElementV, caller: Bindings, defaults: Bindings, fuel: nat) -> bool
    decreases fuel, e,
{
    match e {
        ElementV::Field { name, value, span } => {
            let bound = match value {
                ValueV::Is(r) => binding_of(r, caller, defaults),
                _ => None,
            };
            match bound {
                Some(b) => if fuel == 0 {
                    false
                } else {
                    subst_children_ok(b, caller, defaults, (fuel - 1) as nat)
                },
                None => subst_children_ok(value, caller, defaults, fuel),
            }
        },
        _ => true,
    }
}

pub open spec fn subst_children_ok(v: ValueV, caller: Bindings, defaults: Bindings, fuel: nat) -> bool
    decreases fuel, v,
{
    match v {
        ValueV::Node(c) => subst_node_ok(*c, caller, defaults, fuel),
        ValueV::Array(items) => subst_items_ok(items, caller, defaults, fuel),
        _ => true,
    }
}

pub open spec fn subst_items_ok(items: Seq<ValueV>, caller: Bindings, defaults: Bindings, fuel: nat) -> bool
    decreases fuel, items,
{
    if items.len() == 0 {
        true
    } else {
        subst_items_ok(items.drop_last(), caller, defaults, fuel) && match items.last() {
            ValueV::Node(c) => subst_node_ok(*c, caller, defaults, fuel),
            _ => true,
        }
    }
}

// ---------------------------------------------------------------------------
// What replacing bindings leaves
// ---------------------------------------------------------------------------
/// `r` names a binding of the caller or of the defaults.
pub open spec fn is_bound(r: Seq<char>, c: Bindings, d: Bindings) -> bool {
    binding_of(r, c, d) is Some
}

/// No value of the bindings is itself an `IS` reference.
pub open spec fn no_reference_values(b: Bindings) -> bool {
    forall|i: int| 0 <= i < b.len() ==> !((#[trigger] b[i]).1 is Is)
}

/// No field of the node, or of the nodes below it (field values and array elements),
/// is `IS` a bound name.
pub open spec fn node_resolved(n: NodeV, c: Bindings, d: Bindings) -> bool
    decreases n,
{
    match n.kind {
        NodeKindV::Node { fields, .. } => fields_resolved(fields, c, d),
        NodeKindV::Use { .. } => true,
    }
}

pub open spec fn fields_resolved(es: Seq<ElementV>, c: Bindings, d: Bindings) -> bool
    decreases es,
{
    if es.len() == 0 {
        true
    } else {
        fields_resolved(es.drop_last(), c, d) && match es.last() {
            ElementV::Field { value, .. } => value_resolved(value, c, d),
            _ => true,
        }
    }
}

pub open spec fn value_resolved(v: ValueV, c: Bindings, d: Bindings) -> bool
    decreases v,
{
    match v {
        ValueV::Is(r) => !is_bound(r, c, d),
        ValueV::Node(n) => node_resolved(*n, c, d),
        ValueV::Array(items) => items_resolved(items, c, d),
        _ => true,
    }
}

pub open spec fn items_resolved(items: Seq<ValueV>, c: Bindings, d: Bindings) -> bool
    decreases items,
{
    if items.len() == 0 {
        true
    } else {
        items_resolved(items.drop_last(), c, d) && match items.last() {
            ValueV::Node(n) => node_resolved(*n, c, d),
            _ => true,
        }
    }
}

proof fn lemma_last_binding_not_reference(b: Bindings, r: Seq<char>)
    requires
        no_reference_values(b),
    ensures
        last_binding(b, r) matches Some(v) ==> !(v is Is),
    decreases b.len(),
{
    if b.len() > 0 {
        assert(!(b[b.len() - 1].1 is Is));
        assert forall|i: int| 0 <= i < b.drop_last().len() implies !((#[trigger] b.drop_last()[i]).1 is Is) by {
            assert(b.drop_last()[i] == b[i]);
        }
        lemma_last_binding_not_reference(b.drop_last(), r);
    }
}

proof fn lemma_resolved_node(n: NodeV, c: Bindings, d: Bindings, f: nat)
    requires
        subst_node_ok(n, c, d, f),
        no_reference_values(c),
        no_reference_values(d),
    ensures
        node_resolved(subst_node(n, c, d, f), c, d),
    decreases f, n,
{
    match n.kind {
        NodeKindV::Node { fields, .. } => lemma_resolved_fields(fields, c, d, f),
        NodeKindV::Use { .. } => {},
    }
}

proof fn lemma_resolved_fields(es: Seq<ElementV>, c: Bindings, d: Bindings, f: nat)
    requires
        subst_fields_ok(es, c, d, f),
        no_reference_values(c),
        no_reference_values(d),
    ensures
        fields_resolved(subst_fields(es, c, d, f), c, d),
    decreases f, es,
{
    if es.len() > 0 {
        lemma_resolved_fields(es.drop_last(), c, d, f);
        lemma_resolved_element(es.last(), c, d, f);
        let s = subst_fields(es, c, d, f);
        assert(s.drop_last() =~= subst_fields(es.drop_last(), c, d, f));
        assert(s.last() == subst_element(es.last(), c, d, f));
    }
}

proof fn lemma_resolved_element(e: ElementV, c: Bindings, d: Bindings, f: nat)
    requires
        subst_element_ok(e, c, d, f),
        no_reference_values(c),
        no_reference_values(d),
    ensures
        subst_element(e, c, d, f) matches ElementV::Field { value, .. } ==> value_resolved(value, c, d),
    decreases f, e,
{
    match e {
        ElementV::Field { name, value, span } => {
            let bound = match value {
                ValueV::Is(r) => binding_of(r, c, d),
                _ => None,
            };
            match bound {
                Some(b) => {
                    if let ValueV::Is(r) = value {
                        lemma_last_binding_not_reference(c, r);
                        lemma_last_binding_not_reference(d, r);
                    }
                    lemma_resolved_children(b, c, d, (f - 1) as nat);
                },
                None => {
                    if !(value is Is) {
                        lemma_resolved_children(value, c, d, f);
                    }
                },
            }
        },
        _ => {},
    }
}

proof fn lemma_resolved_children(v: ValueV, c: Bindings, d: Bindings, f: nat)
    requires
        subst_children_ok(v, c, d, f),
        !(v is Is),
        no_reference_values(c),
        no_reference_values(d),
    ensures
        value_resolved(subst_children(v, c, d, f), c, d),
    decreases f, v,
{
    match v {
        ValueV::Node(n) => lemma_resolved_node(*n, c, d, f),
        ValueV::Array(items) => lemma_resolved_items(items, c, d, f),
        _ => {},
    }
}

proof fn lemma_resolved_items(items: Seq<ValueV>, c: Bindings, d: Bindings, f: nat)
    requires
        subst_items_ok(items, c, d, f),
        no_reference_values(c),
        no_reference_values(d),
    ensures
        items_resolved(subst_items(items, c, d, f), c, d),
    decreases f, items,
{
    if items.len() > 0 {
        lemma_resolved_items(items.drop_last(), c, d, f);
        let s = subst_items(items, c, d, f);
        assert(s.drop_last() =~= subst_items(items.drop_last(), c, d, f));
        match items.last() {
            ValueV::Node(n) => {
                lemma_resolved_node(*n, c, d, f);
                assert(s.last() == ValueV::Node(Box::new(subst_node(*n, c, d, f))));
            },
            _ => {
                assert(s.last() == items.last());
            },
        }
    }
}

/// Replacing the bindings of a node leaves no field, in the node or in any node
/// below it (a field's node value or a node element of an array, such as
/// `children [...]`), that is still `IS` a name the caller or the defaults bind,
/// when no bound value is itself an `IS` reference.
pub proof fn lemma_subst_node_resolves(n: NodeV, c: Bindings, d: Bindings, f: nat)
    requires
        subst_node_ok(n, c, d, f),
        no_reference_values(c),
        no_reference_values(d),
    ensures
        node_resolved(subst_node(n, c, d, f), c, d),
{
    lemma_resolved_node(n, c, d, f);
}

proof fn lemma_subst_items_index(items: Seq<ValueV>, c: Bindings, d: Bindings, f: nat)
    ensures
        subst_items(items, c, d, f).len() == items.len(),
        forall|i: int| 0 <= i < items.len() ==> (#[trigger] subst_items(items, c, d, f)[i]) == match items[i] {
            ValueV::Node(_) => subst_children(items[i], c, d, f),
            other => other,
        },
    decreases items.len(),
{
    if items.len() > 0 {
        lemma_subst_items_index(items.drop_last(), c, d, f);
        let s = subst_items(items, c, d, f);
        assert forall|i: int| 0 <= i < items.len() implies (#[trigger] s[i]) == match items[i] {
            ValueV::Node(_) => subst_children(items[i], c, d, f),
            other => other,
        } by {
            if i < items.len() - 1 {
                assert(items.drop_last()[i] == items[i]);
                assert(s[i] == subst_items(items.drop_last(), c, d, f)[i]);
            }
        }
    }
}

/// A node given as an element of an array (`children [ N ]`) has its bindings
/// replaced exactly as the same node given as a field's value (`child N`); the other
/// elements stay as they are.
pub proof fn lemma_subst_array_elements(items: Seq<ValueV>, c: Bindings, d: Bindings, f: nat)
    ensures
        subst_children(ValueV::Array(items), c, d, f) matches ValueV::Array(out) && out.len() == items.len()
            && forall|i: int| 0 <= i < items.len() ==> (#[trigger] out[i]) == if items[i] is Node {
                subst_children(items[i], c, d, f)
            } else {
                items[i]
            },
{
    lemma_subst_items_index(items, c, d, f);
}

// ---------------------------------------------------------------------------
// Inlining EXTERNPROTO nodes
// ---------------------------------------------------------------------------
/// A PROTO available for inlining: its name, the node it expands to, its interface
/// defaults.
pub struct ExpansionV {
    pub name: Seq<char>,
    pub root: NodeV,
    pub defaults: Bindings,
}

/// The last expansion named `name` (a later EXTERNPROTO of a name replaces an
/// earlier one).
pub open spec fn find_expansion(defs: Seq<ExpansionV>, name: Seq<char>) -> Option<ExpansionV>
    decreases defs.len(),
{
    if defs.len() == 0 {
        None
    } else if defs.last().name == name {
        Some(defs.last())
    } else {
        find_expansion(defs.drop_last(), name)
    }
}

/// The expansion of a node used in place of the caller node: its bindings taken from
/// the caller's fields, and the caller's `DEF` name when it has one.
pub open spec fn instantiate(x: ExpansionV, caller_def: Option<Seq<char>>, caller_fields: Seq<ElementV>) -> NodeV {
    let s = subst_node(x.root, field_bindings(caller_fields), x.defaults, binding_fuel(field_bindings(caller_fields), x.defaults));
    match (caller_def, s.kind) {
        (Some(d), NodeKindV::Node { node_type, fields, .. }) => NodeV {
            kind: NodeKindV::Node { node_type, def_name: Some(d), fields },
            span: s.span,
        },
        _ => s,
    }
}

/// A node with the nodes of known PROTO types replaced by their expansions, through
/// the whole tree (an expansion's own nodes are inlined too, up to `fuel` deep).
pub open spec fn inline_node(n: NodeV, defs: Seq<ExpansionV>, fuel: nat) -> NodeV
    decreases fuel, n,
{
    match n.kind {
        NodeKindV::Node { node_type, def_name, fields } => match find_expansion(defs, node_type) {
            Some(x) => {
                let i = instantiate(x, def_name, fields);
                if fuel == 0 {
                    i
                } else {
                    inline_children_of(i, defs, (fuel - 1) as nat)
                }
            },
            None => NodeV {
                kind: NodeKindV::Node { node_type, def_name, fields: inline_fields(fields, defs, fuel) },
                span: n.span,
            },
        },
        NodeKindV::Use { .. } => n,
    }
}

/// A node whose children (not itself) are inlined.
pub open spec fn inline_children_of(n: NodeV, defs: Seq<ExpansionV>, fuel: nat) -> NodeV
    decreases fuel, n,
{
    match n.kind {
        NodeKindV::Node { node_type, def_name, fields } => NodeV {
            kind: NodeKindV::Node { node_type, def_name, fields: inline_fields(fields, defs, fuel) },
            span: n.span,
        },
        NodeKindV::Use { .. } => n,
    }
}

pub open spec fn inline_fields(es: Seq<ElementV>, defs: Seq<ExpansionV>, fuel: nat) -> Seq<ElementV>
    decreases fuel, es,
{
    if es.len() == 0 {
        Seq::empty()
    } else {
        let last = match es.last() {
            ElementV::Field { name, value, span } => ElementV::Field {
                name,
                value: inline_value(value, defs, fuel),
                span,
            },
            other => other,
        };
        inline_fields(es.drop_last(), defs, fuel).push(last)
    }
}

pub open spec fn inline_value(v: ValueV, defs: Seq<ExpansionV>, fuel: nat) -> ValueV
    decreases fuel, v,
{
    match v {
        ValueV::Node(c) => ValueV::Node(Box::new(inline_node(*c, defs, fuel))),
        ValueV::Array(items) => ValueV::Array(inline_items(items, defs, fuel)),
        _ => v,
    }
}

pub open spec fn inline_items(items: Seq<ValueV>, defs: Seq<ExpansionV>, fuel: nat) -> Seq<ValueV>
    decreases fuel, items,
{
    if items.len() == 0 {
        Seq::empty()
    } else {
        let last = match items.last() {
            ValueV::Node(c) => ValueV::Node(Box::new(inline_node(*c, defs, fuel))),
            other => other,
        };
        inline_items(items.drop_last(), defs, fuel).push(last)
    }
}

/// True when [`inline_node`] inlines every node of a declared PROTO type within `fuel`
/// nested inlinings, each instance's bindings replaced within [`binding_fuel`].
pub open spec fn inline_node_ok(n: NodeV, defs: Seq<ExpansionV>, fuel: nat) -> bool
    decreases fuel, n,
{
    match n.kind {
        NodeKindV::Node { node_type, def_name, fields } => match find_expansion(defs, node_type) {
            Some(x) => subst_node_ok(x.root, field_bindings(fields), x.defaults, binding_fuel(field_bindings(fields), x.defaults)) && if fuel
                == 0 {
                false
            } else {
                inline_children_ok(instantiate(x, def_name, fields), defs, (fuel - 1) as nat)
            },
            None => inline_fields_ok(fields, defs, fuel),
        },
        NodeKindV::Use { .. } => true,
    }
}

pub open spec fn inline_children_ok(n: NodeV, defs: Seq<ExpansionV>, fuel: nat) -> bool
    decreases fuel, n,
{
    match n.kind {
        NodeKindV::Node { fields, .. } => inline_fields_ok(fields, defs, fuel),
        NodeKindV::Use { .. } => true,
    }
}

pub open spec fn inline_fields_ok(es: Seq<ElementV>, defs: Seq<ExpansionV>, fuel: nat) -> bool
    decreases fuel, es,
{
    if es.len() == 0 {
        true
    } else {
        inline_fields_ok(es.drop_last(), defs, fuel) && match es.last() {
            ElementV::Field { value, .. } => inline_value_ok(value, defs, fuel),
            _ => true,
        }
    }
}

pub open spec fn inline_value_ok(v: ValueV, defs: Seq<ExpansionV>, fuel: nat) -> bool
    decreases fuel, v,
{
    match v {
        ValueV::Node(c) => inline_node_ok(*c, defs, fuel),
        ValueV::Array(items) => inline_items_ok(items, defs, fuel),
        _ => true,
    }
}

pub open spec fn inline_items_ok(items: Seq<ValueV>, defs: Seq<ExpansionV>, fuel: nat) -> bool
    decreases fuel, items,
{
    if items.len() == 0 {
        true
    } else {
        inline_items_ok(items.drop_last(), defs, fuel) && match items.last() {
            ValueV::Node(c) => inline_node_ok(*c, defs, fuel),
            _ => true,
        }
    }
}

// ---------------------------------------------------------------------------
// What an expansion within its allowance gives does not depend on the allowance
// ---------------------------------------------------------------------------
/// Replacing the bindings of a node within `f` nested replacements gives what any
/// larger allowance gives: the result is the unbounded replacement.
pub proof fn lemma_subst_node_fuel(n: NodeV, c: Bindings, d: Bindings, f: nat, g: nat)
    requires
        subst_node_ok(n, c, d, f),
        f <= g,
    ensures
        subst_node_ok(n, c, d, g),
        subst_node(n, c, d, f) == subst_node(n, c, d, g),
    decreases f, n,
{
    match n.kind {
        NodeKindV::Node { fields, .. } => lemma_subst_fields_fuel(fields, c, d, f, g),
        NodeKindV::Use { .. } => {},
    }
}

proof fn lemma_subst_fields_fuel(es: Seq<ElementV>, c: Bindings, d: Bindings, f: nat, g: nat)
    requires
        subst_fields_ok(es, c, d, f),
        f <= g,
    ensures
        subst_fields_ok(es, c, d, g),
        subst_fields(es, c, d, f) == subst_fields(es, c, d, g),
    decreases f, es,
{
    if es.len() > 0 {
        lemma_subst_fields_fuel(es.drop_last(), c, d, f, g);
        lemma_subst_element_fuel(es.last(), c, d, f, g);
    }
}

proof fn lemma_subst_element_fuel(e: ElementV, c: Bindings, d: Bindings, f: nat, g: nat)
    requires
        subst_element_ok(e, c, d, f),
        f <= g,
    ensures
        subst_element_ok(e, c, d, g),
        subst_element(e, c, d, f) == subst_element(e, c, d, g),
    decreases f, e,
{
    match e {
        ElementV::Field { name, value, span } => {
            let bound = match value {
                ValueV::Is(r) => binding_of(r, c, d),
                _ => None,
            };
            match bound {
                Some(b) => lemma_subst_children_fuel(b, c, d, (f - 1) as nat, (g - 1) as nat),
                None => lemma_subst_children_fuel(value, c, d, f, g),
            }
        },
        _ => {},
    }
}

proof fn lemma_subst_children_fuel(v: ValueV, c: Bindings, d: Bindings, f: nat, g: nat)
    requires
        subst_children_ok(v, c, d, f),
        f <= g,
    ensures
        subst_children_ok(v, c, d, g),
        subst_children(v, c, d, f) == subst_children(v, c, d, g),
    decreases f, v,
{
    match v {
        ValueV::Node(n) => lemma_subst_node_fuel(*n, c, d, f, g),
        ValueV::Array(items) => lemma_subst_items_fuel(items, c, d, f, g),
        _ => {},
    }
}

proof fn lemma_subst_items_fuel(items: Seq<ValueV>, c: Bindings, d: Bindings, f: nat, g: nat)
    requires
        subst_items_ok(items, c, d, f),
        f <= g,
    ensures
        subst_items_ok(items, c, d, g),
        subst_items(items, c, d, f) == subst_items(items, c, d, g),
    decreases f, items,
{
    if items.len() > 0 {
        lemma_subst_items_fuel(items.drop_last(), c, d, f, g);
        match items.last() {
            ValueV::Node(n) => lemma_subst_node_fuel(*n, c, d, f, g),
            _ => {},
        }
    }
}

// ---------------------------------------------------------------------------
// Replacing bindings ends within one nested replacement per binding, if at all
// ---------------------------------------------------------------------------
/// The value bound to `r` is replaced through within `m` nested replacements.
pub open spec fn binding_ok(r: Seq<char>, c: Bindings, d: Bindings, m: nat) -> bool {
    match binding_of(r, c, d) {
        Some(b) => subst_children_ok(b, c, d, m),
        None => false,
    }
}

/// The least number of nested replacements the value bound to `r` needs, when some
/// number is enough.
pub open spec fn binding_need(r: Seq<char>, c: Bindings, d: Bindings) -> nat {
    choose|m: nat| binding_ok(r, c, d, m) && forall|k: nat| k < m ==> !#[trigger] binding_ok(r, c, d, k)
}

/// The value bound to `r` is replaced through within fewer than `g` nested
/// replacements.
pub open spec fn binding_within(r: Seq<char>, c: Bindings, d: Bindings, g: nat) -> bool {
    (exists|m: nat| #[trigger] binding_ok(r, c, d, m)) && binding_need(r, c, d) < g
}

/// How many entries of `list` name a binding replaced through within fewer than `g`
/// nested replacements.
pub open spec fn count_within(list: Bindings, c: Bindings, d: Bindings, g: nat) -> nat
    decreases list.len(),
{
    if list.len() == 0 {
        0
    } else {
        count_within(list.drop_last(), c, d, g) + if binding_within(list.last().0, c, d, g) {
            1nat
        } else {
            0nat
        }
    }
}

/// The number of nested replacements that is enough for a node that is replaced
/// through within `g`: one per binding needing fewer than `g`.
pub open spec fn enough_fuel(c: Bindings, d: Bindings, g: nat) -> nat {
    count_within(c, c, d, g) + count_within(d, c, d, g)
}

proof fn lemma_least_binding_fuel(r: Seq<char>, c: Bindings, d: Bindings, g: nat)
    requires
        binding_ok(r, c, d, g),
    ensures
        exists|m: nat| m <= g && binding_ok(r, c, d, m) && forall|k: nat| k < m ==> !#[trigger] binding_ok(r, c, d, k),
    decreases g,
{
    if exists|k: nat| k < g && #[trigger] binding_ok(r, c, d, k) {
        let k = choose|k: nat| k < g && #[trigger] binding_ok(r, c, d, k);
        lemma_least_binding_fuel(r, c, d, k);
    } else {
        assert(forall|k: nat| k < g ==> !#[trigger] binding_ok(r, c, d, k));
    }
}

proof fn lemma_binding_need(r: Seq<char>, c: Bindings, d: Bindings, g: nat)
    requires
        binding_ok(r, c, d, g),
    ensures
        binding_ok(r, c, d, binding_need(r, c, d)),
        binding_need(r, c, d) <= g,
        binding_within(r, c, d, g + 1),
{
    lemma_least_binding_fuel(r, c, d, g);
    let m = binding_need(r, c, d);
    assert(binding_ok(r, c, d, m) && forall|k: nat| k < m ==> !#[trigger] binding_ok(r, c, d, k));
    if g < m {
        assert(!binding_ok(r, c, d, g));
    }
}

proof fn lemma_last_binding_named(b: Bindings, r: Seq<char>)
    requires
        last_binding(b, r) is Some,
    ensures
        exists|i: int| 0 <= i < b.len() && (#[trigger] b[i]).0 == r,
    decreases b.len(),
{
    if b.last().0 == r {
        assert(b[b.len() - 1].0 == r);
    } else {
        lemma_last_binding_named(b.drop_last(), r);
        let i = choose|i: int| 0 <= i < b.drop_last().len() && (#[trigger] b.drop_last()[i]).0 == r;
        assert(b[i] == b.drop_last()[i]);
    }
}

proof fn lemma_count_within(list: Bindings, c: Bindings, d: Bindings, m: nat, g: nat, r: Seq<char>)
    requires
        m <= g,
    ensures
        count_within(list, c, d, m) <= count_within(list, c, d, g),
        count_within(list, c, d, g) <= list.len(),
        (exists|i: int| 0 <= i < list.len() && (#[trigger] list[i]).0 == r) && binding_within(r, c, d, g)
            && !binding_within(r, c, d, m) ==> count_within(list, c, d, m) < count_within(list, c, d, g),
    decreases list.len(),
{
    if list.len() > 0 {
        lemma_count_within(list.drop_last(), c, d, m, g, r);
        if (exists|i: int| 0 <= i < list.len() && (#[trigger] list[i]).0 == r) && list.last().0 != r {
            let i = choose|i: int| 0 <= i < list.len() && (#[trigger] list[i]).0 == r;
            assert(i < list.len() - 1);
            assert(list.drop_last()[i] == list[i]);
        }
    }
}

proof fn lemma_enough_fuel(c: Bindings, d: Bindings, m: nat, g: nat, r: Seq<char>)
    requires
        m <= g,
        binding_of(r, c, d) is Some,
        binding_within(r, c, d, g),
        !binding_within(r, c, d, m),
    ensures
        enough_fuel(c, d, m) < enough_fuel(c, d, g),
{
    lemma_count_within(c, c, d, m, g, r);
    lemma_count_within(d, c, d, m, g, r);
    if last_binding(c, r) is Some {
        lemma_last_binding_named(c, r);
    } else {
        lemma_last_binding_named(d, r);
    }
}

proof fn lemma_subst_node_enough_fuel(n: NodeV, c: Bindings, d: Bindings, g: nat)
    requires
        subst_node_ok(n, c, d, g),
    ensures
        subst_node_ok(n, c, d, enough_fuel(c, d, g)),
    decreases g, n,
{
    match n.kind {
        NodeKindV::Node { fields, .. } => lemma_subst_fields_enough_fuel(fields, c, d, g),
        NodeKindV::Use { .. } => {},
    }
}

proof fn lemma_subst_fields_enough_fuel(es: Seq<ElementV>, c: Bindings, d: Bindings, g: nat)
    requires
        subst_fields_ok(es, c, d, g),
    ensures
        subst_fields_ok(es, c, d, enough_fuel(c, d, g)),
    decreases g, es,
{
    if es.len() > 0 {
        lemma_subst_fields_enough_fuel(es.drop_last(), c, d, g);
        lemma_subst_element_enough_fuel(es.last(), c, d, g);
    }
}

proof fn lemma_subst_element_enough_fuel(e: ElementV, c: Bindings, d: Bindings, g: nat)
    requires
        subst_element_ok(e, c, d, g),
    ensures
        subst_element_ok(e, c, d, enough_fuel(c, d, g)),
    decreases g, e,
{
    match e {
        ElementV::Field { name, value, span } => {
            let bound = match value {
                ValueV::Is(r) => binding_of(r, c, d),
                _ => None,
            };
            match bound {
                Some(b) => {
                    if let ValueV::Is(r) = value {
                        let g1 = (g - 1) as nat;
                        assert(binding_ok(r, c, d, g1));
                        lemma_binding_need(r, c, d, g1);
                        let m = binding_need(r, c, d);
                        lemma_subst_children_enough_fuel(b, c, d, m);
                        lemma_enough_fuel(c, d, m, g, r);
                        lemma_subst_children_fuel(b, c, d, enough_fuel(c, d, m), (enough_fuel(c, d, g) - 1) as nat);
                    }
                },
                None => lemma_subst_children_enough_fuel(value, c, d, g),
            }
        },
        _ => {},
    }
}

proof fn lemma_subst_children_enough_fuel(v: ValueV, c: Bindings, d: Bindings, g: nat)
    requires
        subst_children_ok(v, c, d, g),
    ensures
        subst_children_ok(v, c, d, enough_fuel(c, d, g)),
    decreases g, v,
{
    match v {
        ValueV::Node(n) => lemma_subst_node_enough_fuel(*n, c, d, g),
        ValueV::Array(items) => lemma_subst_items_enough_fuel(items, c, d, g),
        _ => {},
    }
}

proof fn lemma_subst_items_enough_fuel(items: Seq<ValueV>, c: Bindings, d: Bindings, g: nat)
    requires
        subst_items_ok(items, c, d, g),
    ensures
        subst_items_ok(items, c, d, enough_fuel(c, d, g)),
    decreases g, items,
{
    if items.len() > 0 {
        lemma_subst_items_enough_fuel(items.drop_last(), c, d, g);
        match items.last() {
            ValueV::Node(n) => lemma_subst_node_enough_fuel(*n, c, d, g),
            _ => {},
        }
    }
}

/// Replacing the `IS` bindings of a node, if it ends within any number of nested
/// replacements, ends within one per binding (caller's and defaults together), and
/// gives the same node: a longer nesting would bring in some binding inside its own
/// value, and then the replacement never ends.
pub proof fn lemma_subst_node_enough(n: NodeV, c: Bindings, d: Bindings, g: nat)
    requires
        subst_node_ok(n, c, d, g),
    ensures
        subst_node_ok(n, c, d, c.len() + d.len()),
        subst_node(n, c, d, g) == subst_node(n, c, d, c.len() + d.len()),
{
    let k = (c.len() + d.len()) as nat;
    lemma_subst_node_enough_fuel(n, c, d, g);
    lemma_count_within(c, c, d, g, g, Seq::empty());
    lemma_count_within(d, c, d, g, g, Seq::empty());
    lemma_subst_node_fuel(n, c, d, enough_fuel(c, d, g), k);
    let h = if g <= k { k } else { g };
    lemma_subst_node_fuel(n, c, d, g, h);
    lemma_subst_node_fuel(n, c, d, k, h);
}

/// Inlining a node within `f` nested inlinings gives what any larger allowance gives:
/// the result is the unbounded inlining.
pub proof fn lemma_inline_node_fuel(n: NodeV, defs: Seq<ExpansionV>, f: nat, g: nat)
    requires
        inline_node_ok(n, defs, f),
        f <= g,
    ensures
        inline_node_ok(n, defs, g),
        inline_node(n, defs, f) == inline_node(n, defs, g),
    decreases f, n,
{
    match n.kind {
        NodeKindV::Node { node_type, def_name, fields } => match find_expansion(defs, node_type) {
            Some(x) => lemma_inline_children_fuel(instantiate(x, def_name, fields), defs, (f - 1) as nat, (g - 1) as nat),
            None => lemma_inline_fields_fuel(fields, defs, f, g),
        },
        NodeKindV::Use { .. } => {},
    }
}

proof fn lemma_inline_children_fuel(n: NodeV, defs: Seq<ExpansionV>, f: nat, g: nat)
    requires
        inline_children_ok(n, defs, f),
        f <= g,
    ensures
        inline_children_ok(n, defs, g),
        inline_children_of(n, defs, f) == inline_children_of(n, defs, g),
    decreases f, n,
{
    match n.kind {
        NodeKindV::Node { fields, .. } => lemma_inline_fields_fuel(fields, defs, f, g),
        NodeKindV::Use { .. } => {},
    }
}

proof fn lemma_inline_fields_fuel(es: Seq<ElementV>, defs: Seq<ExpansionV>, f: nat, g: nat)
    requires
        inline_fields_ok(es, defs, f),
        f <= g,
    ensures
        inline_fields_ok(es, defs, g),
        inline_fields(es, defs, f) == inline_fields(es, defs, g),
    decreases f, es,
{
    if es.len() > 0 {
        lemma_inline_fields_fuel(es.drop_last(), defs, f, g);
        match es.last() {
            ElementV::Field { value, .. } => lemma_inline_value_fuel(value, defs, f, g),
            _ => {},
        }
    }
}

proof fn lemma_inline_value_fuel(v: ValueV, defs: Seq<ExpansionV>, f: nat, g: nat)
    requires
        inline_value_ok(v, defs, f),
        f <= g,
    ensures
        inline_value_ok(v, defs, g),
        inline_value(v, defs, f) == inline_value(v, defs, g),
    decreases f, v,
{
    match v {
        ValueV::Node(n) => lemma_inline_node_fuel(*n, defs, f, g),
        ValueV::Array(items) => lemma_inline_items_fuel(items, defs, f, g),
        _ => {},
    }
}

proof fn lemma_inline_items_fuel(items: Seq<ValueV>, defs: Seq<ExpansionV>, f: nat, g: nat)
    requires
        inline_items_ok(items, defs, f),
        f <= g,
    ensures
        inline_items_ok(items, defs, g),
        inline_items(items, defs, f) == inline_items(items, defs, g),
    decreases f, items,
{
    if items.len() > 0 {
        lemma_inline_items_fuel(items.drop_last(), defs, f, g);
        match items.last() {
            ValueV::Node(n) => lemma_inline_node_fuel(*n, defs, f, g),
            _ => {},
        }
    }
}

// ---------------------------------------------------------------------------
// Mesh URLs
// ---------------------------------------------------------------------------
/// True when the text holds `://`.
pub open spec fn has_scheme(u: Seq<char>) -> bool {
    exists|i: int| 0 <= i && #[trigger] scheme_at(u, i)
}

/// True when `://` starts at position `i`.
pub open spec fn scheme_at(u: Seq<char>, i: int) -> bool {
    0 <= i && i + 2 < u.len() && u[i] == ':' && u[i + 1] == '/' && u[i + 2] == '/'
}

/// The directory relative paths are taken from: `base` when absolute, else `base`
/// under the working directory.
pub open spec fn absolute_base(base: Seq<char>, cwd: Seq<char>) -> Seq<char> {
    if is_absolute(base) {
        base
    } else {
        join_path(cwd, base)
    }
}

/// The path a relative mesh URL is looked up at.
pub open spec fn url_candidate(u: Seq<char>, base: Seq<char>, cwd: Seq<char>) -> Seq<char> {
    join_path(absolute_base(base, cwd), u)
}

/// True when a mesh URL is a local relative path, which is made absolute.
pub open spec fn is_local_relative(u: Seq<char>) -> bool {
    !has_scheme(u) && !is_absolute(u)
}

/// The path found for `p` in the table of canonical paths (the last entry for it),
/// or `p` itself.
pub open spec fn canonical_of(p: Seq<char>, canon: Seq<(Seq<char>, Seq<char>)>) -> Seq<char>
    decreases canon.len(),
{
    if canon.len() == 0 {
        p
    } else if canon.last().0 == p {
        canon.last().1
    } else {
        canonical_of(p, canon.drop_last())
    }
}

/// A mesh URL made absolute: URLs with a scheme and absolute paths stay, a relative
/// path becomes its canonical path (or the joined path when it has none).
pub open spec fn normalized_url(u: Seq<char>, base: Seq<char>, cwd: Seq<char>, canon: Seq<(Seq<char>, Seq<char>)>) -> Seq<char> {
    if is_local_relative(u) {
        canonical_of(url_candidate(u, base, cwd), canon)
    } else {
        u
    }
}

/// A field value with the nodes below it normalized; when it is the `url` field of
/// a CadShape, its URLs (and those of its array) made absolute too.
pub open spec fn norm_value(v: ValueV, url: bool, base: Seq<char>, cwd: Seq<char>, canon: Seq<(Seq<char>, Seq<char>)>) -> ValueV
    decreases v,
{
    match v {
        ValueV::Node(c) => ValueV::Node(Box::new(normalize_node(*c, base, cwd, canon))),
        ValueV::Array(items) => ValueV::Array(norm_items(items, url, base, cwd, canon)),
        ValueV::String(u) => if url {
            ValueV::String(normalized_url(u, base, cwd, canon))
        } else {
            v
        },
        ValueV::Raw(u) => if url {
            ValueV::Raw(normalized_url(u, base, cwd, canon))
        } else {
            v
        },
        _ => v,
    }
}

pub open spec fn norm_items(items: Seq<ValueV>, url: bool, base: Seq<char>, cwd: Seq<char>, canon: Seq<(Seq<char>, Seq<char>)>) -> Seq<ValueV>
    decreases items,
{
    if items.len() == 0 {
        Seq::empty()
    } else {
        let last = match items.last() {
            ValueV::Node(c) => ValueV::Node(Box::new(normalize_node(*c, base, cwd, canon))),
            ValueV::String(u) => if url {
                ValueV::String(normalized_url(u, base, cwd, canon))
            } else {
                items.last()
            },
            ValueV::Raw(u) => if url {
                ValueV::Raw(normalized_url(u, base, cwd, canon))
            } else {
                items.last()
            },
            other => other,
        };
        norm_items(items.drop_last(), url, base, cwd, canon).push(last)
    }
}

/// A node tree with the URLs of its CadShape nodes made absolute.
pub open spec fn normalize_node(n: NodeV, base: Seq<char>, cwd: Seq<char>, canon: Seq<(Seq<char>, Seq<char>)>) -> NodeV
    decreases n,
{
    match n.kind {
        NodeKindV::Node { node_type, def_name, fields } => NodeV {
            kind: NodeKindV::Node {
                node_type,
                def_name,
                fields: norm_fields(fields, node_type == "CadShape"@, base, cwd, canon),
            },
            span: n.span,
        },
        NodeKindV::Use { .. } => n,
    }
}

pub open spec fn norm_fields(es: Seq<ElementV>, cad: bool, base: Seq<char>, cwd: Seq<char>, canon: Seq<(Seq<char>, Seq<char>)>) -> Seq<ElementV>
    decreases es,
{
    if es.len() == 0 {
        Seq::empty()
    } else {
        let last = match es.last() {
            ElementV::Field { name, value, span } => ElementV::Field {
                name,
                value: norm_value(value, cad && name == "url"@, base, cwd, canon),
                span,
            },
            other => other,
        };
        norm_fields(es.drop_last(), cad, base, cwd, canon).push(last)
    }
}

/// The paths at which the relative mesh URLs of a tree are looked up, in the order
/// the tree is walked.
pub open spec fn cand_node(n: NodeV, base: Seq<char>, cwd: Seq<char>) -> Seq<Seq<char>>
    decreases n,
{
    match n.kind {
        NodeKindV::Node { node_type, fields, .. } => cand_fields(fields, node_type == "CadShape"@, base, cwd),
        NodeKindV::Use { .. } => Seq::empty(),
    }
}

pub open spec fn cand_url(u: Seq<char>, url: bool, base: Seq<char>, cwd: Seq<char>) -> Seq<Seq<char>> {
    if url && is_local_relative(u) {
        seq![url_candidate(u, base, cwd)]
    } else {
        Seq::empty()
    }
}

pub open spec fn cand_fields(es: Seq<ElementV>, cad: bool, base: Seq<char>, cwd: Seq<char>) -> Seq<Seq<char>>
    decreases es,
{
    if es.len() == 0 {
        Seq::empty()
    } else {
        cand_fields(es.drop_last(), cad, base, cwd) + match es.last() {
            ElementV::Field { name, value, .. } => cand_value(value, cad && name == "url"@, base, cwd),
            _ => Seq::empty(),
        }
    }
}

pub open spec fn cand_value(v: ValueV, url: bool, base: Seq<char>, cwd: Seq<char>) -> Seq<Seq<char>>
    decreases v,
{
    match v {
        ValueV::Node(c) => cand_node(*c, base, cwd),
        ValueV::Array(items) => cand_items(items, url, base, cwd),
        ValueV::String(u) => cand_url(u, url, base, cwd),
        ValueV::Raw(u) => cand_url(u, url, base, cwd),
        _ => Seq::empty(),
    }
}

pub open spec fn cand_items(items: Seq<ValueV>, url: bool, base: Seq<char>, cwd: Seq<char>) -> Seq<Seq<char>>
    decreases items,
{
    if items.len() == 0 {
        Seq::empty()
    } else {
        cand_items(items.drop_last(), url, base, cwd) + match items.last() {
            ValueV::Node(c) => cand_node(*c, base, cwd),
            ValueV::String(u) => cand_url(u, url, base, cwd),
            ValueV::Raw(u) => cand_url(u, url, base, cwd),
            _ => Seq::empty(),
        }
    }
}

} // verus!
