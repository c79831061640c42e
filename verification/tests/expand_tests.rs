use webots_proto::ast::{AstNode, AstNodeKind, FieldValue, NodeBodyElement, Proto};
use webots_proto::document::parse_text;
use webots_proto::expand::{
    inline_proto_nodes, interface_defaults, mesh_url_candidates, normalize_local_url,
    normalize_mesh_urls, resolve_is_bindings, select_root_node, ProtoExpansion,
};
use webots_proto::resolver::{ProtoError, ProtoResolver, ResolveOptions};

fn parse(input: &str) -> Proto {
    parse_text(input).expect("document should parse")
}

fn node_type(node: &AstNode) -> &str {
    match &node.kind {
        AstNodeKind::Node { node_type, .. } => node_type,
        AstNodeKind::Use { .. } => panic!("expected a node, got USE"),
    }
}

fn field<'a>(node: &'a AstNode, name: &str) -> &'a FieldValue {
    let AstNodeKind::Node { fields, .. } = &node.kind else {
        panic!("expected a node");
    };
    fields
        .iter()
        .find_map(|element| match element {
            NodeBodyElement::Field(f) if f.name == name => Some(&f.value),
            _ => None,
        })
        .expect("field should be present")
}

fn child_node<'a>(node: &'a AstNode, name: &str) -> &'a AstNode {
    match field(node, name) {
        FieldValue::Node(n) => n,
        other => panic!("expected a node value, got {:?}", other),
    }
}

fn expansion_of(child_source: &str) -> ProtoExpansion {
    let doc = parse(child_source);
    let root = select_root_node(&doc).expect("child PROTO has a root node");
    let defaults = interface_defaults(&doc.proto.as_ref().unwrap().fields);
    ProtoExpansion { root_node: root, interface_defaults: defaults }
}

#[test]
fn test_simple_proto_without_externproto() {
    let input = r#"#VRML_SIM R2025a utf8

PROTO Simple [
  field SFVec3f size 1 1 1
]
{
  Shape {
    geometry Box { size IS size }
  }
}
"#;
    let doc = parse(input);
    let node = select_root_node(&doc).expect("a PROTO body node is the root");
    assert_eq!(node_type(&node), "Shape");
}

#[test]
fn test_document_without_proto_definition() {
    let input = r#"#VRML_SIM R2025a utf8

WorldInfo {
  title "Test"
}
"#;
    let doc = parse(input);
    let node = select_root_node(&doc).expect("the first root node is the root");
    assert_eq!(node_type(&node), "WorldInfo");
}

#[test]
fn test_max_depth_limit() {
    let input = r#"#VRML_SIM R2025a utf8

PROTO Test []
{
  Shape {
    geometry Box { size 1 1 1 }
  }
}
"#;
    // No EXTERNPROTO is loaded, so neither depth limit is reached.
    let doc = parse(input);
    assert!(doc.externprotos.is_empty());
    assert!(select_root_node(&doc).is_ok());
    let options = ResolveOptions::new().with_max_depth(0);
    assert_eq!(options.max_depth, 0);
    assert!(select_root_node(&doc).is_ok());
}

#[test]
fn test_network_url_rejected_by_default() {
    let input = r#"#VRML_SIM R2025a utf8
EXTERNPROTO "https://example.com/Robot.proto"

PROTO Main []
{
  Robot { name "a" }
}
"#;
    let doc = parse(input);
    let resolver = ProtoResolver::new(ResolveOptions::new());
    let result = resolver.resolve_url(&doc.externprotos[0].url, ".");
    assert!(result.is_err(), "Network URLs must be rejected");
}

#[test]
fn test_normalize_local_url_keeps_remote_urls() {
    let base = "/tmp";
    assert_eq!(
        normalize_local_url(&"https://example.com/mesh.obj".to_string(), base, "/work", &vec![]),
        "https://example.com/mesh.obj"
    );
    assert_eq!(
        normalize_local_url(&"webots://projects/mesh.obj".to_string(), base, "/work", &vec![]),
        "webots://projects/mesh.obj"
    );
}

#[test]
fn relative_mesh_urls_are_joined_and_canonicalized() {
    let none: Vec<(String, String)> = vec![];
    assert_eq!(normalize_local_url(&"mesh.obj".to_string(), "/tmp", "/work", &none), "/tmp/mesh.obj");
    assert_eq!(normalize_local_url(&"mesh.obj".to_string(), "meshes", "/work", &none), "/work/meshes/mesh.obj");
    assert_eq!(normalize_local_url(&"/abs/mesh.obj".to_string(), "/tmp", "/work", &none), "/abs/mesh.obj");
    let canon = vec![("/tmp/mesh.obj".to_string(), "/real/mesh.obj".to_string())];
    assert_eq!(normalize_local_url(&"mesh.obj".to_string(), "/tmp", "/work", &canon), "/real/mesh.obj");
}

#[test]
fn root_node_errors() {
    let doc = parse("#VRML_SIM R2025a utf8\nPROTO Empty [] {\n}\n");
    match select_root_node(&doc) {
        Err(ProtoError::ParseError(m)) => assert_eq!(m, "PROTO definition has no root node"),
        other => panic!("unexpected result {:?}", other),
    }
    let doc = parse("#VRML_SIM R2025a utf8\n");
    match select_root_node(&doc) {
        Err(ProtoError::ParseError(m)) => assert_eq!(m, "Document has no root nodes"),
        other => panic!("unexpected result {:?}", other),
    }
}

#[test]
fn is_bindings_take_caller_values_then_defaults() {
    let child = expansion_of(
        r#"#VRML_SIM R2025a utf8
PROTO Child [
  field SFVec3f size 1 1 1
  field SFString label "plain"
]
{
  Solid {
    name IS label
    boundingObject Box { size IS size }
    description IS missing
  }
}
"#,
    );
    let caller = parse("#VRML_SIM R2025a utf8\nChild { label \"given\" }\n");
    let AstNodeKind::Node { fields, .. } = &caller.root_nodes[0].kind else {
        panic!("expected a node");
    };
    let resolved = resolve_is_bindings(&child.root_node, fields, &child.interface_defaults).unwrap();
    assert_eq!(field(&resolved, "name"), &FieldValue::String("given".to_string()));
    let size = field(child_node(&resolved, "boundingObject"), "size");
    assert!(!matches!(size, FieldValue::Is(_)), "default should replace IS size: {:?}", size);
    // An IS binding with neither a caller value nor a default stays.
    assert_eq!(field(&resolved, "description"), &FieldValue::Is("missing".to_string()));
}

#[test]
fn externproto_nodes_are_inlined_with_interface_defaults() {
    let source = r#"#VRML_SIM R2025a utf8
PROTO Child [
  field SFVec3f size 1 1 1
]
{
  Box { size IS size }
}
"#;
    let child = expansion_of(source);
    let expected = expansion_of(source);
    assert_eq!(expected.interface_defaults.len(), 1);
    assert_eq!(expected.interface_defaults[0].0, "size");
    let parent = parse("#VRML_SIM R2025a utf8\nShape {\n  geometry DEF GEO Child {\n  }\n}\n");
    let root = select_root_node(&parent).unwrap();
    let defs = vec![("Child".to_string(), child)];
    let inlined = inline_proto_nodes(&root, &defs).unwrap();
    assert_eq!(node_type(&inlined), "Shape");
    let geometry = child_node(&inlined, "geometry");
    assert_eq!(node_type(geometry), "Box");
    match &geometry.kind {
        AstNodeKind::Node { def_name, .. } => assert_eq!(def_name.as_deref(), Some("GEO")),
        _ => panic!("expected a node"),
    }
    assert_eq!(field(geometry, "size"), &expected.interface_defaults[0].1);
}

#[test]
fn cad_shape_urls_are_normalized() {
    let doc = parse(
        r#"#VRML_SIM R2025a utf8
Group {
  children [
    CadShape { url [ "meshes/a.obj" "https://x.org/b.obj" ] }
    Shape { url "keep.obj" }
  ]
}
"#,
    );
    let root = select_root_node(&doc).unwrap();
    let candidates = mesh_url_candidates(&root, "/base", "/work");
    assert_eq!(candidates, vec!["/base/meshes/a.obj".to_string()]);
    let canon = vec![("/base/meshes/a.obj".to_string(), "/data/a.obj".to_string())];
    let normalized = normalize_mesh_urls(&root, "/base", "/work", &canon);
    let FieldValue::Array(children) = field(&normalized, "children") else {
        panic!("children should be an array");
    };
    let FieldValue::Node(cad) = &children.elements[0].value else {
        panic!("expected a node");
    };
    let FieldValue::Array(urls) = field(cad, "url") else {
        panic!("url should be an array");
    };
    assert_eq!(urls.elements[0].value, FieldValue::String("/data/a.obj".to_string()));
    assert_eq!(urls.elements[1].value, FieldValue::String("https://x.org/b.obj".to_string()));
    let FieldValue::Node(shape) = &children.elements[1].value else {
        panic!("expected a node");
    };
    assert_eq!(field(shape, "url"), &FieldValue::String("keep.obj".to_string()));
}

fn count_type(node: &AstNode, name: &str) -> usize {
    let mut n = 0;
    if let AstNodeKind::Node { node_type, fields, .. } = &node.kind {
        if node_type == name {
            n += 1;
        }
        for e in fields {
            if let NodeBodyElement::Field(f) = e {
                match &f.value {
                    FieldValue::Node(c) => n += count_type(c, name),
                    FieldValue::Array(a) => {
                        for item in &a.elements {
                            if let FieldValue::Node(c) = &item.value {
                                n += count_type(c, name);
                            }
                        }
                    }
                    _ => {}
                }
            }
        }
    }
    n
}

#[test]
fn deeply_nested_instances_are_all_inlined() {
    let wrap = expansion_of(
        "#VRML_SIM R2025a utf8\nPROTO Wrap [\n  field MFNode kids []\n]\n{\n  Group { children IS kids }\n}\n",
    );
    let mut text = String::from("Leaf { }");
    for _ in 0..40 {
        text = format!("Wrap {{ kids [ {} ] }}", text);
    }
    let doc = parse(&format!("#VRML_SIM R2025a utf8\n{}\n", text));
    let root = select_root_node(&doc).unwrap();
    let defs = vec![("Wrap".to_string(), wrap)];
    let inlined = inline_proto_nodes(&root, &defs).expect("inlined");
    assert_eq!(count_type(&inlined, "Wrap"), 0);
    assert_eq!(count_type(&inlined, "Group"), 40);
    assert_eq!(count_type(&inlined, "Leaf"), 1);
}

#[test]
fn self_referencing_binding_is_refused() {
    let node = parse("#VRML_SIM R2025a utf8\nSolid { children IS x }\n");
    let caller = parse("#VRML_SIM R2025a utf8\nCaller { x Group { children IS x } }\n");
    let AstNodeKind::Node { fields, .. } = &caller.root_nodes[0].kind else {
        panic!("expected a node");
    };
    match resolve_is_bindings(&node.root_nodes[0], fields, &Vec::new()) {
        Err(ProtoError::ParseError(m)) => {
            assert_eq!(m, "PROTO expansion does not terminate")
        }
        other => panic!("expected a refusal, got {:?}", other.map(|_| ())),
    }
}

#[test]
fn long_chain_of_distinct_bindings_is_replaced() {
    let node = parse("#VRML_SIM R2025a utf8\nSolid { children IS x0 }\n");
    let mut caller = String::from("Caller {");
    for k in 0..1025 {
        caller.push_str(&format!(" x{} Group {{ children IS x{} }}", k, k + 1));
    }
    caller.push_str(" x1025 Leaf { } }");
    let caller = parse(&format!("#VRML_SIM R2025a utf8\n{}\n", caller));
    let AstNodeKind::Node { fields, .. } = &caller.root_nodes[0].kind else {
        panic!("expected a node");
    };
    let resolved = resolve_is_bindings(&node.root_nodes[0], fields, &Vec::new()).expect("replaced");
    assert_eq!(count_type(&resolved, "Group"), 1025);
    assert_eq!(count_type(&resolved, "Leaf"), 1);
}

#[test]
fn long_chain_of_nested_protos_is_inlined() {
    let mut defs = Vec::new();
    for k in 0..1025 {
        let text = format!(
            "#VRML_SIM R2025a utf8\nPROTO P{} [ ]\n{{\n  Group {{ children [ P{} {{ }} ] }}\n}}\n",
            k,
            k + 1
        );
        defs.push((format!("P{}", k), expansion_of(&text)));
    }
    let doc = parse("#VRML_SIM R2025a utf8\nP0 { }\n");
    let root = select_root_node(&doc).unwrap();
    let inlined = inline_proto_nodes(&root, &defs).expect("inlined");
    assert_eq!(count_type(&inlined, "Group"), 1025);
    assert_eq!(count_type(&inlined, "P1025"), 1);
}
