use webots_proto::ast::{AstNode, AstNodeKind, FieldValue, NodeBodyElement};
use webots_proto::conversion::{ast_node_to_json, json_to_ast_node};
use webots_proto::document::parse_text;
use webots_proto::error::{Error, ProtoError};
use webots_proto::r2025a::{unwrap_single_variant_payload, R2025aCodec};
use webots_proto::json::JsonValue;
use webots_proto::number::float_to_i64;

fn first_node(input: &str) -> AstNode {
    let mut doc = parse_text(input).expect("document should parse");
    doc.root_nodes.remove(0)
}

fn json_of(input: &str) -> String {
    let node = first_node(input);
    ast_node_to_json(&node).expect("conversion should succeed").to_json_text()
}

#[test]
fn robot_fields_become_sorted_typed_values() {
    let text = json_of(
        "#VRML_SIM R2025a utf8\nRobot {\n  name \"r\"\n  controller \"<extern>\"\n  translation 0 1 0\n  supervisor TRUE\n}\n",
    );
    assert_eq!(
        text,
        "{\"Robot\":{\"controller\":{\"Value\":\"<extern>\"},\"name\":{\"Value\":\"r\"},\"supervisor\":{\"Value\":true},\"translation\":{\"Value\":[0,1,0]}}}"
    );
}

#[test]
fn def_use_and_is_forms() {
    assert_eq!(json_of("#VRML_SIM R2025a utf8\nDEF R Robot {\n}\n"), "{\"Def\":[\"R\",{\"Robot\":{}}]}");
    assert_eq!(json_of("#VRML_SIM R2025a utf8\nUSE R\n"), "{\"Use\":\"R\"}");
    assert_eq!(
        json_of("#VRML_SIM R2025a utf8\nRobot {\n  name IS robotName\n}\n"),
        "{\"Robot\":{\"name\":{\"Is\":\"robotName\"}}}"
    );
}

#[test]
fn null_sfnode_fields_are_left_out() {
    assert_eq!(
        json_of("#VRML_SIM R2025a utf8\nRobot {\n  physics NULL\n  locked TRUE\n}\n"),
        "{\"Robot\":{\"locked\":{\"Value\":true}}}"
    );
}

#[test]
fn type_mismatches_are_serialization_errors() {
    let node = first_node("#VRML_SIM R2025a utf8\nRobot {\n  name TRUE\n}\n");
    match ast_node_to_json(&node) {
        Err(ProtoError::SerializationError(m)) => {
            assert!(m.starts_with("Expected SFString, got "), "{}", m)
        }
        other => panic!("unexpected {:?}", other),
    }
    let node = first_node("#VRML_SIM R2025a utf8\nRobot {\n  translation 1 2\n}\n");
    match ast_node_to_json(&node) {
        Err(ProtoError::SerializationError(m)) => assert_eq!(m, "Expected 3 numbers, got 2"),
        other => panic!("unexpected {:?}", other),
    }
}

#[test]
fn decimal_integer_parts() {
    assert_eq!(float_to_i64(&"2.7".to_string()), 2);
    assert_eq!(float_to_i64(&"-2.7e1".to_string()), -27);
    assert_eq!(float_to_i64(&"0.5".to_string()), 0);
    assert_eq!(float_to_i64(&"1.5e-3".to_string()), 0);
    assert_eq!(float_to_i64(&"1e30".to_string()), i64::MAX);
    assert_eq!(float_to_i64(&"-1e30".to_string()), i64::MIN);
    assert_eq!(float_to_i64(&"0e999999999999999999999999".to_string()), 0);
    assert_eq!(float_to_i64(&"12.345e2".to_string()), 1234);
}

#[test]
fn json_back_to_ast() {
    let node = first_node(
        "#VRML_SIM R2025a utf8\nDEF R Robot {\n  name \"r\"\n  translation 0 1.5 0\n  controller IS ctrl\n}\n",
    );
    let json = ast_node_to_json(&node).unwrap();
    let back = json_to_ast_node(&json).expect("JSON form should convert back");
    let AstNodeKind::Node { node_type, def_name, fields } = &back.kind else {
        panic!("expected a node");
    };
    assert_eq!(node_type, "Robot");
    assert_eq!(def_name.as_deref(), Some("R"));
    let names: Vec<&str> = fields
        .iter()
        .map(|e| match e {
            NodeBodyElement::Field(f) => f.name.as_str(),
            _ => panic!("only fields expected"),
        })
        .collect();
    assert_eq!(names, vec!["controller", "name", "translation"]);
    let NodeBodyElement::Field(c) = &fields[0] else { panic!() };
    assert_eq!(c.value, FieldValue::Is("ctrl".to_string()));
    let NodeBodyElement::Field(t) = &fields[2] else { panic!() };
    assert_eq!(
        t.value,
        FieldValue::Vec3f(["0".to_string(), "1.5".to_string(), "0".to_string()])
    );
}

#[test]
fn json_shape_errors() {
    match json_to_ast_node(&JsonValue::Null) {
        Err(ProtoError::ParseError(m)) => assert_eq!(m, "Typed node JSON value is not an object"),
        other => panic!("unexpected {:?}", other),
    }
    let bad = JsonValue::Object(vec![(
        "Robot".to_string(),
        JsonValue::Object(vec![(
            "supervisor".to_string(),
            JsonValue::Object(vec![("Value".to_string(), JsonValue::String("yes".to_string()))]),
        )]),
    )]);
    match json_to_ast_node(&bad) {
        Err(ProtoError::ParseError(m)) => assert_eq!(m, "Expected bool for SFBool, got \"yes\""),
        other => panic!("unexpected {:?}", other),
    }
}

#[test]
fn json_text_escapes() {
    let v = JsonValue::Array(vec![
        JsonValue::String("a\"b\\c\n\u{1}".to_string()),
        JsonValue::Int(-3),
        JsonValue::Null,
        JsonValue::Bool(false),
    ]);
    assert_eq!(v.to_json_text(), "[\"a\\\"b\\\\c\\n\\u0001\",-3,null,false]");
}

#[test]
fn codec_reads_the_first_root_node_of_an_r2025a_document() {
    let codec = R2025aCodec::new();
    let json = codec
        .decode_node("#VRML_SIM R2025a utf8\nRobot {\n  name \"strict_robot\"\n}\n")
        .expect("an R2025a document decodes");
    assert_eq!(json.to_json_text(), "{\"Robot\":{\"name\":{\"Value\":\"strict_robot\"}}}");
}

#[test]
fn codec_refuses_other_headers_and_missing_ones() {
    let codec = R2025aCodec::new();
    match codec.decode_node("#VRML_SIM R2023b utf8\nRobot {\n  name \"old_robot\"\n}\n") {
        Err(Error::Deserialization(m)) => assert_eq!(m, "Unsupported header: #VRML_SIM R2023b utf8"),
        other => panic!("unexpected {:?}", other),
    }
    match codec.decode_node("\nRobot {\n  name \"no_header\"\n}\n") {
        Err(Error::Deserialization(m)) => assert_eq!(m, "Missing VRML header"),
        other => panic!("unexpected {:?}", other),
    }
    match codec.decode_node("#VRML_SIM R2025a utf8\n") {
        Err(Error::Deserialization(m)) => assert_eq!(m, "Document has no root node"),
        other => panic!("unexpected {:?}", other),
    }
}

#[test]
fn codec_writes_a_header_and_the_node() {
    let node = first_node("#VRML_SIM R2025a utf8\nRobot {\n  name \"test_robot\"\n}\n");
    let text = R2025aCodec::new().encode_root(node);
    assert!(text.starts_with("#VRML_SIM R2025a utf8"), "{}", text);
    assert!(text.contains("Robot {"), "{}", text);
}

#[test]
fn single_variant_payloads() {
    let v = JsonValue::Object(vec![("Robot".to_string(), JsonValue::Int(1))]);
    assert_eq!(unwrap_single_variant_payload(v).unwrap(), JsonValue::Int(1));
    assert!(unwrap_single_variant_payload(JsonValue::Null).is_err());
    assert!(unwrap_single_variant_payload(JsonValue::Object(vec![])).is_err());
}

#[test]
fn json_strings_are_written_as_serde_json_writes_them() {
    for s in ["", "plain", "q\"b\\s/", "tab\tnl\ncr\rff\u{c}bs\u{8}", "\u{1}\u{1f}\u{7f}", "caf\u{e9} \u{1F600}"] {
        let v = JsonValue::String(s.to_string());
        assert_eq!(v.to_json_text(), serde_json::to_string(s).unwrap());
        let o = JsonValue::Object(vec![(s.to_string(), JsonValue::Null)]);
        assert_eq!(o.to_json_text(), format!("{{{}:null}}", serde_json::to_string(s).unwrap()));
    }
}
