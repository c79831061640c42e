use webots_proto::ast::{
    AstNode, AstNodeKind, ExternProto, FieldKeyword, FieldType, FieldValue, Header, Proto,
    ProtoBodyItem, ProtoDefinition, ProtoField, Span, TemplateBlock,
};
use webots_proto::diagnostics::{Diagnostic, DiagnosticSet, Severity};
use webots_proto::document::parse_text;
use webots_proto::r2025a::Controller;

fn single_field_default(text: &str) -> (String, FieldType, Option<FieldValue>, FieldKeyword) {
    let doc = parse_text(text).expect("parse");
    let canonical = doc.to_canonical_string().expect("canonical");
    let back = parse_text(&canonical).expect("parse canonical");
    let proto = back.proto.expect("proto");
    assert_eq!(proto.name, "Test");
    assert_eq!(proto.fields.len(), 1);
    let f = proto.fields.into_iter().next().unwrap();
    (f.name, f.field_type, f.default_value, f.keyword)
}

#[test]
fn bool_field_default_reads_back() {
    let (name, ty, value, kw) = single_field_default("PROTO Test [ field SFBool testVal TRUE ] { }");
    assert_eq!(name, "testVal");
    assert_eq!(ty, FieldType::SFBool);
    assert_eq!(value, Some(FieldValue::Bool(true)));
    assert_eq!(kw, FieldKeyword::Field);
    let (_, _, value, _) = single_field_default("PROTO Test [ field SFBool testVal FALSE ] { }");
    assert_eq!(value, Some(FieldValue::Bool(false)));
}

#[test]
fn string_field_default_reads_back() {
    let (_, ty, value, _) = single_field_default("PROTO Test [ field SFString testVal \"hello world\" ] { }");
    assert_eq!(ty, FieldType::SFString);
    assert_eq!(value, Some(FieldValue::String("hello world".to_string())));
}

#[test]
fn canonical_text_of_a_single_field_proto() {
    let doc = parse_text("PROTO Test [ field SFBool testVal TRUE ] { }").expect("parse");
    assert_eq!(
        doc.to_canonical_string().expect("canonical"),
        "PROTO Test [\n  field SFBool testVal TRUE\n]\n{\n}"
    );
}

#[test]
fn externproto_url_reads_back() {
    let doc = parse_text("EXTERNPROTO \"https://example.com/protos/Arm.proto\"").expect("parse");
    let canonical = doc.to_canonical_string().expect("canonical");
    assert_eq!(canonical, "EXTERNPROTO \"https://example.com/protos/Arm.proto\"");
    let back = parse_text(&canonical).expect("parse canonical");
    assert_eq!(back.externprotos.len(), 1);
    assert_eq!(back.externprotos[0].url, "https://example.com/protos/Arm.proto");
    assert!(back.header.is_none());
    assert!(back.proto.is_none());
    assert!(back.root_nodes.is_empty());
}

#[test]
fn lossless_text_is_the_source() {
    let input = "#VRML_SIM R2025a utf8\n# comment\nRobot {  name   \"r\" }\n";
    let doc = parse_text(input).expect("parse");
    assert_eq!(doc.to_lossless_string().expect("lossless"), input);
    let again = parse_text(&doc.to_lossless_string().unwrap()).expect("parse again");
    assert_eq!(again.to_lossless_string().unwrap(), input);
}

#[test]
fn controller_text_round_trip() {
    for c in [Controller::NoController, Controller::Generic, Controller::Specific("my_ctrl".to_string())] {
        let text = c.as_text();
        assert_eq!(Controller::from_text(&text), c);
    }
}

#[test]
fn default_node_is_an_empty_group() {
    let node = AstNode::default();
    match node.kind {
        AstNodeKind::Node { node_type, def_name, fields } => {
            assert_eq!(node_type, "Group");
            assert!(def_name.is_none());
            assert!(fields.is_empty());
        }
        AstNodeKind::Use { .. } => panic!("expected a node"),
    }
    assert_eq!(node.span, Span::zero());
}

#[test]
fn node_converts_into_a_field_value() {
    let value: FieldValue = AstNode::default().into();
    match value {
        FieldValue::Node(n) => assert_eq!(*n, AstNode::default()),
        _ => panic!("expected a node value"),
    }
}

#[test]
fn diagnostic_set_into_vec_keeps_order() {
    let mut set = DiagnosticSet::new();
    set.add(Diagnostic {
        span: Span::zero(),
        severity: Severity::Warning,
        message: "first".to_string(),
        suggestion: None,
    });
    set.add(Diagnostic {
        span: Span::zero(),
        severity: Severity::Error,
        message: "second".to_string(),
        suggestion: Some("fix".to_string()),
    });
    assert!(set.has_errors());
    let v = set.into_vec();
    assert_eq!(v.len(), 2);
    assert_eq!(v[0].message, "first");
    assert_eq!(v[1].message, "second");
}

#[test]
fn test_manual_ast_construction() {
    let span = Span::default();

    let header = Header::new("R2025a".to_string(), "utf8".to_string(), None, span.clone());

    let extern_proto = ExternProto::new("PedestrianTorso.proto".to_string(), None, span.clone());

    let translation_field = ProtoField::new(
        "translation".to_string(),
        FieldType::SFVec3f,
        FieldKeyword::Field,
        span.clone(),
    )
    .with_default_value(FieldValue::Vec3f(["0.0".to_string(), "0.0".to_string(), "1.27".to_string()]));

    let rotation_field = ProtoField::new(
        "rotation".to_string(),
        FieldType::SFRotation,
        FieldKeyword::Field,
        span.clone(),
    )
    .with_default_value(FieldValue::Rotation([
        "0.0".to_string(),
        "0.0".to_string(),
        "1.0".to_string(),
        "0.0".to_string(),
    ]));

    let template_statement = ProtoBodyItem::Template(TemplateBlock::new(
        " const rigid = fields.controllerArgs.value.length == 0; ".to_string(),
        false,
        span.clone(),
    ));

    let robot_node = AstNode::new(
        AstNodeKind::Node { node_type: "Robot".to_string(), def_name: None, fields: vec![] },
        span.clone(),
    );

    let proto_def = ProtoDefinition::new("Pedestrian".to_string(), span.clone())
        .with_fields(vec![translation_field, rotation_field])
        .with_body(vec![template_statement, ProtoBodyItem::Node(robot_node)]);

    let document = Proto::new()
        .with_header(header)
        .with_externprotos(vec![extern_proto])
        .with_proto(proto_def);

    assert_eq!(document.header.as_ref().unwrap().version, "R2025a");
    assert_eq!(document.externprotos.len(), 1);
    assert_eq!(document.externprotos[0].url, "PedestrianTorso.proto");

    let proto = document.proto.as_ref().unwrap();
    assert_eq!(proto.name, "Pedestrian");
    assert_eq!(proto.fields.len(), 2);
    assert_eq!(proto.fields[0].name, "translation");
    if let Some(FieldValue::Vec3f(val)) = &proto.fields[0].default_value {
        assert_eq!(*val, ["0.0".to_string(), "0.0".to_string(), "1.27".to_string()]);
    } else {
        panic!("Expected Vec3f default value");
    }

    assert_eq!(proto.body.len(), 2);
    if let ProtoBodyItem::Template(block) = &proto.body[0] {
        assert_eq!(block.content, " const rigid = fields.controllerArgs.value.length == 0; ");
        assert!(!block.is_expression);
    } else {
        panic!("Expected TemplateBlock");
    }
}

fn single_number(value: Option<FieldValue>) -> FieldValue {
    match value {
        Some(FieldValue::NumberSequence(seq)) => {
            assert_eq!(seq.elements.len(), 1);
            seq.elements.into_iter().next().unwrap().value
        }
        other => panic!("expected a number sequence, got {:?}", other),
    }
}

#[test]
fn int_field_default_reads_back() {
    let (_, ty, value, _) = single_field_default("PROTO Test [ field SFInt32 testVal -42 ] { }");
    assert_eq!(ty, FieldType::SFInt32);
    assert_eq!(single_number(value), FieldValue::Int(-42, Some("-42".to_string())));
    let (_, _, value, _) =
        single_field_default("PROTO Test [ field SFInt32 testVal -9223372036854775808 ] { }");
    assert_eq!(
        single_number(value),
        FieldValue::Int(i64::MIN, Some("-9223372036854775808".to_string()))
    );
}

#[test]
fn float_field_default_reads_back() {
    let (_, ty, value, _) = single_field_default("PROTO Test [ field SFFloat testVal 1.25 ] { }");
    assert_eq!(ty, FieldType::SFFloat);
    assert_eq!(
        single_number(value),
        FieldValue::Float("1.25".to_string(), Some("1.25".to_string()))
    );
}

#[test]
fn built_int_default_reads_back() {
    let field = ProtoField::new("testVal".to_string(), FieldType::SFInt32, FieldKeyword::Field, Span::zero())
        .with_default_value(FieldValue::Int(7, None));
    let doc = Proto::new().with_proto(
        ProtoDefinition::new("Test".to_string(), Span::zero()).with_fields(vec![field]),
    );
    let text = doc.to_lossless_string().expect("lossless");
    assert_eq!(text, "PROTO Test [\n  field SFInt32 testVal 7\n]\n{\n}");
    let back = parse_text(&text).expect("parse");
    let f = back.proto.unwrap().fields.into_iter().next().unwrap();
    assert_eq!(single_number(f.default_value), FieldValue::Int(7, Some("7".to_string())));
}

#[test]
fn vector_defaults_read_back_as_number_sequences() {
    let (_, ty, value, _) =
        single_field_default("PROTO Test [ field SFVec3f testVal 0.0 -1 1.27 ] { }");
    assert_eq!(ty, FieldType::SFVec3f);
    match value {
        Some(FieldValue::NumberSequence(seq)) => {
            let values: Vec<FieldValue> = seq.elements.into_iter().map(|e| e.value).collect();
            assert_eq!(
                values,
                vec![
                    FieldValue::Float("0.0".to_string(), Some("0.0".to_string())),
                    FieldValue::Int(-1, Some("-1".to_string())),
                    FieldValue::Float("1.27".to_string(), Some("1.27".to_string())),
                ]
            );
        }
        other => panic!("expected a number sequence, got {:?}", other),
    }
}

#[test]
fn built_rotation_default_reads_back() {
    let field = ProtoField::new("testVal".to_string(), FieldType::SFRotation, FieldKeyword::Field, Span::zero())
        .with_default_value(FieldValue::Rotation([
            "0".to_string(),
            "0".to_string(),
            "1".to_string(),
            "1.5708".to_string(),
        ]));
    let doc = Proto::new().with_proto(
        ProtoDefinition::new("Test".to_string(), Span::zero()).with_fields(vec![field]),
    );
    let text = doc.to_canonical_string().expect("canonical");
    assert_eq!(text, "PROTO Test [\n  field SFRotation testVal 0 0 1 1.5708\n]\n{\n}");
    let back = parse_text(&text).expect("parse");
    let f = back.proto.unwrap().fields.into_iter().next().unwrap();
    match f.default_value {
        Some(FieldValue::NumberSequence(seq)) => {
            assert_eq!(seq.elements.len(), 4);
            assert_eq!(seq.elements[2].value, FieldValue::Int(1, Some("1".to_string())));
            assert_eq!(
                seq.elements[3].value,
                FieldValue::Float("1.5708".to_string(), Some("1.5708".to_string()))
            );
        }
        other => panic!("expected a number sequence, got {:?}", other),
    }
}

#[test]
fn several_declarations_read_back_in_order() {
    let src = "EXTERNPROTO \"Arena.proto\"\nIMPORTABLE EXTERNPROTO \"Robot.proto\"\nIMPORTABLE EXTERNPROTO \"https://x.org/Arm.proto\"\n";
    let doc = parse_text(src).expect("parse");
    let canonical = doc.to_canonical_string().expect("canonical");
    assert_eq!(
        canonical,
        "EXTERNPROTO \"Arena.proto\"\nIMPORTABLE EXTERNPROTO \"Robot.proto\"\nIMPORTABLE EXTERNPROTO \"https://x.org/Arm.proto\""
    );
    let back = parse_text(&canonical).expect("reparse");
    let got: Vec<(String, bool, bool)> = back
        .externprotos
        .iter()
        .map(|e| (e.url.clone(), e.importable, e.alias.is_none()))
        .collect();
    assert_eq!(
        got,
        vec![
            ("Arena.proto".to_string(), false, true),
            ("Robot.proto".to_string(), true, true),
            ("https://x.org/Arm.proto".to_string(), true, true),
        ]
    );
    assert!(back.proto.is_none());
    assert!(back.root_nodes.is_empty());
}

#[test]
fn declaration_alias_reads_back() {
    let src = "EXTERNPROTO \"a.proto\" ArmAlias\nIMPORTABLE EXTERNPROTO \"b.proto\"\n";
    let doc = parse_text(src).expect("parse");
    assert_eq!(doc.externprotos[0].alias.as_deref(), Some("ArmAlias"));
    let canonical = doc.to_canonical_string().expect("canonical");
    assert_eq!(canonical, "EXTERNPROTO \"a.proto\" ArmAlias\nIMPORTABLE EXTERNPROTO \"b.proto\"");
    let back = parse_text(&canonical).expect("reparse");
    assert_eq!(back.externprotos.len(), 2);
    assert_eq!(back.externprotos[0].alias.as_deref(), Some("ArmAlias"));
    assert!(back.externprotos[1].alias.is_none());
    assert!(back.externprotos[1].importable);
}
