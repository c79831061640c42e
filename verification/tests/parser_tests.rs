use webots_proto::ast::{FieldValue, ProtoBodyItem};
use webots_proto::document::parse_text;
use webots_proto::parser::Parser;

#[test]
fn test_parse_constrained_sfstring_field() {
    let input = r#"#VRML_SIM R2025a utf8
PROTO Sample [
  field SFString{"adult", "kid"} size "adult"
] {
  Robot {
    name "example"
  }
}
"#;
    let mut parser = Parser::new(input);
    let doc = parser
        .parse_document()
        .expect("Failed to parse constrained SFString field");

    let proto = doc.proto.as_ref().expect("Proto definition missing");
    assert_eq!(proto.fields.len(), 1);
    assert_eq!(proto.fields[0].name, "size");
}

#[test]
fn test_parse_externproto_webots_url() {
    let input = r#"#VRML_SIM R2025a utf8
EXTERNPROTO "webots://projects/appearances/protos/Grass.proto"

PROTO Sample [
  field SFString name "example"
] {
  Robot {
    name IS name
  }
}
"#;
    let mut parser = Parser::new(input);
    let doc = parser
        .parse_document()
        .expect("Failed to parse EXTERNPROTO with webots URL");

    assert_eq!(doc.externprotos.len(), 1);
    assert_eq!(
        doc.externprotos[0].url,
        "webots://projects/appearances/protos/Grass.proto"
    );
}

#[test]
fn test_parse_world_after_externproto_block() {
    let input = r#"#VRML_SIM R2025a utf8

EXTERNPROTO "https://raw.githubusercontent.com/cyberbotics/webots/R2025a/projects/objects/floors/protos/RectangleArena.proto"
EXTERNPROTO "https://raw.githubusercontent.com/cyberbotics/webots/R2025a/projects/appearances/protos/Parquetry.proto"
EXTERNPROTO "https://raw.githubusercontent.com/cyberbotics/webots/R2025a/projects/objects/backgrounds/protos/TexturedBackground.proto"
EXTERNPROTO "https://raw.githubusercontent.com/cyberbotics/webots/R2025a/projects/objects/backgrounds/protos/TexturedBackgroundLight.proto"

WorldInfo {
  basicTimeStep 12
  contactProperties [
    ContactProperties {
      material1 "wheel_rubber"
      material2 "asphalt"
    }
  ]
}
Viewpoint {
  orientation 0 0 1 0
  position 0 0 1
}
"#;
    let mut parser = Parser::new(input);
    let doc = parser
        .parse_document()
        .expect("Failed to parse world after EXTERNPROTO block");

    assert_eq!(doc.externprotos.len(), 4);
    assert_eq!(doc.root_nodes.len(), 2);
    assert_eq!(
        doc.externprotos[3].url,
        "https://raw.githubusercontent.com/cyberbotics/webots/R2025a/projects/objects/backgrounds/protos/TexturedBackgroundLight.proto"
    );
}

#[test]
fn test_lossless_round_trip_constrained_field_restrictions() {
    let input = r#"#VRML_SIM R2025a utf8
PROTO Sample [
  field SFString { "adult", "kid" } size "adult"
] {
  Robot {
    name "example"
  }
}
"#;
    let mut parser = Parser::new(input);
    let document = parser
        .parse_document()
        .expect("Failed to parse constrained field");

    let output = document
        .to_lossless_string()
        .expect("failed to write lossless");

    let normalized = output.split_whitespace().collect::<String>();
    assert!(normalized.contains("SFString"));
    assert!(normalized.contains("{\"adult\",\"kid\"}"));
}

#[test]
fn importable_externproto_parses_and_canonical_round_trips() {
    let src = "IMPORTABLE EXTERNPROTO \"Robot.proto\"\n";
    let doc = Parser::new(src).parse_document().expect("parse");

    assert_eq!(doc.externprotos.len(), 1);
    let ep = &doc.externprotos[0];
    assert!(ep.importable, "IMPORTABLE keyword sets the importable flag");
    assert_eq!(ep.url, "Robot.proto");

    let canonical = doc.to_canonical_string().expect("canonical");
    assert!(
        canonical.contains("IMPORTABLE EXTERNPROTO \"Robot.proto\""),
        "canonical output should keep IMPORTABLE: {canonical}"
    );

    let reparsed = Parser::new(&canonical).parse_document().expect("reparse");
    assert!(reparsed.externprotos[0].importable);
}

#[test]
fn plain_externproto_is_not_importable() {
    let src = "EXTERNPROTO \"Robot.proto\"\n";
    let doc = Parser::new(src).parse_document().expect("parse");

    assert!(!doc.externprotos[0].importable);
    let canonical = doc.to_canonical_string().expect("canonical");
    assert!(
        !canonical.contains("IMPORTABLE"),
        "a plain EXTERNPROTO must not gain IMPORTABLE: {canonical}"
    );
}

#[test]
fn importable_and_plain_externprotos_coexist_in_one_document() {
    let src = "EXTERNPROTO \"Arena.proto\"\nIMPORTABLE EXTERNPROTO \"Robot.proto\"\n";
    let doc = Parser::new(src).parse_document().expect("parse");

    assert_eq!(doc.externprotos.len(), 2);
    assert!(!doc.externprotos[0].importable, "Arena is a plain EXTERNPROTO");
    assert!(doc.externprotos[1].importable, "Robot is IMPORTABLE");
}

#[test]
fn lossless_output_is_the_input() {
    let input = "#VRML_SIM R2025a utf8\n# a comment\nPROTO P [\n  field SFFloat mass 1.5\n]\n{\n  %< const x = 1; >%\n  Solid { name \"s\" }\n}\n";
    let doc = parse_text(input).expect("parse");
    assert_eq!(doc.to_lossless_string().expect("lossless"), input);
}

#[test]
fn header_fields_and_span() {
    let input = "\n  #VRML_SIM R2025a utf8\nGroup {}\n";
    let doc = parse_text(input).expect("parse");
    let h = doc.header.expect("header");
    assert_eq!(h.version, "R2025a");
    assert_eq!(h.encoding, "utf8");
    assert_eq!(h.raw.as_deref(), Some("#VRML_SIM R2025a utf8"));
    assert_eq!(h.span.start, 3);
    assert_eq!(h.span.start_line, 2);
    assert_eq!(h.span.start_col, 3);
    assert_eq!(h.span.end, 24);
    assert_eq!(h.span.end_col, 24);
}

#[test]
fn no_header_when_first_line_is_not_one() {
    let doc = parse_text("Group {}\n#VRML_SIM R2025a utf8\n").expect("parse");
    assert!(doc.header.is_none());
}

#[test]
fn number_sequences_and_arrays() {
    let input = "Transform { translation 0 -1 2.5 children [ 1 2 ] }";
    let doc = parse_text(input).expect("parse");
    assert_eq!(doc.root_nodes.len(), 1);
    let node = &doc.root_nodes[0];
    match &node.kind {
        webots_proto::ast::AstNodeKind::Node { node_type, fields, .. } => {
            assert_eq!(node_type, "Transform");
            assert_eq!(fields.len(), 2);
            match &fields[0] {
                webots_proto::ast::NodeBodyElement::Field(f) => {
                    assert_eq!(f.name, "translation");
                    match &f.value {
                        FieldValue::NumberSequence(s) => {
                            assert_eq!(s.elements.len(), 3);
                            assert_eq!(s.elements[1].value, FieldValue::Int(-1, Some("-1".to_string())));
                            assert_eq!(
                                s.elements[2].value,
                                FieldValue::Float("2.5".to_string(), Some("2.5".to_string()))
                            );
                        }
                        other => panic!("unexpected {other:?}"),
                    }
                }
                other => panic!("unexpected {other:?}"),
            }
            match &fields[1] {
                webots_proto::ast::NodeBodyElement::Field(f) => match &f.value {
                    FieldValue::Array(a) => assert_eq!(a.elements.len(), 2),
                    other => panic!("unexpected {other:?}"),
                },
                other => panic!("unexpected {other:?}"),
            }
        }
        other => panic!("unexpected {other:?}"),
    }
}

#[test]
fn syntax_error_reports_position_and_message() {
    let err = parse_text("Group {\n  children [ Box { ").err().expect("must fail");
    match err {
        webots_proto::error::Error::Syntax { line, col, message } => {
            assert_eq!(line, 2);
            assert_eq!(col, 20);
            assert!(message.starts_with("Expected CloseBrace"), "{message}");
        }
        other => panic!("unexpected {other:?}"),
    }
}

#[test]
fn second_proto_is_rejected() {
    let err = parse_text("PROTO A [] { Group {} }\nPROTO B [] { Group {} }")
        .err()
        .expect("must fail");
    match err {
        webots_proto::error::Error::Syntax { message, line, .. } => {
            assert_eq!(message, "Unexpected second PROTO definition");
            assert_eq!(line, 2);
        }
        other => panic!("unexpected {other:?}"),
    }
}

#[test]
fn def_followed_by_use_is_rejected() {
    let err = parse_text("DEF A USE B").err().expect("must fail");
    match err {
        webots_proto::error::Error::Syntax { message, .. } => {
            assert_eq!(message, "DEF cannot be followed by USE")
        }
        other => panic!("unexpected {other:?}"),
    }
}

#[test]
fn template_blocks_in_proto_body() {
    let doc = parse_text("PROTO T [] {\n %<= 1 + 2 >% Group {} }").expect("parse");
    let proto = doc.proto.expect("proto");
    assert_eq!(proto.body.len(), 2);
    match &proto.body[0] {
        ProtoBodyItem::Template(t) => {
            assert!(t.is_expression);
            assert_eq!(t.content, " 1 + 2 ");
        }
        _ => panic!("expected a template"),
    }
}

#[test]
fn from_text_reports_parse_errors() {
    let r = webots_proto::ast::Proto::from_text("Group {");
    assert!(matches!(r, Err(webots_proto::error::ProtoError::ParseError(_))));
    let ok: webots_proto::ast::Proto = "Group {}".parse().expect("parse");
    assert_eq!(ok.root_nodes.len(), 1);
}

#[test]
fn extern_alias_on_same_line() {
    let doc = parse_text("EXTERNPROTO \"a.proto\" Alias\nEXTERNPROTO \"b.proto\"\nRobot {}").expect("parse");
    assert_eq!(doc.externprotos.len(), 2);
    assert_eq!(doc.externprotos[0].alias.as_deref(), Some("Alias"));
    assert_eq!(doc.externprotos[1].alias, None);
    assert_eq!(doc.root_nodes.len(), 1);
}

#[test]
fn parse_body_reads_items_up_to_the_end_and_stays_there() {
    let mut parser = Parser::new("Group { } %< x >% Shape { }");
    let items = parser.parse_body().expect("body items");
    assert_eq!(items.len(), 3);
    assert!(matches!(items[0], ProtoBodyItem::Node(_)));
    assert!(matches!(items[1], ProtoBodyItem::Template(_)));
    assert!(matches!(items[2], ProtoBodyItem::Node(_)));
    let again = parser.parse_body().expect("nothing left");
    assert!(again.is_empty());
}

#[test]
fn parse_body_stops_at_a_closing_brace() {
    let mut parser = Parser::new("Group { } } Shape { }");
    let items = parser.parse_body().expect("body items");
    assert_eq!(items.len(), 1);
}

#[test]
fn parse_body_reports_a_bad_node() {
    let mut parser = Parser::new("DEF A USE B");
    assert!(parser.parse_body().is_err());
}
