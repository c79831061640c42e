use webots_proto::document::parse_text;
use webots_proto::writer::ProtoWriter;

#[test]
fn canonical_layout_of_a_world() {
    let input = "#VRML_SIM R2025a utf8\nEXTERNPROTO \"a.proto\"\nRobot { name \"r\\\"1\" children [ Solid { translation 1 -2 3 } ] controllerArgs [\"x\" \"y\"] }";
    let doc = parse_text(input).expect("parse");
    let text = doc.to_canonical_string().expect("canonical");
    let expected = "#VRML_SIM R2025a utf8\nEXTERNPROTO \"a.proto\"\nRobot {\n  name \"r\\\"1\"\n  children [\n    Solid {\n      translation 1 -2 3\n    }\n  ]\n  controllerArgs [\"x\", \"y\"]\n}";
    assert_eq!(text, expected);
}

#[test]
fn canonical_proto_definition() {
    let input = "PROTO P [ field SFBool on TRUE hiddenField MFInt32 ids [] ] { %< x >% Group { children [] } }";
    let doc = parse_text(input).expect("parse");
    let text = ProtoWriter::new().write_canonical(&doc);
    let expected = "PROTO P [\n  field SFBool on TRUE\n  hiddenField MFInt32 ids []\n]\n{\n  %< x >%\n  Group {\n    children []\n  }\n}";
    assert_eq!(text, expected);
}

#[test]
fn lossless_falls_back_to_canonical() {
    let mut doc = parse_text("Group { }").expect("parse");
    doc.source_content = None;
    let text = doc.to_lossless_string().expect("lossless");
    assert_eq!(text, "Group {\n}");
}

#[test]
fn integers_are_written_in_decimal() {
    let doc = parse_text("Solid { mass +007 x -9223372036854775808 }").expect("parse");
    let text = doc.to_canonical_string().expect("canonical");
    assert_eq!(text, "Solid {\n  mass 7\n  x -9223372036854775808\n}");
}

#[test]
fn write_template_and_node() {
    let doc = parse_text("PROTO P [] { %<= a >% USE X }").expect("parse");
    let proto = doc.proto.expect("proto");
    let writer = ProtoWriter::new();
    let mut out = String::new();
    match &proto.body[0] {
        webots_proto::ast::ProtoBodyItem::Template(t) => writer.write_template(&mut out, t).expect("write"),
        _ => panic!("expected a template"),
    }
    match &proto.body[1] {
        webots_proto::ast::ProtoBodyItem::Node(n) => writer.write_node(&mut out, n).expect("write"),
        _ => panic!("expected a node"),
    }
    assert_eq!(out, "%<= a >%USE X");
}

#[test]
fn field_type_names() {
    let writer = ProtoWriter::new();
    assert_eq!(writer.field_type_name(&webots_proto::ast::FieldType::MFVec3f), "MFVec3f");
    assert_eq!(
        writer.field_type_name(&webots_proto::ast::FieldType::Unknown("SFWhatever".to_string())),
        "SFWhatever"
    );
}
