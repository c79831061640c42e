use webots_proto::ast::{
    AstNodeKind, FieldKeyword, FieldType, FieldValue, Proto, ProtoDefinition, ProtoField, Span,
};
use webots_proto::diagnostics::{Diagnostic, DiagnosticSet, Severity};
use webots_proto::parser::Parser;
use webots_proto::r2025a::{Controller, FogType, LinearMotor, RotationalMotor};
use webots_proto::schema::{get_builtin_schema, to_webots_field_name};
use webots_proto::validation::{
    find_closest_match, levenshtein_distance, validate, validate_runtime_semantics,
    ValidationContext,
};

#[test]
fn test_default_sounds() {
    assert!(RotationalMotor::default_sound().contains("rotational_motor.wav"));
    assert!(LinearMotor::default_sound().contains("linear_motor.wav"));
}

#[test]
fn test_validate_wrong_field_type() {
    let input = r#"#VRML_SIM R2025a utf8
Robot {
  name 123
}
"#;
    let mut parser = Parser::new(input);
    let doc = parser.parse_document().unwrap();
    let diagnostics = validate(&doc);

    assert!(diagnostics.has_errors());
    let errors: Vec<_> = diagnostics
        .iter()
        .filter(|d| d.severity == Severity::Error)
        .collect();
    for err in &errors {
        println!("Error: {}", err.message);
    }
    assert!(!errors.is_empty());
    assert!(errors.iter().any(|e| e.message.contains("Type mismatch")));
}

#[test]
fn test_validate_unknown_field() {
    let input = r#"#VRML_SIM R2025a utf8
Robot {
    unknownField "value"
}
"#;
    let mut parser = Parser::new(input);
    let doc = parser.parse_document().unwrap();
    let diagnostics = validate(&doc);

    let warnings: Vec<_> = diagnostics
        .iter()
        .filter(|d| d.severity == Severity::Warning)
        .collect();
    assert!(!warnings.is_empty());
    assert!(warnings[0].message.contains("Unknown field"));
}

#[test]
fn test_validate_unknown_node() {
    let input = r#"#VRML_SIM R2025a utf8
UnknownNode {
}
"#;
    let mut parser = Parser::new(input);
    let doc = parser.parse_document().unwrap();
    let diagnostics = validate(&doc);

    let warnings: Vec<_> = diagnostics
        .iter()
        .filter(|d| d.severity == Severity::Warning)
        .collect();
    assert!(!warnings.is_empty());
    assert!(warnings[0].message.contains("Unknown node type"));
}

#[test]
fn test_validate_undefined_is_binding() {
    let input = r#"#VRML_SIM R2025a utf8
PROTO MyProto [
] {
  Robot {
    name IS myName
  }
}
"#;
    let mut parser = Parser::new(input);
    let doc = parser.parse_document().unwrap();
    let diagnostics = validate(&doc);

    assert!(diagnostics.has_errors());
    let errors: Vec<_> = diagnostics
        .iter()
        .filter(|d| d.severity == Severity::Error)
        .collect();
    assert!(
        errors
            .iter()
            .any(|e| e.message.contains("Undefined IS reference"))
    );
}

#[test]
fn test_validate_valid_proto() {
    let input = r#"#VRML_SIM R2025a utf8
PROTO MyProto [
  field SFString name "my_robot"
] {
  Robot {
    name IS name
  }
}
"#;
    let mut parser = Parser::new(input);
    let doc = parser.parse_document().unwrap();
    let diagnostics = validate(&doc);

    assert!(!diagnostics.has_errors());
}

#[test]
fn test_validate_vec3f_sequence() {
    let input = r#"#VRML_SIM R2025a utf8
Robot {
    translation 1 0 0
}
"#;
    let mut parser = Parser::new(input);
    let doc = parser.parse_document().unwrap();
    let diagnostics = validate(&doc);

    assert!(!diagnostics.has_errors());
}

#[test]
fn test_validate_invalid_vec3f_sequence() {
    let input = r#"#VRML_SIM R2025a utf8
Robot {
    translation 1 0
}
"#;
    let mut parser = Parser::new(input);
    let doc = parser.parse_document().unwrap();
    let diagnostics = validate(&doc);

    assert!(diagnostics.has_errors());
    let errors: Vec<_> = diagnostics
        .iter()
        .filter(|d| d.severity == Severity::Error)
        .collect();
    assert!(errors[0].message.contains("Invalid number sequence length"));
}

#[test]
fn test_validate_invalid_use() {
    let input = r#"#VRML_SIM R2025a utf8
Group {
    children [
        USE MY_NODE
    ]
}
"#;
    let mut parser = Parser::new(input);
    let doc = parser.parse_document().unwrap();
    let diagnostics = validate(&doc);

    assert!(diagnostics.has_errors());
    let errors: Vec<_> = diagnostics
        .iter()
        .filter(|d| d.severity == Severity::Error)
        .collect();
    assert!(
        errors
            .iter()
            .any(|e| e.message.contains("Undefined USE reference"))
    );
}

#[test]
fn test_validate_valid_def_use() {
    let input = r#"#VRML_SIM R2025a utf8
Group {
    children [
        DEF MY_NODE Shape {
        }
        USE MY_NODE
    ]
}
"#;
    let mut parser = Parser::new(input);
    let doc = parser.parse_document().unwrap();
    let diagnostics = validate(&doc);

    let errors: Vec<_> = diagnostics
        .iter()
        .filter(|d| d.severity == Severity::Error)
        .collect();
    if !errors.is_empty() {
        let msg = errors
            .iter()
            .map(|e| format!("{} at {:?}", e.message, e.span))
            .collect::<Vec<_>>()
            .join("\n");
        panic!("Validation failed:\n{}", msg);
    }
}

#[test]
fn test_validate_restrictions_enforced() {
    let input = r#"#VRML_SIM R2025a utf8
PROTO Sample [
  field SFString { "adult", "kid" } size "baby"
] {
  Robot {
    name IS size
  }
}
"#;
    let mut parser = Parser::new(input);
    let doc = parser.parse_document().unwrap();
    let diagnostics = validate(&doc);

    assert!(diagnostics.has_errors());
    let errors: Vec<_> = diagnostics
        .iter()
        .filter(|d| d.severity == Severity::Error)
        .collect();
    assert!(
        errors
            .iter()
            .any(|e| e.message.contains("restriction") || e.message.contains("restrictions"))
    );
}

#[test]
fn test_validate_camel_case_fields() {
    let input = r#"#VRML_SIM R2025a utf8
Robot {
    controllerArgs ["arg1" "arg2"]
    customData "payload"
}
"#;
    let mut parser = Parser::new(input);
    let doc = parser.parse_document().unwrap();
    let diagnostics = validate(&doc);

    let warnings: Vec<_> = diagnostics
        .iter()
        .filter(|d| d.severity == Severity::Warning)
        .collect();
    assert!(warnings.is_empty());
}

#[test]
fn test_warns_when_solid_physics_has_no_inertia_source() {
    let input = r#"#VRML_SIM R2025a utf8
Solid {
  physics Physics {
    mass 1
  }
}
"#;
    let mut parser = Parser::new(input);
    let doc = parser.parse_document().unwrap();
    let diagnostics = validate(&doc);

    let warnings: Vec<_> = diagnostics
        .iter()
        .filter(|d| d.severity == Severity::Warning)
        .collect();
    assert!(
        warnings
            .iter()
            .any(|w| w.message.contains("Undefined inertia matrix"))
    );
}

#[test]
fn test_does_not_warn_when_solid_has_bounding_object() {
    let input = r#"#VRML_SIM R2025a utf8
Solid {
  boundingObject Box {
    size 1 1 1
  }
  physics Physics {
    mass 1
  }
}
"#;
    let mut parser = Parser::new(input);
    let doc = parser.parse_document().unwrap();
    let diagnostics = validate(&doc);

    let warnings: Vec<_> = diagnostics
        .iter()
        .filter(|d| d.severity == Severity::Warning)
        .collect();
    assert!(
        !warnings
            .iter()
            .any(|w| w.message.contains("Undefined inertia matrix"))
    );
}

#[test]
fn test_warns_on_duplicate_default_sibling_solid_names() {
    let input = r#"#VRML_SIM R2025a utf8
Solid {
  children [
    HingeJoint {
      endPoint Solid {
      }
    }
    HingeJoint {
      endPoint Solid {
      }
    }
  ]
}
"#;
    let mut parser = Parser::new(input);
    let doc = parser.parse_document().unwrap();
    let diagnostics = validate(&doc);

    let warnings: Vec<_> = diagnostics
        .iter()
        .filter(|d| d.severity == Severity::Warning)
        .collect();
    assert!(
        warnings
            .iter()
            .any(|w| w.message.contains("unique among sibling Solid nodes"))
    );
}

#[test]
fn missing_header_and_bad_version() {
    let doc = Parser::new("Group {}").parse_document().unwrap();
    let d = validate(&doc);
    assert_eq!(d.len(), 1);
    assert_eq!(d.iter().next().unwrap().message, "Missing PROTO header");

    let doc = Parser::new("#VRML_SIM R2023b utf16\nGroup {}").parse_document().unwrap();
    let d = validate(&doc);
    let messages: Vec<_> = d.iter().map(|x| x.message.clone()).collect();
    assert_eq!(messages, vec!["Unsupported version: R2023b", "Unsupported encoding: utf16"]);
}

#[test]
fn unknown_field_suggests_the_closest_name() {
    let doc = Parser::new("#VRML_SIM R2025a utf8\nSolid { translaton 0 0 0 }")
        .parse_document()
        .unwrap();
    let d = validate(&doc);
    let w = d.iter().find(|x| x.message.contains("Unknown field")).unwrap();
    assert_eq!(w.message, "Unknown field 'translaton' for node 'Solid'");
    assert_eq!(w.suggestion.as_deref(), Some("Did you mean 'translation'?"));
}

#[test]
fn flat_vector_lists_must_fill_whole_elements() {
    let doc = Parser::new("#VRML_SIM R2025a utf8\nCoordinate { point [ 1 2 3 4 ] }")
        .parse_document()
        .unwrap();
    let d = validate(&doc);
    let e = d.iter().find(|x| x.severity == Severity::Error).unwrap();
    assert_eq!(
        e.message,
        "Invalid flat array length for MFVec3f: expected a multiple of 3 values"
    );
}

#[test]
fn null_is_not_an_empty_node_list() {
    let doc = Parser::new("#VRML_SIM R2025a utf8\nGroup { children NULL }")
        .parse_document()
        .unwrap();
    let d = validate(&doc);
    let e = d.iter().find(|x| x.severity == Severity::Error).unwrap();
    assert_eq!(e.message, "NULL not allowed for MFNode; use [] instead");
    assert_eq!(e.suggestion.as_deref(), Some("[]"));
}

#[test]
fn integer_default_matches_decimal_restriction() {
    let field = ProtoField {
        name: "w".to_string(),
        field_type: FieldType::SFFloat,
        default_value: Some(FieldValue::Int(1, None)),
        keyword: FieldKeyword::Field,
        restrictions: Some(vec![
            FieldValue::Float("1.0".to_string(), None),
            FieldValue::Float("2.5".to_string(), None),
        ]),
        span: Span::zero(),
    };
    let mut doc = Proto::new();
    doc.proto = Some(ProtoDefinition {
        name: "P".to_string(),
        fields: vec![field],
        body: Vec::new(),
        span: Span::zero(),
    });
    let d = validate(&doc);
    let messages: Vec<_> = d.iter().map(|x| x.message.clone()).collect();
    assert_eq!(messages, vec!["Missing PROTO header".to_string()]);

    let doc = Parser::new("#VRML_SIM R2025a utf8\nPROTO P [ field SFInt32 { 1 } w 1 ] { Group {} }")
        .parse_document()
        .unwrap();
    assert!(!validate(&doc).has_errors());
}

#[test]
fn is_binding_type_mismatch() {
    let doc = Parser::new(
        "#VRML_SIM R2025a utf8\nPROTO P [ field SFFloat n 1 ] { Robot { name IS n } }",
    )
    .parse_document()
    .unwrap();
    let d = validate(&doc);
    assert!(d.iter().any(|x| x.message
        == "Type mismatch in IS binding: interface field 'n' is SFFloat, but node field 'name' expects SFString"));
}

#[test]
fn cad_shape_geometry_is_flagged() {
    let doc = Parser::new("#VRML_SIM R2025a utf8\nShape { geometry CadShape { } }")
        .parse_document()
        .unwrap();
    let d = validate(&doc);
    assert!(d
        .iter()
        .any(|x| x.message.starts_with("Skipped node: Cannot insert CadShape node")));
}

#[test]
fn runtime_semantics_alone() {
    let doc = Parser::new("Robot { children [ Solid { name \"a\" } Solid { name \"a\" } ] }")
        .parse_document()
        .unwrap();
    let d = validate_runtime_semantics(&doc.root_nodes[0]);
    assert_eq!(d.len(), 1);
    let w = d.iter().next().unwrap();
    assert_eq!(w.severity, Severity::Warning);
    assert_eq!(
        w.suggestion.as_deref(),
        Some("Rename one of the sibling Solid nodes; first occurrence is at line 1.")
    );
}

#[test]
fn levenshtein_values() {
    assert_eq!(levenshtein_distance("kitten", "sitting"), 3);
    assert_eq!(levenshtein_distance("", "abc"), 3);
    assert_eq!(levenshtein_distance("same", "same"), 0);
    let names = vec!["radius".to_string(), "height".to_string(), "radios".to_string()];
    assert_eq!(find_closest_match("radiu", &names), Some("radius".to_string()));
    assert_eq!(find_closest_match("zzzzzzzz", &names), None);
}

#[test]
fn schema_lookup() {
    let s = get_builtin_schema("Box").unwrap();
    assert_eq!(s.name, "Box");
    assert_eq!(s.get_field_type("size"), Some(FieldType::SFVec3f));
    let r = get_builtin_schema("Robot").unwrap();
    assert_eq!(r.get_field_type("controllerArgs"), Some(FieldType::MFString));
    assert_eq!(r.get_field_type("boundingObject"), Some(FieldType::SFNode));
    assert!(get_builtin_schema("Nope").is_none());
    assert_eq!(to_webots_field_name("gps_coordinate_system"), "gpsCoordinateSystem");
    assert_eq!(to_webots_field_name("plain"), "plain");
}

#[test]
fn diagnostic_set_operations() {
    let mut a = DiagnosticSet::new();
    assert!(a.is_empty());
    a.add(Diagnostic {
        span: Span::zero(),
        severity: Severity::Warning,
        message: "w".to_string(),
        suggestion: None,
    });
    assert!(!a.has_errors());
    let mut b = DiagnosticSet::new();
    b.add(Diagnostic {
        span: Span::zero(),
        severity: Severity::Error,
        message: "e".to_string(),
        suggestion: None,
    });
    a.extend(b);
    assert_eq!(a.len(), 2);
    assert!(a.has_errors());
    let messages: Vec<_> = a.iter().map(|d| d.message.as_str()).collect();
    assert_eq!(messages, vec!["w", "e"]);
}

#[test]
fn enumerations_and_controllers() {
    assert_eq!(FogType::from_text("EXPONENTIAL2"), Some(FogType::Exponential2));
    assert_eq!(FogType::Linear.as_text(), "LINEAR");
    assert_eq!(FogType::from_text("linear"), None);
    assert_eq!(Controller::from_text("<extern>"), Controller::Extern);
    assert_eq!(
        Controller::from_text("my_controller"),
        Controller::Specific("my_controller".to_string())
    );
    assert_eq!(Controller::NoController.as_text(), "<none>");
    let _ = AstNodeKind::Use { use_name: "x".to_string() };
}

#[test]
fn camel_case_names_of_ascii_identifiers() {
    assert_eq!(to_webots_field_name("controller_args"), "controllerArgs");
    assert_eq!(to_webots_field_name("tex_coord_index"), "texCoordIndex");
    assert_eq!(to_webots_field_name("controlPID"), "controlPID");
    assert_eq!(to_webots_field_name("a__b"), "aB");
    for name in ["controller_args", "tex_coord_index", "a__b", "x_", "_y", "plain"] {
        let r = to_webots_field_name(name);
        assert!(!r.contains('_'));
        assert_eq!(r.len(), name.len() - name.matches('_').count());
        assert_eq!(r.to_lowercase(), name.replace('_', "").to_lowercase());
        assert_eq!(to_webots_field_name(&r), r);
    }
}

#[test]
fn builtin_robot_schema_uses_camel_case_names() {
    let s = get_builtin_schema("Robot").unwrap();
    assert_eq!(s.name, "Robot");
    assert_eq!(s.get_field_type("controllerArgs"), Some(FieldType::MFString));
    assert_eq!(s.get_field_type("customData"), Some(FieldType::SFString));
    assert_eq!(s.get_field_type("translation"), Some(FieldType::SFVec3f));
    assert!(s.get_field_type("controller_args").is_none());
    for t in ["Robot", "WorldInfo", "Viewpoint", "Shape", "IndexedFaceSet", "RectangleArena"] {
        let s = get_builtin_schema(t).unwrap();
        assert!(s.fields.iter().all(|f| !f.name.contains('_')));
    }
    assert!(get_builtin_schema("robot").is_none());
}

#[test]
fn validation_context_records_def_types() {
    let mut context = ValidationContext::new();
    assert!(context.defs.is_empty());
    assert!(context.interface_fields.is_empty());
    assert_eq!(context.def_type(&"MY_NODE".to_string()), None);
    context.defs.push(("MY_NODE".to_string(), "Shape".to_string()));
    assert_eq!(context.def_type(&"MY_NODE".to_string()), Some("Shape".to_string()));
    context.defs.push(("MY_NODE".to_string(), "Box".to_string()));
    assert_eq!(context.def_type(&"MY_NODE".to_string()), Some("Box".to_string()));
    assert_eq!(context.def_type(&"OTHER".to_string()), None);
}

#[test]
fn levenshtein_metric_on_examples() {
    let words = ["", "a", "abc", "kitten", "sitting", "sitten", "radius", "radios"];
    for a in words {
        for b in words {
            let ab = levenshtein_distance(a, b);
            assert_eq!(ab, levenshtein_distance(b, a));
            assert_eq!(ab == 0, a == b);
            let (la, lb) = (a.chars().count(), b.chars().count());
            assert!(la.abs_diff(lb) <= ab && ab <= la.max(lb));
            for c in words {
                assert!(levenshtein_distance(a, c) <= ab + levenshtein_distance(b, c));
            }
        }
    }
}
