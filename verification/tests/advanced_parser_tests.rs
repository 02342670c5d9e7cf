use cim_domain_nix::domain_error::NixDomainError;
use cim_domain_nix::expression::{AttrPathSegment, BindingValue, NixAst};
use cim_domain_nix::source_parser::AdvancedParser;

#[test]
fn test_parse_simple_expressions() {
    let parser = AdvancedParser::new();

    let ast = parser.parse_string("42").unwrap();
    match ast.ast {
        NixAst::Integer(n) => assert_eq!(n, 42),
        _ => panic!("Expected integer"),
    }

    let ast = parser.parse_string(r#""hello world""#).unwrap();
    match ast.ast {
        NixAst::String(s) => assert_eq!(s, "hello world"),
        _ => panic!("Expected string"),
    }

    let ast = parser.parse_string("true").unwrap();
    match ast.ast {
        NixAst::Bool(b) => assert!(b),
        _ => panic!("Expected boolean"),
    }
}

#[test]
fn test_parse_attribute_set() {
    let parser = AdvancedParser::new();
    let ast = parser.parse_string(r#"{ foo = 42; bar = "hello"; }"#).unwrap();

    match ast.ast {
        NixAst::AttrSet { recursive, bindings } => {
            assert!(!recursive);
            assert_eq!(bindings.len(), 2);
        }
        _ => panic!("Expected attribute set"),
    }
}

#[test]
fn advanced_test_parse_list() {
    let parser = AdvancedParser::new();
    let ast = parser.parse_string(r#"[ 1 2 3 "foo" ]"#).unwrap();

    match ast.ast {
        NixAst::List(elements) => {
            assert_eq!(elements.len(), 4);
        }
        _ => panic!("Expected list"),
    }
}

#[test]
fn test_parse_attribute_sets() {
    let parser = AdvancedParser::new();

    let attrset_content = r#"{ 
            name = "test"; 
            version = "1.0.0";
            enabled = true;
        }"#;

    let parsed = parser.parse_string(attrset_content).unwrap();

    match &parsed.ast {
        NixAst::AttrSet { bindings, recursive } => {
            assert!(!recursive);
            assert!(bindings.len() >= 3);

            let has_name = bindings.iter().any(|b| {
                matches!(
                    b.attr_path.segments.first(),
                    Some(AttrPathSegment::Identifier(s)) if s == "name"
                )
            });
            let has_version = bindings.iter().any(|b| {
                matches!(
                    b.attr_path.segments.first(),
                    Some(AttrPathSegment::Identifier(s)) if s == "version"
                )
            });
            let has_enabled = bindings.iter().any(|b| {
                matches!(
                    b.attr_path.segments.first(),
                    Some(AttrPathSegment::Identifier(s)) if s == "enabled"
                )
            });

            assert!(has_name, "Missing 'name' attribute");
            assert!(has_version, "Missing 'version' attribute");
            assert!(has_enabled, "Missing 'enabled' attribute");
        }
        _ => panic!("Expected AttrSet, got {:?}", parsed.ast),
    }
}

#[test]
fn test_parse_errors() {
    let parser = AdvancedParser::new();

    let result = parser.parse_string("{ invalid syntax");
    assert!(result.is_err());

    let result = parser.parse_string("");
    assert!(result.is_err());

    let result = parser.parse_string("{ = }");
    assert!(result.is_err());
}

#[test]
fn test_full_workflow() {
    let parser = AdvancedParser::new();

    let parsed = parser.parse_string(r#"{ x = 1; y = 2; }"#).unwrap();

    match &parsed.ast {
        NixAst::AttrSet { bindings, .. } => {
            assert_eq!(bindings.len(), 2);

            let x_binding = bindings
                .iter()
                .find(|b| {
                    matches!(
                        b.attr_path.segments.first(),
                        Some(AttrPathSegment::Identifier(s)) if s == "x"
                    )
                })
                .expect("x binding not found");

            match &x_binding.value {
                BindingValue::Value(NixAst::Integer(1)) => {}
                _ => panic!("Expected x = 1"),
            }

            let y_binding = bindings
                .iter()
                .find(|b| {
                    matches!(
                        b.attr_path.segments.first(),
                        Some(AttrPathSegment::Identifier(s)) if s == "y"
                    )
                })
                .expect("y binding not found");

            match &y_binding.value {
                BindingValue::Value(NixAst::Integer(2)) => {}
                _ => panic!("Expected y = 2"),
            }
        }
        _ => panic!("Expected AttrSet, got {:?}", parsed.ast),
    }
}

#[test]
fn advanced_location_covers_the_text() {
    let parser = AdvancedParser::new();
    let parsed = parser.parse_string("  42  ").unwrap();
    assert_eq!(parsed.location.offset, 0);
    assert_eq!(parsed.location.length, 6);
    assert_eq!(parsed.location.line, 0);
    assert!(parsed.location.file.is_none());
}

#[test]
fn advanced_literals_and_strings() {
    let parser = AdvancedParser::new();
    match parser.parse_string("3.14").unwrap().ast {
        NixAst::Float(f) => assert_eq!(f, "3.14"),
        other => panic!("Expected Float, got {:?}", other),
    }
    match parser.parse_string("''\n  text\n''").unwrap().ast {
        NixAst::String(s) => assert_eq!(s, "\n  text\n"),
        other => panic!("Expected String, got {:?}", other),
    }
    match parser.parse_string("rec { a = \"x\"; }").unwrap().ast {
        NixAst::AttrSet { recursive, bindings } => {
            assert!(recursive);
            match &bindings[0].value {
                BindingValue::Value(NixAst::String(s)) => assert_eq!(s, "x"),
                _ => panic!("Expected string value"),
            }
        }
        other => panic!("Expected AttrSet, got {:?}", other),
    }
}

#[test]
fn advanced_errors_of_compound_nodes() {
    let parser = AdvancedParser::new();
    match parser.parse_string("let x = 1; in x") {
        Err(NixDomainError::ParseError(m)) => assert_eq!(m, "Let missing body"),
        other => panic!("Expected ParseError, got {:?}", other),
    }
    match parser.parse_string("x: x") {
        Err(NixDomainError::ParseError(m)) => assert_eq!(m, "Invalid function parameter"),
        other => panic!("Expected ParseError, got {:?}", other),
    }
    match parser.parse_string("if true then 1 else 2") {
        Err(NixDomainError::ParseError(m)) => assert_eq!(m, "If missing then branch"),
        other => panic!("Expected ParseError, got {:?}", other),
    }
}
