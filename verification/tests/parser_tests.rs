use cim_domain_nix::ast::{ast_to_value, AstConverter, AstError, NixAst};
use cim_domain_nix::nix_parser::{FlakeParser, ModuleParser, NixParser, ParseError, ParserConfig};
use cim_domain_nix::value::NixValue;

#[test]
fn test_parser_creation() {
    let parser = NixParser::new();
    assert!(parser.config.allow_warnings);
}

#[test]
fn test_parser_with_config() {
    let config = ParserConfig { allow_warnings: false, follow_imports: true, max_import_depth: 5 };
    let parser = NixParser::with_config(config);
    assert!(!parser.config.allow_warnings);
    assert!(parser.config.follow_imports);
    assert_eq!(parser.config.max_import_depth, 5);
}

#[test]
fn test_parse_simple_attrset() {
    let parser = NixParser::new();
    assert!(parser.parse_str("{ x = 1; y = 2; }").is_ok());
}

#[test]
fn test_parse_invalid_syntax() {
    let parser = NixParser::new();
    assert!(parser.parse_str("{ x = ").is_err());
}

#[test]
fn parser_test_parse_list() {
    let parser = NixParser::new();
    assert!(parser.parse_str("[ 1 2 3 ]").is_ok());
}

#[test]
fn test_parse_let_in() {
    let parser = NixParser::new();
    assert!(parser.parse_str("let x = 1; in x + 1").is_ok());
}

#[test]
fn test_parse_lambda() {
    let parser = NixParser::new();
    assert!(parser.parse_str("x: x + 1").is_ok());
}

#[test]
fn test_parse_pattern_lambda() {
    let parser = NixParser::new();
    assert!(parser.parse_str("{ x, y }: x + y").is_ok());
}

#[test]
fn test_parse_rec_attrset() {
    let parser = NixParser::new();
    assert!(parser.parse_str("rec { x = 1; y = x + 1; }").is_ok());
}

#[test]
fn parser_test_parse_with() {
    let parser = NixParser::new();
    assert!(parser.parse_str("with pkgs; [ hello ]").is_ok());
}

#[test]
fn test_parse_if_then_else() {
    let parser = NixParser::new();
    assert!(parser.parse_str("if true then 1 else 2").is_ok());
}

#[test]
fn test_parse_string_interpolation() {
    let parser = NixParser::new();
    assert!(parser.parse_str(r#""hello ${name}""#).is_ok());
}

#[test]
fn test_flake_parser_creation() {
    let parser = FlakeParser::new();
    assert!(parser.parser.config.allow_warnings);
}

#[test]
fn test_module_parser_creation() {
    let parser = ModuleParser::new();
    assert!(parser.parser.config.allow_warnings);
}

#[test]
fn parse_errors_carry_rnix_message() {
    let parser = NixParser::new();
    match parser.parse_str("{ x = ") {
        Err(ParseError::AstError(AstError::ParseError(m))) => assert!(!m.is_empty()),
        _ => panic!("expected an rnix error"),
    }
}

#[test]
fn default_config() {
    let c = ParserConfig::default();
    assert!(c.allow_warnings);
    assert!(!c.follow_imports);
    assert_eq!(c.max_import_depth, 10);
}

#[test]
fn test_convert_empty_attrset() {
    let parser = NixParser::new();
    let ast = parser.parse_str("{ }").unwrap();
    let converter = AstConverter::new();
    let result = converter.convert(&ast);
    assert!(result.is_ok());
    match result.unwrap() {
        NixValue::Attrset(attrs) => assert_eq!(attrs.attributes.len(), 0),
        _ => panic!("Expected attrset"),
    }
}

#[test]
fn test_convert_simple_attrset() {
    let parser = NixParser::new();
    let ast = parser.parse_str(r#"{ name = "test"; }"#).unwrap();
    let converter = AstConverter::new();
    let result = converter.convert(&ast);
    assert!(result.is_ok());
    match result.unwrap() {
        NixValue::Attrset(attrs) => {
            assert!(attrs.contains_key("name"));
            if let Some(NixValue::String(s)) = attrs.get("name") {
                assert_eq!(s.value, "test");
            } else {
                panic!("Expected string value");
            }
        }
        _ => panic!("Expected attrset"),
    }
}

#[test]
fn test_convert_integer() {
    let parser = NixParser::new();
    let ast = parser.parse_str("42").unwrap();
    let converter = AstConverter::new();
    let result = converter.convert(&ast);
    assert!(result.is_ok());
    match result.unwrap() {
        NixValue::Integer(i) => assert_eq!(i.value, 42),
        _ => panic!("Expected integer"),
    }
}

#[test]
fn test_convert_list() {
    let parser = NixParser::new();
    let ast = parser.parse_str("[ 1 2 3 ]").unwrap();
    let converter = AstConverter::new();
    let result = converter.convert(&ast);
    assert!(result.is_ok());
    match result.unwrap() {
        NixValue::List(list) => assert_eq!(list.elements.len(), 3),
        _ => panic!("Expected list"),
    }
}

#[test]
fn test_convert_nested_attrset() {
    let parser = NixParser::new();
    let ast = parser.parse_str(r#"{ outer = { inner = "value"; }; }"#).unwrap();
    let converter = AstConverter::new();
    let result = converter.convert(&ast);
    assert!(result.is_ok());
    match result.unwrap() {
        NixValue::Attrset(attrs) => {
            assert!(attrs.contains_key("outer"));
            if let Some(NixValue::Attrset(inner)) = attrs.get("outer") {
                assert!(inner.contains_key("inner"));
            } else {
                panic!("Expected nested attrset");
            }
        }
        _ => panic!("Expected attrset"),
    }
}

#[test]
fn test_ast_to_value_convenience() {
    let parser = NixParser::new();
    let ast = parser.parse_str("{ x = 1; }").unwrap();
    assert!(ast_to_value(&ast).is_ok());
}

#[test]
fn literals_convert() {
    let v = ast_to_value(&NixAst::parse("{ a = true; b = null; c = 1.5; d = -3; }").unwrap()).unwrap();
    match v {
        NixValue::Attrset(a) => {
            assert!(matches!(a.get("a"), Some(NixValue::String(s)) if s.value == "true"));
            assert!(matches!(a.get("b"), Some(NixValue::String(s)) if s.value == "null"));
            assert!(matches!(a.get("c"), Some(NixValue::Float(f)) if f.literal == "1.5"));
            assert!(a.get("d").is_none());
            assert_eq!(a.len(), 3);
        }
        _ => panic!("Expected attrset"),
    }
}

#[test]
fn strings_lose_their_quotes() {
    let v = ast_to_value(&NixAst::parse(r#"[ "a" "b" ]"#).unwrap()).unwrap();
    match v {
        NixValue::List(l) => match &l.elements[1] {
            NixValue::String(s) => assert_eq!(s.value, "b"),
            _ => panic!("Expected string"),
        },
        _ => panic!("Expected list"),
    }
}

#[test]
fn error_messages() {
    assert_eq!(AstError::ParseError("x".to_string()).to_string(), "Parse error: x");
    assert_eq!(AstError::InvalidSyntax("y".to_string()).to_string(), "Invalid syntax: y");
    assert_eq!(
        ParseError::AstError(AstError::InvalidSyntax("y".to_string())).to_string(),
        "AST error: Invalid syntax: y"
    );
    assert_eq!(ParseError::IoError("z".to_string()).to_string(), "IO error: z");
}
