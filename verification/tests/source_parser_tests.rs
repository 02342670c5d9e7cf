use cim_domain_nix::source_parser::{
    create_attrset, create_lambda, AdvancedParser, DerivationParser, Location, ModuleMeta, NixExpr, NixFile,
    NixFileType, NixParser, ParseError, ParseErrorKind, ParserConfig, Position,
};

#[test]
fn test_create_attrset() {
    let attrs = vec![("name", "\"my-package\""), ("version", "\"1.0.0\"")];

    let result = create_attrset(attrs);
    assert!(result.contains("name = \"my-package\""));
    assert!(result.contains("version = \"1.0.0\""));
}

#[test]
fn test_location_tracking() {
    let location = Location {
        file: Some("test.nix".to_string()),
        line: 5,
        column: 10,
        offset: 150,
        length: 25,
    };

    assert_eq!(location.line, 5);
    assert_eq!(location.column, 10);
    assert_eq!(location.offset, 150);
    assert_eq!(location.length, 25);
    assert_eq!(location.file.as_ref().unwrap(), "test.nix");
}

#[test]
fn attrset_and_lambda_text() {
    assert_eq!(create_attrset(vec![("a", "1"), ("b", "[ ]")]), "{\n  a = 1;\n  b = [ ];\n}");
    assert_eq!(create_attrset(vec![]), "{\n}");
    assert_eq!(create_lambda(&["self", "super"], "{ }"), "self: super: { }");
    assert_eq!(create_lambda(&["x"], "x + 1"), "x: x + 1");
}

fn kind_of(source: &str) -> NixFileType {
    NixFile::parse_string(source.to_string(), None).unwrap().file_type()
}

#[test]
fn file_kinds() {
    assert_eq!(kind_of("{ description = \"x\"; outputs = { self }: { }; }"), NixFileType::Flake);
    assert_eq!(kind_of("{ imports = [ ./a.nix ]; }"), NixFileType::Module);
    assert_eq!(kind_of("{ options = { }; config = { }; }"), NixFileType::Module);
    assert_eq!(kind_of("self: super: { hello = super.hello; }"), NixFileType::Overlay);
    assert_eq!(kind_of("stdenv.mkDerivation { pname = \"x\"; }"), NixFileType::Derivation);
    assert_eq!(kind_of("x: x"), NixFileType::Unknown);
    assert_eq!(kind_of("{ a = 1; }"), NixFileType::Unknown);
}

#[test]
fn files_keep_errors_and_text() {
    let file = NixFile::parse_string("{ x = ".to_string(), Some("bad.nix".to_string())).unwrap();
    assert!(file.has_errors());
    assert!(file.errors.iter().all(|e| e.kind == ParseErrorKind::SyntaxError && e.position.is_none()));
    assert_eq!(file.source, Some("bad.nix".to_string()));
    assert_eq!(file.format().unwrap(), "{ x = ");
    let good = NixFile::parse_string("{ x = 1; }".to_string(), None).unwrap();
    assert!(!good.has_errors());
}

#[test]
fn expressions_from_syntax() {
    // The root of a file is not itself an attribute set.
    let parsed = NixParser::new().parse_string("{ a = 1; }").unwrap();
    match parsed.expr {
        NixExpr::Other(t) => assert_eq!(t, "{ a = 1; }"),
        _ => panic!("expected the root's text"),
    }
    assert!(parsed.path.is_empty());
    assert!(parsed.errors.is_empty());

    // Below the root, attribute sets, lists, strings and identifiers are read.
    let file = NixFile::parse_string("{ a = \"x\"; b = [ y \"z\" ]; a = q; c = 1; }".to_string(), None).unwrap();
    let expr = NixExpr::from_ast(&file.ast.children[0]);
    match expr {
        NixExpr::AttrSet(attrs) => {
            let names: Vec<&str> = attrs.iter().map(|(k, _)| k.as_str()).collect();
            assert_eq!(names, vec!["a", "b", "c"]);
            assert!(matches!(&attrs[0].1, NixExpr::Identifier(s) if s == "q"));
            match &attrs[1].1 {
                NixExpr::List(items) => {
                    assert!(matches!(&items[0], NixExpr::Identifier(s) if s == "y"));
                    assert!(matches!(&items[1], NixExpr::String(s) if s == "z"));
                },
                _ => panic!("expected a list"),
            }
            assert!(matches!(&attrs[2].1, NixExpr::Other(s) if s == "1"));
        },
        _ => panic!("expected an attribute set"),
    }
}

#[test]
fn parse_errors_and_defaults() {
    let e = ParseError::new("bad".to_string(), ParseErrorKind::InvalidFlake);
    assert_eq!(e.to_string(), "bad");
    let e = e.with_position(Position { line: 3, column: 7, offset: 40 });
    assert_eq!(e.to_string(), "3:7: bad");
    assert_eq!(e.kind, ParseErrorKind::InvalidFlake);
    assert_eq!(ParseError::from_rnix("oops".to_string()).kind, ParseErrorKind::SyntaxError);

    let config = ParserConfig::default();
    assert!(config.preserve_comments && config.validate && !config.follow_imports);
    assert_eq!(config.max_depth, 10);
    assert_eq!(NixParser::new().config, config);

    let meta = ModuleMeta::default();
    assert!(meta.maintainers.is_empty() && meta.description.is_none());
    assert_eq!(AdvancedParser::new(), AdvancedParser::default());

    let file = NixFile::parse_string("{ }".to_string(), None).unwrap();
    let drv = DerivationParser::parse(&file).unwrap();
    assert_eq!(drv.drv_path, "/nix/store/dummy.drv");
    assert_eq!(drv.outputs, vec!["/nix/store/dummy-out"]);
    assert_eq!(drv.system, "x86_64-linux");
    assert!(drv.dependencies.is_empty());
}
