use cim_domain_nix::expression::{AstError, AttrPathSegment, BindingValue, FunctionParam, NixAst};
use cim_domain_nix::expression_reader::from_syntax_node;
use cim_domain_nix::source_parser::{BinaryOperator, NixFile, UnaryOperator};
use cim_domain_nix::syntax::SyntaxNode;

fn ast_of(source: &str) -> NixAst {
    let file = NixFile::parse_string(source.to_string(), None).unwrap();
    file.to_ast().unwrap()
}

#[test]
fn tests_test_parse_literals() {
    // Integer
    let ast = ast_of("42");
    match ast {
        NixAst::Integer(42) => {}
        _ => panic!("Expected Integer(42), got {:?}", ast),
    }

    // Float
    let ast = ast_of("3.14");
    match ast {
        NixAst::Float(f) => {
            let f: f64 = f.parse().unwrap();
            assert!((f - 3.14).abs() < 0.001)
        }
        _ => panic!("Expected Float(3.14), got {:?}", ast),
    }

    // String
    let ast = ast_of(r#""hello world""#);
    match ast {
        NixAst::String(s) => assert_eq!(s, "hello world"),
        _ => panic!("Expected String, got {:?}", ast),
    }

    // Boolean
    let ast = ast_of("true");
    match ast {
        NixAst::Bool(true) => {}
        _ => panic!("Expected Bool(true), got {:?}", ast),
    }

    // Null
    let ast = ast_of("null");
    match ast {
        NixAst::Null => {}
        _ => panic!("Expected Null, got {:?}", ast),
    }
}

#[test]
fn tests_test_parse_list() {
    let ast = ast_of("[1 2 3]");
    match ast {
        NixAst::List(items) => {
            assert_eq!(items.len(), 3);
            match &items[0] {
                NixAst::Integer(1) => {}
                _ => panic!("Expected Integer(1)"),
            }
            match &items[1] {
                NixAst::Integer(2) => {}
                _ => panic!("Expected Integer(2)"),
            }
            match &items[2] {
                NixAst::Integer(3) => {}
                _ => panic!("Expected Integer(3)"),
            }
        }
        _ => panic!("Expected List, got {:?}", ast),
    }
}

#[test]
fn tests_test_parse_attrset() {
    let ast = ast_of(r#"{ foo = 42; bar = "hello"; }"#);
    match ast {
        NixAst::AttrSet { recursive, bindings } => {
            assert!(!recursive);
            assert_eq!(bindings.len(), 2);

            let binding = &bindings[0];
            assert_eq!(binding.attr_path.segments.len(), 1);
            match &binding.attr_path.segments[0] {
                AttrPathSegment::Identifier(name) => assert_eq!(name, "foo"),
                _ => panic!("Expected identifier"),
            }
            match &binding.value {
                BindingValue::Value(NixAst::Integer(42)) => {}
                _ => panic!("Expected Value(Integer(42))"),
            }
        }
        _ => panic!("Expected AttrSet, got {:?}", ast),
    }
}

#[test]
fn test_parse_recursive_attrset() {
    let ast = ast_of(r#"rec { a = 1; b = a + 1; }"#);
    match ast {
        NixAst::AttrSet { recursive, .. } => {
            assert!(recursive);
        }
        _ => panic!("Expected AttrSet, got {:?}", ast),
    }
}

#[test]
fn test_parse_function() {
    // Simple function
    let ast = ast_of("x: x + 1");
    match ast {
        NixAst::Function { param, body } => {
            match param {
                FunctionParam::Identifier(name) => assert_eq!(name, "x"),
                _ => panic!("Expected identifier parameter"),
            }
            match body.as_ref() {
                NixAst::BinaryOp { op: BinaryOperator::Add, .. } => {}
                _ => panic!("Expected binary addition"),
            }
        }
        _ => panic!("Expected Function, got {:?}", ast),
    }

    // Pattern function
    let ast = ast_of("{ a, b }: a + b");
    match ast {
        NixAst::Function { param, .. } => match param {
            FunctionParam::Pattern { fields, ellipsis, .. } => {
                assert_eq!(fields.len(), 2);
                assert!(!ellipsis);
            }
            _ => panic!("Expected pattern parameter"),
        },
        _ => panic!("Expected Function, got {:?}", ast),
    }
}

#[test]
fn test_parse_let() {
    let ast = ast_of("let x = 1; y = 2; in x + y");
    match ast {
        NixAst::Let { bindings, body } => {
            assert_eq!(bindings.len(), 2);
            match body.as_ref() {
                NixAst::BinaryOp { op: BinaryOperator::Add, .. } => {}
                _ => panic!("Expected binary addition in body"),
            }
        }
        _ => panic!("Expected Let, got {:?}", ast),
    }
}

#[test]
fn test_parse_if() {
    let ast = ast_of("if true then 1 else 2");
    match ast {
        NixAst::If { condition, then_branch, else_branch } => {
            match condition.as_ref() {
                NixAst::Bool(true) => {}
                _ => panic!("Expected Bool(true) condition"),
            }
            match then_branch.as_ref() {
                NixAst::Integer(1) => {}
                _ => panic!("Expected Integer(1) in then branch"),
            }
            match else_branch.as_ref() {
                NixAst::Integer(2) => {}
                _ => panic!("Expected Integer(2) in else branch"),
            }
        }
        _ => panic!("Expected If, got {:?}", ast),
    }
}

#[test]
fn test_parse_binary_ops() {
    let tests = vec![
        ("1 + 2", BinaryOperator::Add),
        ("1 - 2", BinaryOperator::Subtract),
        ("1 * 2", BinaryOperator::Multiply),
        ("1 / 2", BinaryOperator::Divide),
        ("1 == 2", BinaryOperator::Equal),
        ("1 != 2", BinaryOperator::NotEqual),
        ("1 < 2", BinaryOperator::Less),
        ("1 <= 2", BinaryOperator::LessEqual),
        ("1 > 2", BinaryOperator::Greater),
        ("1 >= 2", BinaryOperator::GreaterEqual),
        ("true && false", BinaryOperator::And),
        ("true || false", BinaryOperator::Or),
        ("[1] ++ [2]", BinaryOperator::Concat),
        ("{ a = 1; } // { b = 2; }", BinaryOperator::Update),
    ];

    for (expr, expected_op) in tests {
        let ast = ast_of(expr);
        match ast {
            NixAst::BinaryOp { op, .. } => {
                assert_eq!(op, expected_op, "Failed for expression: {}", expr);
            }
            _ => panic!("Expected BinaryOp for {}, got {:?}", expr, ast),
        }
    }
}

#[test]
fn test_parse_unary_ops() {
    // Negation
    let ast = ast_of("-5");
    match ast {
        NixAst::UnaryOp { op: UnaryOperator::Negate, operand } => match operand.as_ref() {
            NixAst::Integer(5) => {}
            _ => panic!("Expected Integer(5) operand"),
        },
        _ => panic!("Expected UnaryOp, got {:?}", ast),
    }

    // Not
    let ast = ast_of("!true");
    match ast {
        NixAst::UnaryOp { op: UnaryOperator::Not, operand } => match operand.as_ref() {
            NixAst::Bool(true) => {}
            _ => panic!("Expected Bool(true) operand"),
        },
        _ => panic!("Expected UnaryOp, got {:?}", ast),
    }
}

#[test]
fn test_parse_select() {
    let ast = ast_of("foo.bar");
    match ast {
        NixAst::Select { expr, attr_path, default } => {
            match expr.as_ref() {
                NixAst::Identifier(name) => assert_eq!(name, "foo"),
                _ => panic!("Expected Identifier"),
            }
            assert_eq!(attr_path.segments.len(), 1);
            assert!(default.is_none());
        }
        _ => panic!("Expected Select, got {:?}", ast),
    }

    // With default
    let ast = ast_of("foo.bar or 42");
    match ast {
        NixAst::Select { default, .. } => {
            assert!(default.is_some());
            match default.unwrap().as_ref() {
                NixAst::Integer(42) => {}
                _ => panic!("Expected Integer(42) as default"),
            }
        }
        _ => panic!("Expected Select, got {:?}", ast),
    }
}

#[test]
fn test_parse_has_attr() {
    let ast = ast_of("foo ? bar");
    match ast {
        NixAst::HasAttr { expr, attr_path } => {
            match expr.as_ref() {
                NixAst::Identifier(name) => assert_eq!(name, "foo"),
                _ => panic!("Expected Identifier"),
            }
            assert_eq!(attr_path.segments.len(), 1);
        }
        _ => panic!("Expected HasAttr, got {:?}", ast),
    }
}

#[test]
fn tests_test_parse_with() {
    let ast = ast_of("with foo; bar");
    match ast {
        NixAst::With { namespace, body } => {
            match namespace.as_ref() {
                NixAst::Identifier(name) => assert_eq!(name, "foo"),
                _ => panic!("Expected Identifier namespace"),
            }
            match body.as_ref() {
                NixAst::Identifier(name) => assert_eq!(name, "bar"),
                _ => panic!("Expected Identifier body"),
            }
        }
        _ => panic!("Expected With, got {:?}", ast),
    }
}

#[test]
fn test_parse_assert() {
    let ast = ast_of("assert true; 42");
    match ast {
        NixAst::Assert { condition, body } => {
            match condition.as_ref() {
                NixAst::Bool(true) => {}
                _ => panic!("Expected Bool(true) condition"),
            }
            match body.as_ref() {
                NixAst::Integer(42) => {}
                _ => panic!("Expected Integer(42) body"),
            }
        }
        _ => panic!("Expected Assert, got {:?}", ast),
    }
}

#[test]
fn test_parse_import() {
    let ast = ast_of("import ./foo.nix");
    match ast {
        NixAst::Import(expr) => match expr.as_ref() {
            NixAst::Path(_) => {}
            _ => panic!("Expected Path in import"),
        },
        _ => panic!("Expected Import, got {:?}", ast),
    }
}

#[test]
fn test_parse_inherit() {
    let ast = ast_of("{ inherit foo bar; }");
    match ast {
        NixAst::AttrSet { bindings, .. } => {
            assert_eq!(bindings.len(), 2);
            for binding in bindings {
                match &binding.value {
                    BindingValue::Inherit { from, attrs } => {
                        assert!(from.is_none());
                        assert_eq!(attrs.len(), 1);
                    }
                    _ => panic!("Expected Inherit binding"),
                }
            }
        }
        _ => panic!("Expected AttrSet, got {:?}", ast),
    }

    // Inherit from
    let ast = ast_of("{ inherit (foo) bar baz; }");
    match ast {
        NixAst::AttrSet { bindings, .. } => {
            assert_eq!(bindings.len(), 2);
            for binding in bindings {
                match &binding.value {
                    BindingValue::Inherit { from, .. } => {
                        assert!(from.is_some());
                    }
                    _ => panic!("Expected Inherit binding"),
                }
            }
        }
        _ => panic!("Expected AttrSet, got {:?}", ast),
    }
}

#[test]
fn test_parse_complex_expression() {
    let complex = r#"
    let
      x = 1;
      y = 2;
      f = a: b: a + b;
    in
      f x y
    "#;

    let ast = ast_of(complex);
    match ast {
        NixAst::Let { bindings, body } => {
            assert_eq!(bindings.len(), 3);
            match body.as_ref() {
                NixAst::Apply { .. } => {}
                _ => panic!("Expected Apply in body"),
            }
        }
        _ => panic!("Expected Let, got {:?}", ast),
    }
}

#[test]
fn reader_strings_paths_and_parentheses() {
    match ast_of("(./a/b.nix)") {
        NixAst::Path(p) => assert_eq!(p, "./a/b.nix"),
        other => panic!("Expected Path, got {:?}", other),
    }
    match ast_of("''\n  indented\n''") {
        NixAst::String(s) => assert!(s.contains("indented")),
        other => panic!("Expected String, got {:?}", other),
    }
    match ast_of(r#"{ "a b" = 1; }"#) {
        NixAst::AttrSet { bindings, .. } => match &bindings[0].attr_path.segments[0] {
            AttrPathSegment::Identifier(name) => assert_eq!(name, "a b"),
            _ => panic!("Expected identifier"),
        },
        other => panic!("Expected AttrSet, got {:?}", other),
    }
}

#[test]
fn reader_patterns_with_defaults_and_binds() {
    match ast_of("{ a ? 1, b, ... } @ args: a") {
        NixAst::Function { param: FunctionParam::Pattern { fields, bind, ellipsis }, .. } => {
            assert_eq!(fields.len(), 2);
            assert_eq!(fields[0].name, "a");
            assert!(matches!(fields[0].default, Some(NixAst::Integer(1))));
            assert!(fields[1].default.is_none());
            assert_eq!(bind.as_deref(), Some("args"));
            assert!(ellipsis);
        }
        other => panic!("Expected pattern function, got {:?}", other),
    }
}

#[test]
fn reader_dynamic_attribute_and_nested_select() {
    match ast_of("x.${y}.z") {
        NixAst::Select { attr_path, .. } => {
            assert_eq!(attr_path.segments.len(), 2);
            assert!(matches!(attr_path.segments[0], AttrPathSegment::Dynamic(NixAst::Identifier(_))));
        }
        other => panic!("Expected Select, got {:?}", other),
    }
}

#[test]
fn reader_integer_overflow_is_a_parse_error() {
    let file = NixFile::parse_string("99999999999999999999".to_string(), None).unwrap();
    match file.to_ast() {
        Err(AstError::ParseError(m)) => assert!(m.starts_with("Invalid integer: ")),
        other => panic!("Expected ParseError, got {:?}", other),
    }
}

#[test]
fn reader_inherit_alone_is_refused() {
    let file = NixFile::parse_string("{ inherit a; }".to_string(), None).unwrap();
    let set = &file.ast.children[0];
    let inherit = &set.children[0];
    match from_syntax_node(inherit) {
        Err(AstError::InvalidStructure(m)) => {
            assert_eq!(m, "Inherit must be inside an attribute set")
        }
        other => panic!("Expected InvalidStructure, got {:?}", other),
    }
}

#[test]
fn reader_other_nodes_read_their_first_readable_child() {
    let file = NixFile::parse_string("{ inherit a; }".to_string(), None).unwrap();
    let set = &file.ast.children[0];
    let inherit = &set.children[0];
    let name = &inherit.children[0];
    match from_syntax_node(name) {
        Ok(NixAst::Identifier(n)) => assert_eq!(n, "a"),
        other => panic!("Expected Identifier, got {:?}", other),
    }
    let file = NixFile::parse_string("a.b".to_string(), None).unwrap();
    let select = &file.ast.children[0];
    let path = &select.children[1];
    match from_syntax_node(path) {
        Ok(NixAst::Identifier(n)) => assert_eq!(n, "b"),
        other => panic!("Expected the path's name, got {:?}", other),
    }
    let file = NixFile::parse_string("{ a = 1; }".to_string(), None).unwrap();
    let set = &file.ast.children[0];
    let binding = &set.children[0];
    match from_syntax_node(binding) {
        Ok(NixAst::Identifier(n)) => assert_eq!(n, "a"),
        other => panic!("Expected the first readable child, got {:?}", other),
    }
}

#[test]
fn reader_unsupported_node_names_its_kind() {
    let node = SyntaxNode {
        kind: 57,
        text: "x".to_string(),
        first_token: None,
        tokens: Vec::new(),
        children: Vec::new(),
    };
    match from_syntax_node(&node) {
        Err(AstError::UnsupportedNode(m)) => assert_eq!(m, "Unsupported node kind: NODE_ERROR"),
        other => panic!("Expected UnsupportedNode, got {:?}", other),
    }
    match from_syntax_node(&SyntaxNode { kind: 79, text: "https://x".to_string(), first_token: Some(49), tokens: Vec::new(), children: Vec::new() }) {
        Err(AstError::UnsupportedNode(m)) => assert_eq!(m, "Unknown literal: NODE_LITERAL"),
        other => panic!("Expected UnsupportedNode, got {:?}", other),
    }
}
