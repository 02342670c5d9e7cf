use cim_domain_nix::expression::{AttrPath, AttrPathSegment, Binding, BindingValue, FunctionParam, NixAst};
use cim_domain_nix::manipulator::{AstBuilder, AstManipulator};
use cim_domain_nix::source_parser::BinaryOperator;

fn empty_set() -> NixAst {
    NixAst::AttrSet { recursive: false, bindings: Vec::new() }
}

fn binding(name: &str, value: NixAst) -> Binding {
    Binding {
        attr_path: AttrPath { segments: vec![AttrPathSegment::Identifier(name.to_string())] },
        value: BindingValue::Value(value),
    }
}

fn first_name(b: &Binding) -> Option<&str> {
    match b.attr_path.segments.first() {
        Some(AttrPathSegment::Identifier(s)) => Some(s.as_str()),
        _ => None,
    }
}

#[test]
fn test_add_attribute() {
    let mut ast = empty_set();

    AstManipulator::add_attribute(&mut ast, vec!["foo"], NixAst::String("bar".to_string())).unwrap();

    let value = AstManipulator::get_attribute(&ast, vec!["foo"]);
    assert!(value.is_some());
}

#[test]
fn test_update_attribute() {
    let mut ast = empty_set();

    AstManipulator::add_attribute(&mut ast, vec!["foo"], NixAst::Integer(42)).unwrap();

    let old = AstManipulator::update_attribute(&mut ast, vec!["foo"], NixAst::Integer(100)).unwrap();

    assert!(matches!(old, Some(NixAst::Integer(42))));
    let value = AstManipulator::get_attribute(&ast, vec!["foo"]);
    assert!(matches!(value, Some(NixAst::Integer(100))));
}

#[test]
fn manipulator_test_find_nodes() {
    let ast = NixAst::AttrSet {
        recursive: false,
        bindings: vec![
            binding("x", NixAst::Integer(42)),
            binding("y", NixAst::Integer(100)),
            binding("z", NixAst::String("test".to_string())),
        ],
    };

    let integers = AstManipulator::find_nodes(&ast, &|node: &NixAst| matches!(node, NixAst::Integer(_)));

    assert_eq!(integers.len(), 2);
}

#[test]
fn test_replace_nodes() {
    let mut ast = AstBuilder::list(vec![NixAst::Integer(1), NixAst::Integer(2), NixAst::Integer(3)]);

    let count = AstManipulator::replace_nodes(
        &mut ast,
        |node: &NixAst| matches!(node, NixAst::Integer(2)),
        |_: &NixAst| Some(NixAst::Integer(42)),
    )
    .unwrap();

    assert_eq!(count, 1);

    match &ast {
        NixAst::List(elements) => {
            assert!(matches!(elements[1], NixAst::Integer(42)));
        }
        _ => panic!("Expected list"),
    }
}

#[test]
fn manipulator_test_transform_nodes() {
    let mut ast = AstBuilder::list(vec![NixAst::Integer(1), NixAst::Integer(2), NixAst::Integer(3)]);

    AstManipulator::transform_nodes(&mut ast, &|node: &NixAst| match node {
        NixAst::Integer(n) => Some(NixAst::Integer(*n * 2)),
        _ => None,
    });

    match ast {
        NixAst::List(elements) => {
            assert_eq!(elements.len(), 3);
            assert!(matches!(elements[0], NixAst::Integer(2)));
            assert!(matches!(elements[1], NixAst::Integer(4)));
            assert!(matches!(elements[2], NixAst::Integer(6)));
        }
        _ => panic!("Expected list"),
    }
}

#[test]
fn test_ast_builder() {
    let ast = AstBuilder::new()
        .attr_set()
        .add_attr("name", NixAst::String("my-package".to_string()))
        .add_attr("version", NixAst::String("1.0.0".to_string()))
        .add_attr(
            "meta",
            AstBuilder::new()
                .attr_set()
                .add_attr("description", NixAst::String("A test package".to_string()))
                .add_attr("license", NixAst::String("MIT".to_string()))
                .build(),
        )
        .build();

    match &ast {
        NixAst::AttrSet { bindings, recursive } => {
            assert!(!recursive);
            assert_eq!(bindings.len(), 3);

            let name_binding = bindings
                .iter()
                .find(|b| first_name(b) == Some("name"))
                .expect("name attribute not found");

            match &name_binding.value {
                BindingValue::Value(NixAst::String(s)) => {
                    assert_eq!(s, "my-package");
                }
                _ => panic!("Expected string value for name"),
            }

            let meta_binding = bindings
                .iter()
                .find(|b| first_name(b) == Some("meta"))
                .expect("meta attribute not found");

            match &meta_binding.value {
                BindingValue::Value(NixAst::AttrSet { bindings: meta_bindings, .. }) => {
                    assert_eq!(meta_bindings.len(), 2);
                }
                _ => panic!("Expected attribute set for meta"),
            }
        }
        _ => panic!("Expected attribute set"),
    }
}

#[test]
fn tests_test_find_nodes() {
    let ast = AstBuilder::new()
        .attr_set()
        .add_attr("name", NixAst::String("test".to_string()))
        .add_attr(
            "deps",
            NixAst::List(vec![
                NixAst::String("dep1".to_string()),
                NixAst::String("dep2".to_string()),
                NixAst::Integer(42),
            ]),
        )
        .build();

    let strings = AstManipulator::find_nodes(&ast, &|node: &NixAst| matches!(node, NixAst::String(_)));
    assert_eq!(strings.len(), 3);

    let integers = AstManipulator::find_nodes(&ast, &|node: &NixAst| matches!(node, NixAst::Integer(_)));
    assert_eq!(integers.len(), 1);
}

#[test]
fn tests_test_transform_nodes() {
    let mut ast = AstBuilder::new()
        .attr_set()
        .add_attr("old_name", NixAst::String("old_value".to_string()))
        .add_attr("keep_this", NixAst::String("unchanged".to_string()))
        .build();

    AstManipulator::transform_nodes(&mut ast, &|node: &NixAst| match node {
        NixAst::String(s) if s.contains("old") => Some(NixAst::String(s.replace("old", "new"))),
        _ => None,
    });

    match &ast {
        NixAst::AttrSet { bindings, .. } => {
            let first_value = match &bindings[0].value {
                BindingValue::Value(v) => v,
                _ => panic!("Expected value"),
            };
            match first_value {
                NixAst::String(s) => assert_eq!(s, "new_value"),
                _ => panic!("Expected string"),
            }
            let second_value = match &bindings[1].value {
                BindingValue::Value(v) => v,
                _ => panic!("Expected value"),
            };
            match second_value {
                NixAst::String(s) => assert_eq!(s, "unchanged"),
                _ => panic!("Expected string"),
            }
        }
        _ => panic!("Expected attribute set"),
    }
}

#[test]
fn test_complex_ast_structures() {
    let func = AstBuilder::simple_function(
        "x",
        AstBuilder::if_expr(
            AstBuilder::binary_op(
                BinaryOperator::Greater,
                NixAst::Identifier("x".to_string()),
                NixAst::Integer(0),
            ),
            NixAst::String("positive".to_string()),
            NixAst::String("non-positive".to_string()),
        ),
    );

    match &func {
        NixAst::Function { param, body } => {
            match param {
                FunctionParam::Identifier(name) => assert_eq!(name, "x"),
                _ => panic!("Expected identifier parameter"),
            }
            match body.as_ref() {
                NixAst::If { condition, then_branch, else_branch } => {
                    assert!(matches!(condition.as_ref(), NixAst::BinaryOp { .. }));
                    assert!(matches!(then_branch.as_ref(), NixAst::String(_)));
                    assert!(matches!(else_branch.as_ref(), NixAst::String(_)));
                }
                _ => panic!("Expected if expression"),
            }
        }
        _ => panic!("Expected function"),
    }
}

#[test]
fn test_attribute_paths() {
    let path = AttrPath {
        segments: vec![
            AttrPathSegment::Identifier("foo".to_string()),
            AttrPathSegment::Dynamic(NixAst::String("bar baz".to_string())),
        ],
    };

    assert_eq!(path.segments.len(), 2);

    match &path.segments[0] {
        AttrPathSegment::Identifier(s) => assert_eq!(s, "foo"),
        _ => panic!("Expected identifier"),
    }

    match &path.segments[1] {
        AttrPathSegment::Dynamic(NixAst::String(s)) => assert_eq!(s, "bar baz"),
        _ => panic!("Expected dynamic string"),
    }
}

#[test]
fn edits_refuse_the_wrong_form() {
    let mut list = NixAst::List(vec![NixAst::Integer(1)]);
    let e = AstManipulator::add_attribute(&mut list, vec!["a"], NixAst::Null).unwrap_err();
    assert_eq!(e.to_string(), "Parse error: Can only add attributes to attribute sets");
    let e = AstManipulator::remove_attribute(&mut list, vec!["a"]).unwrap_err();
    assert_eq!(e.to_string(), "Parse error: Can only remove attributes from attribute sets");
    let e = AstManipulator::update_attribute(&mut list, vec!["a"], NixAst::Null).unwrap_err();
    assert_eq!(e.to_string(), "Parse error: Can only update attributes in attribute sets");
    assert!(AstManipulator::get_attribute(&list, vec!["a"]).is_none());

    let mut set = empty_set();
    let e = AstManipulator::add_list_element(&mut set, NixAst::Null).unwrap_err();
    assert_eq!(e.to_string(), "Parse error: Can only add elements to lists");
    let e = AstManipulator::remove_list_element(&mut set, 0).unwrap_err();
    assert_eq!(e.to_string(), "Parse error: Can only remove elements from lists");
}

#[test]
fn attribute_removal_and_paths() {
    let mut ast = empty_set();
    AstManipulator::add_attribute(&mut ast, vec!["a", "b"], NixAst::Integer(1)).unwrap();
    AstManipulator::add_attribute(&mut ast, vec!["a"], NixAst::Integer(2)).unwrap();
    AstManipulator::add_attribute(&mut ast, vec!["a"], NixAst::Integer(3)).unwrap();

    // The whole path must match; the first binding of it is the one found.
    assert!(matches!(AstManipulator::get_attribute(&ast, vec!["a", "b"]), Some(NixAst::Integer(1))));
    assert!(matches!(AstManipulator::get_attribute(&ast, vec!["a"]), Some(NixAst::Integer(2))));
    assert!(AstManipulator::get_attribute(&ast, vec!["b"]).is_none());

    let removed = AstManipulator::remove_attribute(&mut ast, vec!["a"]).unwrap();
    assert!(matches!(removed, Some(NixAst::Integer(2))));
    assert!(matches!(AstManipulator::get_attribute(&ast, vec!["a"]), Some(NixAst::Integer(3))));
    assert!(AstManipulator::remove_attribute(&mut ast, vec!["zzz"]).unwrap().is_none());
    assert!(AstManipulator::update_attribute(&mut ast, vec!["zzz"], NixAst::Null).unwrap().is_none());

    // An inherited binding gives no value and is not replaced.
    let mut inherit = NixAst::AttrSet {
        recursive: false,
        bindings: vec![Binding {
            attr_path: AttrPath { segments: vec![AttrPathSegment::Identifier("x".to_string())] },
            value: BindingValue::Inherit { from: None, attrs: vec!["x".to_string()] },
        }],
    };
    assert!(AstManipulator::get_attribute(&inherit, vec!["x"]).is_none());
    assert!(AstManipulator::update_attribute(&mut inherit, vec!["x"], NixAst::Null).unwrap().is_none());
    match &inherit {
        NixAst::AttrSet { bindings, .. } => assert!(matches!(bindings[0].value, BindingValue::Inherit { .. })),
        _ => panic!("Expected attribute set"),
    }
}

#[test]
fn list_elements() {
    let mut list = AstBuilder::list(vec![]);
    AstManipulator::add_list_element(&mut list, NixAst::Integer(1)).unwrap();
    AstManipulator::add_list_element(&mut list, NixAst::Integer(2)).unwrap();
    assert!(AstManipulator::remove_list_element(&mut list, 5).unwrap().is_none());
    assert!(matches!(AstManipulator::remove_list_element(&mut list, 0).unwrap(), Some(NixAst::Integer(1))));
    match &list {
        NixAst::List(items) => {
            assert_eq!(items.len(), 1);
            assert!(matches!(items[0], NixAst::Integer(2)));
        }
        _ => panic!("Expected list"),
    }
}

#[test]
fn builder_without_a_set() {
    assert!(matches!(AstBuilder::new().build(), NixAst::Null));
    assert!(matches!(AstBuilder::default().add_attr("a", NixAst::Integer(1)).build(), NixAst::Null));
    assert!(matches!(AstBuilder::integer(7), NixAst::Integer(7)));
    assert!(matches!(AstBuilder::bool(false), NixAst::Bool(false)));
    match AstBuilder::string("s") {
        NixAst::String(s) => assert_eq!(s, "s"),
        _ => panic!("Expected string"),
    }
    match AstBuilder::attr_set_with(vec![binding("k", NixAst::Null)]) {
        NixAst::AttrSet { recursive, bindings } => {
            assert!(!recursive);
            assert_eq!(bindings.len(), 1);
        }
        _ => panic!("Expected attribute set"),
    }
}

#[test]
fn search_order_and_replacement_depth() {
    // Replaced nodes are not searched below; counts follow each replacement.
    let mut ast = AstBuilder::list(vec![
        NixAst::List(vec![NixAst::Integer(1), NixAst::Integer(1)]),
        NixAst::Integer(1),
        NixAst::Import(Box::new(NixAst::Integer(1))),
    ]);
    let count = AstManipulator::replace_nodes(
        &mut ast,
        |node: &NixAst| matches!(node, NixAst::Integer(1)),
        |_: &NixAst| Some(NixAst::Integer(9)),
    )
    .unwrap();
    assert_eq!(count, 4);

    // The search does not look into an import, the rewrite does.
    let imported = NixAst::Import(Box::new(NixAst::Integer(5)));
    assert_eq!(AstManipulator::find_nodes(&imported, &|n: &NixAst| matches!(n, NixAst::Integer(_))).len(), 0);
    let mut imported = imported;
    AstManipulator::transform_nodes(&mut imported, &|n: &NixAst| match n {
        NixAst::Integer(_) => Some(NixAst::Null),
        _ => None,
    });
    match &imported {
        NixAst::Import(inner) => assert!(matches!(inner.as_ref(), NixAst::Null)),
        _ => panic!("Expected import"),
    }

    // A node the predicate selects but the replacer declines is searched below.
    let mut nested = AstBuilder::list(vec![AstBuilder::list(vec![NixAst::Integer(3)])]);
    let count = AstManipulator::replace_nodes(
        &mut nested,
        |_: &NixAst| true,
        |n: &NixAst| match n {
            NixAst::Integer(_) => Some(NixAst::Bool(true)),
            _ => None,
        },
    )
    .unwrap();
    assert_eq!(count, 1);
}
