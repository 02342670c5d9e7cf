use cim_domain_nix::source_parser::NixFile;
use cim_domain_nix::syntax_query::{
    contains_function_call, extract_attr_path, extract_imports, extract_string_value, find_all_by_kind,
    find_attribute, get_attribute_value, get_lambda_body, get_lambda_param, is_attrset, is_lambda,
};

fn parse(content: &str) -> NixFile {
    NixFile::parse_string(content.to_string(), None).unwrap()
}

#[test]
fn test_find_attribute() {
    let content = r#"{ foo = "bar"; baz = 42; }"#;
    let file = parse(content);

    let attrset = &file.ast;
    assert!(find_attribute(attrset, "foo").is_some());
    assert!(find_attribute(attrset, "missing").is_none());
}

#[test]
fn test_extract_string_value() {
    let content = r#"{ message = "hello world"; }"#;
    let file = parse(content);

    if let Some(value_node) = get_attribute_value(&file.ast, "message") {
        let value = extract_string_value(value_node);
        assert_eq!(value, Some("hello world".to_string()));
    } else {
        panic!("Failed to find message attribute");
    }
}

#[test]
fn attribute_values_of_each_kind() {
    let file = parse(r#"{ a = [ 1 2 ]; b = { c = "d"; }; n = 5; }"#);
    let a = get_attribute_value(&file.ast, "a").unwrap();
    assert_eq!(a.kind, 69);
    let b = get_attribute_value(&file.ast, "b").unwrap();
    assert!(is_attrset(b));
    let c = get_attribute_value(b, "c").unwrap();
    assert_eq!(extract_string_value(c), Some("d".to_string()));
    // A number is no value node of a binding.
    assert!(get_attribute_value(&file.ast, "n").is_none());
    assert!(find_attribute(&file.ast, "n").is_some());
}

#[test]
fn module_imports() {
    let file = parse(r#"{ imports = [ "./a.nix" "./b.nix" ]; }"#);
    assert_eq!(extract_imports(&file.ast), vec!["./a.nix".to_string(), "./b.nix".to_string()]);
    let none = parse(r#"{ imports = "x"; }"#);
    assert!(extract_imports(&none.ast).is_empty());
}

#[test]
fn lambdas_calls_and_paths() {
    let file = parse("x: builtins.derivation { }");
    let lambda = &file.ast.children[0];
    assert!(is_lambda(lambda));
    assert!(!is_lambda(&file.ast));
    // rnix puts the parameter name in its own node, so the first child is no identifier.
    assert_eq!(get_lambda_param(lambda), None);
    assert!(get_lambda_body(lambda).is_some());
    assert!(contains_function_call(&file.ast, "derivation"));
    assert!(!contains_function_call(&file.ast, "mkShell"));

    let set = parse("{ a.b.c = 1; }");
    let paths = find_all_by_kind(&set.ast, 55);
    assert_eq!(paths.len(), 1);
    assert_eq!(
        extract_attr_path(paths[0]),
        Some(vec!["a".to_string(), "b".to_string(), "c".to_string()])
    );
    assert_eq!(extract_attr_path(&set.ast), None);
    let idents = find_all_by_kind(&set.ast, 58);
    assert_eq!(idents.len(), 3);
}
