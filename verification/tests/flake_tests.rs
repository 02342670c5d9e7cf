use cim_domain_nix::ast::ast_to_value;
use cim_domain_nix::flake_analysis::{analyze_flake, FlakeAnalyzer};
use cim_domain_nix::flake_show::{EvaluationError, FlakeEvaluator, JsonValue};
use cim_domain_nix::nix_parser::NixParser;
use cim_domain_nix::value::{NixAttrset, NixString, NixValue};

#[test]
fn test_analyze_simple_flake() {
    let flake_content = r#"{
            description = "Test flake";

            inputs = {
                nixpkgs.url = "github:NixOS/nixpkgs/nixos-unstable";
            };

            outputs = { self, nixpkgs }: {};
        }"#;

    let parser = NixParser::new();
    let ast = parser.parse_str(flake_content).unwrap();
    let value = ast_to_value(&ast).unwrap();

    let analyzer = FlakeAnalyzer::new();
    let analysis = analyzer.analyze(&value).unwrap();

    assert_eq!(analysis.description, Some("Test flake".to_string()));
    assert_eq!(analysis.inputs.len(), 1);
    assert_eq!(analysis.inputs[0].name, "nixpkgs");
}

fn string(s: &str) -> NixValue {
    NixValue::String(NixString { value: s.to_string() })
}

#[test]
fn inputs_with_url_and_follows() {
    let mut nixpkgs = NixAttrset::new();
    nixpkgs.insert("url".to_string(), string("github:NixOS/nixpkgs"));
    let mut utils = NixAttrset::new();
    utils.insert("url".to_string(), string("github:numtide/flake-utils"));
    utils.insert("follows".to_string(), string("nixpkgs"));
    let mut inputs = NixAttrset::new();
    inputs.insert("nixpkgs".to_string(), NixValue::Attrset(nixpkgs));
    inputs.insert("utils".to_string(), NixValue::Attrset(utils));
    inputs.insert("other".to_string(), string("not a set"));
    let mut root = NixAttrset::new();
    root.insert("description".to_string(), string("demo"));
    root.insert("inputs".to_string(), NixValue::Attrset(inputs));

    let analysis = analyze_flake(&NixValue::Attrset(root)).unwrap();
    assert_eq!(analysis.description, Some("demo".to_string()));
    let names: Vec<&str> = analysis.inputs.iter().map(|i| i.name.as_str()).collect();
    assert_eq!(names, vec!["nixpkgs", "utils", "other"]);
    assert_eq!(analysis.inputs[0].url, Some("github:NixOS/nixpkgs".to_string()));
    assert_eq!(analysis.inputs[0].follows, None);
    assert_eq!(analysis.inputs[1].follows, Some("nixpkgs".to_string()));
    assert_eq!(analysis.inputs[2].url, None);
    assert!(analysis.packages.is_empty());
    assert!(analysis.dev_shells.is_empty());
    assert!(analysis.system.is_none());

    // A value that is not an attribute set shows nothing.
    let nothing = analyze_flake(&string("x")).unwrap();
    assert!(nothing.description.is_none());
    assert!(nothing.inputs.is_empty());
}

#[test]
fn test_evaluator_creation() {
    let evaluator = FlakeEvaluator::new();
    assert_eq!(evaluator.command(), "nix");
}

fn obj(members: Vec<(&str, JsonValue)>) -> JsonValue {
    JsonValue::Object(members.into_iter().map(|(k, v)| (k.to_string(), v)).collect())
}

fn js(s: &str) -> JsonValue {
    JsonValue::String(s.to_string())
}

#[test]
fn reads_flake_show_report() {
    let report = obj(vec![
        ("apps", obj(vec![("x86_64-linux", obj(vec![("run", obj(vec![]))]))])),
        ("description", js("A flake")),
        (
            "devShells",
            obj(vec![("x86_64-linux", obj(vec![("default", obj(vec![("type", js("derivation"))]))]))]),
        ),
        (
            "packages",
            obj(vec![
                (
                    "x86_64-linux",
                    obj(vec![
                        ("hello", obj(vec![("type", js("derivation")), ("description", js("Says hello"))])),
                        ("tool", obj(vec![("type", js("custom"))])),
                    ]),
                ),
                ("aarch64-darwin", JsonValue::Null),
            ]),
        ),
        ("templates", obj(vec![])),
    ]);
    let evaluator = FlakeEvaluator::with_command("/run/current-system/sw/bin/nix".to_string());
    assert_eq!(evaluator.command(), "/run/current-system/sw/bin/nix");
    let flake = evaluator.parse_flake_show(&report).unwrap();
    assert_eq!(flake.description, Some("A flake".to_string()));

    let linux = flake.packages.get("x86_64-linux").unwrap();
    assert_eq!(linux.len(), 2);
    let hello = linux.get("hello").unwrap();
    assert_eq!(hello.pkg_type, "derivation");
    assert_eq!(hello.description, Some("Says hello".to_string()));
    assert_eq!(linux.get("tool").unwrap().pkg_type, "custom");
    assert_eq!(flake.packages.get("aarch64-darwin").unwrap().len(), 0);

    let app = flake.apps.get("x86_64-linux").unwrap().get("run").unwrap();
    assert_eq!(app.app_type, "app");
    assert_eq!(app.description, None);
    assert_eq!(flake.dev_shells.get("x86_64-linux").unwrap().get("default").unwrap().shell_type, "derivation");
    assert_eq!(flake.checks.len(), 0);
}

#[test]
fn show_arguments_and_errors() {
    let evaluator = FlakeEvaluator::default();
    assert_eq!(evaluator.show_args("."), vec!["flake", "show", "--json", "."]);
    assert_eq!(EvaluationError::NixError("boom".to_string()).to_string(), "Nix error: boom");
    assert_eq!(EvaluationError::CommandFailed("x".to_string()).to_string(), "Command failed: x");
    assert_eq!(EvaluationError::ParseError("y".to_string()).to_string(), "Parse error: y");
    assert_eq!(EvaluationError::NixNotAvailable.to_string(), "Nix command not available");
}
