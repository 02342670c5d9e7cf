use cim_domain_nix::domain_error::NixDomainError;
use cim_domain_nix::flake_show::{EvaluationError, FlakeEvaluator};
use cim_domain_nix::git::{lock_nodes, parse_lock_log, parse_nix_file_changes};
use cim_domain_nix::home_manager::{ConverterKind, ProgramConverter};

#[test]
fn flake_show_text_is_decoded_and_read() {
    let evaluator = FlakeEvaluator::new();
    let text = r#"{
        "description": "A demo",
        "packages": { "x86_64-linux": { "hello": { "type": "derivation", "description": "greets" } } },
        "apps": { "x86_64-linux": { "run": { "type": "app" } } }
    }"#;
    let flake = evaluator.parse_flake_show_text(text).unwrap();
    assert_eq!(flake.description.as_deref(), Some("A demo"));
    let linux = flake.packages.get("x86_64-linux").unwrap();
    let hello = linux.get("hello").unwrap();
    assert_eq!(hello.name, "hello");
    assert_eq!(hello.pkg_type, "derivation");
    assert_eq!(hello.description.as_deref(), Some("greets"));
    assert_eq!(flake.apps.get("x86_64-linux").unwrap().len(), 1);
    assert_eq!(flake.checks.len(), 0);
}

#[test]
fn flake_show_text_that_is_not_json_is_a_parse_error() {
    let evaluator = FlakeEvaluator::new();
    match evaluator.parse_flake_show_text("{ not json") {
        Err(EvaluationError::ParseError(m)) => assert!(!m.is_empty()),
        other => panic!("Expected ParseError, got {:?}", other),
    }
}

#[test]
fn lock_nodes_read_the_locked_entries() {
    let text = r#"{
        "nodes": {
            "nixpkgs": {
                "locked": {
                    "type": "github", "owner": "NixOS", "repo": "nixpkgs",
                    "rev": "abc123", "lastModified": 1700000000, "narHash": "sha256-x"
                }
            },
            "root": { "inputs": { "nixpkgs": "nixpkgs" } },
            "local": { "locked": { "type": "path", "path": "/src", "lastModified": 1.5 } }
        },
        "root": "root",
        "version": 7
    }"#;
    let nodes = lock_nodes(text).unwrap();
    let names: Vec<&str> = nodes.iter().map(|(n, _)| n.as_str()).collect();
    assert_eq!(names, vec!["local", "nixpkgs", "root"]);
    let local = nodes[0].1.as_ref().unwrap();
    assert_eq!(local.input_type.as_deref(), Some("path"));
    assert_eq!(local.path.as_deref(), Some("/src"));
    assert_eq!(local.last_modified, None);
    let pkgs = nodes[1].1.as_ref().unwrap();
    assert_eq!(pkgs.owner.as_deref(), Some("NixOS"));
    assert_eq!(pkgs.repo.as_deref(), Some("nixpkgs"));
    assert_eq!(pkgs.rev.as_deref(), Some("abc123"));
    assert_eq!(pkgs.git_ref, None);
    assert_eq!(pkgs.last_modified, Some(1700000000));
    assert!(nodes[2].1.is_none());
}

#[test]
fn lock_nodes_of_bad_json_and_of_no_nodes() {
    match lock_nodes("[1, 2") {
        Err(NixDomainError::ParseError(m)) => assert!(m.starts_with("Invalid flake.lock JSON: ")),
        other => panic!("Expected ParseError, got {:?}", other),
    }
    assert!(lock_nodes(r#"{ "version": 7 }"#).unwrap().is_empty());
}

#[test]
fn supported_programs_have_no_duplicates() {
    let mut c = ProgramConverter::new();
    c.register_converter("git".to_string(), ConverterKind::Vim);
    c.register_converter("mutt".to_string(), ConverterKind::Git);
    let programs = c.supported_programs();
    assert_eq!(programs.len(), 9);
    for (i, a) in programs.iter().enumerate() {
        for b in programs.iter().skip(i + 1) {
            assert_ne!(a, b);
        }
        assert!(c.is_supported(a));
    }
    assert!(!c.is_supported("emacs"));
}

#[test]
fn times_chrono_refuses_are_dropped() {
    let text = r#"{ "nodes": {
        "a": { "locked": { "type": "github", "lastModified": 9223372036854775807 } },
        "b": { "locked": { "type": "github", "lastModified": -62135596800 } }
    } }"#;
    let nodes = lock_nodes(text).unwrap();
    assert_eq!(nodes[0].1.as_ref().unwrap().last_modified, None);
    assert_eq!(nodes[1].1.as_ref().unwrap().last_modified, Some(-62135596800));

    let entries = parse_lock_log("h1|9223372036854775807|A|a@x|m\nh2|1700000000|B|b@x|n\n");
    assert_eq!(entries.len(), 2);
    assert_eq!(entries[0].timestamp, None);
    assert_eq!(entries[1].timestamp, Some(1700000000));

    let changes = parse_nix_file_changes(
        "h1|9223372036854775807|A|a@x|far\nM\tflake.nix\nh2|1700000000|B|b@x|near\nA\tdefault.nix\n",
    );
    assert_eq!(changes.len(), 1);
    assert_eq!(changes[0].message, "near");
}
