use cim_domain_nix::domain_error::NixDomainError;
use cim_domain_nix::flake_parser::FlakeParser;
use cim_domain_nix::source_parser::NixFile;

#[test]
fn test_parse_simple_flake() {
    let content = r#"{
            description = "A test flake";
            inputs = {
                nixpkgs.url = "github:NixOS/nixpkgs/nixos-unstable";
            };
            outputs = { self, nixpkgs }: {
                packages.x86_64-linux.hello = nixpkgs.legacyPackages.x86_64-linux.hello;
            };
        }"#;

    let file = NixFile::parse_string(content.to_string(), None).unwrap();
    let flake = FlakeParser::parse(file).unwrap();

    assert_eq!(flake.description, Some("A test flake".to_string()));
    assert_eq!(flake.inputs.inputs.len(), 1);
    assert!(flake.inputs.inputs.contains_key("nixpkgs"));
}

#[test]
fn test_add_flake_input() {
    let content = r#"{
            description = "Test";
            inputs = {
                nixpkgs.url = "github:NixOS/nixpkgs";
            };
            outputs = { self, nixpkgs }: { };
        }"#;

    let file = NixFile::parse_string(content.to_string(), None).unwrap();
    let mut flake = FlakeParser::parse(file).unwrap();

    flake.add_input("flake-utils", "github:numtide/flake-utils").unwrap();

    assert_eq!(flake.inputs.inputs.len(), 2);
    assert!(flake.inputs.inputs.contains_key("flake-utils"));
    assert!(flake.to_string().contains("flake-utils"));
}

#[test]
fn inputs_written_out_and_edited() {
    let content = r#"{
  inputs = {
    nixpkgs = { url = "github:NixOS/nixpkgs"; };
  };
  outputs = { self }: { };
  nixConfig = {
    sandbox = true;
  };
}"#;
    let file = NixFile::parse_string(content.to_string(), Some("flake.nix".to_string())).unwrap();
    let mut flake = FlakeParser::parse(file).unwrap();
    assert!(flake.description.is_none());
    assert_eq!(flake.inputs.inputs.get("nixpkgs").unwrap().uri, "github:NixOS/nixpkgs");
    let config = flake.nix_config.as_ref().unwrap();
    assert_eq!(config.get("sandbox").unwrap(), "true");
    assert!(flake.outputs.packages.is_empty());

    flake.update_input("nixpkgs", "github:NixOS/nixpkgs/nixos-24.05").unwrap();
    assert_eq!(
        flake.to_string(),
        "{\n  inputs = {\n    nixpkgs.url = \"github:NixOS/nixpkgs/nixos-24.05\";\n  };\n\n  outputs = { self, ... }: {\n    # original outputs not kept\n  };\n\n  nixConfig = {\n    sandbox = true;\n  };\n}\n"
    );
    assert_eq!(flake.file.source, Some("flake.nix".to_string()));

    assert_eq!(
        flake.update_input("missing", "x"),
        Err(NixDomainError::ValidationError("Input 'missing' not found".to_string()))
    );
    assert_eq!(
        flake.remove_input("missing"),
        Err(NixDomainError::ValidationError("Input 'missing' not found".to_string()))
    );
    flake.remove_input("nixpkgs").unwrap();
    assert!(flake.inputs.inputs.is_empty());
    assert!(!flake.to_string().contains("inputs"));
}

#[test]
fn flakes_that_are_refused() {
    let broken = NixFile::parse_string("{ a = ".to_string(), None).unwrap();
    assert_eq!(
        FlakeParser::parse(broken).err(),
        Some(NixDomainError::ParseError("Cannot parse flake with syntax errors".to_string()))
    );
    let not_a_set = NixFile::parse_string("42".to_string(), None).unwrap();
    assert_eq!(
        FlakeParser::parse(not_a_set).err(),
        Some(NixDomainError::ParseError("Not a valid flake: no attribute set found".to_string()))
    );
}
