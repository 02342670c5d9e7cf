use cim_domain_nix::reader::{IoError, NixReader, TopologyReader};
use cim_domain_nix::topology::{ConnectionType, NixTopology, TopologyConnection, TopologyNode, TopologyNodeType, NetworkType};
use cim_domain_nix::validator::{NixValidator, ValidationResult};
use cim_domain_nix::value::{NixAttrset, NixValue};

#[test]
fn test_read_empty_topology() {
    let reader = TopologyReader::new();
    let value = NixValue::Attrset(NixAttrset::new());
    let result = reader.read_from_value(&value, "test".to_string());
    assert!(result.is_ok());

    let topology = result.unwrap();
    assert_eq!(topology.nodes.len(), 0);
    assert_eq!(topology.networks.len(), 0);
}

#[test]
fn test_string_parsing_empty() {
    let reader = TopologyReader::new();
    let result = reader.read_string("{ }");
    assert!(result.is_ok());

    let topology = result.unwrap();
    assert_eq!(topology.nodes.len(), 0);
    assert_eq!(topology.networks.len(), 0);
}

#[test]
fn test_string_parsing_with_node() {
    let reader = TopologyReader::new();
    let content = r#"{
            nodes = {
                server01 = {
                    type = "physical";
                    system = "x86_64-linux";
                };
            };
        }"#;

    let result = reader.read_string(content);
    assert!(result.is_ok());

    let topology = result.unwrap();
    assert_eq!(topology.nodes.len(), 1);
    assert!(topology.nodes.contains_key("server01"));
}

#[test]
fn test_string_parsing_with_network() {
    let reader = TopologyReader::new();
    let content = r#"{
            networks = {
                lan = {
                    type = "lan";
                    cidr_v4 = "192.168.1.0/24";
                };
            };
        }"#;

    let result = reader.read_string(content);
    assert!(result.is_ok());

    let topology = result.unwrap();
    assert_eq!(topology.networks.len(), 1);
    assert!(topology.networks.contains_key("lan"));
}

#[test]
fn reading_a_full_document() {
    let reader = TopologyReader::new();
    let content = r#"{
        nodes = {
            vm1 = {
                type = "vm";
                hardware = { cpu_cores = 4; memory_mb = 2048; };
                interfaces = [ { name = "eth0"; network = "lan"; ip_address = "10.0.0.2"; } { network = "x"; } ];
            };
        };
        networks = { mgmt = { type = "management"; cidr_v6 = "fd00::/8"; }; };
        connections = [
            { from_node = "vm1"; from_interface = "eth0"; to_node = "sw"; to_interface = "p1"; type = "wireless"; }
            { from_node = "vm1"; }
        ];
    }"#;
    let t = reader.read_string(content).unwrap();
    assert_eq!(t.name, "imported-topology");
    let n = t.get_node("vm1").unwrap();
    assert_eq!(n.node_type, TopologyNodeType::VirtualMachine);
    assert_eq!(n.system, "x86_64-linux");
    let hw = n.hardware.as_ref().unwrap();
    assert_eq!(hw.cpu_cores, Some(4));
    assert_eq!(hw.memory_mb, Some(2048));
    assert_eq!(hw.storage_gb, None);
    assert_eq!(n.interfaces.len(), 1);
    assert_eq!(n.interfaces[0].name, "eth0");
    assert_eq!(n.interfaces[0].ip_address, Some("10.0.0.2".to_string()));
    let net = t.get_network("mgmt").unwrap();
    assert_eq!(net.network_type, NetworkType::Management);
    assert_eq!(net.cidr_v6, Some("fd00::/8".to_string()));
    assert_eq!(t.connections.len(), 1);
    assert_eq!(t.connections[0].connection_type, ConnectionType::Wireless);
}

#[test]
fn reading_a_non_attrset_fails() {
    let reader = TopologyReader::new();
    match reader.read_string("[ 1 2 ]") {
        Err(IoError::ParseError(m)) => assert_eq!(m, "Expected attrset at root"),
        other => panic!("unexpected {:?}", other.is_ok()),
    }
}

#[test]
fn reading_bad_syntax_fails_with_parse_message() {
    let reader = TopologyReader::new();
    match reader.read_string("{ x = ") {
        Err(IoError::ParseError(m)) => assert!(m.starts_with("Failed to parse Nix: AST error: Parse error: ")),
        _ => panic!("expected a parse error"),
    }
}

#[test]
fn test_validate_empty_topology() {
    let validator = NixValidator::new();
    let value = NixValue::Attrset(NixAttrset::new());
    let result = validator.validate_topology_value(&value);
    assert!(result.is_valid());
}

#[test]
fn test_string_validation_empty() {
    let validator = NixValidator::new();
    let result = validator.validate_topology_content("{ }");
    assert!(result.is_ok());

    let validation_result = result.unwrap();
    assert!(validation_result.is_valid());
}

#[test]
fn test_string_validation_valid_node() {
    let validator = NixValidator::new();
    let content = r#"{
            nodes = {
                server01 = {
                    type = "physical";
                    system = "x86_64-linux";
                };
            };
        }"#;

    let result = validator.validate_topology_content(content);
    assert!(result.is_ok());

    let validation_result = result.unwrap();
    assert!(validation_result.is_valid());
}

#[test]
fn test_string_validation_invalid_syntax() {
    let validator = NixValidator::new();
    let content = "{ invalid syntax";

    let result = validator.validate_topology_content(content);
    assert!(result.is_ok());

    let validation_result = result.unwrap();
    assert!(!validation_result.is_valid());
    assert!(!validation_result.errors.is_empty());
}

#[test]
fn test_validate_topology_object() {
    let validator = NixValidator::new();
    let mut topology = NixTopology::new("test".to_string());
    topology.add_node(TopologyNode::new(
        "server01".to_string(),
        TopologyNodeType::PhysicalServer,
        "x86_64-linux".to_string(),
    ));
    let result = validator.validate_topology(&topology);
    assert!(result.is_valid());
}

#[test]
fn test_validate_broken_connection_reference() {
    let validator = NixValidator::new();
    let mut topology = NixTopology::new("test".to_string());
    topology.add_connection(TopologyConnection::new(
        "server01".to_string(),
        "eth0".to_string(),
        "server02".to_string(),
        "eth0".to_string(),
        ConnectionType::Ethernet,
    ));
    let result = validator.validate_topology(&topology);
    assert!(!result.is_valid());
    assert!(result.errors.iter().any(|e| e.contains("non-existent")));
}

#[test]
fn validation_messages_in_order() {
    let validator = NixValidator::new();
    let content = r#"{
        nodes = {
            a = { type = "robot"; hardware = { cpu_cores = "many"; }; interfaces = [ 1 { x = 1; } ]; };
            b = 3;
        };
        networks = { n = { type = "lan"; cidr_v4 = "10.0.0.0"; }; };
        connections = [ { from_node = "a"; type = "ethernet"; } 5 ];
    }"#;
    let r = validator.validate_topology_content(content).unwrap();
    assert!(!r.is_valid());
    assert_eq!(
        r.errors,
        vec![
            "Node 'a' cpu_cores must be an integer".to_string(),
            "Node 'a' interface 0 must be an attribute set".to_string(),
            "Node 'a' interface 1 missing name".to_string(),
            "Node 'b' must be an attribute set".to_string(),
            "Network 'n' cidr_v4 must be in CIDR notation (x.x.x.x/y)".to_string(),
            "Connection 0 missing required field 'from_interface'".to_string(),
            "Connection 0 missing required field 'to_node'".to_string(),
            "Connection 0 missing required field 'to_interface'".to_string(),
            "Connection 1 must be an attribute set".to_string(),
        ]
    );
    assert_eq!(
        r.warnings,
        vec![
            "Node 'a' missing system field".to_string(),
            "Node 'a' has unknown type 'robot'".to_string(),
        ]
    );
}

#[test]
fn root_must_be_an_attrset() {
    let validator = NixValidator::new();
    let r = validator.validate_topology_content("42").unwrap();
    assert_eq!(r.errors, vec!["Root must be an attribute set".to_string()]);
}

#[test]
fn name_conflicts_are_errors() {
    let validator = NixValidator::new();
    let mut topology = NixTopology::new("t".to_string());
    topology.add_node(TopologyNode::new("lan".to_string(), TopologyNodeType::NetworkDevice, "x".to_string()));
    topology.add_network(cim_domain_nix::topology::TopologyNetwork::new("lan".to_string(), NetworkType::LAN));
    let r = validator.validate_topology(&topology);
    assert_eq!(r.errors, vec!["Name conflict: 'lan' used for both node and network".to_string()]);
}

#[test]
fn results_merge() {
    let mut a = ValidationResult::new();
    a.add_warning("w".to_string());
    let mut b = ValidationResult::new();
    b.add_error("e".to_string());
    a.merge(b);
    assert!(!a.is_valid());
    assert_eq!(a.errors, vec!["e".to_string()]);
    assert_eq!(a.warnings, vec!["w".to_string()]);
    let mut c = ValidationResult::default();
    c.merge(ValidationResult::new());
    assert!(c.is_valid());
}
