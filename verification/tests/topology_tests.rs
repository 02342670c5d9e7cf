use std::collections::HashSet;
use cim_domain_nix::topology::{
    ConnectionType, HardwareConfig, NetworkType, NixTopology, NodeInterface, TopologyConnection,
    TopologyError, TopologyNetwork, TopologyNode, TopologyNodeType,
};

fn server(name: &str) -> TopologyNode {
    TopologyNode::new(name.to_string(), TopologyNodeType::PhysicalServer, "x86_64-linux".to_string())
}

#[test]
fn test_topology_creation() {
    let topology = NixTopology::new("test-topology".to_string());
    assert_eq!(topology.name, "test-topology");
    assert!(topology.nodes.is_empty());
    assert!(topology.networks.is_empty());
    assert!(topology.connections.is_empty());
}

#[test]
fn test_topology_add_node() {
    let mut topology = NixTopology::new("test".to_string());
    topology.add_node(server("server01"));
    assert_eq!(topology.nodes.len(), 1);
}

#[test]
fn test_topology_add_network() {
    let mut topology = NixTopology::new("test".to_string());
    let network = TopologyNetwork::new("lan".to_string(), NetworkType::LAN);
    topology.add_network(network);
    assert_eq!(topology.networks.len(), 1);
}

#[test]
fn test_topology_add_connection() {
    let mut topology = NixTopology::new("test".to_string());
    let conn = TopologyConnection::new(
        "server01".to_string(),
        "eth0".to_string(),
        "server02".to_string(),
        "eth0".to_string(),
        ConnectionType::Ethernet,
    );
    topology.add_connection(conn);
    assert_eq!(topology.connections.len(), 1);
}

#[test]
fn test_node_creation() {
    let node = server("server01");
    assert_eq!(node.name, "server01");
    assert_eq!(node.node_type, TopologyNodeType::PhysicalServer);
    assert!(node.interfaces.is_empty());
}

#[test]
fn test_node_add_interface() {
    let mut node = server("server01");
    node.add_interface(NodeInterface::new("eth0".to_string()));
    assert_eq!(node.interfaces.len(), 1);
}

#[test]
fn test_node_add_service() {
    let mut node = server("server01");
    node.add_service("nginx".to_string());
    assert_eq!(node.services.len(), 1);
}

#[test]
fn test_interface_creation() {
    let interface = NodeInterface::new("eth0".to_string());
    assert_eq!(interface.name, "eth0");
    assert!(!interface.primary);
}

#[test]
fn test_interface_with_network() {
    let interface = NodeInterface::new("eth0".to_string()).with_network("lan".to_string());
    assert_eq!(interface.network, Some("lan".to_string()));
}

#[test]
fn test_interface_with_ip() {
    let interface = NodeInterface::new("eth0".to_string()).with_ip("192.168.1.10".to_string());
    assert_eq!(interface.ip_address, Some("192.168.1.10".to_string()));
}

#[test]
fn test_interface_as_primary() {
    let interface = NodeInterface::new("eth0".to_string()).as_primary();
    assert!(interface.primary);
}

#[test]
fn test_network_creation() {
    let network = TopologyNetwork::new("lan".to_string(), NetworkType::LAN);
    assert_eq!(network.name, "lan");
    assert_eq!(network.network_type, NetworkType::LAN);
}

#[test]
fn test_network_with_cidr_v4() {
    let network = TopologyNetwork::new("lan".to_string(), NetworkType::LAN)
        .with_cidr_v4("192.168.1.0/24".to_string());
    assert_eq!(network.cidr_v4, Some("192.168.1.0/24".to_string()));
}

#[test]
fn test_network_with_vlan() {
    let network = TopologyNetwork::new("lan".to_string(), NetworkType::VLAN).with_vlan(100);
    assert_eq!(network.vlan_id, Some(100));
}

#[test]
fn test_connection_creation() {
    let conn = TopologyConnection::new(
        "server01".to_string(),
        "eth0".to_string(),
        "server02".to_string(),
        "eth0".to_string(),
        ConnectionType::Ethernet,
    );
    assert_eq!(conn.from_node, "server01");
    assert_eq!(conn.to_node, "server02");
}

#[test]
fn test_connection_with_speed() {
    let conn = TopologyConnection::new(
        "server01".to_string(),
        "eth0".to_string(),
        "server02".to_string(),
        "eth0".to_string(),
        ConnectionType::Ethernet,
    )
    .with_speed("1Gbps".to_string());
    assert_eq!(conn.speed, Some("1Gbps".to_string()));
}

#[test]
fn test_hardware_config() {
    let hw = HardwareConfig::new();
    assert!(hw.cpu_cores.is_none());
    assert!(hw.memory_mb.is_none());
}

#[test]
fn test_topology_get_node() {
    let mut topology = NixTopology::new("test".to_string());
    topology.add_node(server("server01"));
    assert!(topology.get_node("server01").is_some());
    assert!(topology.get_node("nonexistent").is_none());
}

#[test]
fn test_topology_nodes_by_type() {
    let mut topology = NixTopology::new("test".to_string());
    topology.add_node(server("server01"));
    topology.add_node(TopologyNode::new(
        "vm01".to_string(),
        TopologyNodeType::VirtualMachine,
        "x86_64-linux".to_string(),
    ));

    let servers = topology.nodes_by_type(&TopologyNodeType::PhysicalServer);
    assert_eq!(servers.len(), 1);

    let vms = topology.nodes_by_type(&TopologyNodeType::VirtualMachine);
    assert_eq!(vms.len(), 1);
}

#[test]
fn test_topology_default() {
    let topology = NixTopology::default();
    assert_eq!(topology.name, "default-topology");
    assert!(topology.nodes.is_empty());
}

#[test]
fn test_network_with_cidr_v6() {
    let network = TopologyNetwork::new("lan".to_string(), NetworkType::LAN)
        .with_cidr_v6("fe80::/64".to_string());
    assert_eq!(network.cidr_v6, Some("fe80::/64".to_string()));
}

#[test]
fn test_network_add_tag() {
    let mut network = TopologyNetwork::new("lan".to_string(), NetworkType::LAN);
    network.add_tag("environment".to_string(), "production".to_string());
    assert_eq!(network.tags.get("environment"), Some(&"production".to_string()));
}

#[test]
fn test_node_with_hardware() {
    let mut node = server("server01");
    let mut hw = HardwareConfig::new();
    hw.cpu_cores = Some(8);
    hw.memory_mb = Some(16384);
    hw.storage_gb = Some(1000);
    node.hardware = Some(hw);

    assert!(node.hardware.is_some());
    assert_eq!(node.hardware.as_ref().unwrap().cpu_cores, Some(8));
}

#[test]
fn test_hardware_config_details() {
    let mut hw = HardwareConfig::new();
    hw.details.insert("vendor".to_string(), "Dell".to_string());
    hw.details.insert("model".to_string(), "R730".to_string());
    assert_eq!(hw.details.get("vendor"), Some(&"Dell".to_string()));
}

#[test]
fn test_node_type_variants() {
    let phys = TopologyNodeType::PhysicalServer;
    let vm = TopologyNodeType::VirtualMachine;
    let cont = TopologyNodeType::Container;
    let net = TopologyNodeType::NetworkDevice;

    assert_ne!(phys, vm);
    assert_ne!(cont, net);
}

#[test]
fn test_network_type_variants() {
    let lan = NetworkType::LAN;
    let vlan = NetworkType::VLAN;
    let vpn = NetworkType::VPN;
    let wan = NetworkType::WAN;
    let mgmt = NetworkType::Management;

    assert_ne!(lan, vlan);
    assert_ne!(vpn, wan);
    assert_ne!(lan, mgmt);
}

#[test]
fn test_connection_type_variants() {
    let eth = ConnectionType::Ethernet;
    let bridge = ConnectionType::Bridge;
    let vpn = ConnectionType::VPN;
    let wireless = ConnectionType::Wireless;

    assert_ne!(eth, bridge);
    assert_ne!(vpn, wireless);
}

#[test]
fn test_topology_get_network() {
    let mut topology = NixTopology::new("test".to_string());
    topology.add_network(TopologyNetwork::new("lan".to_string(), NetworkType::LAN));
    assert!(topology.get_network("lan").is_some());
    assert!(topology.get_network("wan").is_none());
}

#[test]
fn test_topology_connections_for_node() {
    let mut topology = NixTopology::new("test".to_string());
    topology.add_connection(TopologyConnection::new(
        "server01".to_string(),
        "eth0".to_string(),
        "server02".to_string(),
        "eth0".to_string(),
        ConnectionType::Ethernet,
    ));
    topology.add_connection(TopologyConnection::new(
        "server01".to_string(),
        "eth1".to_string(),
        "server03".to_string(),
        "eth0".to_string(),
        ConnectionType::Ethernet,
    ));

    let conns = topology.connections_for_node("server01");
    assert_eq!(conns.len(), 2);

    let conns = topology.connections_for_node("server02");
    assert_eq!(conns.len(), 1);
}

#[test]
fn test_node_tags() {
    let mut node = server("server01");
    node.add_tag("version".to_string(), "1.0".to_string());
    node.add_tag("author".to_string(), "admin".to_string());

    assert_eq!(node.tags.get("version"), Some(&"1.0".to_string()));
    assert_eq!(node.tags.get("author"), Some(&"admin".to_string()));
}

#[test]
fn test_node_children_and_parent() {
    let mut node = TopologyNode::new(
        "hypervisor".to_string(),
        TopologyNodeType::PhysicalServer,
        "x86_64-linux".to_string(),
    );
    node.children.push("vm01".to_string());
    node.children.push("vm02".to_string());
    node.parent = Some("cluster".to_string());

    assert_eq!(node.children.len(), 2);
    assert_eq!(node.parent, Some("cluster".to_string()));
}

#[test]
fn test_interface_mac_address() {
    let mut interface = NodeInterface::new("eth0".to_string());
    interface.mac_address = Some("00:11:22:33:44:55".to_string());
    assert_eq!(interface.mac_address, Some("00:11:22:33:44:55".to_string()));
}

#[test]
fn test_connection_interfaces() {
    let conn = TopologyConnection::new(
        "server01".to_string(),
        "eth0".to_string(),
        "switch01".to_string(),
        "port1".to_string(),
        ConnectionType::Ethernet,
    );
    assert_eq!(conn.from_interface, "eth0");
    assert_eq!(conn.to_interface, "port1");
}

#[test]
fn test_network_types_hash() {

    let mut types: HashSet<NetworkType> = HashSet::new();
    types.insert(NetworkType::LAN);
    types.insert(NetworkType::VLAN);
    types.insert(NetworkType::VPN);
    assert_eq!(types.len(), 3);
}

#[test]
fn test_connection_types_hash() {

    let mut types: HashSet<ConnectionType> = HashSet::new();
    types.insert(ConnectionType::Ethernet);
    types.insert(ConnectionType::Bridge);
    types.insert(ConnectionType::Wireless);
    assert_eq!(types.len(), 3);
}

#[test]
fn adding_a_node_twice_replaces_it() {
    let mut topology = NixTopology::new("t".to_string());
    topology.add_node(server("a"));
    topology.add_node(TopologyNode::new(
        "a".to_string(),
        TopologyNodeType::Container,
        "aarch64-linux".to_string(),
    ));
    assert_eq!(topology.nodes.len(), 1);
    assert_eq!(topology.get_node("a").unwrap().node_type, TopologyNodeType::Container);
}

#[test]
fn nodes_keep_their_order() {
    let mut topology = NixTopology::new("t".to_string());
    topology.add_node(server("b"));
    topology.add_node(server("a"));
    assert_eq!(topology.nodes.name_at(0), "b");
    assert_eq!(topology.nodes.name_at(1), "a");
}

#[test]
fn source_topology_is_named_and_remembers_path() {
    let t = NixTopology::from_source("/tmp/topology.nix".to_string());
    assert_eq!(t.name, "parsed-topology");
    assert_eq!(t.source_path, Some("/tmp/topology.nix".to_string()));
}

#[test]
fn topology_error_messages() {
    assert_eq!(TopologyError::IoError("x".to_string()).to_string(), "IO error: x");
    assert_eq!(TopologyError::ParseError("x".to_string()).to_string(), "Parse error: x");
    assert_eq!(TopologyError::InvalidTopology("x".to_string()).to_string(), "Invalid topology: x");
    assert_eq!(TopologyError::MissingNode("n".to_string()).to_string(), "Missing node: n");
    assert_eq!(TopologyError::MissingNetwork("n".to_string()).to_string(), "Missing network: n");
}
