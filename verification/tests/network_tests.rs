use cim_domain_nix::domain_error::NixDomainError;
use cim_domain_nix::network::{InterfaceChangeEvent, InterfaceChangeType};
use cim_domain_nix::named::NameMap;
use cim_domain_nix::network::{
    DnsConfig, InterfaceConfig, InterfaceType, IpAddress, NetworkConfig, NetworkConnection,
    NetworkEventHandler, NetworkInterface, NetworkNode, NetworkSystemHandler, NetworkTopology,
    NetworkType, NodeType, RouteConfig, ServiceConfig,
};
use cim_domain_nix::network_builder::{NetworkSystemBuilder, SystemBuildConfig};
use cim_domain_nix::value::NixValue;

fn node(name: &str, node_type: NodeType, interfaces: Vec<NetworkInterface>, services: Vec<&str>) -> NetworkNode {
    NetworkNode {
        id: uuid::Uuid::new_v4(),
        name: name.to_string(),
        node_type,
        interfaces,
        services: services.into_iter().map(|s| s.to_string()).collect(),
        metadata: NameMap::new(),
    }
}

fn interface(name: &str, interface_type: InterfaceType, addresses: Vec<IpAddress>) -> NetworkInterface {
    NetworkInterface {
        name: name.to_string(),
        mac_address: None,
        interface_type,
        addresses,
        mtu: None,
        vlan_id: None,
        bridge_members: vec![],
    }
}

fn names(services: &[ServiceConfig]) -> Vec<String> {
    services.iter().map(|s| s.name.clone()).collect()
}

fn attr<'a>(v: &'a NixValue, name: &str) -> &'a NixValue {
    match v {
        NixValue::Attrset(a) => a.get(name).expect("attribute"),
        _ => panic!("not an attribute set"),
    }
}

fn text(v: &NixValue) -> String {
    match v {
        NixValue::String(s) => s.value.clone(),
        _ => panic!("not a string"),
    }
}

fn strings(v: &NixValue) -> Vec<String> {
    match v {
        NixValue::List(l) => l.elements.iter().map(text).collect(),
        _ => panic!("not a list"),
    }
}

#[test]
fn test_network_topology() {
    let node = node("gateway", NodeType::Gateway, vec![], vec!["dhcp"]);
    assert!(node.is_router());
    assert!(node.should_run_dhcp());
    assert!(node.should_run_dns());
}

#[test]
fn test_ip_address() {
    let static_ip = IpAddress::new_static("192.168.1.1".to_string(), 24);
    assert_eq!(static_ip.to_cidr(), Some("192.168.1.1/24".to_string()));

    let dhcp_ip = IpAddress::new_dhcp();
    assert_eq!(dhcp_ip.to_cidr(), None);
}

#[test]
fn test_event_handler_creation() {
    let handler = NetworkEventHandler::new();
    let subjects = handler.get_subscription_subjects();

    assert!(subjects.contains(&"network.topology.created".to_string()));
    assert!(subjects.contains(&"network.interface.added".to_string()));
    assert_eq!(subjects.len(), 9);
}

#[test]
fn test_network_module_generation() {
    let config = NetworkConfig {
        interfaces: vec![InterfaceConfig {
            name: "eth0".to_string(),
            mac_address: None,
            addresses: vec!["192.168.1.10/24".to_string()],
            dhcp: false,
            mtu: Some(1500),
        }],
        routes: vec![RouteConfig {
            destination: "0.0.0.0/0".to_string(),
            gateway: Some("192.168.1.1".to_string()),
            interface: "eth0".to_string(),
        }],
        dns: Some(DnsConfig {
            nameservers: vec!["8.8.8.8".to_string(), "8.8.4.4".to_string()],
            search_domains: vec!["example.com".to_string()],
        }),
    };

    let handler = NetworkSystemHandler::new();
    let module = handler.generate_network_module(&config);

    assert!(module.contains("interfaces"));
    assert!(module.contains("eth0"));
    assert!(module.contains("192.168.1.10"));
    assert!(module.contains("routes"));
    assert!(module.contains("nameservers"));
}

#[test]
fn test_system_builder() {
    let builder = NetworkSystemBuilder::new();
    let node = node("gateway", NodeType::Gateway, vec![], vec!["dhcp"]);
    let topology = NetworkTopology::new(
        uuid::Uuid::new_v4(),
        "test-network".to_string(),
        vec![node.clone()],
        vec![],
    );

    let config = builder.build_system_for_node(&node, &topology).unwrap();

    assert_eq!(config.hostname, "gateway");
    assert_eq!(config.node_id, node.id);
    assert!(config.firewall_config.is_some());
}

#[test]
fn gateway_services_and_firewall() {
    let wan = interface("wan0", InterfaceType::Ethernet, vec![IpAddress::new_static("1.2.3.4".to_string(), 24)]);
    let lan = interface("lan0", InterfaceType::Ethernet, vec![IpAddress::new_static("192.168.1.1".to_string(), 24)]);
    let lo = interface("lo", InterfaceType::Loopback, vec![]);
    let gw = node("gw", NodeType::Gateway, vec![wan, lan, lo], vec!["monitoring"]);
    let topology = NetworkTopology::new(uuid::Uuid::new_v4(), "net".to_string(), vec![gw.clone()], vec![]);

    let config = NetworkSystemBuilder::new().build_system_for_node(&gw, &topology).unwrap();
    assert_eq!(
        names(&config.services),
        vec!["openssh", "ip-forwarding", "dhcpd4", "unbound", "nat", "prometheus"]
    );

    let dhcp = &config.services[2].settings;
    assert_eq!(strings(attr(dhcp, "interfaces")), vec!["wan0", "lan0"]);
    assert_eq!(
        text(attr(dhcp, "extraConfig")),
        "subnet 192.168.1.0 netmask 255.255.255.0 {\n  range 192.168.1.100 192.168.1.200;\n  option routers 1.2.3.4;\n  option domain-name-servers 1.2.3.4;\n}"
    );

    let nat = attr(&config.services[4].settings, "networking.nat");
    assert_eq!(text(attr(nat, "externalInterface")), "wan0");
    assert_eq!(strings(attr(nat, "internalInterfaces")), vec!["lan0", "lo"]);

    let firewall = config.firewall_config.unwrap();
    assert!(firewall.enable);
    assert_eq!(firewall.allowed_tcp_ports, vec![22, 53, 9090]);
    assert_eq!(firewall.allowed_udp_ports, vec![67, 68, 53]);

    // A router serves DNS itself.
    let dns = config.network_config.dns.unwrap();
    assert_eq!(dns.nameservers, vec!["127.0.0.1"]);
    assert!(config.network_config.routes.is_empty());
    assert_eq!(config.network_config.interfaces.len(), 3);
    assert_eq!(config.network_config.interfaces[0].addresses, vec!["1.2.3.4/24"]);
}

#[test]
fn workstation_routes_through_router() {
    let r_lan = interface("lan0", InterfaceType::Ethernet, vec![IpAddress::new_static("10.1.0.1".to_string(), 16)]);
    let router = node("r1", NodeType::Router, vec![r_lan], vec![]);
    let ws_eth = interface("eth1", InterfaceType::Ethernet, vec![IpAddress::new_dhcp()]);
    let ws = node("ws", NodeType::Workstation, vec![ws_eth], vec!["wireguard"]);
    let link = NetworkConnection {
        from_node: router.id,
        from_interface: "lan0".to_string(),
        to_node: ws.id,
        to_interface: "eth1".to_string(),
        network_type: NetworkType::Ethernet,
    };
    let topology = NetworkTopology::new(
        uuid::Uuid::new_v4(),
        "office".to_string(),
        vec![router.clone(), ws.clone()],
        vec![link],
    );

    let mut config = SystemBuildConfig::default();
    config.enable_ssh = false;
    let built = NetworkSystemBuilder::with_config(config).build_system_for_node(&ws, &topology).unwrap();

    let routes = &built.network_config.routes;
    assert_eq!(routes.len(), 1);
    assert_eq!(routes[0].destination, "0.0.0.0/0");
    assert_eq!(routes[0].gateway, Some("10.1.0.1".to_string()));
    assert_eq!(routes[0].interface, "eth1");
    assert_eq!(built.network_config.dns.unwrap().nameservers, vec!["10.1.0.1"]);
    assert!(built.network_config.interfaces[0].dhcp);
    assert!(built.network_config.interfaces[0].addresses.is_empty());

    assert_eq!(names(&built.services), vec!["wireguard"]);
    let wg = attr(attr(&built.services[0].settings, "networking.wireguard.interfaces"), "wg0");
    assert_eq!(strings(attr(wg, "ips")), vec!["10.0.0.1/24"]);
    let firewall = built.firewall_config.unwrap();
    assert!(firewall.allowed_tcp_ports.is_empty());
    assert_eq!(firewall.allowed_udp_ports, vec![51820]);
}

#[test]
fn public_dns_when_no_machine_serves_it() {
    let eth = interface("eth0", InterfaceType::Ethernet, vec![]);
    let ws = node("ws", NodeType::Workstation, vec![eth], vec![]);
    let topology = NetworkTopology::new(uuid::Uuid::new_v4(), "n".to_string(), vec![ws.clone()], vec![]);
    let built = NetworkSystemBuilder::new().build_system_for_node(&ws, &topology).unwrap();
    assert_eq!(built.network_config.dns.unwrap().nameservers, vec!["8.8.8.8", "8.8.4.4"]);
    assert!(built.network_config.routes.is_empty());
    assert_eq!(names(&built.services), vec!["openssh"]);
}

#[test]
fn server_roles_and_access_points() {
    let mut web = node("web", NodeType::Server, vec![], vec![]);
    web.metadata.insert("role".to_string(), "web".to_string());
    let mut db = node("db", NodeType::Server, vec![], vec![]);
    db.metadata.insert("role".to_string(), "database".to_string());
    let wifi = interface("wlan0", InterfaceType::Wifi, vec![]);
    let mut ap = node("ap", NodeType::AccessPoint, vec![interface("eth0", InterfaceType::Ethernet, vec![]), wifi], vec![]);
    ap.metadata.insert("channel".to_string(), "11".to_string());
    let topology = NetworkTopology::new(
        uuid::Uuid::new_v4(),
        "n".to_string(),
        vec![web.clone(), db.clone(), ap.clone()],
        vec![],
    );
    let builder = NetworkSystemBuilder::default();

    let w = builder.build_system_for_node(&web, &topology).unwrap();
    assert_eq!(names(&w.services), vec!["openssh", "nginx"]);
    assert_eq!(w.firewall_config.unwrap().allowed_tcp_ports, vec![22, 80, 443]);

    let d = builder.build_system_for_node(&db, &topology).unwrap();
    assert_eq!(names(&d.services), vec!["openssh", "postgresql"]);
    assert_eq!(d.firewall_config.unwrap().allowed_tcp_ports, vec![22, 5432]);

    let a = builder.build_system_for_node(&ap, &topology).unwrap();
    assert_eq!(names(&a.services), vec!["openssh", "hostapd"]);
    let hostapd = &a.services[1].settings;
    assert_eq!(text(attr(hostapd, "interface")), "wlan0");
    assert_eq!(text(attr(hostapd, "ssid")), "ap-wifi");
    match attr(hostapd, "channel") {
        NixValue::Integer(i) => assert_eq!(i.value, 11),
        _ => panic!("channel is not an integer"),
    }
}

#[test]
fn access_point_channel_defaults_to_six() {
    let mut ap = node("ap", NodeType::AccessPoint, vec![interface("wlan0", InterfaceType::Wifi, vec![])], vec![]);
    ap.metadata.insert("channel".to_string(), "300".to_string());
    ap.metadata.insert("ssid".to_string(), "home".to_string());
    let topology = NetworkTopology::new(uuid::Uuid::new_v4(), "n".to_string(), vec![ap.clone()], vec![]);
    let a = NetworkSystemBuilder::new().build_system_for_node(&ap, &topology).unwrap();
    let hostapd = &a.services[1].settings;
    assert_eq!(text(attr(hostapd, "ssid")), "home");
    match attr(hostapd, "channel") {
        NixValue::Integer(i) => assert_eq!(i.value, 6),
        _ => panic!("channel is not an integer"),
    }
}

#[test]
fn updating_an_unknown_system_names_it() {
    let mut handler = NetworkSystemHandler::new();
    let id = uuid::Uuid::parse_str("67e55044-10b1-426f-9247-bb680e5fe0c8").unwrap();
    let event = InterfaceChangeEvent {
        node_id: id,
        interface: interface("eth0", InterfaceType::Ethernet, vec![]),
        change_type: InterfaceChangeType::Added,
        timestamp: 0,
    };
    match handler.update_network_config(id, &event) {
        Err(NixDomainError::Other(m)) => {
            assert_eq!(m, "System 67e55044-10b1-426f-9247-bb680e5fe0c8 not found")
        }
        other => panic!("Expected an error, got {:?}", other),
    }
}
