//! nix-topology documents: nodes, networks and the connections between them.

use vstd::prelude::*;
use crate::ids::fresh_id;
use crate::named::{NameMap, insert, map_values_of, lemma_insert_map};
use crate::text;

verus! {

broadcast use vstd::string::group_string_axioms;

/// Errors of reading and checking a topology.
#[derive(Debug, Clone, PartialEq)]
pub enum TopologyError {
    /// The topology file could not be read.
    IoError(String),
    /// The topology source could not be parsed.
    ParseError(String),
    /// The topology is not consistent.
    InvalidTopology(String),
    /// A referenced node does not exist.
    MissingNode(String),
    /// A referenced network does not exist.
    MissingNetwork(String),
}

/// The message of a topology error.
pub open spec fn topology_error_message(e: TopologyError) -> Seq<char> {
    match e {
        TopologyError::IoError(m) => "IO error: "@ + m@,
        TopologyError::ParseError(m) => "Parse error: "@ + m@,
        TopologyError::InvalidTopology(m) => "Invalid topology: "@ + m@,
        TopologyError::MissingNode(m) => "Missing node: "@ + m@,
        TopologyError::MissingNetwork(m) => "Missing network: "@ + m@,
    }
}

impl TopologyError {
    /// The error as its `Display` prints it.
    pub fn to_string(&self) -> (s: String)
        ensures
            s@ == topology_error_message(*self),
    {
        let mut v: Vec<char> = Vec::new();
        let m = match self {
            TopologyError::IoError(m) => {
                text::append_str(&mut v, "IO error: ");
                m
            },
            TopologyError::ParseError(m) => {
                text::append_str(&mut v, "Parse error: ");
                m
            },
            TopologyError::InvalidTopology(m) => {
                text::append_str(&mut v, "Invalid topology: ");
                m
            },
            TopologyError::MissingNode(m) => {
                text::append_str(&mut v, "Missing node: ");
                m
            },
            TopologyError::MissingNetwork(m) => {
                text::append_str(&mut v, "Missing network: ");
                m
            },
        };
        text::append_str(&mut v, m.as_str());
        text::string_of(v.as_slice())
    }
}

/// The kind of a compute node.
#[derive(Debug, Clone, Copy, PartialEq, Eq, Hash, Structural)]
pub enum TopologyNodeType {
    /// A physical server.
    PhysicalServer,
    /// A virtual machine.
    VirtualMachine,
    /// A container.
    Container,
    /// A router, switch or other network device.
    NetworkDevice,
}

/// The word by which a nix-topology document names a kind of compute node
/// in a node's `type` field.
pub open spec fn node_type_name(t: TopologyNodeType) -> Seq<char> {
    match t {
        TopologyNodeType::PhysicalServer => "physical"@,
        TopologyNodeType::VirtualMachine => "vm"@,
        TopologyNodeType::Container => "container"@,
        TopologyNodeType::NetworkDevice => "network-device"@,
    }
}

/// The kind of a network.
#[derive(Debug, Clone, Copy, PartialEq, Eq, Hash, Structural)]
pub enum NetworkType {
    /// Local area network.
    LAN,
    /// Virtual LAN.
    VLAN,
    /// Virtual private network.
    VPN,
    /// Wide area network or the internet.
    WAN,
    /// Management network.
    Management,
}

/// The word by which a nix-topology document names a kind of network in a
/// network's `type` field.
pub open spec fn network_type_name(t: NetworkType) -> Seq<char> {
    match t {
        NetworkType::LAN => "lan"@,
        NetworkType::VLAN => "vlan"@,
        NetworkType::VPN => "vpn"@,
        NetworkType::WAN => "wan"@,
        NetworkType::Management => "management"@,
    }
}

/// The kind of a link between two nodes.
#[derive(Debug, Clone, Copy, PartialEq, Eq, Hash, Structural)]
pub enum ConnectionType {
    /// An ethernet cable.
    Ethernet,
    /// A virtual bridge.
    Bridge,
    /// A VPN tunnel.
    VPN,
    /// A wireless link.
    Wireless,
}

/// The word by which a nix-topology document names a kind of link in a
/// connection's `type` field.
pub open spec fn connection_type_name(t: ConnectionType) -> Seq<char> {
    match t {
        ConnectionType::Ethernet => "ethernet"@,
        ConnectionType::Bridge => "bridge"@,
        ConnectionType::VPN => "vpn"@,
        ConnectionType::Wireless => "wireless"@,
    }
}

/// Hardware of a node.
#[derive(Debug, Clone, PartialEq)]
pub struct HardwareConfig {
    /// CPU cores.
    pub cpu_cores: Option<u32>,
    /// Memory in MB.
    pub memory_mb: Option<u64>,
    /// Storage in GB.
    pub storage_gb: Option<u64>,
    /// Further details by name.
    pub details: NameMap<String>,
}

impl HardwareConfig {
    /// Hardware with nothing known.
    pub fn new() -> (r: Self)
        ensures
            r.cpu_cores is None,
            r.memory_mb is None,
            r.storage_gb is None,
            r.details.model().len() == 0,
    {
        HardwareConfig { cpu_cores: None, memory_mb: None, storage_gb: None, details: NameMap::new() }
    }
}

impl Default for HardwareConfig {
    fn default() -> (r: Self)
        ensures
            r.cpu_cores is None,
            r.memory_mb is None,
            r.storage_gb is None,
            r.details.model().len() == 0,
    {
        HardwareConfig::new()
    }
}

/// A network interface of a node.
#[derive(Debug, Clone, PartialEq)]
pub struct NodeInterface {
    /// Interface name, such as `eth0`.
    pub name: String,
    /// MAC address.
    pub mac_address: Option<String>,
    /// The network the interface is attached to.
    pub network: Option<String>,
    /// IPv4 or IPv6 address.
    pub ip_address: Option<String>,
    /// Whether this is the node's primary interface.
    pub primary: bool,
}

impl NodeInterface {
    /// An interface with only a name.
    pub fn new(name: String) -> (r: Self)
        ensures
            r.name == name,
            r.mac_address is None,
            r.network is None,
            r.ip_address is None,
            !r.primary,
    {
        NodeInterface { name, mac_address: None, network: None, ip_address: None, primary: false }
    }

    /// The interface attached to a network.
    pub fn with_network(self, network: String) -> (r: Self)
        ensures
            r == (NodeInterface { network: Some(network), ..self }),
    {
        NodeInterface { network: Some(network), ..self }
    }

    /// The interface with an address.
    pub fn with_ip(self, ip: String) -> (r: Self)
        ensures
            r == (NodeInterface { ip_address: Some(ip), ..self }),
    {
        NodeInterface { ip_address: Some(ip), ..self }
    }

    /// The interface marked primary.
    pub fn as_primary(self) -> (r: Self)
        ensures
            r == (NodeInterface { primary: true, ..self }),
    {
        NodeInterface { primary: true, ..self }
    }
}

/// A compute node: server, virtual machine, container or network device.
#[derive(Debug, Clone, PartialEq)]
pub struct TopologyNode {
    /// Identifier.
    pub id: uuid::Uuid,
    /// Name, unique within its topology.
    pub name: String,
    /// Kind of node.
    pub node_type: TopologyNodeType,
    /// System, such as `x86_64-linux`.
    pub system: String,
    /// Hardware, when known.
    pub hardware: Option<HardwareConfig>,
    /// Network interfaces.
    pub interfaces: Vec<NodeInterface>,
    /// Services running on the node.
    pub services: Vec<String>,
    /// The host of a guest.
    pub parent: Option<String>,
    /// The guests of a host.
    pub children: Vec<String>,
    /// Tags.
    pub tags: NameMap<String>,
}

impl TopologyNode {
    /// A node with nothing but its name, kind and system.
    pub fn new(name: String, node_type: TopologyNodeType, system: String) -> (r: Self)
        ensures
            r.name == name,
            r.node_type == node_type,
            r.system == system,
            r.hardware is None,
            r.interfaces@.len() == 0,
            r.services@.len() == 0,
            r.parent is None,
            r.children@.len() == 0,
            r.tags.model().len() == 0,
    {
        TopologyNode {
            id: fresh_id(),
            name,
            node_type,
            system,
            hardware: None,
            interfaces: Vec::new(),
            services: Vec::new(),
            parent: None,
            children: Vec::new(),
            tags: NameMap::new(),
        }
    }

    /// Adds an interface.
    pub fn add_interface(&mut self, interface: NodeInterface)
        ensures
            final(self).interfaces@ == old(self).interfaces@.push(interface),
            *final(self) == (TopologyNode { interfaces: final(self).interfaces, ..*old(self) }),
    {
        self.interfaces.push(interface);
    }

    /// Adds a service.
    pub fn add_service(&mut self, service: String)
        ensures
            final(self).services@ == old(self).services@.push(service),
            *final(self) == (TopologyNode { services: final(self).services, ..*old(self) }),
    {
        self.services.push(service);
    }

    /// Sets a tag.
    pub fn add_tag(&mut self, key: String, value: String)
        ensures
            final(self).tags.model() == insert(old(self).tags.model(), key@, value),
            *final(self) == (TopologyNode { tags: final(self).tags, ..*old(self) }),
    {
        self.tags.insert(key, value);
    }
}

/// A network: LAN, VLAN, VPN and so on.
#[derive(Debug, Clone, PartialEq)]
pub struct TopologyNetwork {
    /// Identifier.
    pub id: uuid::Uuid,
    /// Name.
    pub name: String,
    /// Kind of network.
    pub network_type: NetworkType,
    /// IPv4 range in CIDR notation.
    pub cidr_v4: Option<String>,
    /// IPv6 range in CIDR notation.
    pub cidr_v6: Option<String>,
    /// VLAN number.
    pub vlan_id: Option<u16>,
    /// Tags.
    pub tags: NameMap<String>,
}

impl TopologyNetwork {
    /// A network with nothing but its name and kind.
    pub fn new(name: String, network_type: NetworkType) -> (r: Self)
        ensures
            r.name == name,
            r.network_type == network_type,
            r.cidr_v4 is None,
            r.cidr_v6 is None,
            r.vlan_id is None,
            r.tags.model().len() == 0,
    {
        TopologyNetwork {
            id: fresh_id(),
            name,
            network_type,
            cidr_v4: None,
            cidr_v6: None,
            vlan_id: None,
            tags: NameMap::new(),
        }
    }

    /// The network with an IPv4 range.
    pub fn with_cidr_v4(self, cidr: String) -> (r: Self)
        ensures
            r == (TopologyNetwork { cidr_v4: Some(cidr), ..self }),
    {
        TopologyNetwork { cidr_v4: Some(cidr), ..self }
    }

    /// The network with an IPv6 range.
    pub fn with_cidr_v6(self, cidr: String) -> (r: Self)
        ensures
            r == (TopologyNetwork { cidr_v6: Some(cidr), ..self }),
    {
        TopologyNetwork { cidr_v6: Some(cidr), ..self }
    }

    /// The network with a VLAN number.
    pub fn with_vlan(self, vlan_id: u16) -> (r: Self)
        ensures
            r == (TopologyNetwork { vlan_id: Some(vlan_id), ..self }),
    {
        TopologyNetwork { vlan_id: Some(vlan_id), ..self }
    }

    /// Sets a tag.
    pub fn add_tag(&mut self, key: String, value: String)
        ensures
            final(self).tags.model() == insert(old(self).tags.model(), key@, value),
            *final(self) == (TopologyNetwork { tags: final(self).tags, ..*old(self) }),
    {
        self.tags.insert(key, value);
    }
}

/// A link between an interface of one node and an interface of another.
#[derive(Debug, Clone, PartialEq)]
pub struct TopologyConnection {
    /// Identifier.
    pub id: uuid::Uuid,
    /// Node at the source end.
    pub from_node: String,
    /// Interface at the source end.
    pub from_interface: String,
    /// Node at the destination end.
    pub to_node: String,
    /// Interface at the destination end.
    pub to_interface: String,
    /// Kind of link.
    pub connection_type: ConnectionType,
    /// Speed, such as `1Gbps`.
    pub speed: Option<String>,
}

impl TopologyConnection {
    /// A link between two interfaces.
    pub fn new(
        from_node: String,
        from_interface: String,
        to_node: String,
        to_interface: String,
        connection_type: ConnectionType,
    ) -> (r: Self)
        ensures
            r.from_node == from_node,
            r.from_interface == from_interface,
            r.to_node == to_node,
            r.to_interface == to_interface,
            r.connection_type == connection_type,
            r.speed is None,
    {
        TopologyConnection {
            id: fresh_id(),
            from_node,
            from_interface,
            to_node,
            to_interface,
            connection_type,
            speed: None,
        }
    }

    /// The link with a speed.
    pub fn with_speed(self, speed: String) -> (r: Self)
        ensures
            r == (TopologyConnection { speed: Some(speed), ..self }),
    {
        TopologyConnection { speed: Some(speed), ..self }
    }
}


// ---------------------------------------------------------------------------
// Views: the content of topology values, without their identifiers
// ---------------------------------------------------------------------------

/// The text of an optional string.
pub open spec fn opt_text(o: Option<String>) -> Option<Seq<char>> {
    match o {
        Some(s) => Some(s@),
        None => None,
    }
}

/// The text of each string.
pub open spec fn texts(s: Seq<String>) -> Seq<Seq<char>> {
    s.map_values(|x: String| x@)
}

/// The tags of a name map of strings, as text pairs.
pub open spec fn tag_texts(m: NameMap<String>) -> Seq<(Seq<char>, Seq<char>)> {
    map_values_of(m.model(), |x: String| x@)
}

/// The content of an interface.
pub struct InterfaceView {
    pub name: Seq<char>,
    pub mac_address: Option<Seq<char>>,
    pub network: Option<Seq<char>>,
    pub ip_address: Option<Seq<char>>,
    pub primary: bool,
}

/// The content of a hardware description.
pub struct HardwareView {
    pub cpu_cores: Option<u32>,
    pub memory_mb: Option<u64>,
    pub storage_gb: Option<u64>,
    pub details: Seq<(Seq<char>, Seq<char>)>,
}

/// The content of a node, without its identifier.
pub struct NodeView {
    pub name: Seq<char>,
    pub node_type: TopologyNodeType,
    pub system: Seq<char>,
    pub hardware: Option<HardwareView>,
    pub interfaces: Seq<InterfaceView>,
    pub services: Seq<Seq<char>>,
    pub parent: Option<Seq<char>>,
    pub children: Seq<Seq<char>>,
    pub tags: Seq<(Seq<char>, Seq<char>)>,
}

/// The content of a network, without its identifier.
pub struct NetworkView {
    pub name: Seq<char>,
    pub network_type: NetworkType,
    pub cidr_v4: Option<Seq<char>>,
    pub cidr_v6: Option<Seq<char>>,
    pub vlan_id: Option<u16>,
    pub tags: Seq<(Seq<char>, Seq<char>)>,
}

/// The content of a link, without its identifier.
pub struct ConnectionView {
    pub from_node: Seq<char>,
    pub from_interface: Seq<char>,
    pub to_node: Seq<char>,
    pub to_interface: Seq<char>,
    pub connection_type: ConnectionType,
    pub speed: Option<Seq<char>>,
}

/// The content of a topology, without identifiers.
pub struct TopologyView {
    pub name: Seq<char>,
    pub nodes: Seq<(Seq<char>, NodeView)>,
    pub networks: Seq<(Seq<char>, NetworkView)>,
    pub connections: Seq<ConnectionView>,
    pub source_path: Option<Seq<char>>,
}

impl View for NodeInterface {
    type V = InterfaceView;

    open spec fn view(&self) -> InterfaceView {
        InterfaceView {
            name: self.name@,
            mac_address: opt_text(self.mac_address),
            network: opt_text(self.network),
            ip_address: opt_text(self.ip_address),
            primary: self.primary,
        }
    }
}

impl View for HardwareConfig {
    type V = HardwareView;

    open spec fn view(&self) -> HardwareView {
        HardwareView {
            cpu_cores: self.cpu_cores,
            memory_mb: self.memory_mb,
            storage_gb: self.storage_gb,
            details: tag_texts(self.details),
        }
    }
}

/// The content of optional hardware.
pub open spec fn hardware_view(h: Option<HardwareConfig>) -> Option<HardwareView> {
    match h {
        Some(x) => Some(x@),
        None => None,
    }
}

impl View for TopologyNode {
    type V = NodeView;

    open spec fn view(&self) -> NodeView {
        NodeView {
            name: self.name@,
            node_type: self.node_type,
            system: self.system@,
            hardware: hardware_view(self.hardware),
            interfaces: self.interfaces@.map_values(|i: NodeInterface| i@),
            services: texts(self.services@),
            parent: opt_text(self.parent),
            children: texts(self.children@),
            tags: tag_texts(self.tags),
        }
    }
}

impl View for TopologyNetwork {
    type V = NetworkView;

    open spec fn view(&self) -> NetworkView {
        NetworkView {
            name: self.name@,
            network_type: self.network_type,
            cidr_v4: opt_text(self.cidr_v4),
            cidr_v6: opt_text(self.cidr_v6),
            vlan_id: self.vlan_id,
            tags: tag_texts(self.tags),
        }
    }
}

impl View for TopologyConnection {
    type V = ConnectionView;

    open spec fn view(&self) -> ConnectionView {
        ConnectionView {
            from_node: self.from_node@,
            from_interface: self.from_interface@,
            to_node: self.to_node@,
            to_interface: self.to_interface@,
            connection_type: self.connection_type,
            speed: opt_text(self.speed),
        }
    }
}

/// The content of the nodes of a topology.
pub open spec fn node_views(m: NameMap<TopologyNode>) -> Seq<(Seq<char>, NodeView)> {
    map_values_of(m.model(), |n: TopologyNode| n@)
}

/// The content of the networks of a topology.
pub open spec fn network_views(m: NameMap<TopologyNetwork>) -> Seq<(Seq<char>, NetworkView)> {
    map_values_of(m.model(), |n: TopologyNetwork| n@)
}

impl View for NixTopology {
    type V = TopologyView;

    open spec fn view(&self) -> TopologyView {
        TopologyView {
            name: self.name@,
            nodes: node_views(self.nodes),
            networks: network_views(self.networks),
            connections: self.connections@.map_values(|c: TopologyConnection| c@),
            source_path: opt_text(self.source_path),
        }
    }
}

/// Adding a node binds its name to its content.
pub proof fn lemma_add_node_view(m: NameMap<TopologyNode>, node: TopologyNode, r: NameMap<TopologyNode>)
    requires
        r.model() == insert(m.model(), node.name@, node),
    ensures
        node_views(r) == insert(node_views(m), node.name@, node@),
{
    lemma_insert_map(m.model(), |n: TopologyNode| n@, node.name@, node);
}

/// Adding a network binds its name to its content.
pub proof fn lemma_add_network_view(
    m: NameMap<TopologyNetwork>,
    network: TopologyNetwork,
    r: NameMap<TopologyNetwork>,
)
    requires
        r.model() == insert(m.model(), network.name@, network),
    ensures
        network_views(r) == insert(network_views(m), network.name@, network@),
{
    lemma_insert_map(m.model(), |n: TopologyNetwork| n@, network.name@, network);
}

/// A whole topology: nodes and networks by name, and the links between nodes.
#[derive(Debug, Clone, PartialEq)]
pub struct NixTopology {
    /// Identifier.
    pub id: uuid::Uuid,
    /// Name.
    pub name: String,
    /// Nodes by name.
    pub nodes: NameMap<TopologyNode>,
    /// Networks by name.
    pub networks: NameMap<TopologyNetwork>,
    /// Links between nodes.
    pub connections: Vec<TopologyConnection>,
    /// The file the topology was read from.
    pub source_path: Option<String>,
}

/// The nodes of a sequence of named nodes that are of the given kind, in order.
pub open spec fn nodes_of_type(s: Seq<(Seq<char>, TopologyNode)>, t: TopologyNodeType) -> Seq<
    TopologyNode,
>
    decreases s.len(),
{
    if s.len() == 0 {
        Seq::empty()
    } else if s.last().1.node_type == t {
        nodes_of_type(s.drop_last(), t).push(s.last().1)
    } else {
        nodes_of_type(s.drop_last(), t)
    }
}

/// The links with the node at either end, in order.
pub open spec fn links_of(s: Seq<TopologyConnection>, node: Seq<char>) -> Seq<TopologyConnection>
    decreases s.len(),
{
    if s.len() == 0 {
        Seq::empty()
    } else if s.last().from_node@ == node || s.last().to_node@ == node {
        links_of(s.drop_last(), node).push(s.last())
    } else {
        links_of(s.drop_last(), node)
    }
}

impl NixTopology {
    /// An empty topology.
    pub fn new(name: String) -> (r: Self)
        ensures
            r.name == name,
            r.nodes.model().len() == 0,
            r.networks.model().len() == 0,
            r.connections@.len() == 0,
            r.source_path is None,
    {
        NixTopology {
            id: fresh_id(),
            name,
            nodes: NameMap::new(),
            networks: NameMap::new(),
            connections: Vec::new(),
            source_path: None,
        }
    }

    /// The topology of a file that was read: it is named `parsed-topology`
    /// and remembers its path; the content is not interpreted.
    pub fn from_source(path: String) -> (r: Self)
        ensures
            r.name@ == "parsed-topology"@,
            r.nodes.model().len() == 0,
            r.networks.model().len() == 0,
            r.connections@.len() == 0,
            r.source_path == Some(path),
    {
        let mut t = NixTopology::new(text::string_from("parsed-topology"));
        t.source_path = Some(path);
        t
    }

    /// Adds a node, replacing a node of the same name.
    pub fn add_node(&mut self, node: TopologyNode)
        ensures
            final(self).nodes.model() == insert(old(self).nodes.model(), node.name@, node),
            *final(self) == (NixTopology { nodes: final(self).nodes, ..*old(self) }),
    {
        let name = node.name.clone();
        self.nodes.insert(name, node);
    }

    /// Adds a network, replacing a network of the same name.
    pub fn add_network(&mut self, network: TopologyNetwork)
        ensures
            final(self).networks.model() == insert(
                old(self).networks.model(),
                network.name@,
                network,
            ),
            *final(self) == (NixTopology { networks: final(self).networks, ..*old(self) }),
    {
        let name = network.name.clone();
        self.networks.insert(name, network);
    }

    /// Adds a link.
    pub fn add_connection(&mut self, connection: TopologyConnection)
        ensures
            final(self).connections@ == old(self).connections@.push(connection),
            *final(self) == (NixTopology { connections: final(self).connections, ..*old(self) }),
    {
        self.connections.push(connection);
    }

    /// The node of a name.
    pub fn get_node(&self, name: &str) -> (r: Option<&TopologyNode>)
        ensures
            match crate::named::lookup(self.nodes.model(), name@) {
                Some(v) => r matches Some(x) && *x == v,
                None => r is None,
            },
    {
        self.nodes.get(name)
    }

    /// The network of a name.
    pub fn get_network(&self, name: &str) -> (r: Option<&TopologyNetwork>)
        ensures
            match crate::named::lookup(self.networks.model(), name@) {
                Some(v) => r matches Some(x) && *x == v,
                None => r is None,
            },
    {
        self.networks.get(name)
    }

    /// The nodes of a kind, in the order of the nodes.
    pub fn nodes_by_type(&self, node_type: &TopologyNodeType) -> (r: Vec<&TopologyNode>)
        ensures
            r@.len() == nodes_of_type(self.nodes.model(), *node_type).len(),
            forall|i: int|
                0 <= i < r@.len() ==> *r@[i] == nodes_of_type(self.nodes.model(), *node_type)[i],
    {
        let mut r: Vec<&TopologyNode> = Vec::new();
        let mut i: usize = 0;
        let ghost m = self.nodes.model();
        assert(m.take(0) =~= Seq::<(Seq<char>, TopologyNode)>::empty());
        while i < self.nodes.len()
            invariant
                i <= m.len(),
                m == self.nodes.model(),
                r@.len() == nodes_of_type(m.take(i as int), *node_type).len(),
                forall|j: int|
                    0 <= j < r@.len() ==> *r@[j] == nodes_of_type(m.take(i as int), *node_type)[j],
            decreases m.len() - i,
        {
            let n = self.nodes.value_at(i);
            proof {
                assert(m.take(i + 1).drop_last() =~= m.take(i as int));
            }
            if n.node_type == *node_type {
                r.push(n);
            }
            i = i + 1;
        }
        assert(m.take(m.len() as int) =~= m);
        r
    }

    /// The links with the node at either end, in order.
    pub fn connections_for_node(&self, node_name: &str) -> (r: Vec<&TopologyConnection>)
        ensures
            r@.len() == links_of(self.connections@, node_name@).len(),
            forall|i: int|
                0 <= i < r@.len() ==> *r@[i] == links_of(self.connections@, node_name@)[i],
    {
        let mut r: Vec<&TopologyConnection> = Vec::new();
        let mut i: usize = 0;
        let ghost s = self.connections@;
        let name = text::chars_of(node_name);
        assert(s.take(0) =~= Seq::<TopologyConnection>::empty());
        while i < self.connections.len()
            invariant
                i <= s.len(),
                s == self.connections@,
                name@ == node_name@,
                r@.len() == links_of(s.take(i as int), node_name@).len(),
                forall|j: int|
                    0 <= j < r@.len() ==> *r@[j] == links_of(s.take(i as int), node_name@)[j],
            decreases s.len() - i,
        {
            let c = &self.connections[i];
            proof {
                assert(s.take(i + 1).drop_last() =~= s.take(i as int));
            }
            let from = text::chars_of(c.from_node.as_str());
            let to = text::chars_of(c.to_node.as_str());
            if text::eq_chars(from.as_slice(), name.as_slice()) || text::eq_chars(
                to.as_slice(),
                name.as_slice(),
            ) {
                r.push(c);
            }
            i = i + 1;
        }
        assert(s.take(s.len() as int) =~= s);
        r
    }
}

impl Default for NixTopology {
    fn default() -> (r: Self)
        ensures
            r.name@ == "default-topology"@,
            r.nodes.model().len() == 0,
            r.networks.model().len() == 0,
            r.connections@.len() == 0,
            r.source_path is None,
    {
        NixTopology::new(text::string_from("default-topology"))
    }
}

} // verus!
