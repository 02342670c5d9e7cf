//! Reading nix-topology documents into topologies.
//!
//! A document is an attribute set with optional `nodes` and `networks`
//! attribute sets and an optional `connections` list:
//!
//! ```nix
//! {
//!   nodes = { server01 = { type = "physical"; system = "x86_64-linux"; }; };
//!   networks = { lan = { type = "lan"; cidr_v4 = "192.168.1.0/24"; }; };
//! }
//! ```

use vstd::prelude::*;
use crate::ast::{AstError, NixAst, ast_to_value, ast_value, parses, parsed_as};
use crate::named::{insert, lookup};
use crate::nix_parser::{NixParser, ParseError, parse_error_message};
use crate::syntax::{SyntaxNode, flat, rnix_parse};
use crate::text;
use crate::topology::{
    ConnectionType, ConnectionView, HardwareConfig, HardwareView, InterfaceView, NetworkType,
    NetworkView, NixTopology, NodeInterface, NodeView, TopologyConnection, TopologyNetwork,
    TopologyNode, TopologyNodeType, TopologyView, lemma_add_network_view, lemma_add_node_view,
    connection_type_name, network_type_name, node_type_name,
};
use crate::validator::{known_network_type, known_node_type};
use crate::value::{
    NixAttrset, NixValue, ValueModel, bindings_model, lemma_bindings_model, lemma_values_model_len,
    values_model,
};

verus! {

broadcast use vstd::string::group_string_axioms;

/// Errors of reading Nix files.
#[derive(Debug, Clone)]
pub enum IoError {
    /// The file does not exist.
    FileNotFound(String),
    /// The file could not be read.
    ReadFailed(String),
    /// The content is not a document of the expected shape.
    ParseError(String),
}

// ---------------------------------------------------------------------------
// What a document denotes
// ---------------------------------------------------------------------------

/// The string bound to a name, if the name is bound to a string.
pub open spec fn str_attr(a: Seq<(Seq<char>, ValueModel)>, k: Seq<char>) -> Option<Seq<char>> {
    match lookup(a, k) {
        Some(ValueModel::Str(s)) => Some(s),
        _ => None,
    }
}

/// The integer bound to a name, if the name is bound to an integer.
pub open spec fn int_attr(a: Seq<(Seq<char>, ValueModel)>, k: Seq<char>) -> Option<i64> {
    match lookup(a, k) {
        Some(ValueModel::Int(i)) => Some(i),
        _ => None,
    }
}

/// The kind of node a `type` names; a physical server by default.
pub open spec fn node_type_named(t: Option<Seq<char>>) -> TopologyNodeType {
    if t == Some("vm"@) {
        TopologyNodeType::VirtualMachine
    } else if t == Some("container"@) {
        TopologyNodeType::Container
    } else if t == Some("network-device"@) {
        TopologyNodeType::NetworkDevice
    } else {
        TopologyNodeType::PhysicalServer
    }
}

/// Each kind of compute node is read back from its own name, and the names
/// that the validator knows are exactly those names: reading a known name
/// gives the kind that bears it, so distinct known names give distinct kinds.
pub proof fn law_node_type_names(t: TopologyNodeType, a: Seq<char>, b: Seq<char>)
    ensures
        known_node_type(node_type_name(t)),
        node_type_named(Some(node_type_name(t))) == t,
        known_node_type(a) ==> node_type_name(node_type_named(Some(a))) == a,
        known_node_type(a) && known_node_type(b) && a != b ==> node_type_named(Some(a))
            != node_type_named(Some(b)),
{
    reveal_strlit("physical");
    reveal_strlit("vm");
    reveal_strlit("container");
    reveal_strlit("network-device");
    assert("physical"@.len() == 8 && "vm"@.len() == 2 && "container"@.len() == 9
        && "network-device"@.len() == 14);
}

/// The kind of network a `type` names; a LAN by default.
pub open spec fn network_type_named(t: Option<Seq<char>>) -> NetworkType {
    if t == Some("wan"@) {
        NetworkType::WAN
    } else if t == Some("vlan"@) {
        NetworkType::VLAN
    } else if t == Some("vpn"@) {
        NetworkType::VPN
    } else if t == Some("management"@) {
        NetworkType::Management
    } else {
        NetworkType::LAN
    }
}

/// The kind of link a `type` names; ethernet by default.
pub open spec fn connection_type_named(t: Option<Seq<char>>) -> ConnectionType {
    if t == Some("bridge"@) {
        ConnectionType::Bridge
    } else if t == Some("wireless"@) {
        ConnectionType::Wireless
    } else if t == Some("vpn"@) {
        ConnectionType::VPN
    } else {
        ConnectionType::Ethernet
    }
}

/// Each kind of network is read back from its own name, and the names
/// that the validator knows are exactly those names, so distinct known
/// names give distinct kinds.
pub proof fn law_network_type_names(t: NetworkType, a: Seq<char>, b: Seq<char>)
    ensures
        known_network_type(network_type_name(t)),
        network_type_named(Some(network_type_name(t))) == t,
        known_network_type(a) ==> network_type_name(network_type_named(Some(a))) == a,
        known_network_type(a) && known_network_type(b) && a != b ==> network_type_named(Some(a))
            != network_type_named(Some(b)),
{
    reveal_strlit("lan");
    reveal_strlit("wan");
    reveal_strlit("vlan");
    reveal_strlit("vpn");
    reveal_strlit("management");
    assert("lan"@.len() == 3 && "wan"@.len() == 3 && "vlan"@.len() == 4 && "vpn"@.len() == 3
        && "management"@.len() == 10);
    assert("lan"@[0] != "wan"@[0] && "lan"@[0] != "vpn"@[0] && "wan"@[0] != "vpn"@[0]);
}

/// Each kind of link is read back from its own name, and a missing or
/// unknown name reads as ethernet.
pub proof fn law_connection_type_names(t: ConnectionType, a: Seq<char>)
    ensures
        connection_type_named(Some(connection_type_name(t))) == t,
        connection_type_named(None) == ConnectionType::Ethernet,
        a != "bridge"@ && a != "wireless"@ && a != "vpn"@ ==> connection_type_named(Some(a))
            == ConnectionType::Ethernet,
{
    reveal_strlit("ethernet");
    reveal_strlit("bridge");
    reveal_strlit("vpn");
    reveal_strlit("wireless");
    assert("ethernet"@.len() == 8 && "bridge"@.len() == 6 && "vpn"@.len() == 3
        && "wireless"@.len() == 8);
    assert("ethernet"@[0] != "wireless"@[0]);
}

/// The interface a value describes: an attribute set with a `name`.
pub open spec fn interface_read(v: ValueModel) -> Option<InterfaceView> {
    match v {
        ValueModel::Attrs(a) => match str_attr(a, "name"@) {
            Some(n) => Some(
                InterfaceView {
                    name: n,
                    mac_address: str_attr(a, "mac_address"@),
                    network: str_attr(a, "network"@),
                    ip_address: str_attr(a, "ip_address"@),
                    primary: false,
                },
            ),
            None => None,
        },
        _ => None,
    }
}

/// The interfaces a list describes, skipping the elements that describe none.
pub open spec fn interfaces_read(s: Seq<ValueModel>) -> Seq<InterfaceView>
    decreases s.len(),
{
    if s.len() == 0 {
        Seq::empty()
    } else {
        match interface_read(s.last()) {
            Some(i) => interfaces_read(s.drop_last()).push(i),
            None => interfaces_read(s.drop_last()),
        }
    }
}

/// The size given for a hardware field, cast as the reader casts it.
pub open spec fn cores_of(i: Option<i64>) -> Option<u32> {
    match i {
        Some(x) => Some(x as u32),
        None => None,
    }
}

/// A size given for a hardware field, cast as the reader casts it.
pub open spec fn size_of_field(i: Option<i64>) -> Option<u64> {
    match i {
        Some(x) => Some(x as u64),
        None => None,
    }
}

/// The hardware a node's attributes describe, if they have a `hardware` set.
pub open spec fn hardware_read(a: Seq<(Seq<char>, ValueModel)>) -> Option<HardwareView> {
    match lookup(a, "hardware"@) {
        Some(ValueModel::Attrs(h)) => Some(
            HardwareView {
                cpu_cores: cores_of(int_attr(h, "cpu_cores"@)),
                memory_mb: size_of_field(int_attr(h, "memory_mb"@)),
                storage_gb: size_of_field(int_attr(h, "storage_gb"@)),
                details: Seq::empty(),
            },
        ),
        _ => None,
    }
}

/// The node a named value describes: any attribute set does.
pub open spec fn node_read(name: Seq<char>, v: ValueModel) -> Option<NodeView> {
    match v {
        ValueModel::Attrs(a) => Some(
            NodeView {
                name: name,
                node_type: node_type_named(str_attr(a, "type"@)),
                system: match str_attr(a, "system"@) {
                    Some(s) => s,
                    None => "x86_64-linux"@,
                },
                hardware: hardware_read(a),
                interfaces: match lookup(a, "interfaces"@) {
                    Some(ValueModel::List(l)) => interfaces_read(l),
                    _ => Seq::empty(),
                },
                services: Seq::empty(),
                parent: None,
                children: Seq::empty(),
                tags: Seq::empty(),
            },
        ),
        _ => None,
    }
}

/// The nodes a `nodes` attribute set describes, added in order.
pub open spec fn nodes_read(e: Seq<(Seq<char>, ValueModel)>) -> Seq<(Seq<char>, NodeView)>
    decreases e.len(),
{
    if e.len() == 0 {
        Seq::empty()
    } else {
        match node_read(e.last().0, e.last().1) {
            Some(n) => insert(nodes_read(e.drop_last()), e.last().0, n),
            None => nodes_read(e.drop_last()),
        }
    }
}

/// The network a named value describes: any attribute set does.
pub open spec fn network_read(name: Seq<char>, v: ValueModel) -> Option<NetworkView> {
    match v {
        ValueModel::Attrs(a) => Some(
            NetworkView {
                name: name,
                network_type: network_type_named(str_attr(a, "type"@)),
                cidr_v4: str_attr(a, "cidr_v4"@),
                cidr_v6: str_attr(a, "cidr_v6"@),
                vlan_id: None,
                tags: Seq::empty(),
            },
        ),
        _ => None,
    }
}

/// The networks a `networks` attribute set describes, added in order.
pub open spec fn networks_read(e: Seq<(Seq<char>, ValueModel)>) -> Seq<(Seq<char>, NetworkView)>
    decreases e.len(),
{
    if e.len() == 0 {
        Seq::empty()
    } else {
        match network_read(e.last().0, e.last().1) {
            Some(n) => insert(networks_read(e.drop_last()), e.last().0, n),
            None => networks_read(e.drop_last()),
        }
    }
}

/// The link a value describes: an attribute set naming both ends.
pub open spec fn connection_read(v: ValueModel) -> Option<ConnectionView> {
    match v {
        ValueModel::Attrs(a) => if str_attr(a, "from_node"@) is Some && str_attr(
            a,
            "from_interface"@,
        ) is Some && str_attr(a, "to_node"@) is Some && str_attr(a, "to_interface"@) is Some {
            Some(
                ConnectionView {
                    from_node: str_attr(a, "from_node"@)->0,
                    from_interface: str_attr(a, "from_interface"@)->0,
                    to_node: str_attr(a, "to_node"@)->0,
                    to_interface: str_attr(a, "to_interface"@)->0,
                    connection_type: connection_type_named(str_attr(a, "type"@)),
                    speed: None,
                },
            )
        } else {
            None
        },
        _ => None,
    }
}

/// The links a `connections` list describes, skipping the elements that
/// describe none.
pub open spec fn connections_read(s: Seq<ValueModel>) -> Seq<ConnectionView>
    decreases s.len(),
{
    if s.len() == 0 {
        Seq::empty()
    } else {
        match connection_read(s.last()) {
            Some(c) => connections_read(s.drop_last()).push(c),
            None => connections_read(s.drop_last()),
        }
    }
}

/// The topology a document denotes; none unless it is an attribute set.
pub open spec fn topology_read(v: ValueModel, name: Seq<char>) -> Option<TopologyView> {
    match v {
        ValueModel::Attrs(a) => Some(
            TopologyView {
                name: name,
                nodes: match lookup(a, "nodes"@) {
                    Some(ValueModel::Attrs(n)) => nodes_read(n),
                    _ => Seq::empty(),
                },
                networks: match lookup(a, "networks"@) {
                    Some(ValueModel::Attrs(n)) => networks_read(n),
                    _ => Seq::empty(),
                },
                connections: match lookup(a, "connections"@) {
                    Some(ValueModel::List(l)) => connections_read(l),
                    _ => Seq::empty(),
                },
                source_path: None,
            },
        ),
        _ => None,
    }
}

/// `r` is what reading a document value under a name gives.
pub open spec fn read_outcome(v: ValueModel, name: Seq<char>, r: Result<NixTopology, IoError>) -> bool {
    match topology_read(v, name) {
        Some(t) => r matches Ok(x) && x@ == t,
        None => r matches Err(IoError::ParseError(m)) && m@ == "Expected attrset at root"@,
    }
}

/// `r` is what reading a parsed tree gives.
pub open spec fn read_tree_outcome(t: SyntaxNode, r: Result<NixTopology, IoError>) -> bool {
    match ast_value(t) {
        Ok(v) => read_outcome(v, "imported-topology"@, r),
        Err(msg) => r matches Err(IoError::ParseError(m)) && m@ == "Failed to convert AST: "@
            + ("Invalid syntax: "@ + msg),
    }
}

/// `r` is what reading a source text gives: a parse failure with rnix's
/// error, or the reading of the tree rnix parses the text into.
pub open spec fn read_string_outcome(content: Seq<char>, r: Result<NixTopology, IoError>) -> bool {
    if parses(content) {
        exists|t: SyntaxNode| flat(t) == rnix_parse(content).0 && #[trigger] read_tree_outcome(t, r)
    } else {
        r matches Err(IoError::ParseError(m)) && exists|e: AstError|
            parsed_as(content, Err(e)) && m@ == "Failed to parse Nix: "@ + #[trigger] parse_error_message(
                ParseError::AstError(e),
            )
    }
}

// ---------------------------------------------------------------------------
// Reading
// ---------------------------------------------------------------------------

/// The string bound to a name.
fn string_attr(attrs: &NixAttrset, key: &str) -> (r: Option<String>)
    ensures
        crate::topology::opt_text(r) == str_attr(attrs.model(), key@),
{
    match attrs.get(key) {
        Some(NixValue::String(s)) => Some(s.value.clone()),
        _ => None,
    }
}

/// The integer bound to a name.
fn integer_attr(attrs: &NixAttrset, key: &str) -> (r: Option<i64>)
    ensures
        r == int_attr(attrs.model(), key@),
{
    match attrs.get(key) {
        Some(NixValue::Integer(i)) => Some(i.value),
        _ => None,
    }
}

/// Whether a string is exactly a literal.
fn is_text(s: &String, lit: &str) -> (b: bool)
    ensures
        b == (s@ == lit@),
{
    let v = text::chars_of(s.as_str());
    text::eq_str(v.as_slice(), lit)
}

/// Reader of nix-topology documents.
pub struct TopologyReader {
    parser: NixParser,
}

/// A reader of documents of some kind.
pub trait NixReader {
    /// What a document is read into.
    type Output;

    /// Reads a document from its source text.
    fn read_string(&self, content: &str) -> Result<Self::Output, IoError>;
}

impl TopologyReader {
    /// A reader.
    pub fn new() -> (r: Self) {
        TopologyReader { parser: NixParser::new() }
    }

    fn node_type_of(t: &Option<String>) -> (r: TopologyNodeType)
        ensures
            r == node_type_named(crate::topology::opt_text(*t)),
    {
        match t {
            Some(s) => if is_text(s, "vm") {
                TopologyNodeType::VirtualMachine
            } else if is_text(s, "container") {
                TopologyNodeType::Container
            } else if is_text(s, "network-device") {
                TopologyNodeType::NetworkDevice
            } else {
                TopologyNodeType::PhysicalServer
            },
            None => TopologyNodeType::PhysicalServer,
        }
    }

    fn network_type_of(t: &Option<String>) -> (r: NetworkType)
        ensures
            r == network_type_named(crate::topology::opt_text(*t)),
    {
        match t {
            Some(s) => if is_text(s, "wan") {
                NetworkType::WAN
            } else if is_text(s, "vlan") {
                NetworkType::VLAN
            } else if is_text(s, "vpn") {
                NetworkType::VPN
            } else if is_text(s, "management") {
                NetworkType::Management
            } else {
                NetworkType::LAN
            },
            None => NetworkType::LAN,
        }
    }

    fn connection_type_of(t: &Option<String>) -> (r: ConnectionType)
        ensures
            r == connection_type_named(crate::topology::opt_text(*t)),
    {
        match t {
            Some(s) => if is_text(s, "bridge") {
                ConnectionType::Bridge
            } else if is_text(s, "wireless") {
                ConnectionType::Wireless
            } else if is_text(s, "vpn") {
                ConnectionType::VPN
            } else {
                ConnectionType::Ethernet
            },
            None => ConnectionType::Ethernet,
        }
    }

    /// The interface a value describes.
    fn parse_interface(&self, value: &NixValue) -> (r: Option<NodeInterface>)
        ensures
            match interface_read(value.model()) {
                Some(iv) => r matches Some(i) && i@ == iv,
                None => r is None,
            },
    {
        let attrs = match value {
            NixValue::Attrset(attrs) => attrs,
            _ => return None,
        };
        let name = match string_attr(attrs, "name") {
            Some(n) => n,
            None => return None,
        };
        let mut interface = NodeInterface::new(name);
        interface.network = string_attr(attrs, "network");
        interface.ip_address = string_attr(attrs, "ip_address");
        interface.mac_address = string_attr(attrs, "mac_address");
        Some(interface)
    }

    /// The node a named value describes.
    fn parse_node(&self, name: &str, value: &NixValue) -> (r: Option<TopologyNode>)
        ensures
            match node_read(name@, value.model()) {
                Some(nv) => r matches Some(n) && n@ == nv,
                None => r is None,
            },
    {
        let attrs = match value {
            NixValue::Attrset(attrs) => attrs,
            _ => return None,
        };
        let a = Ghost(attrs.model());
        let node_type = Self::node_type_of(&string_attr(attrs, "type"));
        let system = match string_attr(attrs, "system") {
            Some(s) => s,
            None => text::string_from("x86_64-linux"),
        };
        let mut node = TopologyNode::new(text::string_from(name), node_type, system);
        match attrs.get("hardware") {
            Some(NixValue::Attrset(hw)) => {
                let mut hw_config = HardwareConfig::new();
                match integer_attr(hw, "cpu_cores") {
                    Some(c) => {
                        hw_config.cpu_cores = Some(c as u32);
                    },
                    None => {},
                }
                match integer_attr(hw, "memory_mb") {
                    Some(m) => {
                        hw_config.memory_mb = Some(m as u64);
                    },
                    None => {},
                }
                match integer_attr(hw, "storage_gb") {
                    Some(s) => {
                        hw_config.storage_gb = Some(s as u64);
                    },
                    None => {},
                }
                assert(crate::topology::tag_texts(hw_config.details) =~= Seq::<
                    (Seq<char>, Seq<char>),
                >::empty());
                node.hardware = Some(hw_config);
            },
            _ => {},
        }
        assert(hardware_view_eq(node.hardware, hardware_read(a@)));
        proof {
            assert(node.interfaces@.map_values(|i: NodeInterface| i@) =~= Seq::<
                InterfaceView,
            >::empty());
            assert(crate::topology::texts(node.services@) =~= Seq::<Seq<char>>::empty());
            assert(crate::topology::texts(node.children@) =~= Seq::<Seq<char>>::empty());
            assert(crate::topology::tag_texts(node.tags) =~= Seq::<(Seq<char>, Seq<char>)>::empty());
        }
        let ghost base = node@;
        match attrs.get("interfaces") {
            Some(NixValue::List(interfaces)) => {
                let ghost vs = values_model(interfaces.elements@);
                proof {
                    lemma_values_model_len(interfaces.elements@);
                }
                let mut i: usize = 0;
                assert(vs.take(0) =~= Seq::<ValueModel>::empty());
                while i < interfaces.elements.len()
                    invariant
                        i <= interfaces.elements@.len(),
                        vs == values_model(interfaces.elements@),
                        vs.len() == interfaces.elements@.len(),
                        forall|j: int|
                            0 <= j < vs.len() ==> vs[j] == interfaces.elements@[j].model(),
                        node@ == (NodeView { interfaces: interfaces_read(vs.take(i as int)), ..base }),
                    decreases interfaces.elements@.len() - i,
                {
                    proof {
                        assert(vs.take(i + 1).drop_last() =~= vs.take(i as int));
                        assert(vs.take(i + 1).last() == interfaces.elements@[i as int].model());
                    }
                    match self.parse_interface(&interfaces.elements[i]) {
                        Some(iface) => {
                            let ghost before = node.interfaces@;
                            node.add_interface(iface);
                            proof {
                                assert(node.interfaces@.map_values(|x: NodeInterface| x@) =~= before.map_values(
                                    |x: NodeInterface| x@,
                                ).push(iface@));
                            }
                        },
                        None => {},
                    }
                    i = i + 1;
                }
                assert(vs.take(vs.len() as int) =~= vs);
            },
            _ => {},
        }
        Some(node)
    }

    /// The network a named value describes.
    fn parse_network(&self, name: &str, value: &NixValue) -> (r: Option<TopologyNetwork>)
        ensures
            match network_read(name@, value.model()) {
                Some(nv) => r matches Some(n) && n@ == nv,
                None => r is None,
            },
    {
        let attrs = match value {
            NixValue::Attrset(attrs) => attrs,
            _ => return None,
        };
        let network_type = Self::network_type_of(&string_attr(attrs, "type"));
        let mut network = TopologyNetwork::new(text::string_from(name), network_type);
        match string_attr(attrs, "cidr_v4") {
            Some(c) => {
                network = network.with_cidr_v4(c);
            },
            None => {},
        }
        match string_attr(attrs, "cidr_v6") {
            Some(c) => {
                network = network.with_cidr_v6(c);
            },
            None => {},
        }
        assert(crate::topology::tag_texts(network.tags) =~= Seq::<(Seq<char>, Seq<char>)>::empty());
        Some(network)
    }

    /// The link a value describes.
    fn parse_connection(&self, value: &NixValue) -> (r: Option<TopologyConnection>)
        ensures
            match connection_read(value.model()) {
                Some(cv) => r matches Some(c) && c@ == cv,
                None => r is None,
            },
    {
        let attrs = match value {
            NixValue::Attrset(attrs) => attrs,
            _ => return None,
        };
        let from_node = match string_attr(attrs, "from_node") {
            Some(s) => s,
            None => return None,
        };
        let from_interface = match string_attr(attrs, "from_interface") {
            Some(s) => s,
            None => return None,
        };
        let to_node = match string_attr(attrs, "to_node") {
            Some(s) => s,
            None => return None,
        };
        let to_interface = match string_attr(attrs, "to_interface") {
            Some(s) => s,
            None => return None,
        };
        let connection_type = Self::connection_type_of(&string_attr(attrs, "type"));
        Some(TopologyConnection::new(from_node, from_interface, to_node, to_interface, connection_type))
    }

    /// The topology a document value describes.
    fn parse_topology_from_ast(&self, ast: &NixValue, name: String) -> (r: Result<NixTopology, IoError>)
        ensures
            read_outcome(ast.model(), name@, r),
    {
        let attrs = match ast {
            NixValue::Attrset(attrs) => attrs,
            _ => return Err(IoError::ParseError(text::string_from("Expected attrset at root"))),
        };
        let ghost name_text = name@;
        let mut topology = NixTopology::new(name);
        proof {
            assert(crate::topology::node_views(topology.nodes) =~= Seq::<(Seq<char>, NodeView)>::empty());
            assert(crate::topology::network_views(topology.networks) =~= Seq::<
                (Seq<char>, NetworkView),
            >::empty());
            assert(topology.connections@.map_values(|c: TopologyConnection| c@) =~= Seq::<
                ConnectionView,
            >::empty());
        }
        let ghost base = topology@;
        match attrs.get("nodes") {
            Some(NixValue::Attrset(nodes)) => {
                let ghost e = bindings_model(nodes.attributes@);
                proof {
                    lemma_bindings_model(nodes.attributes@);
                }
                let mut i: usize = 0;
                assert(e.take(0) =~= Seq::<(Seq<char>, ValueModel)>::empty());
                while i < nodes.attributes.len()
                    invariant
                        i <= nodes.attributes@.len(),
                        e == bindings_model(nodes.attributes@),
                        e.len() == nodes.attributes@.len(),
                        forall|j: int|
                            0 <= j < e.len() ==> #[trigger] e[j] == (
                                nodes.attributes@[j].name@,
                                nodes.attributes@[j].value.model(),
                            ),
                        topology@ == (TopologyView { nodes: nodes_read(e.take(i as int)), ..base }),
                    decreases nodes.attributes@.len() - i,
                {
                    proof {
                        assert(e.take(i + 1).drop_last() =~= e.take(i as int));
                        assert(e.take(i + 1).last() == e[i as int]);
                    }
                    let binding = &nodes.attributes[i];
                    match self.parse_node(binding.name.as_str(), &binding.value) {
                        Some(node) => {
                            let ghost before = topology.nodes;
                            topology.add_node(node);
                            proof {
                                lemma_add_node_view(before, node, topology.nodes);
                            }
                        },
                        None => {},
                    }
                    i = i + 1;
                }
                assert(e.take(e.len() as int) =~= e);
            },
            _ => {},
        }
        let ghost base2 = topology@;
        match attrs.get("networks") {
            Some(NixValue::Attrset(networks)) => {
                let ghost e = bindings_model(networks.attributes@);
                proof {
                    lemma_bindings_model(networks.attributes@);
                }
                let mut i: usize = 0;
                assert(e.take(0) =~= Seq::<(Seq<char>, ValueModel)>::empty());
                while i < networks.attributes.len()
                    invariant
                        i <= networks.attributes@.len(),
                        e == bindings_model(networks.attributes@),
                        e.len() == networks.attributes@.len(),
                        forall|j: int|
                            0 <= j < e.len() ==> #[trigger] e[j] == (
                                networks.attributes@[j].name@,
                                networks.attributes@[j].value.model(),
                            ),
                        topology@ == (TopologyView {
                            networks: networks_read(e.take(i as int)),
                            ..base2
                        }),
                    decreases networks.attributes@.len() - i,
                {
                    proof {
                        assert(e.take(i + 1).drop_last() =~= e.take(i as int));
                        assert(e.take(i + 1).last() == e[i as int]);
                    }
                    let binding = &networks.attributes[i];
                    match self.parse_network(binding.name.as_str(), &binding.value) {
                        Some(network) => {
                            let ghost before = topology.networks;
                            topology.add_network(network);
                            proof {
                                lemma_add_network_view(before, network, topology.networks);
                            }
                        },
                        None => {},
                    }
                    i = i + 1;
                }
                assert(e.take(e.len() as int) =~= e);
            },
            _ => {},
        }
        let ghost base3 = topology@;
        match attrs.get("connections") {
            Some(NixValue::List(connections)) => {
                let ghost vs = values_model(connections.elements@);
                proof {
                    lemma_values_model_len(connections.elements@);
                }
                let mut i: usize = 0;
                assert(vs.take(0) =~= Seq::<ValueModel>::empty());
                while i < connections.elements.len()
                    invariant
                        i <= connections.elements@.len(),
                        vs == values_model(connections.elements@),
                        vs.len() == connections.elements@.len(),
                        forall|j: int|
                            0 <= j < vs.len() ==> vs[j] == connections.elements@[j].model(),
                        topology@ == (TopologyView {
                            connections: connections_read(vs.take(i as int)),
                            ..base3
                        }),
                    decreases connections.elements@.len() - i,
                {
                    proof {
                        assert(vs.take(i + 1).drop_last() =~= vs.take(i as int));
                        assert(vs.take(i + 1).last() == connections.elements@[i as int].model());
                    }
                    match self.parse_connection(&connections.elements[i]) {
                        Some(c) => {
                            let ghost before = topology.connections@;
                            topology.add_connection(c);
                            proof {
                                assert(topology.connections@.map_values(|x: TopologyConnection| x@)
                                    =~= before.map_values(|x: TopologyConnection| x@).push(c@));
                            }
                        },
                        None => {},
                    }
                    i = i + 1;
                }
                assert(vs.take(vs.len() as int) =~= vs);
            },
            _ => {},
        }
        Ok(topology)
    }

    /// The topology a document value describes, under the given name.
    pub fn read_from_value(&self, value: &NixValue, name: String) -> (r: Result<NixTopology, IoError>)
        ensures
            read_outcome(value.model(), name@, r),
    {
        self.parse_topology_from_ast(value, name)
    }
}

/// Optional hardware has the given content.
pub open spec fn hardware_view_eq(h: Option<HardwareConfig>, v: Option<HardwareView>) -> bool {
    crate::topology::hardware_view(h) == v
}

impl NixReader for TopologyReader {
    type Output = NixTopology;

    /// Reads a topology from Nix source; it is named `imported-topology`.
    fn read_string(&self, content: &str) -> (r: Result<NixTopology, IoError>)
        ensures
            read_string_outcome(content@, r),
    {
        let ast = match self.parser.parse_str(content) {
            Ok(a) => a,
            Err(e) => {
                let mut m: Vec<char> = Vec::new();
                text::append_str(&mut m, "Failed to parse Nix: ");
                let t = e.to_string();
                text::append_str(&mut m, t.as_str());
                return Err(IoError::ParseError(text::string_of(m.as_slice())));
            },
        };
        let value = match ast_to_value(&ast) {
            Ok(v) => v,
            Err(e) => {
                let mut m: Vec<char> = Vec::new();
                text::append_str(&mut m, "Failed to convert AST: ");
                let t = e.to_string();
                text::append_str(&mut m, t.as_str());
                let r = Err(IoError::ParseError(text::string_of(m.as_slice())));
                assert(read_tree_outcome(ast.root, r));
                return r;
            },
        };
        let r = self.parse_topology_from_ast(&value, text::string_from("imported-topology"));
        assert(read_tree_outcome(ast.root, r));
        r
    }
}

impl Default for TopologyReader {
    fn default() -> (r: Self) {
        TopologyReader::new()
    }
}

} // verus!
