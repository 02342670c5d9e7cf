//! Networks of NixOS machines: nodes, interfaces and addresses, and the
//! network configuration generated for each machine.

use vstd::prelude::*;
use crate::ids::{hyphenated_form, id_text, same_id};
use crate::named::NameMap;
use crate::text;

verus! {

broadcast use vstd::string::group_string_axioms;

/// The role of a machine in a network.
#[derive(Debug, Clone, Copy, PartialEq, Eq, Structural)]
pub enum NodeType {
    /// A server.
    Server,
    /// A workstation.
    Workstation,
    /// A router.
    Router,
    /// A gateway between networks.
    Gateway,
    /// A wireless access point.
    AccessPoint,
    /// An IoT device.
    IoTDevice,
    /// A container.
    Container,
    /// A virtual machine.
    VirtualMachine,
}

/// The kind of a network interface.
#[derive(Debug, Clone, Copy, PartialEq, Eq, Structural)]
pub enum InterfaceType {
    /// Ethernet.
    Ethernet,
    /// Wireless.
    Wifi,
    /// A bridge of other interfaces.
    Bridge,
    /// A VLAN.
    Vlan,
    /// WireGuard.
    Wireguard,
    /// Loopback.
    Loopback,
    /// A virtual interface.
    Virtual,
}

/// An address of an interface, or the mark that it uses DHCP.
#[derive(Debug, Clone, PartialEq)]
pub struct IpAddress {
    /// The address.
    pub address: String,
    /// Length of the network prefix.
    pub prefix_length: u8,
    /// Whether the address comes from DHCP.
    pub dhcp: bool,
}

impl IpAddress {
    /// A static address.
    pub fn new_static(address: String, prefix_length: u8) -> (r: Self)
        ensures
            r == (IpAddress { address, prefix_length, dhcp: false }),
    {
        IpAddress { address, prefix_length, dhcp: false }
    }

    /// The DHCP mark.
    pub fn new_dhcp() -> (r: Self)
        ensures
            r.address@.len() == 0,
            r.prefix_length == 0,
            r.dhcp,
    {
        IpAddress { address: String::new(), prefix_length: 0, dhcp: true }
    }

    /// The address in CIDR notation; none for the DHCP mark.
    pub fn to_cidr(&self) -> (r: Option<String>)
        ensures
            match r {
                Some(s) => !self.dhcp && s@ == self.address@ + "/"@ + text::decimal_digits(
                    self.prefix_length as nat,
                ),
                None => self.dhcp,
            },
    {
        if self.dhcp {
            None
        } else {
            let mut v = text::chars_of(self.address.as_str());
            text::append_str(&mut v, "/");
            let d = text::decimal(self.prefix_length as u64);
            text::append_chars(&mut v, d.as_slice());
            Some(text::string_of(v.as_slice()))
        }
    }
}

/// A network interface.
#[derive(Debug, Clone, PartialEq)]
pub struct NetworkInterface {
    /// Its name, such as `eth0`.
    pub name: String,
    /// Its MAC address.
    pub mac_address: Option<String>,
    /// Its kind.
    pub interface_type: InterfaceType,
    /// Its addresses.
    pub addresses: Vec<IpAddress>,
    /// Its MTU.
    pub mtu: Option<u32>,
    /// Its VLAN number.
    pub vlan_id: Option<u16>,
    /// The members of a bridge.
    pub bridge_members: Vec<String>,
}

/// The static addresses of a sequence, in order.
pub open spec fn static_of(s: Seq<IpAddress>) -> Seq<IpAddress>
    decreases s.len(),
{
    if s.len() == 0 {
        Seq::empty()
    } else if !s.last().dhcp {
        static_of(s.drop_last()).push(s.last())
    } else {
        static_of(s.drop_last())
    }
}

impl NetworkInterface {
    /// Whether one of its addresses comes from DHCP.
    pub fn uses_dhcp(&self) -> (b: bool)
        ensures
            b == exists|i: int| 0 <= i < self.addresses@.len() && #[trigger] self.addresses@[i].dhcp,
    {
        let mut i: usize = 0;
        while i < self.addresses.len()
            invariant
                i <= self.addresses@.len(),
                forall|j: int| 0 <= j < i ==> !#[trigger] self.addresses@[j].dhcp,
            decreases self.addresses@.len() - i,
        {
            if self.addresses[i].dhcp {
                return true;
            }
            i = i + 1;
        }
        false
    }

    /// Its static addresses, in order.
    pub fn static_addresses(&self) -> (r: Vec<&IpAddress>)
        ensures
            r@.len() == static_of(self.addresses@).len(),
            forall|i: int| 0 <= i < r@.len() ==> *r@[i] == static_of(self.addresses@)[i],
    {
        let mut r: Vec<&IpAddress> = Vec::new();
        let mut i: usize = 0;
        let ghost s = self.addresses@;
        assert(s.take(0) =~= Seq::<IpAddress>::empty());
        while i < self.addresses.len()
            invariant
                i <= s.len(),
                s == self.addresses@,
                r@.len() == static_of(s.take(i as int)).len(),
                forall|j: int| 0 <= j < r@.len() ==> *r@[j] == static_of(s.take(i as int))[j],
            decreases s.len() - i,
        {
            proof {
                assert(s.take(i + 1).drop_last() =~= s.take(i as int));
            }
            if !self.addresses[i].dhcp {
                r.push(&self.addresses[i]);
            }
            i = i + 1;
        }
        assert(s.take(s.len() as int) =~= s);
        r
    }

    /// Whether it is a bridge.
    pub fn is_bridge(&self) -> (b: bool)
        ensures
            b == (self.interface_type == InterfaceType::Bridge),
    {
        self.interface_type == InterfaceType::Bridge
    }

    /// Whether it is a VLAN interface.
    pub fn is_vlan(&self) -> (b: bool)
        ensures
            b == self.vlan_id is Some,
    {
        self.vlan_id.is_some()
    }
}

/// A machine of a network.
#[derive(Debug, Clone, PartialEq)]
pub struct NetworkNode {
    /// Identifier.
    pub id: uuid::Uuid,
    /// Name.
    pub name: String,
    /// Role.
    pub node_type: NodeType,
    /// Interfaces.
    pub interfaces: Vec<NetworkInterface>,
    /// Services it runs.
    pub services: Vec<String>,
    /// Further data by key.
    pub metadata: NameMap<String>,
}

/// Routers and gateways route.
pub open spec fn routes_traffic(t: NodeType) -> bool {
    t == NodeType::Router || t == NodeType::Gateway
}

/// A list of names holds a name.
pub open spec fn lists(s: Seq<String>, n: Seq<char>) -> bool {
    exists|i: int| 0 <= i < s.len() && (#[trigger] s[i])@ == n
}

/// Whether a list of names holds a name.
fn has_service(s: &Vec<String>, n: &str) -> (b: bool)
    ensures
        b == lists(s@, n@),
{
    let nv = text::chars_of(n);
    let mut i: usize = 0;
    while i < s.len()
        invariant
            i <= s@.len(),
            nv@ == n@,
            forall|j: int| 0 <= j < i ==> (#[trigger] s@[j])@ != n@,
        decreases s@.len() - i,
    {
        let v = text::chars_of(s[i].as_str());
        if text::eq_chars(v.as_slice(), nv.as_slice()) {
            return true;
        }
        i = i + 1;
    }
    false
}

impl NetworkNode {
    /// Whether it routes: routers and gateways do.
    pub fn is_router(&self) -> (b: bool)
        ensures
            b == routes_traffic(self.node_type),
    {
        self.node_type == NodeType::Router || self.node_type == NodeType::Gateway
    }

    /// Whether it should serve DHCP: when it lists `dhcp` or routes.
    pub fn should_run_dhcp(&self) -> (b: bool)
        ensures
            b == (lists(self.services@, "dhcp"@) || routes_traffic(self.node_type)),
    {
        has_service(&self.services, "dhcp") || self.is_router()
    }

    /// Whether it should serve DNS: when it lists `dns` or routes.
    pub fn should_run_dns(&self) -> (b: bool)
        ensures
            b == (lists(self.services@, "dns"@) || routes_traffic(self.node_type)),
    {
        has_service(&self.services, "dns") || self.is_router()
    }

    /// Its first interface.
    pub fn primary_interface(&self) -> (r: Option<&NetworkInterface>)
        ensures
            match r {
                Some(i) => self.interfaces@.len() > 0 && *i == self.interfaces@[0],
                None => self.interfaces@.len() == 0,
            },
    {
        if self.interfaces.len() > 0 {
            Some(&self.interfaces[0])
        } else {
            None
        }
    }

    /// Its first interface of a name.
    pub fn get_interface(&self, name: &str) -> (r: Option<&NetworkInterface>)
        ensures
            match r {
                Some(i) => exists|k: int|
                    0 <= k < self.interfaces@.len() && *i == self.interfaces@[k] && i.name@ == name@
                        && forall|j: int| 0 <= j < k ==> #[trigger] self.interfaces@[j].name@ != name@,
                None => forall|j: int|
                    0 <= j < self.interfaces@.len() ==> #[trigger] self.interfaces@[j].name@ != name@,
            },
    {
        let nv = text::chars_of(name);
        let mut i: usize = 0;
        while i < self.interfaces.len()
            invariant
                i <= self.interfaces@.len(),
                nv@ == name@,
                forall|j: int| 0 <= j < i ==> #[trigger] self.interfaces@[j].name@ != name@,
            decreases self.interfaces@.len() - i,
        {
            let v = text::chars_of(self.interfaces[i].name.as_str());
            if text::eq_chars(v.as_slice(), nv.as_slice()) {
                return Some(&self.interfaces[i]);
            }
            i = i + 1;
        }
        None
    }
}

/// The kind of a network link.
#[derive(Debug, Clone, PartialEq)]
pub enum NetworkType {
    /// Ethernet.
    Ethernet,
    /// Wireless.
    Wifi,
    /// A bridge.
    Bridge,
    /// A VLAN with its number.
    Vlan(u16),
    /// WireGuard.
    Wireguard,
    /// Something else, by name.
    Other(String),
}

/// A link between interfaces of two machines.
#[derive(Debug, Clone, PartialEq)]
pub struct NetworkConnection {
    /// One machine.
    pub from_node: uuid::Uuid,
    /// Its interface.
    pub from_interface: String,
    /// The other machine.
    pub to_node: uuid::Uuid,
    /// Its interface.
    pub to_interface: String,
    /// The kind of link.
    pub network_type: NetworkType,
}

/// Machines and the links between them.
#[derive(Debug, Clone)]
pub struct NetworkTopology {
    /// Identifier.
    pub id: uuid::Uuid,
    /// Name.
    pub name: String,
    nodes: Vec<NetworkNode>,
    connections: Vec<NetworkConnection>,
}

/// The links with a machine at either end, in order.
pub open spec fn links_with(s: Seq<NetworkConnection>, id: uuid::Uuid) -> Seq<NetworkConnection>
    decreases s.len(),
{
    if s.len() == 0 {
        Seq::empty()
    } else if s.last().from_node == id || s.last().to_node == id {
        links_with(s.drop_last(), id).push(s.last())
    } else {
        links_with(s.drop_last(), id)
    }
}

/// The address range used for a kind of link, if there is one.
pub open spec fn subnet_for(t: NetworkType) -> Option<Seq<char>> {
    match t {
        NetworkType::Ethernet => Some("192.168.1.0/24"@),
        NetworkType::Wifi => Some("192.168.10.0/24"@),
        NetworkType::Wireguard => Some("10.0.0.0/24"@),
        NetworkType::Vlan(id) => Some("172.16."@ + text::decimal_digits((id % 256) as nat) + ".0/24"@),
        _ => None,
    }
}

impl NetworkTopology {
    /// A topology of machines and links.
    pub fn new(
        id: uuid::Uuid,
        name: String,
        nodes: Vec<NetworkNode>,
        connections: Vec<NetworkConnection>,
    ) -> (r: Self)
        ensures
            r.topology_id() == id,
            r.topology_name() == name@,
            r.node_list() == nodes@,
            r.connection_list() == connections@,
    {
        NetworkTopology { id, name, nodes, connections }
    }

    /// Its identifier.
    pub closed spec fn topology_id(&self) -> uuid::Uuid {
        self.id
    }

    /// Its name.
    pub closed spec fn topology_name(&self) -> Seq<char> {
        self.name@
    }

    /// Its machines.
    pub closed spec fn node_list(&self) -> Seq<NetworkNode> {
        self.nodes@
    }

    /// Its links.
    pub closed spec fn connection_list(&self) -> Seq<NetworkConnection> {
        self.connections@
    }

    /// Its machines.
    pub fn nodes(&self) -> (r: &[NetworkNode])
        ensures
            r@ == self.node_list(),
    {
        self.nodes.as_slice()
    }

    /// Its links.
    pub fn connections(&self) -> (r: &[NetworkConnection])
        ensures
            r@ == self.connection_list(),
    {
        self.connections.as_slice()
    }

    /// The first machine with an identifier.
    pub fn find_node(&self, node_id: uuid::Uuid) -> (r: Option<&NetworkNode>)
        ensures
            match r {
                Some(n) => exists|k: int|
                    0 <= k < self.node_list().len() && *n == self.node_list()[k] && n.id == node_id
                        && forall|j: int| 0 <= j < k ==> #[trigger] self.node_list()[j].id != node_id,
                None => forall|j: int|
                    0 <= j < self.node_list().len() ==> #[trigger] self.node_list()[j].id != node_id,
            },
    {
        let mut i: usize = 0;
        while i < self.nodes.len()
            invariant
                i <= self.nodes@.len(),
                forall|j: int| 0 <= j < i ==> #[trigger] self.nodes@[j].id != node_id,
            decreases self.nodes@.len() - i,
        {
            if same_id(&self.nodes[i].id, &node_id) {
                return Some(&self.nodes[i]);
            }
            i = i + 1;
        }
        None
    }

    /// The links with a machine at either end, in order.
    pub fn node_connections(&self, node_id: uuid::Uuid) -> (r: Vec<&NetworkConnection>)
        ensures
            r@.len() == links_with(self.connection_list(), node_id).len(),
            forall|i: int|
                0 <= i < r@.len() ==> *r@[i] == links_with(self.connection_list(), node_id)[i],
    {
        let mut r: Vec<&NetworkConnection> = Vec::new();
        let ghost s = self.connections@;
        let mut i: usize = 0;
        assert(s.take(0) =~= Seq::<NetworkConnection>::empty());
        while i < self.connections.len()
            invariant
                i <= s.len(),
                s == self.connections@,
                r@.len() == links_with(s.take(i as int), node_id).len(),
                forall|j: int| 0 <= j < r@.len() ==> *r@[j] == links_with(s.take(i as int), node_id)[j],
            decreases s.len() - i,
        {
            proof {
                assert(s.take(i + 1).drop_last() =~= s.take(i as int));
            }
            let c = &self.connections[i];
            if same_id(&c.from_node, &node_id) || same_id(&c.to_node, &node_id) {
                r.push(c);
            }
            i = i + 1;
        }
        assert(s.take(s.len() as int) =~= s);
        r
    }

    /// Whether a link is a WireGuard tunnel.
    pub fn has_wireguard(&self) -> (b: bool)
        ensures
            b == exists|i: int|
                0 <= i < self.connection_list().len() && (#[trigger] self.connection_list()[i]).network_type
                    is Wireguard,
    {
        let mut i: usize = 0;
        while i < self.connections.len()
            invariant
                i <= self.connections@.len(),
                forall|j: int| 0 <= j < i ==> !((#[trigger] self.connections@[j]).network_type is Wireguard),
            decreases self.connections@.len() - i,
        {
            match self.connections[i].network_type {
                NetworkType::Wireguard => return true,
                _ => {},
            }
            i = i + 1;
        }
        false
    }

    /// The address range used for a kind of link.
    pub fn get_subnet_for_type(&self, network_type: &NetworkType) -> (r: Option<String>)
        ensures
            match r {
                Some(s) => subnet_for(*network_type) == Some(s@),
                None => subnet_for(*network_type) is None,
            },
    {
        match network_type {
            NetworkType::Ethernet => Some(text::string_from("192.168.1.0/24")),
            NetworkType::Wifi => Some(text::string_from("192.168.10.0/24")),
            NetworkType::Wireguard => Some(text::string_from("10.0.0.0/24")),
            NetworkType::Vlan(id) => {
                let mut v: Vec<char> = Vec::new();
                text::append_str(&mut v, "172.16.");
                let d = text::decimal((*id % 256) as u64);
                text::append_chars(&mut v, d.as_slice());
                text::append_str(&mut v, ".0/24");
                Some(text::string_of(v.as_slice()))
            },
            _ => None,
        }
    }
}

/// A service offered on a network.
#[derive(Debug, Clone, PartialEq)]
pub struct NetworkService {
    /// Its name.
    pub name: String,
    /// Its port.
    pub port: Option<u16>,
    /// Its protocol.
    pub protocol: ServiceProtocol,
    /// Whether it is reachable from outside.
    pub public: bool,
}

/// Transport protocols of a service.
#[derive(Debug, Clone, Copy, PartialEq, Eq, Structural)]
pub enum ServiceProtocol {
    /// TCP.
    Tcp,
    /// UDP.
    Udp,
    /// TCP and UDP.
    Both,
}

// ---------------------------------------------------------------------------
// Generated configuration
// ---------------------------------------------------------------------------

/// Kinds of interface change.
#[derive(Debug, Clone, Copy, PartialEq, Eq, Structural)]
pub enum InterfaceChangeType {
    /// An interface was added.
    Added,
    /// An interface was removed.
    Removed,
    /// An interface changed.
    Updated,
}

/// Kinds of route change.
#[derive(Debug, Clone, Copy, PartialEq, Eq, Structural)]
pub enum RouteChangeType {
    /// A route was added.
    Added,
    /// A route was removed.
    Removed,
}

/// Kinds of firewall change.
#[derive(Debug, Clone, Copy, PartialEq, Eq, Structural)]
pub enum FirewallChangeType {
    /// A rule was added.
    Added,
    /// A rule was removed.
    Removed,
}

/// Direction of a firewall rule.
#[derive(Debug, Clone, Copy, PartialEq, Eq, Structural)]
pub enum FirewallDirection {
    /// Incoming traffic.
    Inbound,
    /// Outgoing traffic.
    Outbound,
}

/// What a firewall rule does.
#[derive(Debug, Clone, Copy, PartialEq, Eq, Structural)]
pub enum FirewallAction {
    /// Let the traffic through.
    Allow,
    /// Drop the traffic.
    Deny,
}

/// A route.
#[derive(Debug, Clone, PartialEq)]
pub struct NetworkRoute {
    /// Destination range.
    pub destination: String,
    /// Next hop.
    pub gateway: Option<String>,
    /// Outgoing interface.
    pub interface: String,
    /// Metric.
    pub metric: Option<u32>,
}

/// A firewall rule.
#[derive(Debug, Clone, PartialEq)]
pub struct FirewallRule {
    /// Name.
    pub name: String,
    /// Direction.
    pub direction: FirewallDirection,
    /// Protocol.
    pub protocol: Option<String>,
    /// Source range.
    pub source: Option<String>,
    /// Destination range.
    pub destination: Option<String>,
    /// Ports.
    pub ports: Option<Vec<u16>>,
    /// Action.
    pub action: FirewallAction,
}

/// The configuration of one interface.
#[derive(Debug, Clone, PartialEq)]
pub struct InterfaceConfig {
    /// Interface name.
    pub name: String,
    /// MAC address.
    pub mac_address: Option<String>,
    /// Static addresses in CIDR notation.
    pub addresses: Vec<String>,
    /// Whether DHCP is used.
    pub dhcp: bool,
    /// MTU.
    pub mtu: Option<u32>,
}

/// A route of a machine.
#[derive(Debug, Clone, PartialEq)]
pub struct RouteConfig {
    /// Destination range.
    pub destination: String,
    /// Next hop.
    pub gateway: Option<String>,
    /// Outgoing interface.
    pub interface: String,
}

/// Name resolution of a machine.
#[derive(Debug, Clone, PartialEq)]
pub struct DnsConfig {
    /// Name servers.
    pub nameservers: Vec<String>,
    /// Search domains.
    pub search_domains: Vec<String>,
}

/// The network configuration of a machine.
#[derive(Debug, Clone, PartialEq)]
pub struct NetworkConfig {
    /// Interfaces.
    pub interfaces: Vec<InterfaceConfig>,
    /// Routes.
    pub routes: Vec<RouteConfig>,
    /// Name resolution.
    pub dns: Option<DnsConfig>,
}

/// The firewall of a machine.
#[derive(Debug, Clone, PartialEq)]
pub struct FirewallConfig {
    /// Whether it is on.
    pub enable: bool,
    /// Open TCP ports.
    pub allowed_tcp_ports: Vec<u16>,
    /// Open UDP ports.
    pub allowed_udp_ports: Vec<u16>,
    /// Further rules.
    pub rules: Vec<FirewallRule>,
}

/// The text of each string.
pub open spec fn strs(s: Seq<String>) -> Seq<Seq<char>> {
    s.map_values(|x: String| x@)
}

/// The Nix line of one address, `ip/prefix`; nothing for text without `/`.
pub open spec fn address_line(a: Seq<char>) -> Seq<char> {
    match text::halves(a, '/') {
        Some((ip, prefix)) => "          { address = \""@ + ip + "\"; prefixLength = "@ + prefix
            + "; }\n"@,
        None => Seq::empty(),
    }
}

/// The Nix lines of addresses, in order.
pub open spec fn address_lines(s: Seq<Seq<char>>) -> Seq<char>
    decreases s.len(),
{
    if s.len() == 0 {
        Seq::empty()
    } else {
        address_lines(s.drop_last()) + address_line(s.last())
    }
}

/// The Nix text of one interface.
pub open spec fn interface_block(i: InterfaceConfig) -> Seq<char> {
    "      "@ + i.name@ + " = {\n"@ + (if i.dhcp {
        "        useDHCP = true;\n"@
    } else if i.addresses@.len() > 0 {
        "        ipv4.addresses = [\n"@ + address_lines(strs(i.addresses@)) + "        ];\n"@
    } else {
        Seq::empty()
    }) + (match i.mtu {
        Some(m) => "        mtu = "@ + text::decimal_digits(m as nat) + ";\n"@,
        None => Seq::empty(),
    }) + "      };\n"@
}

/// The Nix text of interfaces, in order.
pub open spec fn interface_blocks(s: Seq<InterfaceConfig>) -> Seq<char>
    decreases s.len(),
{
    if s.len() == 0 {
        Seq::empty()
    } else {
        interface_blocks(s.drop_last()) + interface_block(s.last())
    }
}

/// The Nix text of one route.
pub open spec fn route_block(r: RouteConfig) -> Seq<char> {
    "      {\n"@ + "        address = \""@ + r.destination@ + "\";\n"@ + (match r.gateway {
        Some(g) => "        via = \""@ + g@ + "\";\n"@,
        None => Seq::empty(),
    }) + "        interface = \""@ + r.interface@ + "\";\n"@ + "      }\n"@
}

/// The Nix text of routes, in order.
pub open spec fn route_blocks(s: Seq<RouteConfig>) -> Seq<char>
    decreases s.len(),
{
    if s.len() == 0 {
        Seq::empty()
    } else {
        route_blocks(s.drop_last()) + route_block(s.last())
    }
}

/// Quoted strings separated by blanks.
pub open spec fn quoted_list(s: Seq<Seq<char>>) -> Seq<char> {
    text::join_with(s.map_values(|x: Seq<char>| "\""@ + x + "\""@), " "@)
}

/// The `interfaces` part of a network module.
pub open spec fn interfaces_section(c: NetworkConfig) -> Seq<char> {
    if c.interfaces@.len() > 0 {
        "    interfaces = {\n"@ + interface_blocks(c.interfaces@) + "    };\n"@
    } else {
        Seq::empty()
    }
}

/// The `routes` part of a network module.
pub open spec fn routes_section(c: NetworkConfig) -> Seq<char> {
    if c.routes@.len() > 0 {
        "    routes = [\n"@ + route_blocks(c.routes@) + "    ];\n"@
    } else {
        Seq::empty()
    }
}

/// The name resolution part of a network module.
pub open spec fn dns_section(c: NetworkConfig) -> Seq<char> {
    match c.dns {
        Some(d) => (if d.nameservers@.len() > 0 {
            "    nameservers = [ "@ + quoted_list(strs(d.nameservers@)) + " ];\n"@
        } else {
            Seq::empty()
        }) + (if d.search_domains@.len() > 0 {
            "    search = [ "@ + quoted_list(strs(d.search_domains@)) + " ];\n"@
        } else {
            Seq::empty()
        }),
        None => Seq::empty(),
    }
}

/// The NixOS module that configures a machine's network.
pub open spec fn network_module(c: NetworkConfig) -> Seq<char> {
    "{ config, pkgs, ... }:\n\n{\n"@ + "  networking = {\n"@ + interfaces_section(c) + routes_section(c)
        + dns_section(c) + "  };\n"@ + "}\n"@
}

/// Appends the Nix line of one address.
fn push_address_line(v: &mut Vec<char>, a: &String)
    ensures
        final(v)@ == old(v)@ + address_line(a@),
{
    let chars = text::chars_of(a.as_str());
    match text::split_once(chars.as_slice(), '/') {
        Some((ip, prefix)) => {
            let ghost v0 = v@;
            text::append_str(v, "          { address = \"");
            text::append_chars(v, ip.as_slice());
            text::append_str(v, "\"; prefixLength = ");
            text::append_chars(v, prefix.as_slice());
            text::append_str(v, "; }\n");
            assert(v@ =~= v0 + address_line(a@));
        },
        None => {
            assert(v@ =~= old(v)@ + address_line(a@));
        },
    }
}

/// Appends the Nix text of one interface.
fn push_interface_block(v: &mut Vec<char>, i: &InterfaceConfig)
    ensures
        final(v)@ == old(v)@ + interface_block(*i),
{
    let ghost v0 = v@;
    text::append_str(v, "      ");
    text::append_str(v, i.name.as_str());
    text::append_str(v, " = {\n");
    let ghost v1 = v@;
    if i.dhcp {
        text::append_str(v, "        useDHCP = true;\n");
    } else if i.addresses.len() > 0 {
        text::append_str(v, "        ipv4.addresses = [\n");
        let ghost va = v@;
        let mut k: usize = 0;
        assert(strs(i.addresses@).take(0) =~= Seq::<Seq<char>>::empty());
        assert(v@ =~= va + address_lines(strs(i.addresses@).take(0)));
        while k < i.addresses.len()
            invariant
                k <= i.addresses@.len(),
                v@ == va + address_lines(strs(i.addresses@).take(k as int)),
            decreases i.addresses@.len() - k,
        {
            proof {
                assert(strs(i.addresses@).take(k + 1).drop_last() =~= strs(i.addresses@).take(k as int));
                assert(strs(i.addresses@).take(k + 1).last() == i.addresses@[k as int]@);
            }
            let ghost before = v@;
            push_address_line(v, &i.addresses[k]);
            k = k + 1;
            assert(v@ =~= va + address_lines(strs(i.addresses@).take(k as int)));
        }
        assert(strs(i.addresses@).take(i.addresses@.len() as int) =~= strs(i.addresses@));
        text::append_str(v, "        ];\n");
    }
    let ghost v2 = v@;
    match i.mtu {
        Some(m) => {
            text::append_str(v, "        mtu = ");
            let d = text::decimal(m as u64);
            text::append_chars(v, d.as_slice());
            text::append_str(v, ";\n");
        },
        None => {},
    }
    let ghost v3 = v@;
    text::append_str(v, "      };\n");
    assert(v@ =~= v0 + interface_block(*i));
}

/// Appends the Nix text of one route.
fn push_route_block(v: &mut Vec<char>, r: &RouteConfig)
    ensures
        final(v)@ == old(v)@ + route_block(*r),
{
    let ghost v0 = v@;
    text::append_str(v, "      {\n");
    text::append_str(v, "        address = \"");
    text::append_str(v, r.destination.as_str());
    text::append_str(v, "\";\n");
    match &r.gateway {
        Some(g) => {
            text::append_str(v, "        via = \"");
            text::append_str(v, g.as_str());
            text::append_str(v, "\";\n");
        },
        None => {},
    }
    text::append_str(v, "        interface = \"");
    text::append_str(v, r.interface.as_str());
    text::append_str(v, "\";\n");
    text::append_str(v, "      }\n");
    assert(v@ =~= v0 + route_block(*r));
}

/// Appends quoted strings separated by blanks.
fn push_quoted_list(v: &mut Vec<char>, s: &Vec<String>)
    ensures
        final(v)@ == old(v)@ + quoted_list(strs(s@)),
{
    let mut parts: Vec<Vec<char>> = Vec::new();
    let mut k: usize = 0;
    while k < s.len()
        invariant
            k <= s@.len(),
            parts@.len() == k,
            forall|j: int| 0 <= j < k ==> (#[trigger] parts@[j])@ == "\""@ + s@[j]@ + "\""@,
        decreases s@.len() - k,
    {
        let mut q: Vec<char> = Vec::new();
        text::append_str(&mut q, "\"");
        text::append_str(&mut q, s[k].as_str());
        text::append_str(&mut q, "\"");
        parts.push(q);
        k = k + 1;
    }
    assert(text::views(parts@) =~= strs(s@).map_values(|x: Seq<char>| "\""@ + x + "\""@));
    let joined = text::join_str(parts.as_slice(), " ");
    text::append_chars(v, joined.as_slice());
}

/// Registered machines and the configurations generated for them.
pub struct NetworkSystemHandler {
    node_to_system: Vec<(uuid::Uuid, uuid::Uuid)>,
    active_configs: Vec<SystemConfiguration>,
}

/// The configuration generated for a machine.
#[derive(Debug)]
pub struct SystemConfiguration {
    /// Identifier of the configuration.
    pub system_id: uuid::Uuid,
    /// The machine.
    pub node_id: uuid::Uuid,
    /// Its host name.
    pub hostname: String,
    /// Its network.
    pub network_config: NetworkConfig,
    /// Its services.
    pub services: Vec<ServiceConfig>,
    /// Its firewall.
    pub firewall_config: Option<FirewallConfig>,
}

/// A service of a machine, with its NixOS settings.
#[derive(Debug)]
pub struct ServiceConfig {
    /// NixOS service name.
    pub name: String,
    /// Whether it is enabled.
    pub enabled: bool,
    /// Its settings.
    pub settings: crate::value::NixValue,
}

impl NetworkSystemHandler {
    /// A handler with nothing registered.
    pub fn new() -> (r: Self)
        ensures
            r.system_links().len() == 0,
            r.configs().len() == 0,
    {
        NetworkSystemHandler { node_to_system: Vec::new(), active_configs: Vec::new() }
    }

    /// The machine-to-configuration links, oldest first.
    pub closed spec fn system_links(&self) -> Seq<(uuid::Uuid, uuid::Uuid)> {
        self.node_to_system@
    }

    /// The configurations, oldest first.
    pub closed spec fn configs(&self) -> Seq<SystemConfiguration> {
        self.active_configs@
    }

    /// The Nix module text that configures a network.
    pub fn generate_network_module(&self, config: &NetworkConfig) -> (s: String)
        ensures
            s@ == network_module(*config),
    {
        let mut v: Vec<char> = Vec::new();
        text::append_str(&mut v, "{ config, pkgs, ... }:\n\n{\n");
        text::append_str(&mut v, "  networking = {\n");
        push_interfaces_section(&mut v, config);
        push_routes_section(&mut v, config);
        push_dns_section(&mut v, config);
        text::append_str(&mut v, "  };\n");
        text::append_str(&mut v, "}\n");
        text::string_of(v.as_slice())
    }
}

/// Appends the `interfaces` part of a network module.
fn push_interfaces_section(v: &mut Vec<char>, config: &NetworkConfig)
    ensures
        final(v)@ == old(v)@ + interfaces_section(*config),
{
    let ghost v0 = v@;
    if config.interfaces.len() > 0 {
        text::append_str(v, "    interfaces = {\n");
        let ghost va = v@;
        let mut k: usize = 0;
        assert(config.interfaces@.take(0) =~= Seq::<InterfaceConfig>::empty());
        assert(v@ =~= va + interface_blocks(config.interfaces@.take(0)));
        while k < config.interfaces.len()
            invariant
                k <= config.interfaces@.len(),
                v@ == va + interface_blocks(config.interfaces@.take(k as int)),
            decreases config.interfaces@.len() - k,
        {
            proof {
                assert(config.interfaces@.take(k + 1).drop_last() =~= config.interfaces@.take(k as int));
            }
            push_interface_block(v, &config.interfaces[k]);
            k = k + 1;
            assert(v@ =~= va + interface_blocks(config.interfaces@.take(k as int)));
        }
        assert(config.interfaces@.take(config.interfaces@.len() as int) =~= config.interfaces@);
        text::append_str(v, "    };\n");
        assert(v@ =~= v0 + interfaces_section(*config));
    } else {
        assert(v@ =~= v0 + interfaces_section(*config));
    }
}

/// Appends the `routes` part of a network module.
fn push_routes_section(v: &mut Vec<char>, config: &NetworkConfig)
    ensures
        final(v)@ == old(v)@ + routes_section(*config),
{
    let ghost v0 = v@;
    if config.routes.len() > 0 {
        text::append_str(v, "    routes = [\n");
        let ghost va = v@;
        let mut k: usize = 0;
        assert(config.routes@.take(0) =~= Seq::<RouteConfig>::empty());
        assert(v@ =~= va + route_blocks(config.routes@.take(0)));
        while k < config.routes.len()
            invariant
                k <= config.routes@.len(),
                v@ == va + route_blocks(config.routes@.take(k as int)),
            decreases config.routes@.len() - k,
        {
            proof {
                assert(config.routes@.take(k + 1).drop_last() =~= config.routes@.take(k as int));
            }
            push_route_block(v, &config.routes[k]);
            k = k + 1;
            assert(v@ =~= va + route_blocks(config.routes@.take(k as int)));
        }
        assert(config.routes@.take(config.routes@.len() as int) =~= config.routes@);
        text::append_str(v, "    ];\n");
        assert(v@ =~= v0 + routes_section(*config));
    } else {
        assert(v@ =~= v0 + routes_section(*config));
    }
}

/// Appends the name resolution part of a network module.
fn push_dns_section(v: &mut Vec<char>, config: &NetworkConfig)
    ensures
        final(v)@ == old(v)@ + dns_section(*config),
{
    let ghost v0 = v@;
    match &config.dns {
        Some(dns) => {
            if dns.nameservers.len() > 0 {
                text::append_str(v, "    nameservers = [ ");
                push_quoted_list(v, &dns.nameservers);
                text::append_str(v, " ];\n");
            }
            let ghost v4 = v@;
            assert(v4 =~= v0 + (if dns.nameservers@.len() > 0 {
                "    nameservers = [ "@ + quoted_list(strs(dns.nameservers@)) + " ];\n"@
            } else {
                Seq::empty()
            }));
            if dns.search_domains.len() > 0 {
                text::append_str(v, "    search = [ ");
                push_quoted_list(v, &dns.search_domains);
                text::append_str(v, " ];\n");
            }
            assert(v@ =~= v4 + (if dns.search_domains@.len() > 0 {
                "    search = [ "@ + quoted_list(strs(dns.search_domains@)) + " ];\n"@
            } else {
                Seq::empty()
            }));
            assert(v@ =~= v0 + dns_section(*config));
        },
        None => {
            assert(v@ =~= v0 + dns_section(*config));
        },
    }
}

/// An interface of a machine changed.
#[derive(Debug, Clone, PartialEq)]
pub struct InterfaceChangeEvent {
    /// The machine.
    pub node_id: uuid::Uuid,
    /// The interface as it now is.
    pub interface: NetworkInterface,
    /// What happened to it.
    pub change_type: InterfaceChangeType,
    /// When, in seconds since the epoch.
    pub timestamp: i64,
}

/// An address in CIDR notation.
pub open spec fn cidr_text(a: IpAddress) -> Seq<char> {
    a.address@ + "/"@ + text::decimal_digits(a.prefix_length as nat)
}

/// Whether an interface uses DHCP.
pub open spec fn dhcp_used(i: NetworkInterface) -> bool {
    exists|k: int| 0 <= k < i.addresses@.len() && #[trigger] i.addresses@[k].dhcp
}

/// `c` configures interface `i`: its name, MAC, static addresses in CIDR
/// notation, DHCP use and MTU.
pub open spec fn configures(c: InterfaceConfig, i: NetworkInterface) -> bool {
    &&& c.name@ == i.name@
    &&& crate::topology::opt_text(c.mac_address) == crate::topology::opt_text(i.mac_address)
    &&& strs(c.addresses@) == static_of(i.addresses@).map_values(|a: IpAddress| cidr_text(a))
    &&& c.dhcp == dhcp_used(i)
    &&& c.mtu == i.mtu
}

/// The configuration of an interface.
pub fn interface_config_of(i: &NetworkInterface) -> (c: InterfaceConfig)
    ensures
        configures(c, *i),
{
    let st = i.static_addresses();
    let mut addresses: Vec<String> = Vec::new();
    let mut k: usize = 0;
    while k < st.len()
        invariant
            k <= st@.len(),
            st@.len() == static_of(i.addresses@).len(),
            forall|j: int| 0 <= j < st@.len() ==> *st@[j] == static_of(i.addresses@)[j],
            addresses@.len() == k,
            forall|j: int| 0 <= j < k ==> (#[trigger] addresses@[j])@ == cidr_text(static_of(i.addresses@)[j]),
        decreases st@.len() - k,
    {
        proof {
            lemma_static_not_dhcp(i.addresses@, k as int);
        }
        match st[k].to_cidr() {
            Some(c) => addresses.push(c),
            None => {},
        }
        k = k + 1;
    }
    assert(strs(addresses@) =~= static_of(i.addresses@).map_values(|a: IpAddress| cidr_text(a)));
    InterfaceConfig {
        name: i.name.clone(),
        mac_address: match &i.mac_address {
            Some(m) => Some(m.clone()),
            None => None,
        },
        addresses,
        dhcp: i.uses_dhcp(),
        mtu: i.mtu,
    }
}

proof fn lemma_static_not_dhcp(s: Seq<IpAddress>, k: int)
    requires
        0 <= k < static_of(s).len(),
    ensures
        !static_of(s)[k].dhcp,
    decreases s.len(),
{
    if s.len() > 0 {
        if !s.last().dhcp {
            if k < static_of(s.drop_last()).len() {
                lemma_static_not_dhcp(s.drop_last(), k);
            }
        } else {
            lemma_static_not_dhcp(s.drop_last(), k);
        }
    }
}

/// Position of the first link of a machine.
pub open spec fn link_index(s: Seq<(uuid::Uuid, uuid::Uuid)>, id: uuid::Uuid) -> Option<int> {
    if exists|k: int| 0 <= k < s.len() && s[k].0 == id {
        Some(choose|k: int| 0 <= k < s.len() && s[k].0 == id && forall|j: int| 0 <= j < k ==> s[j].0 != id)
    } else {
        None
    }
}

/// The first configuration with an identifier, by position.
pub open spec fn config_index(s: Seq<SystemConfiguration>, id: uuid::Uuid) -> Option<int> {
    if exists|k: int| 0 <= k < s.len() && s[k].system_id == id {
        Some(
            choose|k: int|
                0 <= k < s.len() && s[k].system_id == id && forall|j: int| 0 <= j < k ==> s[j].system_id != id,
        )
    } else {
        None
    }
}

proof fn lemma_first_link(s: Seq<(uuid::Uuid, uuid::Uuid)>, id: uuid::Uuid, k: int)
    requires
        0 <= k < s.len(),
        s[k].0 == id,
        forall|j: int| 0 <= j < k ==> s[j].0 != id,
    ensures
        link_index(s, id) == Some(k),
{
    let c = choose|c: int| 0 <= c < s.len() && s[c].0 == id && forall|j: int| 0 <= j < c ==> s[j].0 != id;
    assert(0 <= c < s.len() && s[c].0 == id && forall|j: int| 0 <= j < c ==> s[j].0 != id);
    if c < k {
        assert(s[c].0 != id);
    }
    if k < c {
        assert(s[k].0 != id);
    }
}

proof fn lemma_first_config(s: Seq<SystemConfiguration>, id: uuid::Uuid, k: int)
    requires
        0 <= k < s.len(),
        s[k].system_id == id,
        forall|j: int| 0 <= j < k ==> s[j].system_id != id,
    ensures
        config_index(s, id) == Some(k),
{
    let c = choose|c: int|
        0 <= c < s.len() && s[c].system_id == id && forall|j: int| 0 <= j < c ==> s[j].system_id != id;
    assert(0 <= c < s.len() && s[c].system_id == id && forall|j: int|
        0 <= j < c ==> s[j].system_id != id);
    if c < k {
        assert(s[c].system_id != id);
    }
    if k < c {
        assert(s[k].system_id != id);
    }
}

impl NetworkSystemHandler {
    fn find_link(&self, node_id: &uuid::Uuid) -> (r: Option<usize>)
        ensures
            r matches Some(i) ==> i < self.system_links().len() && link_index(
                self.system_links(),
                *node_id,
            ) == Some(i as int),
            r is None ==> link_index(self.system_links(), *node_id) is None,
    {
        let mut i: usize = 0;
        while i < self.node_to_system.len()
            invariant
                i <= self.node_to_system@.len(),
                forall|j: int| 0 <= j < i ==> self.node_to_system@[j].0 != *node_id,
            decreases self.node_to_system@.len() - i,
        {
            if same_id(&self.node_to_system[i].0, node_id) {
                proof {
                    lemma_first_link(self.node_to_system@, *node_id, i as int);
                }
                return Some(i);
            }
            i = i + 1;
        }
        None
    }

    fn find_config(&self, system_id: &uuid::Uuid) -> (r: Option<usize>)
        ensures
            r matches Some(i) ==> i < self.configs().len() && config_index(self.configs(), *system_id)
                == Some(i as int),
            r is None ==> config_index(self.configs(), *system_id) is None,
    {
        let mut i: usize = 0;
        while i < self.active_configs.len()
            invariant
                i <= self.active_configs@.len(),
                forall|j: int| 0 <= j < i ==> self.active_configs@[j].system_id != *system_id,
            decreases self.active_configs@.len() - i,
        {
            if same_id(&self.active_configs[i].system_id, system_id) {
                proof {
                    lemma_first_config(self.active_configs@, *system_id, i as int);
                }
                return Some(i);
            }
            i = i + 1;
        }
        None
    }

    /// Registers the configuration generated for a machine, replacing the
    /// machine's link and any configuration with the same identifier.
    pub fn register_system(&mut self, node_id: uuid::Uuid, config: SystemConfiguration)
        ensures
            final(self).system_links() == match link_index(old(self).system_links(), node_id) {
                Some(k) => old(self).system_links().update(k, (node_id, config.system_id)),
                None => old(self).system_links().push((node_id, config.system_id)),
            },
            final(self).configs() == match config_index(old(self).configs(), config.system_id) {
                Some(k) => old(self).configs().update(k, config),
                None => old(self).configs().push(config),
            },
    {
        let system_id = config.system_id;
        match self.find_link(&node_id) {
            Some(k) => self.node_to_system.set(k, (node_id, system_id)),
            None => self.node_to_system.push((node_id, system_id)),
        }
        match self.find_config(&system_id) {
            Some(k) => self.active_configs.set(k, config),
            None => self.active_configs.push(config),
        }
    }

    /// The systems an interface change affects: the one of its machine.
    pub fn find_affected_systems(&self, event: &InterfaceChangeEvent) -> (r: Result<
        Vec<uuid::Uuid>,
        crate::domain_error::NixDomainError,
    >)
        ensures
            r matches Ok(v) && v@ == match link_index(self.system_links(), event.node_id) {
                Some(k) => seq![self.system_links()[k].1],
                None => Seq::empty(),
            },
    {
        let mut affected: Vec<uuid::Uuid> = Vec::new();
        match self.find_link(&event.node_id) {
            Some(k) => {
                affected.push(self.node_to_system[k].1);
                assert(affected@ =~= seq![self.system_links()[k as int].1]);
            },
            None => {},
        }
        Ok(affected)
    }

    /// The configuration of a machine.
    pub fn get_node_config(&self, node_id: uuid::Uuid) -> (r: Option<&SystemConfiguration>)
        ensures
            match link_index(self.system_links(), node_id) {
                Some(k) => match config_index(self.configs(), self.system_links()[k].1) {
                    Some(c) => r matches Some(x) && *x == self.configs()[c],
                    None => r is None,
                },
                None => r is None,
            },
    {
        match self.find_link(&node_id) {
            Some(k) => {
                let sid = self.node_to_system[k].1;
                match self.find_config(&sid) {
                    Some(c) => Some(&self.active_configs[c]),
                    None => None,
                }
            },
            None => None,
        }
    }

    /// Applies an interface change to a system's configuration: an added
    /// interface is configured at the end, a removed one is dropped, an
    /// updated one gets the new addresses, DHCP use and MTU.
    pub fn update_network_config(&mut self, system_id: uuid::Uuid, event: &InterfaceChangeEvent) -> (r:
        Result<(), crate::domain_error::NixDomainError>)
        ensures
            r is Ok <==> config_index(old(self).configs(), system_id) is Some,
            r is Err ==> exists|t: Seq<char>|
                hyphenated_form(t) && (r matches Err(crate::domain_error::NixDomainError::Other(m))
                    && m@ == "System "@ + t + " not found"@),
            final(self).system_links() == old(self).system_links(),
            match config_index(old(self).configs(), system_id) {
                Some(k) => final(self).configs().len() == old(self).configs().len() && (forall|j: int|
                    0 <= j < old(self).configs().len() && j != k ==> final(self).configs()[j] == old(
                        self,
                    ).configs()[j]) && interfaces_changed(
                    old(self).configs()[k].network_config.interfaces@,
                    final(self).configs()[k].network_config.interfaces@,
                    event.change_type,
                    event.interface,
                ) && final(self).configs()[k] == (SystemConfiguration {
                    network_config: NetworkConfig {
                        interfaces: final(self).configs()[k].network_config.interfaces,
                        ..old(self).configs()[k].network_config
                    },
                    ..old(self).configs()[k]
                }),
                None => final(self).configs() == old(self).configs(),
            },
    {
        let k = match self.find_config(&system_id) {
            Some(k) => k,
            None => {
                let t = id_text(&system_id);
                let mut v = text::chars_of("System ");
                text::append_str(&mut v, t.as_str());
                text::append_str(&mut v, " not found");
                let m = text::string_of(v.as_slice());
                assert(m@ == "System "@ + t@ + " not found"@);
                return Err(crate::domain_error::NixDomainError::Other(m));
            },
        };
        let ghost old_configs = self.active_configs@;
        let mut config = self.active_configs.remove(k);
        let ghost before = config;
        let ghost old_ifaces = config.network_config.interfaces@;
        let mut list: Vec<InterfaceConfig> = Vec::new();
        std::mem::swap(&mut list, &mut config.network_config.interfaces);
        match event.change_type {
            InterfaceChangeType::Added => {
                let c = interface_config_of(&event.interface);
                list.push(c);
                assert(list@.take(old_ifaces.len() as int) =~= old_ifaces);
            },
            InterfaceChangeType::Removed => {
                list = remove_named(list, &event.interface.name);
            },
            InterfaceChangeType::Updated => {
                list = update_named(list, &event.interface);
            },
        }
        config.network_config.interfaces = list;
        self.active_configs.insert(k, config);
        proof {
            assert(self.active_configs@ =~= old_configs.update(k as int, config));
        }
        Ok(())
    }
}

/// The interfaces without those of a name, in order.
fn remove_named(list: Vec<InterfaceConfig>, name: &String) -> (r: Vec<InterfaceConfig>)
    ensures
        r@ == without_named(list@, name@),
{
    let ghost all = list@;
    let mut rest = list;
    let mut kept: Vec<InterfaceConfig> = Vec::new();
    let en = text::chars_of(name.as_str());
    assert(all.take(0) =~= Seq::<InterfaceConfig>::empty());
    assert(all.skip(0) =~= all);
    while rest.len() > 0
        invariant
            rest@.len() <= all.len(),
            rest@ == all.skip(all.len() - rest@.len()),
            kept@ == without_named(all.take(all.len() - rest@.len()), name@),
            en@ == name@,
        decreases rest@.len(),
    {
        let ghost i = all.len() - rest@.len();
        let x = rest.remove(0);
        proof {
            assert(x == all[i]);
            assert(all.take(i + 1).drop_last() =~= all.take(i));
            assert(rest@ =~= all.skip(i + 1));
        }
        let nm = text::chars_of(x.name.as_str());
        if !text::eq_chars(nm.as_slice(), en.as_slice()) {
            kept.push(x);
        }
    }
    assert(all.take(all.len() as int) =~= all);
    kept
}

/// The interfaces with the first one of the interface's name brought up to
/// date: addresses, DHCP use and MTU.
#[verifier::loop_isolation(false)]
fn update_named(list: Vec<InterfaceConfig>, iface: &NetworkInterface) -> (r: Vec<InterfaceConfig>)
    ensures
        interfaces_changed(list@, r@, InterfaceChangeType::Updated, *iface),
{
    let ghost all = list@;
    let en = text::chars_of(iface.name.as_str());
    let mut i: usize = 0;
    let mut list = list;
    while i < list.len()
        invariant
            i <= list@.len(),
            list@ == all,
            en@ == iface.name@,
            forall|j: int| 0 <= j < i ==> all[j].name@ != iface.name@,
        decreases list@.len() - i,
    {
        let nm = text::chars_of(list[i].name.as_str());
        if text::eq_chars(nm.as_slice(), en.as_slice()) {
            let fresh = interface_config_of(iface);
            let mut x = list.remove(i);
            x.addresses = fresh.addresses;
            x.dhcp = fresh.dhcp;
            x.mtu = fresh.mtu;
            list.insert(i, x);
            proof {
                assert(all[i as int].name@ == iface.name@);
                assert(exists|k: int| 0 <= k < all.len() && all[k].name@ == iface.name@);
                let k = choose|k: int|
                    0 <= k < all.len() && all[k].name@ == iface.name@ && forall|j: int|
                        0 <= j < k ==> all[j].name@ != iface.name@;
                assert(0 <= k < all.len() && all[k].name@ == iface.name@ && forall|j: int|
                    0 <= j < k ==> all[j].name@ != iface.name@);
                if k < i {
                    assert(all[k].name@ != iface.name@);
                }
                if i < k {
                    assert(all[i as int].name@ != iface.name@);
                }
                assert(k == i);
                assert(list@ =~= all.update(i as int, x));
                assert(list@[k] == x);
            }
            return list;
        }
        i = i + 1;
    }
    list
}

/// Interfaces without those of a name, in order.
pub open spec fn without_named(s: Seq<InterfaceConfig>, name: Seq<char>) -> Seq<InterfaceConfig>
    decreases s.len(),
{
    if s.len() == 0 {
        Seq::empty()
    } else if s.last().name@ != name {
        without_named(s.drop_last(), name).push(s.last())
    } else {
        without_named(s.drop_last(), name)
    }
}

/// How the interfaces of a configuration change with an event.
pub open spec fn interfaces_changed(
    before: Seq<InterfaceConfig>,
    after: Seq<InterfaceConfig>,
    change: InterfaceChangeType,
    iface: NetworkInterface,
) -> bool {
    match change {
        InterfaceChangeType::Added => after.len() == before.len() + 1 && after.take(
            before.len() as int,
        ) == before && configures(after.last(), iface),
        InterfaceChangeType::Removed => after == without_named(before, iface.name@),
        InterfaceChangeType::Updated => after.len() == before.len() && (if exists|k: int|
            0 <= k < before.len() && before[k].name@ == iface.name@ {
            let k = choose|k: int|
                0 <= k < before.len() && before[k].name@ == iface.name@ && forall|j: int|
                    0 <= j < k ==> before[j].name@ != iface.name@;
            (forall|j: int| 0 <= j < before.len() && j != k ==> after[j] == before[j]) && after[k].name
                == before[k].name && after[k].mac_address == before[k].mac_address && strs(
                after[k].addresses@,
            ) == static_of(iface.addresses@).map_values(|a: IpAddress| cidr_text(a))
                && after[k].dhcp == dhcp_used(iface) && after[k].mtu == iface.mtu
        } else {
            after == before
        }),
    }
}

// ---------------------------------------------------------------------------
// Events of the network domain
// ---------------------------------------------------------------------------

/// The network events handled.
#[derive(Debug, Clone, Copy, PartialEq, Eq, Structural)]
pub enum NetworkEventType {
    /// A topology was created.
    TopologyCreated,
    /// A topology was updated.
    TopologyUpdated,
    /// An interface was added.
    InterfaceAdded,
    /// An interface was removed.
    InterfaceRemoved,
    /// An interface was updated.
    InterfaceUpdated,
    /// A route was added.
    RouteAdded,
    /// A route was removed.
    RouteRemoved,
    /// A firewall rule was added.
    FirewallRuleAdded,
    /// A firewall rule was removed.
    FirewallRuleRemoved,
}

/// The name of an event type, as `Debug` prints it.
pub open spec fn event_type_name(t: NetworkEventType) -> Seq<char> {
    match t {
        NetworkEventType::TopologyCreated => "TopologyCreated"@,
        NetworkEventType::TopologyUpdated => "TopologyUpdated"@,
        NetworkEventType::InterfaceAdded => "InterfaceAdded"@,
        NetworkEventType::InterfaceRemoved => "InterfaceRemoved"@,
        NetworkEventType::InterfaceUpdated => "InterfaceUpdated"@,
        NetworkEventType::RouteAdded => "RouteAdded"@,
        NetworkEventType::RouteRemoved => "RouteRemoved"@,
        NetworkEventType::FirewallRuleAdded => "FirewallRuleAdded"@,
        NetworkEventType::FirewallRuleRemoved => "FirewallRuleRemoved"@,
    }
}

/// How the payload of an event is read.
#[derive(Debug, Clone, Copy, PartialEq, Eq, Structural)]
pub enum EventPayload {
    /// A topology, reported as created.
    Topology,
    /// An interface change of the given kind.
    Interface(InterfaceChangeType),
}

/// A topology event.
#[derive(Debug, Clone)]
pub struct NetworkTopologyEvent {
    /// The topology.
    pub topology_id: uuid::Uuid,
    /// Its name.
    pub name: String,
    /// Its machines.
    pub nodes: Vec<NetworkNode>,
    /// Its links.
    pub connections: Vec<NetworkConnection>,
    /// When, in seconds since the epoch.
    pub timestamp: i64,
}

/// The subjects of network events, with the event each names.
pub open spec fn network_subjects() -> Seq<(Seq<char>, NetworkEventType)> {
    seq![
        ("network.topology.created"@, NetworkEventType::TopologyCreated),
        ("network.topology.updated"@, NetworkEventType::TopologyUpdated),
        ("network.interface.added"@, NetworkEventType::InterfaceAdded),
        ("network.interface.removed"@, NetworkEventType::InterfaceRemoved),
        ("network.interface.updated"@, NetworkEventType::InterfaceUpdated),
        ("network.route.added"@, NetworkEventType::RouteAdded),
        ("network.route.removed"@, NetworkEventType::RouteRemoved),
        ("network.firewall.rule.added"@, NetworkEventType::FirewallRuleAdded),
        ("network.firewall.rule.removed"@, NetworkEventType::FirewallRuleRemoved),
    ]
}

/// How the payload of an event type is read; the route and firewall
/// events are not handled.
pub open spec fn payload_of(t: NetworkEventType) -> Option<EventPayload> {
    match t {
        NetworkEventType::TopologyCreated => Some(EventPayload::Topology),
        NetworkEventType::TopologyUpdated => Some(EventPayload::Topology),
        NetworkEventType::InterfaceAdded => Some(EventPayload::Interface(InterfaceChangeType::Added)),
        NetworkEventType::InterfaceRemoved => Some(
            EventPayload::Interface(InterfaceChangeType::Removed),
        ),
        NetworkEventType::InterfaceUpdated => Some(
            EventPayload::Interface(InterfaceChangeType::Updated),
        ),
        _ => None,
    }
}

/// Reads the events of the network domain.
pub struct NetworkEventHandler {
    event_mappings: NameMap<NetworkEventType>,
}

impl NetworkEventHandler {
    /// The subjects the handler knows, with their events.
    pub closed spec fn mappings(&self) -> Seq<(Seq<char>, NetworkEventType)> {
        self.event_mappings.model()
    }

    /// A handler of the nine network subjects.
    pub fn new() -> (r: Self)
        ensures
            r.mappings() == network_subjects(),
    {
        let mut m: NameMap<NetworkEventType> = NameMap::new();
        let ghost want = network_subjects();
        proof {
            reveal_strlit("network.topology.created");
            reveal_strlit("network.topology.updated");
            reveal_strlit("network.interface.added");
            reveal_strlit("network.interface.removed");
            reveal_strlit("network.interface.updated");
            reveal_strlit("network.route.added");
            reveal_strlit("network.route.removed");
            reveal_strlit("network.firewall.rule.added");
            reveal_strlit("network.firewall.rule.removed");
            assert(want[0].0.len() == 24 && want[0].0[8] == 't' && want[0].0[18] == 'r');
            assert(want[1].0.len() == 24 && want[1].0[8] == 't' && want[1].0[18] == 'p');
            assert(want[2].0.len() == 23 && want[2].0[8] == 'i' && want[2].0[18] == 'a');
            assert(want[3].0.len() == 25 && want[3].0[8] == 'i' && want[3].0[18] == 'r');
            assert(want[4].0.len() == 25 && want[4].0[8] == 'i' && want[4].0[18] == 'u');
            assert(want[5].0.len() == 19 && want[5].0[8] == 'r' && want[5].0[18] == 'd');
            assert(want[6].0.len() == 21 && want[6].0[8] == 'r' && want[6].0[18] == 'v');
            assert(want[7].0.len() == 27 && want[7].0[8] == 'f' && want[7].0[18] == 'u');
            assert(want[8].0.len() == 29 && want[8].0[8] == 'f' && want[8].0[18] == 'u');
            assert forall|a: int, b: int| 0 <= a < b < 9 implies want[a].0 != want[b].0 by {
                if want[a].0 == want[b].0 {
                    assert(want[a].0[8] == want[b].0[8]);
                    assert(want[a].0[18] == want[b].0[18]);
                    assert(want[a].0.len() == want[b].0.len());
                }
            }
        }
        let ghost m0 = m.model();
        proof { crate::named::lemma_insert_fresh(m.model(), want[0].0, want[0].1); }
        m.insert(text::string_from("network.topology.created"), NetworkEventType::TopologyCreated);
        assert(m.model() =~= want.take(1));
        proof { crate::named::lemma_insert_fresh(m.model(), want[1].0, want[1].1); }
        m.insert(text::string_from("network.topology.updated"), NetworkEventType::TopologyUpdated);
        assert(m.model() =~= want.take(2));
        proof { crate::named::lemma_insert_fresh(m.model(), want[2].0, want[2].1); }
        m.insert(text::string_from("network.interface.added"), NetworkEventType::InterfaceAdded);
        assert(m.model() =~= want.take(3));
        proof { crate::named::lemma_insert_fresh(m.model(), want[3].0, want[3].1); }
        m.insert(text::string_from("network.interface.removed"), NetworkEventType::InterfaceRemoved);
        assert(m.model() =~= want.take(4));
        proof { crate::named::lemma_insert_fresh(m.model(), want[4].0, want[4].1); }
        m.insert(text::string_from("network.interface.updated"), NetworkEventType::InterfaceUpdated);
        assert(m.model() =~= want.take(5));
        proof { crate::named::lemma_insert_fresh(m.model(), want[5].0, want[5].1); }
        m.insert(text::string_from("network.route.added"), NetworkEventType::RouteAdded);
        assert(m.model() =~= want.take(6));
        proof { crate::named::lemma_insert_fresh(m.model(), want[6].0, want[6].1); }
        m.insert(text::string_from("network.route.removed"), NetworkEventType::RouteRemoved);
        assert(m.model() =~= want.take(7));
        proof { crate::named::lemma_insert_fresh(m.model(), want[7].0, want[7].1); }
        m.insert(text::string_from("network.firewall.rule.added"), NetworkEventType::FirewallRuleAdded);
        assert(m.model() =~= want.take(8));
        proof { crate::named::lemma_insert_fresh(m.model(), want[8].0, want[8].1); }
        m.insert(text::string_from("network.firewall.rule.removed"), NetworkEventType::FirewallRuleRemoved);
        assert(m.model() =~= want);
        NetworkEventHandler { event_mappings: m }
    }

    /// The subjects to subscribe to, in order.
    pub fn get_subscription_subjects(&self) -> (r: Vec<String>)
        ensures
            r@.map_values(|s: String| s@) == self.mappings().map_values(
                |e: (Seq<char>, NetworkEventType)| e.0,
            ),
    {
        let mut r: Vec<String> = Vec::new();
        let mut i: usize = 0;
        while i < self.event_mappings.len()
            invariant
                i <= self.mappings().len(),
                self.mappings().len() == self.event_mappings.model().len(),
                r@.len() == i,
                forall|j: int| 0 <= j < i ==> #[trigger] r@[j]@ == self.mappings()[j].0,
            decreases self.mappings().len() - i,
        {
            r.push(self.event_mappings.name_at(i).clone());
            i = i + 1;
        }
        assert(r@.map_values(|s: String| s@) =~= self.mappings().map_values(
            |e: (Seq<char>, NetworkEventType)| e.0,
        ));
        r
    }

    /// How the payload of a message on a subject is read: an error for an
    /// unknown subject, or for an event that is not handled.
    pub fn payload_for(&self, subject: &str) -> (r: Result<EventPayload, crate::domain_error::NixDomainError>)
        ensures
            match crate::named::lookup(self.mappings(), subject@) {
                None => r matches Err(crate::domain_error::NixDomainError::Other(m)) && m@
                    == "Unknown network event subject: "@ + subject@,
                Some(t) => match payload_of(t) {
                    Some(p) => r == Ok::<EventPayload, crate::domain_error::NixDomainError>(p),
                    None => r matches Err(crate::domain_error::NixDomainError::Other(m)) && m@
                        == "Unimplemented event type: "@ + event_type_name(t),
                },
            },
    {
        let t = match self.event_mappings.get(subject) {
            Some(t) => *t,
            None => {
                let mut v: Vec<char> = Vec::new();
                text::append_str(&mut v, "Unknown network event subject: ");
                text::append_str(&mut v, subject);
                return Err(crate::domain_error::NixDomainError::Other(text::string_of(v.as_slice())));
            },
        };
        let name = match t {
            NetworkEventType::TopologyCreated | NetworkEventType::TopologyUpdated => {
                return Ok(EventPayload::Topology);
            },
            NetworkEventType::InterfaceAdded => {
                return Ok(EventPayload::Interface(InterfaceChangeType::Added));
            },
            NetworkEventType::InterfaceRemoved => {
                return Ok(EventPayload::Interface(InterfaceChangeType::Removed));
            },
            NetworkEventType::InterfaceUpdated => {
                return Ok(EventPayload::Interface(InterfaceChangeType::Updated));
            },
            NetworkEventType::RouteAdded => "RouteAdded",
            NetworkEventType::RouteRemoved => "RouteRemoved",
            NetworkEventType::FirewallRuleAdded => "FirewallRuleAdded",
            NetworkEventType::FirewallRuleRemoved => "FirewallRuleRemoved",
        };
        let mut v: Vec<char> = Vec::new();
        text::append_str(&mut v, "Unimplemented event type: ");
        text::append_str(&mut v, name);
        Err(crate::domain_error::NixDomainError::Other(text::string_of(v.as_slice())))
    }

    /// The topology an event describes.
    pub fn extract_topology(&self, event: NetworkTopologyEvent) -> (r: Result<
        NetworkTopology,
        crate::domain_error::NixDomainError,
    >)
        ensures
            r matches Ok(t) && t.topology_id() == event.topology_id && t.topology_name() == event.name@
                && t.node_list() == event.nodes@ && t.connection_list() == event.connections@,
    {
        Ok(NetworkTopology::new(event.topology_id, event.name, event.nodes, event.connections))
    }
}

impl Default for NetworkEventHandler {
    fn default() -> (r: Self)
        ensures
            r.mappings() == network_subjects(),
    {
        NetworkEventHandler::new()
    }
}

} // verus!
