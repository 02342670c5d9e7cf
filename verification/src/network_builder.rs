//! Building the NixOS configuration of each machine of a network: its
//! interfaces, routes and name servers, its services, and its firewall.

use vstd::prelude::*;
use crate::domain_error::NixDomainError;
use crate::git::FlakeRef;
use crate::ids::{random_id, same_id};
use crate::named::{NameMap, first_where, insert, lemma_first_where, lookup};
use crate::network::{
    DnsConfig, FirewallConfig, InterfaceConfig, InterfaceType, NetworkConfig, NetworkConnection,
    NetworkInterface,
    NetworkNode, NetworkTopology, NodeType, RouteConfig, ServiceConfig, SystemConfiguration,
    configures, interface_config_of, lists, routes_traffic, static_of, strs, links_with,
};
use crate::text;
use crate::topology::opt_text;
use crate::value::{NixAttrset, NixBool, NixInteger, NixList, NixString, NixValue, ValueModel};

verus! {

broadcast use vstd::string::group_string_axioms;

// ---------------------------------------------------------------------------
// Settings as values
// ---------------------------------------------------------------------------

/// An attribute set with the given members, bound in order.
pub open spec fn attrs_of(p: Seq<(Seq<char>, ValueModel)>) -> ValueModel {
    ValueModel::Attrs(bound(p))
}

/// Members bound in order.
pub open spec fn bound(p: Seq<(Seq<char>, ValueModel)>) -> Seq<(Seq<char>, ValueModel)>
    decreases p.len(),
{
    if p.len() == 0 {
        Seq::empty()
    } else {
        insert(bound(p.drop_last()), p.last().0, p.last().1)
    }
}

/// A string.
pub open spec fn s(t: Seq<char>) -> ValueModel {
    ValueModel::Str(t)
}

/// `true`.
pub open spec fn yes() -> ValueModel {
    ValueModel::Bool(true)
}

/// A list of strings.
pub open spec fn str_list(l: Seq<Seq<char>>) -> ValueModel {
    ValueModel::List(l.map_values(|x: Seq<char>| ValueModel::Str(x)))
}

/// An attribute set of the given members.
fn attrs_from(p: Vec<(String, NixValue)>) -> (r: NixValue)
    ensures
        r.model() == attrs_of(p@.map_values(|e: (String, NixValue)| (e.0@, e.1.model()))),
{
    let ghost pm = p@.map_values(|e: (String, NixValue)| (e.0@, e.1.model()));
    let mut a = NixAttrset::new();
    let mut rest = p;
    let ghost n = rest@.len();
    assert(pm.take(0) =~= Seq::<(Seq<char>, ValueModel)>::empty());
    assert(rest@ =~= p@.skip(0));
    while rest.len() > 0
        invariant
            rest@.len() <= n,
            n == p@.len(),
            pm == p@.map_values(|e: (String, NixValue)| (e.0@, e.1.model())),
            rest@ == p@.skip(n - rest@.len()),
            a.model() == bound(pm.take(n - rest@.len())),
        decreases rest@.len(),
    {
        let ghost i = n - rest@.len();
        let (k, v) = rest.remove(0);
        proof {
            assert(pm.take(i + 1).drop_last() =~= pm.take(i));
            assert(pm.take(i + 1).last() == (k@, v.model()));
            assert(rest@ =~= p@.skip(i + 1));
        }
        a.insert(k, v);
    }
    assert(pm.take(n as int) =~= pm);
    NixValue::Attrset(a)
}

fn sv(t: &str) -> (r: NixValue)
    ensures
        r.model() == s(t@),
{
    NixValue::String(NixString { value: text::string_from(t) })
}

fn sv_of(t: String) -> (r: NixValue)
    ensures
        r.model() == s(t@),
{
    NixValue::String(NixString { value: t })
}

fn bv(b: bool) -> (r: NixValue)
    ensures
        r.model() == ValueModel::Bool(b),
{
    NixValue::Bool(NixBool { value: b })
}

fn iv(i: i64) -> (r: NixValue)
    ensures
        r.model() == ValueModel::Int(i),
{
    NixValue::Integer(NixInteger { value: i })
}

fn strs_value(l: Vec<String>) -> (r: NixValue)
    ensures
        r.model() == str_list(strs(l@)),
{
    let mut out: Vec<NixValue> = Vec::new();
    let mut rest = l;
    let ghost all = rest@;
    let ghost n = all.len();
    assert(rest@ =~= all.skip(0));
    while rest.len() > 0
        invariant
            rest@.len() <= n,
            n == all.len(),
            rest@ == all.skip(n - rest@.len()),
            crate::value::values_model(out@) == strs(all).take(n - rest@.len()).map_values(
                |x: Seq<char>| ValueModel::Str(x),
            ),
        decreases rest@.len(),
    {
        let ghost i = n - rest@.len();
        let x = rest.remove(0);
        proof {
            assert(rest@ =~= all.skip(i + 1));
            assert(x == all[i]);
        }
        let ghost before = out@;
        out.push(sv_of(x));
        proof {
            assert(out@.drop_last() =~= before);
            assert(strs(all).take(i + 1).map_values(|x: Seq<char>| ValueModel::Str(x)) =~= strs(
                all,
            ).take(i).map_values(|x: Seq<char>| ValueModel::Str(x)).push(s(x@)));
        }
    }
    assert(strs(all).take(n as int) =~= strs(all));
    NixValue::List(NixList { elements: out })
}

fn key(t: &str) -> (r: String)
    ensures
        r@ == t@,
{
    text::string_from(t)
}

/// The settings of OpenSSH.
pub open spec fn openssh_settings() -> ValueModel {
    attrs_of(
        seq![
            ("enable"@, yes()),
            (
                "settings"@,
                attrs_of(
                    seq![
                        ("PermitRootLogin"@, s("prohibit-password"@)),
                        ("PasswordAuthentication"@, ValueModel::Bool(false)),
                    ],
                ),
            ),
        ],
    )
}

/// The settings that turn on IP forwarding.
pub open spec fn ip_forwarding_settings() -> ValueModel {
    attrs_of(
        seq![
            (
                "boot.kernel.sysctl"@,
                attrs_of(
                    seq![("net.ipv4.ip_forward"@, yes()), ("net.ipv6.conf.all.forwarding"@, yes())],
                ),
            ),
        ],
    )
}

/// The settings of Unbound.
pub open spec fn unbound_settings() -> ValueModel {
    attrs_of(
        seq![
            ("enable"@, yes()),
            (
                "settings"@,
                attrs_of(
                    seq![
                        (
                            "server"@,
                            attrs_of(
                                seq![
                                    ("interface"@, str_list(seq!["0.0.0.0"@, "::0"@])),
                                    (
                                        "access-control"@,
                                        str_list(
                                            seq![
                                                "127.0.0.0/8 allow"@,
                                                "192.168.0.0/16 allow"@,
                                                "10.0.0.0/8 allow"@,
                                            ],
                                        ),
                                    ),
                                ],
                            ),
                        ),
                    ],
                ),
            ),
        ],
    )
}

/// The settings of NAT between an external and internal interfaces.
pub open spec fn nat_settings(external: Seq<char>, internal: Seq<Seq<char>>) -> ValueModel {
    attrs_of(
        seq![
            (
                "networking.nat"@,
                attrs_of(
                    seq![
                        ("enable"@, yes()),
                        ("externalInterface"@, s(external)),
                        ("internalInterfaces"@, str_list(internal)),
                    ],
                ),
            ),
        ],
    )
}

/// The settings of nginx.
pub open spec fn nginx_settings() -> ValueModel {
    attrs_of(
        seq![
            ("enable"@, yes()),
            (
                "virtualHosts"@,
                attrs_of(seq![("default"@, attrs_of(seq![("root"@, s("/var/www"@))]))]),
            ),
        ],
    )
}

/// The settings of PostgreSQL.
pub open spec fn postgresql_settings() -> ValueModel {
    attrs_of(seq![("enable"@, yes()), ("enableTCPIP"@, yes())])
}

/// The settings of hostapd on an interface.
pub open spec fn hostapd_settings(interface: Seq<char>, ssid: Seq<char>, channel: u8) -> ValueModel {
    attrs_of(
        seq![
            ("enable"@, yes()),
            ("interface"@, s(interface)),
            ("ssid"@, s(ssid)),
            ("channel"@, ValueModel::Int(channel as i64)),
            ("hw_mode"@, s("g"@)),
            ("ieee80211n"@, yes()),
        ],
    )
}

/// The WireGuard interfaces of a machine.
pub open spec fn wg_interfaces() -> ValueModel {
    attrs_of(
        seq![
            (
                "wg0"@,
                attrs_of(
                    seq![
                        ("ips"@, str_list(seq!["10.0.0.1/24"@])),
                        ("listenPort"@, ValueModel::Int(51820)),
                        ("privateKeyFile"@, s("/etc/wireguard/private.key"@)),
                    ],
                ),
            ),
        ],
    )
}

/// The settings of WireGuard.
pub open spec fn wireguard_settings() -> ValueModel {
    attrs_of(seq![("networking.wireguard.interfaces"@, wg_interfaces())])
}

/// The settings of Prometheus.
pub open spec fn prometheus_settings() -> ValueModel {
    attrs_of(seq![("enable"@, yes()), ("port"@, ValueModel::Int(9090))])
}

/// The settings of the DHCP server.
pub open spec fn dhcpd_settings(interfaces: Seq<Seq<char>>, extra: Seq<char>) -> ValueModel {
    attrs_of(
        seq![("enable"@, yes()), ("interfaces"@, str_list(interfaces)), ("extraConfig"@, s(extra))],
    )
}


fn attrs1(k1: &str, v1: NixValue) -> (r: NixValue)
    ensures
        r.model() == attrs_of(seq![(k1@, v1.model())]),
{
    let p = vec![(key(k1), v1)];
    assert(p@.map_values(|e: (String, NixValue)| (e.0@, e.1.model())) =~= seq![(k1@, v1.model())]);
    attrs_from(p)
}

fn attrs2(k1: &str, v1: NixValue, k2: &str, v2: NixValue) -> (r: NixValue)
    ensures
        r.model() == attrs_of(seq![(k1@, v1.model()), (k2@, v2.model())]),
{
    let p = vec![(key(k1), v1), (key(k2), v2)];
    assert(p@.map_values(|e: (String, NixValue)| (e.0@, e.1.model())) =~= seq![
        (k1@, v1.model()),
        (k2@, v2.model()),
    ]);
    attrs_from(p)
}

fn attrs3(k1: &str, v1: NixValue, k2: &str, v2: NixValue, k3: &str, v3: NixValue) -> (r: NixValue)
    ensures
        r.model() == attrs_of(seq![(k1@, v1.model()), (k2@, v2.model()), (k3@, v3.model())]),
{
    let p = vec![(key(k1), v1), (key(k2), v2), (key(k3), v3)];
    assert(p@.map_values(|e: (String, NixValue)| (e.0@, e.1.model())) =~= seq![
        (k1@, v1.model()),
        (k2@, v2.model()),
        (k3@, v3.model()),
    ]);
    attrs_from(p)
}

fn attrs6(
    k1: &str,
    v1: NixValue,
    k2: &str,
    v2: NixValue,
    k3: &str,
    v3: NixValue,
    k4: &str,
    v4: NixValue,
    k5: &str,
    v5: NixValue,
    k6: &str,
    v6: NixValue,
) -> (r: NixValue)
    ensures
        r.model() == attrs_of(
            seq![
                (k1@, v1.model()),
                (k2@, v2.model()),
                (k3@, v3.model()),
                (k4@, v4.model()),
                (k5@, v5.model()),
                (k6@, v6.model()),
            ],
        ),
{
    let p = vec![(key(k1), v1), (key(k2), v2), (key(k3), v3), (key(k4), v4), (key(k5), v5), (key(k6), v6)];
    assert(p@.map_values(|e: (String, NixValue)| (e.0@, e.1.model())) =~= seq![
        (k1@, v1.model()),
        (k2@, v2.model()),
        (k3@, v3.model()),
        (k4@, v4.model()),
        (k5@, v5.model()),
        (k6@, v6.model()),
    ]);
    attrs_from(p)
}

fn lit_strings2(a: &str, b: &str) -> (r: NixValue)
    ensures
        r.model() == str_list(seq![a@, b@]),
{
    let l = vec![key(a), key(b)];
    assert(strs(l@) =~= seq![a@, b@]);
    strs_value(l)
}

fn lit_strings3(a: &str, b: &str, c: &str) -> (r: NixValue)
    ensures
        r.model() == str_list(seq![a@, b@, c@]),
{
    let l = vec![key(a), key(b), key(c)];
    assert(strs(l@) =~= seq![a@, b@, c@]);
    strs_value(l)
}

fn openssh_value() -> (r: NixValue)
    ensures
        r.model() == openssh_settings(),
{
    attrs2(
        "enable",
        bv(true),
        "settings",
        attrs2("PermitRootLogin", sv("prohibit-password"), "PasswordAuthentication", bv(false)),
    )
}

fn ip_forwarding_value() -> (r: NixValue)
    ensures
        r.model() == ip_forwarding_settings(),
{
    attrs1(
        "boot.kernel.sysctl",
        attrs2("net.ipv4.ip_forward", bv(true), "net.ipv6.conf.all.forwarding", bv(true)),
    )
}

fn unbound_value() -> (r: NixValue)
    ensures
        r.model() == unbound_settings(),
{
    let interfaces = lit_strings2("0.0.0.0", "::0");
    let access = lit_strings3("127.0.0.0/8 allow", "192.168.0.0/16 allow", "10.0.0.0/8 allow");
    attrs2(
        "enable",
        bv(true),
        "settings",
        attrs1("server", attrs2("interface", interfaces, "access-control", access)),
    )
}

fn nat_value(external: String, internal: Vec<String>) -> (r: NixValue)
    ensures
        r.model() == nat_settings(external@, strs(internal@)),
{
    attrs1(
        "networking.nat",
        attrs3("enable", bv(true), "externalInterface", sv_of(external), "internalInterfaces", strs_value(internal)),
    )
}

fn nginx_value() -> (r: NixValue)
    ensures
        r.model() == nginx_settings(),
{
    attrs2("enable", bv(true), "virtualHosts", attrs1("default", attrs1("root", sv("/var/www"))))
}

fn postgresql_value() -> (r: NixValue)
    ensures
        r.model() == postgresql_settings(),
{
    attrs2("enable", bv(true), "enableTCPIP", bv(true))
}

fn hostapd_value(interface: String, ssid: String, channel: u8) -> (r: NixValue)
    ensures
        r.model() == hostapd_settings(interface@, ssid@, channel),
{
    attrs6(
        "enable",
        bv(true),
        "interface",
        sv_of(interface),
        "ssid",
        sv_of(ssid),
        "channel",
        iv(channel as i64),
        "hw_mode",
        sv("g"),
        "ieee80211n",
        bv(true),
    )
}

fn wg_interfaces_value() -> (r: NixValue)
    ensures
        r.model() == wg_interfaces(),
{
    let ips = vec![key("10.0.0.1/24")];
    assert(strs(ips@) =~= seq!["10.0.0.1/24"@]);
    let wg0 = attrs3(
        "ips",
        strs_value(ips),
        "listenPort",
        iv(51820),
        "privateKeyFile",
        sv("/etc/wireguard/private.key"),
    );
    attrs1("wg0", wg0)
}

fn prometheus_value() -> (r: NixValue)
    ensures
        r.model() == prometheus_settings(),
{
    attrs2("enable", bv(true), "port", iv(9090))
}

fn dhcpd_value(interfaces: Vec<String>, extra: String) -> (r: NixValue)
    ensures
        r.model() == dhcpd_settings(strs(interfaces@), extra@),
{
    attrs3("enable", bv(true), "interfaces", strs_value(interfaces), "extraConfig", sv_of(extra))
}


// ---------------------------------------------------------------------------
// What is built for a machine
// ---------------------------------------------------------------------------

/// A service as name, enabled flag and settings.
pub type ServiceView = (Seq<char>, bool, ValueModel);

/// The view of a service.
pub open spec fn service_view(s: ServiceConfig) -> ServiceView {
    (s.name@, s.enabled, s.settings.model())
}

/// The views of services, in order.
pub open spec fn services_view(s: Seq<ServiceConfig>) -> Seq<ServiceView> {
    s.map_values(|x: ServiceConfig| service_view(x))
}

/// An enabled service.
pub open spec fn on(name: Seq<char>, settings: ValueModel) -> ServiceView {
    (name, true, settings)
}

/// Position of the first machine with an identifier.
pub open spec fn node_pos(s: Seq<NetworkNode>, id: uuid::Uuid) -> Option<int> {
    first_where(s, |n: NetworkNode| n.id == id)
}

/// Position of the first interface with a name.
pub open spec fn interface_pos(s: Seq<NetworkInterface>, name: Seq<char>) -> Option<int> {
    first_where(s, |i: NetworkInterface| i.name@ == name)
}

/// Position of the first wireless interface.
pub open spec fn wifi_pos(s: Seq<NetworkInterface>) -> Option<int> {
    first_where(s, |i: NetworkInterface| i.interface_type == InterfaceType::Wifi)
}

/// A name that marks an interface as facing outside.
pub open spec fn names_external(name: Seq<char>) -> bool {
    text::has_sub(name, "wan"@) || text::has_sub(name, "external"@)
}

/// Position of the first interface facing outside.
pub open spec fn external_pos(s: Seq<NetworkInterface>) -> Option<int> {
    first_where(s, |i: NetworkInterface| names_external(i.name@))
}

/// The first static address of an interface.
pub open spec fn first_static_address(i: NetworkInterface) -> Option<Seq<char>> {
    if static_of(i.addresses@).len() > 0 {
        Some(static_of(i.addresses@)[0].address@)
    } else {
        None
    }
}

/// Whether a machine serves DNS.
pub open spec fn runs_dns(n: NetworkNode) -> bool {
    lists(n.services@, "dns"@) || routes_traffic(n.node_type)
}

/// Whether a machine serves DHCP.
pub open spec fn runs_dhcp(n: NetworkNode) -> bool {
    lists(n.services@, "dhcp"@) || routes_traffic(n.node_type)
}

/// The name of the first interface, or `eth0`.
pub open spec fn primary_name(n: NetworkNode) -> Seq<char> {
    if n.interfaces@.len() > 0 {
        n.interfaces@[0].name@
    } else {
        "eth0"@
    }
}

/// The address by which a machine routes: the first static address of its
/// first interface, or `192.168.1.1`.
pub open spec fn router_ip(n: NetworkNode) -> Seq<char> {
    if n.interfaces@.len() > 0 && first_static_address(n.interfaces@[0]) is Some {
        first_static_address(n.interfaces@[0])->0
    } else {
        "192.168.1.1"@
    }
}

/// The name servers that DHCP hands out.
pub open spec fn dns_servers_text(n: NetworkNode) -> Seq<char> {
    if runs_dns(n) {
        router_ip(n)
    } else {
        "8.8.8.8, 8.8.4.4"@
    }
}

/// The subnet declaration of the DHCP server.
pub open spec fn dhcp_extra_config(n: NetworkNode) -> Seq<char> {
    "subnet 192.168.1.0 netmask 255.255.255.0 {\n  range 192.168.1.100 192.168.1.200;\n  option routers "@
        + router_ip(n) + ";\n  option domain-name-servers "@ + dns_servers_text(n) + ";\n}"@
}

/// The names of the interfaces that are not loopback, in order.
pub open spec fn served_interfaces(s: Seq<NetworkInterface>) -> Seq<Seq<char>>
    decreases s.len(),
{
    if s.len() == 0 {
        Seq::empty()
    } else if s.last().interface_type == InterfaceType::Loopback {
        served_interfaces(s.drop_last())
    } else {
        served_interfaces(s.drop_last()).push(s.last().name@)
    }
}

/// The names of the interfaces that do not face outside, in order.
pub open spec fn internal_interfaces(s: Seq<NetworkInterface>) -> Seq<Seq<char>>
    decreases s.len(),
{
    if s.len() == 0 {
        Seq::empty()
    } else if names_external(s.last().name@) {
        internal_interfaces(s.drop_last())
    } else {
        internal_interfaces(s.drop_last()).push(s.last().name@)
    }
}

/// The interface that faces outside: the first named so, else the first,
/// else `eth0`.
pub open spec fn external_interface(s: Seq<NetworkInterface>) -> Seq<char> {
    match external_pos(s) {
        Some(k) => s[k].name@,
        None => if s.len() > 0 {
            s[0].name@
        } else {
            "eth0"@
        },
    }
}

/// Whether a machine masquerades: a gateway with more than one interface.
pub open spec fn nat_enabled(n: NetworkNode) -> bool {
    n.node_type == NodeType::Gateway && n.interfaces@.len() > 1
}

/// The services of a router.
pub open spec fn router_services(n: NetworkNode) -> Seq<ServiceView> {
    seq![on("ip-forwarding"@, ip_forwarding_settings())] + (if runs_dhcp(n) {
        seq![
            on(
                "dhcpd4"@,
                dhcpd_settings(served_interfaces(n.interfaces@), dhcp_extra_config(n)),
            ),
        ]
    } else {
        Seq::empty()
    }) + (if runs_dns(n) {
        seq![on("unbound"@, unbound_settings())]
    } else {
        Seq::empty()
    }) + (if nat_enabled(n) {
        seq![
            on(
                "nat"@,
                nat_settings(external_interface(n.interfaces@), internal_interfaces(n.interfaces@)),
            ),
        ]
    } else {
        Seq::empty()
    })
}

/// The services of a server, by the role in its metadata.
pub open spec fn server_services(n: NetworkNode) -> Seq<ServiceView> {
    match lookup(n.metadata.model(), "role"@) {
        Some(r) => if r@ == "web"@ {
            seq![on("nginx"@, nginx_settings())]
        } else if r@ == "database"@ {
            seq![on("postgresql"@, postgresql_settings())]
        } else {
            Seq::empty()
        },
        None => Seq::empty(),
    }
}

/// The network name of an access point: its `ssid` metadata, or its name
/// followed by `-wifi`.
pub open spec fn ssid_of(n: NetworkNode) -> Seq<char> {
    match lookup(n.metadata.model(), "ssid"@) {
        Some(v) => v@,
        None => n.name@ + "-wifi"@,
    }
}

/// The radio channel of an access point: its `channel` metadata when that
/// reads as a `u8`, else 6.
pub open spec fn channel_of(n: NetworkNode) -> u8 {
    match lookup(n.metadata.model(), "channel"@) {
        Some(v) => match text::parse_u8_spec(v@) {
            Some(c) => c,
            None => 6,
        },
        None => 6,
    }
}

/// The services of an access point: hostapd on its first wireless interface.
pub open spec fn access_point_services(n: NetworkNode) -> Seq<ServiceView> {
    match wifi_pos(n.interfaces@) {
        Some(k) => seq![
            on("hostapd"@, hostapd_settings(n.interfaces@[k].name@, ssid_of(n), channel_of(n))),
        ],
        None => Seq::empty(),
    }
}

/// The service that a service name in a machine's list stands for.
pub open spec fn named_service(name: Seq<char>) -> Option<ServiceView> {
    if name == "wireguard"@ {
        Some(on("wireguard"@, wireguard_settings()))
    } else if name == "monitoring"@ {
        Some(on("prometheus"@, prometheus_settings()))
    } else {
        None
    }
}

/// The services that a list of service names stands for, in order.
pub open spec fn named_services(s: Seq<Seq<char>>) -> Seq<ServiceView>
    decreases s.len(),
{
    if s.len() == 0 {
        Seq::empty()
    } else {
        match named_service(s.last()) {
            Some(v) => named_services(s.drop_last()).push(v),
            None => named_services(s.drop_last()),
        }
    }
}

/// The services of a machine by its role.
pub open spec fn role_services(n: NetworkNode) -> Seq<ServiceView> {
    match n.node_type {
        NodeType::Router | NodeType::Gateway => router_services(n),
        NodeType::Server => server_services(n),
        NodeType::AccessPoint => access_point_services(n),
        _ => Seq::empty(),
    }
}

/// All services of a machine: OpenSSH when enabled, those of its role, then
/// those it lists.
pub open spec fn node_services(ssh: bool, n: NetworkNode) -> Seq<ServiceView> {
    (if ssh {
        seq![on("openssh"@, openssh_settings())]
    } else {
        Seq::empty()
    }) + role_services(n) + named_services(strs(n.services@))
}

/// The names of services, in order.
pub open spec fn service_names(s: Seq<ServiceConfig>) -> Seq<Seq<char>> {
    s.map_values(|x: ServiceConfig| x.name@)
}

/// The TCP ports a service opens.
pub open spec fn tcp_ports_of(name: Seq<char>) -> Seq<u16> {
    if name == "nginx"@ {
        seq![80u16, 443u16]
    } else if name == "postgresql"@ {
        seq![5432u16]
    } else if name == "prometheus"@ {
        seq![9090u16]
    } else if name == "unbound"@ {
        seq![53u16]
    } else {
        Seq::empty()
    }
}

/// The UDP ports a service opens.
pub open spec fn udp_ports_of(name: Seq<char>) -> Seq<u16> {
    if name == "unbound"@ {
        seq![53u16]
    } else if name == "dhcpd4"@ {
        seq![67u16, 68u16]
    } else {
        Seq::empty()
    }
}

/// The TCP ports services open, in order.
pub open spec fn tcp_ports(names: Seq<Seq<char>>) -> Seq<u16>
    decreases names.len(),
{
    if names.len() == 0 {
        Seq::empty()
    } else {
        tcp_ports(names.drop_last()) + tcp_ports_of(names.last())
    }
}

/// The UDP ports services open, in order.
pub open spec fn udp_ports(names: Seq<Seq<char>>) -> Seq<u16>
    decreases names.len(),
{
    if names.len() == 0 {
        Seq::empty()
    } else {
        udp_ports(names.drop_last()) + udp_ports_of(names.last())
    }
}

/// The firewall of a machine with the given services: SSH's port 22 when SSH
/// is enabled, then the ports of each service; 51820/udp for WireGuard.
pub open spec fn firewall_for(f: FirewallConfig, ssh: bool, names: Seq<Seq<char>>) -> bool {
    &&& f.enable
    &&& f.allowed_tcp_ports@ == (if ssh {
        seq![22u16]
    } else {
        Seq::empty()
    }) + tcp_ports(names)
    &&& f.allowed_udp_ports@ == udp_ports(names) + (if names.contains("wireguard"@) {
        seq![51820u16]
    } else {
        Seq::empty()
    })
    &&& f.rules@.len() == 0
}

/// The machine at the other end of a link.
pub open spec fn peer_of(c: NetworkConnection, id: uuid::Uuid) -> uuid::Uuid {
    if c.from_node == id {
        c.to_node
    } else {
        c.from_node
    }
}

/// The gateway address a link offers a machine: when the machine at its other
/// end routes, the first static address of that machine's interface named as
/// the link's starting interface.
pub open spec fn gateway_via(c: NetworkConnection, n: NetworkNode, nodes: Seq<NetworkNode>) -> Option<
    Seq<char>,
> {
    match node_pos(nodes, peer_of(c, n.id)) {
        Some(k) => if routes_traffic(nodes[k].node_type) {
            match interface_pos(nodes[k].interfaces@, c.from_interface@) {
                Some(m) => first_static_address(nodes[k].interfaces@[m]),
                None => None,
            }
        } else {
            None
        },
        None => None,
    }
}

/// The first gateway address that one of the links offers.
pub open spec fn gateway_among(links: Seq<NetworkConnection>, n: NetworkNode, nodes: Seq<NetworkNode>) -> Option<
    Seq<char>,
>
    decreases links.len(),
{
    if links.len() == 0 {
        None
    } else {
        match gateway_via(links[0], n, nodes) {
            Some(g) => Some(g),
            None => gateway_among(links.drop_first(), n, nodes),
        }
    }
}

/// The gateway of a machine in a topology.
pub open spec fn gateway_for(n: NetworkNode, nodes: Seq<NetworkNode>, conns: Seq<NetworkConnection>) -> Option<
    Seq<char>,
> {
    gateway_among(links_with(conns, n.id), n, nodes)
}

/// The addresses of the machines that serve DNS: the first static address of
/// the first interface of each, in order.
pub open spec fn dns_addresses(nodes: Seq<NetworkNode>) -> Seq<Seq<char>>
    decreases nodes.len(),
{
    if nodes.len() == 0 {
        Seq::empty()
    } else {
        let n = nodes.last();
        if runs_dns(n) && n.interfaces@.len() > 0 && first_static_address(n.interfaces@[0]) is Some {
            dns_addresses(nodes.drop_last()).push(first_static_address(n.interfaces@[0])->0)
        } else {
            dns_addresses(nodes.drop_last())
        }
    }
}

/// The name servers of a topology, with Google's public ones when none serves.
pub open spec fn dns_servers_for(nodes: Seq<NetworkNode>) -> Seq<Seq<char>> {
    if dns_addresses(nodes).len() == 0 {
        seq!["8.8.8.8"@, "8.8.4.4"@]
    } else {
        dns_addresses(nodes)
    }
}

/// The name servers a machine uses: itself when it serves DNS, else those of
/// the topology.
pub open spec fn nameservers_for(n: NetworkNode, nodes: Seq<NetworkNode>) -> Seq<Seq<char>> {
    if runs_dns(n) {
        seq!["127.0.0.1"@]
    } else {
        dns_servers_for(nodes)
    }
}

/// The routes of a machine: a default route through its gateway, for a
/// machine that does not route and has one.
pub open spec fn routes_for(r: Seq<RouteConfig>, n: NetworkNode, nodes: Seq<NetworkNode>, conns: Seq<NetworkConnection>) -> bool {
    if !routes_traffic(n.node_type) && gateway_for(n, nodes, conns) is Some {
        &&& r.len() == 1
        &&& r[0].destination@ == "0.0.0.0/0"@
        &&& opt_text(r[0].gateway) == gateway_for(n, nodes, conns)
        &&& r[0].interface@ == primary_name(n)
    } else {
        r.len() == 0
    }
}

/// `c` is the network configuration of machine `n` in a topology.
pub open spec fn network_config_for(
    c: NetworkConfig,
    n: NetworkNode,
    nodes: Seq<NetworkNode>,
    conns: Seq<NetworkConnection>,
) -> bool {
    &&& c.interfaces@.len() == n.interfaces@.len()
    &&& forall|i: int| 0 <= i < c.interfaces@.len() ==> configures(#[trigger] c.interfaces@[i], n.interfaces@[i])
    &&& routes_for(c.routes@, n, nodes, conns)
    &&& c.dns matches Some(d) && strs(d.nameservers@) == nameservers_for(n, nodes)
        && d.search_domains@.len() == 0
}

// ---------------------------------------------------------------------------
// The builder
// ---------------------------------------------------------------------------

/// How systems are built.
#[derive(Debug)]
pub struct SystemBuildConfig {
    /// The flake the systems build on.
    pub base_flake: Option<FlakeRef>,
    /// The time zone.
    pub timezone: String,
    /// The locale.
    pub locale: String,
    /// Whether OpenSSH runs on every machine.
    pub enable_ssh: bool,
    /// nixpkgs settings.
    pub nixpkgs_config: NameMap<NixValue>,
}

impl Default for SystemBuildConfig {
    fn default() -> (r: Self)
        ensures
            r.base_flake is None,
            r.timezone@ == "UTC"@,
            r.locale@ == "en_US.UTF-8"@,
            r.enable_ssh,
            r.nixpkgs_config.model().len() == 0,
    {
        SystemBuildConfig {
            base_flake: None,
            timezone: text::string_from("UTC"),
            locale: text::string_from("en_US.UTF-8"),
            enable_ssh: true,
            nixpkgs_config: NameMap::new(),
        }
    }
}

/// Builds the NixOS configuration of machines of a network.
pub struct NetworkSystemBuilder {
    config: SystemBuildConfig,
}

/// The first static address of an interface.
fn first_static(i: &NetworkInterface) -> (r: Option<String>)
    ensures
        opt_text(r) == first_static_address(*i),
{
    let st = i.static_addresses();
    if st.len() > 0 {
        Some(st[0].address.clone())
    } else {
        None
    }
}

/// Whether an interface name marks it as facing outside.
fn is_external_name(name: &String) -> (b: bool)
    ensures
        b == names_external(name@),
{
    let v = text::chars_of(name.as_str());
    text::contains_str(v.as_slice(), "wan") || text::contains_str(v.as_slice(), "external")
}

/// Appends services.
fn append_services(v: &mut Vec<ServiceConfig>, w: Vec<ServiceConfig>)
    ensures
        services_view(final(v)@) == services_view(old(v)@) + services_view(w@),
{
    let mut w = w;
    let ghost a = v@;
    let ghost b = w@;
    v.append(&mut w);
    assert(v@ =~= a + b);
    assert(services_view(v@) =~= services_view(a) + services_view(b));
}

fn enabled_service(name: &str, settings: NixValue) -> (r: ServiceConfig)
    ensures
        service_view(r) == on(name@, settings.model()),
{
    ServiceConfig { name: text::string_from(name), enabled: true, settings }
}

impl NetworkSystemBuilder {
    /// The configuration it builds with.
    pub closed spec fn build_config(&self) -> SystemBuildConfig {
        self.config
    }

    /// A builder with the default configuration.
    pub fn new() -> (r: Self)
        ensures
            r.build_config().enable_ssh,
            r.build_config().timezone@ == "UTC"@,
            r.build_config().locale@ == "en_US.UTF-8"@,
            r.build_config().base_flake is None,
            r.build_config().nixpkgs_config.model().len() == 0,
    {
        NetworkSystemBuilder { config: SystemBuildConfig::default() }
    }

    /// A builder with a configuration.
    pub fn with_config(config: SystemBuildConfig) -> (r: Self)
        ensures
            r.build_config() == config,
    {
        NetworkSystemBuilder { config }
    }

    /// The address by which a machine routes.
    fn get_router_ip(&self, node: &NetworkNode) -> (r: String)
        ensures
            r@ == router_ip(*node),
    {
        match node.primary_interface() {
            Some(i) => match first_static(i) {
                Some(a) => a,
                None => text::string_from("192.168.1.1"),
            },
            None => text::string_from("192.168.1.1"),
        }
    }

    /// The name servers DHCP hands out.
    fn get_dns_servers(&self, node: &NetworkNode) -> (r: String)
        ensures
            r@ == dns_servers_text(*node),
    {
        if node.should_run_dns() {
            self.get_router_ip(node)
        } else {
            text::string_from("8.8.8.8, 8.8.4.4")
        }
    }

    /// The names of the interfaces that are not loopback.
    fn served_interface_names(&self, node: &NetworkNode) -> (r: Vec<String>)
        ensures
            strs(r@) == served_interfaces(node.interfaces@),
    {
        let ghost s = node.interfaces@;
        let mut r: Vec<String> = Vec::new();
        let mut i: usize = 0;
        assert(s.take(0) =~= Seq::<NetworkInterface>::empty());
        assert(strs(r@) =~= Seq::<Seq<char>>::empty());
        while i < node.interfaces.len()
            invariant
                i <= s.len(),
                s == node.interfaces@,
                strs(r@) == served_interfaces(s.take(i as int)),
            decreases s.len() - i,
        {
            proof {
                assert(s.take(i + 1).drop_last() =~= s.take(i as int));
            }
            let itf = &node.interfaces[i];
            match itf.interface_type {
                InterfaceType::Loopback => {},
                _ => {
                    let ghost before = r@;
                    r.push(itf.name.clone());
                    assert(strs(r@) =~= strs(before).push(itf.name@));
                },
            }
            i = i + 1;
        }
        assert(s.take(s.len() as int) =~= s);
        r
    }

    /// The DHCP server of a machine.
    fn build_dhcp_config(&self, node: &NetworkNode, topology: &NetworkTopology) -> (r: Result<
        Option<ServiceConfig>,
        NixDomainError,
    >)
        ensures
            r matches Ok(Some(c)) && service_view(c) == on(
                "dhcpd4"@,
                dhcpd_settings(served_interfaces(node.interfaces@), dhcp_extra_config(*node)),
            ),
    {
        let mut extra: Vec<char> = Vec::new();
        text::append_str(
            &mut extra,
            "subnet 192.168.1.0 netmask 255.255.255.0 {\n  range 192.168.1.100 192.168.1.200;\n  option routers ",
        );
        let router = text::chars_of(self.get_router_ip(node).as_str());
        text::append_chars(&mut extra, router.as_slice());
        text::append_str(&mut extra, ";\n  option domain-name-servers ");
        let dns = text::chars_of(self.get_dns_servers(node).as_str());
        text::append_chars(&mut extra, dns.as_slice());
        text::append_str(&mut extra, ";\n}");
        let names = self.served_interface_names(node);
        let settings = dhcpd_value(names, text::string_of(extra.as_slice()));
        Ok(Some(enabled_service("dhcpd4", settings)))
    }

    /// The interface of a machine that faces outside.
    fn find_external_interface(&self, node: &NetworkNode) -> (r: String)
        ensures
            r@ == external_interface(node.interfaces@),
    {
        let ghost s = node.interfaces@;
        let ghost p = |i: NetworkInterface| names_external(i.name@);
        proof {
            lemma_first_where(s, p);
        }
        let mut i: usize = 0;
        while i < node.interfaces.len()
            invariant
                i <= s.len(),
                s == node.interfaces@,
                p == (|i: NetworkInterface| names_external(i.name@)),
                forall|j: int| 0 <= j < i ==> !names_external(#[trigger] s[j].name@),
            decreases s.len() - i,
        {
            if is_external_name(&node.interfaces[i].name) {
                proof {
                    lemma_first_where(s, p);
                }
                return node.interfaces[i].name.clone();
            }
            i = i + 1;
        }
        proof {
            lemma_first_where(s, p);
        }
        if node.interfaces.len() > 0 {
            node.interfaces[0].name.clone()
        } else {
            text::string_from("eth0")
        }
    }

    /// The interfaces of a machine that do not face outside.
    fn find_internal_interfaces(&self, node: &NetworkNode) -> (r: Vec<String>)
        ensures
            strs(r@) == internal_interfaces(node.interfaces@),
    {
        let ghost s = node.interfaces@;
        let mut r: Vec<String> = Vec::new();
        let mut i: usize = 0;
        assert(s.take(0) =~= Seq::<NetworkInterface>::empty());
        assert(strs(r@) =~= Seq::<Seq<char>>::empty());
        while i < node.interfaces.len()
            invariant
                i <= s.len(),
                s == node.interfaces@,
                strs(r@) == internal_interfaces(s.take(i as int)),
            decreases s.len() - i,
        {
            proof {
                assert(s.take(i + 1).drop_last() =~= s.take(i as int));
            }
            let itf = &node.interfaces[i];
            if !is_external_name(&itf.name) {
                let ghost before = r@;
                r.push(itf.name.clone());
                assert(strs(r@) =~= strs(before).push(itf.name@));
            }
            i = i + 1;
        }
        assert(s.take(s.len() as int) =~= s);
        r
    }

    /// Whether a machine masquerades.
    fn should_enable_nat(&self, node: &NetworkNode, topology: &NetworkTopology) -> (b: bool)
        ensures
            b == nat_enabled(*node),
    {
        node.node_type == NodeType::Gateway && node.interfaces.len() > 1
    }

    /// The services of a router.
    fn build_router_services(&self, node: &NetworkNode, topology: &NetworkTopology) -> (r: Result<
        Vec<ServiceConfig>,
        NixDomainError,
    >)
        ensures
            r matches Ok(v) && services_view(v@) == router_services(*node),
    {
        let mut services: Vec<ServiceConfig> = Vec::new();
        services.push(enabled_service("ip-forwarding", ip_forwarding_value()));
        let ghost s1 = services_view(services@);
        assert(s1 =~= seq![on("ip-forwarding"@, ip_forwarding_settings())]);
        if node.should_run_dhcp() {
            match self.build_dhcp_config(node, topology) {
                Ok(Some(d)) => services.push(d),
                _ => {},
            }
        }
        let ghost s2 = services_view(services@);
        assert(s2 =~= s1 + (if runs_dhcp(*node) {
            seq![
                on(
                    "dhcpd4"@,
                    dhcpd_settings(served_interfaces(node.interfaces@), dhcp_extra_config(*node)),
                ),
            ]
        } else {
            Seq::empty()
        }));
        if node.should_run_dns() {
            services.push(enabled_service("unbound", unbound_value()));
        }
        let ghost s3 = services_view(services@);
        assert(s3 =~= s2 + (if runs_dns(*node) {
            seq![on("unbound"@, unbound_settings())]
        } else {
            Seq::empty()
        }));
        if self.should_enable_nat(node, topology) {
            let external = self.find_external_interface(node);
            let internal = self.find_internal_interfaces(node);
            services.push(enabled_service("nat", nat_value(external, internal)));
        }
        assert(services_view(services@) =~= s3 + (if nat_enabled(*node) {
            seq![
                on(
                    "nat"@,
                    nat_settings(external_interface(node.interfaces@), internal_interfaces(node.interfaces@)),
                ),
            ]
        } else {
            Seq::empty()
        }));
        Ok(services)
    }

    /// The services of a server, by its role.
    fn build_server_services(&self, node: &NetworkNode) -> (r: Result<Vec<ServiceConfig>, NixDomainError>)
        ensures
            r matches Ok(v) && services_view(v@) == server_services(*node),
    {
        let mut services: Vec<ServiceConfig> = Vec::new();
        match node.metadata.get("role") {
            Some(role) => {
                let rv = text::chars_of(role.as_str());
                if text::eq_str(rv.as_slice(), "web") {
                    services.push(enabled_service("nginx", nginx_value()));
                } else if text::eq_str(rv.as_slice(), "database") {
                    services.push(enabled_service("postgresql", postgresql_value()));
                }
            },
            None => {},
        }
        assert(services_view(services@) =~= server_services(*node));
        Ok(services)
    }

    /// The services of an access point.
    fn build_access_point_services(&self, node: &NetworkNode) -> (r: Result<
        Vec<ServiceConfig>,
        NixDomainError,
    >)
        ensures
            r matches Ok(v) && services_view(v@) == access_point_services(*node),
    {
        let ghost s = node.interfaces@;
        let ghost p = |i: NetworkInterface| i.interface_type == InterfaceType::Wifi;
        let mut services: Vec<ServiceConfig> = Vec::new();
        let mut i: usize = 0;
        while i < node.interfaces.len()
            invariant
                i <= s.len(),
                s == node.interfaces@,
                p == (|i: NetworkInterface| i.interface_type == InterfaceType::Wifi),
                forall|j: int| 0 <= j < i ==> (#[trigger] s[j]).interface_type != InterfaceType::Wifi,
            ensures
                i <= s.len(),
                i < s.len() ==> s[i as int].interface_type == InterfaceType::Wifi,
                forall|j: int| 0 <= j < i ==> (#[trigger] s[j]).interface_type != InterfaceType::Wifi,
            decreases s.len() - i,
        {
            if node.interfaces[i].interface_type == InterfaceType::Wifi {
                break;
            }
            i = i + 1;
        }
        proof {
            lemma_first_where(s, p);
        }
        if i < node.interfaces.len() {
            let ssid = match node.metadata.get("ssid") {
                Some(v) => v.clone(),
                None => {
                    let mut t = text::chars_of(node.name.as_str());
                    text::append_str(&mut t, "-wifi");
                    text::string_of(t.as_slice())
                },
            };
            let channel: u8 = match node.metadata.get("channel") {
                Some(c) => {
                    let cv = text::chars_of(c.as_str());
                    match text::parse_u8(cv.as_slice()) {
                        Some(v) => v,
                        None => 6,
                    }
                },
                None => 6,
            };
            let settings = hostapd_value(node.interfaces[i].name.clone(), ssid, channel);
            services.push(enabled_service("hostapd", settings));
        }
        assert(services_view(services@) =~= access_point_services(*node));
        Ok(services)
    }

    /// The WireGuard interfaces of a machine.
    fn build_wireguard_config(&self, node: &NetworkNode) -> (r: NixValue)
        ensures
            r.model() == wg_interfaces(),
    {
        wg_interfaces_value()
    }

    /// The service a listed name stands for.
    fn build_service_by_name(&self, name: &str, node: &NetworkNode) -> (r: Result<
        Option<ServiceConfig>,
        NixDomainError,
    >)
        ensures
            r matches Ok(o) && match named_service(name@) {
                Some(v) => o matches Some(c) && service_view(c) == v,
                None => o is None,
            },
    {
        let nv = text::chars_of(name);
        if text::eq_str(nv.as_slice(), "wireguard") {
            let settings = attrs1("networking.wireguard.interfaces", self.build_wireguard_config(node));
            Ok(Some(enabled_service("wireguard", settings)))
        } else if text::eq_str(nv.as_slice(), "monitoring") {
            Ok(Some(enabled_service("prometheus", prometheus_value())))
        } else {
            Ok(None)
        }
    }

    /// The services of a machine.
    fn build_services_for_node(&self, node: &NetworkNode, topology: &NetworkTopology) -> (r: Result<
        Vec<ServiceConfig>,
        NixDomainError,
    >)
        ensures
            r matches Ok(v) && services_view(v@) == node_services(self.build_config().enable_ssh, *node),
    {
        let mut services: Vec<ServiceConfig> = Vec::new();
        if self.config.enable_ssh {
            services.push(enabled_service("openssh", openssh_value()));
        }
        let ghost s1 = services_view(services@);
        assert(s1 =~= (if self.build_config().enable_ssh {
            seq![on("openssh"@, openssh_settings())]
        } else {
            Seq::empty()
        }));
        match node.node_type {
            NodeType::Router | NodeType::Gateway => {
                match self.build_router_services(node, topology) {
                    Ok(v) => append_services(&mut services, v),
                    Err(e) => return Err(e),
                }
            },
            NodeType::Server => {
                match self.build_server_services(node) {
                    Ok(v) => append_services(&mut services, v),
                    Err(e) => return Err(e),
                }
            },
            NodeType::AccessPoint => {
                match self.build_access_point_services(node) {
                    Ok(v) => append_services(&mut services, v),
                    Err(e) => return Err(e),
                }
            },
            _ => {
                assert(services_view(services@) =~= s1 + role_services(*node));
            },
        }
        let ghost s2 = services_view(services@);
        assert(s2 == s1 + role_services(*node));
        let ghost names = strs(node.services@);
        let mut i: usize = 0;
        assert(names.take(0) =~= Seq::<Seq<char>>::empty());
        assert(services_view(services@) =~= s2 + named_services(names.take(0)));
        while i < node.services.len()
            invariant
                i <= names.len(),
                names == strs(node.services@),
                services_view(services@) == s2 + named_services(names.take(i as int)),
            decreases names.len() - i,
        {
            proof {
                assert(names.take(i + 1).drop_last() =~= names.take(i as int));
                assert(names.take(i + 1).last() == node.services@[i as int]@);
            }
            match self.build_service_by_name(node.services[i].as_str(), node) {
                Ok(Some(c)) => {
                    let ghost before = services@;
                    services.push(c);
                    assert(services_view(services@) =~= services_view(before).push(service_view(c)));
                },
                Ok(None) => {},
                Err(e) => return Err(e),
            }
            i = i + 1;
        }
        assert(names.take(names.len() as int) =~= names);
        Ok(services)
    }

    /// The firewall of a machine with the given services.
    fn build_firewall_config(&self, node: &NetworkNode, services: &[ServiceConfig]) -> (r: Result<
        Option<FirewallConfig>,
        NixDomainError,
    >)
        ensures
            r matches Ok(Some(f)) && firewall_for(f, self.build_config().enable_ssh, service_names(services@)),
    {
        let ghost names = service_names(services@);
        let mut tcp: Vec<u16> = Vec::new();
        let mut udp: Vec<u16> = Vec::new();
        if self.config.enable_ssh {
            tcp.push(22);
        }
        let ghost t0 = tcp@;
        assert(t0 =~= (if self.build_config().enable_ssh {
            seq![22u16]
        } else {
            Seq::empty()
        }));
        let mut i: usize = 0;
        let mut wireguard = false;
        assert(names.take(0) =~= Seq::<Seq<char>>::empty());
        assert(tcp@ =~= t0 + tcp_ports(names.take(0)));
        assert(udp@ =~= udp_ports(names.take(0)));
        while i < services.len()
            invariant
                i <= names.len(),
                names == service_names(services@),
                tcp@ == t0 + tcp_ports(names.take(i as int)),
                udp@ == udp_ports(names.take(i as int)),
                wireguard == names.take(i as int).contains("wireguard"@),
            decreases names.len() - i,
        {
            proof {
                assert(names.take(i + 1).drop_last() =~= names.take(i as int));
                assert(names.take(i + 1).last() == services@[i as int].name@);
            }
            proof {
                reveal_strlit("nginx");
                reveal_strlit("postgresql");
                reveal_strlit("prometheus");
                reveal_strlit("unbound");
                reveal_strlit("dhcpd4");
            }
            let ghost tb = tcp@;
            let ghost ub = udp@;
            let nv = text::chars_of(services[i].name.as_str());
            if text::eq_str(nv.as_slice(), "nginx") {
                tcp.push(80);
                tcp.push(443);
            } else if text::eq_str(nv.as_slice(), "postgresql") {
                tcp.push(5432);
            } else if text::eq_str(nv.as_slice(), "prometheus") {
                tcp.push(9090);
            } else if text::eq_str(nv.as_slice(), "unbound") {
                tcp.push(53);
                udp.push(53);
            } else if text::eq_str(nv.as_slice(), "dhcpd4") {
                udp.push(67);
                udp.push(68);
            }
            assert(tcp@ =~= tb + tcp_ports_of(nv@));
            assert(udp@ =~= ub + udp_ports_of(nv@));
            if text::eq_str(nv.as_slice(), "wireguard") {
                wireguard = true;
            }
            proof {
                let t = names.take(i + 1);
                if wireguard {
                    if nv@ == "wireguard"@ {
                        assert(t[i as int] == "wireguard"@);
                    } else {
                        let k = choose|k: int| 0 <= k < names.take(i as int).len() && names.take(i as int)[k] == "wireguard"@;
                        assert(t[k] == "wireguard"@);
                    }
                } else {
                    assert forall|k: int| 0 <= k < t.len() implies t[k] != "wireguard"@ by {
                        if k < i {
                            assert(t[k] == names.take(i as int)[k]);
                        }
                    }
                }
            }
            i = i + 1;
        }
        assert(names.take(names.len() as int) =~= names);
        let ghost u0 = udp@;
        if wireguard {
            udp.push(51820);
        }
        assert(udp@ =~= u0 + (if names.contains("wireguard"@) {
            seq![51820u16]
        } else {
            Seq::empty()
        }));
        Ok(Some(FirewallConfig { enable: true, allowed_tcp_ports: tcp, allowed_udp_ports: udp, rules: Vec::new() }))
    }

    /// The gateway of a machine: the first router at the other end of one of
    /// its links that has a static address on the link's starting interface.
    fn find_gateway_for_node(&self, node: &NetworkNode, topology: &NetworkTopology) -> (r: Option<String>)
        ensures
            opt_text(r) == gateway_for(*node, topology.node_list(), topology.connection_list()),
    {
        let ghost nodes = topology.node_list();
        let ghost links = links_with(topology.connection_list(), node.id);
        let conns = topology.node_connections(node.id);
        let mut i: usize = 0;
        assert(links.skip(0) =~= links);
        while i < conns.len()
            invariant
                i <= conns@.len(),
                conns@.len() == links.len(),
                forall|j: int| 0 <= j < conns@.len() ==> *conns@[j] == links[j],
                nodes == topology.node_list(),
                links == links_with(topology.connection_list(), node.id),
                gateway_for(*node, nodes, topology.connection_list()) == gateway_among(links.skip(i as int), *node, nodes),
            decreases conns@.len() - i,
        {
            let conn = conns[i];
            proof {
                assert(links.skip(i as int).drop_first() =~= links.skip(i + 1));
                assert(links.skip(i as int)[0] == *conn);
            }
            let other = if same_id(&conn.from_node, &node.id) {
                conn.to_node.clone()
            } else {
                conn.from_node.clone()
            };
            match topology.find_node(other) {
                Some(o) => {
                    proof {
                        let k = choose|k: int|
                            0 <= k < nodes.len() && *o == nodes[k] && o.id == other && forall|j: int|
                                0 <= j < k ==> #[trigger] nodes[j].id != other;
                        lemma_first_where(nodes, |n: NetworkNode| n.id == other);
                        assert(node_pos(nodes, other) == Some(k));
                    }
                    if o.is_router() {
                        match o.get_interface(conn.from_interface.as_str()) {
                            Some(itf) => {
                                proof {
                                    let m = choose|m: int|
                                        0 <= m < o.interfaces@.len() && *itf == o.interfaces@[m]
                                            && itf.name@ == conn.from_interface@ && forall|j: int|
                                            0 <= j < m ==> #[trigger] o.interfaces@[j].name@ != conn.from_interface@;
                                    lemma_first_where(
                                        o.interfaces@,
                                        |i: NetworkInterface| i.name@ == conn.from_interface@,
                                    );
                                    assert(interface_pos(o.interfaces@, conn.from_interface@) == Some(m));
                                }
                                match first_static(itf) {
                                    Some(a) => {
                                        return Some(a);
                                    },
                                    None => {},
                                }
                            },
                            None => {
                                proof {
                                    lemma_first_where(
                                        o.interfaces@,
                                        |i: NetworkInterface| i.name@ == conn.from_interface@,
                                    );
                                }
                            },
                        }
                    }
                },
                None => {
                    proof {
                        lemma_first_where(nodes, |n: NetworkNode| n.id == other);
                    }
                },
            }
            i = i + 1;
        }
        None
    }

    /// The name servers of a topology.
    fn find_dns_servers(&self, topology: &NetworkTopology) -> (r: Option<Vec<String>>)
        ensures
            r matches Some(v) && strs(v@) == dns_servers_for(topology.node_list()),
    {
        let nodes = topology.nodes();
        let ghost s = topology.node_list();
        let mut servers: Vec<String> = Vec::new();
        let mut i: usize = 0;
        assert(s.take(0) =~= Seq::<NetworkNode>::empty());
        assert(strs(servers@) =~= Seq::<Seq<char>>::empty());
        while i < nodes.len()
            invariant
                i <= s.len(),
                s == nodes@,
                strs(servers@) == dns_addresses(s.take(i as int)),
            decreases s.len() - i,
        {
            proof {
                assert(s.take(i + 1).drop_last() =~= s.take(i as int));
            }
            let n = &nodes[i];
            if n.should_run_dns() {
                match n.primary_interface() {
                    Some(itf) => match first_static(itf) {
                        Some(a) => {
                            let ghost before = servers@;
                            servers.push(a);
                            assert(strs(servers@) =~= strs(before).push(a@));
                        },
                        None => {},
                    },
                    None => {},
                }
            }
            i = i + 1;
        }
        assert(s.take(s.len() as int) =~= s);
        if servers.len() == 0 {
            let fallback = vec![text::string_from("8.8.8.8"), text::string_from("8.8.4.4")];
            assert(strs(fallback@) =~= seq!["8.8.8.8"@, "8.8.4.4"@]);
            Some(fallback)
        } else {
            Some(servers)
        }
    }

    /// The network configuration of a machine.
    fn build_network_config(&self, node: &NetworkNode, topology: &NetworkTopology) -> (r: Result<
        NetworkConfig,
        NixDomainError,
    >)
        ensures
            r matches Ok(c) && network_config_for(c, *node, topology.node_list(), topology.connection_list()),
    {
        let mut interfaces: Vec<InterfaceConfig> = Vec::new();
        let mut i: usize = 0;
        while i < node.interfaces.len()
            invariant
                i <= node.interfaces@.len(),
                interfaces@.len() == i,
                forall|j: int| 0 <= j < i ==> configures(#[trigger] interfaces@[j], node.interfaces@[j]),
            decreases node.interfaces@.len() - i,
        {
            interfaces.push(interface_config_of(&node.interfaces[i]));
            i = i + 1;
        }
        let mut routes: Vec<RouteConfig> = Vec::new();
        if !node.is_router() {
            match self.find_gateway_for_node(node, topology) {
                Some(gateway) => {
                    let interface = match node.primary_interface() {
                        Some(p) => p.name.clone(),
                        None => text::string_from("eth0"),
                    };
                    routes.push(
                        RouteConfig {
                            destination: text::string_from("0.0.0.0/0"),
                            gateway: Some(gateway),
                            interface,
                        },
                    );
                },
                None => {},
            }
        }
        let dns = if node.should_run_dns() {
            let ns = vec![text::string_from("127.0.0.1")];
            assert(strs(ns@) =~= seq!["127.0.0.1"@]);
            Some(DnsConfig { nameservers: ns, search_domains: Vec::new() })
        } else {
            match self.find_dns_servers(topology) {
                Some(servers) => Some(DnsConfig { nameservers: servers, search_domains: Vec::new() }),
                None => None,
            }
        };
        Ok(NetworkConfig { interfaces, routes, dns })
    }

    /// The configuration of a machine in a topology: its network, its
    /// services and its firewall, under a fresh random identifier.
    pub fn build_system_for_node(&self, node: &NetworkNode, topology: &NetworkTopology) -> (r: Result<
        SystemConfiguration,
        NixDomainError,
    >)
        ensures
            r matches Ok(c) && {
                &&& c.node_id == node.id
                &&& c.hostname@ == node.name@
                &&& network_config_for(c.network_config, *node, topology.node_list(), topology.connection_list())
                &&& services_view(c.services@) == node_services(self.build_config().enable_ssh, *node)
                &&& c.firewall_config matches Some(f) && firewall_for(
                    f,
                    self.build_config().enable_ssh,
                    service_names(c.services@),
                )
            },
    {
        let system_id = random_id();
        let network_config = match self.build_network_config(node, topology) {
            Ok(c) => c,
            Err(e) => return Err(e),
        };
        let services = match self.build_services_for_node(node, topology) {
            Ok(v) => v,
            Err(e) => return Err(e),
        };
        let firewall_config = match self.build_firewall_config(node, services.as_slice()) {
            Ok(f) => f,
            Err(e) => return Err(e),
        };
        Ok(
            SystemConfiguration {
                system_id,
                node_id: node.id.clone(),
                hostname: node.name.clone(),
                network_config,
                services,
                firewall_config,
            },
        )
    }
}

impl Default for NetworkSystemBuilder {
    fn default() -> (r: Self)
        ensures
            r.build_config().enable_ssh,
            r.build_config().timezone@ == "UTC"@,
            r.build_config().locale@ == "en_US.UTF-8"@,
            r.build_config().base_flake is None,
            r.build_config().nixpkgs_config.model().len() == 0,
    {
        Self::new()
    }
}

} // verus!
