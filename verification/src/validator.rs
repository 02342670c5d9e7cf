//! Checking nix-topology documents and topologies for structural and
//! referential consistency.

use vstd::prelude::*;
use crate::ast::{AstError, ast_to_value, ast_value, parses, parsed_as};
use crate::named::{lookup, NameMap};
use crate::nix_parser::{NixParser, ParseError, parse_error_message};
use crate::syntax::{SyntaxNode, flat, rnix_parse};
use crate::text;
use crate::findings::{
    Findings, ResultView, apply, both, error, lemma_apply_both, lemma_apply_nothing, nothing,
    warning, provided,
};
use crate::topology::{NixTopology, TopologyConnection, TopologyNetwork, TopologyNode};
use crate::value::{
    NixAttrset, NixValue, ValueModel, bindings_model, lemma_bindings_model, lemma_values_model_len,
    values_model,
};

verus! {


broadcast use vstd::string::group_string_axioms;

/// The outcome of a validation.
#[derive(Debug, Clone, PartialEq)]
pub struct ValidationResult {
    /// Whether no error was recorded.
    pub valid: bool,
    /// The errors, in the order they were found.
    pub errors: Vec<String>,
    /// The warnings, in the order they were found.
    pub warnings: Vec<String>,
}

impl View for ValidationResult {
    type V = ResultView;

    open spec fn view(&self) -> ResultView {
        ResultView {
            valid: self.valid,
            errors: self.errors@.map_values(|s: String| s@),
            warnings: self.warnings@.map_values(|s: String| s@),
        }
    }
}

/// A result passes when it is marked valid and holds no error.
pub open spec fn passes(r: ResultView) -> bool {
    r.valid && r.errors.len() == 0
}

/// Merging two results: valid when both are, errors and warnings of the
/// first followed by those of the second.
pub open spec fn merged(a: ResultView, b: ResultView) -> ResultView {
    ResultView { valid: a.valid && b.valid, errors: a.errors + b.errors, warnings: a.warnings + b.warnings }
}

impl ValidationResult {
    /// A valid result with no finding.
    pub fn new() -> (r: Self)
        ensures
            r@ == (ResultView { valid: true, errors: Seq::empty(), warnings: Seq::empty() }),
    {
        let r = ValidationResult { valid: true, errors: Vec::new(), warnings: Vec::new() };
        assert(r@.errors =~= Seq::<Seq<char>>::empty());
        assert(r@.warnings =~= Seq::<Seq<char>>::empty());
        r
    }

    /// Whether the validation passed: valid, with no error.
    pub fn is_valid(&self) -> (b: bool)
        ensures
            b == passes(self@),
    {
        self.valid && self.errors.len() == 0
    }

    /// Records an error; the result is no longer valid.
    pub fn add_error(&mut self, error: String)
        ensures
            final(self)@ == apply(old(self)@, crate::findings::error(error@)),
    {
        let ghost before = self@;
        self.valid = false;
        self.errors.push(error);
        assert(self@.errors =~= before.errors + seq![error@]);
        assert(self@.warnings =~= before.warnings + Seq::<Seq<char>>::empty());
    }

    /// Records a warning.
    pub fn add_warning(&mut self, warning: String)
        ensures
            final(self)@ == apply(old(self)@, crate::findings::warning(warning@)),
    {
        let ghost before = self@;
        self.warnings.push(warning);
        assert(self@.warnings =~= before.warnings + seq![warning@]);
        assert(self@.errors =~= before.errors + Seq::<Seq<char>>::empty());
    }

    /// Merges another result into this one.
    pub fn merge(&mut self, other: ValidationResult)
        ensures
            final(self)@ == merged(old(self)@, other@),
    {
        let ghost before = self@;
        self.valid = self.valid && other.valid;
        let mut errors = other.errors;
        let mut warnings = other.warnings;
        let ghost oe = errors@;
        let ghost ow = warnings@;
        self.errors.append(&mut errors);
        self.warnings.append(&mut warnings);
        assert(self@.errors =~= before.errors + oe.map_values(|s: String| s@));
        assert(self@.warnings =~= before.warnings + ow.map_values(|s: String| s@));
    }
}

impl Default for ValidationResult {
    fn default() -> (r: Self)
        ensures
            r@ == (ResultView { valid: true, errors: Seq::empty(), warnings: Seq::empty() }),
    {
        ValidationResult::new()
    }
}

/// A result fails once an error is recorded, whatever else it holds.
pub proof fn lemma_error_fails(r: ResultView, m: Seq<char>)
    ensures
        !passes(apply(r, error(m))),
{
}

/// A merged result passes exactly when both results pass.
pub proof fn lemma_merge_passes(a: ResultView, b: ResultView)
    ensures
        passes(merged(a, b)) == (passes(a) && passes(b)),
{
}

/// Merging is associative.
pub proof fn lemma_merge_associative(a: ResultView, b: ResultView, c: ResultView)
    ensures
        merged(merged(a, b), c) == merged(a, merged(b, c)),
{
    assert(merged(merged(a, b), c).errors =~= merged(a, merged(b, c)).errors);
    assert(merged(merged(a, b), c).warnings =~= merged(a, merged(b, c)).warnings);
}

/// Merging a fresh result changes nothing.
pub proof fn lemma_merge_fresh(a: ResultView)
    ensures
        merged(a, ResultView { valid: true, errors: Seq::empty(), warnings: Seq::empty() }) == a,
{
    assert(merged(a, ResultView { valid: true, errors: Seq::empty(), warnings: Seq::empty() }).errors
        =~= a.errors);
    assert(merged(a, ResultView { valid: true, errors: Seq::empty(), warnings: Seq::empty() }).warnings
        =~= a.warnings);
}

// ---------------------------------------------------------------------------
// What the checks find
// ---------------------------------------------------------------------------

/// Whether a name is bound.
pub open spec fn binds(a: Seq<(Seq<char>, ValueModel)>, k: Seq<char>) -> bool {
    lookup(a, k) is Some
}

/// The findings on the hardware of a node.
pub open spec fn hardware_checks(node: Seq<char>, v: ValueModel) -> Findings {
    match v {
        ValueModel::Attrs(a) => both(
            both(
                provided(
                    lookup(a, "cpu_cores"@) matches Some(x) && !(x is Int),
                    error("Node '"@ + node + "' cpu_cores must be an integer"@),
                ),
                provided(
                    lookup(a, "memory_mb"@) matches Some(x) && !(x is Int),
                    error("Node '"@ + node + "' memory_mb must be an integer"@),
                ),
            ),
            provided(
                lookup(a, "storage_gb"@) matches Some(x) && !(x is Int),
                error("Node '"@ + node + "' storage_gb must be an integer"@),
            ),
        ),
        _ => error("Node '"@ + node + "' hardware must be an attribute set"@),
    }
}

/// The findings on the interface at position `i` of a node.
pub open spec fn interface_checks(node: Seq<char>, i: nat, v: ValueModel) -> Findings {
    match v {
        ValueModel::Attrs(a) => provided(
            !binds(a, "name"@),
            error("Node '"@ + node + "' interface "@ + text::decimal_digits(i) + " missing name"@),
        ),
        _ => error(
            "Node '"@ + node + "' interface "@ + text::decimal_digits(i)
                + " must be an attribute set"@,
        ),
    }
}

/// The findings on a list of interfaces.
pub open spec fn interface_list_checks(node: Seq<char>, s: Seq<ValueModel>) -> Findings
    decreases s.len(),
{
    if s.len() == 0 {
        nothing()
    } else {
        both(
            interface_list_checks(node, s.drop_last()),
            interface_checks(node, (s.len() - 1) as nat, s.last()),
        )
    }
}

/// The findings on the interfaces of a node.
pub open spec fn interfaces_checks(node: Seq<char>, v: ValueModel) -> Findings {
    match v {
        ValueModel::List(l) => interface_list_checks(node, l),
        _ => error("Node '"@ + node + "' interfaces must be a list"@),
    }
}

/// A known kind of node.
pub open spec fn known_node_type(t: Seq<char>) -> bool {
    t == "physical"@ || t == "vm"@ || t == "container"@ || t == "network-device"@
}

/// The findings on one node.
pub open spec fn node_checks(name: Seq<char>, v: ValueModel) -> Findings {
    match v {
        ValueModel::Attrs(a) => both(
            both(
                both(
                    both(
                        provided(!binds(a, "type"@), warning("Node '"@ + name + "' missing type field"@)),
                        provided(
                            !binds(a, "system"@),
                            warning("Node '"@ + name + "' missing system field"@),
                        ),
                    ),
                    match lookup(a, "type"@) {
                        Some(ValueModel::Str(t)) => provided(
                            !known_node_type(t),
                            warning("Node '"@ + name + "' has unknown type '"@ + t + "'"@),
                        ),
                        _ => nothing(),
                    },
                ),
                match lookup(a, "hardware"@) {
                    Some(h) => hardware_checks(name, h),
                    None => nothing(),
                },
            ),
            match lookup(a, "interfaces"@) {
                Some(l) => interfaces_checks(name, l),
                None => nothing(),
            },
        ),
        _ => error("Node '"@ + name + "' must be an attribute set"@),
    }
}

/// The findings on the nodes of a `nodes` set, in order.
pub open spec fn node_entries_checks(e: Seq<(Seq<char>, ValueModel)>) -> Findings
    decreases e.len(),
{
    if e.len() == 0 {
        nothing()
    } else {
        both(node_entries_checks(e.drop_last()), node_checks(e.last().0, e.last().1))
    }
}

/// The findings on a `nodes` section.
pub open spec fn nodes_checks(v: ValueModel) -> Findings {
    match v {
        ValueModel::Attrs(a) => node_entries_checks(a),
        _ => error("nodes must be an attribute set"@),
    }
}

/// A known kind of network.
pub open spec fn known_network_type(t: Seq<char>) -> bool {
    t == "lan"@ || t == "wan"@ || t == "vlan"@ || t == "vpn"@ || t == "management"@
}

/// The findings on one network.
pub open spec fn network_checks(name: Seq<char>, v: ValueModel) -> Findings {
    match v {
        ValueModel::Attrs(a) => both(
            both(
                match lookup(a, "type"@) {
                    Some(ValueModel::Str(t)) => provided(
                        !known_network_type(t),
                        warning("Network '"@ + name + "' has unknown type '"@ + t + "'"@),
                    ),
                    _ => nothing(),
                },
                match lookup(a, "cidr_v4"@) {
                    Some(ValueModel::Str(c)) => provided(
                        !c.contains('/'),
                        error(
                            "Network '"@ + name
                                + "' cidr_v4 must be in CIDR notation (x.x.x.x/y)"@,
                        ),
                    ),
                    _ => nothing(),
                },
            ),
            match lookup(a, "cidr_v6"@) {
                Some(ValueModel::Str(c)) => provided(
                    !c.contains('/'),
                    error("Network '"@ + name + "' cidr_v6 must be in CIDR notation"@),
                ),
                _ => nothing(),
            },
        ),
        _ => error("Network '"@ + name + "' must be an attribute set"@),
    }
}

/// The findings on the networks of a `networks` set, in order.
pub open spec fn network_entries_checks(e: Seq<(Seq<char>, ValueModel)>) -> Findings
    decreases e.len(),
{
    if e.len() == 0 {
        nothing()
    } else {
        both(network_entries_checks(e.drop_last()), network_checks(e.last().0, e.last().1))
    }
}

/// The findings on a `networks` section.
pub open spec fn networks_checks(v: ValueModel) -> Findings {
    match v {
        ValueModel::Attrs(a) => network_entries_checks(a),
        _ => error("networks must be an attribute set"@),
    }
}

/// A known kind of link.
pub open spec fn known_connection_type(t: Seq<char>) -> bool {
    t == "ethernet"@ || t == "fiber"@ || t == "wireless"@ || t == "virtual"@
}

/// The finding when a link lacks a field.
pub open spec fn field_check(i: nat, a: Seq<(Seq<char>, ValueModel)>, f: Seq<char>) -> Findings {
    provided(
        !binds(a, f),
        error("Connection "@ + text::decimal_digits(i) + " missing required field '"@ + f + "'"@),
    )
}

/// The findings on the link at position `i`.
pub open spec fn connection_checks(i: nat, v: ValueModel) -> Findings {
    match v {
        ValueModel::Attrs(a) => both(
            both(
                both(
                    both(field_check(i, a, "from_node"@), field_check(i, a, "from_interface"@)),
                    field_check(i, a, "to_node"@),
                ),
                field_check(i, a, "to_interface"@),
            ),
            match lookup(a, "type"@) {
                Some(ValueModel::Str(t)) => provided(
                    !known_connection_type(t),
                    warning(
                        "Connection "@ + text::decimal_digits(i) + " has unknown type '"@ + t
                            + "'"@,
                    ),
                ),
                _ => nothing(),
            },
        ),
        _ => error("Connection "@ + text::decimal_digits(i) + " must be an attribute set"@),
    }
}

/// The findings on a list of links.
pub open spec fn connection_list_checks(s: Seq<ValueModel>) -> Findings
    decreases s.len(),
{
    if s.len() == 0 {
        nothing()
    } else {
        both(connection_list_checks(s.drop_last()), connection_checks((s.len() - 1) as nat, s.last()))
    }
}

/// The findings on a `connections` section.
pub open spec fn connections_checks(v: ValueModel) -> Findings {
    match v {
        ValueModel::List(l) => connection_list_checks(l),
        _ => error("connections must be a list"@),
    }
}

/// The findings on a whole document.
pub open spec fn document_checks(v: ValueModel) -> Findings {
    match v {
        ValueModel::Attrs(a) => both(
            both(
                match lookup(a, "nodes"@) {
                    Some(n) => nodes_checks(n),
                    None => nothing(),
                },
                match lookup(a, "networks"@) {
                    Some(n) => networks_checks(n),
                    None => nothing(),
                },
            ),
            match lookup(a, "connections"@) {
                Some(c) => connections_checks(c),
                None => nothing(),
            },
        ),
        _ => error("Root must be an attribute set"@),
    }
}

/// The findings on a parsed tree.
pub open spec fn tree_checks(t: SyntaxNode) -> Findings {
    match ast_value(t) {
        Ok(v) => document_checks(v),
        Err(msg) => error("AST conversion error: "@ + ("Invalid syntax: "@ + msg)),
    }
}

/// The fresh result with the findings of a check.
pub open spec fn fresh_with(f: Findings) -> ResultView {
    apply(ResultView { valid: true, errors: Seq::empty(), warnings: Seq::empty() }, f)
}

/// `r` is what validating a source text gives.
pub open spec fn content_outcome(content: Seq<char>, r: ResultView) -> bool {
    if parses(content) {
        exists|t: SyntaxNode| flat(t) == rnix_parse(content).0 && r == fresh_with(#[trigger] tree_checks(t))
    } else {
        exists|e: AstError|
            parsed_as(content, Err(e)) && r == fresh_with(
                error("Parse error: "@ + #[trigger] parse_error_message(ParseError::AstError(e))),
            )
    }
}


/// The findings on node names that are also network names, in node order.
pub open spec fn conflict_checks(
    nodes: Seq<(Seq<char>, TopologyNode)>,
    networks: Seq<(Seq<char>, TopologyNetwork)>,
) -> Findings
    decreases nodes.len(),
{
    if nodes.len() == 0 {
        nothing()
    } else {
        both(
            conflict_checks(nodes.drop_last(), networks),
            provided(
                lookup(networks, nodes.last().0) is Some,
                error(
                    "Name conflict: '"@ + nodes.last().0 + "' used for both node and network"@,
                ),
            ),
        )
    }
}

/// The finding when a link names a node that does not exist.
pub open spec fn reference_check(nodes: Seq<(Seq<char>, TopologyNode)>, n: Seq<char>) -> Findings {
    provided(
        lookup(nodes, n) is None,
        error("Connection references non-existent node '"@ + n + "'"@),
    )
}

/// The findings on the ends of the links, in link order.
pub open spec fn reference_checks(
    nodes: Seq<(Seq<char>, TopologyNode)>,
    conns: Seq<TopologyConnection>,
) -> Findings
    decreases conns.len(),
{
    if conns.len() == 0 {
        nothing()
    } else {
        both(
            reference_checks(nodes, conns.drop_last()),
            both(
                reference_check(nodes, conns.last().from_node@),
                reference_check(nodes, conns.last().to_node@),
            ),
        )
    }
}

/// The findings on a topology.
pub open spec fn topology_checks(t: NixTopology) -> Findings {
    both(
        conflict_checks(t.nodes.model(), t.networks.model()),
        reference_checks(t.nodes.model(), t.connections@),
    )
}

/// No node name is also a network name, and every link joins existing nodes.
pub open spec fn consistent(t: NixTopology) -> bool {
    &&& forall|i: int|
        0 <= i < t.nodes.model().len() ==> lookup(t.networks.model(), #[trigger] t.nodes.model()[i].0)
            is None
    &&& forall|i: int|
        0 <= i < t.connections@.len() ==> lookup(t.nodes.model(), #[trigger] t.connections@[i].from_node@)
            is Some && lookup(t.nodes.model(), t.connections@[i].to_node@) is Some
}

proof fn lemma_conflicts_none(
    nodes: Seq<(Seq<char>, TopologyNode)>,
    networks: Seq<(Seq<char>, TopologyNetwork)>,
)
    ensures
        (conflict_checks(nodes, networks).0.len() == 0) == (forall|i: int|
            0 <= i < nodes.len() ==> lookup(networks, #[trigger] nodes[i].0) is None),
    decreases nodes.len(),
{
    if nodes.len() > 0 {
        lemma_conflicts_none(nodes.drop_last(), networks);
        if conflict_checks(nodes, networks).0.len() == 0 {
            assert forall|i: int| 0 <= i < nodes.len() implies lookup(networks, #[trigger] nodes[i].0)
                is None by {
                if i < nodes.len() - 1 {
                    assert(nodes.drop_last()[i] == nodes[i]);
                }
            }
        } else {
            if conflict_checks(nodes.drop_last(), networks).0.len() != 0 {
                let j = choose|j: int|
                    0 <= j < nodes.len() - 1 && lookup(networks, #[trigger] nodes.drop_last()[j].0)
                        is Some;
                assert(nodes.drop_last()[j] == nodes[j]);
            } else {
                assert(lookup(networks, nodes[nodes.len() - 1].0) is Some);
            }
        }
    }
}

proof fn lemma_references_none(nodes: Seq<(Seq<char>, TopologyNode)>, conns: Seq<TopologyConnection>)
    ensures
        (reference_checks(nodes, conns).0.len() == 0) == (forall|i: int|
            0 <= i < conns.len() ==> lookup(nodes, #[trigger] conns[i].from_node@) is Some && lookup(
                nodes,
                conns[i].to_node@,
            ) is Some),
    decreases conns.len(),
{
    if conns.len() > 0 {
        lemma_references_none(nodes, conns.drop_last());
        if reference_checks(nodes, conns).0.len() == 0 {
            assert forall|i: int| 0 <= i < conns.len() implies lookup(
                nodes,
                #[trigger] conns[i].from_node@,
            ) is Some && lookup(nodes, conns[i].to_node@) is Some by {
                if i < conns.len() - 1 {
                    assert(conns.drop_last()[i] == conns[i]);
                }
            }
        } else {
            if reference_checks(nodes, conns.drop_last()).0.len() != 0 {
                let j = choose|j: int|
                    0 <= j < conns.len() - 1 && !(lookup(
                        nodes,
                        #[trigger] conns.drop_last()[j].from_node@,
                    ) is Some && lookup(nodes, conns.drop_last()[j].to_node@) is Some);
                assert(conns.drop_last()[j] == conns[j]);
            } else {
                let k = conns.len() - 1;
                assert(!(lookup(nodes, conns[k].from_node@) is Some && lookup(nodes, conns[k].to_node@)
                    is Some));
            }
        }
    }
}

/// Validating a topology passes exactly when it is consistent: no node
/// shares its name with a network, and both ends of every link are nodes.
pub proof fn lemma_topology_checks_pass(t: NixTopology)
    ensures
        passes(fresh_with(topology_checks(t))) == consistent(t),
{
    lemma_conflicts_none(t.nodes.model(), t.networks.model());
    lemma_references_none(t.nodes.model(), t.connections@);
}

// ---------------------------------------------------------------------------
// The checks
// ---------------------------------------------------------------------------

/// `a`, `b`, `c` run together.
fn join3(a: &str, b: &str, c: &str) -> (r: String)
    ensures
        r@ == a@ + b@ + c@,
{
    let mut v: Vec<char> = Vec::new();
    text::append_str(&mut v, a);
    text::append_str(&mut v, b);
    text::append_str(&mut v, c);
    text::string_of(v.as_slice())
}

/// `a` through `e` run together.
fn join5(a: &str, b: &str, c: &str, d: &str, e: &str) -> (r: String)
    ensures
        r@ == a@ + b@ + c@ + d@ + e@,
{
    let mut v: Vec<char> = Vec::new();
    text::append_str(&mut v, a);
    text::append_str(&mut v, b);
    text::append_str(&mut v, c);
    text::append_str(&mut v, d);
    text::append_str(&mut v, e);
    text::string_of(v.as_slice())
}

/// The decimal text of a position.
fn index_text(i: usize) -> (r: String)
    ensures
        r@ == text::decimal_digits(i as nat),
{
    let d = text::decimal(i as u64);
    text::string_of(d.as_slice())
}

/// Whether a string is one of the given words.
fn is_one_of(s: &String, words: &[&str]) -> (b: bool)
    ensures
        b == exists|i: int| 0 <= i < words@.len() && s@ == #[trigger] words@[i]@,
{
    let v = text::chars_of(s.as_str());
    let mut i: usize = 0;
    while i < words.len()
        invariant
            i <= words@.len(),
            v@ == s@,
            forall|j: int| 0 <= j < i ==> s@ != #[trigger] words@[j]@,
        decreases words@.len() - i,
    {
        if text::eq_str(v.as_slice(), words[i]) {
            return true;
        }
        i = i + 1;
    }
    false
}

/// Validator of nix-topology documents and topologies.
pub struct NixValidator {
    parser: NixParser,
}

impl NixValidator {
    /// A validator.
    pub fn new() -> (r: Self) {
        NixValidator { parser: NixParser::new() }
    }

    fn validate_hardware(&self, node_name: &str, value: &NixValue, result: &mut ValidationResult)
        ensures
            final(result)@ == apply(old(result)@, hardware_checks(node_name@, value.model())),
    {
        let attrs = match value {
            NixValue::Attrset(attrs) => attrs,
            _ => {
                result.add_error(join3("Node '", node_name, "' hardware must be an attribute set"));
                return;
            },
        };
        let ghost a = attrs.model();
        let ghost r0 = result@;
        let ghost f1 = provided(
            lookup(a, "cpu_cores"@) matches Some(x) && !(x is Int),
            error("Node '"@ + node_name@ + "' cpu_cores must be an integer"@),
        );
        let ghost f2 = provided(
            lookup(a, "memory_mb"@) matches Some(x) && !(x is Int),
            error("Node '"@ + node_name@ + "' memory_mb must be an integer"@),
        );
        let ghost f3 = provided(
            lookup(a, "storage_gb"@) matches Some(x) && !(x is Int),
            error("Node '"@ + node_name@ + "' storage_gb must be an integer"@),
        );
        proof {
            lemma_apply_nothing(r0);
        }
        match attrs.get("cpu_cores") {
            Some(NixValue::Integer(_)) => {},
            Some(_) => {
                result.add_error(join3("Node '", node_name, "' cpu_cores must be an integer"));
            },
            None => {},
        }
        let ghost r1 = result@;
        assert(r1 == apply(r0, f1));
        proof {
            lemma_apply_nothing(r1);
        }
        match attrs.get("memory_mb") {
            Some(NixValue::Integer(_)) => {},
            Some(_) => {
                result.add_error(join3("Node '", node_name, "' memory_mb must be an integer"));
            },
            None => {},
        }
        let ghost r2 = result@;
        assert(r2 == apply(r1, f2));
        proof {
            lemma_apply_nothing(r2);
            lemma_apply_both(r0, f1, f2);
        }
        match attrs.get("storage_gb") {
            Some(NixValue::Integer(_)) => {},
            Some(_) => {
                result.add_error(join3("Node '", node_name, "' storage_gb must be an integer"));
            },
            None => {},
        }
        assert(result@ == apply(r2, f3));
        proof {
            lemma_apply_both(r0, both(f1, f2), f3);
        }
    }

    fn validate_interfaces(&self, node_name: &str, value: &NixValue, result: &mut ValidationResult)
        ensures
            final(result)@ == apply(old(result)@, interfaces_checks(node_name@, value.model())),
    {
        let interfaces = match value {
            NixValue::List(l) => l,
            _ => {
                result.add_error(join3("Node '", node_name, "' interfaces must be a list"));
                return;
            },
        };
        let ghost vs = values_model(interfaces.elements@);
        let ghost r0 = result@;
        proof {
            lemma_values_model_len(interfaces.elements@);
            lemma_apply_nothing(r0);
        }
        assert(vs.take(0) =~= Seq::<ValueModel>::empty());
        let mut i: usize = 0;
        while i < interfaces.elements.len()
            invariant
                i <= interfaces.elements@.len(),
                vs == values_model(interfaces.elements@),
                vs.len() == interfaces.elements@.len(),
                forall|j: int| 0 <= j < vs.len() ==> vs[j] == interfaces.elements@[j].model(),
                result@ == apply(r0, interface_list_checks(node_name@, vs.take(i as int))),
            decreases interfaces.elements@.len() - i,
        {
            proof {
                assert(vs.take(i + 1).drop_last() =~= vs.take(i as int));
                assert(vs.take(i + 1).last() == interfaces.elements@[i as int].model());
            }
            let ghost ri = result@;
            proof {
                lemma_apply_nothing(ri);
                lemma_apply_both(
                    r0,
                    interface_list_checks(node_name@, vs.take(i as int)),
                    interface_checks(node_name@, i as nat, vs[i as int]),
                );
            }
            match &interfaces.elements[i] {
                NixValue::Attrset(attrs) => {
                    if !attrs.contains_key("name") {
                        let n = index_text(i);
                        result.add_error(join5("Node '", node_name, "' interface ", n.as_str(), " missing name"));
                    }
                },
                _ => {
                    let n = index_text(i);
                    result.add_error(
                        join5("Node '", node_name, "' interface ", n.as_str(), " must be an attribute set"),
                    );
                },
            }
            i = i + 1;
        }
        assert(vs.take(vs.len() as int) =~= vs);
    }

    fn validate_node(&self, name: &str, value: &NixValue, result: &mut ValidationResult)
        ensures
            final(result)@ == apply(old(result)@, node_checks(name@, value.model())),
    {
        let attrs = match value {
            NixValue::Attrset(attrs) => attrs,
            _ => {
                result.add_error(join3("Node '", name, "' must be an attribute set"));
                return;
            },
        };
        let ghost a = attrs.model();
        let ghost r0 = result@;
        let ghost f1 = provided(!binds(a, "type"@), warning("Node '"@ + name@ + "' missing type field"@));
        let ghost f2 = provided(
            !binds(a, "system"@),
            warning("Node '"@ + name@ + "' missing system field"@),
        );
        let ghost f3 = match lookup(a, "type"@) {
            Some(ValueModel::Str(t)) => provided(
                !known_node_type(t),
                warning("Node '"@ + name@ + "' has unknown type '"@ + t + "'"@),
            ),
            _ => nothing(),
        };
        let ghost f4 = match lookup(a, "hardware"@) {
            Some(h) => hardware_checks(name@, h),
            None => nothing(),
        };
        let ghost f5 = match lookup(a, "interfaces"@) {
            Some(l) => interfaces_checks(name@, l),
            None => nothing(),
        };
        proof {
            lemma_apply_nothing(r0);
        }
        if !attrs.contains_key("type") {
            result.add_warning(join3("Node '", name, "' missing type field"));
        }
        let ghost r1 = result@;
        assert(r1 == apply(r0, f1));
        proof {
            lemma_apply_nothing(r1);
        }
        if !attrs.contains_key("system") {
            result.add_warning(join3("Node '", name, "' missing system field"));
        }
        let ghost r2 = result@;
        assert(r2 == apply(r1, f2));
        proof {
            lemma_apply_nothing(r2);
            lemma_apply_both(r0, f1, f2);
        }
        match attrs.get("type") {
            Some(NixValue::String(s)) => {
                if !is_one_of(&s.value, &["physical", "vm", "container", "network-device"]) {
                    result.add_warning(join5("Node '", name, "' has unknown type '", s.value.as_str(), "'"));
                }
            },
            _ => {},
        }
        let ghost r3 = result@;
        assert(r3 == apply(r2, f3));
        proof {
            lemma_apply_nothing(r3);
            lemma_apply_both(r0, both(f1, f2), f3);
        }
        match attrs.get("hardware") {
            Some(h) => self.validate_hardware(name, h, result),
            None => {},
        }
        let ghost r4 = result@;
        assert(r4 == apply(r3, f4));
        proof {
            lemma_apply_nothing(r4);
            lemma_apply_both(r0, both(both(f1, f2), f3), f4);
        }
        match attrs.get("interfaces") {
            Some(l) => self.validate_interfaces(name, l, result),
            None => {},
        }
        assert(result@ == apply(r4, f5));
        proof {
            lemma_apply_both(r0, both(both(both(f1, f2), f3), f4), f5);
        }
    }

    fn validate_nodes(&self, value: &NixValue, result: &mut ValidationResult)
        ensures
            final(result)@ == apply(old(result)@, nodes_checks(value.model())),
    {
        let nodes = match value {
            NixValue::Attrset(n) => n,
            _ => {
                result.add_error(text::string_from("nodes must be an attribute set"));
                return;
            },
        };
        let ghost e = bindings_model(nodes.attributes@);
        let ghost r0 = result@;
        proof {
            lemma_bindings_model(nodes.attributes@);
            lemma_apply_nothing(r0);
        }
        assert(e.take(0) =~= Seq::<(Seq<char>, ValueModel)>::empty());
        let mut i: usize = 0;
        while i < nodes.attributes.len()
            invariant
                i <= nodes.attributes@.len(),
                e == bindings_model(nodes.attributes@),
                e.len() == nodes.attributes@.len(),
                forall|j: int|
                    0 <= j < e.len() ==> #[trigger] e[j] == (
                        nodes.attributes@[j].name@,
                        nodes.attributes@[j].value.model(),
                    ),
                result@ == apply(r0, node_entries_checks(e.take(i as int))),
            decreases nodes.attributes@.len() - i,
        {
            proof {
                assert(e.take(i + 1).drop_last() =~= e.take(i as int));
                assert(e.take(i + 1).last() == e[i as int]);
            }
            proof {
                lemma_apply_both(r0, node_entries_checks(e.take(i as int)), node_checks(e[i as int].0, e[i as int].1));
            }
            let b = &nodes.attributes[i];
            self.validate_node(b.name.as_str(), &b.value, result);
            i = i + 1;
        }
        assert(e.take(e.len() as int) =~= e);
    }

    fn validate_network(&self, name: &str, value: &NixValue, result: &mut ValidationResult)
        ensures
            final(result)@ == apply(old(result)@, network_checks(name@, value.model())),
    {
        let attrs = match value {
            NixValue::Attrset(attrs) => attrs,
            _ => {
                result.add_error(join3("Network '", name, "' must be an attribute set"));
                return;
            },
        };
        let ghost a = attrs.model();
        let ghost r0 = result@;
        let ghost f1 = match lookup(a, "type"@) {
            Some(ValueModel::Str(t)) => provided(
                !known_network_type(t),
                warning("Network '"@ + name@ + "' has unknown type '"@ + t + "'"@),
            ),
            _ => nothing(),
        };
        let ghost f2 = match lookup(a, "cidr_v4"@) {
            Some(ValueModel::Str(c)) => provided(
                !c.contains('/'),
                error("Network '"@ + name@ + "' cidr_v4 must be in CIDR notation (x.x.x.x/y)"@),
            ),
            _ => nothing(),
        };
        let ghost f3 = match lookup(a, "cidr_v6"@) {
            Some(ValueModel::Str(c)) => provided(
                !c.contains('/'),
                error("Network '"@ + name@ + "' cidr_v6 must be in CIDR notation"@),
            ),
            _ => nothing(),
        };
        proof {
            lemma_apply_nothing(r0);
        }
        match attrs.get("type") {
            Some(NixValue::String(s)) => {
                if !is_one_of(&s.value, &["lan", "wan", "vlan", "vpn", "management"]) {
                    result.add_warning(join5("Network '", name, "' has unknown type '", s.value.as_str(), "'"));
                }
            },
            _ => {},
        }
        let ghost r1 = result@;
        assert(r1 == apply(r0, f1));
        proof {
            lemma_apply_nothing(r1);
        }
        match attrs.get("cidr_v4") {
            Some(NixValue::String(c)) => {
                let cv = text::chars_of(c.value.as_str());
                let found = text::index_of(cv.as_slice(), '/');
                proof {
                    text::lemma_index_of(cv@, '/');
                    if found is None {
                        assert(!cv@.contains('/'));
                    } else {
                        assert(cv@[found->0 as int] == '/');
                    }
                }
                if found.is_none() {
                    result.add_error(
                        join3("Network '", name, "' cidr_v4 must be in CIDR notation (x.x.x.x/y)"),
                    );
                }
            },
            _ => {},
        }
        let ghost r2 = result@;
        assert(r2 == apply(r1, f2));
        proof {
            lemma_apply_nothing(r2);
            lemma_apply_both(r0, f1, f2);
        }
        match attrs.get("cidr_v6") {
            Some(NixValue::String(c)) => {
                let cv = text::chars_of(c.value.as_str());
                let found = text::index_of(cv.as_slice(), '/');
                proof {
                    text::lemma_index_of(cv@, '/');
                    if found is None {
                        assert(!cv@.contains('/'));
                    } else {
                        assert(cv@[found->0 as int] == '/');
                    }
                }
                if found.is_none() {
                    result.add_error(join3("Network '", name, "' cidr_v6 must be in CIDR notation"));
                }
            },
            _ => {},
        }
        assert(result@ == apply(r2, f3));
        proof {
            lemma_apply_both(r0, both(f1, f2), f3);
        }
    }

    fn validate_networks(&self, value: &NixValue, result: &mut ValidationResult)
        ensures
            final(result)@ == apply(old(result)@, networks_checks(value.model())),
    {
        let networks = match value {
            NixValue::Attrset(n) => n,
            _ => {
                result.add_error(text::string_from("networks must be an attribute set"));
                return;
            },
        };
        let ghost e = bindings_model(networks.attributes@);
        let ghost r0 = result@;
        proof {
            lemma_bindings_model(networks.attributes@);
            lemma_apply_nothing(r0);
        }
        assert(e.take(0) =~= Seq::<(Seq<char>, ValueModel)>::empty());
        let mut i: usize = 0;
        while i < networks.attributes.len()
            invariant
                i <= networks.attributes@.len(),
                e == bindings_model(networks.attributes@),
                e.len() == networks.attributes@.len(),
                forall|j: int|
                    0 <= j < e.len() ==> #[trigger] e[j] == (
                        networks.attributes@[j].name@,
                        networks.attributes@[j].value.model(),
                    ),
                result@ == apply(r0, network_entries_checks(e.take(i as int))),
            decreases networks.attributes@.len() - i,
        {
            proof {
                assert(e.take(i + 1).drop_last() =~= e.take(i as int));
                assert(e.take(i + 1).last() == e[i as int]);
            }
            proof {
                lemma_apply_both(
                    r0,
                    network_entries_checks(e.take(i as int)),
                    network_checks(e[i as int].0, e[i as int].1),
                );
            }
            let b = &networks.attributes[i];
            self.validate_network(b.name.as_str(), &b.value, result);
            i = i + 1;
        }
        assert(e.take(e.len() as int) =~= e);
    }

    fn check_field(index: usize, attrs: &NixAttrset, field: &str, result: &mut ValidationResult)
        ensures
            final(result)@ == apply(old(result)@, field_check(index as nat, attrs.model(), field@)),
    {
        proof {
            lemma_apply_nothing(old(result)@);
        }
        if !attrs.contains_key(field) {
            let n = index_text(index);
            result.add_error(join5("Connection ", n.as_str(), " missing required field '", field, "'"));
        }
    }

    fn validate_connection(&self, index: usize, value: &NixValue, result: &mut ValidationResult)
        ensures
            final(result)@ == apply(old(result)@, connection_checks(index as nat, value.model())),
    {
        let attrs = match value {
            NixValue::Attrset(attrs) => attrs,
            _ => {
                let n = index_text(index);
                result.add_error(join3("Connection ", n.as_str(), " must be an attribute set"));
                return;
            },
        };
        let ghost a = attrs.model();
        let ghost i = index as nat;
        let ghost r0 = result@;
        Self::check_field(index, attrs, "from_node", result);
        Self::check_field(index, attrs, "from_interface", result);
        proof {
            lemma_apply_both(r0, field_check(i, a, "from_node"@), field_check(i, a, "from_interface"@));
        }
        let ghost f12 = both(field_check(i, a, "from_node"@), field_check(i, a, "from_interface"@));
        Self::check_field(index, attrs, "to_node", result);
        proof {
            lemma_apply_both(r0, f12, field_check(i, a, "to_node"@));
        }
        let ghost f123 = both(f12, field_check(i, a, "to_node"@));
        Self::check_field(index, attrs, "to_interface", result);
        proof {
            lemma_apply_both(r0, f123, field_check(i, a, "to_interface"@));
        }
        let ghost f4 = both(f123, field_check(i, a, "to_interface"@));
        let ghost r4 = result@;
        let ghost f5 = match lookup(a, "type"@) {
            Some(ValueModel::Str(t)) => provided(
                !known_connection_type(t),
                warning("Connection "@ + text::decimal_digits(i) + " has unknown type '"@ + t + "'"@),
            ),
            _ => nothing(),
        };
        proof {
            lemma_apply_nothing(r4);
        }
        match attrs.get("type") {
            Some(NixValue::String(s)) => {
                if !is_one_of(&s.value, &["ethernet", "fiber", "wireless", "virtual"]) {
                    let n = index_text(index);
                    result.add_warning(join5("Connection ", n.as_str(), " has unknown type '", s.value.as_str(), "'"));
                }
            },
            _ => {},
        }
        assert(result@ == apply(r4, f5));
        proof {
            lemma_apply_both(r0, f4, f5);
        }
    }

    fn validate_connections(&self, value: &NixValue, result: &mut ValidationResult)
        ensures
            final(result)@ == apply(old(result)@, connections_checks(value.model())),
    {
        let connections = match value {
            NixValue::List(l) => l,
            _ => {
                result.add_error(text::string_from("connections must be a list"));
                return;
            },
        };
        let ghost vs = values_model(connections.elements@);
        let ghost r0 = result@;
        proof {
            lemma_values_model_len(connections.elements@);
            lemma_apply_nothing(r0);
        }
        assert(vs.take(0) =~= Seq::<ValueModel>::empty());
        let mut i: usize = 0;
        while i < connections.elements.len()
            invariant
                i <= connections.elements@.len(),
                vs == values_model(connections.elements@),
                vs.len() == connections.elements@.len(),
                forall|j: int| 0 <= j < vs.len() ==> vs[j] == connections.elements@[j].model(),
                result@ == apply(r0, connection_list_checks(vs.take(i as int))),
            decreases connections.elements@.len() - i,
        {
            proof {
                assert(vs.take(i + 1).drop_last() =~= vs.take(i as int));
                assert(vs.take(i + 1).last() == connections.elements@[i as int].model());
            }
            proof {
                lemma_apply_both(
                    r0,
                    connection_list_checks(vs.take(i as int)),
                    connection_checks(i as nat, vs[i as int]),
                );
            }
            self.validate_connection(i, &connections.elements[i], result);
            i = i + 1;
        }
        assert(vs.take(vs.len() as int) =~= vs);
    }

    fn validate_topology_ast(&self, ast: &NixValue, result: &mut ValidationResult)
        ensures
            final(result)@ == apply(old(result)@, document_checks(ast.model())),
    {
        let attrs = match ast {
            NixValue::Attrset(attrs) => attrs,
            _ => {
                result.add_error(text::string_from("Root must be an attribute set"));
                return;
            },
        };
        let ghost a = attrs.model();
        let ghost r0 = result@;
        let ghost f1 = match lookup(a, "nodes"@) {
            Some(n) => nodes_checks(n),
            None => nothing(),
        };
        let ghost f2 = match lookup(a, "networks"@) {
            Some(n) => networks_checks(n),
            None => nothing(),
        };
        let ghost f3 = match lookup(a, "connections"@) {
            Some(c) => connections_checks(c),
            None => nothing(),
        };
        proof {
            lemma_apply_nothing(r0);
        }
        match attrs.get("nodes") {
            Some(n) => self.validate_nodes(n, result),
            None => {},
        }
        let ghost r1 = result@;
        assert(r1 == apply(r0, f1));
        proof {
            lemma_apply_nothing(r1);
        }
        match attrs.get("networks") {
            Some(n) => self.validate_networks(n, result),
            None => {},
        }
        let ghost r2 = result@;
        assert(r2 == apply(r1, f2));
        proof {
            lemma_apply_nothing(r2);
            lemma_apply_both(r0, f1, f2);
        }
        match attrs.get("connections") {
            Some(c) => self.validate_connections(c, result),
            None => {},
        }
        assert(result@ == apply(r2, f3));
        proof {
            lemma_apply_both(r0, both(f1, f2), f3);
        }
    }

    /// Validates a document value.
    pub fn validate_topology_value(&self, value: &NixValue) -> (r: ValidationResult)
        ensures
            r@ == fresh_with(document_checks(value.model())),
    {
        let mut result = ValidationResult::new();
        self.validate_topology_ast(value, &mut result);
        result
    }

    /// Validates a document's source text. A text that does not parse, or
    /// whose tree does not convert, gives a result with that one error.
    pub fn validate_topology_content(&self, content: &str) -> (r: Result<ValidationResult, crate::reader::IoError>)
        ensures
            r matches Ok(v) && content_outcome(content@, v@),
    {
        let mut result = ValidationResult::new();
        let ast = match self.parser.parse_str(content) {
            Ok(a) => a,
            Err(e) => {
                let t = e.to_string();
                result.add_error(join3("Parse error: ", t.as_str(), ""));
                assert(("Parse error: "@ + t@ + ""@) =~= "Parse error: "@ + t@) by {
                    reveal_strlit("");
                }
                return Ok(result);
            },
        };
        let value = match ast_to_value(&ast) {
            Ok(v) => v,
            Err(e) => {
                let t = e.to_string();
                result.add_error(join3("AST conversion error: ", t.as_str(), ""));
                assert(("AST conversion error: "@ + t@ + ""@) =~= "AST conversion error: "@ + t@) by {
                    reveal_strlit("");
                }
                assert(result@ == fresh_with(tree_checks(ast.root)));
                return Ok(result);
            },
        };
        self.validate_topology_ast(&value, &mut result);
        assert(result@ == fresh_with(tree_checks(ast.root)));
        Ok(result)
    }

    /// Validates a topology: node names must not be network names, and
    /// both ends of each link must be nodes.
    pub fn validate_topology(&self, topology: &NixTopology) -> (r: ValidationResult)
        ensures
            r@ == fresh_with(topology_checks(*topology)),
    {
        let mut result = ValidationResult::new();
        let ghost r0 = result@;
        let ghost nodes = topology.nodes.model();
        let ghost networks = topology.networks.model();
        proof {
            lemma_apply_nothing(r0);
        }
        assert(nodes.take(0) =~= Seq::<(Seq<char>, TopologyNode)>::empty());
        let mut i: usize = 0;
        while i < topology.nodes.len()
            invariant
                i <= nodes.len(),
                nodes == topology.nodes.model(),
                networks == topology.networks.model(),
                result@ == apply(r0, conflict_checks(nodes.take(i as int), networks)),
            decreases nodes.len() - i,
        {
            proof {
                assert(nodes.take(i + 1).drop_last() =~= nodes.take(i as int));
                assert(nodes.take(i + 1).last() == nodes[i as int]);
            }
            let ghost ri = result@;
            let name = topology.nodes.name_at(i);
            let ghost fi = provided(
                lookup(networks, nodes[i as int].0) is Some,
                error("Name conflict: '"@ + nodes[i as int].0 + "' used for both node and network"@),
            );
            proof {
                lemma_apply_nothing(ri);
                lemma_apply_both(r0, conflict_checks(nodes.take(i as int), networks), fi);
            }
            if topology.networks.contains_key(name.as_str()) {
                result.add_error(join3("Name conflict: '", name.as_str(), "' used for both node and network"));
            }
            i = i + 1;
        }
        assert(nodes.take(nodes.len() as int) =~= nodes);
        let ghost r1 = result@;
        let ghost conns = topology.connections@;
        proof {
            lemma_apply_nothing(r1);
        }
        assert(conns.take(0) =~= Seq::<TopologyConnection>::empty());
        let mut j: usize = 0;
        while j < topology.connections.len()
            invariant
                j <= conns.len(),
                nodes == topology.nodes.model(),
                conns == topology.connections@,
                result@ == apply(r1, reference_checks(nodes, conns.take(j as int))),
            decreases conns.len() - j,
        {
            proof {
                assert(conns.take(j + 1).drop_last() =~= conns.take(j as int));
                assert(conns.take(j + 1).last() == conns[j as int]);
            }
            let c = &topology.connections[j];
            let ghost rj = result@;
            let ghost ff = reference_check(nodes, c.from_node@);
            let ghost ft = reference_check(nodes, c.to_node@);
            proof {
                lemma_apply_nothing(rj);
            }
            if !topology.nodes.contains_key(c.from_node.as_str()) {
                result.add_error(join3("Connection references non-existent node '", c.from_node.as_str(), "'"));
            }
            let ghost rf = result@;
            assert(rf == apply(rj, ff));
            proof {
                lemma_apply_nothing(rf);
            }
            if !topology.nodes.contains_key(c.to_node.as_str()) {
                result.add_error(join3("Connection references non-existent node '", c.to_node.as_str(), "'"));
            }
            proof {
                lemma_apply_both(rj, ff, ft);
                lemma_apply_both(r1, reference_checks(nodes, conns.take(j as int)), both(ff, ft));
            }
            j = j + 1;
        }
        assert(conns.take(conns.len() as int) =~= conns);
        proof {
            lemma_apply_both(r0, conflict_checks(nodes, networks), reference_checks(nodes, conns));
        }
        result
    }
}

impl Default for NixValidator {
    fn default() -> (r: Self) {
        NixValidator::new()
    }
}

} // verus!
