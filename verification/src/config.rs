//! Node topology of a deployment: which services run in which node, and
//! which transport connects two services.
//!
//! Services of one node talk in memory; nodes on one host use Unix sockets;
//! nodes on different hosts use TCP.
use vstd::prelude::*;
use crate::error::io_error_text;
use crate::names::{append_strings, first_dup, first_duplicate, join_path, lemma_first_dup, path_join};
use crate::text::push_str;

verus! {

#[verifier::external_type_specification]
#[verifier::external_body]
pub struct ExTomlError(toml::de::Error);

/// Calls `Display` of `toml::de::Error` (through `to_string`); the text is
/// the parser's and is not stated.
#[verifier::external_body]
pub(crate) fn toml_error_text(e: &toml::de::Error) -> String {
    e.to_string()
}

/// Errors of loading and checking a configuration.
#[derive(Debug)]
pub enum ConfigError {
    /// The file could not be read.
    IoError(std::io::Error),
    /// The file is not a valid configuration.
    ParseError(toml::de::Error),
    /// No bundle of that name.
    BundleNotFound(String),
    /// No service of that name.
    ServiceNotFound(String),
    /// The configuration breaks a rule.
    InvalidConfig(String),
}

/// True when `text` is the text of `e` (for read and parse errors, by its
/// prefix).
pub open spec fn config_error_describes(e: ConfigError, text: Seq<char>) -> bool {
    match e {
        ConfigError::IoError(_) => "Failed to read config file: "@.is_prefix_of(text),
        ConfigError::ParseError(_) => "Failed to parse config: "@.is_prefix_of(text),
        ConfigError::BundleNotFound(m) => text == "Bundle not found: "@ + m@,
        ConfigError::ServiceNotFound(m) => text == "Service not found: "@ + m@,
        ConfigError::InvalidConfig(m) => text == "Invalid configuration: "@ + m@,
    }
}

impl ConfigError {
    /// Text of the error.
    pub fn to_string(&self) -> (r: String)
        ensures
            config_error_describes(*self, r@),
    {
        let mut s = String::new();
        match self {
            ConfigError::IoError(e) => {
                push_str(&mut s, "Failed to read config file: ");
                let t = io_error_text(e);
                push_str(&mut s, t.as_str());
                proof {
                    reveal_strlit("Failed to read config file: ");
                    assert(s@.subrange(0, 28) =~= "Failed to read config file: "@);
                }
            },
            ConfigError::ParseError(e) => {
                push_str(&mut s, "Failed to parse config: ");
                let t = toml_error_text(e);
                push_str(&mut s, t.as_str());
                proof {
                    reveal_strlit("Failed to parse config: ");
                    assert(s@.subrange(0, 24) =~= "Failed to parse config: "@);
                }
            },
            ConfigError::BundleNotFound(m) => {
                push_str(&mut s, "Bundle not found: ");
                push_str(&mut s, m.as_str());
            },
            ConfigError::ServiceNotFound(m) => {
                push_str(&mut s, "Service not found: ");
                push_str(&mut s, m.as_str());
            },
            ConfigError::InvalidConfig(m) => {
                push_str(&mut s, "Invalid configuration: ");
                push_str(&mut s, m.as_str());
            },
        }
        s
    }
}

impl From<std::io::Error> for ConfigError {
    fn from(e: std::io::Error) -> (r: Self) {
        ConfigError::IoError(e)
    }
}

impl vstd::std_specs::convert::FromSpecImpl<std::io::Error> for ConfigError {
    open spec fn obeys_from_spec() -> bool {
        true
    }

    open spec fn from_spec(e: std::io::Error) -> Self {
        ConfigError::IoError(e)
    }
}

impl From<toml::de::Error> for ConfigError {
    fn from(e: toml::de::Error) -> (r: Self) {
        ConfigError::ParseError(e)
    }
}

impl vstd::std_specs::convert::FromSpecImpl<toml::de::Error> for ConfigError {
    open spec fn obeys_from_spec() -> bool {
        true
    }

    open spec fn from_spec(e: toml::de::Error) -> Self {
        ConfigError::ParseError(e)
    }
}

/// Transport settings.
#[derive(Debug, Clone)]
pub struct TransportConfig {
    /// Capacity of broadcast channels.
    pub channel_capacity: usize,
}

/// Default capacity of broadcast channels.
pub const DEFAULT_CHANNEL_CAPACITY: usize = 1024;

impl Default for TransportConfig {
    fn default() -> (r: Self)
        ensures
            r.channel_capacity == DEFAULT_CHANNEL_CAPACITY,
    {
        TransportConfig { channel_capacity: DEFAULT_CHANNEL_CAPACITY }
    }
}

/// Kind of socket endpoint.
#[derive(Debug, Clone, Copy, PartialEq, Eq, Structural)]
pub enum EndpointKind {
    Tcp,
    Unix,
}

/// A socket endpoint that exposes a node's messages.
#[derive(Debug, Clone)]
pub struct EndpointConfig {
    /// TCP or Unix.
    pub kind: EndpointKind,
    /// Address of a TCP endpoint.
    pub addr: Option<String>,
}

/// A process running one or more services.
#[derive(Debug, Clone)]
pub struct Node {
    /// Node name.
    pub name: String,
    /// Services in the node.
    pub services: Vec<String>,
    /// Host name (local when absent).
    pub host: Option<String>,
    /// TCP port.
    pub port: Option<u16>,
    /// Endpoint exposing the node.
    pub endpoint: Option<EndpointConfig>,
}

/// How two services talk.
#[derive(Debug, Clone, Copy, PartialEq, Eq, Structural)]
pub enum TransportType {
    /// In memory.
    Local,
    /// Unix domain sockets.
    Unix,
    /// TCP.
    Tcp,
}

/// A deployment's nodes and socket directory.
#[derive(Debug, Clone)]
pub struct Topology {
    /// The nodes.
    pub nodes: Vec<Node>,
    /// Directory of the Unix sockets.
    pub socket_dir: String,
}

/// The default socket directory.
pub fn default_socket_dir() -> (r: String)
    ensures
        r@ == "/tmp/mycelium"@,
{
    "/tmp/mycelium".to_owned()
}

/// The list holds a name equal to `s`.
pub open spec fn lists(names: Seq<String>, s: Seq<char>) -> bool {
    exists|k: int| 0 <= k < names.len() && names[k]@ == s
}

/// `i` is the first node that runs `service`.
pub open spec fn is_first_node(nodes: Seq<Node>, service: Seq<char>, i: int) -> bool {
    &&& 0 <= i < nodes.len()
    &&& lists(nodes[i].services@, service)
    &&& forall|j: int| 0 <= j < i ==> !lists(nodes[j].services@, service)
}

/// The first node that runs `service`, if any.
pub open spec fn node_of(nodes: Seq<Node>, service: Seq<char>) -> Option<int> {
    if exists|i: int| 0 <= i < nodes.len() && lists(nodes[i].services@, service) {
        Some(choose|i: int| is_first_node(nodes, service, i))
    } else {
        None
    }
}

proof fn lemma_first_node_exists(nodes: Seq<Node>, service: Seq<char>, k: int)
    requires
        0 <= k < nodes.len(),
        lists(nodes[k].services@, service),
    ensures
        exists|i: int| is_first_node(nodes, service, i),
    decreases k,
{
    if exists|j: int| 0 <= j < k && lists(nodes[j].services@, service) {
        let j = choose|j: int| 0 <= j < k && lists(nodes[j].services@, service);
        lemma_first_node_exists(nodes, service, j);
    } else {
        assert(is_first_node(nodes, service, k));
    }
}

/// The node found for a service is the first that runs it; when none is
/// found, no node runs it.
pub proof fn lemma_node_of(nodes: Seq<Node>, service: Seq<char>)
    ensures
        node_of(nodes, service) matches Some(i) ==> is_first_node(nodes, service, i),
        node_of(nodes, service) is None ==> forall|i: int|
            0 <= i < nodes.len() ==> !lists(nodes[i].services@, service),
{
    if exists|i: int| 0 <= i < nodes.len() && lists(nodes[i].services@, service) {
        let k = choose|i: int| 0 <= i < nodes.len() && lists(nodes[i].services@, service);
        lemma_first_node_exists(nodes, service, k);
    }
}

/// Two services run in nodes of the same name.
pub open spec fn spec_same_node(nodes: Seq<Node>, s1: Seq<char>, s2: Seq<char>) -> bool {
    match (node_of(nodes, s1), node_of(nodes, s2)) {
        (Some(i), Some(j)) => nodes[i].name@ == nodes[j].name@,
        _ => false,
    }
}

/// A host name that means this machine.
pub open spec fn is_local_host(h: Seq<char>) -> bool {
    h == "localhost"@ || h == "127.0.0.1"@
}

/// The transport between two nodes' hosts: Unix sockets when both are this
/// machine (an absent host is this machine) or name the same host, else TCP.
pub open spec fn hosts_transport(h1: Option<String>, h2: Option<String>) -> TransportType {
    match (h1, h2) {
        (None, None) => TransportType::Unix,
        (Some(h), None) => if is_local_host(h@) {
            TransportType::Unix
        } else {
            TransportType::Tcp
        },
        (None, Some(h)) => if is_local_host(h@) {
            TransportType::Unix
        } else {
            TransportType::Tcp
        },
        (Some(a), Some(b)) => if a@ == b@ || (is_local_host(a@) && is_local_host(b@)) {
            TransportType::Unix
        } else {
            TransportType::Tcp
        },
    }
}

/// The transport between two services: in memory within a node, else by the
/// nodes' hosts; in memory when either service is unknown.
pub open spec fn spec_transport_between(nodes: Seq<Node>, from: Seq<char>, to: Seq<char>) -> TransportType {
    if spec_same_node(nodes, from, to) {
        TransportType::Local
    } else {
        match (node_of(nodes, from), node_of(nodes, to)) {
            (Some(i), Some(j)) => hosts_transport(nodes[i].host, nodes[j].host),
            _ => TransportType::Local,
        }
    }
}

/// All services of the nodes, node by node.
pub open spec fn all_services(nodes: Seq<Node>) -> Seq<String>
    decreases nodes.len(),
{
    if nodes.len() == 0 {
        Seq::empty()
    } else {
        all_services(nodes.drop_last()) + nodes.last().services@
    }
}

/// The names of the nodes.
pub open spec fn node_names(nodes: Seq<Node>) -> Seq<String> {
    nodes.map_values(|n: Node| n.name)
}

/// A node on a remote host without a port.
pub open spec fn remote_without_port(n: Node) -> bool {
    n.host matches Some(h) && !is_local_host(h@) && n.port is None
}

/// The first node from `i` on that is remote without a port.
pub open spec fn first_portless_from(nodes: Seq<Node>, i: int) -> Option<int>
    decreases nodes.len() - i,
{
    if i < 0 || i >= nodes.len() {
        None
    } else if remote_without_port(nodes[i]) {
        Some(i)
    } else {
        first_portless_from(nodes, i + 1)
    }
}

/// The message of the first rule a topology breaks, if any: a repeated
/// node name, then a service in two places, then a remote node without a
/// port.
pub open spec fn topology_problem(nodes: Seq<Node>) -> Option<Seq<char>> {
    if first_dup(node_names(nodes)) is Some {
        Some("Duplicate node name: "@ + node_names(nodes)[first_dup(node_names(nodes))->0]@)
    } else if first_dup(all_services(nodes)) is Some {
        Some(
            "Service "@ + all_services(nodes)[first_dup(all_services(nodes))->0]@
                + " appears in multiple nodes"@,
        )
    } else if first_portless_from(nodes, 0) is Some {
        let n = nodes[first_portless_from(nodes, 0)->0];
        Some("Node "@ + n.name@ + " has remote host '"@ + n.host->0@ + "' but no port specified"@)
    } else {
        None
    }
}

impl Topology {
    /// Checks the rules: node names are unique, each service appears once,
    /// and a node on a remote host has a port.
    pub fn validate(&self) -> (r: Result<(), ConfigError>)
        ensures
            topology_problem(self.nodes@) is None ==> r is Ok,
            topology_problem(self.nodes@) matches Some(m) ==> (r matches Err(
                ConfigError::InvalidConfig(t),
            ) && t@ == m),
    {
        let n = self.nodes.len();
        let mut names: Vec<String> = Vec::new();
        let mut i: usize = 0;
        while i < n
            invariant
                n == self.nodes@.len(),
                i <= n,
                names@ == node_names(self.nodes@).take(i as int),
            decreases n - i,
        {
            names.push(self.nodes[i].name.clone());
            i = i + 1;
            proof {
                assert(names@ =~= node_names(self.nodes@).take(i as int));
            }
        }
        proof {
            assert(names@ =~= node_names(self.nodes@));
        }
        match first_duplicate(&names) {
            Some(j) => {
                proof {
                    lemma_first_dup(names@);
                }
                let mut m = String::new();
                push_str(&mut m, "Duplicate node name: ");
                push_str(&mut m, names[j].as_str());
                return Err(ConfigError::InvalidConfig(m));
            },
            None => {},
        }
        let mut services: Vec<String> = Vec::new();
        let mut i: usize = 0;
        while i < n
            invariant
                n == self.nodes@.len(),
                i <= n,
                services@ == all_services(self.nodes@.take(i as int)),
            decreases n - i,
        {
            append_strings(&mut services, &self.nodes[i].services);
            proof {
                assert(self.nodes@.take(i + 1).drop_last() =~= self.nodes@.take(i as int));
            }
            i = i + 1;
        }
        proof {
            assert(self.nodes@.take(n as int) =~= self.nodes@);
        }
        match first_duplicate(&services) {
            Some(j) => {
                proof {
                    lemma_first_dup(services@);
                }
                let mut m = String::new();
                push_str(&mut m, "Service ");
                push_str(&mut m, services[j].as_str());
                push_str(&mut m, " appears in multiple nodes");
                return Err(ConfigError::InvalidConfig(m));
            },
            None => {},
        }
        let local = "localhost".to_owned();
        let loopback = "127.0.0.1".to_owned();
        proof {
            reveal_strlit("localhost");
            reveal_strlit("127.0.0.1");
        }
        let mut i: usize = 0;
        while i < n
            invariant
                n == self.nodes@.len(),
                i <= n,
                local@ == "localhost"@,
                loopback@ == "127.0.0.1"@,
                first_dup(node_names(self.nodes@)) is None,
                first_dup(all_services(self.nodes@)) is None,
                first_portless_from(self.nodes@, 0) == first_portless_from(self.nodes@, i as int),
            decreases n - i,
        {
            let node = &self.nodes[i];
            match &node.host {
                Some(h) => {
                    if *h != local && *h != loopback && node.port.is_none() {
                        let mut m = String::new();
                        push_str(&mut m, "Node ");
                        push_str(&mut m, node.name.as_str());
                        push_str(&mut m, " has remote host '");
                        push_str(&mut m, h.as_str());
                        push_str(&mut m, "' but no port specified");
                        return Err(ConfigError::InvalidConfig(m));
                    }
                },
                None => {},
            }
            i = i + 1;
        }
        Ok(())
    }

    /// The first node that runs `service_name`.
    pub fn find_node(&self, service_name: &str) -> (r: Option<&Node>)
        ensures
            node_of(self.nodes@, service_name@) matches Some(i) ==> 0 <= i < self.nodes@.len(),
            node_of(self.nodes@, service_name@) is None ==> r is None,
            node_of(self.nodes@, service_name@) matches Some(i) ==> (r matches Some(n) && *n
                == self.nodes@[i]),
    {
        match self.find_node_index(service_name) {
            Some(i) => Some(&self.nodes[i]),
            None => None,
        }
    }

    /// Position of the first node that runs `service_name`.
    fn find_node_index(&self, service_name: &str) -> (r: Option<usize>)
        ensures
            match r {
                Some(i) => i < self.nodes@.len() && node_of(self.nodes@, service_name@) == Some(
                    i as int,
                ),
                None => node_of(self.nodes@, service_name@) is None,
            },
    {
        let target = service_name.to_owned();
        let n = self.nodes.len();
        let mut i: usize = 0;
        while i < n
            invariant
                n == self.nodes@.len(),
                i <= n,
                target@ == service_name@,
                forall|j: int| 0 <= j < i ==> !lists(self.nodes@[j].services@, service_name@),
            decreases n - i,
        {
            if contains_string(&self.nodes[i].services, &target) {
                proof {
                    assert(is_first_node(self.nodes@, service_name@, i as int));
                    let c = choose|k: int| is_first_node(self.nodes@, service_name@, k);
                    assert(c == i as int) by {
                        if c < i {
                            assert(!lists(self.nodes@[c].services@, service_name@));
                        }
                        if c > i {
                            assert(!lists(self.nodes@[i as int].services@, service_name@));
                        }
                    }
                }
                return Some(i);
            }
            i = i + 1;
        }
        None
    }

    /// True when both services run in nodes of the same name.
    pub fn same_node(&self, service1: &str, service2: &str) -> (r: bool)
        ensures
            r == spec_same_node(self.nodes@, service1@, service2@),
    {
        match (self.find_node_index(service1), self.find_node_index(service2)) {
            (Some(i), Some(j)) => self.nodes[i].name == self.nodes[j].name,
            _ => false,
        }
    }

    /// The transport between two services.
    pub fn transport_between(&self, from_service: &str, to_service: &str) -> (r: TransportType)
        ensures
            r == spec_transport_between(self.nodes@, from_service@, to_service@),
    {
        if self.same_node(from_service, to_service) {
            return TransportType::Local;
        }
        match (self.find_node_index(from_service), self.find_node_index(to_service)) {
            (Some(i), Some(j)) => hosts_between(&self.nodes[i].host, &self.nodes[j].host),
            _ => TransportType::Local,
        }
    }

    /// Path of a node's Unix socket: `<name>.sock` in the socket directory.
    pub fn socket_path(&self, node_name: &str) -> (r: String)
        ensures
            r@ == path_join(self.socket_dir@, node_name@ + ".sock"@),
    {
        let mut file = node_name.to_owned();
        push_str(&mut file, ".sock");
        join_path(self.socket_dir.as_str(), file.as_str())
    }
}

/// True when `names` holds `target`.
pub fn contains_string(names: &Vec<String>, target: &String) -> (r: bool)
    ensures
        r == lists(names@, target@),
{
    let n = names.len();
    let mut i: usize = 0;
    while i < n
        invariant
            n == names@.len(),
            i <= n,
            forall|k: int| 0 <= k < i ==> names@[k]@ != target@,
        decreases n - i,
    {
        if names[i] == *target {
            return true;
        }
        i = i + 1;
    }
    false
}

/// True when `h` names this machine.
pub fn is_local(h: &String) -> (r: bool)
    ensures
        r == is_local_host(h@),
{
    proof {
        reveal_strlit("localhost");
        reveal_strlit("127.0.0.1");
    }
    *h == "localhost".to_owned() || *h == "127.0.0.1".to_owned()
}

/// The transport between two hosts.
pub fn hosts_between(h1: &Option<String>, h2: &Option<String>) -> (r: TransportType)
    ensures
        r == hosts_transport(*h1, *h2),
{
    match (h1, h2) {
        (None, None) => TransportType::Unix,
        (Some(h), None) => if is_local(h) {
            TransportType::Unix
        } else {
            TransportType::Tcp
        },
        (None, Some(h)) => if is_local(h) {
            TransportType::Unix
        } else {
            TransportType::Tcp
        },
        (Some(a), Some(b)) => if *a == *b || (is_local(a) && is_local(b)) {
            TransportType::Unix
        } else {
            TransportType::Tcp
        },
    }
}

/// The first node that runs a service is the one `node_of` finds.
proof fn lemma_first_node_is_node_of(nodes: Seq<Node>, service: Seq<char>, i: int)
    requires
        is_first_node(nodes, service, i),
    ensures
        node_of(nodes, service) == Some(i),
{
    lemma_node_of(nodes, service);
    let k = node_of(nodes, service)->0;
    if k < i {
        assert(!lists(nodes[k].services@, service));
    } else if k > i {
        assert(!lists(nodes[i].services@, service));
    }
}

/// Law: two services whose first nodes are different nodes on the same host
/// (the same host name, or both without a host) talk over Unix sockets.
pub proof fn lemma_same_host_is_unix(nodes: Seq<Node>, s1: Seq<char>, s2: Seq<char>, i: int, j: int)
    requires
        is_first_node(nodes, s1, i),
        is_first_node(nodes, s2, j),
        nodes[i].name@ != nodes[j].name@,
        match (nodes[i].host, nodes[j].host) {
            (Some(a), Some(b)) => a@ == b@,
            (None, None) => true,
            _ => false,
        },
    ensures
        spec_transport_between(nodes, s1, s2) == TransportType::Unix,
{
    lemma_first_node_is_node_of(nodes, s1, i);
    lemma_first_node_is_node_of(nodes, s2, j);
}

/// Law: two services whose first nodes are different nodes that both name
/// this machine (`localhost`, `127.0.0.1`, or no host at all) talk over Unix
/// sockets.
pub proof fn lemma_local_hosts_are_unix(nodes: Seq<Node>, s1: Seq<char>, s2: Seq<char>, i: int, j: int)
    requires
        is_first_node(nodes, s1, i),
        is_first_node(nodes, s2, j),
        nodes[i].name@ != nodes[j].name@,
        nodes[i].host matches Some(a) ==> (a@ == "localhost"@ || a@ == "127.0.0.1"@),
        nodes[j].host matches Some(b) ==> (b@ == "localhost"@ || b@ == "127.0.0.1"@),
    ensures
        spec_transport_between(nodes, s1, s2) == TransportType::Unix,
{
    lemma_first_node_is_node_of(nodes, s1, i);
    lemma_first_node_is_node_of(nodes, s2, j);
}

/// Law: two services whose first nodes are different nodes on different
/// hosts, not both this machine, talk over TCP.
pub proof fn lemma_different_hosts_are_tcp(nodes: Seq<Node>, s1: Seq<char>, s2: Seq<char>, i: int, j: int)
    requires
        is_first_node(nodes, s1, i),
        is_first_node(nodes, s2, j),
        nodes[i].name@ != nodes[j].name@,
        !(nodes[i].host matches Some(a) && nodes[j].host matches Some(b) && a@ == b@),
        !((nodes[i].host matches Some(a) ==> (a@ == "localhost"@ || a@ == "127.0.0.1"@)) && (
        nodes[j].host matches Some(b) ==> (b@ == "localhost"@ || b@ == "127.0.0.1"@))),
    ensures
        spec_transport_between(nodes, s1, s2) == TransportType::Tcp,
{
    lemma_first_node_is_node_of(nodes, s1, i);
    lemma_first_node_is_node_of(nodes, s2, j);
}

/// Services of one node are always in memory with each other.
pub proof fn lemma_same_node_is_local(nodes: Seq<Node>, s1: Seq<char>, s2: Seq<char>)
    requires
        spec_same_node(nodes, s1, s2),
    ensures
        spec_transport_between(nodes, s1, s2) == TransportType::Local,
{
}

/// The transport between two services is the same in both directions.
pub proof fn lemma_transport_symmetric(nodes: Seq<Node>, s1: Seq<char>, s2: Seq<char>)
    ensures
        spec_transport_between(nodes, s1, s2) == spec_transport_between(nodes, s2, s1),
{
}

/// A valid topology places every service in one node only.
pub proof fn lemma_valid_services_unique(nodes: Seq<Node>)
    requires
        topology_problem(nodes) is None,
    ensures
        forall|a: int, b: int|
            0 <= a < b < all_services(nodes).len() ==> all_services(nodes)[a]@
                != all_services(nodes)[b]@,
        forall|a: int, b: int|
            0 <= a < b < nodes.len() ==> nodes[a].name@ != nodes[b].name@,
{
    lemma_first_dup(node_names(nodes));
    lemma_first_dup(all_services(nodes));
    assert forall|a: int, b: int| 0 <= a < b < nodes.len() implies nodes[a].name@
        != nodes[b].name@ by {
        assert(node_names(nodes)[a] == nodes[a].name);
        assert(node_names(nodes)[b] == nodes[b].name);
    }
}

} // verus!
