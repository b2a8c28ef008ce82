//! Deployment topology: services grouped in bundles under a deployment mode.
//!
//! The mode decides the transport: one process for a monolith, memory within
//! a bundle and the inter-bundle transport between bundles, the inter-bundle
//! transport for isolated services, and the hosts for distributed bundles.
use vstd::prelude::*;
use crate::config::{contains_string, lists, ConfigError, TransportType};
use crate::names::{append_strings, first_dup, first_duplicate, join_path, lemma_first_dup, path_join};
use crate::text::push_str;

verus! {

/// How services are deployed.
#[derive(Debug, Clone, Copy, PartialEq, Eq, Structural)]
pub enum DeploymentMode {
    /// All services in one process.
    Monolith,
    /// Services grouped in bundles.
    Bundled,
    /// Each service in its own process.
    Isolated,
    /// Services across machines.
    Distributed,
}

/// The deployment section.
#[derive(Debug, Clone, Copy, PartialEq, Eq, Structural)]
pub struct Deployment {
    pub mode: DeploymentMode,
}

/// Services run in one process.
#[derive(Debug, Clone)]
pub struct Bundle {
    /// Bundle name.
    pub name: String,
    /// Services in the bundle.
    pub services: Vec<String>,
    /// Host of a distributed bundle.
    pub host: Option<String>,
    /// Port of a distributed bundle.
    pub port: Option<u16>,
}

/// How bundles talk to each other.
#[derive(Debug, Clone)]
pub struct InterBundleConfig {
    /// Transport between bundles.
    pub transport: TransportType,
    /// Directory of the Unix sockets.
    pub socket_dir: String,
}

/// A deployment: its mode, bundles and inter-bundle settings.
#[derive(Debug, Clone)]
pub struct Topology {
    pub deployment: Deployment,
    pub bundles: Vec<Bundle>,
    pub inter_bundle: Option<InterBundleConfig>,
}

/// `i` is the first bundle that runs `service`.
pub open spec fn is_first_bundle(bundles: Seq<Bundle>, service: Seq<char>, i: int) -> bool {
    &&& 0 <= i < bundles.len()
    &&& lists(bundles[i].services@, service)
    &&& forall|j: int| 0 <= j < i ==> !lists(bundles[j].services@, service)
}

/// The first bundle that runs `service`, if any.
pub open spec fn bundle_of(bundles: Seq<Bundle>, service: Seq<char>) -> Option<int> {
    if exists|i: int| 0 <= i < bundles.len() && lists(bundles[i].services@, service) {
        Some(choose|i: int| is_first_bundle(bundles, service, i))
    } else {
        None
    }
}

proof fn lemma_first_bundle_exists(bundles: Seq<Bundle>, service: Seq<char>, k: int)
    requires
        0 <= k < bundles.len(),
        lists(bundles[k].services@, service),
    ensures
        exists|i: int| is_first_bundle(bundles, service, i),
    decreases k,
{
    if exists|j: int| 0 <= j < k && lists(bundles[j].services@, service) {
        let j = choose|j: int| 0 <= j < k && lists(bundles[j].services@, service);
        lemma_first_bundle_exists(bundles, service, j);
    } else {
        assert(is_first_bundle(bundles, service, k));
    }
}

/// The bundle found for a service is the first that runs it; when none is
/// found, no bundle runs it.
pub proof fn lemma_bundle_of(bundles: Seq<Bundle>, service: Seq<char>)
    ensures
        bundle_of(bundles, service) matches Some(i) ==> is_first_bundle(bundles, service, i),
        bundle_of(bundles, service) is None ==> forall|i: int|
            0 <= i < bundles.len() ==> !lists(bundles[i].services@, service),
{
    if exists|i: int| 0 <= i < bundles.len() && lists(bundles[i].services@, service) {
        let k = choose|i: int| 0 <= i < bundles.len() && lists(bundles[i].services@, service);
        lemma_first_bundle_exists(bundles, service, k);
    }
}

/// Two services run in bundles of the same name.
pub open spec fn spec_same_bundle(bundles: Seq<Bundle>, s1: Seq<char>, s2: Seq<char>) -> bool {
    match (bundle_of(bundles, s1), bundle_of(bundles, s2)) {
        (Some(i), Some(j)) => bundles[i].name@ == bundles[j].name@,
        _ => false,
    }
}

/// The inter-bundle transport, Unix when none is configured.
pub open spec fn inter_transport(t: Topology) -> TransportType {
    match t.inter_bundle {
        Some(ib) => ib.transport,
        None => TransportType::Unix,
    }
}

/// The transport between two services under the deployment mode.
pub open spec fn spec_transport_between(t: Topology, from: Seq<char>, to: Seq<char>) -> TransportType {
    match t.deployment.mode {
        DeploymentMode::Monolith => TransportType::Local,
        DeploymentMode::Bundled => if spec_same_bundle(t.bundles@, from, to) {
            TransportType::Local
        } else {
            inter_transport(t)
        },
        DeploymentMode::Isolated => inter_transport(t),
        DeploymentMode::Distributed => match (bundle_of(t.bundles@, from), bundle_of(t.bundles@, to)) {
            (Some(i), Some(j)) => match (t.bundles@[i].host, t.bundles@[j].host) {
                (Some(a), Some(b)) => if a@ == b@ {
                    TransportType::Unix
                } else {
                    TransportType::Tcp
                },
                (None, None) => TransportType::Local,
                _ => TransportType::Tcp,
            },
            _ => TransportType::Local,
        },
    }
}

/// All services of the bundles, bundle by bundle.
pub open spec fn all_bundle_services(bundles: Seq<Bundle>) -> Seq<String>
    decreases bundles.len(),
{
    if bundles.len() == 0 {
        Seq::empty()
    } else {
        all_bundle_services(bundles.drop_last()) + bundles.last().services@
    }
}

/// The names of the bundles.
pub open spec fn bundle_names(bundles: Seq<Bundle>) -> Seq<String> {
    bundles.map_values(|b: Bundle| b.name)
}

/// A distributed bundle with a host and no port, or a port and no host.
pub open spec fn half_addressed(b: Bundle) -> bool {
    (b.host is Some && b.port is None) || (b.host is None && b.port is Some)
}

/// The first bundle from `i` on with only half an address.
pub open spec fn first_half_addressed_from(bundles: Seq<Bundle>, i: int) -> Option<int>
    decreases bundles.len() - i,
{
    if i < 0 || i >= bundles.len() {
        None
    } else if half_addressed(bundles[i]) {
        Some(i)
    } else {
        first_half_addressed_from(bundles, i + 1)
    }
}

/// The message for a bundle with only half an address.
pub open spec fn half_address_text(b: Bundle) -> Seq<char> {
    if b.host is Some {
        "Bundle "@ + b.name@ + " has host but no port"@
    } else {
        "Bundle "@ + b.name@ + " has port but no host"@
    }
}

/// The message of the first rule a deployment breaks, if any: a repeated
/// bundle name, then a service in two places, then (when distributed) a
/// bundle with a host and no port or a port and no host.
pub open spec fn deployment_problem(t: Topology) -> Option<Seq<char>> {
    let bs = t.bundles@;
    if first_dup(bundle_names(bs)) is Some {
        Some("Duplicate bundle name: "@ + bundle_names(bs)[first_dup(bundle_names(bs))->0]@)
    } else if first_dup(all_bundle_services(bs)) is Some {
        Some(
            "Service "@ + all_bundle_services(bs)[first_dup(all_bundle_services(bs))->0]@
                + " appears in multiple bundles"@,
        )
    } else if t.deployment.mode == DeploymentMode::Distributed && first_half_addressed_from(bs, 0) is Some {
        Some(half_address_text(bs[first_half_addressed_from(bs, 0)->0]))
    } else {
        None
    }
}

/// The default socket directory.
pub open spec fn default_socket_dir() -> Seq<char> {
    "/tmp/mycelium"@
}

impl Topology {
    /// Checks the rules: bundle names are unique, each service appears once,
    /// and in a distributed deployment a bundle has both a host and a port
    /// or neither.
    pub fn validate(&self) -> (r: Result<(), ConfigError>)
        ensures
            deployment_problem(*self) is None ==> r is Ok,
            deployment_problem(*self) matches Some(m) ==> (r matches Err(
                ConfigError::InvalidConfig(t),
            ) && t@ == m),
    {
        let n = self.bundles.len();
        let mut names: Vec<String> = Vec::new();
        let mut i: usize = 0;
        while i < n
            invariant
                n == self.bundles@.len(),
                i <= n,
                names@ == bundle_names(self.bundles@).take(i as int),
            decreases n - i,
        {
            names.push(self.bundles[i].name.clone());
            i = i + 1;
            proof {
                assert(names@ =~= bundle_names(self.bundles@).take(i as int));
            }
        }
        proof {
            assert(names@ =~= bundle_names(self.bundles@));
        }
        match first_duplicate(&names) {
            Some(j) => {
                proof {
                    lemma_first_dup(names@);
                }
                let mut m = String::new();
                push_str(&mut m, "Duplicate bundle name: ");
                push_str(&mut m, names[j].as_str());
                return Err(ConfigError::InvalidConfig(m));
            },
            None => {},
        }
        let mut services: Vec<String> = Vec::new();
        let mut i: usize = 0;
        while i < n
            invariant
                n == self.bundles@.len(),
                i <= n,
                services@ == all_bundle_services(self.bundles@.take(i as int)),
            decreases n - i,
        {
            append_strings(&mut services, &self.bundles[i].services);
            proof {
                assert(self.bundles@.take(i + 1).drop_last() =~= self.bundles@.take(i as int));
            }
            i = i + 1;
        }
        proof {
            assert(self.bundles@.take(n as int) =~= self.bundles@);
        }
        match first_duplicate(&services) {
            Some(j) => {
                proof {
                    lemma_first_dup(services@);
                }
                let mut m = String::new();
                push_str(&mut m, "Service ");
                push_str(&mut m, services[j].as_str());
                push_str(&mut m, " appears in multiple bundles");
                return Err(ConfigError::InvalidConfig(m));
            },
            None => {},
        }
        if self.deployment.mode == DeploymentMode::Distributed {
            let mut i: usize = 0;
            while i < n
                invariant
                    n == self.bundles@.len(),
                    i <= n,
                    self.deployment.mode == DeploymentMode::Distributed,
                    first_dup(bundle_names(self.bundles@)) is None,
                    first_dup(all_bundle_services(self.bundles@)) is None,
                    first_half_addressed_from(self.bundles@, 0) == first_half_addressed_from(
                        self.bundles@,
                        i as int,
                    ),
                decreases n - i,
            {
                let b = &self.bundles[i];
                if b.host.is_some() && b.port.is_none() {
                    let mut m = String::new();
                    push_str(&mut m, "Bundle ");
                    push_str(&mut m, b.name.as_str());
                    push_str(&mut m, " has host but no port");
                    return Err(ConfigError::InvalidConfig(m));
                }
                if b.host.is_none() && b.port.is_some() {
                    let mut m = String::new();
                    push_str(&mut m, "Bundle ");
                    push_str(&mut m, b.name.as_str());
                    push_str(&mut m, " has port but no host");
                    return Err(ConfigError::InvalidConfig(m));
                }
                i = i + 1;
            }
        }
        Ok(())
    }

    /// Position of the first bundle that runs `service_name`.
    fn find_bundle_index(&self, service_name: &str) -> (r: Option<usize>)
        ensures
            match r {
                Some(i) => i < self.bundles@.len() && bundle_of(self.bundles@, service_name@)
                    == Some(i as int),
                None => bundle_of(self.bundles@, service_name@) is None,
            },
    {
        let target = service_name.to_owned();
        let n = self.bundles.len();
        let mut i: usize = 0;
        while i < n
            invariant
                n == self.bundles@.len(),
                i <= n,
                target@ == service_name@,
                forall|j: int| 0 <= j < i ==> !lists(self.bundles@[j].services@, service_name@),
            decreases n - i,
        {
            if contains_string(&self.bundles[i].services, &target) {
                proof {
                    assert(is_first_bundle(self.bundles@, service_name@, i as int));
                    let c = choose|k: int| is_first_bundle(self.bundles@, service_name@, k);
                    assert(c == i as int) by {
                        if c < i {
                            assert(!lists(self.bundles@[c].services@, service_name@));
                        }
                        if c > i {
                            assert(!lists(self.bundles@[i as int].services@, service_name@));
                        }
                    }
                }
                return Some(i);
            }
            i = i + 1;
        }
        None
    }

    /// The first bundle that runs `service_name`.
    pub fn find_bundle(&self, service_name: &str) -> (r: Option<&Bundle>)
        ensures
            bundle_of(self.bundles@, service_name@) matches Some(i) ==> 0 <= i
                < self.bundles@.len(),
            bundle_of(self.bundles@, service_name@) is None ==> r is None,
            bundle_of(self.bundles@, service_name@) matches Some(i) ==> (r matches Some(b) && *b
                == self.bundles@[i]),
    {
        match self.find_bundle_index(service_name) {
            Some(i) => Some(&self.bundles[i]),
            None => None,
        }
    }

    /// True when both services run in bundles of the same name.
    pub fn same_bundle(&self, service1: &str, service2: &str) -> (r: bool)
        ensures
            r == spec_same_bundle(self.bundles@, service1@, service2@),
    {
        match (self.find_bundle_index(service1), self.find_bundle_index(service2)) {
            (Some(i), Some(j)) => self.bundles[i].name == self.bundles[j].name,
            _ => false,
        }
    }

    fn inter_bundle_transport(&self) -> (r: TransportType)
        ensures
            r == inter_transport(*self),
    {
        match &self.inter_bundle {
            Some(ib) => ib.transport,
            None => TransportType::Unix,
        }
    }

    /// The transport between two services.
    pub fn transport_between(&self, from_service: &str, to_service: &str) -> (r: TransportType)
        ensures
            r == spec_transport_between(*self, from_service@, to_service@),
    {
        match self.deployment.mode {
            DeploymentMode::Monolith => TransportType::Local,
            DeploymentMode::Bundled => {
                if self.same_bundle(from_service, to_service) {
                    TransportType::Local
                } else {
                    self.inter_bundle_transport()
                }
            },
            DeploymentMode::Isolated => self.inter_bundle_transport(),
            DeploymentMode::Distributed => {
                match (self.find_bundle_index(from_service), self.find_bundle_index(to_service)) {
                    (Some(i), Some(j)) => {
                        match (&self.bundles[i].host, &self.bundles[j].host) {
                            (Some(a), Some(b)) => if *a == *b {
                                TransportType::Unix
                            } else {
                                TransportType::Tcp
                            },
                            (None, None) => TransportType::Local,
                            _ => TransportType::Tcp,
                        }
                    },
                    _ => TransportType::Local,
                }
            },
        }
    }

    /// Path of a bundle's Unix socket: `<name>.sock` in the inter-bundle
    /// socket directory, or in the default one.
    pub fn socket_path(&self, bundle_name: &str) -> (r: String)
        ensures
            r@ == path_join(
                match self.inter_bundle {
                    Some(ib) => ib.socket_dir@,
                    None => default_socket_dir(),
                },
                bundle_name@ + ".sock"@,
            ),
    {
        let mut file = bundle_name.to_owned();
        push_str(&mut file, ".sock");
        match &self.inter_bundle {
            Some(ib) => join_path(ib.socket_dir.as_str(), file.as_str()),
            None => join_path("/tmp/mycelium", file.as_str()),
        }
    }
}

/// The first bundle that runs a service is the one `bundle_of` finds.
proof fn lemma_first_bundle_is_bundle_of(bundles: Seq<Bundle>, service: Seq<char>, i: int)
    requires
        is_first_bundle(bundles, service, i),
    ensures
        bundle_of(bundles, service) == Some(i),
{
    lemma_bundle_of(bundles, service);
    let k = bundle_of(bundles, service)->0;
    if k < i {
        assert(!lists(bundles[k].services@, service));
    } else if k > i {
        assert(!lists(bundles[i].services@, service));
    }
}

/// Law: in a distributed deployment, two services whose first bundles name
/// hosts talk over Unix sockets when the host names are the same and over
/// TCP when they differ.
pub proof fn lemma_distributed_hosts(t: Topology, s1: Seq<char>, s2: Seq<char>, i: int, j: int)
    requires
        t.deployment.mode == DeploymentMode::Distributed,
        is_first_bundle(t.bundles@, s1, i),
        is_first_bundle(t.bundles@, s2, j),
        t.bundles@[i].host is Some,
        t.bundles@[j].host is Some,
    ensures
        t.bundles@[i].host->0@ == t.bundles@[j].host->0@ ==> spec_transport_between(t, s1, s2)
            == TransportType::Unix,
        t.bundles@[i].host->0@ != t.bundles@[j].host->0@ ==> spec_transport_between(t, s1, s2)
            == TransportType::Tcp,
{
    lemma_first_bundle_is_bundle_of(t.bundles@, s1, i);
    lemma_first_bundle_is_bundle_of(t.bundles@, s2, j);
}

/// Law: in a distributed deployment, two services whose first bundles both
/// lack a host talk in memory, and when exactly one of them has a host they
/// talk over TCP.
pub proof fn lemma_distributed_missing_hosts(t: Topology, s1: Seq<char>, s2: Seq<char>, i: int, j: int)
    requires
        t.deployment.mode == DeploymentMode::Distributed,
        is_first_bundle(t.bundles@, s1, i),
        is_first_bundle(t.bundles@, s2, j),
    ensures
        t.bundles@[i].host is None && t.bundles@[j].host is None ==> spec_transport_between(t, s1, s2)
            == TransportType::Local,
        (t.bundles@[i].host is None) != (t.bundles@[j].host is None) ==> spec_transport_between(
            t,
            s1,
            s2,
        ) == TransportType::Tcp,
{
    lemma_first_bundle_is_bundle_of(t.bundles@, s1, i);
    lemma_first_bundle_is_bundle_of(t.bundles@, s2, j);
}

/// In a monolith every pair of services talks in memory.
pub proof fn lemma_monolith_is_local(t: Topology, from: Seq<char>, to: Seq<char>)
    requires
        t.deployment.mode == DeploymentMode::Monolith,
    ensures
        spec_transport_between(t, from, to) == TransportType::Local,
{
}

/// The transport between two services is the same in both directions.
pub proof fn lemma_transport_symmetric(t: Topology, s1: Seq<char>, s2: Seq<char>)
    ensures
        spec_transport_between(t, s1, s2) == spec_transport_between(t, s2, s1),
{
}

} // verus!
