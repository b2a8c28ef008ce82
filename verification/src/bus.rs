//! Route selection of the message bus: which transport reaches another
//! service's node.
//!
//! Within one node the bus stays in memory; otherwise the topology decides
//! between Unix sockets and TCP from the first service of each node.
use vstd::prelude::*;
use crate::config::{
    lemma_node_of,
    node_of,
    spec_same_node,
    spec_transport_between,
    Node,
    Topology,
    TransportType,
};
use crate::error::TransportError;
use crate::text::{decimal, push_decimal, push_str};

verus! {

/// Which end of a route the bus is building.
#[derive(Debug, Clone, Copy, PartialEq, Eq, Structural)]
pub enum RouteEnd {
    /// A publisher towards a target service.
    Publisher,
    /// A subscriber to a source service.
    Subscriber,
}

/// A chosen route: the transport and the peer node's name.
#[derive(Debug, Clone)]
pub struct Route {
    pub transport: TransportType,
    pub node: String,
}

/// The first node with the given name.
pub open spec fn node_named(nodes: Seq<Node>, name: Seq<char>) -> Option<int> {
    if exists|i: int| 0 <= i < nodes.len() && nodes[i].name@ == name {
        Some(choose|i: int| 0 <= i < nodes.len() && nodes[i].name@ == name && forall|j: int|
            0 <= j < i ==> nodes[j].name@ != name)
    } else {
        None
    }
}

/// The error text for a missing piece of a route, or the route: transport and
/// peer node name.
pub open spec fn spec_route(
    topology: Option<Topology>,
    node_name: Option<String>,
    service: Seq<char>,
    end: RouteEnd,
) -> Result<(TransportType, Seq<char>), Seq<char>> {
    match topology {
        None => Err(
            match end {
                RouteEnd::Publisher => "No topology configured - use publisher() for monolith mode"@,
                RouteEnd::Subscriber => "No topology configured - use subscriber() for monolith mode"@,
            },
        ),
        Some(t) => match node_name {
            None => Err("No node name configured"@),
            Some(my) => match node_of(t.nodes@, service) {
                None => Err("Service '"@ + service + "' not found in topology"@),
                Some(p) => {
                    let peer = t.nodes@[p];
                    if spec_same_node(t.nodes@, my@, peer.name@) {
                        Ok((TransportType::Local, peer.name@))
                    } else {
                        match node_named(t.nodes@, my@) {
                            Some(m) if t.nodes@[m].services@.len() > 0 => if peer.services@.len() > 0 {
                                Ok(
                                    (
                                        spec_transport_between(
                                            t.nodes@,
                                            t.nodes@[m].services@[0]@,
                                            peer.services@[0]@,
                                        ),
                                        peer.name@,
                                    ),
                                )
                            } else {
                                Err(
                                    match end {
                                        RouteEnd::Publisher => "No services in target node"@,
                                        RouteEnd::Subscriber => "No services in source node"@,
                                    },
                                )
                            },
                            _ => Err("No services in my node"@),
                        }
                    }
                },
            },
        },
    }
}

/// Position of the first node named `name`.
fn find_node_named(nodes: &Vec<Node>, name: &String) -> (r: Option<usize>)
    ensures
        match r {
            Some(i) => i < nodes@.len() && node_named(nodes@, name@) == Some(i as int),
            None => node_named(nodes@, name@) is None,
        },
{
    let n = nodes.len();
    let mut i: usize = 0;
    while i < n
        invariant
            n == nodes@.len(),
            i <= n,
            forall|j: int| 0 <= j < i ==> nodes@[j].name@ != name@,
        decreases n - i,
    {
        if nodes[i].name == *name {
            proof {
                let c = choose|k: int|
                    0 <= k < nodes@.len() && nodes@[k].name@ == name@ && forall|j: int|
                        0 <= j < k ==> nodes@[j].name@ != name@;
                assert(0 <= i < nodes@.len() && nodes@[i as int].name@ == name@ && forall|j: int|
                    0 <= j < i ==> nodes@[j].name@ != name@);
                assert(c == i as int) by {
                    if c < i {
                        assert(nodes@[c].name@ != name@);
                    }
                    if c > i {
                        assert(nodes@[i as int].name@ != name@);
                    }
                }
            }
            return Some(i);
        }
        i = i + 1;
    }
    None
}

/// Chooses the route to (or from) `service`: fails with `ServiceNotFound`
/// when there is no topology, no own node name, no node running the service,
/// or no service in one of the two nodes to decide the transport by.
pub fn plan_route(
    topology: &Option<Topology>,
    node_name: &Option<String>,
    service: &str,
    end: RouteEnd,
) -> (r: Result<Route, TransportError>)
    ensures
        match spec_route(*topology, *node_name, service@, end) {
            Ok((t, n)) => r matches Ok(route) && route.transport == t && route.node@ == n,
            Err(m) => r matches Err(TransportError::ServiceNotFound(x)) && x@ == m,
        },
{
    let t = match topology {
        Some(t) => t,
        None => {
            let mut m = String::new();
            match end {
                RouteEnd::Publisher => push_str(
                    &mut m,
                    "No topology configured - use publisher() for monolith mode",
                ),
                RouteEnd::Subscriber => push_str(
                    &mut m,
                    "No topology configured - use subscriber() for monolith mode",
                ),
            }
            return Err(TransportError::ServiceNotFound(m));
        },
    };
    let my = match node_name {
        Some(n) => n,
        None => {
            let mut m = String::new();
            push_str(&mut m, "No node name configured");
            return Err(TransportError::ServiceNotFound(m));
        },
    };
    proof {
        lemma_node_of(t.nodes@, service@);
    }
    let peer = match t.find_node(service) {
        Some(p) => p,
        None => {
            let mut m = String::new();
            push_str(&mut m, "Service '");
            push_str(&mut m, service);
            push_str(&mut m, "' not found in topology");
            return Err(TransportError::ServiceNotFound(m));
        },
    };
    if t.same_node(my.as_str(), peer.name.as_str()) {
        return Ok(Route { transport: TransportType::Local, node: peer.name.clone() });
    }
    let mine = match find_node_named(&t.nodes, my) {
        Some(i) => i,
        None => {
            let mut m = String::new();
            push_str(&mut m, "No services in my node");
            return Err(TransportError::ServiceNotFound(m));
        },
    };
    if t.nodes[mine].services.len() == 0 {
        let mut m = String::new();
        push_str(&mut m, "No services in my node");
        return Err(TransportError::ServiceNotFound(m));
    }
    if peer.services.len() == 0 {
        let mut m = String::new();
        match end {
            RouteEnd::Publisher => push_str(&mut m, "No services in target node"),
            RouteEnd::Subscriber => push_str(&mut m, "No services in source node"),
        }
        return Err(TransportError::ServiceNotFound(m));
    }
    let transport = t.transport_between(
        t.nodes[mine].services[0].as_str(),
        peer.services[0].as_str(),
    );
    Ok(Route { transport, node: peer.name.clone() })
}

/// The error for a socket transport that could not be set up towards (or
/// from) `node`.
pub fn route_failure(transport: TransportType, node: &str, end: RouteEnd) -> (r: TransportError)
    ensures
        r matches TransportError::ServiceNotFound(x) && x@ == "Failed to create "@ + (
        match transport {
            TransportType::Tcp => "TCP"@,
            _ => "Unix"@,
        }) + (match end {
            RouteEnd::Publisher => " publisher to '"@,
            RouteEnd::Subscriber => " subscriber from '"@,
        }) + node@ + "'"@,
{
    let mut m = String::new();
    push_str(&mut m, "Failed to create ");
    match transport {
        TransportType::Tcp => push_str(&mut m, "TCP"),
        _ => push_str(&mut m, "Unix"),
    }
    match end {
        RouteEnd::Publisher => push_str(&mut m, " publisher to '"),
        RouteEnd::Subscriber => push_str(&mut m, " subscriber from '"),
    }
    push_str(&mut m, node);
    push_str(&mut m, "'");
    TransportError::ServiceNotFound(m)
}

/// The TCP address of the first node named `name`: `host:port`, when that
/// node has both.
pub open spec fn spec_tcp_address(nodes: Seq<Node>, name: Seq<char>) -> Option<Seq<char>> {
    match node_named(nodes, name) {
        Some(i) => match (nodes[i].host, nodes[i].port) {
            (Some(h), Some(p)) => Some(h@ + ":"@ + decimal(p as nat)),
            _ => None,
        },
        None => None,
    }
}

/// The address at which the node named `node_name` accepts TCP connections;
/// `None` when no node has that name or it lacks a host or a port.
pub fn tcp_address(topology: &Topology, node_name: &str) -> (r: Option<String>)
    ensures
        match spec_tcp_address(topology.nodes@, node_name@) {
            Some(a) => r matches Some(s) && s@ == a,
            None => r is None,
        },
{
    let name = node_name.to_owned();
    let i = match find_node_named(&topology.nodes, &name) {
        Some(i) => i,
        None => {
            return None;
        },
    };
    let node = &topology.nodes[i];
    match (&node.host, node.port) {
        (Some(h), Some(p)) => {
            let mut s = h.clone();
            push_str(&mut s, ":");
            push_decimal(&mut s, p as u64);
            Some(s)
        },
        _ => None,
    }
}

} // verus!
