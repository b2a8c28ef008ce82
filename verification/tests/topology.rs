use mycelium::bus::{plan_route, route_failure, tcp_address, RouteEnd};
use mycelium::config::{Node, Topology, TransportType};
use mycelium::deployment::{
    Bundle, Deployment, DeploymentMode, InterBundleConfig, Topology as Deploy,
};
use mycelium::error::TransportError;

fn node(name: &str, services: &[&str]) -> Node {
    Node {
        name: name.to_string(),
        services: services.iter().map(|s| s.to_string()).collect(),
        host: None,
        port: None,
        endpoint: None,
    }
}

fn node_at(name: &str, services: &[&str], host: &str, port: Option<u16>) -> Node {
    let mut n = node(name, services);
    n.host = Some(host.to_string());
    n.port = port;
    n
}

fn topology(nodes: Vec<Node>) -> Topology {
    Topology { nodes, socket_dir: "/tmp/mycelium".to_string() }
}

fn bundle(name: &str, services: &[&str]) -> Bundle {
    Bundle {
        name: name.to_string(),
        services: services.iter().map(|s| s.to_string()).collect(),
        host: None,
        port: None,
    }
}

fn deploy(mode: DeploymentMode, bundles: Vec<Bundle>, inter: Option<InterBundleConfig>) -> Deploy {
    Deploy { deployment: Deployment { mode }, bundles, inter_bundle: inter }
}

#[test]
fn test_find_node() {
    let t = topology(vec![node("adapters", &["polygon-adapter", "ethereum-adapter"])]);
    let node = t.find_node("polygon-adapter").unwrap();
    assert_eq!(node.name, "adapters");
    assert!(t.find_node("nobody").is_none());
}

#[test]
fn test_same_node() {
    let t = topology(vec![
        node("adapters", &["polygon-adapter", "ethereum-adapter"]),
        node("strategies", &["flash-arbitrage"]),
    ]);
    assert!(t.same_node("polygon-adapter", "ethereum-adapter"));
    assert!(!t.same_node("polygon-adapter", "flash-arbitrage"));
}

#[test]
fn test_transport_between_same_node() {
    let t = topology(vec![node("adapters", &["polygon-adapter", "ethereum-adapter"])]);
    assert_eq!(t.transport_between("polygon-adapter", "ethereum-adapter"), TransportType::Local);
}

#[test]
fn test_transport_between_different_nodes_localhost() {
    let t = topology(vec![
        node("adapters", &["polygon-adapter"]),
        node("strategies", &["flash-arbitrage"]),
    ]);
    assert_eq!(t.transport_between("polygon-adapter", "flash-arbitrage"), TransportType::Unix);
}

#[test]
fn test_transport_between_different_hosts() {
    let t = topology(vec![
        node_at("adapters", &["polygon-adapter"], "10.0.1.10", Some(9000)),
        node_at("strategies", &["flash-arbitrage"], "10.0.2.20", Some(9001)),
    ]);
    assert_eq!(t.transport_between("polygon-adapter", "flash-arbitrage"), TransportType::Tcp);
}

#[test]
fn transport_between_localhost_and_unset_host_is_unix() {
    let t = topology(vec![
        node_at("a", &["x"], "localhost", None),
        node("b", &["y"]),
    ]);
    assert_eq!(t.transport_between("x", "y"), TransportType::Unix);
    assert_eq!(t.transport_between("x", "unknown"), TransportType::Local);
}

#[test]
fn config_test_socket_path() {
    let mut t = topology(vec![node("adapters", &["polygon-adapter"])]);
    t.socket_dir = "/tmp/test".to_string();
    assert_eq!(t.socket_path("adapters"), "/tmp/test/adapters.sock");
    t.socket_dir = "/tmp/test/".to_string();
    assert_eq!(t.socket_path("adapters"), "/tmp/test/adapters.sock");
}

#[test]
fn test_validate_duplicate_node_names() {
    let t = topology(vec![node("test", &["service1"]), node("test", &["service2"])]);
    assert!(t.validate().is_err());
}

#[test]
fn config_test_validate_duplicate_service_names() {
    let t = topology(vec![node("node1", &["service1"]), node("node2", &["service1"])]);
    assert!(t.validate().is_err());
}

#[test]
fn validate_messages() {
    let t = topology(vec![node("test", &["service1"]), node("test", &["service2"])]);
    assert_eq!(
        t.validate().unwrap_err().to_string(),
        "Invalid configuration: Duplicate node name: test"
    );
    let t = topology(vec![node("n1", &["s1"]), node("n2", &["s1"])]);
    assert_eq!(
        t.validate().unwrap_err().to_string(),
        "Invalid configuration: Service s1 appears in multiple nodes"
    );
    let t = topology(vec![node_at("n1", &["s1"], "10.0.0.1", None)]);
    assert_eq!(
        t.validate().unwrap_err().to_string(),
        "Invalid configuration: Node n1 has remote host '10.0.0.1' but no port specified"
    );
    let t = topology(vec![node_at("n1", &["s1"], "127.0.0.1", None), node("n2", &["s2"])]);
    assert!(t.validate().is_ok());
}

#[test]
fn test_find_bundle() {
    let t = deploy(DeploymentMode::Bundled, vec![bundle("adapters", &["polygon-adapter", "ethereum-adapter"])], None);
    let b = t.find_bundle("polygon-adapter").unwrap();
    assert_eq!(b.name, "adapters");
}

#[test]
fn test_same_bundle() {
    let t = deploy(
        DeploymentMode::Bundled,
        vec![
            bundle("adapters", &["polygon-adapter", "ethereum-adapter"]),
            bundle("strategies", &["flash-arbitrage"]),
        ],
        None,
    );
    assert!(t.same_bundle("polygon-adapter", "ethereum-adapter"));
    assert!(!t.same_bundle("polygon-adapter", "flash-arbitrage"));
}

#[test]
fn test_transport_between_bundled() {
    let t = deploy(
        DeploymentMode::Bundled,
        vec![
            bundle("adapters", &["polygon-adapter", "ethereum-adapter"]),
            bundle("strategies", &["flash-arbitrage"]),
        ],
        Some(InterBundleConfig { transport: TransportType::Unix, socket_dir: "/tmp/mycelium".to_string() }),
    );
    assert_eq!(t.transport_between("polygon-adapter", "ethereum-adapter"), TransportType::Local);
    assert_eq!(t.transport_between("polygon-adapter", "flash-arbitrage"), TransportType::Unix);
}

#[test]
fn transport_between_by_mode() {
    let bundles = vec![bundle("a", &["x"]), bundle("b", &["y"])];
    let t = deploy(DeploymentMode::Monolith, bundles.clone(), None);
    assert_eq!(t.transport_between("x", "y"), TransportType::Local);
    let t = deploy(
        DeploymentMode::Isolated,
        bundles.clone(),
        Some(InterBundleConfig { transport: TransportType::Tcp, socket_dir: "/s".to_string() }),
    );
    assert_eq!(t.transport_between("x", "x"), TransportType::Tcp);
    let mut far = bundles.clone();
    far[0].host = Some("h1".to_string());
    far[1].host = Some("h2".to_string());
    let t = deploy(DeploymentMode::Distributed, far, None);
    assert_eq!(t.transport_between("x", "y"), TransportType::Tcp);
    let t = deploy(DeploymentMode::Distributed, bundles, None);
    assert_eq!(t.transport_between("x", "y"), TransportType::Local);
}

#[test]
fn topology_test_socket_path() {
    let t = deploy(
        DeploymentMode::Bundled,
        vec![bundle("adapters", &["polygon-adapter"])],
        Some(InterBundleConfig { transport: TransportType::Unix, socket_dir: "/tmp/test".to_string() }),
    );
    assert_eq!(t.socket_path("adapters"), "/tmp/test/adapters.sock");
    let t = deploy(DeploymentMode::Bundled, vec![], None);
    assert_eq!(t.socket_path("adapters"), "/tmp/mycelium/adapters.sock");
}

#[test]
fn test_validate_duplicate_bundle_names() {
    let t = deploy(DeploymentMode::Bundled, vec![bundle("test", &["service1"]), bundle("test", &["service2"])], None);
    assert!(t.validate().is_err());
}

#[test]
fn topology_test_validate_duplicate_service_names() {
    let t = deploy(DeploymentMode::Bundled, vec![bundle("bundle1", &["service1"]), bundle("bundle2", &["service1"])], None);
    assert!(t.validate().is_err());
}

#[test]
fn distributed_bundle_needs_host_and_port() {
    let mut b = bundle("b1", &["s1"]);
    b.host = Some("h".to_string());
    let t = deploy(DeploymentMode::Distributed, vec![b.clone()], None);
    assert_eq!(
        t.validate().unwrap_err().to_string(),
        "Invalid configuration: Bundle b1 has host but no port"
    );
    let t = deploy(DeploymentMode::Bundled, vec![b], None);
    assert!(t.validate().is_ok());
}

#[test]
fn route_planning() {
    let t = topology(vec![
        node("adapters", &["polygon-adapter"]),
        node("strategies", &["flash-arbitrage"]),
    ]);
    let route = plan_route(&Some(t.clone()), &Some("adapters".to_string()), "flash-arbitrage", RouteEnd::Publisher).unwrap();
    assert_eq!(route.transport, TransportType::Unix);
    assert_eq!(route.node, "strategies");
    let err = plan_route(&None, &None, "x", RouteEnd::Subscriber).unwrap_err();
    assert_eq!(err.to_string(), "Service not found: No topology configured - use subscriber() for monolith mode");
    let err = plan_route(&Some(t.clone()), &Some("adapters".to_string()), "ghost", RouteEnd::Publisher).unwrap_err();
    assert_eq!(err.to_string(), "Service not found: Service 'ghost' not found in topology");
    let err = plan_route(&Some(t), &None, "ghost", RouteEnd::Publisher).unwrap_err();
    assert!(matches!(err, TransportError::ServiceNotFound(_)));
    let e = route_failure(TransportType::Tcp, "strategies", RouteEnd::Publisher);
    assert_eq!(e.to_string(), "Service not found: Failed to create TCP publisher to 'strategies'");
}

#[test]
fn tcp_address_of_named_node() {
    let t = topology(vec![
        node("local", &["a"]),
        node_at("remote", &["b"], "10.0.0.5", Some(9090)),
        node_at("portless", &["c"], "10.0.0.6", None),
        node_at("remote", &["d"], "10.0.0.7", Some(1)),
    ]);
    assert_eq!(tcp_address(&t, "remote"), Some("10.0.0.5:9090".to_string()));
    assert_eq!(tcp_address(&t, "portless"), None);
    assert_eq!(tcp_address(&t, "local"), None);
    assert_eq!(tcp_address(&t, "missing"), None);
}

#[test]
fn transport_between_two_local_host_names_is_unix() {
    let t = topology(vec![
        node_at("a", &["x"], "localhost", None),
        node_at("b", &["y"], "127.0.0.1", None),
        node_at("c", &["z"], "10.0.0.9", Some(7000)),
    ]);
    assert_eq!(t.transport_between("x", "y"), TransportType::Unix);
    assert_eq!(t.transport_between("y", "x"), TransportType::Unix);
    assert_eq!(t.transport_between("x", "z"), TransportType::Tcp);
}
