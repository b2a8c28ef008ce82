use mycelium::actor_errors::SpawnError;
use mycelium::backpressure::FlowControlStats;
use mycelium::bridge_config::{OcamlBridgeConfig, OcamlChildConfig, PythonBridgeConfig, PythonChildConfig};
use mycelium::delivery::delivery_result;
use mycelium::error::TransportError;
use mycelium::fixed_vec::{FixedStr, FixedVec, FixedVecError};
use mycelium::pool_stats::PoolStats;
use mycelium::service_macro::plan_service_methods;
use mycelium::service_metrics::ServiceMetrics;
use mycelium::service_runtime::{after_shutdown, after_startup, StartupStep, SupervisedResult, Supervision, SupervisorStep};
use mycelium::strutil::trim_whitespace;
use std::convert::TryFrom;

#[test]
fn delivery_without_receivers_fails_with_topic() {
    match delivery_result(0, false, "orders") {
        Err(TransportError::NoSubscribers { topic }) => assert_eq!(topic, "orders"),
        other => panic!("unexpected {:?}", other),
    }
    assert!(delivery_result(2, false, "orders").is_ok());
    assert!(delivery_result(0, true, "orders").is_ok());
}

#[test]
fn spawn_error_texts() {
    assert_eq!(SpawnError::MailboxCreationFailed.to_string(), "Failed to create actor mailbox");
    assert_eq!(SpawnError::ActorStopped.to_string(), "Actor already stopped");
    assert_eq!(SpawnError::ActorTypeAlreadyExists.to_string(), "Actor type already registered");
    assert_eq!(SpawnError::ActorNotFound.to_string(), "Actor not found");
}

#[test]
fn pool_stats_text() {
    let stats = PoolStats {
        target: "10.0.0.1:9000".to_string(),
        total_connections: 3,
        healthy_connections: 2,
        total_messages_sent: 120,
        max_connections: 8,
        pooling_enabled: true,
    };
    assert_eq!(
        stats.to_string(),
        "Pool 10.0.0.1:9000: 3/8 connections (2 healthy), 120 messages sent, pooling: true"
    );
}

#[test]
fn flow_control_stats_text() {
    let stats = FlowControlStats { window_size: 10, current_window: 4, total_sent: 7, total_received: 3 };
    assert_eq!(stats.to_string(), "FlowControl: 4/10 in window, 7 sent, 3 received");
}

#[test]
fn fixed_vec_error_texts() {
    let e = FixedVecError::CapacityExceeded { max_capacity: 4, attempted: 5 };
    assert_eq!(e.to_string(), "Capacity exceeded: max=4, attempted=5");
    let e = FixedVecError::InvalidLength { expected_max: 8, got: 12 };
    assert_eq!(e.to_string(), "Invalid length: expected max 8, got 12");
}

#[test]
fn try_from_conversions() {
    let v = FixedVec::<u32, 4>::try_from(&[1u32, 2, 3][..]).unwrap();
    assert_eq!(v.len(), 3);
    assert_eq!(v.to_vec(), vec![1, 2, 3]);
    let v = FixedVec::<u32, 4>::try_from(vec![9u32]).unwrap();
    assert_eq!(v.to_vec(), vec![9]);
    assert!(matches!(
        FixedVec::<u32, 2>::try_from(vec![1u32, 2, 3]),
        Err(FixedVecError::InvalidLength { expected_max: 2, got: 3 })
    ));
    let s = FixedStr::<8>::try_from("hello").unwrap();
    assert_eq!(s.as_str().unwrap(), "hello");
    let s = FixedStr::<8>::try_from(String::from("abc")).unwrap();
    assert_eq!(s.as_str().unwrap(), "abc");
    assert!(matches!(
        FixedStr::<4>::try_from("too long"),
        Err(FixedVecError::InvalidLength { expected_max: 4, got: 8 })
    ));
}

#[test]
fn ocaml_worker_environment() {
    let mut digest = [0u8; 32];
    digest[0] = 0xab;
    digest[31] = 0x01;
    let config = OcamlBridgeConfig::new("/tmp/ocaml.sock", digest);
    let mut child = OcamlChildConfig::default();
    assert_eq!(child.program, "ocamlrun");
    child.env.push(("OCAMLRUNPARAM".to_string(), "b".to_string()));
    let env = config.worker_env(&child);
    let mut hex = String::from("ab");
    hex.push_str(&"00".repeat(30));
    hex.push_str("01");
    assert_eq!(
        env,
        vec![
            ("MYCELIUM_SOCKET".to_string(), "/tmp/ocaml.sock".to_string()),
            ("MYCELIUM_SCHEMA_DIGEST".to_string(), hex),
            ("OCAMLRUNPARAM".to_string(), "b".to_string()),
        ]
    );
}

#[test]
fn python_worker_environment() {
    let config = PythonBridgeConfig::new("/tmp/py.sock");
    let mut child = PythonChildConfig::default();
    assert_eq!(child.program, "python3");
    child.env.push(("PYTHONUNBUFFERED".to_string(), "1".to_string()));
    assert_eq!(
        config.worker_env(&child),
        vec![
            ("MYCELIUM_SOCKET".to_string(), "/tmp/py.sock".to_string()),
            ("PYTHONUNBUFFERED".to_string(), "1".to_string()),
        ]
    );
}

#[test]
fn service_methods_plan() {
    let names = vec!["startup".to_string(), "helper".to_string(), "run".to_string()];
    let plan = plan_service_methods(&names);
    assert!(plan.has_run);
    assert!(plan.has_startup);
    assert!(!plan.has_shutdown);
    assert_eq!(
        plan.renamed,
        vec![Some("__service_startup".to_string()), None, Some("__service_run".to_string())]
    );
}

#[test]
fn trim_matches_std_trim() {
    for text in ["  hello \t\n", "\u{3000}\u{a0}x y\u{2029}", "", "   ", "abc", "\u{200b}a\u{200b}"] {
        assert_eq!(trim_whitespace(text), text.trim());
    }
}

#[test]
fn supervision_of_a_failing_service() {
    let mut metrics = ServiceMetrics::new();
    assert_eq!(after_startup(true, &mut metrics), StartupStep::Run);
    assert_eq!(metrics.errors_total(), 0);
    let mut s = Supervision::new();
    let mut waits = Vec::new();
    loop {
        match s.after_run(false, &mut metrics) {
            SupervisorStep::RetryAfter { backoff_secs } => waits.push(backoff_secs),
            SupervisorStep::GaveUp => break,
            SupervisorStep::Finished => panic!("a failed run never finishes"),
        }
    }
    assert_eq!(waits, vec![2, 4, 8, 16]);
    assert_eq!(metrics.errors_total(), 5);
    assert_eq!(metrics.restarts_total(), 4);
    assert_eq!(after_shutdown(false, true, &mut metrics), SupervisedResult::RunError);
    assert_eq!(metrics.errors_total(), 5);
}

#[test]
fn supervision_startup_and_shutdown_failures() {
    let mut metrics = ServiceMetrics::new();
    assert_eq!(after_startup(false, &mut metrics), StartupStep::Abort);
    assert_eq!(metrics.errors_total(), 1);
    let mut metrics = ServiceMetrics::new();
    assert_eq!(after_shutdown(true, false, &mut metrics), SupervisedResult::ShutdownError);
    assert_eq!(metrics.errors_total(), 1);
    assert_eq!(after_shutdown(true, true, &mut metrics), SupervisedResult::Success);
    assert_eq!(metrics.errors_total(), 1);
}
