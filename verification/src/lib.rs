use vstd::prelude::*;

pub mod fixed_vec;
pub mod text;
pub mod wire;
pub mod message;
pub mod codec;
pub mod schema_compat;
pub mod routing;
pub mod envelope;
pub mod zerocopy;
pub mod qos;
pub mod topics;
pub mod service_metrics;
pub mod pow2;
pub mod buffer_pool;
pub mod error;
pub mod stream_codec;
pub mod raw;
pub mod names;
pub mod config;
pub mod deployment;
pub mod shared;
pub mod ordered;
pub mod backpressure;
pub mod supervisor;
pub mod handler;
pub mod service;
pub mod bridge_config;
pub mod bounded;
pub mod endpoint_stats;
pub mod local;
pub mod bus;
pub mod shm_ring;
pub mod strutil;
pub mod codegen;
pub mod codegen_layout;
pub mod route_names;
pub mod service_runtime;
pub mod delivery;
pub mod actor_errors;
pub mod pool_stats;
pub mod service_macro;

verus! {
}
