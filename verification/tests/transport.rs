use mycelium::buffer_pool::{BufferPool, BufferPoolConfig, BufferPoolStats};
use mycelium::config::TransportConfig;
use mycelium::error::{Result, TransportError};
use mycelium::handler::MessageHandler;
use mycelium::message::{CounterUpdate, Message};
use mycelium::qos::{DropPolicy, MailboxMetrics, SpawnOptions};
use mycelium::routing::ActorId;
use mycelium::service::{DegradedReason, HealthStatus, UnhealthyReason};
use mycelium::shared::{enrich_error, BufferSizes};
use mycelium::stream_codec::{deserialize_message, CodecError};
use mycelium::supervisor::SupervisionStrategy;
use mycelium::topics::TopicBuilder;
use mycelium::zerocopy::{Cow, OwnedBuf, SharedView};
use std::collections::HashMap;

fn pool_with(classes: &[(usize, usize)]) -> BufferPool {
    let mut config = HashMap::new();
    for (c, n) in classes {
        config.insert(*c, *n);
    }
    BufferPool::new(BufferPoolConfig::from_map(config))
}

fn hit_rate(stats: &BufferPoolStats) -> f64 {
    if stats.total_acquires == 0 {
        return 0.0;
    }
    let hits = stats.total_acquires - stats.total_allocations;
    (hits as f64 / stats.total_acquires as f64) * 100.0
}

#[test]
fn test_lazy_allocation() {
    let mut pool = pool_with(&[(128, 10)]);
    let stats = pool.stats();
    assert_eq!(stats.total_allocations, 0);
    let buf = pool.acquire(100);
    assert_eq!(pool.stats().total_allocations, 1);
    pool.release(buf);
    let _buf2 = pool.acquire(100);
    assert_eq!(pool.stats().total_allocations, 1);
}

#[test]
fn test_buffer_reuse() {
    let mut pool = pool_with(&[(128, 10)]);
    let buf = pool.acquire(100);
    pool.release(buf);
    let stats = pool.stats();
    assert_eq!(stats.total_allocations, 1);
    assert_eq!(stats.total_acquires, 1);
    assert_eq!(stats.total_returns, 1);
    assert_eq!(stats.currently_in_use, 0);
    let _buf2 = pool.acquire(100);
    let stats2 = pool.stats();
    assert_eq!(stats2.total_allocations, 1);
    assert_eq!(stats2.total_acquires, 2);
    assert_eq!(stats2.currently_in_use, 1);
}

#[test]
fn test_hit_rate() {
    let mut pool = pool_with(&[(128, 10)]);
    let mut buffers = Vec::new();
    for _ in 0..10 {
        buffers.push(pool.acquire(100));
    }
    assert_eq!(pool.stats().total_allocations, 10);
    for b in buffers.drain(..) {
        pool.release(b);
    }
    for _ in 0..90 {
        let b = pool.acquire(100);
        pool.release(b);
    }
    let stats = pool.stats();
    assert_eq!(stats.total_allocations, 10);
    assert_eq!(stats.total_acquires, 100);
    assert_eq!(hit_rate(&stats), 90.0);
}

#[test]
fn test_size_class_selection() {
    let mut pool = pool_with(&[(128, 10), (256, 10), (512, 10)]);
    let buf1 = pool.acquire(100);
    assert_eq!(buf1.len(), 128);
    let buf2 = pool.acquire(200);
    assert_eq!(buf2.len(), 256);
    let buf3 = pool.acquire(300);
    assert_eq!(buf3.len(), 512);
}

#[test]
fn test_capacity_limits() {
    let mut pool = pool_with(&[(128, 2)]);
    let buf1 = pool.acquire(100);
    let buf2 = pool.acquire(100);
    let buf3 = pool.acquire(100);
    assert_eq!(pool.stats().total_allocations, 3);
    pool.release(buf1);
    pool.release(buf2);
    pool.release(buf3);
    let stats = pool.stats();
    assert_eq!(stats.total_allocations, 3);
    assert_eq!(stats.total_returns, 2);
    assert_eq!(stats.currently_in_use, 0);
}

#[test]
fn test_pooled_buffer_operations() {
    let mut pool = pool_with(&[(128, 10)]);
    let mut buf = pool.acquire(64);
    assert_eq!(buf.len(), 128);
    assert!(!buf.is_empty());
    assert_eq!(buf.capacity(), 128);
    buf.resize(64, 0);
    assert_eq!(buf.len(), 64);
    buf.as_mut_slice()[0] = 42;
    assert_eq!(buf.as_slice()[0], 42);
}

#[test]
fn test_zero_size_request() {
    let mut pool = pool_with(&[(128, 10)]);
    let buf = pool.acquire(0);
    assert_eq!(buf.len(), 128);
}

#[test]
fn test_very_large_request() {
    let mut pool = pool_with(&[(128, 10), (256, 10)]);
    let buf = pool.acquire(1024);
    assert_eq!(buf.len(), 1024);
}

#[test]
fn test_empty_config() {
    let mut pool = pool_with(&[]);
    let buf = pool.acquire(100);
    assert_eq!(buf.len(), 128);
    let stats = pool.stats();
    assert_eq!(stats.total_allocations, 1);
    assert_eq!(hit_rate(&stats), 0.0);
}

#[test]
fn test_stats_initially_zero() {
    let pool = pool_with(&[(128, 10)]);
    let stats = pool.stats();
    assert_eq!(stats.total_allocations, 0);
    assert_eq!(stats.total_acquires, 0);
    assert_eq!(stats.total_returns, 0);
    assert_eq!(stats.currently_in_use, 0);
    assert_eq!(hit_rate(&stats), 0.0);
}

#[test]
fn test_rapid_acquire_release() {
    let mut pool = pool_with(&[(128, 5)]);
    for _ in 0..1000 {
        let b = pool.acquire(100);
        pool.release(b);
    }
    let stats = pool.stats();
    assert_eq!(stats.total_acquires, 1000);
    assert_eq!(stats.currently_in_use, 0);
    assert!(hit_rate(&stats) > 99.0);
}

#[test]
fn test_config_from_map() {
    let mut pool = pool_with(&[(128, 10), (256, 20), (512, 15)]);
    let buf128 = pool.acquire(100);
    let buf256 = pool.acquire(200);
    let buf512 = pool.acquire(400);
    assert_eq!(buf128.len(), 128);
    assert_eq!(buf256.len(), 256);
    assert_eq!(buf512.len(), 512);
}

#[test]
fn released_buffers_are_zeroed_and_fallback_rounds_to_power_of_two() {
    let mut pool = pool_with(&[(128, 10)]);
    let mut buf = pool.acquire(10);
    buf.as_mut_slice()[3] = 7;
    pool.release(buf);
    let again = pool.acquire(10);
    assert!(again.as_slice().iter().all(|b| *b == 0));
    assert_eq!(pool.acquire(129).len(), 256);
    assert_eq!(pool.acquire(1000).len(), 1024);
    assert_eq!(pool.acquire(129).size_class(), 256);
}

#[test]
fn test_zerocopy_deserialization() {
    let msg = CounterUpdate { counter_id: 123, value: 456, delta: 0 };
    let bytes = msg.to_payload();
    let decoded: CounterUpdate = deserialize_message(&bytes).unwrap();
    assert_eq!(decoded.counter_id, 123);
    assert_eq!(decoded.value, 456);
}

#[test]
fn deserialize_rejects_wrong_length() {
    let result = deserialize_message::<CounterUpdate>(&[1, 2, 3]);
    assert!(matches!(result, Err(CodecError::DeserializationFailed)));
    assert_eq!(CodecError::DeserializationFailed.to_string(), "Deserialization failed");
    assert_eq!(CodecError::MessageTooLarge(20).to_string(), "Message too large: 20 bytes");
}

#[test]
fn test_error_display() {
    let err = TransportError::NoSubscribers { topic: "test_topic".to_string() };
    assert_eq!(err.to_string(), "No subscribers available for topic: test_topic");
    let err = TransportError::SendFailed;
    assert_eq!(err.to_string(), "Channel send failed");
    let err = TransportError::ChannelFull;
    assert_eq!(err.to_string(), "Channel is full (backpressure applied)");
    let err = TransportError::ChannelClosed;
    assert_eq!(err.to_string(), "Channel is closed (receiver dropped)");
    let err = TransportError::Timeout(std::time::Duration::from_secs(5));
    assert!(err.to_string().contains("timed out"));
    let err = TransportError::InvalidConfig("buffer too small".to_string());
    assert_eq!(err.to_string(), "Invalid configuration: buffer too small");
    let err = TransportError::ServiceNotFound("my_service".to_string());
    assert_eq!(err.to_string(), "Service not found: my_service");
}

#[test]
fn test_error_from_io() {
    let io_err = std::io::Error::new(std::io::ErrorKind::NotFound, "file not found");
    let err: TransportError = io_err.into();
    assert!(matches!(err, TransportError::Io(_)));
}

#[test]
fn test_result_type() {
    let ok_result: Result<i32> = Ok(42);
    assert_eq!(ok_result.unwrap(), 42);
    let err_result: Result<i32> = Err(TransportError::SendFailed);
    assert!(err_result.is_err());
}

#[test]
fn test_error_debug() {
    let err = TransportError::ChannelFull;
    let debug_str = format!("{:?}", err);
    assert_eq!(debug_str, "ChannelFull");
}

#[derive(Debug, Clone, PartialEq)]
struct TestMessage {
    value: i32,
}

struct SyncCounter {
    count: i32,
    last_value: i32,
}

impl MessageHandler<TestMessage> for SyncCounter {
    fn handle(&mut self, msg: &TestMessage) {
        self.count += 1;
        self.last_value = msg.value;
    }
}

#[test]
fn test_sync_handler() {
    let mut handler = SyncCounter { count: 0, last_value: 0 };
    let msg1 = TestMessage { value: 42 };
    handler.handle(&msg1);
    assert_eq!(handler.count, 1);
    assert_eq!(handler.last_value, 42);
    let msg2 = TestMessage { value: 100 };
    handler.handle(&msg2);
    assert_eq!(handler.count, 2);
    assert_eq!(handler.last_value, 100);
}

#[test]
fn test_sync_handler_multiple_calls() {
    let mut handler = SyncCounter { count: 0, last_value: 0 };
    for i in 0..100 {
        let msg = TestMessage { value: i };
        handler.handle(&msg);
    }
    assert_eq!(handler.count, 100);
    assert_eq!(handler.last_value, 99);
}

#[test]
fn test_drop_policy_default() {
    let policy = DropPolicy::default();
    assert_eq!(policy, DropPolicy::Block);
}

#[test]
fn test_spawn_options_default() {
    let opts = SpawnOptions::default();
    assert_eq!(opts.mailbox_capacity, Some(1000));
    assert_eq!(opts.drop_policy, DropPolicy::Block);
    assert!(opts.enable_metrics);
}

#[test]
fn test_spawn_options_unbounded() {
    let opts = SpawnOptions::unbounded();
    assert_eq!(opts.mailbox_capacity, None);
}

#[test]
fn test_spawn_options_builder() {
    let opts = SpawnOptions::with_capacity(500)
        .with_drop_policy(DropPolicy::DropOldest)
        .with_cpu_affinity(vec![0, 1])
        .with_metrics(false);
    assert_eq!(opts.mailbox_capacity, Some(500));
    assert_eq!(opts.drop_policy, DropPolicy::DropOldest);
    assert_eq!(opts.cpu_affinity, Some(vec![0, 1]));
    assert!(!opts.enable_metrics);
}

#[test]
fn test_mailbox_metrics() {
    let mut metrics = MailboxMetrics::new();
    metrics.record_drop();
    metrics.record_drop();
    assert_eq!(metrics.dropped(), 2);
    metrics.record_reject();
    assert_eq!(metrics.rejected(), 1);
    metrics.record_processed();
    metrics.record_processed();
    metrics.record_processed();
    assert_eq!(metrics.processed(), 3);
    metrics.set_queue_depth(42);
    assert_eq!(metrics.depth(), 42);
    metrics.update_max_latency(100);
    assert_eq!(metrics.max_latency(), 100);
    metrics.update_max_latency(50);
    assert_eq!(metrics.max_latency(), 100);
    metrics.update_max_latency(200);
    assert_eq!(metrics.max_latency(), 200);
}

#[test]
fn mailbox_counters_wrap_like_atomics() {
    let mut metrics = MailboxMetrics::new();
    metrics.dropped_messages = u64::MAX;
    metrics.record_drop();
    assert_eq!(metrics.dropped(), 0);
}

#[test]
fn test_health_status_checks() {
    assert!(HealthStatus::Healthy.is_healthy());
    assert!(HealthStatus::Healthy.is_operational());
    let degraded = HealthStatus::Degraded { reason: DegradedReason::HighLatency };
    assert!(degraded.is_degraded());
    assert!(degraded.is_operational());
    let unhealthy = HealthStatus::Unhealthy { reason: UnhealthyReason::FatalError };
    assert!(unhealthy.is_unhealthy());
    assert!(!unhealthy.is_operational());
}

#[test]
fn health_status_texts() {
    assert_eq!(HealthStatus::Healthy.to_string(), "healthy");
    let d = HealthStatus::Degraded { reason: DegradedReason::HighLoad };
    assert_eq!(d.to_string(), "degraded: HighLoad");
    let u = HealthStatus::Unhealthy { reason: UnhealthyReason::NotReady };
    assert_eq!(u.to_string(), "unhealthy: NotReady");
}

#[test]
fn test_supervision_strategy_default() {
    let strategy = SupervisionStrategy::default();
    assert_eq!(strategy, SupervisionStrategy::Resume);
}

#[test]
fn test_buffer_sizes_default() {
    let sizes = BufferSizes::default();
    assert_eq!(sizes.read_buffer, 64 * 1024);
    assert_eq!(sizes.write_buffer, 64 * 1024);
    assert_eq!(sizes.frame_buffer, 8 * 1024);
    assert_eq!(sizes.socket_buffer, 128 * 1024);
    assert_eq!(sizes.serialization_buffer, 1024);
}

#[test]
fn test_buffer_sizes_high_throughput() {
    let sizes = BufferSizes::for_high_throughput();
    assert_eq!(sizes.read_buffer, 1024 * 1024);
    assert_eq!(sizes.write_buffer, 1024 * 1024);
    assert!(sizes.total_memory_usage() > 3 * 1024 * 1024);
}

#[test]
fn test_buffer_sizes_low_latency() {
    let sizes = BufferSizes::for_low_latency();
    assert_eq!(sizes.read_buffer, 16 * 1024);
    assert_eq!(sizes.serialization_buffer, 256);
}

#[test]
fn test_buffer_sizes_memory_constrained() {
    let sizes = BufferSizes::for_memory_constrained();
    assert_eq!(sizes.read_buffer, 8 * 1024);
    assert_eq!(sizes.serialization_buffer, 128);
    assert!(sizes.total_memory_usage() < 40 * 1024);
}

#[test]
fn test_buffer_sizes_validate_success() {
    let sizes = BufferSizes::default();
    assert!(sizes.validate().is_ok());
    let sizes = BufferSizes::for_low_latency();
    assert!(sizes.validate().is_ok());
}

#[test]
fn test_buffer_sizes_validate_read_buffer_too_small() {
    let sizes = BufferSizes {
        read_buffer: 512,
        write_buffer: 2048,
        frame_buffer: 1024,
        socket_buffer: 4096,
        serialization_buffer: 256,
    };
    let result = sizes.validate();
    assert!(result.is_err());
    assert!(result.unwrap_err().to_string().contains("read_buffer"));
}

#[test]
fn test_buffer_sizes_validate_write_buffer_too_small() {
    let sizes = BufferSizes {
        read_buffer: 2048,
        write_buffer: 512,
        frame_buffer: 1024,
        socket_buffer: 4096,
        serialization_buffer: 256,
    };
    let result = sizes.validate();
    assert!(result.is_err());
    assert!(result.unwrap_err().to_string().contains("write_buffer"));
}

#[test]
fn test_buffer_sizes_validate_frame_buffer_too_small() {
    let sizes = BufferSizes {
        read_buffer: 2048,
        write_buffer: 2048,
        frame_buffer: 256,
        socket_buffer: 4096,
        serialization_buffer: 256,
    };
    let result = sizes.validate();
    assert!(result.is_err());
    assert!(result.unwrap_err().to_string().contains("frame_buffer"));
}

#[test]
fn buffer_sizes_validate_message_text() {
    let sizes = BufferSizes {
        read_buffer: 512,
        write_buffer: 2048,
        frame_buffer: 1024,
        socket_buffer: 4096,
        serialization_buffer: 256,
    };
    assert_eq!(
        sizes.validate().unwrap_err().to_string(),
        "Invalid configuration: read_buffer (512) must be at least 1024 bytes"
    );
}

#[test]
fn test_buffer_sizes_total_memory() {
    let sizes = BufferSizes {
        read_buffer: 1000,
        write_buffer: 2000,
        frame_buffer: 500,
        socket_buffer: 3000,
        serialization_buffer: 500,
    };
    assert_eq!(sizes.total_memory_usage(), 7000);
}

#[test]
fn test_enrich_error() {
    let err = TransportError::ServiceNotFound("my_service".to_string());
    let enriched = enrich_error(err, "context_info");
    assert_eq!(enriched.to_string(), "Service not found: context_info: my_service");
    let err = TransportError::SendFailed;
    let enriched = enrich_error(err, "context");
    assert!(matches!(enriched, TransportError::SendFailed));
}

#[test]
fn test_buffer_sizes_from_config() {
    let config = TransportConfig::default();
    let sizes = BufferSizes::from_config(&config);
    assert!(sizes.read_buffer >= 1024);
    assert!(sizes.validate().is_ok());
}

#[test]
fn buffer_sizes_scale_with_capacity() {
    let sizes = BufferSizes::from_config(&TransportConfig { channel_capacity: 8192 });
    assert_eq!(sizes.read_buffer, 8192 * 64);
    assert_eq!(sizes.frame_buffer, 8192 * 8);
    assert_eq!(sizes.socket_buffer, 8192 * 128);
    assert_eq!(sizes.serialization_buffer, 8192);
    let small = BufferSizes::from_config(&TransportConfig { channel_capacity: 10 });
    assert_eq!(small.read_buffer, 1024 * 64);
    assert_eq!(small.serialization_buffer, 4096);
}

#[test]
fn test_broadcast() {
    assert_eq!(TopicBuilder::broadcast("test"), "test");
    assert_eq!(TopicBuilder::broadcast("orderbook.updates"), "orderbook.updates");
}

#[test]
fn test_actor_mailbox() {
    let actor_id = ActorId::from_u64(0x123abc);
    let topic = TopicBuilder::actor_mailbox(actor_id);
    assert_eq!(topic, "actor.0000000000123abc");
}

#[test]
fn test_partition() {
    assert_eq!(TopicBuilder::partition("orderbook", 0), "orderbook.0");
    assert_eq!(TopicBuilder::partition("orderbook", 42), "orderbook.42");
}

#[test]
fn test_partition_by_hash() {
    assert_eq!(TopicBuilder::partition_by_hash("orderbook", 12345, 4), "orderbook.1");
    assert_eq!(TopicBuilder::partition_by_hash("test", 100, 3), "test.1");
    assert_eq!(TopicBuilder::partition_by_hash("test", 100, 0), "test.0");
}

#[test]
fn test_owned_buf() {
    let buf = OwnedBuf::from_vec(vec![1, 2, 3, 4]);
    assert_eq!(buf.len(), 4);
    assert_eq!(buf.as_slice(), &[1, 2, 3, 4]);
}

#[test]
fn test_owned_buf_copy_from() {
    let data = [1, 2, 3, 4];
    let buf = OwnedBuf::copy_from(&data);
    assert_eq!(buf.as_slice(), &[1, 2, 3, 4]);
}

#[test]
fn test_shared_view() {
    let data = vec![1, 2, 3, 4];
    let view = SharedView::from_slice(&data);
    assert_eq!(view.len(), 4);
    assert_eq!(view.as_slice(), &[1, 2, 3, 4]);
}

#[test]
fn test_shared_view_to_owned() {
    let data = vec![1, 2, 3, 4];
    let view = SharedView::from_slice(&data);
    let owned = view.to_owned();
    assert_eq!(owned.as_slice(), &[1, 2, 3, 4]);
}

#[test]
fn test_cow_borrowed() {
    let data = vec![1, 2, 3, 4];
    let cow = Cow::borrowed(&data);
    assert!(cow.is_borrowed());
    assert_eq!(cow.as_slice(), &[1, 2, 3, 4]);
}

#[test]
fn test_cow_owned() {
    let cow = Cow::owned(vec![1, 2, 3, 4]);
    assert!(cow.is_owned());
    assert_eq!(cow.as_slice(), &[1, 2, 3, 4]);
}

#[test]
fn test_cow_into_owned() {
    let data = vec![1, 2, 3, 4];
    let cow = Cow::borrowed(&data);
    let owned = cow.into_owned();
    assert_eq!(owned.as_slice(), &[1, 2, 3, 4]);
}

#[test]
fn test_cow_already_owned() {
    let cow = Cow::owned(vec![1, 2, 3, 4]);
    let owned = cow.into_owned();
    assert_eq!(owned.as_slice(), &[1, 2, 3, 4]);
}

#[test]
fn owned_buf_edits_in_place() {
    let mut buf = OwnedBuf::with_capacity(8);
    assert!(buf.is_empty());
    let mut buf2 = OwnedBuf::from_vec(vec![0, 0]);
    buf2.as_mut_slice()[1] = 9;
    assert_eq!(buf2.into_vec(), vec![0, 9]);
    buf = OwnedBuf::copy_from(&[]);
    assert_eq!(buf.len(), 0);
}
