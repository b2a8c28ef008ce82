use mycelium::backpressure::FlowController;
use mycelium::bridge_config::hex_digest;
use mycelium::endpoint_stats::EndpointStats;
use mycelium::local::envelope_builder;
use mycelium::message::{CounterUpdate, Message};
use mycelium::names::{first_duplicate, join_path};
use mycelium::ordered::SequenceTracker;
use mycelium::pow2::next_power_of_two;
use mycelium::raw::{BridgeFrame, RawMessage};
use mycelium::service_metrics::ServiceMetrics;
use mycelium::service_runtime::{generate_trace_id, Supervision, SupervisorStep};
use mycelium::shm_ring::{
    check_region_header, frame_fits_index, init_region, ring_read_frame,
    ring_state_ok, ring_write_frame, ShmError, SHM_HEADER_SIZE,
};
use mycelium::text::u64_to_decimal;
use mycelium::wire::{append_u16, append_u32, append_u64, read_u16, read_u32, read_u64};

#[test]
fn supervision_backs_off_then_gives_up() {
    let mut sup = Supervision::new();
    let mut metrics = ServiceMetrics::new();
    assert_eq!(sup.after_run(false, &mut metrics), SupervisorStep::RetryAfter { backoff_secs: 2 });
    assert_eq!(sup.after_run(false, &mut metrics), SupervisorStep::RetryAfter { backoff_secs: 4 });
    assert_eq!(sup.after_run(false, &mut metrics), SupervisorStep::RetryAfter { backoff_secs: 8 });
    assert_eq!(sup.after_run(false, &mut metrics), SupervisorStep::RetryAfter { backoff_secs: 16 });
    assert_eq!(sup.after_run(false, &mut metrics), SupervisorStep::GaveUp);
    assert_eq!(metrics.errors_total(), 5);
    assert_eq!(metrics.restarts_total(), 4);
}

#[test]
fn supervision_finishes_on_clean_run() {
    let mut sup = Supervision::new();
    let mut metrics = ServiceMetrics::new();
    assert_eq!(sup.after_run(false, &mut metrics), SupervisorStep::RetryAfter { backoff_secs: 2 });
    assert_eq!(sup.after_run(true, &mut metrics), SupervisorStep::Finished);
    assert_eq!(sup.retry_count, 1);
    assert_eq!(metrics.errors_total(), 1);
}

#[test]
fn trace_ids_are_sixteen_hex_digits_at_least() {
    assert_eq!(generate_trace_id(255), "00000000000000ff");
    assert_eq!(generate_trace_id(0x1_0000_0000_0000_0000), "10000000000000000");
}

fn fresh_ring(cap: usize, digest: [u8; 32]) -> Vec<u8> {
    let mut region = vec![0xAAu8; SHM_HEADER_SIZE + cap];
    init_region(&mut region, cap, &digest);
    region
}

#[test]
fn ring_write_then_read_frames() {
    let digest = [7u8; 32];
    let mut region = fresh_ring(64, digest);
    assert_eq!(check_region_header(&region, &digest).ok(), Some(64));
    assert!(matches!(check_region_header(&region, &[0u8; 32]), Err(ShmError::SchemaMismatch)));
    assert!(ring_state_ok(&region, 64));
    assert!(frame_fits_index(&region, 5));
    let mut wseq: u16 = 0;
    let mut rseq: u16 = 0;
    assert!(ring_write_frame(&mut region, 64, &mut wseq, 42, b"hello").is_ok());
    assert!(ring_write_frame(&mut region, 64, &mut wseq, 43, b"world!").is_ok());
    assert_eq!(wseq, 2);
    let first = ring_read_frame(&mut region, 64, &mut rseq).ok().unwrap();
    assert_eq!(first, Some((42, b"hello".to_vec())));
    let second = ring_read_frame(&mut region, 64, &mut rseq).ok().unwrap();
    assert_eq!(second, Some((43, b"world!".to_vec())));
    assert_eq!(ring_read_frame(&mut region, 64, &mut rseq).ok().unwrap(), None);
}

#[test]
fn ring_reports_full_and_wraps() {
    let digest = [1u8; 32];
    let mut region = fresh_ring(32, digest);
    let mut wseq: u16 = 0;
    let mut rseq: u16 = 0;
    assert!(ring_write_frame(&mut region, 32, &mut wseq, 1, &[9u8; 20]).is_ok());
    match ring_write_frame(&mut region, 32, &mut wseq, 2, &[8u8; 10]) {
        Err(ShmError::BufferFull { available, needed }) => {
            assert_eq!(available, 4);
            assert_eq!(needed, 18);
        }
        _ => panic!("expected a full ring"),
    }
    assert_eq!(wseq, 1);
    assert_eq!(ring_read_frame(&mut region, 32, &mut rseq).ok().unwrap(), Some((1, vec![9u8; 20])));
    assert!(ring_write_frame(&mut region, 32, &mut wseq, 2, &[8u8; 10]).is_ok());
    assert_eq!(ring_read_frame(&mut region, 32, &mut rseq).ok().unwrap(), Some((2, vec![8u8; 10])));
}

#[test]
fn ring_rejects_bad_frame_lengths() {
    let mut region = fresh_ring(64, [0u8; 32]);
    let mut wseq: u16 = 0;
    let mut rseq: u16 = 0;
    assert!(ring_write_frame(&mut region, 64, &mut wseq, 1, b"abc").is_ok());
    let before = region.clone();
    region[SHM_HEADER_SIZE..SHM_HEADER_SIZE + 4].copy_from_slice(&3u32.to_le_bytes());
    assert!(matches!(ring_read_frame(&mut region, 64, &mut rseq), Err(ShmError::InvalidFrameLength(3))));
    assert_eq!(rseq, 0);
    region[SHM_HEADER_SIZE..SHM_HEADER_SIZE + 4].copy_from_slice(&40u32.to_le_bytes());
    assert!(matches!(ring_read_frame(&mut region, 64, &mut rseq), Err(ShmError::InvalidFrameLength(40))));
    let mut region = before;
    assert_eq!(ring_read_frame(&mut region, 64, &mut rseq).ok().unwrap(), Some((1, b"abc".to_vec())));
}

#[test]
fn ring_detects_sequence_gap() {
    let mut region = fresh_ring(64, [0u8; 32]);
    let mut wseq: u16 = 5;
    let mut rseq: u16 = 0;
    assert!(ring_write_frame(&mut region, 64, &mut wseq, 1, b"x").is_ok());
    assert!(matches!(ring_read_frame(&mut region, 64, &mut rseq), Err(ShmError::CorruptedFrame)));
    assert_eq!(rseq, 0);
    assert!(!ring_state_ok(&region, 65));
}

#[test]
fn tracker_delivers_in_order_and_counts() {
    let mut t: SequenceTracker<&str> = SequenceTracker::new(10);
    assert_eq!(t.add_message("a"), Some("a"));
    assert_eq!(t.try_deliver(), None);
    assert_eq!(t.buffered_count(), 0);
    let s = t.stats();
    assert_eq!(s.total_received, 1);
    assert_eq!(s.in_order_delivered, 1);
}

#[test]
fn flow_window_closes_and_reopens() {
    let mut fc = FlowController::new(2);
    assert!(fc.can_send());
    assert!(fc.record_send());
    assert!(!fc.record_send());
    assert!(!fc.can_send());
    fc.record_receive();
    assert!(fc.can_send());
    let s = fc.get_stats();
    assert_eq!((s.window_size, s.total_sent, s.total_received), (2, 2, 1));
}

#[test]
fn endpoint_counters_and_metrics() {
    let mut stats = EndpointStats::default();
    stats.record_connection();
    stats.attach_metrics(ServiceMetrics::new());
    stats.record_forwarded();
    stats.record_forwarded();
    stats.record_handshake_failure();
    assert_eq!(stats.snapshot(), (1, 1, 2));
}

#[test]
fn metrics_counters_accumulate() {
    let mut m = ServiceMetrics::new();
    m.incr_counter("frames", 2);
    m.incr_counter("frames", 3);
    m.incr_counter("other", 1);
    assert_eq!(m.counter("frames"), Some(5));
    assert_eq!(m.counter("missing"), None);
    m.record_emit(10);
    m.record_emit(30);
    assert_eq!(m.emits_total(), 2);
    assert_eq!(m.emit_latency_us_avg(), 20);
    let mut snap = m.custom_counters_snapshot();
    snap.sort();
    assert_eq!(snap, vec![("frames".to_string(), 5), ("other".to_string(), 1)]);
}

#[test]
fn names_duplicates_and_paths() {
    let v = vec!["a".to_string(), "b".to_string(), "a".to_string()];
    assert_eq!(first_duplicate(&v), Some(2));
    assert_eq!(first_duplicate(&vec!["x".to_string()]), None);
    assert_eq!(join_path("/tmp/mycelium", "node.sock"), "/tmp/mycelium/node.sock");
    assert_eq!(join_path("/tmp/", "node.sock"), "/tmp/node.sock");
    assert_eq!(join_path("/tmp", "/abs"), "/abs");
}

#[test]
fn raw_frames_keep_their_bytes() {
    let msg = CounterUpdate { counter_id: 1, value: -2, delta: 3 };
    let frame = BridgeFrame::from_message(&msg);
    assert_eq!(frame.type_id, CounterUpdate::TYPE_ID);
    assert_eq!(frame.bytes.len(), 6 + 24);
    let raw = RawMessage::from_frame(frame.clone());
    assert_eq!(raw.type_id(), CounterUpdate::TYPE_ID);
    assert_eq!(raw.topic(), CounterUpdate::TOPIC);
    assert_eq!(raw.payload(), &frame.bytes[6..]);
    assert_eq!(raw.into_tlv(), frame.bytes);
}

#[test]
fn envelopes_built_from_payloads() {
    let msg = CounterUpdate { counter_id: 4, value: 5, delta: 6 };
    let env = envelope_builder::<CounterUpdate>(&msg.to_payload()).ok().unwrap();
    assert_eq!(env.type_id, CounterUpdate::TYPE_ID);
    assert!(envelope_builder::<CounterUpdate>(&[1, 2, 3]).is_err());
}

#[test]
fn numbers_in_text_and_bytes() {
    assert_eq!(u64_to_decimal(0), "0");
    assert_eq!(u64_to_decimal(18446744073709551615), "18446744073709551615");
    assert_eq!(next_power_of_two(0), 1);
    assert_eq!(next_power_of_two(5), 8);
    let mut b = Vec::new();
    append_u16(&mut b, 0x1234);
    append_u32(&mut b, 0xdeadbeef);
    append_u64(&mut b, 7);
    assert_eq!(b[0..2], [0x34, 0x12]);
    assert_eq!(read_u16(&b, 0), 0x1234);
    assert_eq!(read_u32(&b, 2), 0xdeadbeef);
    assert_eq!(read_u64(&b, 6), 7);
    let mut d = [0u8; 32];
    d[0] = 0xab;
    d[31] = 0x01;
    let h = hex_digest(&d);
    assert!(h.starts_with("ab00"));
    assert!(h.ends_with("0001"));
    assert_eq!(h.len(), 64);
}
