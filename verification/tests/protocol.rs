use mycelium::codec::{
    decode_any_message, decode_any_message_with_policy, decode_message, encode_message,
    parse_header, AnyMessage, CodecError, UnknownTypePolicy, HEADER_SIZE,
};
use mycelium::envelope::{Envelope, EnvelopeError};
use mycelium::fixed_vec::{FixedStr, FixedVec, FixedVecError};
use mycelium::message::{BatchOperation, CounterUpdate, Message, TextMessage};
use mycelium::routing::{ActorId, CorrelationId, Destination, TraceId};

fn text(sender: &str, content: &str, timestamp: u64) -> TextMessage {
    TextMessage {
        sender: FixedStr::from_str(sender).unwrap(),
        content: FixedStr::from_str(content).unwrap(),
        timestamp,
    }
}

fn unknown_frame(type_id: u16, payload: &[u8]) -> Vec<u8> {
    let mut bytes = Vec::new();
    bytes.extend_from_slice(&type_id.to_le_bytes());
    bytes.extend_from_slice(&(payload.len() as u32).to_le_bytes());
    bytes.extend_from_slice(payload);
    bytes
}

#[test]
fn test_encode_decode_text_message() {
    let original = text("alice", "Hello, World!", 1234567890);
    let bytes = encode_message(&original).unwrap();
    assert_eq!(&bytes[0..2], &TextMessage::TYPE_ID.to_le_bytes());
    assert!(bytes.len() > HEADER_SIZE);
    let decoded: TextMessage = decode_message(&bytes).unwrap();
    assert_eq!(decoded.sender.as_str().unwrap(), "alice");
    assert_eq!(decoded.content.as_str().unwrap(), "Hello, World!");
    assert_eq!(decoded.timestamp, 1234567890);
}

#[test]
fn test_encode_decode_counter_update() {
    let original = CounterUpdate { counter_id: 42, value: 100, delta: 5 };
    let bytes = encode_message(&original).unwrap();
    let decoded: CounterUpdate = decode_message(&bytes).unwrap();
    assert_eq!(decoded.counter_id, 42);
    assert_eq!(decoded.value, 100);
    assert_eq!(decoded.delta, 5);
}

#[test]
fn test_encode_decode_batch_operation() {
    let items = vec![[1; 20], [2; 20], [3; 20]];
    let original = BatchOperation {
        operation_id: 999,
        items: FixedVec::from_slice(&items).unwrap(),
        total_count: 3,
    };
    let bytes = encode_message(&original).unwrap();
    let decoded: BatchOperation = decode_message(&bytes).unwrap();
    assert_eq!(decoded.operation_id, 999);
    assert_eq!(decoded.items.len(), 3);
    assert_eq!(decoded.total_count, 3);
}

#[test]
fn test_decode_any_message() {
    let msg = text("bob", "test", 999);
    let bytes = encode_message(&msg).unwrap();
    match decode_any_message(&bytes).unwrap() {
        AnyMessage::TextMessage(decoded) => {
            assert_eq!(decoded.sender.as_str().unwrap(), "bob");
        }
        _ => panic!("Expected TextMessage"),
    }
    let counter = CounterUpdate { counter_id: 5, value: 10, delta: 1 };
    let bytes = encode_message(&counter).unwrap();
    match decode_any_message(&bytes).unwrap() {
        AnyMessage::CounterUpdate(msg) => assert_eq!(msg.counter_id, 5),
        _ => panic!("Expected CounterUpdate"),
    }
}

#[test]
fn test_bijection_property() {
    let original = CounterUpdate { counter_id: 1, value: 50, delta: 10 };
    let bytes1 = encode_message(&original).unwrap();
    let decoded: CounterUpdate = decode_message(&bytes1).unwrap();
    let bytes2 = encode_message(&decoded).unwrap();
    assert_eq!(bytes1, bytes2);
}

#[test]
fn test_parse_header() {
    let msg = text("test", "header test", 0);
    let bytes = encode_message(&msg).unwrap();
    let (header, offset) = parse_header(&bytes).unwrap();
    assert_eq!(header.type_id, TextMessage::TYPE_ID);
    assert_eq!(offset, HEADER_SIZE);
    assert!(header.length > 0);
}

#[test]
fn test_error_message_too_small() {
    let bytes = vec![0, 1, 2];
    let result = parse_header(&bytes);
    assert!(matches!(result, Err(CodecError::MessageTooSmall { .. })));
}

#[test]
fn test_error_unknown_type() {
    let mut bytes = vec![0; HEADER_SIZE + 10];
    bytes[0..2].copy_from_slice(&9999u16.to_le_bytes());
    bytes[2..6].copy_from_slice(&10u32.to_le_bytes());
    let result = decode_any_message(&bytes);
    assert!(matches!(result, Err(CodecError::UnknownType(9999))));
}

#[test]
fn test_roundtrip_all_types() {
    let msg = text("alice", "test", 123);
    let bytes = encode_message(&msg).unwrap();
    let decoded: TextMessage = decode_message(&bytes).unwrap();
    assert_eq!(msg.sender.as_str().unwrap(), decoded.sender.as_str().unwrap());

    let counter = CounterUpdate { counter_id: 42, value: 100, delta: 5 };
    let bytes = encode_message(&counter).unwrap();
    let decoded: CounterUpdate = decode_message(&bytes).unwrap();
    assert_eq!(counter.counter_id, decoded.counter_id);

    let items = vec![[1; 20], [2; 20]];
    let batch = BatchOperation {
        operation_id: 999,
        items: FixedVec::from_slice(&items).unwrap(),
        total_count: 2,
    };
    let bytes = encode_message(&batch).unwrap();
    let decoded: BatchOperation = decode_message(&bytes).unwrap();
    assert_eq!(batch.operation_id, decoded.operation_id);
}

#[test]
fn test_unknown_type_fail_policy() {
    let bytes = unknown_frame(9999, &[1, 2, 3, 4]);
    let result = decode_any_message(&bytes);
    assert!(matches!(result, Err(CodecError::UnknownType(9999))));
}

#[test]
fn test_unknown_type_skip_policy() {
    let bytes = unknown_frame(9999, &[1, 2, 3, 4]);
    let result = decode_any_message_with_policy(&bytes, UnknownTypePolicy::Skip);
    assert!(result.is_ok());
    match result.unwrap() {
        AnyMessage::Unknown(msg) => {
            assert_eq!(msg.type_id, 9999);
            assert_eq!(msg.payload, vec![1, 2, 3, 4]);
        }
        _ => panic!("Expected Unknown variant"),
    }
}

#[test]
fn test_unknown_type_store_policy() {
    let bytes = unknown_frame(8888, &[0xDE, 0xAD, 0xBE, 0xEF]);
    let result = decode_any_message_with_policy(&bytes, UnknownTypePolicy::Store);
    assert!(result.is_ok());
    match result.unwrap() {
        AnyMessage::Unknown(msg) => {
            assert_eq!(msg.type_id, 8888);
            assert_eq!(msg.payload, vec![0xDE, 0xAD, 0xBE, 0xEF]);
        }
        _ => panic!("Expected Unknown variant"),
    }
}

#[test]
fn test_known_type_with_policy() {
    let msg = text("test", "content", 999);
    let bytes = encode_message(&msg).unwrap();
    for policy in [UnknownTypePolicy::Fail, UnknownTypePolicy::Skip, UnknownTypePolicy::Store] {
        let result = decode_any_message_with_policy(&bytes, policy);
        assert!(result.is_ok());
        match result.unwrap() {
            AnyMessage::TextMessage(decoded) => {
                assert_eq!(decoded.sender.as_str().unwrap(), "test");
            }
            _ => panic!("Expected TextMessage"),
        }
    }
}

#[test]
fn codec_error_texts() {
    let e = CodecError::MessageTooSmall { need: 6, got: 3 };
    assert_eq!(e.to_string(), "Message too small: need 6 bytes, got 3");
    let e = CodecError::PayloadTooLarge { size: 20000000, max: 16777216 };
    assert_eq!(e.to_string(), "Payload too large: 20000000 bytes (max 16777216)");
    assert_eq!(CodecError::UnknownType(42).to_string(), "Unknown message type: 42");
    let e = CodecError::LengthMismatch { expected: 10, actual: 4 };
    assert_eq!(e.to_string(), "Length mismatch: header says 10, buffer has 4");
}

#[test]
fn decode_truncated_frame_is_too_small() {
    let counter = CounterUpdate { counter_id: 1, value: 2, delta: 3 };
    let bytes = encode_message(&counter).unwrap();
    let result = decode_message::<CounterUpdate>(&bytes[..bytes.len() - 1]);
    assert!(matches!(result, Err(CodecError::MessageTooSmall { need: 30, got: 29 })));
}

#[test]
fn decode_with_wrong_type_is_unknown_type() {
    let counter = CounterUpdate { counter_id: 1, value: 2, delta: 3 };
    let bytes = encode_message(&counter).unwrap();
    let result = decode_message::<TextMessage>(&bytes);
    assert!(matches!(result, Err(CodecError::UnknownType(101))));
}

#[test]
fn type_ids_and_topics() {
    assert_eq!(TextMessage::TYPE_ID, 100);
    assert_eq!(CounterUpdate::TYPE_ID, 101);
    assert_eq!(BatchOperation::TYPE_ID, 102);
    assert_eq!(TextMessage::TOPIC, "messages");
    assert_eq!(CounterUpdate::TOPIC, "counters");
    assert_eq!(BatchOperation::TOPIC, "batch");
}

#[test]
fn test_envelope_creation() {
    let msg = CounterUpdate { counter_id: 42, value: 0, delta: 0 };
    let envelope = Envelope::new(msg);
    assert_eq!(envelope.type_id, 101);
    assert_eq!(envelope.topic, "counters");
    assert!(envelope.is::<CounterUpdate>());
}

#[test]
fn test_envelope_downcast_success() {
    let msg = CounterUpdate { counter_id: 42, value: 7, delta: 1 };
    let envelope = Envelope::new(msg);
    let downcasted = envelope.downcast::<CounterUpdate>().unwrap();
    assert_eq!(downcasted.counter_id, 42);
}

#[test]
fn test_envelope_downcast_type_mismatch() {
    let msg = CounterUpdate { counter_id: 42, value: 0, delta: 0 };
    let envelope = Envelope::new(msg);
    let result = envelope.downcast::<TextMessage>();
    assert!(matches!(result, Err(EnvelopeError::TypeMismatch { expected: 100, got: 101 })));
}

#[test]
fn test_envelope_clone() {
    let msg = CounterUpdate { counter_id: 42, value: 0, delta: 0 };
    let envelope = Envelope::new(msg);
    let cloned = envelope.clone();
    assert_eq!(cloned.type_id, 101);
    assert_eq!(cloned.topic, "counters");
    let _ = cloned.downcast::<CounterUpdate>().unwrap();
}

#[test]
fn envelope_with_bad_payload_fails_downcast() {
    let envelope = Envelope::from_raw(101, "counters".to_string(), vec![1, 2, 3]);
    assert!(matches!(envelope.clone().downcast::<CounterUpdate>(), Err(EnvelopeError::DowncastFailed)));
    assert!(matches!(envelope.downcast_any::<CounterUpdate>(), Err(EnvelopeError::DowncastFailed)));
    let e = EnvelopeError::TypeMismatch { expected: 100, got: 101 };
    assert_eq!(e.to_string(), "Type mismatch: expected type 100, got type 101");
}

#[test]
fn test_fixed_vec_basic_operations() {
    let mut vec: FixedVec<u32, 4> = FixedVec::new();
    assert_eq!(vec.len(), 0);
    assert!(vec.is_empty());
    assert_eq!(FixedVec::<u32, 4>::capacity(), 4);
    assert!(vec.try_push(10).is_ok());
    assert!(vec.try_push(20).is_ok());
    assert_eq!(vec.len(), 2);
    assert!(!vec.is_empty());
    assert_eq!(vec.get(0), Some(&10));
    assert_eq!(vec.get(1), Some(&20));
    assert_eq!(vec.get(2), None);
    assert_eq!(vec.as_slice(), &[10, 20]);
}

#[test]
fn test_fixed_vec_capacity_exceeded() {
    let mut vec: FixedVec<u32, 2> = FixedVec::new();
    assert!(vec.try_push(1).is_ok());
    assert!(vec.try_push(2).is_ok());
    let result = vec.try_push(3);
    assert!(matches!(result, Err(FixedVecError::CapacityExceeded { .. })));
}

#[test]
fn test_fixed_vec_from_slice() {
    let slice = &[1u32, 2, 3];
    let vec: FixedVec<u32, 5> = FixedVec::from_slice(slice).unwrap();
    assert_eq!(vec.len(), 3);
    assert_eq!(vec.as_slice(), slice);
    assert_eq!(vec.to_vec(), vec![1, 2, 3]);
}

#[test]
fn test_fixed_vec_bijection() {
    let original = vec![10u32, 20, 30, 40];
    let fixed_vec: FixedVec<u32, 8> = FixedVec::from_slice(&original).unwrap();
    let recovered = fixed_vec.to_vec();
    assert_eq!(original, recovered);
}

#[test]
fn test_fixed_str_basic_operations() {
    let mut s: FixedStr<16> = FixedStr::new();
    assert_eq!(s.len(), 0);
    assert!(s.is_empty());
    assert_eq!(FixedStr::<16>::capacity(), 16);
    s = FixedStr::from_str("hello").unwrap();
    assert_eq!(s.len(), 5);
    assert!(!s.is_empty());
    assert_eq!(s.as_str().unwrap(), "hello");
}

#[test]
fn test_fixed_str_capacity_exceeded() {
    let long_str = "This string is definitely longer than 8 characters";
    let result = FixedStr::<8>::from_str(long_str);
    assert!(matches!(result, Err(FixedVecError::InvalidLength { .. })));
}

#[test]
fn test_zerocopy_roundtrip_fixed_vec() {
    let mut vec: FixedVec<[u8; 20], 4> = FixedVec::new();
    vec.try_push([1; 20]).unwrap();
    vec.try_push([2; 20]).unwrap();
    let mut bytes = Vec::new();
    vec.write_wire(&mut bytes);
    let deserialized = FixedVec::<[u8; 20], 4>::read_wire(&bytes).unwrap();
    assert_eq!(deserialized.len(), 2);
    assert_eq!(deserialized.get(0), Some(&[1; 20]));
    assert_eq!(deserialized.get(1), Some(&[2; 20]));
}

#[test]
fn test_zerocopy_roundtrip_fixed_str() {
    let s = FixedStr::<32>::from_str("Hello").unwrap();
    let mut bytes = Vec::new();
    s.write_wire(&mut bytes);
    let deserialized = FixedStr::<32>::read_wire(&bytes).unwrap();
    assert_eq!(deserialized.as_str().unwrap(), "Hello");
}

#[test]
fn fixed_wire_keeps_any_count_and_padding() {
    let mut bytes = vec![0u8; 8 + 80];
    bytes[0] = 5;
    bytes[3] = 9;
    bytes[8] = 1;
    let v = FixedVec::<[u8; 20], 4>::read_wire(&bytes).unwrap();
    assert_eq!(v.len(), 5);
    assert_eq!(v.get(0), Some(&{
        let mut item = [0u8; 20];
        item[0] = 1;
        item
    }));
    let mut out = Vec::new();
    v.write_wire(&mut out);
    assert_eq!(out, bytes);
    let mut bytes = vec![b'a'; 40];
    bytes[0] = 33;
    bytes[1] = 0;
    let s = FixedStr::<32>::read_wire(&bytes).unwrap();
    assert_eq!(s.len(), 33);
    let mut out = Vec::new();
    s.write_wire(&mut out);
    assert_eq!(out, bytes);
    assert!(FixedVec::<[u8; 20], 4>::read_wire(&bytes).is_none());
    assert!(FixedStr::<32>::read_wire(&bytes[..39]).is_none());
}

#[test]
fn payload_of_the_right_size_always_decodes() {
    let mut payload = vec![0u8; 312];
    payload[0] = 40;
    payload[5] = 7;
    let msg = TextMessage::from_payload(&payload).unwrap();
    assert_eq!(msg.sender.len(), 40);
    assert_eq!(msg.to_payload(), payload);
    let mut frame = Vec::new();
    frame.extend_from_slice(&100u16.to_le_bytes());
    frame.extend_from_slice(&312u32.to_le_bytes());
    frame.extend_from_slice(&payload);
    let decoded = decode_message::<TextMessage>(&frame).unwrap();
    assert_eq!(decoded.to_payload(), payload);
    let batch = vec![0xFFu8; 100];
    assert_eq!(BatchOperation::from_payload(&batch).unwrap().to_payload(), batch);
    assert!(TextMessage::from_payload(&payload[..311]).is_none());
}

#[test]
fn test_message_trait() {
    assert_eq!(CounterUpdate::TYPE_ID, 101);
    assert_eq!(CounterUpdate::TOPIC, "counters");
}

#[test]
fn test_zerocopy_roundtrip() {
    let original = CounterUpdate { counter_id: 42, value: 100, delta: -3 };
    let bytes = original.to_payload();
    assert_eq!(bytes.len(), 24);
    let deserialized = CounterUpdate::from_payload(&bytes).unwrap();
    assert_eq!(original, deserialized);
}

#[test]
fn test_destination_default() {
    assert_eq!(Destination::default(), Destination::Broadcast);
}

#[test]
fn test_actor_id_creation() {
    let id1 = ActorId::new();
    let id2 = ActorId::new();
    assert_ne!(id1, id2);
    let id3 = ActorId::from_u64(42);
    assert_eq!(id3.as_u64(), 42);
}

#[test]
fn test_actor_id_display() {
    let id = ActorId::from_u64(0x123456789abcdef0);
    assert_eq!(id.to_string(), "123456789abcdef0");
}

#[test]
fn test_correlation_id_creation() {
    let id1 = CorrelationId::new();
    let id2 = CorrelationId::new();
    assert_ne!(id1, id2);
    let id3 = CorrelationId::from_u128(42);
    assert_eq!(id3.as_u128(), 42);
}

#[test]
fn test_correlation_id_display() {
    let id = CorrelationId::from_u128(0x123456789abcdef0);
    let formatted = id.to_string();
    assert_eq!(formatted, "0000000000000000123456789abcdef0");
    assert_eq!(formatted.len(), 32);
}

#[test]
fn test_destination_variants() {
    let broadcast = Destination::Broadcast;
    let unicast = Destination::Unicast(ActorId::from_u64(1));
    let partition = Destination::Partition(42);
    assert_ne!(broadcast, unicast);
    assert_ne!(broadcast, partition);
    assert_ne!(unicast, partition);
}

#[test]
fn test_trace_id_creation() {
    let id1 = TraceId::new();
    let id2 = TraceId::new();
    assert_ne!(id1, id2);
    let id3 = TraceId::from_u128(42);
    assert_eq!(id3.as_u128(), 42);
}

#[test]
fn test_trace_id_display() {
    let id = TraceId::from_u128(0x123456789abcdef0);
    let formatted = id.to_string();
    assert_eq!(formatted, "0000000000000000123456789abcdef0");
    assert_eq!(formatted.len(), 32);
}

#[test]
fn actor_id_display_pads_small_values() {
    assert_eq!(ActorId::from_u64(0x123abc).to_string(), "0000000000123abc");
}

#[test]
fn fixed_vec_unused_slots_stay_zeroed() {
    let mut v: FixedVec<u32, 4> = FixedVec::new();
    assert_eq!(v.as_array(), &[0u32; 4]);
    v.as_array_mut(0, 7);
    v.as_array_mut(1, 8);
    v.as_array_mut(2, 9);
    v.set_count(3);
    assert_eq!(v.as_slice(), &[7, 8, 9]);
    v.set_count(1);
    assert_eq!(v.as_slice(), &[7]);
    assert_eq!(v.as_array(), &[7, 0, 0, 0]);
    v.clear();
    assert!(v.is_empty());
    assert_eq!(v.as_array(), &[0u32; 4]);
}

#[test]
fn decoded_message_equals_encoded_one() {
    let original = CounterUpdate { counter_id: 1, value: 50, delta: 10 };
    let bytes = encode_message(&original).unwrap();
    assert_eq!(decode_message::<CounterUpdate>(&bytes).unwrap(), original);
    assert_eq!(encode_message(&decode_message::<CounterUpdate>(&bytes).unwrap()).unwrap(), bytes);
}

#[test]
fn try_push_keeps_other_slots() {
    let mut v: FixedVec<u32, 3> = FixedVec::new();
    v.as_array_mut(2, 9);
    assert!(v.try_push(1).is_ok());
    assert_eq!(v.as_array(), &[1, 0, 9]);
    assert!(v.try_push(2).is_ok());
    assert!(v.try_push(3).is_ok());
    assert!(matches!(v.try_push(4), Err(FixedVecError::CapacityExceeded { max_capacity: 3, attempted: 4 })));
    assert_eq!(v.as_array(), &[1, 2, 3]);
}
