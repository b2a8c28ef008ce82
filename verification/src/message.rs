//! The `Message` trait and the message types of the protocol schema.
//!
//! Each message has a TLV type identifier, a topic, and a fixed-size payload
//! layout: its fields in declaration order, integers little-endian, fixed
//! strings and vectors as their wire images.
use vstd::bytes::*;
use vstd::prelude::*;
use crate::fixed_vec::{FixedStr, FixedVec};
use crate::wire::{append_u32, append_u64, lemma_le_roundtrip, read_u32, read_u64};

verus! {

/// A message that can travel in a TLV frame.
///
/// Implementors give the payload layout as a spec function and prove that
/// parsing recognises exactly the layouts they write.
pub trait Message: Sized {
    /// Unique message type identifier (the TLV tag).
    const TYPE_ID: u16;

    /// Topic the message belongs to, for pub/sub routing.
    const TOPIC: &'static str;

    /// Well-formedness of a value.
    spec fn message_wf(&self) -> bool;

    /// Payload bytes of a value.
    spec fn payload(&self) -> Seq<u8>;

    /// True when `bytes` is the payload of some well-formed value.
    spec fn payload_ok(bytes: Seq<u8>) -> bool;

    /// Size in bytes of every payload of the type.
    spec fn payload_size() -> nat;

    /// Law: the payloads of the type are exactly the byte strings of its
    /// size.
    proof fn lemma_payload_ok_is_size(bytes: Seq<u8>)
        ensures
            Self::payload_ok(bytes) == (bytes.len() == Self::payload_size()),
    ;

    /// Serialises the payload.
    fn to_payload(&self) -> (r: Vec<u8>)
        requires
            self.message_wf(),
        ensures
            r@ == self.payload(),
    ;

    /// Parses a payload; `None` exactly when `bytes` is not a payload.
    fn from_payload(bytes: &[u8]) -> (r: Option<Self>)
        ensures
            (r is Some) == Self::payload_ok(bytes@),
            r matches Some(m) ==> m.message_wf() && m.payload() == bytes@,
    ;

    /// The payload of a well-formed value is recognised by `payload_ok`.
    proof fn lemma_payload_ok(&self)
        requires
            self.message_wf(),
        ensures
            Self::payload_ok(self.payload()),
    ;

    /// Two values hold the same content: every field equal, as `==`
    /// compares them.
    spec fn same_content(&self, other: &Self) -> bool;

    /// Law: the payload determines the value; two well-formed values with the
    /// same payload hold the same content.
    proof fn lemma_payload_determines(a: Self, b: Self)
        requires
            a.message_wf(),
            b.message_wf(),
            a.payload() == b.payload(),
        ensures
            a.same_content(&b),
    ;
}

/// A chat-style text message.
#[derive(Debug, Clone)]
pub struct TextMessage {
    /// Sender name.
    pub sender: FixedStr<32>,
    /// Message body.
    pub content: FixedStr<256>,
    /// Unix timestamp.
    pub timestamp: u64,
}

/// A counter change.
#[derive(Debug, Clone, Copy, PartialEq, Eq, Structural)]
pub struct CounterUpdate {
    /// Which counter.
    pub counter_id: u64,
    /// New value.
    pub value: i64,
    /// Change applied.
    pub delta: i64,
}

/// A batch of 20-byte items processed as one operation.
#[derive(Debug, Clone)]
pub struct BatchOperation {
    /// Operation identifier.
    pub operation_id: u64,
    /// Items of the batch.
    pub items: FixedVec<[u8; 20], 4>,
    /// Declared number of items.
    pub total_count: u32,
}

/// Payload size of `TextMessage`.
pub const TEXT_MESSAGE_SIZE: usize = 312;

/// Payload size of `CounterUpdate`.
pub const COUNTER_UPDATE_SIZE: usize = 24;

/// Payload size of `BatchOperation`.
pub const BATCH_OPERATION_SIZE: usize = 100;

impl Message for TextMessage {
    const TYPE_ID: u16 = 100;

    const TOPIC: &'static str = "messages";

    open spec fn message_wf(&self) -> bool {
        self.sender.wf() && self.content.wf()
    }

    open spec fn payload(&self) -> Seq<u8> {
        self.sender.wire() + self.content.wire() + spec_u64_to_le_bytes(self.timestamp)
    }

    open spec fn payload_ok(bytes: Seq<u8>) -> bool {
        bytes.len() == 312
    }

    open spec fn payload_size() -> nat {
        312
    }

    proof fn lemma_payload_ok_is_size(bytes: Seq<u8>) {
    }

    fn to_payload(&self) -> (r: Vec<u8>) {
        let mut out: Vec<u8> = Vec::new();
        self.sender.write_wire(&mut out);
        self.content.write_wire(&mut out);
        append_u64(&mut out, self.timestamp);
        proof {
            assert(out@ =~= self.payload());
        }
        out
    }

    fn from_payload(bytes: &[u8]) -> (r: Option<Self>) {
        if bytes.len() != 312 {
            return None;
        }
        let sender = match FixedStr::<32>::read_wire(&bytes[0..40]) {
            Some(s) => s,
            None => return None,
        };
        let content = match FixedStr::<256>::read_wire(&bytes[40..304]) {
            Some(s) => s,
            None => return None,
        };
        let timestamp = read_u64(bytes, 304);
        let r = TextMessage { sender, content, timestamp };
        proof {
            lemma_le_roundtrip();
            assert(spec_u64_to_le_bytes(timestamp) =~= bytes@.subrange(304, 312));
            assert(r.payload() =~= bytes@);
        }
        Some(r)
    }

    proof fn lemma_payload_ok(&self) {
        self.sender.lemma_wire();
        self.content.lemma_wire();
        lemma_le_roundtrip();
        assert(self.payload().subrange(0, 40) =~= self.sender.wire());
        assert(self.payload().subrange(40, 304) =~= self.content.wire());
    }

    open spec fn same_content(&self, other: &Self) -> bool {
        &&& self.sender.length_field() == other.sender.length_field()
        &&& self.sender.pad() == other.sender.pad()
        &&& self.sender.slots() == other.sender.slots()
        &&& self.content.length_field() == other.content.length_field()
        &&& self.content.pad() == other.content.pad()
        &&& self.content.slots() == other.content.slots()
        &&& self.timestamp == other.timestamp
    }

    proof fn lemma_payload_determines(a: Self, b: Self) {
        TextMessage::lemma_payload_injective(a, b);
    }
}

impl TextMessage {
    /// Two well-formed messages with the same payload have the same fields.
    pub proof fn lemma_payload_injective(a: Self, b: Self)
        requires
            a.message_wf(),
            b.message_wf(),
            a.payload() == b.payload(),
        ensures
            a.sender.view() == b.sender.view(),
            a.sender.slots() == b.sender.slots(),
            a.sender.length_field() == b.sender.length_field(),
            a.sender.pad() == b.sender.pad(),
            a.content.view() == b.content.view(),
            a.content.slots() == b.content.slots(),
            a.content.length_field() == b.content.length_field(),
            a.content.pad() == b.content.pad(),
            a.timestamp == b.timestamp,
    {
        a.sender.lemma_wire();
        a.content.lemma_wire();
        b.sender.lemma_wire();
        b.content.lemma_wire();
        lemma_le_roundtrip();
        assert(a.payload().subrange(0, 40) =~= a.sender.wire());
        assert(b.payload().subrange(0, 40) =~= b.sender.wire());
        assert(a.payload().subrange(40, 304) =~= a.content.wire());
        assert(b.payload().subrange(40, 304) =~= b.content.wire());
        assert(a.payload().subrange(304, 312) =~= spec_u64_to_le_bytes(a.timestamp));
        assert(b.payload().subrange(304, 312) =~= spec_u64_to_le_bytes(b.timestamp));
        FixedStr::<32>::lemma_wire_injective(a.sender, b.sender);
        FixedStr::<256>::lemma_wire_injective(a.content, b.content);
    }
}

impl Message for CounterUpdate {
    const TYPE_ID: u16 = 101;

    const TOPIC: &'static str = "counters";

    open spec fn message_wf(&self) -> bool {
        true
    }

    open spec fn payload(&self) -> Seq<u8> {
        spec_u64_to_le_bytes(self.counter_id) + spec_u64_to_le_bytes(self.value as u64)
            + spec_u64_to_le_bytes(self.delta as u64)
    }

    open spec fn payload_ok(bytes: Seq<u8>) -> bool {
        bytes.len() == 24
    }

    open spec fn payload_size() -> nat {
        24
    }

    proof fn lemma_payload_ok_is_size(bytes: Seq<u8>) {
    }

    fn to_payload(&self) -> (r: Vec<u8>) {
        let mut out: Vec<u8> = Vec::new();
        append_u64(&mut out, self.counter_id);
        append_u64(&mut out, self.value as u64);
        append_u64(&mut out, self.delta as u64);
        proof {
            assert(out@ =~= self.payload());
        }
        out
    }

    fn from_payload(bytes: &[u8]) -> (r: Option<Self>) {
        if bytes.len() != 24 {
            return None;
        }
        let counter_id = read_u64(bytes, 0);
        let v = read_u64(bytes, 8);
        let d = read_u64(bytes, 16);
        let r = CounterUpdate { counter_id, value: v as i64, delta: d as i64 };
        proof {
            lemma_le_roundtrip();
            assert((v as i64) as u64 == v) by (bit_vector);
            assert((d as i64) as u64 == d) by (bit_vector);
            assert(spec_u64_to_le_bytes(counter_id) =~= bytes@.subrange(0, 8));
            assert(spec_u64_to_le_bytes(v) =~= bytes@.subrange(8, 16));
            assert(spec_u64_to_le_bytes(d) =~= bytes@.subrange(16, 24));
            assert(r.payload() =~= bytes@);
        }
        Some(r)
    }

    proof fn lemma_payload_ok(&self) {
        lemma_le_roundtrip();
    }

    open spec fn same_content(&self, other: &Self) -> bool {
        *self == *other
    }

    proof fn lemma_payload_determines(a: Self, b: Self) {
        CounterUpdate::lemma_payload_injective(a, b);
    }
}

impl CounterUpdate {
    /// Two messages with the same payload are the same message.
    pub proof fn lemma_payload_injective(a: Self, b: Self)
        requires
            a.payload() == b.payload(),
        ensures
            a == b,
    {
        lemma_le_roundtrip();
        assert(a.payload().subrange(0, 8) =~= spec_u64_to_le_bytes(a.counter_id));
        assert(b.payload().subrange(0, 8) =~= spec_u64_to_le_bytes(b.counter_id));
        assert(a.payload().subrange(8, 16) =~= spec_u64_to_le_bytes(a.value as u64));
        assert(b.payload().subrange(8, 16) =~= spec_u64_to_le_bytes(b.value as u64));
        assert(a.payload().subrange(16, 24) =~= spec_u64_to_le_bytes(a.delta as u64));
        assert(b.payload().subrange(16, 24) =~= spec_u64_to_le_bytes(b.delta as u64));
        let (av, bv, ad, bd) = (a.value, b.value, a.delta, b.delta);
        assert((av as u64) == (bv as u64) ==> av == bv) by (bit_vector);
        assert((ad as u64) == (bd as u64) ==> ad == bd) by (bit_vector);
    }
}

impl Message for BatchOperation {
    const TYPE_ID: u16 = 102;

    const TOPIC: &'static str = "batch";

    open spec fn message_wf(&self) -> bool {
        self.items.wf()
    }

    open spec fn payload(&self) -> Seq<u8> {
        spec_u64_to_le_bytes(self.operation_id) + self.items.wire() + spec_u32_to_le_bytes(
            self.total_count,
        )
    }

    open spec fn payload_ok(bytes: Seq<u8>) -> bool {
        bytes.len() == 100
    }

    open spec fn payload_size() -> nat {
        100
    }

    proof fn lemma_payload_ok_is_size(bytes: Seq<u8>) {
    }

    fn to_payload(&self) -> (r: Vec<u8>) {
        let mut out: Vec<u8> = Vec::new();
        append_u64(&mut out, self.operation_id);
        self.items.write_wire(&mut out);
        append_u32(&mut out, self.total_count);
        proof {
            assert(out@ =~= self.payload());
        }
        out
    }

    fn from_payload(bytes: &[u8]) -> (r: Option<Self>) {
        if bytes.len() != 100 {
            return None;
        }
        let operation_id = read_u64(bytes, 0);
        let items = match FixedVec::<[u8; 20], 4>::read_wire(&bytes[8..96]) {
            Some(v) => v,
            None => return None,
        };
        let total_count = read_u32(bytes, 96);
        let r = BatchOperation { operation_id, items, total_count };
        proof {
            lemma_le_roundtrip();
            assert(spec_u64_to_le_bytes(operation_id) =~= bytes@.subrange(0, 8));
            assert(spec_u32_to_le_bytes(total_count) =~= bytes@.subrange(96, 100));
            assert(r.payload() =~= bytes@);
        }
        Some(r)
    }

    proof fn lemma_payload_ok(&self) {
        self.items.lemma_wire();
        lemma_le_roundtrip();
        assert(self.payload().subrange(8, 96) =~= self.items.wire());
    }

    open spec fn same_content(&self, other: &Self) -> bool {
        &&& self.operation_id == other.operation_id
        &&& self.items.length_field() == other.items.length_field()
        &&& self.items.pad() == other.items.pad()
        &&& self.items.slots() == other.items.slots()
        &&& self.total_count == other.total_count
    }

    proof fn lemma_payload_determines(a: Self, b: Self) {
        BatchOperation::lemma_payload_injective(a, b);
    }
}

impl BatchOperation {
    /// Two well-formed messages with the same payload have the same fields.
    pub proof fn lemma_payload_injective(a: Self, b: Self)
        requires
            a.message_wf(),
            b.message_wf(),
            a.payload() == b.payload(),
        ensures
            a.operation_id == b.operation_id,
            a.items.view() == b.items.view(),
            a.items.slots() == b.items.slots(),
            a.items.length_field() == b.items.length_field(),
            a.items.pad() == b.items.pad(),
            a.total_count == b.total_count,
    {
        a.items.lemma_wire();
        b.items.lemma_wire();
        lemma_le_roundtrip();
        assert(a.payload().subrange(0, 8) =~= spec_u64_to_le_bytes(a.operation_id));
        assert(b.payload().subrange(0, 8) =~= spec_u64_to_le_bytes(b.operation_id));
        assert(a.payload().subrange(8, 96) =~= a.items.wire());
        assert(b.payload().subrange(8, 96) =~= b.items.wire());
        assert(a.payload().subrange(96, 100) =~= spec_u32_to_le_bytes(a.total_count));
        assert(b.payload().subrange(96, 100) =~= spec_u32_to_le_bytes(b.total_count));
        FixedVec::<[u8; 20], 4>::lemma_wire_injective(a.items, b.items);
    }
}

/// The type identifiers of the schema's messages.
pub proof fn lemma_type_ids()
    ensures
        TextMessage::TYPE_ID == 100,
        CounterUpdate::TYPE_ID == 101,
        BatchOperation::TYPE_ID == 102,
{
}

} // verus!
