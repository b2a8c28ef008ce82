//! Raw TLV frames as the message bus hands them to foreign runtimes.
//!
//! A frame made from a message holds the protocol frame of its payload; the
//! raw message made from a frame gives back that payload.
use vstd::prelude::*;
use crate::codec::{frame, HEADER_SIZE};
use crate::message::Message;
use crate::wire::{append_bytes, append_u16, append_u32};

verus! {

/// A TLV frame (type id, length, payload) with the message's topic.
#[derive(Debug, Clone)]
pub struct BridgeFrame {
    /// Message type id.
    pub type_id: u16,
    /// Topic of the message.
    pub topic: String,
    /// The whole frame.
    pub bytes: Vec<u8>,
}

impl BridgeFrame {
    /// The frame of a message.
    pub fn from_message<M: Message>(msg: &M) -> (r: Self)
        requires
            msg.message_wf(),
            msg.payload().len() <= u32::MAX,
        ensures
            r.type_id == M::TYPE_ID,
            r.topic@ == M::TOPIC@,
            r.bytes@ == frame(M::TYPE_ID, msg.payload()),
    {
        let payload = msg.to_payload();
        Self::from_parts(M::TYPE_ID, M::TOPIC.to_owned(), payload.as_slice())
    }

    /// The frame of a payload of type `type_id` on `topic`.
    pub fn from_parts(type_id: u16, topic: String, payload: &[u8]) -> (r: Self)
        requires
            payload@.len() <= u32::MAX,
        ensures
            r.type_id == type_id,
            r.topic@ == topic@,
            r.bytes@ == frame(type_id, payload@),
    {
        let len = payload.len();
        let mut buffer: Vec<u8> = Vec::new();
        append_u16(&mut buffer, type_id);
        append_u32(&mut buffer, len as u32);
        append_bytes(&mut buffer, payload);
        proof {
            assert(buffer@ =~= frame(type_id, payload@));
        }
        BridgeFrame { type_id, topic, bytes: buffer }
    }
}

/// A frame read from a stream: its type id and its bytes.
#[derive(Debug, Clone)]
pub struct RawFrame {
    pub type_id: u16,
    pub bytes: Vec<u8>,
}

/// What a raw message holds.
pub struct RawMessageView {
    pub type_id: u16,
    pub topic: Seq<char>,
    pub bytes: Seq<u8>,
}

/// The payload part of a frame: what follows the header, or nothing for a
/// frame no longer than its header.
pub open spec fn frame_body(bytes: Seq<u8>) -> Seq<u8> {
    if bytes.len() <= HEADER_SIZE {
        Seq::empty()
    } else {
        bytes.subrange(HEADER_SIZE as int, bytes.len() as int)
    }
}

/// A TLV frame emitted by the bus, readable without the message type.
#[derive(Debug, Clone)]
pub struct RawMessage {
    type_id: u16,
    topic: String,
    bytes: Vec<u8>,
}

impl View for RawMessage {
    type V = RawMessageView;

    closed spec fn view(&self) -> RawMessageView {
        RawMessageView { type_id: self.type_id, topic: self.topic@, bytes: self.bytes@ }
    }
}

impl RawMessage {
    /// The message type id.
    pub fn type_id(&self) -> (r: u16)
        ensures
            r == self@.type_id,
    {
        self.type_id
    }

    /// The topic.
    pub fn topic(&self) -> (r: &str)
        ensures
            r@ == self@.topic,
    {
        self.topic.as_str()
    }

    /// The payload: the frame without its header.
    pub fn payload(&self) -> (r: &[u8])
        ensures
            r@ == frame_body(self@.bytes),
    {
        let n = self.bytes.len();
        if n <= HEADER_SIZE {
            &[]
        } else {
            let s = self.bytes.as_slice();
            &s[HEADER_SIZE..n]
        }
    }

    /// The raw message of a frame.
    pub fn from_frame(frame: BridgeFrame) -> (r: Self)
        ensures
            r@ == (RawMessageView {
                type_id: frame.type_id,
                topic: frame.topic@,
                bytes: frame.bytes@,
            }),
    {
        RawMessage { type_id: frame.type_id, topic: frame.topic, bytes: frame.bytes }
    }

    /// The whole frame.
    pub fn into_tlv(self) -> (r: Vec<u8>)
        ensures
            r@ == self@.bytes,
    {
        self.bytes
    }
}

/// The raw message of a message's frame gives back the message's payload.
pub proof fn lemma_frame_payload(type_id: u16, payload: Seq<u8>)
    requires
        payload.len() > 0,
        payload.len() <= u32::MAX,
    ensures
        frame_body(frame(type_id, payload)) == payload,
{
    vstd::bytes::lemma_auto_spec_u16_to_from_le_bytes();
    vstd::bytes::lemma_auto_spec_u32_to_from_le_bytes();
    let f = frame(type_id, payload);
    assert(f.subrange(HEADER_SIZE as int, f.len() as int) =~= payload);
}

} // verus!
