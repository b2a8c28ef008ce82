//! TLV codec: `[type_id: u16 LE][length: u32 LE][payload]`.
//!
//! Encoding and decoding are inverse: decoding the frame of a message gives
//! back a message with the same payload (`lemma_encode_then_decode`), and a
//! frame that decodes re-encodes to the same bytes (`lemma_decode_then_encode`).
use vstd::bytes::*;
use vstd::prelude::*;
use crate::message::{lemma_type_ids, BatchOperation, CounterUpdate, Message, TextMessage};
use crate::text::{decimal, push_decimal, push_str};
use crate::wire::{append_bytes, append_u16, append_u32, lemma_le_roundtrip, read_u16, read_u32};

verus! {

/// Header size: 2 bytes of type id and 4 bytes of length.
pub const HEADER_SIZE: usize = 6;

/// Largest payload accepted (16 MiB).
pub const MAX_PAYLOAD_SIZE: usize = 16777216;

/// What to do with a frame whose type id names no known message.
#[derive(Debug, Clone, Copy, PartialEq, Eq, Structural)]
pub enum UnknownTypePolicy {
    /// Return the frame as an `Unknown` message (forward compatibility).
    Skip,
    /// Return the frame as an `Unknown` message for inspection.
    Store,
    /// Fail with `UnknownType` (strict mode, the default).
    Fail,
}

impl Default for UnknownTypePolicy {
    fn default() -> (r: Self)
        ensures
            r == UnknownTypePolicy::Fail,
    {
        UnknownTypePolicy::Fail
    }
}

/// Codec errors.
#[derive(Debug, Clone, PartialEq)]
pub enum CodecError {
    /// Fewer bytes than the header or the declared payload needs.
    MessageTooSmall { need: usize, got: usize },
    /// Payload above `MAX_PAYLOAD_SIZE`.
    PayloadTooLarge { size: usize, max: usize },
    /// Type id that is not the expected or a known one.
    UnknownType(u16),
    /// Serialisation failed.
    SerializationFailed(String),
    /// The payload is not a valid image of the expected message.
    DeserializationFailed(String),
    /// Declared length differs from the bytes present.
    LengthMismatch { expected: usize, actual: usize },
}

/// Result type of the codec.
pub type CodecResult<T> = Result<T, CodecError>;

/// Text of a codec error.
pub open spec fn codec_error_text(e: CodecError) -> Seq<char> {
    match e {
        CodecError::MessageTooSmall { need, got } => "Message too small: need "@ + decimal(
            need as nat,
        ) + " bytes, got "@ + decimal(got as nat),
        CodecError::PayloadTooLarge { size, max } => "Payload too large: "@ + decimal(size as nat)
            + " bytes (max "@ + decimal(max as nat) + ")"@,
        CodecError::UnknownType(t) => "Unknown message type: "@ + decimal(t as nat),
        CodecError::SerializationFailed(m) => "Serialization failed: "@ + m@,
        CodecError::DeserializationFailed(m) => "Deserialization failed: "@ + m@,
        CodecError::LengthMismatch { expected, actual } => "Length mismatch: header says "@
            + decimal(expected as nat) + ", buffer has "@ + decimal(actual as nat),
    }
}

impl CodecError {
    /// Text of the error.
    pub fn to_string(&self) -> (r: String)
        ensures
            r@ == codec_error_text(*self),
    {
        let mut s = String::new();
        match self {
            CodecError::MessageTooSmall { need, got } => {
                push_str(&mut s, "Message too small: need ");
                push_decimal(&mut s, *need as u64);
                push_str(&mut s, " bytes, got ");
                push_decimal(&mut s, *got as u64);
            },
            CodecError::PayloadTooLarge { size, max } => {
                push_str(&mut s, "Payload too large: ");
                push_decimal(&mut s, *size as u64);
                push_str(&mut s, " bytes (max ");
                push_decimal(&mut s, *max as u64);
                push_str(&mut s, ")");
            },
            CodecError::UnknownType(t) => {
                push_str(&mut s, "Unknown message type: ");
                push_decimal(&mut s, *t as u64);
            },
            CodecError::SerializationFailed(m) => {
                push_str(&mut s, "Serialization failed: ");
                push_str(&mut s, m.as_str());
            },
            CodecError::DeserializationFailed(m) => {
                push_str(&mut s, "Deserialization failed: ");
                push_str(&mut s, m.as_str());
            },
            CodecError::LengthMismatch { expected, actual } => {
                push_str(&mut s, "Length mismatch: header says ");
                push_decimal(&mut s, *expected as u64);
                push_str(&mut s, ", buffer has ");
                push_decimal(&mut s, *actual as u64);
            },
        }
        s
    }
}

/// Header of a TLV frame.
#[derive(Debug, Clone, Copy, PartialEq, Eq, Structural)]
pub struct TlvHeader {
    pub type_id: u16,
    pub length: u32,
}

/// The frame carrying `payload` under `type_id`.
pub open spec fn frame(type_id: u16, payload: Seq<u8>) -> Seq<u8> {
    spec_u16_to_le_bytes(type_id) + spec_u32_to_le_bytes(payload.len() as u32) + payload
}

/// Type id field of a frame (meaningful when at least 6 bytes are present).
pub open spec fn frame_type_id(bytes: Seq<u8>) -> u16 {
    spec_u16_from_le_bytes(bytes.subrange(0, 2))
}

/// Length field of a frame (meaningful when at least 6 bytes are present).
pub open spec fn frame_length(bytes: Seq<u8>) -> u32 {
    spec_u32_from_le_bytes(bytes.subrange(2, 6))
}

/// Payload of a frame as its length field delimits it.
pub open spec fn frame_payload(bytes: Seq<u8>) -> Seq<u8> {
    bytes.subrange(6, 6 + frame_length(bytes) as int)
}

/// The outcome of `parse_header` on `bytes`.
pub open spec fn spec_parse_header(bytes: Seq<u8>) -> CodecResult<(TlvHeader, usize)> {
    if bytes.len() < 6 {
        Err(CodecError::MessageTooSmall { need: 6, got: bytes.len() as usize })
    } else if bytes.len() < 6 + frame_length(bytes) {
        Err(
            CodecError::MessageTooSmall {
                need: (6 + frame_length(bytes)) as usize,
                got: bytes.len() as usize,
            },
        )
    } else if frame_length(bytes) > MAX_PAYLOAD_SIZE {
        Err(
            CodecError::PayloadTooLarge {
                size: frame_length(bytes) as usize,
                max: MAX_PAYLOAD_SIZE,
            },
        )
    } else {
        Ok((TlvHeader { type_id: frame_type_id(bytes), length: frame_length(bytes) }, 6))
    }
}

/// True when `parse_header` accepts `bytes`.
pub open spec fn header_ok(bytes: Seq<u8>) -> bool {
    spec_parse_header(bytes) is Ok
}

/// True when `decode_message::<M>` succeeds on `bytes`.
pub open spec fn decodes_as<M: Message>(bytes: Seq<u8>) -> bool {
    &&& header_ok(bytes)
    &&& frame_type_id(bytes) == M::TYPE_ID
    &&& M::payload_ok(frame_payload(bytes))
}

/// Text of the error for a payload that fails to parse.
pub open spec fn deserialize_failure_text(n: nat) -> Seq<char> {
    "Failed to deserialize "@ + decimal(n) + "-byte payload"@
}

/// Text of the error for a payload of a known type that fails to parse.
pub open spec fn deserialize_failure_text_for(name: Seq<char>, n: nat) -> Seq<char> {
    "Failed to deserialize "@ + name + " from "@ + decimal(n) + "-byte payload"@
}

/// Encodes a message as a TLV frame.
///
/// Fails with `PayloadTooLarge` when the payload exceeds `MAX_PAYLOAD_SIZE`.
pub fn encode_message<M: Message>(message: &M) -> (r: CodecResult<Vec<u8>>)
    requires
        message.message_wf(),
    ensures
        message.payload().len() > MAX_PAYLOAD_SIZE ==> r == Err::<Vec<u8>, CodecError>(
            CodecError::PayloadTooLarge {
                size: message.payload().len() as usize,
                max: MAX_PAYLOAD_SIZE,
            },
        ),
        message.payload().len() <= MAX_PAYLOAD_SIZE ==> r is Ok && r->Ok_0@ == frame(
            M::TYPE_ID,
            message.payload(),
        ),
{
    let payload = message.to_payload();
    if payload.len() > MAX_PAYLOAD_SIZE {
        return Err(CodecError::PayloadTooLarge { size: payload.len(), max: MAX_PAYLOAD_SIZE });
    }
    let mut tlv: Vec<u8> = Vec::new();
    append_u16(&mut tlv, M::TYPE_ID);
    append_u32(&mut tlv, payload.len() as u32);
    append_bytes(&mut tlv, payload.as_slice());
    proof {
        assert(tlv@ =~= frame(M::TYPE_ID, message.payload()));
    }
    Ok(tlv)
}

/// Parses and checks the header of a TLV frame.
///
/// Returns the header and the offset of the payload (always `HEADER_SIZE`).
pub fn parse_header(bytes: &[u8]) -> (r: CodecResult<(TlvHeader, usize)>)
    ensures
        r == spec_parse_header(bytes@),
{
    let n = bytes.len();
    if n < HEADER_SIZE {
        return Err(CodecError::MessageTooSmall { need: HEADER_SIZE, got: n });
    }
    let type_id = read_u16(bytes, 0);
    let length = read_u32(bytes, 2);
    let payload_end: u64 = 6 + length as u64;
    if (n as u64) < payload_end {
        return Err(CodecError::MessageTooSmall { need: payload_end as usize, got: n });
    }
    if length as usize > MAX_PAYLOAD_SIZE {
        return Err(CodecError::PayloadTooLarge { size: length as usize, max: MAX_PAYLOAD_SIZE });
    }
    Ok((TlvHeader { type_id, length }, HEADER_SIZE))
}

/// Decodes a TLV frame as the message type `M`.
///
/// Fails with the header error, with `UnknownType` when the type id is not
/// `M::TYPE_ID`, and with `DeserializationFailed` when the payload is not a
/// payload of `M`.
pub fn decode_message<M: Message>(bytes: &[u8]) -> (r: CodecResult<M>)
    ensures
        (r is Ok) == decodes_as::<M>(bytes@),
        header_ok(bytes@) && frame_type_id(bytes@) == M::TYPE_ID ==> ((r is Ok) == (frame_payload(
            bytes@,
        ).len() == M::payload_size())),
        r matches Ok(m) ==> m.message_wf() && m.payload() == frame_payload(bytes@),
        r matches Ok(m) ==> forall|x: M|
            x.message_wf() && x.payload() == frame_payload(bytes@) ==> #[trigger] m.same_content(&x),
        !header_ok(bytes@) ==> (r matches Err(e) && Err::<(TlvHeader, usize), CodecError>(e)
            == spec_parse_header(bytes@)),
        header_ok(bytes@) && frame_type_id(bytes@) != M::TYPE_ID ==> r == Err::<M, CodecError>(
            CodecError::UnknownType(frame_type_id(bytes@)),
        ),
        header_ok(bytes@) && frame_type_id(bytes@) == M::TYPE_ID && !M::payload_ok(
            frame_payload(bytes@),
        ) ==> (r matches Err(CodecError::DeserializationFailed(s)) && s@
            == deserialize_failure_text(frame_length(bytes@) as nat)),
{
    proof {
        M::lemma_payload_ok_is_size(frame_payload(bytes@));
    }
    let (header, offset) = match parse_header(bytes) {
        Ok(h) => h,
        Err(e) => return Err(e),
    };
    if header.type_id != M::TYPE_ID {
        return Err(CodecError::UnknownType(header.type_id));
    }
    let end = offset + header.length as usize;
    let payload = &bytes[offset..end];
    match M::from_payload(payload) {
        Some(m) => {
            proof {
                assert forall|x: M| x.message_wf() && x.payload() == m.payload() implies #[trigger] m.same_content(&x) by {
                    M::lemma_payload_determines(m, x);
                }
            }
            Ok(m)
        },
        None => {
            let mut s = String::new();
            proof {
                reveal_strlit("Failed to deserialize ");
                reveal_strlit("-byte payload");
            }
            push_str(&mut s, "Failed to deserialize ");
            push_decimal(&mut s, payload.len() as u64);
            push_str(&mut s, "-byte payload");
            proof {
                assert(s@ =~= deserialize_failure_text(frame_length(bytes@) as nat));
            }
            Err(CodecError::DeserializationFailed(s))
        },
    }
}

/// A frame of a type that is not in the schema, kept as raw bytes.
#[derive(Debug, Clone, PartialEq)]
pub struct UnknownMessage {
    pub type_id: u16,
    pub payload: Vec<u8>,
}

/// Any message of the schema, or an unknown one.
#[derive(Debug, Clone)]
pub enum AnyMessage {
    TextMessage(TextMessage),
    CounterUpdate(CounterUpdate),
    BatchOperation(BatchOperation),
    Unknown(UnknownMessage),
}

/// True when `type_id` names a message of the schema.
pub open spec fn known_type(type_id: u16) -> bool {
    type_id == TextMessage::TYPE_ID || type_id == CounterUpdate::TYPE_ID || type_id
        == BatchOperation::TYPE_ID
}

/// True when `decode_any_message_with_policy` succeeds on `bytes`.
pub open spec fn decodes_any(bytes: Seq<u8>, policy: UnknownTypePolicy) -> bool {
    &&& header_ok(bytes)
    &&& (frame_type_id(bytes) == TextMessage::TYPE_ID ==> TextMessage::payload_ok(
        frame_payload(bytes),
    ))
    &&& (frame_type_id(bytes) == CounterUpdate::TYPE_ID ==> CounterUpdate::payload_ok(
        frame_payload(bytes),
    ))
    &&& (frame_type_id(bytes) == BatchOperation::TYPE_ID ==> BatchOperation::payload_ok(
        frame_payload(bytes),
    ))
    &&& (!known_type(frame_type_id(bytes)) ==> policy != UnknownTypePolicy::Fail)
}

/// The error text for a payload of type `name` that does not parse.
fn failure_for(name: &str, n: usize) -> (r: String)
    ensures
        r@ == deserialize_failure_text_for(name@, n as nat),
{
    let mut s = String::new();
    proof {
        reveal_strlit("Failed to deserialize ");
        reveal_strlit(" from ");
        reveal_strlit("-byte payload");
    }
    push_str(&mut s, "Failed to deserialize ");
    push_str(&mut s, name);
    push_str(&mut s, " from ");
    push_decimal(&mut s, n as u64);
    push_str(&mut s, "-byte payload");
    proof {
        assert(s@ =~= deserialize_failure_text_for(name@, n as nat));
    }
    s
}

/// What `decode_any_message_with_policy` gives for `bytes` under `policy`.
pub open spec fn decode_any_outcome(bytes: Seq<u8>, policy: UnknownTypePolicy, r: CodecResult<
    AnyMessage,
>) -> bool {
    &&& ((r is Ok) == decodes_any(bytes, policy))
    &&& (!header_ok(bytes) ==> (r matches Err(e) && Err::<(TlvHeader, usize), CodecError>(e)
        == spec_parse_header(bytes)))
    &&& (header_ok(bytes) ==> match r {
        Ok(AnyMessage::TextMessage(m)) => frame_type_id(bytes) == TextMessage::TYPE_ID
            && m.message_wf() && m.payload() == frame_payload(bytes),
        Ok(AnyMessage::CounterUpdate(m)) => frame_type_id(bytes) == CounterUpdate::TYPE_ID
            && m.payload() == frame_payload(bytes),
        Ok(AnyMessage::BatchOperation(m)) => frame_type_id(bytes) == BatchOperation::TYPE_ID
            && m.message_wf() && m.payload() == frame_payload(bytes),
        Ok(AnyMessage::Unknown(u)) => !known_type(frame_type_id(bytes)) && u.type_id
            == frame_type_id(bytes) && u.payload@ == frame_payload(bytes),
        Err(CodecError::UnknownType(t)) => !known_type(frame_type_id(bytes)) && t
            == frame_type_id(bytes) && policy == UnknownTypePolicy::Fail,
        Err(CodecError::DeserializationFailed(s)) => known_type(frame_type_id(bytes)) && s@
            == deserialize_failure_text_for(
            if frame_type_id(bytes) == TextMessage::TYPE_ID {
                "TextMessage"@
            } else if frame_type_id(bytes) == CounterUpdate::TYPE_ID {
                "CounterUpdate"@
            } else {
                "BatchOperation"@
            },
            frame_length(bytes) as nat,
        ),
        Err(_) => false,
    })
}

/// Decodes a TLV frame into any message of the schema, treating unknown type
/// ids as the policy says.
///
/// Known types decode as `decode_message` would; an unknown type fails with
/// `UnknownType` under `Fail` and becomes `AnyMessage::Unknown` with the
/// payload bytes under `Skip` and `Store`.
pub fn decode_any_message_with_policy(bytes: &[u8], policy: UnknownTypePolicy) -> (r: CodecResult<
    AnyMessage,
>)
    ensures
        decode_any_outcome(bytes@, policy, r),
{
    let (header, offset) = match parse_header(bytes) {
        Ok(h) => h,
        Err(e) => return Err(e),
    };
    let end = offset + header.length as usize;
    let payload = &bytes[offset..end];
    assert(payload@ == frame_payload(bytes@));
    proof {
        lemma_type_ids();
    }
    proof {
        reveal_strlit("TextMessage");
        reveal_strlit("CounterUpdate");
        reveal_strlit("BatchOperation");
    }
    if header.type_id == TextMessage::TYPE_ID {
        match TextMessage::from_payload(payload) {
            Some(m) => Ok(AnyMessage::TextMessage(m)),
            None => Err(CodecError::DeserializationFailed(failure_for("TextMessage", payload.len()))),
        }
    } else if header.type_id == CounterUpdate::TYPE_ID {
        match CounterUpdate::from_payload(payload) {
            Some(m) => Ok(AnyMessage::CounterUpdate(m)),
            None => Err(CodecError::DeserializationFailed(failure_for("CounterUpdate", payload.len()))),
        }
    } else if header.type_id == BatchOperation::TYPE_ID {
        match BatchOperation::from_payload(payload) {
            Some(m) => Ok(AnyMessage::BatchOperation(m)),
            None => Err(
                CodecError::DeserializationFailed(failure_for("BatchOperation", payload.len())),
            ),
        }
    } else {
        match policy {
            UnknownTypePolicy::Fail => Err(CodecError::UnknownType(header.type_id)),
            UnknownTypePolicy::Skip => {
                let mut p: Vec<u8> = Vec::new();
                append_bytes(&mut p, payload);
                Ok(AnyMessage::Unknown(UnknownMessage { type_id: header.type_id, payload: p }))
            },
            UnknownTypePolicy::Store => {
                let mut p: Vec<u8> = Vec::new();
                append_bytes(&mut p, payload);
                Ok(AnyMessage::Unknown(UnknownMessage { type_id: header.type_id, payload: p }))
            },
        }
    }
}

/// Decodes a TLV frame with the default policy (`Fail`).
pub fn decode_any_message(bytes: &[u8]) -> (r: CodecResult<AnyMessage>)
    ensures
        (r is Ok) == decodes_any(bytes@, UnknownTypePolicy::Fail),
        header_ok(bytes@) && !known_type(frame_type_id(bytes@)) ==> r == Err::<
            AnyMessage,
            CodecError,
        >(CodecError::UnknownType(frame_type_id(bytes@))),
        header_ok(bytes@) ==> match r {
            Ok(AnyMessage::TextMessage(m)) => frame_type_id(bytes@) == TextMessage::TYPE_ID
                && m.message_wf() && m.payload() == frame_payload(bytes@),
            Ok(AnyMessage::CounterUpdate(m)) => frame_type_id(bytes@) == CounterUpdate::TYPE_ID
                && m.payload() == frame_payload(bytes@),
            Ok(AnyMessage::BatchOperation(m)) => frame_type_id(bytes@) == BatchOperation::TYPE_ID
                && m.message_wf() && m.payload() == frame_payload(bytes@),
            Ok(AnyMessage::Unknown(_)) => false,
            Err(_) => true,
        },
        !header_ok(bytes@) ==> (r matches Err(e) && Err::<(TlvHeader, usize), CodecError>(e)
            == spec_parse_header(bytes@)),
{
    decode_any_message_with_policy(bytes, UnknownTypePolicy::Fail)
}

/// Law (bijection, one way): the frame of a well-formed message whose payload
/// fits decodes as that message type, and the decoded payload is the
/// message's payload.
pub proof fn lemma_encode_then_decode<M: Message>(m: M)
    requires
        m.message_wf(),
        m.payload().len() <= MAX_PAYLOAD_SIZE,
    ensures
        decodes_as::<M>(frame(M::TYPE_ID, m.payload())),
        frame_payload(frame(M::TYPE_ID, m.payload())) == m.payload(),
        spec_parse_header(frame(M::TYPE_ID, m.payload())) == Ok::<(TlvHeader, usize), CodecError>(
            (TlvHeader { type_id: M::TYPE_ID, length: m.payload().len() as u32 }, 6usize),
        ),
{
    lemma_le_roundtrip();
    m.lemma_payload_ok();
    let f = frame(M::TYPE_ID, m.payload());
    assert(f.subrange(0, 2) =~= spec_u16_to_le_bytes(M::TYPE_ID));
    assert(f.subrange(2, 6) =~= spec_u32_to_le_bytes(m.payload().len() as u32));
    assert(frame_payload(f) =~= m.payload());
}

/// Law (bijection, other way): a frame that decodes, with nothing after its
/// payload, is exactly the frame of the decoded value's payload.
pub proof fn lemma_decode_then_encode<M: Message>(bytes: Seq<u8>)
    requires
        decodes_as::<M>(bytes),
        bytes.len() == 6 + frame_length(bytes),
    ensures
        frame(M::TYPE_ID, frame_payload(bytes)) == bytes,
{
    lemma_le_roundtrip();
    assert(spec_u16_to_le_bytes(frame_type_id(bytes)) == bytes.subrange(0, 2));
    assert(spec_u32_to_le_bytes(frame_length(bytes)) == bytes.subrange(2, 6));
    assert(frame(M::TYPE_ID, frame_payload(bytes)) =~= bytes);
}

/// Two decoding results that agree: the same known message content, or the
/// same deserialization failure text.
pub open spec fn same_known_outcome(a: CodecResult<AnyMessage>, b: CodecResult<AnyMessage>) -> bool {
    match (a, b) {
        (Ok(AnyMessage::TextMessage(x)), Ok(AnyMessage::TextMessage(y))) => x.same_content(&y),
        (Ok(AnyMessage::CounterUpdate(x)), Ok(AnyMessage::CounterUpdate(y))) => x.same_content(&y),
        (Ok(AnyMessage::BatchOperation(x)), Ok(AnyMessage::BatchOperation(y))) => x.same_content(&y),
        (Err(CodecError::DeserializationFailed(s)), Err(CodecError::DeserializationFailed(t))) => s@
            == t@,
        _ => false,
    }
}

/// Law: for a frame of a type in the schema, the unknown-type policy makes no
/// difference: decoding under any two policies gives the same message content,
/// or the same failure.
pub proof fn lemma_known_type_ignores_policy(
    bytes: Seq<u8>,
    p1: UnknownTypePolicy,
    p2: UnknownTypePolicy,
    r1: CodecResult<AnyMessage>,
    r2: CodecResult<AnyMessage>,
)
    requires
        header_ok(bytes),
        known_type(frame_type_id(bytes)),
        decode_any_outcome(bytes, p1, r1),
        decode_any_outcome(bytes, p2, r2),
    ensures
        same_known_outcome(r1, r2),
{
    lemma_type_ids();
    match (r1, r2) {
        (Ok(AnyMessage::TextMessage(x)), Ok(AnyMessage::TextMessage(y))) => {
            TextMessage::lemma_payload_determines(x, y);
        },
        (Ok(AnyMessage::CounterUpdate(x)), Ok(AnyMessage::CounterUpdate(y))) => {
            CounterUpdate::lemma_payload_determines(x, y);
        },
        (Ok(AnyMessage::BatchOperation(x)), Ok(AnyMessage::BatchOperation(y))) => {
            BatchOperation::lemma_payload_determines(x, y);
        },
        _ => {},
    }
}

} // verus!
