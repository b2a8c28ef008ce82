//! Framing of messages on byte streams: the computations around reading and
//! writing TLV frames. Reading and writing the stream itself is left to the
//! caller.
//!
//! A frame written for a message is the protocol frame of its payload; a
//! header read from a stream is accepted when its length is within
//! `MAX_PAYLOAD_SIZE`.
use vstd::prelude::*;
use crate::buffer_pool::{size_class_for, BufferPool, PooledBuffer};
use crate::codec::{
    codec_error_text,
    frame,
    frame_length,
    frame_type_id,
    CodecError as ProtocolCodecError,
    HEADER_SIZE,
    MAX_PAYLOAD_SIZE,
};
use crate::error::io_error_text;
use crate::message::Message;
use crate::text::{decimal, push_decimal, push_str};
use crate::wire::{append_bytes, append_u16, append_u32, lemma_le_roundtrip, read_u16, read_u32, zeros};

verus! {

/// Errors of stream framing.
#[derive(Debug)]
pub enum CodecError {
    /// Reading or writing the stream failed.
    Io(std::io::Error),
    /// The protocol codec refused the bytes.
    ProtocolCodec(ProtocolCodecError),
    /// A payload above `MAX_PAYLOAD_SIZE`.
    MessageTooLarge(usize),
    /// The payload is not an image of the expected message.
    DeserializationFailed,
}

/// True when `text` is the text of `e` (for an I/O error, by its prefix).
pub open spec fn stream_codec_error_describes(e: CodecError, text: Seq<char>) -> bool {
    match e {
        CodecError::Io(_) => "IO error: "@.is_prefix_of(text),
        CodecError::ProtocolCodec(x) => text == "Protocol codec error: "@ + codec_error_text(x),
        CodecError::MessageTooLarge(n) => text == "Message too large: "@ + decimal(n as nat)
            + " bytes"@,
        CodecError::DeserializationFailed => text == "Deserialization failed"@,
    }
}

impl CodecError {
    /// Text of the error.
    pub fn to_string(&self) -> (r: String)
        ensures
            stream_codec_error_describes(*self, r@),
    {
        let mut s = String::new();
        match self {
            CodecError::Io(e) => {
                push_str(&mut s, "IO error: ");
                let t = io_error_text(e);
                push_str(&mut s, t.as_str());
                proof {
                    reveal_strlit("IO error: ");
                    assert(s@.subrange(0, 10) =~= "IO error: "@);
                }
            },
            CodecError::ProtocolCodec(x) => {
                push_str(&mut s, "Protocol codec error: ");
                let t = x.to_string();
                push_str(&mut s, t.as_str());
            },
            CodecError::MessageTooLarge(n) => {
                push_str(&mut s, "Message too large: ");
                push_decimal(&mut s, *n as u64);
                push_str(&mut s, " bytes");
            },
            CodecError::DeserializationFailed => {
                push_str(&mut s, "Deserialization failed");
            },
        }
        s
    }
}

impl From<std::io::Error> for CodecError {
    fn from(e: std::io::Error) -> (r: Self) {
        CodecError::Io(e)
    }
}

impl vstd::std_specs::convert::FromSpecImpl<std::io::Error> for CodecError {
    open spec fn obeys_from_spec() -> bool {
        true
    }

    open spec fn from_spec(e: std::io::Error) -> Self {
        CodecError::Io(e)
    }
}

impl From<ProtocolCodecError> for CodecError {
    fn from(e: ProtocolCodecError) -> (r: Self) {
        CodecError::ProtocolCodec(e)
    }
}

impl vstd::std_specs::convert::FromSpecImpl<ProtocolCodecError> for CodecError {
    open spec fn obeys_from_spec() -> bool {
        true
    }

    open spec fn from_spec(e: ProtocolCodecError) -> Self {
        CodecError::ProtocolCodec(e)
    }
}

/// The frame to write for a message: its type id, its payload length and
/// its payload. Fails with `MessageTooLarge` when the payload exceeds
/// `MAX_PAYLOAD_SIZE`.
pub fn frame_message<M: Message>(msg: &M) -> (r: Result<Vec<u8>, CodecError>)
    requires
        msg.message_wf(),
    ensures
        msg.payload().len() > MAX_PAYLOAD_SIZE ==> (r matches Err(CodecError::MessageTooLarge(n))
            && n == msg.payload().len()),
        msg.payload().len() <= MAX_PAYLOAD_SIZE ==> (r matches Ok(bytes) && bytes@ == frame(
            M::TYPE_ID,
            msg.payload(),
        )),
{
    let payload = msg.to_payload();
    let len = payload.len();
    if len > MAX_PAYLOAD_SIZE {
        return Err(CodecError::MessageTooLarge(len));
    }
    let mut out: Vec<u8> = Vec::new();
    append_u16(&mut out, M::TYPE_ID);
    append_u32(&mut out, len as u32);
    append_bytes(&mut out, payload.as_slice());
    proof {
        assert(out@ =~= frame(M::TYPE_ID, msg.payload()));
    }
    Ok(out)
}

/// Checks a frame header read from a stream and gives its type id and
/// payload length. Fails with `MessageTooLarge` for a length above
/// `MAX_PAYLOAD_SIZE`.
pub fn parse_frame_header(header: &[u8]) -> (r: Result<(u16, usize), CodecError>)
    requires
        header@.len() == HEADER_SIZE,
    ensures
        frame_length(header@) > MAX_PAYLOAD_SIZE ==> (r matches Err(CodecError::MessageTooLarge(n))
            && n == frame_length(header@)),
        frame_length(header@) <= MAX_PAYLOAD_SIZE ==> (r matches Ok((t, n)) && t == frame_type_id(
            header@,
        ) && n == frame_length(header@)),
{
    let type_id = read_u16(header, 0);
    let len = read_u32(header, 2);
    if len as usize > MAX_PAYLOAD_SIZE {
        return Err(CodecError::MessageTooLarge(len as usize));
    }
    Ok((type_id, len as usize))
}

/// The bytes of a frame read in two parts: the header, then the payload.
pub fn assemble_frame(header: &[u8], payload: &[u8]) -> (r: Vec<u8>)
    ensures
        r@ == header@ + payload@,
{
    let mut out: Vec<u8> = Vec::new();
    append_bytes(&mut out, header);
    append_bytes(&mut out, payload);
    proof {
        assert(out@ =~= header@ + payload@);
    }
    out
}

/// A pooled buffer for the frame whose header was read: it holds the
/// header followed by zeros up to the frame's length, ready for the payload
/// to be read into it. Fails with `MessageTooLarge`, acquiring nothing, for a
/// length above `MAX_PAYLOAD_SIZE`.
pub fn acquire_frame_buffer(pool: &mut BufferPool, header: &[u8]) -> (r: Result<
    (u16, PooledBuffer),
    CodecError,
>)
    requires
        old(pool).wf(),
        old(pool)@.stats.total_acquires < u64::MAX,
        old(pool)@.stats.currently_in_use < usize::MAX,
        header@.len() == HEADER_SIZE,
    ensures
        final(pool).wf(),
        frame_length(header@) > MAX_PAYLOAD_SIZE ==> (r matches Err(CodecError::MessageTooLarge(n))
            && n == frame_length(header@) && final(pool)@ == old(pool)@),
        frame_length(header@) <= MAX_PAYLOAD_SIZE ==> (r matches Ok((t, b)) && t == frame_type_id(
            header@,
        ) && b@ == header@ + zeros(frame_length(header@) as nat) && b.class() as nat
            == size_class_for(old(pool)@.size_classes, (HEADER_SIZE + frame_length(header@)) as usize)
            && final(pool)@.size_classes == old(pool)@.size_classes && final(pool)@.stats.total_acquires
            == old(pool)@.stats.total_acquires + 1 && final(pool)@.stats.currently_in_use
            == old(pool)@.stats.currently_in_use + 1),
{
    let (type_id, len) = match parse_frame_header(header) {
        Ok(x) => x,
        Err(e) => {
            return Err(e);
        },
    };
    let total = HEADER_SIZE + len;
    let mut buffer = pool.acquire(total);
    buffer.resize(total, 0);
    buffer.copy_prefix(header);
    proof {
        assert(buffer@ =~= header@ + zeros(frame_length(header@) as nat));
    }
    Ok((type_id, buffer))
}

/// Reads a payload as a message of type `M`; fails with
/// `DeserializationFailed` when the bytes are not an `M` payload.
pub fn deserialize_message<M: Message>(bytes: &[u8]) -> (r: Result<M, CodecError>)
    ensures
        (r is Ok) == M::payload_ok(bytes@),
        (r is Ok) == (bytes@.len() == M::payload_size()),
        r matches Ok(m) ==> m.message_wf() && m.payload() == bytes@,
        r matches Ok(m) ==> forall|x: M|
            x.message_wf() && x.payload() == bytes@ ==> #[trigger] m.same_content(&x),
        !M::payload_ok(bytes@) ==> r matches Err(CodecError::DeserializationFailed),
{
    proof {
        M::lemma_payload_ok_is_size(bytes@);
    }
    match M::from_payload(bytes) {
        Some(m) => {
            proof {
                assert forall|x: M| x.message_wf() && x.payload() == m.payload() implies #[trigger] m.same_content(&x) by {
                    M::lemma_payload_determines(m, x);
                }
            }
            Ok(m)
        },
        None => Err(CodecError::DeserializationFailed),
    }
}

/// As `deserialize_message`; message types carry no further invariant to
/// check beyond their payload layout.
pub fn deserialize_message_validated<M: Message>(bytes: &[u8]) -> (r: Result<M, CodecError>)
    ensures
        (r is Ok) == M::payload_ok(bytes@),
        (r is Ok) == (bytes@.len() == M::payload_size()),
        r matches Ok(m) ==> m.message_wf() && m.payload() == bytes@,
        r matches Ok(m) ==> forall|x: M|
            x.message_wf() && x.payload() == bytes@ ==> #[trigger] m.same_content(&x),
        !M::payload_ok(bytes@) ==> r matches Err(CodecError::DeserializationFailed),
{
    deserialize_message::<M>(bytes)
}

/// The frame written for a message parses back to its type id and payload
/// length.
pub proof fn lemma_frame_header_roundtrip(type_id: u16, payload: Seq<u8>)
    requires
        payload.len() <= MAX_PAYLOAD_SIZE,
    ensures
        frame_type_id(frame(type_id, payload)) == type_id,
        frame_length(frame(type_id, payload)) == payload.len(),
        frame(type_id, payload).subrange(HEADER_SIZE as int, frame(type_id, payload).len() as int)
            == payload,
{
    lemma_le_roundtrip();
    let f = frame(type_id, payload);
    assert(f.subrange(0, 2) =~= vstd::bytes::spec_u16_to_le_bytes(type_id));
    assert(f.subrange(2, 6) =~= vstd::bytes::spec_u32_to_le_bytes(payload.len() as u32));
    assert(f.subrange(6, f.len() as int) =~= payload);
}

} // verus!
