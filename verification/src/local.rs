//! Building envelopes from received payloads.
use vstd::prelude::*;
use crate::envelope::Envelope;
use crate::error::TransportError;
use crate::message::Message;
use crate::stream_codec::{deserialize_message, CodecError};

verus! {

/// The envelope of a payload received for message type `M`; fails with a
/// codec error when the bytes are not an `M` payload.
pub fn envelope_builder<M: Message>(payload: &[u8]) -> (r: Result<Envelope, TransportError>)
    ensures
        (r is Ok) == M::payload_ok(payload@),
        (r is Ok) == (payload@.len() == M::payload_size()),
        r matches Ok(e) ==> e.type_id == M::TYPE_ID && e.topic@ == M::TOPIC@ && e.payload@
            == payload@,
        !M::payload_ok(payload@) ==> r matches Err(
            TransportError::Codec(CodecError::DeserializationFailed),
        ),
{
    match deserialize_message::<M>(payload) {
        Ok(msg) => Ok(Envelope::new(msg)),
        Err(e) => Err(TransportError::Codec(e)),
    }
}

} // verus!
