//! Message envelopes: a type id, a topic and the message's payload bytes.
//!
//! An envelope carries a message without its static type; `downcast` gives
//! it back, checking the type id first and then the payload layout.
use vstd::prelude::*;
use crate::message::Message;
use crate::text::{decimal, push_decimal, push_str};

verus! {

/// Errors of envelope operations.
#[derive(Debug, Clone, Copy, PartialEq, Eq, Structural)]
pub enum EnvelopeError {
    /// The envelope holds another message type.
    TypeMismatch { expected: u16, got: u16 },
    /// The payload is not a message of the requested type.
    DowncastFailed,
}

impl EnvelopeError {
    /// Text of the error.
    pub fn to_string(&self) -> (r: String)
        ensures
            r@ == envelope_error_text(*self),
    {
        let mut s = String::new();
        match self {
            EnvelopeError::TypeMismatch { expected, got } => {
                push_str(&mut s, "Type mismatch: expected type ");
                push_decimal(&mut s, *expected as u64);
                push_str(&mut s, ", got type ");
                push_decimal(&mut s, *got as u64);
            },
            EnvelopeError::DowncastFailed => {
                push_str(&mut s, "Downcast failed: message is not of the expected type");
            },
        }
        s
    }
}

/// Text of an envelope error.
pub open spec fn envelope_error_text(e: EnvelopeError) -> Seq<char> {
    match e {
        EnvelopeError::TypeMismatch { expected, got } => "Type mismatch: expected type "@
            + decimal(expected as nat) + ", got type "@ + decimal(got as nat),
        EnvelopeError::DowncastFailed => "Downcast failed: message is not of the expected type"@,
    }
}

/// A type-erased message: its type id, its topic and its payload bytes.
#[derive(Debug)]
pub struct Envelope {
    /// Message type id.
    pub type_id: u16,
    /// Topic of the message.
    pub topic: String,
    /// Payload bytes of the message.
    pub payload: Vec<u8>,
}

/// True when an envelope with this type id and payload holds an `M`.
pub open spec fn downcast_ok<M: Message>(type_id: u16, payload: Seq<u8>) -> bool {
    type_id == M::TYPE_ID && M::payload_ok(payload)
}

impl Envelope {
    /// The payload bytes carried.
    pub open spec fn payload_bytes(&self) -> Seq<u8> {
        self.payload@
    }

    /// Wraps a message with its type id and topic.
    pub fn new<M: Message>(msg: M) -> (r: Self)
        requires
            msg.message_wf(),
        ensures
            r.type_id == M::TYPE_ID,
            r.topic@ == M::TOPIC@,
            r.payload_bytes() == msg.payload(),
    {
        let payload = msg.to_payload();
        Envelope { type_id: M::TYPE_ID, topic: M::TOPIC.to_owned(), payload }
    }

    /// Builds an envelope from its parts.
    pub fn from_raw(type_id: u16, topic: String, payload: Vec<u8>) -> (r: Self)
        ensures
            r.type_id == type_id,
            r.topic@ == topic@,
            r.payload_bytes() == payload@,
    {
        Envelope { type_id, topic, payload }
    }

    /// The payload bytes.
    pub fn payload(&self) -> (r: &[u8])
        ensures
            r@ == self.payload_bytes(),
    {
        self.payload.as_slice()
    }

    /// The message of type `M`, if the envelope holds one.
    ///
    /// Fails with `TypeMismatch` when the type id is not `M`'s, and with
    /// `DowncastFailed` when the payload is not an `M` payload.
    pub fn downcast<M: Message>(self) -> (r: Result<M, EnvelopeError>)
        ensures
            self.type_id != M::TYPE_ID ==> r == Err::<M, EnvelopeError>(
                EnvelopeError::TypeMismatch { expected: M::TYPE_ID, got: self.type_id },
            ),
            self.type_id == M::TYPE_ID && !M::payload_ok(self.payload_bytes()) ==> r == Err::<
                M,
                EnvelopeError,
            >(EnvelopeError::DowncastFailed),
            (r is Ok) == downcast_ok::<M>(self.type_id, self.payload_bytes()),
            self.type_id == M::TYPE_ID ==> ((r is Ok) == (self.payload_bytes().len()
                == M::payload_size())),
            r matches Ok(m) ==> m.message_wf() && m.payload() == self.payload_bytes(),
            r matches Ok(m) ==> forall|x: M|
                x.message_wf() && x.payload() == self.payload_bytes() ==> #[trigger] m.same_content(&x),
    {
        proof {
            M::lemma_payload_ok_is_size(self.payload_bytes());
        }
        if self.type_id != M::TYPE_ID {
            return Err(EnvelopeError::TypeMismatch { expected: M::TYPE_ID, got: self.type_id });
        }
        match M::from_payload(self.payload.as_slice()) {
            Some(m) => {
                proof {
                    assert forall|x: M| x.message_wf() && x.payload() == m.payload() implies #[trigger] m.same_content(&x) by {
                        M::lemma_payload_determines(m, x);
                    }
                }
                Ok(m)
            },
            None => Err(EnvelopeError::DowncastFailed),
        }
    }

    /// True when the envelope's type id is `M`'s.
    pub fn is<M: Message>(&self) -> (r: bool)
        ensures
            r == (self.type_id == M::TYPE_ID),
    {
        self.type_id == M::TYPE_ID
    }

    /// Reads the payload as an `M` without looking at the type id.
    pub fn downcast_any<M: Message>(self) -> (r: Result<M, EnvelopeError>)
        ensures
            (r is Ok) == M::payload_ok(self.payload_bytes()),
            (r is Ok) == (self.payload_bytes().len() == M::payload_size()),
            r is Err ==> r == Err::<M, EnvelopeError>(EnvelopeError::DowncastFailed),
            r matches Ok(m) ==> m.message_wf() && m.payload() == self.payload_bytes(),
            r matches Ok(m) ==> forall|x: M|
                x.message_wf() && x.payload() == self.payload_bytes() ==> #[trigger] m.same_content(&x),
    {
        proof {
            M::lemma_payload_ok_is_size(self.payload_bytes());
        }
        match M::from_payload(self.payload.as_slice()) {
            Some(m) => {
                proof {
                    assert forall|x: M| x.message_wf() && x.payload() == m.payload() implies #[trigger] m.same_content(&x) by {
                        M::lemma_payload_determines(m, x);
                    }
                }
                Ok(m)
            },
            None => Err(EnvelopeError::DowncastFailed),
        }
    }
}

impl Clone for Envelope {
    fn clone(&self) -> (r: Self)
        ensures
            r.type_id == self.type_id,
            r.topic@ == self.topic@,
            r.payload_bytes() == self.payload_bytes(),
    {
        Envelope {
            type_id: self.type_id,
            topic: self.topic.clone(),
            payload: self.payload.clone(),
        }
    }
}

/// What `Envelope::new` builds from a well-formed message, `downcast` to the
/// same message type accepts.
pub proof fn lemma_new_then_downcast<M: Message>(msg: M, e: Envelope)
    requires
        msg.message_wf(),
        e.type_id == M::TYPE_ID,
        e.payload_bytes() == msg.payload(),
    ensures
        downcast_ok::<M>(e.type_id, e.payload_bytes()),
{
    msg.lemma_payload_ok();
}

} // verus!
