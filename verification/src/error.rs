//! Transport errors and their texts.
use vstd::prelude::*;
use crate::envelope::{envelope_error_text, EnvelopeError};
use crate::stream_codec::{stream_codec_error_describes, CodecError};
use crate::text::push_str;

verus! {

#[verifier::external_type_specification]
#[verifier::external_body]
pub struct ExIoError(std::io::Error);

/// Calls `Display` of `std::io::Error` (through `to_string`); its text is
/// the operating system's message, which nothing here states.
#[verifier::external_body]
pub(crate) fn io_error_text(e: &std::io::Error) -> String {
    e.to_string()
}

/// The error that `std::io::Error::new(ErrorKind::InvalidData, msg)` builds
/// for the message `msg`.
pub uninterp spec fn invalid_data_of(msg: Seq<char>) -> std::io::Error;

/// Calls `std::io::Error::new` with `ErrorKind::InvalidData` and the message;
/// the error is named by its message.
#[verifier::external_body]
pub(crate) fn invalid_data_error(msg: String) -> (r: std::io::Error)
    ensures
        r == invalid_data_of(msg@),
{
    std::io::Error::new(std::io::ErrorKind::InvalidData, msg)
}

/// Calls `Debug` of `std::time::Duration` (through `format!`); the exact
/// text (such as `5s` or `10ms`) is not stated.
#[verifier::external_body]
pub(crate) fn duration_debug_text(d: &std::time::Duration) -> String {
    format!("{:?}", d)
}

/// Errors of the transport layer.
#[derive(Debug)]
pub enum TransportError {
    /// Nobody subscribes to the topic.
    NoSubscribers { topic: String },
    /// A channel send failed.
    SendFailed,
    /// A channel receive failed.
    RecvFailed,
    /// The channel is full.
    ChannelFull,
    /// The channel is closed.
    ChannelClosed,
    /// An operation took longer than allowed.
    Timeout(std::time::Duration),
    /// A configuration value is out of range.
    InvalidConfig(String),
    /// A service is unknown.
    ServiceNotFound(String),
    /// An I/O operation failed.
    Io(std::io::Error),
    /// An envelope could not be unwrapped.
    Envelope(EnvelopeError),
    /// A frame could not be coded.
    Codec(CodecError),
}

/// Result type of the transport layer.
pub type Result<T> = std::result::Result<T, TransportError>;

/// True when `text` is the text of `e`: exactly, where the error holds only
/// text and numbers; by its fixed prefix, where it holds an I/O error or a
/// duration.
pub open spec fn transport_error_describes(e: TransportError, text: Seq<char>) -> bool {
    match e {
        TransportError::NoSubscribers { topic } => text == "No subscribers available for topic: "@
            + topic@,
        TransportError::SendFailed => text == "Channel send failed"@,
        TransportError::RecvFailed => text == "Channel receive failed"@,
        TransportError::ChannelFull => text == "Channel is full (backpressure applied)"@,
        TransportError::ChannelClosed => text == "Channel is closed (receiver dropped)"@,
        TransportError::Timeout(_) => "Operation timed out after "@.is_prefix_of(text),
        TransportError::InvalidConfig(m) => text == "Invalid configuration: "@ + m@,
        TransportError::ServiceNotFound(m) => text == "Service not found: "@ + m@,
        TransportError::Io(_) => "IO error: "@.is_prefix_of(text),
        TransportError::Envelope(x) => text == "Envelope error: "@ + envelope_error_text(x),
        TransportError::Codec(x) => text.len() >= 13 && text.subrange(0, 13) == "Codec error: "@
            && stream_codec_error_describes(x, text.subrange(13, text.len() as int)),
    }
}

impl TransportError {
    /// Text of the error.
    pub fn to_string(&self) -> (r: String)
        ensures
            transport_error_describes(*self, r@),
    {
        let mut s = String::new();
        match self {
            TransportError::NoSubscribers { topic } => {
                push_str(&mut s, "No subscribers available for topic: ");
                push_str(&mut s, topic.as_str());
            },
            TransportError::SendFailed => {
                push_str(&mut s, "Channel send failed");
            },
            TransportError::RecvFailed => {
                push_str(&mut s, "Channel receive failed");
            },
            TransportError::ChannelFull => {
                push_str(&mut s, "Channel is full (backpressure applied)");
            },
            TransportError::ChannelClosed => {
                push_str(&mut s, "Channel is closed (receiver dropped)");
            },
            TransportError::Timeout(d) => {
                push_str(&mut s, "Operation timed out after ");
                let t = duration_debug_text(d);
                push_str(&mut s, t.as_str());
                proof {
                    reveal_strlit("Operation timed out after ");
                    assert(s@.subrange(0, 26) =~= "Operation timed out after "@);
                }
            },
            TransportError::InvalidConfig(m) => {
                push_str(&mut s, "Invalid configuration: ");
                push_str(&mut s, m.as_str());
            },
            TransportError::ServiceNotFound(m) => {
                push_str(&mut s, "Service not found: ");
                push_str(&mut s, m.as_str());
            },
            TransportError::Io(e) => {
                push_str(&mut s, "IO error: ");
                let t = io_error_text(e);
                push_str(&mut s, t.as_str());
                proof {
                    reveal_strlit("IO error: ");
                    assert(s@.subrange(0, 10) =~= "IO error: "@);
                }
            },
            TransportError::Envelope(x) => {
                push_str(&mut s, "Envelope error: ");
                let t = x.to_string();
                push_str(&mut s, t.as_str());
            },
            TransportError::Codec(x) => {
                push_str(&mut s, "Codec error: ");
                let t = x.to_string();
                push_str(&mut s, t.as_str());
                proof {
                    reveal_strlit("Codec error: ");
                    assert(s@.subrange(0, 13) =~= "Codec error: "@);
                    assert(s@.subrange(13, s@.len() as int) =~= t@);
                }
            },
        }
        s
    }
}

impl From<std::io::Error> for TransportError {
    fn from(e: std::io::Error) -> (r: Self) {
        TransportError::Io(e)
    }
}

impl vstd::std_specs::convert::FromSpecImpl<std::io::Error> for TransportError {
    open spec fn obeys_from_spec() -> bool {
        true
    }

    open spec fn from_spec(e: std::io::Error) -> Self {
        TransportError::Io(e)
    }
}

impl From<EnvelopeError> for TransportError {
    fn from(e: EnvelopeError) -> (r: Self) {
        TransportError::Envelope(e)
    }
}

impl vstd::std_specs::convert::FromSpecImpl<EnvelopeError> for TransportError {
    open spec fn obeys_from_spec() -> bool {
        true
    }

    open spec fn from_spec(e: EnvelopeError) -> Self {
        TransportError::Envelope(e)
    }
}

impl From<CodecError> for TransportError {
    fn from(e: CodecError) -> (r: Self) {
        TransportError::Codec(e)
    }
}

impl vstd::std_specs::convert::FromSpecImpl<CodecError> for TransportError {
    open spec fn obeys_from_spec() -> bool {
        true
    }

    open spec fn from_spec(e: CodecError) -> Self {
        TransportError::Codec(e)
    }
}

} // verus!
