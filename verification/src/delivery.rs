//! What a publish reports once the message was sent.
use vstd::prelude::*;
use crate::error::TransportError;

verus! {

/// The outcome of a publish: success when a local subscriber or a bridge
/// client took the message, else `NoSubscribers` for the topic (a publisher
/// fails fast rather than lose the message silently).
pub fn delivery_result(receiver_count: usize, bridge_has_subscribers: bool, topic: &str) -> (r: Result<
    (),
    TransportError,
>)
    ensures
        (r is Ok) == (receiver_count > 0 || bridge_has_subscribers),
        r matches Err(e) ==> (e matches TransportError::NoSubscribers { topic: t } && t@ == topic@),
{
    if receiver_count == 0 && !bridge_has_subscribers {
        return Err(TransportError::NoSubscribers { topic: topic.to_owned() });
    }
    Ok(())
}

} // verus!
