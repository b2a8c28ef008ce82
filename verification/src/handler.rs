//! Handlers called directly for each message, without the message bus.
use vstd::prelude::*;

verus! {

/// A handler that processes each message synchronously.
pub trait MessageHandler<M> {
    /// Handles one message.
    fn handle(&mut self, msg: &M);
}

} // verus!
