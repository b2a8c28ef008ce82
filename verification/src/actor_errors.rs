//! Errors of spawning and finding actors.
use vstd::prelude::*;
use crate::text::push_str;

verus! {

/// Errors of spawning and finding actors.
#[derive(Debug, Clone, Copy, PartialEq, Eq, Structural)]
pub enum SpawnError {
    MailboxCreationFailed,
    ActorStopped,
    ActorTypeAlreadyExists,
    ActorNotFound,
}

/// The text of a spawn error.
pub open spec fn spawn_error_text(e: SpawnError) -> Seq<char> {
    match e {
        SpawnError::MailboxCreationFailed => "Failed to create actor mailbox"@,
        SpawnError::ActorStopped => "Actor already stopped"@,
        SpawnError::ActorTypeAlreadyExists => "Actor type already registered"@,
        SpawnError::ActorNotFound => "Actor not found"@,
    }
}

impl SpawnError {
    /// Text of the error.
    pub fn to_string(&self) -> (r: String)
        ensures
            r@ == spawn_error_text(*self),
    {
        let mut s = String::new();
        match self {
            SpawnError::MailboxCreationFailed => push_str(&mut s, "Failed to create actor mailbox"),
            SpawnError::ActorStopped => push_str(&mut s, "Actor already stopped"),
            SpawnError::ActorTypeAlreadyExists => push_str(&mut s, "Actor type already registered"),
            SpawnError::ActorNotFound => push_str(&mut s, "Actor not found"),
        }
        proof {
            assert(Seq::<char>::empty() + spawn_error_text(*self) =~= spawn_error_text(*self));
        }
        s
    }
}

} // verus!
