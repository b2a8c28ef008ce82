//! Routing metadata: destinations, actor identifiers, correlation and trace
//! identifiers.
//!
//! Identifiers print as fixed-width lower-case hexadecimal: 16 digits for an
//! actor, 32 for correlation and trace identifiers.
use vstd::prelude::*;
use crate::text::{hex_padded, lemma_hex_padded_len, push_hex_padded};

verus! {

/// Draws a `u64` from `rand::random`; any value may come back.
#[verifier::external_body]
fn random_u64() -> u64 {
    rand::random::<u64>()
}

/// Draws a `u128` from `rand::random`; any value may come back.
#[verifier::external_body]
fn random_u128() -> u128 {
    rand::random::<u128>()
}

/// Unique identifier of an actor instance.
#[derive(Debug, Clone, Copy, PartialEq, Eq, Hash, Structural)]
pub struct ActorId(pub u64);

/// Correlation identifier matching replies to requests.
#[derive(Debug, Clone, Copy, PartialEq, Eq, Hash, Structural)]
pub struct CorrelationId(pub u128);

/// Trace identifier shared by all messages of one user action.
#[derive(Debug, Clone, Copy, PartialEq, Eq, Hash, Structural)]
pub struct TraceId(pub u128);

/// How a message is delivered.
#[derive(Debug, Clone, Copy, PartialEq, Eq, Hash, Structural)]
pub enum Destination {
    /// To all subscribers of the topic (the default).
    Broadcast,
    /// To one actor instance.
    Unicast(ActorId),
    /// To the partition chosen by a hash value.
    Partition(u64),
}

impl Default for Destination {
    fn default() -> (r: Self)
        ensures
            r == Destination::Broadcast,
    {
        Destination::Broadcast
    }
}

impl ActorId {
    /// A fresh random actor identifier.
    pub fn new() -> (r: Self) {
        ActorId(random_u64())
    }

    /// The actor identifier with the given value.
    pub fn from_u64(id: u64) -> (r: Self)
        ensures
            r.0 == id,
    {
        ActorId(id)
    }

    /// The underlying value.
    pub fn as_u64(&self) -> (r: u64)
        ensures
            r == self.0,
    {
        self.0
    }

    /// Sixteen lower-case hex digits of the value.
    pub fn to_string(&self) -> (r: String)
        ensures
            r@ == hex_padded(self.0 as nat, 16),
            r@.len() == 16,
    {
        let mut s = String::new();
        push_hex_padded(&mut s, self.0 as u128, 16);
        proof {
            assert(s@ =~= hex_padded(self.0 as nat, 16));
            lemma_hex_padded_len(self.0 as nat, 16);
        }
        s
    }
}

impl CorrelationId {
    /// A fresh random correlation identifier.
    pub fn new() -> (r: Self) {
        CorrelationId(random_u128())
    }

    /// The correlation identifier with the given value.
    pub fn from_u128(id: u128) -> (r: Self)
        ensures
            r.0 == id,
    {
        CorrelationId(id)
    }

    /// The underlying value.
    pub fn as_u128(&self) -> (r: u128)
        ensures
            r == self.0,
    {
        self.0
    }

    /// Thirty-two lower-case hex digits of the value.
    pub fn to_string(&self) -> (r: String)
        ensures
            r@ == hex_padded(self.0 as nat, 32),
            r@.len() == 32,
    {
        let mut s = String::new();
        push_hex_padded(&mut s, self.0, 32);
        proof {
            assert(s@ =~= hex_padded(self.0 as nat, 32));
            lemma_hex_padded_len(self.0 as nat, 32);
        }
        s
    }
}

impl TraceId {
    /// A fresh random trace identifier.
    pub fn new() -> (r: Self) {
        TraceId(random_u128())
    }

    /// The trace identifier with the given value.
    pub fn from_u128(id: u128) -> (r: Self)
        ensures
            r.0 == id,
    {
        TraceId(id)
    }

    /// The underlying value.
    pub fn as_u128(&self) -> (r: u128)
        ensures
            r == self.0,
    {
        self.0
    }

    /// Thirty-two lower-case hex digits of the value.
    pub fn to_string(&self) -> (r: String)
        ensures
            r@ == hex_padded(self.0 as nat, 32),
            r@.len() == 32,
    {
        let mut s = String::new();
        push_hex_padded(&mut s, self.0, 32);
        proof {
            assert(s@ =~= hex_padded(self.0 as nat, 32));
            lemma_hex_padded_len(self.0 as nat, 32);
        }
        s
    }
}

} // verus!
