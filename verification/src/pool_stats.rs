//! Statistics of a connection pool.
use vstd::prelude::*;
use crate::text::{decimal, push_decimal, push_str};

verus! {

/// A snapshot of a connection pool.
#[derive(Debug, Clone)]
pub struct PoolStats {
    pub target: String,
    pub total_connections: usize,
    pub healthy_connections: usize,
    pub total_messages_sent: u64,
    pub max_connections: usize,
    pub pooling_enabled: bool,
}

/// `true` or `false`.
pub open spec fn bool_text(b: bool) -> Seq<char> {
    if b {
        "true"@
    } else {
        "false"@
    }
}

impl PoolStats {
    /// Text of the snapshot.
    pub fn to_string(&self) -> (r: String)
        ensures
            r@ == "Pool "@ + self.target@ + ": "@ + decimal(self.total_connections as nat) + "/"@
                + decimal(self.max_connections as nat) + " connections ("@ + decimal(
                self.healthy_connections as nat,
            ) + " healthy), "@ + decimal(self.total_messages_sent as nat) + " messages sent, pooling: "@
                + bool_text(self.pooling_enabled),
    {
        let mut s = String::new();
        push_str(&mut s, "Pool ");
        push_str(&mut s, self.target.as_str());
        push_str(&mut s, ": ");
        push_decimal(&mut s, self.total_connections as u64);
        push_str(&mut s, "/");
        push_decimal(&mut s, self.max_connections as u64);
        push_str(&mut s, " connections (");
        push_decimal(&mut s, self.healthy_connections as u64);
        push_str(&mut s, " healthy), ");
        push_decimal(&mut s, self.total_messages_sent);
        push_str(&mut s, " messages sent, pooling: ");
        if self.pooling_enabled {
            push_str(&mut s, "true");
        } else {
            push_str(&mut s, "false");
        }
        proof {
            assert(Seq::<char>::empty() + "Pool "@ =~= "Pool "@);
        }
        s
    }
}

} // verus!
