//! Topic naming: broadcast topics, actor mailboxes and partitions.
use vstd::prelude::*;
use crate::routing::ActorId;
use crate::text::{decimal, hex_padded, push_decimal, push_hex_padded, push_str};

verus! {

/// The partition that `partition_by_hash` picks: the hash, taken as a
/// `usize`, modulo the partition count (a count of 0 counts as 1).
pub open spec fn hash_partition(hash: u64, num_partitions: usize) -> usize {
    let n: usize = if num_partitions == 0 {
        1
    } else {
        num_partitions
    };
    ((hash as usize) % n) as usize
}

/// Builds topic names by the naming conventions.
pub struct TopicBuilder;

impl TopicBuilder {
    /// A broadcast topic: the name itself.
    pub fn broadcast(name: &str) -> (r: String)
        ensures
            r@ == name@,
    {
        name.to_owned()
    }

    /// The mailbox topic of an actor: `actor.` and its 16 hex digits.
    pub fn actor_mailbox(actor_id: ActorId) -> (r: String)
        ensures
            r@ == "actor."@ + hex_padded(actor_id.0 as nat, 16),
    {
        let mut s = String::new();
        push_str(&mut s, "actor.");
        push_hex_padded(&mut s, actor_id.0 as u128, 16);
        s
    }

    /// A partition topic: the base, a dot and the partition number.
    pub fn partition(base: &str, partition: usize) -> (r: String)
        ensures
            r@ == base@ + "."@ + decimal(partition as nat),
    {
        let mut s = base.to_owned();
        push_str(&mut s, ".");
        push_decimal(&mut s, partition as u64);
        s
    }

    /// The partition topic that a hash routes to among `num_partitions`.
    pub fn partition_by_hash(base: &str, hash: u64, num_partitions: usize) -> (r: String)
        ensures
            r@ == base@ + "."@ + decimal(hash_partition(hash, num_partitions) as nat),
    {
        let n: usize = if num_partitions == 0 {
            1
        } else {
            num_partitions
        };
        let partition: usize = (hash as usize) % n;
        Self::partition(base, partition)
    }
}

/// A hash always routes to one of the partitions.
pub proof fn lemma_hash_partition_in_range(hash: u64, num_partitions: usize)
    ensures
        num_partitions > 0 ==> hash_partition(hash, num_partitions) < num_partitions,
        num_partitions == 0 ==> hash_partition(hash, num_partitions) == 0,
{
}

} // verus!
