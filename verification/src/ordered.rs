//! Sequence tracking for ordered delivery.
//!
//! The tracker delivers each incoming message at once and counts it as in
//! order; a message held for the next expected sequence number is delivered
//! first and counted as reordered. The counters only grow, and every
//! delivery advances the expected sequence number by one.
use std::collections::BTreeMap;
use vstd::prelude::*;

verus! {

broadcast use vstd::std_specs::btree::group_btree_axioms;

/// Counters of ordered delivery.
#[derive(Debug, Clone, Copy, PartialEq, Eq, Structural)]
pub struct OrderingStats {
    /// Messages received.
    pub total_received: u64,
    /// Messages delivered as they came.
    pub in_order_delivered: u64,
    /// Messages delivered after being held.
    pub reordered_delivered: u64,
    /// Messages dropped.
    pub dropped: u64,
    /// Largest number of held messages.
    pub max_buffer_used: usize,
}

/// All counters at zero.
pub open spec fn zero_ordering_stats() -> OrderingStats {
    OrderingStats {
        total_received: 0,
        in_order_delivered: 0,
        reordered_delivered: 0,
        dropped: 0,
        max_buffer_used: 0,
    }
}

impl Default for OrderingStats {
    fn default() -> (r: Self)
        ensures
            r == zero_ordering_stats(),
    {
        OrderingStats {
            total_received: 0,
            in_order_delivered: 0,
            reordered_delivered: 0,
            dropped: 0,
            max_buffer_used: 0,
        }
    }
}

/// Capacity of the hold buffer.
pub const MAX_HELD_MESSAGES: usize = 1000;

/// What a tracker holds: the next expected sequence number, the messages
/// held by sequence number, and the counters.
pub struct SequenceTrackerView<T> {
    pub next_expected: u64,
    pub held: Map<u64, T>,
    pub stats: OrderingStats,
}

/// Tracks sequence numbers of a subscription and delivers messages in order.
pub struct SequenceTracker<T> {
    next_expected: u64,
    buffer: BTreeMap<u64, T>,
    max_buffer_size: usize,
    stats: OrderingStats,
}

impl<T> View for SequenceTracker<T> {
    type V = SequenceTrackerView<T>;

    closed spec fn view(&self) -> SequenceTrackerView<T> {
        SequenceTrackerView { next_expected: self.next_expected, held: self.buffer@, stats: self.stats }
    }
}

impl<T> SequenceTracker<T> {
    /// A tracker expecting `initial_sequence` first, holding nothing.
    pub fn new(initial_sequence: u64) -> (r: Self)
        ensures
            r@.next_expected == initial_sequence,
            r@.held == Map::<u64, T>::empty(),
            r@.stats == zero_ordering_stats(),
    {
        SequenceTracker {
            next_expected: initial_sequence,
            buffer: BTreeMap::new(),
            max_buffer_size: MAX_HELD_MESSAGES,
            stats: OrderingStats::default(),
        }
    }

    /// Takes an incoming message; it is delivered at once, in order.
    pub fn add_message(&mut self, msg: T) -> (r: Option<T>)
        requires
            old(self)@.stats.total_received < u64::MAX,
            old(self)@.stats.in_order_delivered < u64::MAX,
            old(self)@.next_expected < u64::MAX,
        ensures
            r == Some(msg),
            final(self)@.next_expected == old(self)@.next_expected + 1,
            final(self)@.held == old(self)@.held,
            final(self)@.stats == (OrderingStats {
                total_received: (old(self)@.stats.total_received + 1) as u64,
                in_order_delivered: (old(self)@.stats.in_order_delivered + 1) as u64,
                ..old(self)@.stats
            }),
    {
        self.stats.total_received = self.stats.total_received + 1;
        self.stats.in_order_delivered = self.stats.in_order_delivered + 1;
        self.next_expected = self.next_expected + 1;
        Some(msg)
    }

    /// Delivers the held message with the next expected sequence number, if
    /// there is one.
    pub fn try_deliver(&mut self) -> (r: Option<T>)
        requires
            old(self)@.held.contains_key(old(self)@.next_expected) ==> old(self)@.next_expected
                < u64::MAX && old(self)@.stats.reordered_delivered < u64::MAX,
        ensures
            old(self)@.held.contains_key(old(self)@.next_expected) ==> r == Some(
                old(self)@.held[old(self)@.next_expected],
            ) && final(self)@ == (SequenceTrackerView {
                next_expected: (old(self)@.next_expected + 1) as u64,
                held: old(self)@.held.remove(old(self)@.next_expected),
                stats: OrderingStats {
                    reordered_delivered: (old(self)@.stats.reordered_delivered + 1) as u64,
                    ..old(self)@.stats
                },
            }),
            !old(self)@.held.contains_key(old(self)@.next_expected) ==> r is None && final(self)@
                == old(self)@,
    {
        match self.buffer.remove(&self.next_expected) {
            Some(msg) => {
                self.next_expected = self.next_expected + 1;
                self.stats.reordered_delivered = self.stats.reordered_delivered + 1;
                Some(msg)
            },
            None => {
                proof {
                    assert(self.buffer@ =~= old(self).buffer@);
                }
                None
            },
        }
    }

    /// Number of held messages.
    pub fn buffered_count(&self) -> (r: usize)
        ensures
            r == self@.held.len(),
    {
        self.buffer.len()
    }

    /// The counters.
    pub fn stats(&self) -> (r: OrderingStats)
        ensures
            r == self@.stats,
    {
        self.stats
    }
}

} // verus!
