//! Quality of service: drop policies, spawn options and mailbox metrics.
//!
//! The metrics are counters that wrap around at their type's maximum, as the
//! atomic counters they stand for do; the maximum latency only grows.
use vstd::prelude::*;

verus! {

/// The counter after one more event: `x + 1`, wrapping to 0 past the maximum.
pub open spec fn counter_step(x: u64) -> u64 {
    if x == u64::MAX {
        0
    } else {
        (x + 1) as u64
    }
}

/// `x + y` wrapping around at 2^64, as an atomic `fetch_add` does.
pub open spec fn wrap_add(x: u64, y: u64) -> u64 {
    if x + y > u64::MAX {
        (x + y - 0x1_0000_0000_0000_0000) as u64
    } else {
        (x + y) as u64
    }
}

/// What to do with a message when the mailbox is full.
#[derive(Debug, Clone, Copy, PartialEq, Eq, Structural)]
pub enum DropPolicy {
    /// Drop the oldest queued message.
    DropOldest,
    /// Drop the incoming message.
    DropNewest,
    /// Refuse the message and report an error to the sender.
    Reject,
    /// Wait until there is room (the default).
    Block,
}

impl Default for DropPolicy {
    fn default() -> (r: Self)
        ensures
            r == DropPolicy::Block,
    {
        DropPolicy::Block
    }
}

/// Options for spawning an actor.
#[derive(Debug, Clone)]
pub struct SpawnOptions {
    /// Mailbox capacity; `None` for unbounded.
    pub mailbox_capacity: Option<usize>,
    /// Policy when the mailbox is full.
    pub drop_policy: DropPolicy,
    /// Cores to pin the actor to.
    pub cpu_affinity: Option<Vec<usize>>,
    /// Whether metrics are collected.
    pub enable_metrics: bool,
}

/// Default mailbox capacity.
pub const DEFAULT_MAILBOX_CAPACITY: usize = 1000;

impl Default for SpawnOptions {
    fn default() -> (r: Self)
        ensures
            r.mailbox_capacity == Some(DEFAULT_MAILBOX_CAPACITY),
            r.drop_policy == DropPolicy::Block,
            r.cpu_affinity is None,
            r.enable_metrics,
    {
        SpawnOptions {
            mailbox_capacity: Some(DEFAULT_MAILBOX_CAPACITY),
            drop_policy: DropPolicy::Block,
            cpu_affinity: None,
            enable_metrics: true,
        }
    }
}

impl SpawnOptions {
    /// Default options with an unbounded mailbox.
    pub fn unbounded() -> (r: Self)
        ensures
            r.mailbox_capacity is None,
            r.drop_policy == DropPolicy::Block,
            r.cpu_affinity is None,
            r.enable_metrics,
    {
        let mut r = SpawnOptions::default();
        r.mailbox_capacity = None;
        r
    }

    /// Default options with a mailbox of `capacity` messages.
    pub fn with_capacity(capacity: usize) -> (r: Self)
        ensures
            r.mailbox_capacity == Some(capacity),
            r.drop_policy == DropPolicy::Block,
            r.cpu_affinity is None,
            r.enable_metrics,
    {
        let mut r = SpawnOptions::default();
        r.mailbox_capacity = Some(capacity);
        r
    }

    /// The same options with another drop policy.
    pub fn with_drop_policy(self, policy: DropPolicy) -> (r: Self)
        ensures
            r.drop_policy == policy,
            r.mailbox_capacity == self.mailbox_capacity,
            r.cpu_affinity == self.cpu_affinity,
            r.enable_metrics == self.enable_metrics,
    {
        let mut r = self;
        r.drop_policy = policy;
        r
    }

    /// The same options pinned to `cores`.
    pub fn with_cpu_affinity(self, cores: Vec<usize>) -> (r: Self)
        ensures
            r.cpu_affinity == Some(cores),
            r.mailbox_capacity == self.mailbox_capacity,
            r.drop_policy == self.drop_policy,
            r.enable_metrics == self.enable_metrics,
    {
        let mut r = self;
        r.cpu_affinity = Some(cores);
        r
    }

    /// The same options with metrics switched on or off.
    pub fn with_metrics(self, enable: bool) -> (r: Self)
        ensures
            r.enable_metrics == enable,
            r.mailbox_capacity == self.mailbox_capacity,
            r.drop_policy == self.drop_policy,
            r.cpu_affinity == self.cpu_affinity,
    {
        let mut r = self;
        r.enable_metrics = enable;
        r
    }
}

/// Counters of a mailbox.
#[derive(Debug, Clone, Copy, PartialEq, Eq, Structural)]
pub struct MailboxMetrics {
    /// Messages dropped because the mailbox was full.
    pub dropped_messages: u64,
    /// Current queue depth.
    pub queue_depth: usize,
    /// Largest latency seen, in microseconds.
    pub max_latency_us: u64,
    /// Messages processed.
    pub total_processed: u64,
    /// Messages refused under the `Reject` policy.
    pub total_rejected: u64,
}

impl Default for MailboxMetrics {
    fn default() -> (r: Self)
        ensures
            r == MailboxMetrics::zero(),
    {
        MailboxMetrics::new()
    }
}

impl MailboxMetrics {
    /// All counters at zero.
    pub open spec fn zero() -> Self {
        MailboxMetrics {
            dropped_messages: 0,
            queue_depth: 0,
            max_latency_us: 0,
            total_processed: 0,
            total_rejected: 0,
        }
    }

    /// Metrics with every counter at zero.
    pub fn new() -> (r: Self)
        ensures
            r == Self::zero(),
    {
        MailboxMetrics {
            dropped_messages: 0,
            queue_depth: 0,
            max_latency_us: 0,
            total_processed: 0,
            total_rejected: 0,
        }
    }

    /// Counts a dropped message.
    pub fn record_drop(&mut self)
        ensures
            *final(self) == (MailboxMetrics {
                dropped_messages: counter_step(old(self).dropped_messages),
                ..*old(self)
            }),
    {
        self.dropped_messages = self.dropped_messages.wrapping_add(1);
    }

    /// Counts a rejected message.
    pub fn record_reject(&mut self)
        ensures
            *final(self) == (MailboxMetrics {
                total_rejected: counter_step(old(self).total_rejected),
                ..*old(self)
            }),
    {
        self.total_rejected = self.total_rejected.wrapping_add(1);
    }

    /// Counts a processed message.
    pub fn record_processed(&mut self)
        ensures
            *final(self) == (MailboxMetrics {
                total_processed: counter_step(old(self).total_processed),
                ..*old(self)
            }),
    {
        self.total_processed = self.total_processed.wrapping_add(1);
    }

    /// Sets the queue depth.
    pub fn set_queue_depth(&mut self, depth: usize)
        ensures
            *final(self) == (MailboxMetrics { queue_depth: depth, ..*old(self) }),
    {
        self.queue_depth = depth;
    }

    /// Raises the maximum latency to `latency_us` if that is larger.
    pub fn update_max_latency(&mut self, latency_us: u64)
        ensures
            *final(self) == (MailboxMetrics {
                max_latency_us: if latency_us > old(self).max_latency_us {
                    latency_us
                } else {
                    old(self).max_latency_us
                },
                ..*old(self)
            }),
    {
        if latency_us > self.max_latency_us {
            self.max_latency_us = latency_us;
        }
    }

    /// Dropped messages.
    pub fn dropped(&self) -> (r: u64)
        ensures
            r == self.dropped_messages,
    {
        self.dropped_messages
    }

    /// Queue depth.
    pub fn depth(&self) -> (r: usize)
        ensures
            r == self.queue_depth,
    {
        self.queue_depth
    }

    /// Largest latency seen, in microseconds.
    pub fn max_latency(&self) -> (r: u64)
        ensures
            r == self.max_latency_us,
    {
        self.max_latency_us
    }

    /// Processed messages.
    pub fn processed(&self) -> (r: u64)
        ensures
            r == self.total_processed,
    {
        self.total_processed
    }

    /// Rejected messages.
    pub fn rejected(&self) -> (r: u64)
        ensures
            r == self.total_rejected,
    {
        self.total_rejected
    }
}

/// The maximum latency never decreases, and after an update it is at least
/// the latency reported.
pub proof fn lemma_max_latency_monotone(before: MailboxMetrics, after: MailboxMetrics, latency_us: u64)
    requires
        after == (MailboxMetrics {
            max_latency_us: if latency_us > before.max_latency_us {
                latency_us
            } else {
                before.max_latency_us
            },
            ..before
        }),
    ensures
        after.max_latency_us >= before.max_latency_us,
        after.max_latency_us >= latency_us,
        after.max_latency_us == before.max_latency_us || after.max_latency_us == latency_us,
{
}

} // verus!
