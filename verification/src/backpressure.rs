//! Backpressure settings and window-based flow control.
//!
//! A flow controller counts messages in its window: a send adds one, a
//! receive removes one but never goes below zero, and sending is allowed
//! while the window is not full.
use vstd::prelude::*;
use crate::text::{decimal, push_decimal, push_str};
use crate::config::TransportConfig;
use crate::qos::{counter_step, wrap_add};

verus! {

/// `Duration` is `Copy`: its clone is the same duration.
pub assume_specification[ <std::time::Duration as std::clone::Clone>::clone ](
    d: &std::time::Duration,
) -> (r: std::time::Duration)
    ensures
        r == *d,
;

/// The duration that `Duration::from_millis` gives for `ms` milliseconds.
pub uninterp spec fn millis_duration(ms: u64) -> std::time::Duration;

/// Calls `Duration::from_millis`; the duration is named by its milliseconds.
#[verifier::external_body]
fn duration_from_millis(ms: u64) -> (r: std::time::Duration)
    ensures
        r == millis_duration(ms),
{
    std::time::Duration::from_millis(ms)
}

/// Backpressure settings.
#[derive(Debug, Clone)]
pub struct BackpressureConfig {
    /// Messages in flight at most.
    pub max_in_flight: usize,
    /// Queue length before backpressure applies.
    pub max_queue_size: usize,
    /// How long to wait for room in the queue.
    pub queue_timeout: std::time::Duration,
    /// Whether the oldest message is dropped when the queue is full.
    pub drop_oldest: bool,
    /// Size of the flow-control window.
    pub flow_control_window: usize,
}

impl Default for BackpressureConfig {
    fn default() -> (r: Self)
        ensures
            r.max_in_flight == 1000,
            r.max_queue_size == 5000,
            !r.drop_oldest,
            r.flow_control_window == 100,
            r.queue_timeout == millis_duration(100),
    {
        BackpressureConfig {
            max_in_flight: 1000,
            max_queue_size: 5000,
            queue_timeout: duration_from_millis(100),
            drop_oldest: false,
            flow_control_window: 100,
        }
    }
}

impl BackpressureConfig {
    /// Settings scaled from the channel capacity.
    pub fn from_transport_config(config: &TransportConfig) -> (r: Self)
        requires
            config.channel_capacity * 5 <= usize::MAX,
        ensures
            r.max_in_flight == config.channel_capacity,
            r.max_queue_size == config.channel_capacity * 5,
            !r.drop_oldest,
            r.flow_control_window == config.channel_capacity / 10,
            r.queue_timeout == millis_duration(50),
    {
        BackpressureConfig {
            max_in_flight: config.channel_capacity,
            max_queue_size: config.channel_capacity * 5,
            queue_timeout: duration_from_millis(50),
            drop_oldest: false,
            flow_control_window: config.channel_capacity / 10,
        }
    }

    /// Settings for throughput.
    pub fn for_high_throughput() -> (r: Self)
        ensures
            r.max_in_flight == 10000,
            r.max_queue_size == 50000,
            r.drop_oldest,
            r.flow_control_window == 1000,
            r.queue_timeout == millis_duration(10),
    {
        BackpressureConfig {
            max_in_flight: 10000,
            max_queue_size: 50000,
            queue_timeout: duration_from_millis(10),
            drop_oldest: true,
            flow_control_window: 1000,
        }
    }

    /// Settings for latency.
    pub fn for_low_latency() -> (r: Self)
        ensures
            r.max_in_flight == 100,
            r.max_queue_size == 500,
            r.drop_oldest,
            r.flow_control_window == 10,
            r.queue_timeout == millis_duration(1),
    {
        BackpressureConfig {
            max_in_flight: 100,
            max_queue_size: 500,
            queue_timeout: duration_from_millis(1),
            drop_oldest: true,
            flow_control_window: 10,
        }
    }
}

/// Counters of a backpressured channel.
#[derive(Debug, Clone, Copy, PartialEq, Eq, Structural)]
pub struct BackpressureStats {
    pub messages_sent: u64,
    pub messages_dropped: u64,
    pub messages_queued: u64,
    pub current_queue_size: usize,
    pub max_queue_size_seen: usize,
    pub backpressure_applied_count: u64,
}

impl BackpressureStats {
    /// All counters at zero.
    pub fn new() -> (r: Self)
        ensures
            r == (BackpressureStats {
                messages_sent: 0,
                messages_dropped: 0,
                messages_queued: 0,
                current_queue_size: 0,
                max_queue_size_seen: 0,
                backpressure_applied_count: 0,
            }),
    {
        BackpressureStats {
            messages_sent: 0,
            messages_dropped: 0,
            messages_queued: 0,
            current_queue_size: 0,
            max_queue_size_seen: 0,
            backpressure_applied_count: 0,
        }
    }
}

/// A snapshot of a flow controller.
#[derive(Debug, Clone, Copy, PartialEq, Eq, Structural)]
pub struct FlowControlStats {
    pub window_size: usize,
    pub current_window: usize,
    pub total_sent: u64,
    pub total_received: u64,
}

impl FlowControlStats {
    /// Text of the snapshot.
    pub fn to_string(&self) -> (r: String)
        ensures
            r@ == "FlowControl: "@ + decimal(self.current_window as nat) + "/"@ + decimal(
                self.window_size as nat,
            ) + " in window, "@ + decimal(self.total_sent as nat) + " sent, "@ + decimal(
                self.total_received as nat,
            ) + " received"@,
    {
        let mut s = String::new();
        push_str(&mut s, "FlowControl: ");
        push_decimal(&mut s, self.current_window as u64);
        push_str(&mut s, "/");
        push_decimal(&mut s, self.window_size as u64);
        push_str(&mut s, " in window, ");
        push_decimal(&mut s, self.total_sent);
        push_str(&mut s, " sent, ");
        push_decimal(&mut s, self.total_received);
        push_str(&mut s, " received");
        proof {
            assert(Seq::<char>::empty() + "FlowControl: "@ =~= "FlowControl: "@);
        }
        s
    }
}

/// `x + 1` wrapping to 0 past the maximum, as an atomic `fetch_add` does.
pub open spec fn usize_step(x: usize) -> usize {
    if x == usize::MAX {
        0
    } else {
        (x + 1) as usize
    }
}

/// The counts after a send.
pub open spec fn after_send(s: FlowControlStats) -> FlowControlStats {
    FlowControlStats {
        current_window: usize_step(s.current_window),
        total_sent: counter_step(s.total_sent),
        ..s
    }
}

/// The counts after a receive; the window never goes below zero.
pub open spec fn after_receive(s: FlowControlStats) -> FlowControlStats {
    FlowControlStats {
        current_window: if s.current_window == 0 {
            0
        } else {
            (s.current_window - 1) as usize
        },
        total_received: counter_step(s.total_received),
        ..s
    }
}

/// The counts after a run of sends (`true`) and receives (`false`).
pub open spec fn after_flow(s: FlowControlStats, events: Seq<bool>) -> FlowControlStats
    decreases events.len(),
{
    if events.len() == 0 {
        s
    } else if events.last() {
        after_send(after_flow(s, events.drop_last()))
    } else {
        after_receive(after_flow(s, events.drop_last()))
    }
}

/// The number of sends in a run.
pub open spec fn sends(events: Seq<bool>) -> nat
    decreases events.len(),
{
    if events.len() == 0 {
        0
    } else {
        sends(events.drop_last()) + if events.last() {
            1nat
        } else {
            0nat
        }
    }
}

/// Law: from a new controller of window `w`, a run of sends and receives
/// (short enough that no counter wraps) keeps the window size, counts every
/// send and every receive, and holds at most as many messages as were sent.
pub proof fn lemma_flow_counts(w: usize, events: Seq<bool>)
    requires
        events.len() < u64::MAX,
        events.len() < usize::MAX,
    ensures
        ({
            let r = after_flow(
                FlowControlStats { window_size: w, current_window: 0, total_sent: 0, total_received: 0 },
                events,
            );
            &&& r.window_size == w
            &&& r.total_sent == sends(events)
            &&& r.total_received == events.len() - sends(events)
            &&& r.current_window <= sends(events)
        }),
    decreases events.len(),
{
    if events.len() > 0 {
        lemma_flow_counts(w, events.drop_last());
        lemma_sends_bound(events.drop_last());
    }
}

proof fn lemma_sends_bound(events: Seq<bool>)
    ensures
        sends(events) <= events.len(),
    decreases events.len(),
{
    if events.len() > 0 {
        lemma_sends_bound(events.drop_last());
    }
}

/// Window-based flow control.
#[derive(Debug)]
pub struct FlowController {
    window_size: usize,
    current_window: usize,
    total_sent: u64,
    total_received: u64,
}

impl View for FlowController {
    type V = FlowControlStats;

    closed spec fn view(&self) -> FlowControlStats {
        FlowControlStats {
            window_size: self.window_size,
            current_window: self.current_window,
            total_sent: self.total_sent,
            total_received: self.total_received,
        }
    }
}

impl FlowController {
    /// An empty window of `window_size` messages.
    pub fn new(window_size: usize) -> (r: Self)
        ensures
            r@ == (FlowControlStats {
                window_size,
                current_window: 0,
                total_sent: 0,
                total_received: 0,
            }),
    {
        FlowController { window_size, current_window: 0, total_sent: 0, total_received: 0 }
    }

    /// True while the window has room.
    pub fn can_send(&self) -> (r: bool)
        ensures
            r == (self@.current_window < self@.window_size),
    {
        self.current_window < self.window_size
    }

    /// Counts a send; true when the window still had room for one more
    /// after it.
    pub fn record_send(&mut self) -> (r: bool)
        requires
            old(self)@.window_size >= 1,
        ensures
            r == (old(self)@.current_window < old(self)@.window_size - 1),
            final(self)@ == after_send(old(self)@),
    {
        let current = self.current_window;
        self.current_window = self.current_window.wrapping_add(1);
        self.total_sent = self.total_sent.wrapping_add(1);
        current < self.window_size - 1
    }

    /// Counts a receive; the window never goes below zero.
    pub fn record_receive(&mut self)
        ensures
            final(self)@ == after_receive(old(self)@),
    {
        if self.current_window > 0 {
            self.current_window = self.current_window - 1;
        }
        self.total_received = self.total_received.wrapping_add(1);
    }

    /// A snapshot of the controller.
    pub fn get_stats(&self) -> (r: FlowControlStats)
        ensures
            r == self@,
    {
        FlowControlStats {
            window_size: self.window_size,
            current_window: self.current_window,
            total_sent: self.total_sent,
            total_received: self.total_received,
        }
    }
}

/// A receive after a send gives the window back: the window is as before
/// (when it was not at the maximum), and one more message is counted each
/// way.
pub proof fn lemma_send_then_receive(s: FlowControlStats)
    requires
        s.current_window < usize::MAX,
    ensures
        after_receive(after_send(s)).current_window == s.current_window,
        after_receive(after_send(s)).window_size == s.window_size,
{
}

} // verus!
