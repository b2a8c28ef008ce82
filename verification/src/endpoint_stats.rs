//! Counters of a socket or shared-memory endpoint, mirrored into the
//! service's custom counters once metrics are attached.
use vstd::prelude::*;
use crate::qos::counter_step;
use crate::service_metrics::{ServiceMetrics, ServiceMetricsView};

verus! {

/// The metrics after adding one to custom counter `name`.
pub open spec fn bump(v: ServiceMetricsView, name: Seq<char>) -> ServiceMetricsView {
    ServiceMetricsView {
        counters: v.counters.insert(
            name,
            (if v.counters.contains_key(name) {
                v.counters[name]
            } else {
                0
            } + 1) as u64,
        ),
        ..v
    }
}

/// What an endpoint's counters hold.
pub struct EndpointStatsView {
    pub connections: u64,
    pub handshake_failures: u64,
    pub frames_forwarded: u64,
    pub metrics_attached: bool,
}

/// Counters of an endpoint.
#[derive(Debug)]
pub struct EndpointStats {
    connections: u64,
    handshake_failures: u64,
    frames_forwarded: u64,
    metrics: Option<ServiceMetrics>,
}

impl View for EndpointStats {
    type V = EndpointStatsView;

    closed spec fn view(&self) -> EndpointStatsView {
        EndpointStatsView {
            connections: self.connections,
            handshake_failures: self.handshake_failures,
            frames_forwarded: self.frames_forwarded,
            metrics_attached: self.metrics is Some,
        }
    }
}

impl Default for EndpointStats {
    fn default() -> (r: Self)
        ensures
            r.wf(),
            r@ == (EndpointStatsView {
                connections: 0,
                handshake_failures: 0,
                frames_forwarded: 0,
                metrics_attached: false,
            }),
    {
        EndpointStats { connections: 0, handshake_failures: 0, frames_forwarded: 0, metrics: None }
    }
}

impl EndpointStats {
    /// The attached metrics, if any, are consistent.
    pub closed spec fn wf(&self) -> bool {
        self.metrics matches Some(m) ==> m.wf()
    }

    /// The attached metrics.
    pub closed spec fn attached(&self) -> Option<ServiceMetrics> {
        self.metrics
    }

    /// Attaches metrics; only the first attachment counts.
    pub fn attach_metrics(&mut self, metrics: ServiceMetrics)
        requires
            old(self).wf(),
            metrics.wf(),
        ensures
            final(self).wf(),
            old(self)@.metrics_attached ==> final(self)@ == old(self)@ && final(self).attached()
                == old(self).attached(),
            !old(self)@.metrics_attached ==> final(self)@ == (EndpointStatsView {
                metrics_attached: true,
                ..old(self)@
            }) && final(self).attached() == Some(metrics),
    {
        if self.metrics.is_none() {
            self.metrics = Some(metrics);
        }
    }

    /// Counts a connection, and the custom counter `shm_connections`.
    pub fn record_connection(&mut self)
        requires
            old(self).wf(),
            old(self).attached() matches Some(m) ==> (m@.counters.contains_key(
                "shm_connections"@,
            ) ==> m@.counters["shm_connections"@] < u64::MAX),
        ensures
            final(self).wf(),
            final(self)@ == (EndpointStatsView {
                connections: counter_step(old(self)@.connections),
                ..old(self)@
            }),
            old(self).attached() matches Some(m) ==> (final(self).attached() matches Some(m2)
                && m2@ == bump(m@, "shm_connections"@)),
            old(self).attached() is None ==> final(self).attached() is None,
    {
        proof {
            reveal_strlit("shm_connections");
        }
        self.connections = self.connections.wrapping_add(1);
        match &mut self.metrics {
            Some(m) => m.incr_counter("shm_connections", 1),
            None => {},
        }
    }

    /// Counts a failed handshake, and the custom counter
    /// `shm_handshake_failures`.
    pub fn record_handshake_failure(&mut self)
        requires
            old(self).wf(),
            old(self).attached() matches Some(m) ==> (m@.counters.contains_key(
                "shm_handshake_failures"@,
            ) ==> m@.counters["shm_handshake_failures"@] < u64::MAX),
        ensures
            final(self).wf(),
            final(self)@ == (EndpointStatsView {
                handshake_failures: counter_step(old(self)@.handshake_failures),
                ..old(self)@
            }),
            old(self).attached() matches Some(m) ==> (final(self).attached() matches Some(m2)
                && m2@ == bump(m@, "shm_handshake_failures"@)),
            old(self).attached() is None ==> final(self).attached() is None,
    {
        self.handshake_failures = self.handshake_failures.wrapping_add(1);
        match &mut self.metrics {
            Some(m) => m.incr_counter("shm_handshake_failures", 1),
            None => {},
        }
    }

    /// Counts a forwarded frame, and the custom counter
    /// `shm_frames_forwarded`.
    pub fn record_forwarded(&mut self)
        requires
            old(self).wf(),
            old(self).attached() matches Some(m) ==> (m@.counters.contains_key(
                "shm_frames_forwarded"@,
            ) ==> m@.counters["shm_frames_forwarded"@] < u64::MAX),
        ensures
            final(self).wf(),
            final(self)@ == (EndpointStatsView {
                frames_forwarded: counter_step(old(self)@.frames_forwarded),
                ..old(self)@
            }),
            old(self).attached() matches Some(m) ==> (final(self).attached() matches Some(m2)
                && m2@ == bump(m@, "shm_frames_forwarded"@)),
            old(self).attached() is None ==> final(self).attached() is None,
    {
        self.frames_forwarded = self.frames_forwarded.wrapping_add(1);
        match &mut self.metrics {
            Some(m) => m.incr_counter("shm_frames_forwarded", 1),
            None => {},
        }
    }

    /// The three counters: connections, handshake failures, frames
    /// forwarded.
    pub fn snapshot(&self) -> (r: (u64, u64, u64))
        ensures
            r == (self@.connections, self@.handshake_failures, self@.frames_forwarded),
    {
        (self.connections, self.handshake_failures, self.frames_forwarded)
    }
}

} // verus!
