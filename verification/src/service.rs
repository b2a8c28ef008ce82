//! Health of managed services, and the settings of a service runner.
use vstd::prelude::*;
use crate::text::push_str;

verus! {

/// Why a service is degraded.
#[derive(Debug, Clone, Copy, PartialEq, Eq, Structural)]
pub enum DegradedReason {
    HighLatency,
    PartialDependencyFailure,
    HighLoad,
    Other,
}

/// Why a service is unhealthy.
#[derive(Debug, Clone, Copy, PartialEq, Eq, Structural)]
pub enum UnhealthyReason {
    InitializationFailed,
    CriticalDependencyFailure,
    FatalError,
    NotReady,
    Other,
}

/// Health of a service.
#[derive(Debug, Clone, Copy, PartialEq, Eq, Structural)]
pub enum HealthStatus {
    /// Working normally.
    Healthy,
    /// Working with reduced quality.
    Degraded { reason: DegradedReason },
    /// Not working.
    Unhealthy { reason: UnhealthyReason },
}

/// Name of a degraded reason.
pub open spec fn degraded_name(r: DegradedReason) -> Seq<char> {
    match r {
        DegradedReason::HighLatency => "HighLatency"@,
        DegradedReason::PartialDependencyFailure => "PartialDependencyFailure"@,
        DegradedReason::HighLoad => "HighLoad"@,
        DegradedReason::Other => "Other"@,
    }
}

/// Name of an unhealthy reason.
pub open spec fn unhealthy_name(r: UnhealthyReason) -> Seq<char> {
    match r {
        UnhealthyReason::InitializationFailed => "InitializationFailed"@,
        UnhealthyReason::CriticalDependencyFailure => "CriticalDependencyFailure"@,
        UnhealthyReason::FatalError => "FatalError"@,
        UnhealthyReason::NotReady => "NotReady"@,
        UnhealthyReason::Other => "Other"@,
    }
}

/// Text of a health status.
pub open spec fn health_text(h: HealthStatus) -> Seq<char> {
    match h {
        HealthStatus::Healthy => "healthy"@,
        HealthStatus::Degraded { reason } => "degraded: "@ + degraded_name(reason),
        HealthStatus::Unhealthy { reason } => "unhealthy: "@ + unhealthy_name(reason),
    }
}

fn degraded_str(r: DegradedReason) -> (s: &'static str)
    ensures
        s@ == degraded_name(r),
{
    match r {
        DegradedReason::HighLatency => "HighLatency",
        DegradedReason::PartialDependencyFailure => "PartialDependencyFailure",
        DegradedReason::HighLoad => "HighLoad",
        DegradedReason::Other => "Other",
    }
}

fn unhealthy_str(r: UnhealthyReason) -> (s: &'static str)
    ensures
        s@ == unhealthy_name(r),
{
    match r {
        UnhealthyReason::InitializationFailed => "InitializationFailed",
        UnhealthyReason::CriticalDependencyFailure => "CriticalDependencyFailure",
        UnhealthyReason::FatalError => "FatalError",
        UnhealthyReason::NotReady => "NotReady",
        UnhealthyReason::Other => "Other",
    }
}

impl HealthStatus {
    /// True when healthy.
    pub fn is_healthy(&self) -> (r: bool)
        ensures
            r == (*self is Healthy),
    {
        match self {
            HealthStatus::Healthy => true,
            _ => false,
        }
    }

    /// True when degraded.
    pub fn is_degraded(&self) -> (r: bool)
        ensures
            r == (*self is Degraded),
    {
        match self {
            HealthStatus::Degraded { .. } => true,
            _ => false,
        }
    }

    /// True when unhealthy.
    pub fn is_unhealthy(&self) -> (r: bool)
        ensures
            r == (*self is Unhealthy),
    {
        match self {
            HealthStatus::Unhealthy { .. } => true,
            _ => false,
        }
    }

    /// True when the service still processes messages: healthy or degraded.
    pub fn is_operational(&self) -> (r: bool)
        ensures
            r == (*self is Healthy || *self is Degraded),
    {
        match self {
            HealthStatus::Healthy => true,
            HealthStatus::Degraded { .. } => true,
            HealthStatus::Unhealthy { .. } => false,
        }
    }

    /// Text of the status.
    pub fn to_string(&self) -> (r: String)
        ensures
            r@ == health_text(*self),
    {
        let mut s = String::new();
        match self {
            HealthStatus::Healthy => push_str(&mut s, "healthy"),
            HealthStatus::Degraded { reason } => {
                push_str(&mut s, "degraded: ");
                push_str(&mut s, degraded_str(*reason));
            },
            HealthStatus::Unhealthy { reason } => {
                push_str(&mut s, "unhealthy: ");
                push_str(&mut s, unhealthy_str(*reason));
            },
        }
        s
    }
}

/// A status is operational exactly when it is not unhealthy.
pub proof fn lemma_operational_iff_not_unhealthy(h: HealthStatus)
    ensures
        (h is Healthy || h is Degraded) == !(h is Unhealthy),
{
}

/// Runs a managed service; holds the service and its health-check port.
pub struct ServiceRunner<S> {
    service: S,
    health_check_port: Option<u16>,
}

impl<S> ServiceRunner<S> {
    /// The service it runs.
    pub closed spec fn spec_service(&self) -> S {
        self.service
    }

    /// The health-check port, if enabled.
    pub closed spec fn spec_port(&self) -> Option<u16> {
        self.health_check_port
    }

    /// A runner for `service`, with no health-check port.
    pub fn new(service: S) -> (r: Self)
        ensures
            r.spec_service() == service,
            r.spec_port() is None,
    {
        ServiceRunner { service, health_check_port: None }
    }

    /// The same runner with a health-check endpoint on `port`.
    pub fn with_health_check_port(self, port: u16) -> (r: Self)
        ensures
            r.spec_service() == self.spec_service(),
            r.spec_port() == Some(port),
    {
        ServiceRunner { service: self.service, health_check_port: Some(port) }
    }

    /// The health-check port, if enabled.
    pub fn health_check_port(&self) -> (r: Option<u16>)
        ensures
            r == self.spec_port(),
    {
        self.health_check_port
    }

    /// The service and the health-check port.
    pub fn into_parts(self) -> (r: (S, Option<u16>))
        ensures
            r.0 == self.spec_service(),
            r.1 == self.spec_port(),
    {
        (self.service, self.health_check_port)
    }
}

} // verus!
