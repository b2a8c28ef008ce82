//! Supervision of a running service: after each run, finish, give up, or
//! back off and run again.
use vstd::prelude::*;
use crate::qos::counter_step;
use crate::service_metrics::{ServiceMetrics, ServiceMetricsView};
use crate::text::{hex_at_least, push_hex_at_least};

verus! {

/// Runs of a service that may fail before the supervisor gives up.
pub const MAX_RETRIES: u32 = 5;

/// `2` to the power `n`.
pub open spec fn two_pow(n: nat) -> nat
    decreases n,
{
    if n == 0 {
        1
    } else {
        2 * two_pow((n - 1) as nat)
    }
}

/// Each further failure doubles the wait before the next run.
pub proof fn lemma_backoff_doubles(failures: nat)
    ensures
        two_pow(failures + 1) == 2 * two_pow(failures),
{
}

/// What the supervisor does after a run of the service.
#[derive(Debug, Clone, Copy, PartialEq, Eq, Structural)]
pub enum SupervisorStep {
    /// The run ended cleanly: stop.
    Finished,
    /// The run failed once too often: stop with its error.
    GaveUp,
    /// The run failed: wait, then run again.
    RetryAfter { backoff_secs: u64 },
}

/// The failures so far of a supervised service.
#[derive(Debug, Clone, Copy, PartialEq, Eq, Structural)]
pub struct Supervision {
    pub retry_count: u32,
}

/// `2^n` seconds.
fn backoff_secs(n: u32) -> (r: u64)
    requires
        n < MAX_RETRIES,
    ensures
        r == two_pow(n as nat),
{
    let mut r: u64 = 1;
    let mut i: u32 = 0;
    while i < n
        invariant
            i <= n < MAX_RETRIES,
            r == two_pow(i as nat),
            r <= 16,
        decreases n - i,
    {
        proof {
            reveal_with_fuel(two_pow, 6);
        }
        r = r * 2;
        i = i + 1;
    }
    r
}

impl Supervision {
    /// No failure yet.
    pub fn new() -> (r: Self)
        ensures
            r.retry_count == 0,
    {
        Supervision { retry_count: 0 }
    }

    /// Decides what follows a run: a clean run finishes; a failed one
    /// counts an error and either gives up, at the last allowed failure, or
    /// counts a restart and backs off `2^failures` seconds.
    pub fn after_run(&mut self, run_ok: bool, metrics: &mut ServiceMetrics) -> (r: SupervisorStep)
        requires
            old(self).retry_count < MAX_RETRIES,
            old(metrics).wf(),
        ensures
            final(metrics).wf(),
            run_ok ==> r == SupervisorStep::Finished && *final(self) == *old(self) && final(metrics)@
                == old(metrics)@,
            !run_ok ==> final(self).retry_count == old(self).retry_count + 1,
            !run_ok && final(self).retry_count >= MAX_RETRIES ==> r == SupervisorStep::GaveUp
                && final(metrics)@ == (ServiceMetricsView {
                errors_total: counter_step(old(metrics)@.errors_total),
                ..old(metrics)@
            }),
            !run_ok && final(self).retry_count < MAX_RETRIES ==> r == (SupervisorStep::RetryAfter {
                backoff_secs: two_pow(final(self).retry_count as nat) as u64,
            }) && final(metrics)@ == (ServiceMetricsView {
                errors_total: counter_step(old(metrics)@.errors_total),
                restarts_total: counter_step(old(metrics)@.restarts_total),
                ..old(metrics)@
            }),
    {
        if run_ok {
            return SupervisorStep::Finished;
        }
        metrics.record_error();
        self.retry_count = self.retry_count + 1;
        if self.retry_count >= MAX_RETRIES {
            return SupervisorStep::GaveUp;
        }
        metrics.record_restart();
        SupervisorStep::RetryAfter { backoff_secs: backoff_secs(self.retry_count) }
    }
}

/// What the supervisor does once the service's startup has returned.
#[derive(Debug, Clone, Copy, PartialEq, Eq, Structural)]
pub enum StartupStep {
    /// Startup succeeded: run the service.
    Run,
    /// Startup failed: neither run nor shut down; end with the startup error.
    Abort,
}

/// Which result a supervised service ends with.
#[derive(Debug, Clone, Copy, PartialEq, Eq, Structural)]
pub enum SupervisedResult {
    /// Success.
    Success,
    /// The error of the last run.
    RunError,
    /// The error of the shutdown, after a run that ended cleanly.
    ShutdownError,
}

/// Decides what follows the startup: a failed startup counts an error and
/// aborts; a successful one leads to running the service.
pub fn after_startup(startup_ok: bool, metrics: &mut ServiceMetrics) -> (r: StartupStep)
    requires
        old(metrics).wf(),
    ensures
        final(metrics).wf(),
        startup_ok ==> r == StartupStep::Run && final(metrics)@ == old(metrics)@,
        !startup_ok ==> r == StartupStep::Abort && final(metrics)@ == (ServiceMetricsView {
            errors_total: counter_step(old(metrics)@.errors_total),
            ..old(metrics)@
        }),
{
    if startup_ok {
        StartupStep::Run
    } else {
        metrics.record_error();
        StartupStep::Abort
    }
}

/// Decides the final result once the shutdown has returned: a failed
/// shutdown counts an error, and its error replaces a clean run's success;
/// a failed run's error is kept either way.
pub fn after_shutdown(run_ok: bool, shutdown_ok: bool, metrics: &mut ServiceMetrics) -> (r:
    SupervisedResult)
    requires
        old(metrics).wf(),
    ensures
        final(metrics).wf(),
        shutdown_ok ==> final(metrics)@ == old(metrics)@,
        !shutdown_ok ==> final(metrics)@ == (ServiceMetricsView {
            errors_total: counter_step(old(metrics)@.errors_total),
            ..old(metrics)@
        }),
        r == (if !run_ok {
            SupervisedResult::RunError
        } else if shutdown_ok {
            SupervisedResult::Success
        } else {
            SupervisedResult::ShutdownError
        }),
{
    if !shutdown_ok {
        metrics.record_error();
    }
    if !run_ok {
        SupervisedResult::RunError
    } else if shutdown_ok {
        SupervisedResult::Success
    } else {
        SupervisedResult::ShutdownError
    }
}

/// A trace identifier from a clock reading in nanoseconds: its hex digits,
/// at least 16.
pub fn generate_trace_id(nanos: u128) -> (r: String)
    ensures
        r@ == hex_at_least(nanos as nat, 16),
{
    let mut s = String::new();
    push_hex_at_least(&mut s, nanos, 16);
    proof {
        assert(s@ =~= hex_at_least(nanos as nat, 16));
    }
    s
}

} // verus!
