//! Supervision of actors: what happens when an actor fails.
use vstd::prelude::*;

verus! {

/// What a supervisor does with a failed actor.
#[derive(Debug, Clone, Copy, PartialEq, Eq, Structural)]
pub enum SupervisionStrategy {
    /// Stop the actor for good.
    Stop,
    /// Restart the actor with fresh state, at most `max_retries` times.
    Restart { max_retries: usize },
    /// Ignore the error and go on (the default).
    Resume,
    /// Hand the error to the parent supervisor.
    Escalate,
}

impl Default for SupervisionStrategy {
    fn default() -> (r: Self)
        ensures
            r == SupervisionStrategy::Resume,
    {
        SupervisionStrategy::Resume
    }
}

/// A supervisor's decision about a failed actor.
#[derive(Debug, Clone, Copy, PartialEq, Eq, Structural)]
pub enum Directive {
    /// Go on processing.
    Resume,
    /// Restart with fresh state.
    Restart,
    /// Stop for good.
    Stop,
    /// Hand the failure to the parent supervisor.
    Escalate,
}

} // verus!
