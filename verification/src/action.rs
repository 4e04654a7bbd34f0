//! How a reconciliation goes on.
use vstd::prelude::*;

verus! {

/// A span of time.
#[derive(Clone, Copy, Debug, PartialEq, Eq, Structural)]
pub struct Delay {
    pub secs: u64,
    pub nanos: u32,
}

/// How a reconciliation goes on after one of its parts.
#[derive(Clone, Copy, Debug, PartialEq, Eq, Structural)]
pub enum ReconcileFunctionAction {
    /// With its next part.
    Continue,
    /// Not at all.
    Done,
    /// From its beginning, after a delay.
    Requeue(Delay),
}

/// How many of the pods that are to go are deleted at once.
#[derive(Clone, Copy, Debug, PartialEq, Eq, Structural)]
pub enum ContinuationStrategy {
    /// One, and the reconciliation begins anew.
    OneRequeue,
}

/// For how many seconds a reconciliation waits after it has created a pod.
pub const CREATION_DELAY_SECS: u64 = 10;

} // verus!
