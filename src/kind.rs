use vstd::prelude::*;

verus! {

/// When a registered unit of work runs. Durations are in milliseconds.
#[derive(Clone, Copy, Debug, PartialEq, Eq, Structural)]
pub enum CbKind {
    /// Run once, as soon as the loop next processes pending items.
    Asap,
    /// Run once, no earlier than `delay` after registration.
    After { delay: u64 },
    /// Run repeatedly, each firing `period` after the previous scheduled one.
    Interval { period: u64 },
}

/// Token that names a pending callback within one loop.
#[derive(Clone, Copy, Debug, PartialEq, Eq, Structural)]
pub struct CbId {
    pub id: u64,
}

#[derive(Clone, Copy, Debug, PartialEq, Eq, Structural)]
pub enum MainLoopError {
    /// An ambient call found no loop running on this thread.
    NoMainLoop,
    /// The loop's queue refused a registration.
    BackendRejected,
    /// A loop was started while another one was running on this thread.
    ReentrantRun,
}

impl CbKind {
    /// The delay before the first firing.
    pub open spec fn step_spec(self) -> nat {
        match self {
            CbKind::Asap => 0,
            CbKind::After { delay } => delay as nat,
            CbKind::Interval { period } => period as nat,
        }
    }

    pub fn step(&self) -> (r: u64)
        ensures
            r as nat == self.step_spec(),
    {
        match self {
            CbKind::Asap => 0,
            CbKind::After { delay } => *delay,
            CbKind::Interval { period } => *period,
        }
    }

    pub fn repeats(&self) -> (r: bool)
        ensures
            r == (self is Interval),
    {
        match self {
            CbKind::Interval { .. } => true,
            _ => false,
        }
    }
}

} // verus!
