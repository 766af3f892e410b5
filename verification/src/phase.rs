//! The fixed, ordered set of update-cycle stages.

use vstd::prelude::*;

verus! {

/// One of the ordered stages of the per-cycle update loop.
///
/// The frame driver is expected to run the phases in declaration order, once
/// per update cycle, and to drain the deferred task queue of each phase as it
/// runs.
#[derive(Clone, Copy, PartialEq, Eq, Structural, Debug)]
pub enum Phase {
    /// Earliest setup work of a cycle.
    Setup,
    /// Work that must run before the main logic.
    PreLogic,
    /// The main logic stage.
    Logic,
    /// Work that must run after the main logic.
    PostLogic,
    /// Latest work of a cycle.
    Finalize,
}

/// How many phases an update cycle has.
pub const PHASE_COUNT: usize = 5;

impl Phase {
    /// The position of this phase in the update cycle, starting from zero.
    pub fn index(self) -> (i: usize)
        ensures
            i == self.index_spec(),
    {
        match self {
            Phase::Setup => 0,
            Phase::PreLogic => 1,
            Phase::Logic => 2,
            Phase::PostLogic => 3,
            Phase::Finalize => 4,
        }
    }

    /// The position of this phase in the update cycle, starting from zero.
    pub open spec fn index_spec(self) -> int {
        match self {
            Phase::Setup => 0,
            Phase::PreLogic => 1,
            Phase::Logic => 2,
            Phase::PostLogic => 3,
            Phase::Finalize => 4,
        }
    }
}

} // verus!
