//! The configuration of a run: how many iterations each worker performs
//! and how many workers there are. The total task-id space of a run is
//! `0 .. iterations * workers`.

use vstd::prelude::*;

verus! {

/// The immutable configuration pair of a run: iterations-per-worker and
/// worker-count. The total task count is their product.
#[derive(Clone, Copy, PartialEq, Eq, Structural, Debug)]
pub struct ExecutionPlan {
    pub iterations: u64,
    pub workers: u64,
}

impl ExecutionPlan {
    /// A plan is well formed when both counts are positive and the total
    /// task count fits in a `u64`.
    pub open spec fn wf(self) -> bool {
        &&& self.iterations >= 1
        &&& self.workers >= 1
        &&& self.iterations * self.workers <= u64::MAX
    }

    /// The total number of tasks the plan describes.
    pub open spec fn total_spec(self) -> int {
        self.iterations * self.workers
    }

    /// Builds a plan, rejecting a zero count and a total that does not fit.
    pub fn new(iterations: u64, workers: u64) -> (r: Option<ExecutionPlan>)
        ensures
            r is Some <==> (iterations >= 1 && workers >= 1 && iterations * workers <= u64::MAX),
            r matches Some(p) ==> p.iterations == iterations && p.workers == workers && p.wf(),
    {
        if iterations == 0 || workers == 0 {
            return None;
        }
        match iterations.checked_mul(workers) {
            Some(_) => Some(ExecutionPlan { iterations, workers }),
            None => None,
        }
    }

    /// The total task count, `iterations * workers`.
    pub fn total_tasks(&self) -> (r: u64)
        requires
            self.wf(),
        ensures
            r == self.total_spec(),
    {
        self.iterations * self.workers
    }
}

} // verus!
