//! Failure taxonomy and the fail-fast aggregation of task outcomes: a run
//! either yields every record or surfaces the first task failure, never a
//! partial result.

use vstd::prelude::*;
use crate::record::WorkRecord;

verus! {

/// Why a task failed: an artifact read, write or delete failed; the
/// read-back content was malformed or unexpected; or an execution
/// context could not be started.
#[derive(Clone, Copy, PartialEq, Eq, Structural, Debug)]
pub enum FailureKind {
    Io,
    Serialization,
    ConcurrencySetup,
}

/// A task failure: the run-wide-unique id of the task that failed and
/// the kind of failure.
#[derive(Clone, Copy, PartialEq, Eq, Structural, Debug)]
pub struct TaskFailure {
    pub id: u64,
    pub kind: FailureKind,
}

/// Folds per-task outcomes fail-fast: all records when every task
/// succeeded, otherwise the first failure in outcome order.
pub fn collect_outcomes(outcomes: Vec<Result<WorkRecord, TaskFailure>>) -> (r: Result<
    Vec<WorkRecord>,
    TaskFailure,
>)
    ensures
        r is Ok <==> (forall|i: int| 0 <= i < outcomes@.len() ==> outcomes@[i] is Ok),
        r matches Ok(recs) ==> recs@.len() == outcomes@.len() && (forall|i: int|
            0 <= i < outcomes@.len() ==> recs@[i] == outcomes@[i]->Ok_0),
        r matches Err(f) ==> exists|i: int|
            0 <= i < outcomes@.len() && ((#[trigger] outcomes@[i]) matches Err(g) && g == f) && (
            forall|j: int| 0 <= j < i ==> outcomes@[j] is Ok),
{
    let ghost all = outcomes@;
    let mut rest = outcomes;
    let mut recs: Vec<WorkRecord> = Vec::new();
    let mut i: usize = 0;
    let n = rest.len();
    while i < n
        invariant
            all == outcomes@,
            all.len() == n,
            i <= n,
            rest@ =~= all.subrange(i as int, n as int),
            recs@.len() == i,
            forall|j: int| 0 <= j < i ==> (#[trigger] all[j]) is Ok,
            forall|j: int| 0 <= j < i ==> #[trigger] recs@[j] == all[j]->Ok_0,
        decreases n - i,
    {
        proof {
            assert(rest@[0] == all.subrange(i as int, n as int)[0]);
            assert(rest@[0] == all[i as int]);
        }
        let o = rest.remove(0);
        proof {
            assert(o == all[i as int]);
            assert(rest@ =~= all.subrange(i + 1 as int, n as int));
        }
        match o {
            Ok(rec) => {
                recs.push(rec);
            },
            Err(f) => {
                proof {
                    assert(all == outcomes@);
                    assert((outcomes@[i as int] matches Err(g) && g == f) && (forall|j: int|
                        0 <= j < i ==> all[j] is Ok));
                    assert(forall|j: int| 0 <= j < i ==> (#[trigger] outcomes@[j]) is Ok);
                    assert(exists|k: int|
                        0 <= k < outcomes@.len() && ((#[trigger] outcomes@[k]) matches Err(g) && g
                            == f) && (forall|j: int| 0 <= j < k ==> outcomes@[j] is Ok));
                }
                return Err(f);
            },
        }
        i = i + 1;
    }
    Ok(recs)
}

} // verus!
