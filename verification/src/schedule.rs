//! The two scheduling strategies over a plan's task-id space.
//!
//! The sequential strategy executes ids `0 .. total` strictly in
//! increasing order. The concurrency-bounded strategy follows the
//! partitioned-worker model: exactly `width = plan.workers` execution
//! contexts, worker `w` owning the contiguous slice
//! `w * iterations .. (w + 1) * iterations`, each executed sequentially
//! inside its context. The lemmas below show the two strategies cover
//! the same task ids, each exactly once.

use vstd::prelude::*;
use vstd::arithmetic::div_mod::lemma_fundamental_div_mod_converse;
use crate::gate::{lemma_partitioned_run_bounded, event_id, spec_in_flight, spec_in_flight_of, TaskEvent};
use crate::plan::ExecutionPlan;

verus! {

/// The sequential schedule over a task count: ids in increasing order.
pub open spec fn spec_task_ids(count: int) -> Seq<u64> {
    Seq::new(count as nat, |i: int| i as u64)
}

/// The slice of task ids that worker `w` owns under the
/// partitioned-worker model.
pub open spec fn spec_worker_ids(plan: ExecutionPlan, w: int) -> Seq<u64> {
    Seq::new(plan.iterations as nat, |j: int| (w * plan.iterations + j) as u64)
}

/// The worker slices of workers `0 .. w`, concatenated in worker order.
pub open spec fn spec_partitioned_ids(plan: ExecutionPlan, w: int) -> Seq<u64>
    decreases w,
{
    if w <= 0 {
        Seq::empty()
    } else {
        spec_partitioned_ids(plan, w - 1) + spec_worker_ids(plan, w - 1)
    }
}

/// The sequential schedule: every task id of the plan, in increasing
/// order, one at a time.
pub fn sequential_ids(plan: &ExecutionPlan) -> (r: Vec<u64>)
    requires
        plan.wf(),
        plan.total_spec() <= usize::MAX,
    ensures
        r@ == spec_task_ids(plan.total_spec()),
{
    let total = plan.total_tasks();
    let mut r: Vec<u64> = Vec::new();
    let mut i: u64 = 0;
    while i < total
        invariant
            i <= total,
            total == plan.total_spec(),
            r@ =~= spec_task_ids(i as int),
        decreases total - i,
    {
        r.push(i);
        proof {
            assert(r@ =~= spec_task_ids(i + 1 as int));
        }
        i = i + 1;
    }
    proof {
        assert(r@ =~= spec_task_ids(plan.total_spec()));
    }
    r
}

/// The slice of task ids worker `w` executes: `iterations` consecutive
/// ids starting at `w * iterations`. The start offset makes every id
/// run-wide unique, never a per-worker-local index.
pub fn worker_ids(plan: &ExecutionPlan, w: u64) -> (r: Vec<u64>)
    requires
        plan.wf(),
        w < plan.workers,
        plan.iterations <= usize::MAX,
    ensures
        r@ == spec_worker_ids(*plan, w as int),
{
    proof {
        lemma_slice_in_range(*plan, w as int);
    }
    let base = w * plan.iterations;
    let mut r: Vec<u64> = Vec::new();
    let mut j: u64 = 0;
    while j < plan.iterations
        invariant
            j <= plan.iterations,
            plan.wf(),
            w < plan.workers,
            base == w * plan.iterations,
            (w + 1) * plan.iterations <= u64::MAX,
            r@ =~= spec_worker_ids(*plan, w as int).subrange(0, j as int),
        decreases plan.iterations - j,
    {
        proof {
            assert(base + j < (w + 1) * plan.iterations) by (nonlinear_arith)
                requires
                    base == w * plan.iterations,
                    j < plan.iterations,
            ;
        }
        r.push(base + j);
        proof {
            assert(r@ =~= spec_worker_ids(*plan, w as int).subrange(0, j + 1 as int));
        }
        j = j + 1;
    }
    proof {
        assert(r@ =~= spec_worker_ids(*plan, w as int));
    }
    r
}

/// A worker's slice stays inside the plan's id space: the slice of
/// worker `w` ends at `(w + 1) * iterations`, which never exceeds the
/// total task count.
pub proof fn lemma_slice_in_range(plan: ExecutionPlan, w: int)
    requires
        plan.wf(),
        0 <= w < plan.workers,
    ensures
        (w + 1) * plan.iterations <= plan.total_spec(),
        w * plan.iterations >= 0,
        w * plan.iterations + plan.iterations == (w + 1) * plan.iterations,
{
    assert((w + 1) * plan.iterations <= plan.workers * plan.iterations && w * plan.iterations >= 0
        && w * plan.iterations + plan.iterations == (w + 1) * plan.iterations) by (nonlinear_arith)
        requires
            0 <= w < plan.workers,
            plan.iterations >= 1,
    ;
    assert(plan.workers * plan.iterations == plan.total_spec()) by (nonlinear_arith);
}

proof fn lemma_partition_prefix(plan: ExecutionPlan, w: int)
    requires
        plan.wf(),
        0 <= w <= plan.workers,
    ensures
        spec_partitioned_ids(plan, w) =~= spec_task_ids(w * plan.iterations),
    decreases w,
{
    if w == 0 {
        assert(spec_partitioned_ids(plan, 0) =~= spec_task_ids(0));
    } else {
        lemma_partition_prefix(plan, w - 1);
        lemma_slice_in_range(plan, w - 1);
        let prev = spec_task_ids((w - 1) * plan.iterations);
        let slice = spec_worker_ids(plan, w - 1);
        assert(spec_partitioned_ids(plan, w) == spec_partitioned_ids(plan, w - 1) + slice);
        assert forall|i: int| 0 <= i < w * plan.iterations implies (prev + slice)[i]
            == #[trigger] spec_task_ids(w * plan.iterations)[i] by {
            if i < (w - 1) * plan.iterations {
                assert((prev + slice)[i] == i as u64);
            } else {
                assert((prev + slice)[i] == slice[i - (w - 1) * plan.iterations]);
                assert(slice[i - (w - 1) * plan.iterations] == ((w - 1) * plan.iterations + (i - (w
                    - 1) * plan.iterations)) as u64);
            }
        }
        assert(prev + slice =~= spec_task_ids(w * plan.iterations));
    }
}

/// Coverage equivalence: the partitioned-worker schedule, taken across
/// all workers, is exactly the sequential schedule — the same task ids,
/// in particular the same multiset, each id exactly once, since the
/// sequential schedule never repeats an id.
pub proof fn lemma_schedules_cover_same_ids(plan: ExecutionPlan)
    requires
        plan.wf(),
    ensures
        spec_partitioned_ids(plan, plan.workers as int) == spec_task_ids(plan.total_spec()),
        spec_partitioned_ids(plan, plan.workers as int).to_multiset() == spec_task_ids(
            plan.total_spec(),
        ).to_multiset(),
        forall|i: int, j: int|
            0 <= i < j < plan.total_spec() ==> spec_task_ids(plan.total_spec())[i] != spec_task_ids(
                plan.total_spec(),
            )[j],
{
    lemma_partition_prefix(plan, plan.workers as int);
    assert(plan.workers * plan.iterations == plan.total_spec()) by (nonlinear_arith);
    assert(spec_partitioned_ids(plan, plan.workers as int) =~= spec_task_ids(plan.total_spec()));
}

/// The worker that owns a task id under the partitioned-worker model:
/// the id's slice number.
pub open spec fn spec_worker_of(plan: ExecutionPlan, id: u64) -> int {
    id as int / plan.iterations as int
}

/// The partition and the ownership map agree: worker `w`'s slice holds
/// exactly ids owned by `w`, and every id of the run is owned by a
/// worker below the configured width.
pub proof fn lemma_partition_owns_ids(plan: ExecutionPlan)
    requires
        plan.wf(),
    ensures
        forall|w: int, j: int|
            0 <= w < plan.workers && 0 <= j < plan.iterations ==> spec_worker_of(
                plan,
                #[trigger] spec_worker_ids(plan, w)[j],
            ) == w,
        forall|id: u64| id < plan.total_spec() ==> 0 <= #[trigger] spec_worker_of(plan, id)
            < plan.workers,
{
    let it = plan.iterations as int;
    assert forall|w: int, j: int|
        0 <= w < plan.workers && 0 <= j < plan.iterations implies spec_worker_of(
        plan,
        #[trigger] spec_worker_ids(plan, w)[j],
    ) == w by {
        lemma_slice_in_range(plan, w);
        let id = spec_worker_ids(plan, w)[j];
        assert(id == (w * it + j) as u64);
        assert(id as int == w * it + j);
        lemma_fundamental_div_mod_converse(id as int, it, w, j);
    }
    assert forall|id: u64| id < plan.total_spec() implies 0 <= #[trigger] spec_worker_of(plan, id)
        < plan.workers by {
        let q = spec_worker_of(plan, id);
        let r = id as int % it;
        assert(0 <= r < it && id as int == it * q + r) by (nonlinear_arith)
            requires
                it >= 1,
                q == id as int / it,
                r == id as int % it,
        ;
        assert(q >= 0) by (nonlinear_arith)
            requires
                it >= 1,
                0 <= r < it,
                id as int == it * q + r,
        ;
        assert(q < plan.workers) by (nonlinear_arith)
            requires
                it >= 1,
                0 <= r < it,
                id as int == it * q + r,
                id < it * plan.workers,
        ;
    }
}

/// The bounding invariant of a partitioned run over this plan, proved:
/// when every event of a trace speaks of a task id of the run and each
/// worker executes its own slice strictly sequentially — a worker never
/// has more than one of its own tasks in flight — then at no point are
/// more than `plan.workers` tasks in flight simultaneously.
pub proof fn lemma_plan_run_bounded(
    plan: ExecutionPlan,
    trace: Seq<TaskEvent>,
    c: spec_fn(u64) -> int,
)
    requires
        plan.wf(),
        forall|id: u64| #[trigger] c(id) == spec_worker_of(plan, id),
        forall|i: int| 0 <= i < trace.len() ==> event_id(#[trigger] trace[i]) < plan.total_spec(),
        forall|w: int, i: int|
            0 <= w < plan.workers && 0 <= i <= trace.len() ==> #[trigger] spec_in_flight_of(
                trace.subrange(0, i),
                c,
                w,
            ) <= 1,
    ensures
        forall|i: int|
            0 <= i <= trace.len() ==> spec_in_flight(#[trigger] trace.subrange(0, i))
                <= plan.workers,
{
    lemma_partition_owns_ids(plan);
    assert(forall|i: int| 0 <= i < trace.len() ==> 0 <= c(event_id(#[trigger] trace[i]))
        < plan.workers);
    lemma_partitioned_run_bounded(trace, c, plan.workers as int);
}

/// A concurrency-bounded run of width one is the sequential schedule:
/// with a single worker the one slice is the whole id space in
/// increasing order, so the same tasks produce the same records in the
/// same order.
pub proof fn lemma_width_one_equivalent(plan: ExecutionPlan)
    requires
        plan.wf(),
        plan.workers == 1,
    ensures
        spec_worker_ids(plan, 0) == spec_task_ids(plan.total_spec()),
        spec_partitioned_ids(plan, 1) == spec_worker_ids(plan, 0),
{
    lemma_schedules_cover_same_ids(plan);
    assert(spec_worker_ids(plan, 0) =~= spec_task_ids(plan.total_spec()));
    assert(spec_partitioned_ids(plan, 1) =~= spec_worker_ids(plan, 0));
}

} // verus!
