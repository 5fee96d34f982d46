//! The bounding invariant of a concurrency-bounded run, checked over an
//! instrumented event trace: at no point may more tasks be in flight
//! simultaneously than the configured width.

use vstd::prelude::*;

verus! {

/// One observation of a run: a task started executing, or a task
/// reached a terminal state (success or failure).
#[derive(Clone, Copy, PartialEq, Eq, Structural, Debug)]
pub enum TaskEvent {
    Started { id: u64 },
    Finished { id: u64 },
}

/// The task id an event speaks of.
pub open spec fn event_id(e: TaskEvent) -> u64 {
    match e {
        TaskEvent::Started { id } => id,
        TaskEvent::Finished { id } => id,
    }
}

/// The change an event makes to the number of tasks in flight.
pub open spec fn event_delta(e: TaskEvent) -> int {
    if e is Started {
        1
    } else {
        -1
    }
}

/// How many tasks are in flight after a trace: starts minus finishes.
pub open spec fn spec_in_flight(trace: Seq<TaskEvent>) -> int
    decreases trace.len(),
{
    if trace.len() == 0 {
        0
    } else {
        spec_in_flight(trace.drop_last()) + event_delta(trace.last())
    }
}

/// How many tasks of the one execution context `w` (under the
/// assignment `c` of task ids to contexts) are in flight after a trace.
pub open spec fn spec_in_flight_of(trace: Seq<TaskEvent>, c: spec_fn(u64) -> int, w: int) -> int
    decreases trace.len(),
{
    if trace.len() == 0 {
        0
    } else {
        spec_in_flight_of(trace.drop_last(), c, w) + if c(event_id(trace.last())) == w {
            event_delta(trace.last())
        } else {
            0
        }
    }
}

/// The per-context counts of contexts `0 .. k`, summed.
pub open spec fn spec_sum_in_flight(trace: Seq<TaskEvent>, c: spec_fn(u64) -> int, k: int) -> int
    decreases k,
{
    if k <= 0 {
        0
    } else {
        spec_sum_in_flight(trace, c, k - 1) + spec_in_flight_of(trace, c, k - 1)
    }
}

proof fn lemma_sum_step(trace: Seq<TaskEvent>, c: spec_fn(u64) -> int, k: int)
    requires
        trace.len() >= 1,
        k >= 0,
    ensures
        spec_sum_in_flight(trace, c, k) == spec_sum_in_flight(trace.drop_last(), c, k) + if 0 <= c(
            event_id(trace.last()),
        ) < k {
            event_delta(trace.last())
        } else {
            0
        },
    decreases k,
{
    if k > 0 {
        lemma_sum_step(trace, c, k - 1);
    }
}

proof fn lemma_decompose(trace: Seq<TaskEvent>, c: spec_fn(u64) -> int, k: int)
    requires
        k >= 0,
        forall|i: int| 0 <= i < trace.len() ==> 0 <= c(event_id(#[trigger] trace[i])) < k,
    ensures
        spec_in_flight(trace) == spec_sum_in_flight(trace, c, k),
    decreases trace.len(),
{
    if trace.len() == 0 {
        assert(spec_sum_in_flight(trace, c, k) == 0) by {
            lemma_sum_empty(trace, c, k);
        }
    } else {
        let prior = trace.drop_last();
        assert(forall|i: int| 0 <= i < prior.len() ==> 0 <= c(event_id(#[trigger] prior[i])) < k);
        lemma_decompose(prior, c, k);
        lemma_sum_step(trace, c, k);
        assert(trace.last() == trace[trace.len() - 1]);
    }
}

proof fn lemma_sum_empty(trace: Seq<TaskEvent>, c: spec_fn(u64) -> int, k: int)
    requires
        trace.len() == 0,
    ensures
        spec_sum_in_flight(trace, c, k) == 0,
    decreases k,
{
    if k > 0 {
        lemma_sum_empty(trace, c, k - 1);
    }
}

proof fn lemma_sum_bounded(trace: Seq<TaskEvent>, c: spec_fn(u64) -> int, k: int)
    requires
        k >= 0,
        forall|w: int| 0 <= w < k ==> spec_in_flight_of(trace, c, w) <= 1,
    ensures
        spec_sum_in_flight(trace, c, k) <= k,
    decreases k,
{
    if k > 0 {
        lemma_sum_bounded(trace, c, k - 1);
    }
}

/// The bounding invariant of the partitioned-worker model, proved: in a
/// run whose task ids are assigned by `c` to `k` execution contexts, if
/// each single context never has more than one of its own tasks in
/// flight — each context executes its slice strictly sequentially —
/// then at no point of the trace are more than `k` tasks in flight
/// simultaneously.
pub proof fn lemma_partitioned_run_bounded(trace: Seq<TaskEvent>, c: spec_fn(u64) -> int, k: int)
    requires
        k >= 0,
        forall|i: int| 0 <= i < trace.len() ==> 0 <= c(event_id(#[trigger] trace[i])) < k,
        forall|w: int, i: int|
            0 <= w < k && 0 <= i <= trace.len() ==> #[trigger] spec_in_flight_of(
                trace.subrange(0, i),
                c,
                w,
            ) <= 1,
    ensures
        forall|i: int|
            0 <= i <= trace.len() ==> spec_in_flight(#[trigger] trace.subrange(0, i)) <= k,
{
    assert forall|i: int| 0 <= i <= trace.len() implies spec_in_flight(
        #[trigger] trace.subrange(0, i),
    ) <= k by {
        let p = trace.subrange(0, i);
        assert(forall|j: int| 0 <= j < p.len() ==> 0 <= c(event_id(#[trigger] p[j])) < k);
        assert(forall|w: int| 0 <= w < k ==> spec_in_flight_of(p, c, w) <= 1);
        lemma_decompose(p, c, k);
        lemma_sum_bounded(p, c, k);
    }
}

/// The bounding invariant over a recorded trace: true exactly when
/// after every prefix of the trace at most `width` tasks were in
/// flight simultaneously.
pub fn check_bounded(trace: &Vec<TaskEvent>, width: u64) -> (r: bool)
    ensures
        r == forall|i: int|
            0 <= i <= trace@.len() ==> spec_in_flight(#[trigger] trace@.subrange(0, i)) <= width,
{
    let n = trace.len();
    let mut count: i128 = 0;
    let mut i: usize = 0;
    proof {
        assert(trace@.subrange(0, 0) =~= Seq::empty());
    }
    while i < n
        invariant
            trace@.len() == n,
            i <= n,
            -(i as i128) <= count <= i as i128,
            count == spec_in_flight(trace@.subrange(0, i as int)),
            forall|k: int|
                0 <= k <= i ==> spec_in_flight(#[trigger] trace@.subrange(0, k)) <= width,
        decreases n - i,
    {
        let next = match trace[i] {
            TaskEvent::Started { .. } => count + 1,
            TaskEvent::Finished { .. } => count - 1,
        };
        proof {
            let pre = trace@.subrange(0, i as int);
            let post = trace@.subrange(0, i + 1 as int);
            assert(post.drop_last() =~= pre);
            assert(post.last() == trace@[i as int]);
            assert(next == spec_in_flight(post));
        }
        if next > width as i128 {
            proof {
                assert(spec_in_flight(trace@.subrange(0, i + 1 as int)) > width);
            }
            return false;
        }
        count = next;
        i = i + 1;
    }
    proof {
        assert(trace@.subrange(0, n as int) =~= trace@);
    }
    true
}

} // verus!
