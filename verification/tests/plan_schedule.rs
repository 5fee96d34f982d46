use rust_benchmark::plan::ExecutionPlan;
use rust_benchmark::schedule::{sequential_ids, worker_ids};

#[test]
fn plan_total_tasks() {
    let plan = ExecutionPlan::new(3, 2).unwrap();
    assert_eq!(plan.total_tasks(), 6);
    let plan = ExecutionPlan::new(20, 20).unwrap();
    assert_eq!(plan.total_tasks(), 400);
}

#[test]
fn plan_rejects_zero_counts() {
    assert!(ExecutionPlan::new(0, 2).is_none());
    assert!(ExecutionPlan::new(2, 0).is_none());
    assert!(ExecutionPlan::new(0, 0).is_none());
}

#[test]
fn plan_rejects_total_overflow() {
    assert!(ExecutionPlan::new(u64::MAX, 2).is_none());
    assert!(ExecutionPlan::new(u64::MAX, 1).is_some());
}

#[test]
fn sequential_order_is_increasing() {
    let plan = ExecutionPlan::new(3, 2).unwrap();
    let ids = sequential_ids(&plan);
    assert_eq!(ids, vec![0, 1, 2, 3, 4, 5]);
}

#[test]
fn worker_slices_are_contiguous_and_offset() {
    let plan = ExecutionPlan::new(3, 2).unwrap();
    assert_eq!(worker_ids(&plan, 0), vec![0, 1, 2]);
    assert_eq!(worker_ids(&plan, 1), vec![3, 4, 5]);
}

#[test]
fn schedules_cover_the_same_ids() {
    let plan = ExecutionPlan::new(4, 3).unwrap();
    let sequential = sequential_ids(&plan);
    let mut partitioned: Vec<u64> = Vec::new();
    for w in 0..plan.workers {
        partitioned.extend(worker_ids(&plan, w));
    }
    assert_eq!(partitioned, sequential);
    // each id exactly once
    let mut sorted = partitioned.clone();
    sorted.sort_unstable();
    sorted.dedup();
    assert_eq!(sorted.len(), 12);
}

#[test]
fn width_one_matches_sequential() {
    let plan = ExecutionPlan::new(5, 1).unwrap();
    assert_eq!(worker_ids(&plan, 0), sequential_ids(&plan));
}
