use std::sync::{Arc, Mutex};

use rust_benchmark::artifact::artifact_name;
use rust_benchmark::gate::{check_bounded, TaskEvent};
use rust_benchmark::plan::ExecutionPlan;
use rust_benchmark::schedule::worker_ids;

#[test]
fn bounded_trace_accepted() {
    let trace = vec![
        TaskEvent::Started { id: 0 },
        TaskEvent::Started { id: 1 },
        TaskEvent::Finished { id: 0 },
        TaskEvent::Started { id: 2 },
        TaskEvent::Finished { id: 1 },
        TaskEvent::Finished { id: 2 },
    ];
    assert!(check_bounded(&trace, 2));
    assert!(!check_bounded(&trace, 1));
}

#[test]
fn unbounded_trace_rejected() {
    let trace = vec![
        TaskEvent::Started { id: 0 },
        TaskEvent::Started { id: 1 },
        TaskEvent::Started { id: 2 },
        TaskEvent::Finished { id: 0 },
        TaskEvent::Finished { id: 1 },
        TaskEvent::Finished { id: 2 },
    ];
    assert!(!check_bounded(&trace, 2));
    assert!(check_bounded(&trace, 3));
}

#[test]
fn empty_trace_accepted() {
    assert!(check_bounded(&Vec::new(), 1));
    assert!(check_bounded(&Vec::new(), 0));
}

#[test]
fn zero_width_admits_no_task() {
    let trace = vec![TaskEvent::Started { id: 0 }];
    assert!(!check_bounded(&trace, 0));
}

// An instrumented concurrency-bounded run under the partitioned-worker
// model: `workers` tokio tasks, each executing its own contiguous slice
// sequentially. The recorded event trace must never show more than
// `workers` tasks in flight, and every task id must appear exactly once.
#[test]
fn partitioned_run_respects_width_and_covers_ids() {
    let plan = ExecutionPlan::new(5, 3).unwrap();
    let width = plan.workers;
    let trace: Arc<Mutex<Vec<TaskEvent>>> = Arc::new(Mutex::new(Vec::new()));

    let runtime = tokio::runtime::Builder::new_multi_thread()
        .worker_threads(width as usize)
        .build()
        .unwrap();
    runtime.block_on(async {
        let mut handles = Vec::new();
        for w in 0..width {
            let slice = worker_ids(&plan, w);
            let trace = Arc::clone(&trace);
            handles.push(tokio::task::spawn(async move {
                for id in slice {
                    trace.lock().unwrap().push(TaskEvent::Started { id });
                    tokio::task::yield_now().await;
                    trace.lock().unwrap().push(TaskEvent::Finished { id });
                }
            }));
        }
        for h in handles {
            h.await.unwrap();
        }
    });

    let trace = trace.lock().unwrap();
    assert_eq!(trace.len(), 2 * plan.total_tasks() as usize);
    assert!(check_bounded(&trace, width));

    let mut started: Vec<u64> = trace
        .iter()
        .filter_map(|e| match e {
            TaskEvent::Started { id } => Some(*id),
            TaskEvent::Finished { .. } => None,
        })
        .collect();
    started.sort_unstable();
    let expected: Vec<u64> = (0..plan.total_tasks()).collect();
    assert_eq!(started, expected);

    // regression: the artifact names derived from the ids that actually
    // ran concurrently are all distinct, so no two workers could ever
    // have touched the same artifact
    let names: Vec<String> = started.iter().map(|&id| artifact_name(id)).collect();
    for i in 0..names.len() {
        for j in (i + 1)..names.len() {
            assert_ne!(names[i], names[j]);
        }
    }
}
