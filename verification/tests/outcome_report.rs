use rust_benchmark::measure::{conclude, RunReport, RunningMeasurement};
use rust_benchmark::outcome::{collect_outcomes, FailureKind, TaskFailure};
use rust_benchmark::record::{build_record, WorkRecord};

fn ok_record(id: u64) -> Result<WorkRecord, TaskFailure> {
    Ok(build_record(id, 0, 0, 0, 0, 0))
}

#[test]
fn collect_all_successes() {
    let outcomes = vec![ok_record(0), ok_record(1), ok_record(2)];
    let recs = collect_outcomes(outcomes).unwrap();
    assert_eq!(recs.len(), 3);
    for (i, r) in recs.iter().enumerate() {
        assert_eq!(r.id, i as u64);
    }
}

#[test]
fn collect_surfaces_first_failure_with_its_id() {
    let k = 4;
    let outcomes = vec![
        ok_record(0),
        ok_record(1),
        Err(TaskFailure { id: k, kind: FailureKind::Io }),
        ok_record(3),
        Err(TaskFailure { id: 9, kind: FailureKind::Serialization }),
    ];
    let failure = collect_outcomes(outcomes).unwrap_err();
    assert_eq!(failure.id, k);
    assert!(matches!(failure.kind, FailureKind::Io));
}

#[test]
fn collect_empty_run_succeeds() {
    let recs = collect_outcomes(Vec::new()).unwrap();
    assert!(recs.is_empty());
}

#[test]
fn concluded_success_reports_measurement() {
    let running = RunningMeasurement::begin();
    let before = running.before;
    let outcome = Ok(vec![build_record(0, 0, 0, 0, 0, 0)]);
    match conclude(outcome, running) {
        RunReport::Completed { measurement, records } => {
            assert_eq!(measurement.before, before);
            assert_eq!(records.len(), 1);
        },
        RunReport::Failed { .. } => panic!("successful run reported as failed"),
    }
}

#[test]
fn concluded_failure_reports_no_measurement() {
    let running = RunningMeasurement::begin();
    let outcome = Err(TaskFailure { id: 7, kind: FailureKind::ConcurrencySetup });
    match conclude(outcome, running) {
        RunReport::Completed { .. } => panic!("failed run reported a measurement"),
        RunReport::Failed { failure } => {
            assert_eq!(failure.id, 7);
            assert!(matches!(failure.kind, FailureKind::ConcurrencySetup));
        },
    }
}
