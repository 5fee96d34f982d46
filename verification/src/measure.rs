//! The measurement wrapper around one scheduler invocation: a memory
//! sample and a monotonic timestamp taken before the run, the elapsed
//! time and a second memory sample taken after it, and the rule that a
//! failed run propagates its failure and gets no measurement.

use vstd::prelude::*;
use crate::outcome::TaskFailure;
use crate::record::WorkRecord;

verus! {

#[verifier::external_type_specification]
#[verifier::external_body]
pub struct ExInstant(std::time::Instant);

#[verifier::external_type_specification]
#[verifier::external_body]
pub struct ExSystem(sysinfo::System);

/// Relies on sysinfo::System::new_all: builds a system probe with all
/// information loaded.
#[verifier::external_body]
fn system_new_all() -> sysinfo::System {
    sysinfo::System::new_all()
}

/// Relies on sysinfo::System::refresh_memory: reloads the RAM figures
/// from the operating system.
#[verifier::external_body]
fn system_refresh_memory(sys: &mut sysinfo::System) {
    sys.refresh_memory();
}

/// Relies on sysinfo::System::total_memory: the machine's total RAM in
/// bytes; the machine alone decides the value.
#[verifier::external_body]
fn system_total_memory(sys: &sysinfo::System) -> u64 {
    sys.total_memory()
}

/// Relies on sysinfo::System::used_memory: the machine's used RAM in
/// bytes; the machine alone decides the value.
#[verifier::external_body]
fn system_used_memory(sys: &sysinfo::System) -> u64 {
    sys.used_memory()
}

/// Relies on std::time::Instant::now: a reading of the monotonic clock.
#[verifier::external_body]
fn instant_now() -> std::time::Instant {
    std::time::Instant::now()
}

/// Relies on std::time::Instant::elapsed: the time since the reading
/// was taken.
#[verifier::external_body]
fn instant_elapsed(start: &std::time::Instant) -> std::time::Duration {
    start.elapsed()
}

/// Relies on std::time::Duration::as_nanos: the duration in whole
/// nanoseconds.
#[verifier::external_body]
fn duration_as_nanos(d: &std::time::Duration) -> u128 {
    d.as_nanos()
}

/// One memory sample: the machine's total and used memory, in bytes.
#[derive(Clone, Copy, PartialEq, Eq, Structural, Debug)]
pub struct MemSample {
    pub total: u64,
    pub used: u64,
}

/// The record produced around one scheduler invocation: the elapsed
/// time and the before/after pair of memory samples. Never mutated
/// after creation.
#[derive(Clone, Copy, PartialEq, Eq, Structural, Debug)]
pub struct Measurement {
    pub elapsed_nanos: u128,
    pub before: MemSample,
    pub after: MemSample,
}

/// A measurement in progress: the memory sample and the timestamp taken
/// immediately before the scheduler was invoked.
pub struct RunningMeasurement {
    pub before: MemSample,
    pub start: std::time::Instant,
    pub sys: sysinfo::System,
}

impl RunningMeasurement {
    /// Opens a measurement: samples memory, then takes the start
    /// timestamp. The values are the machine's to decide, so nothing
    /// further is promised of them.
    pub fn begin() -> RunningMeasurement {
        let mut sys = system_new_all();
        system_refresh_memory(&mut sys);
        let before = MemSample {
            total: system_total_memory(&sys),
            used: system_used_memory(&sys),
        };
        let start = instant_now();
        RunningMeasurement { before, start, sys }
    }

    /// Closes a measurement: takes the elapsed time, then samples
    /// memory again. The sample taken before the run is carried over
    /// unchanged.
    pub fn finish(self) -> (m: Measurement)
        ensures
            m.before == self.before,
    {
        let elapsed = instant_elapsed(&self.start);
        let elapsed_nanos = duration_as_nanos(&elapsed);
        let mut sys = self.sys;
        system_refresh_memory(&mut sys);
        let after = MemSample {
            total: system_total_memory(&sys),
            used: system_used_memory(&sys),
        };
        Measurement { elapsed_nanos, before: self.before, after }
    }
}

/// What the harness reports for one measured scheduler invocation: the
/// measurement and every record when the run fully succeeded, or the
/// first task failure — and no measurement — when it did not.
pub enum RunReport {
    Completed { measurement: Measurement, records: Vec<WorkRecord> },
    Failed { failure: TaskFailure },
}

/// Closes a measured run. A fully successful outcome is reported with
/// its measurement; a failure is propagated untouched, and no
/// measurement is reported for that run.
pub fn conclude(outcome: Result<Vec<WorkRecord>, TaskFailure>, running: RunningMeasurement) -> (r:
    RunReport)
    ensures
        outcome matches Ok(recs) ==> (r matches RunReport::Completed { measurement, records }
            && records == recs && measurement.before == running.before),
        outcome matches Err(f) ==> (r matches RunReport::Failed { failure } && failure == f),
{
    match outcome {
        Ok(records) => {
            let measurement = running.finish();
            RunReport::Completed { measurement, records }
        },
        Err(failure) => RunReport::Failed { failure },
    }
}

} // verus!
