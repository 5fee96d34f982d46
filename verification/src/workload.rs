//! The verified face of one workload unit. The numeric payload (two
//! transcendental aggregates and a dense matrix product) is a filler
//! computed outside this library and handed in as raw bit patterns; this
//! module pins everything the task then does with it: the record built
//! for the task id, the canonical text written to the artifact, and the
//! run-wide-unique artifact name.

use vstd::prelude::*;
use crate::artifact::{artifact_name, spec_artifact_name};
use crate::codec::{serialize_record, spec_serialized};
use crate::record::{build_record, spec_sub_records, WorkRecord};

verus! {

/// Everything a task needs before touching the filesystem: its record,
/// the artifact name derived from its id, and the exact content to
/// write. The caller writes `content` under `name`, reads it back,
/// deletes the artifact, and closes the task with `finish_task`.
pub struct PreparedTask {
    pub record: WorkRecord,
    pub name: String,
    pub content: String,
}

/// Prepares one task: builds the record embedding the task id, the two
/// aggregate bit patterns and the matrix sample, renders its canonical
/// text form, and derives the artifact name from the id alone.
pub fn prepare_task(id: u64, math_bits: u64, aux_bits: u64, s0: u64, s1: u64, s2: u64) -> (t:
    PreparedTask)
    ensures
        t.record.id == id,
        t.record.math_bits == math_bits,
        t.record.aux_bits == aux_bits,
        t.record.sample@ == seq![s0, s1, s2],
        t.record.subs@ == spec_sub_records(id),
        t.record.wf(),
        t.name@ == spec_artifact_name(id),
        t.content@ == spec_serialized(t.record),
{
    let record = build_record(id, math_bits, aux_bits, s0, s1, s2);
    let name = artifact_name(id);
    let content = serialize_record(&record);
    PreparedTask { record, name, content }
}

/// Determinism of the workload unit's observable output: records that
/// agree on every observable field serialize to the same text and write
/// under the same artifact name, so running a task id twice on the same
/// payload bits produces bit-identical artifacts.
pub proof fn lemma_task_deterministic(r1: WorkRecord, r2: WorkRecord)
    requires
        r1.id == r2.id,
        r1.math_bits == r2.math_bits,
        r1.aux_bits == r2.aux_bits,
        r1.sample@ == r2.sample@,
        r1.subs@ == r2.subs@,
    ensures
        spec_serialized(r1) == spec_serialized(r2),
        spec_artifact_name(r1.id) == spec_artifact_name(r2.id),
{
}

} // verus!
