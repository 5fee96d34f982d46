//! The structured record a task produces: its id, two numeric aggregates
//! (carried as their raw bit patterns), a fixed-size sample of the matrix
//! product, and a fixed-size nested list of synthetic sub-records derived
//! from the id alone.

use vstd::prelude::*;

verus! {

/// How many synthetic sub-records every record embeds.
pub const SUB_COUNT: usize = 4;

/// How many matrix entries every record samples.
pub const SAMPLE_COUNT: usize = 3;

/// One synthetic sub-record: its position and a value derived from the
/// owning task's id.
#[derive(Clone, Copy, PartialEq, Eq, Structural, Debug)]
pub struct SubRecord {
    pub index: u64,
    pub value: u64,
}

/// The value of the sub-record at position `j` for task `id`.
pub open spec fn spec_sub_value(id: u64, j: u64) -> u64 {
    (id % 1000 + 1000 * j) as u64
}

/// The full synthetic sub-record list for task `id`.
pub open spec fn spec_sub_records(id: u64) -> Seq<SubRecord> {
    Seq::new(
        SUB_COUNT as nat,
        |j: int| SubRecord { index: j as u64, value: spec_sub_value(id, j as u64) },
    )
}

/// The structured output of one task.
#[derive(Debug)]
pub struct WorkRecord {
    pub id: u64,
    pub math_bits: u64,
    pub aux_bits: u64,
    pub sample: Vec<u64>,
    pub subs: Vec<SubRecord>,
}

impl WorkRecord {
    /// A record is well formed when its sample and its sub-record list
    /// have their fixed sizes.
    pub open spec fn wf(self) -> bool {
        &&& self.sample@.len() == SAMPLE_COUNT
        &&& self.subs@.len() == SUB_COUNT
    }
}

/// Builds the synthetic sub-record list for a task id.
pub fn build_sub_records(id: u64) -> (r: Vec<SubRecord>)
    ensures
        r@ == spec_sub_records(id),
{
    let mut r: Vec<SubRecord> = Vec::new();
    let mut j: usize = 0;
    while j < SUB_COUNT
        invariant
            j <= SUB_COUNT,
            r@ =~= spec_sub_records(id).subrange(0, j as int),
        decreases SUB_COUNT - j,
    {
        let value: u64 = id % 1000 + 1000 * (j as u64);
        r.push(SubRecord { index: j as u64, value });
        proof {
            assert(r@ =~= spec_sub_records(id).subrange(0, j + 1 as int));
        }
        j = j + 1;
    }
    proof {
        assert(r@ =~= spec_sub_records(id));
    }
    r
}

/// Builds the record for a task: the task's id, the two aggregate bit
/// patterns, the three sampled matrix entries, and the synthetic
/// sub-record list. Every field is a function of the arguments alone, so
/// two calls with equal arguments build equal records.
pub fn build_record(id: u64, math_bits: u64, aux_bits: u64, s0: u64, s1: u64, s2: u64) -> (r:
    WorkRecord)
    ensures
        r.id == id,
        r.math_bits == math_bits,
        r.aux_bits == aux_bits,
        r.sample@ == seq![s0, s1, s2],
        r.subs@ == spec_sub_records(id),
        r.wf(),
{
    let mut sample: Vec<u64> = Vec::new();
    sample.push(s0);
    sample.push(s1);
    sample.push(s2);
    proof {
        assert(sample@ =~= seq![s0, s1, s2]);
    }
    let subs = build_sub_records(id);
    WorkRecord { id, math_bits, aux_bits, sample, subs }
}

} // verus!
