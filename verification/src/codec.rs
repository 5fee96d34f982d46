//! The self-describing text form of a record: a canonical JSON rendering
//! whose exact character sequence is pinned by a specification, and the
//! read-back validation that closes a task's write/read/delete cycle.

use vstd::prelude::*;
use vstd::string::StringExecFns;
use crate::digits::{spec_digits, u64_to_string};
use crate::outcome::{FailureKind, TaskFailure};
use crate::record::{SubRecord, WorkRecord};

verus! {

/// The text form of one sub-record: `[index,value]`.
pub open spec fn spec_sub_serialized(s: SubRecord) -> Seq<char> {
    "["@ + spec_digits(s.index as int) + ","@ + spec_digits(s.value as int) + "]"@
}

/// The text form of a sub-record list: the sub-records in order,
/// separated by commas.
pub open spec fn spec_subs_serialized(subs: Seq<SubRecord>) -> Seq<char>
    decreases subs.len(),
{
    if subs.len() == 0 {
        Seq::empty()
    } else if subs.len() == 1 {
        spec_sub_serialized(subs[0])
    } else {
        spec_subs_serialized(subs.drop_last()) + ","@ + spec_sub_serialized(subs.last())
    }
}

/// The full text form of a record: one JSON object holding the id, the
/// two aggregate bit patterns, the sampled matrix entries, and the
/// nested sub-record list.
pub open spec fn spec_serialized(r: WorkRecord) -> Seq<char> {
    "{\"id\":"@ + spec_digits(r.id as int) + ",\"math\":"@ + spec_digits(r.math_bits as int)
        + ",\"aux\":"@ + spec_digits(r.aux_bits as int) + ",\"sample\":["@ + spec_digits(
        r.sample@[0] as int,
    ) + ","@ + spec_digits(r.sample@[1] as int) + ","@ + spec_digits(r.sample@[2] as int)
        + "],\"subs\":["@ + spec_subs_serialized(r.subs@) + "]}"@
}

/// Appends the text form of one sub-record.
fn append_sub(s: &mut String, sub: SubRecord)
    ensures
        final(s)@ == old(s)@ + spec_sub_serialized(sub),
{
    s.append("[");
    let idx = u64_to_string(sub.index);
    s.append(idx.as_str());
    s.append(",");
    let val = u64_to_string(sub.value);
    s.append(val.as_str());
    s.append("]");
    proof {
        assert(s@ =~= old(s)@ + spec_sub_serialized(sub));
    }
}

/// Appends a number.
fn append_u64(s: &mut String, n: u64)
    ensures
        final(s)@ == old(s)@ + spec_digits(n as int),
{
    let num = u64_to_string(n);
    s.append(num.as_str());
}

/// Serializes a record to its canonical text form.
pub fn serialize_record(rec: &WorkRecord) -> (r: String)
    requires
        rec.wf(),
    ensures
        r@ == spec_serialized(*rec),
{
    let mut s = "{\"id\":".to_owned();
    append_u64(&mut s, rec.id);
    s.append(",\"math\":");
    append_u64(&mut s, rec.math_bits);
    s.append(",\"aux\":");
    append_u64(&mut s, rec.aux_bits);
    s.append(",\"sample\":[");
    append_u64(&mut s, rec.sample[0]);
    s.append(",");
    append_u64(&mut s, rec.sample[1]);
    s.append(",");
    append_u64(&mut s, rec.sample[2]);
    s.append("],\"subs\":[");
    let ghost head = s@;
    let mut i: usize = 0;
    let n = rec.subs.len();
    while i < n
        invariant
            rec.subs@.len() == n,
            i <= n,
            s@ == head + spec_subs_serialized(rec.subs@.subrange(0, i as int)),
        decreases n - i,
    {
        if i > 0 {
            s.append(",");
        }
        append_sub(&mut s, rec.subs[i]);
        proof {
            let prefix = rec.subs@.subrange(0, i as int);
            let next = rec.subs@.subrange(0, i + 1 as int);
            assert(next.drop_last() =~= prefix);
            assert(next.last() == rec.subs@[i as int]);
            if i == 0 {
                assert(next =~= seq![rec.subs@[0]]);
                assert(spec_subs_serialized(next) == spec_sub_serialized(rec.subs@[0]));
                assert(s@ =~= head + spec_subs_serialized(next));
            } else {
                assert(spec_subs_serialized(next) == spec_subs_serialized(prefix) + ","@
                    + spec_sub_serialized(rec.subs@[i as int]));
                assert(s@ =~= head + spec_subs_serialized(next));
            }
        }
        i = i + 1;
    }
    s.append("]}");
    proof {
        assert(rec.subs@.subrange(0, n as int) =~= rec.subs@);
        assert(s@ =~= spec_serialized(*rec));
    }
    s
}

/// Whether a piece of text is accepted by the JSON parser. The outcome
/// depends on the characters alone.
pub uninterp spec fn json_accepts(s: Seq<char>) -> bool;

/// Relies on serde_json::from_str: parsing a string slice to a JSON
/// value succeeds or fails on the text alone.
#[verifier::external_body]
fn json_parse_ok(s: &String) -> (r: bool)
    ensures
        r == json_accepts(s@),
{
    serde_json::from_str::<serde_json::Value>(s.as_str()).is_ok()
}

/// Closes a task: validates the content read back from the artifact
/// against the record's canonical text form, parses it as JSON as the
/// round-trip exercise demands, and hands the original record out. Any
/// mismatch or parse refusal is a serialization failure naming the task.
pub fn finish_task(rec: WorkRecord, content: &String) -> (r: Result<WorkRecord, TaskFailure>)
    requires
        rec.wf(),
    ensures
        r is Ok <==> (content@ == spec_serialized(rec) && json_accepts(content@)),
        r matches Ok(out) ==> out == rec,
        r matches Err(f) ==> f.id == rec.id && f.kind == FailureKind::Serialization,
{
    let expected = serialize_record(&rec);
    if !expected.eq(content) {
        return Err(TaskFailure { id: rec.id, kind: FailureKind::Serialization });
    }
    if !json_parse_ok(content) {
        return Err(TaskFailure { id: rec.id, kind: FailureKind::Serialization });
    }
    Ok(rec)
}

} // verus!
