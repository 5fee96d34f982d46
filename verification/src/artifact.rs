//! Artifact naming. Each task persists its record under a name derived
//! from its run-wide-unique id, so that concurrently running tasks can
//! never collide on the filesystem namespace.

use vstd::prelude::*;
use vstd::string::StringExecFns;
use crate::digits::{spec_digits, u64_to_string, lemma_spec_digits_injective};

verus! {

/// The artifact name a task with the given id writes, reads and deletes.
pub open spec fn spec_artifact_name(id: u64) -> Seq<char> {
    "task_output_"@ + spec_digits(id as int) + ".json"@
}

/// Builds the artifact name for a task id.
pub fn artifact_name(id: u64) -> (r: String)
    ensures
        r@ == spec_artifact_name(id),
{
    let mut s = "task_output_".to_owned();
    let num = u64_to_string(id);
    s.append(num.as_str());
    s.append(".json");
    proof {
        assert(s@ =~= spec_artifact_name(id));
    }
    s
}

/// Collision-freedom: distinct task ids always derive distinct artifact
/// names, so no two tasks of one run ever touch the same artifact.
pub proof fn lemma_artifact_names_distinct(a: u64, b: u64)
    requires
        a != b,
    ensures
        spec_artifact_name(a) != spec_artifact_name(b),
{
    let p = "task_output_"@;
    let q = ".json"@;
    let da = spec_digits(a as int);
    let db = spec_digits(b as int);
    if spec_artifact_name(a) == spec_artifact_name(b) {
        assert((p + da + q).len() == p.len() + da.len() + q.len());
        assert((p + db + q).len() == p.len() + db.len() + q.len());
        assert(da.len() == db.len());
        assert(da =~= (p + da + q).subrange(p.len() as int, p.len() + da.len() as int));
        assert(db =~= (p + db + q).subrange(p.len() as int, p.len() + db.len() as int));
        assert(da == db);
        lemma_spec_digits_injective(a as int, b as int);
    }
}

} // verus!
