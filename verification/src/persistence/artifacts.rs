//! Per-run output files: where a run's artifacts live and the record kept of
//! each one written.

use vstd::prelude::*;
use crate::text::{owned, push_char, push_str};
use crate::time::Timestamp;

verus! {

/// Record of a persisted artifact for a workflow run.
#[derive(Debug, Clone)]
pub struct ArtifactRecord {
    /// The run this artifact belongs to.
    pub run_id: String,
    /// Path to the artifact file.
    pub artifact_path: String,
    /// Kind of artifact (e.g. "log", "output", "trace").
    pub artifact_kind: String,
    /// The step that produced this artifact.
    pub step_id: String,
    /// When the artifact was written.
    pub created_at: Timestamp,
    /// Size in bytes, if known.
    pub size_bytes: Option<u64>,
}

impl ArtifactRecord {
    /// A record of an artifact written at `now`, of unknown size.
    pub fn new(run_id: &str, artifact_path: &str, artifact_kind: &str, step_id: &str, now: Timestamp) -> (r: Self)
        ensures
            r.created_at == now,
            r.run_id@ == run_id@,
            r.artifact_path@ == artifact_path@,
            r.artifact_kind@ == artifact_kind@,
            r.step_id@ == step_id@,
            r.size_bytes is None,
    {
        ArtifactRecord {
            run_id: owned(run_id),
            artifact_path: owned(artifact_path),
            artifact_kind: owned(artifact_kind),
            step_id: owned(step_id),
            created_at: now,
            size_bytes: None,
        }
    }

    /// The same record with a known size.
    pub fn with_size(self, bytes: u64) -> (r: Self)
        ensures
            r.size_bytes == Some(bytes),
            r.run_id == self.run_id,
            r.artifact_path == self.artifact_path,
            r.artifact_kind == self.artifact_kind,
            r.step_id == self.step_id,
            r.created_at == self.created_at,
    {
        ArtifactRecord { size_bytes: Some(bytes), ..self }
    }
}

/// `part` joined under `base` as a Unix path (`Path::join`): an absolute
/// `part` stands alone; otherwise it follows `base`, with a `/` between them
/// unless `base` is empty or already ends with one.
pub open spec fn path_join(base: Seq<char>, part: Seq<char>) -> Seq<char> {
    if part.len() > 0 && part[0] == '/' {
        part
    } else if base.len() == 0 || base.last() == '/' {
        base + part
    } else {
        base + seq!['/'] + part
    }
}

/// `part` under `base`, as a path join does it: an absolute `part` stands
/// alone, else one separator goes between the two.
pub fn join_path(base: &str, part: &str) -> (r: String)
    ensures
        r@ == path_join(base@, part@),
{
    let n = part.unicode_len();
    if n > 0 && part.get_char(0) == '/' {
        return owned(part);
    }
    let m = base.unicode_len();
    let mut path = owned(base);
    if m > 0 && base.get_char(m - 1) != '/' {
        push_char(&mut path, '/');
    }
    push_str(&mut path, part);
    path
}

/// The artifacts directory of a run: the run id under the artifacts root.
pub fn get_artifacts_dir(artifacts_root: &str, run_id: &str) -> (r: String)
    ensures
        r@ == path_join(artifacts_root@, run_id@),
{
    join_path(artifacts_root, run_id)
}

} // verus!
