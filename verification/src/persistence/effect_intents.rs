//! Durable effect intents for recoverable external effects (commit, push,
//! open PR, merge): the stable effect key, the exact binding an intent is
//! prepared with, and the reconciliation of an intent against observed
//! external state.

use vstd::prelude::*;
use vstd::utf8::encode_utf8;
use crate::digest::{frame64, i64_be, i64_be_bytes, push_len_prefixed, sha256_hex, sha256_hex_spec};
use crate::text::{
    clone_opt_string, decimal, opt_as_str, opt_chars, opt_str_chars, opt_str_eq, owned, push_str,
    str_eq, string_eq, u64_to_string,
};

verus! {

/// Table name for the durable effect-intent state machine.
pub const EFFECT_INTENTS_TABLE: &'static str = "effect_intents";

/// Fixed canonicalization version for effect payloads.
pub const PAYLOAD_VERSION: u32 = 1;

/// The kind of external effect an intent records.
#[derive(Debug, Clone, PartialEq, Eq)]
pub enum EffectKind {
    /// A `git commit` effect.
    Commit,
    /// A `git push` effect.
    Push,
    /// A `gh pr create` effect.
    OpenPr,
    /// A `gh pr merge` effect.
    Merge,
}

impl EffectKind {
    /// The string stored in the `effect_kind` column.
    pub open spec fn label(self) -> Seq<char> {
        match self {
            EffectKind::Commit => "commit"@,
            EffectKind::Push => "push"@,
            EffectKind::OpenPr => "open_pr"@,
            EffectKind::Merge => "merge"@,
        }
    }

    /// The kind a stored string denotes, if any.
    pub open spec fn from_label(s: Seq<char>) -> Option<EffectKind> {
        if s == "commit"@ {
            Some(EffectKind::Commit)
        } else if s == "push"@ {
            Some(EffectKind::Push)
        } else if s == "open_pr"@ {
            Some(EffectKind::OpenPr)
        } else if s == "merge"@ {
            Some(EffectKind::Merge)
        } else {
            None
        }
    }

    /// The string stored in the `effect_kind` column.
    pub fn as_str(&self) -> (r: &'static str)
        ensures
            r@ == self.label(),
    {
        match self {
            EffectKind::Commit => "commit",
            EffectKind::Push => "push",
            EffectKind::OpenPr => "open_pr",
            EffectKind::Merge => "merge",
        }
    }

    /// Parse a persisted kind string, `None` for unknown values.
    pub fn parse_str(s: &str) -> (r: Option<Self>)
        ensures
            r == Self::from_label(s@),
    {
        if str_eq(s, "commit") {
            Some(EffectKind::Commit)
        } else if str_eq(s, "push") {
            Some(EffectKind::Push)
        } else if str_eq(s, "open_pr") {
            Some(EffectKind::OpenPr)
        } else if str_eq(s, "merge") {
            Some(EffectKind::Merge)
        } else {
            None
        }
    }
}

/// Law: every effect kind parses back from the string it is stored as.
pub proof fn lemma_effect_kind_round_trip(kind: EffectKind)
    ensures
        EffectKind::from_label(kind.label()) == Some(kind),
{
    reveal_strlit("commit");
    reveal_strlit("push");
    reveal_strlit("open_pr");
    reveal_strlit("merge");
    assert("commit"@.len() == 6);
    assert("push"@.len() == 4);
    assert("open_pr"@.len() == 7);
    assert("merge"@.len() == 5);
}

/// External state observed by an effect-specific reconciler.
#[derive(Debug, Clone, PartialEq, Eq)]
pub struct ObservedState {
    /// Observed local HEAD SHA (commit reconciliation).
    pub head_sha: Option<String>,
    /// Observed remote ref SHA (push reconciliation).
    pub remote_ref_sha: Option<String>,
    /// Observed matching PR number for the head (open-PR reconciliation).
    pub matching_pr_number: Option<u64>,
}

/// The verdict of reconciling an effect against observed external state.
#[derive(Debug, Clone, PartialEq, Eq)]
pub enum ReconcileVerdict {
    /// The effect is already completed; carries the observed result, if any.
    Completed { result: Option<String> },
    /// The effect has not yet taken effect; the caller must re-issue it.
    NeedsReissue,
    /// The observed state conflicts with the expected binding.
    Conflict { detail: String },
}

/// A row in the durable effect-intents table.
#[derive(Debug, Clone, PartialEq, Eq)]
pub struct EffectIntent {
    /// Stable unique key.
    pub effect_key: String,
    /// Bound to the recovery operation.
    pub operation_id: String,
    /// Bound to the attempt.
    pub attempt_id: i64,
    /// Ordinal within the attempt.
    pub sequence: i64,
    /// The effect kind.
    pub effect_kind: EffectKind,
    /// Canonical serialization of the effect payload.
    pub canonical_payload: Vec<u8>,
    /// SHA-256 of `canonical_payload`.
    pub payload_digest: String,
    /// Canonicalization version.
    pub payload_version: u32,
    /// Expected target (e.g. branch name, PR number).
    pub expected_target: Option<String>,
    /// Expected predecessor (e.g. expected parent commit SHA).
    pub expected_predecessor: Option<String>,
    /// Observed result after the effect.
    pub observed_result: Option<String>,
    /// `'prepared'|'completed'|'conflict'`.
    pub status: String,
}

/// The bytes an effect key is the SHA-256 of.
pub open spec fn effect_key_bytes(operation_id: Seq<char>, attempt_id: i64, sequence: i64, effect_kind: Seq<char>) -> Seq<u8> {
    frame64(encode_utf8(operation_id)) + frame64(i64_be(attempt_id)) + frame64(i64_be(sequence))
        + frame64(encode_utf8(effect_kind))
}

/// The stable unique effect key: the lowercase hex SHA-256 over the
/// length-prefixed operation id, attempt id, sequence and effect kind.
pub fn compute_effect_key(operation_id: &str, attempt_id: i64, sequence: i64, effect_kind: &str) -> (r: String)
    ensures
        r@ == sha256_hex_spec(effect_key_bytes(operation_id@, attempt_id, sequence, effect_kind@)),
        r@.len() == 64,
{
    let mut buf: Vec<u8> = Vec::new();
    push_len_prefixed(&mut buf, operation_id.as_bytes());
    let attempt = i64_be_bytes(attempt_id);
    push_len_prefixed(&mut buf, attempt.as_slice());
    let seq_bytes = i64_be_bytes(sequence);
    push_len_prefixed(&mut buf, seq_bytes.as_slice());
    push_len_prefixed(&mut buf, effect_kind.as_bytes());
    assert(buf@ =~= effect_key_bytes(operation_id@, attempt_id, sequence, effect_kind@));
    sha256_hex(buf.as_slice())
}

/// Canonical values required to prepare a durable effect intent.
#[derive(Debug, Clone)]
pub struct EffectPreparation<'a> {
    /// Bound to the recovery operation.
    pub operation_id: &'a str,
    /// Bound to the attempt.
    pub attempt_id: i64,
    /// Ordinal within the attempt.
    pub sequence: i64,
    /// The effect kind.
    pub kind: EffectKind,
    /// Raw payload bytes; canonicalized internally.
    pub payload: &'a [u8],
    /// Expected target.
    pub expected_target: Option<&'a str>,
    /// Expected predecessor.
    pub expected_predecessor: Option<&'a str>,
}

/// Canonicalize a payload for an effect kind: the raw bytes as supplied.
pub fn canonicalize_payload(kind: &EffectKind, payload: &[u8]) -> (r: Vec<u8>)
    ensures
        r@ == payload@,
{
    vstd::slice::slice_to_vec(payload)
}

impl<'a> EffectPreparation<'a> {
    /// The stable effect key this preparation is stored under.
    pub fn effect_key(&self) -> (r: String)
        ensures
            r@ == sha256_hex_spec(
                effect_key_bytes(self.operation_id@, self.attempt_id, self.sequence, self.kind.label()),
            ),
            r@.len() == 64,
    {
        compute_effect_key(self.operation_id, self.attempt_id, self.sequence, self.kind.as_str())
    }

    /// The digest of the canonical payload.
    pub fn payload_digest(&self) -> (r: String)
        ensures
            r@ == sha256_hex_spec(self.payload@),
            r@.len() == 64,
    {
        let canonical = canonicalize_payload(&self.kind, self.payload);
        sha256_hex(canonical.as_slice())
    }

    /// Whether an existing intent under the same key carries exactly this
    /// binding: the same payload digest, expected target and expected
    /// predecessor. A mismatch is a conflict; a match makes the preparation
    /// idempotent.
    pub fn binding_matches(&self, existing: &EffectIntent) -> (r: bool)
        ensures
            r == (existing.payload_digest@ == sha256_hex_spec(self.payload@)
                && opt_chars(existing.expected_target) == opt_str_chars(self.expected_target)
                && opt_chars(existing.expected_predecessor) == opt_str_chars(self.expected_predecessor)),
    {
        let digest = self.payload_digest();
        let target_matches = opt_str_eq(opt_as_str(&existing.expected_target), self.expected_target);
        let predecessor_matches = opt_str_eq(
            opt_as_str(&existing.expected_predecessor),
            self.expected_predecessor,
        );
        string_eq(&existing.payload_digest, &digest) && target_matches && predecessor_matches
    }
}

/// A terminal transition the reconciler applies to an intent.
#[derive(Debug, Clone, PartialEq, Eq)]
pub struct EffectFinalize {
    /// `'completed'` or `'conflict'`.
    pub status: &'static str,
    /// The observed result recorded with the transition.
    pub observed_result: Option<String>,
}

/// What reconciling an intent decides: the verdict, and the terminal
/// transition to apply to the intent first, if any.
#[derive(Debug, Clone, PartialEq, Eq)]
pub struct ReconcilePlan {
    pub verdict: ReconcileVerdict,
    pub finalize: Option<EffectFinalize>,
}

/// The characters a reconcile verdict carries.
pub enum VerdictShape {
    Completed(Option<Seq<char>>),
    NeedsReissue,
    Conflict(Seq<char>),
}

/// A plan's shape, with the characters of its strings.
pub open spec fn plan_is(
    plan: ReconcilePlan,
    verdict: VerdictShape,
    finalize: Option<(Seq<char>, Option<Seq<char>>)>,
) -> bool {
    &&& match (plan.verdict, verdict) {
        (ReconcileVerdict::Completed { result: a }, VerdictShape::Completed(b)) => opt_chars(a) == b,
        (ReconcileVerdict::NeedsReissue, VerdictShape::NeedsReissue) => true,
        (ReconcileVerdict::Conflict { detail: a }, VerdictShape::Conflict(b)) => a@ == b,
        _ => false,
    }
    &&& match (plan.finalize, finalize) {
        (None, None) => true,
        (Some(f), Some((status, result))) => f.status@ == status && opt_chars(f.observed_result)
            == result,
        _ => false,
    }
}

/// The reconciliation of a prepared intent against an observed SHA: the
/// expected target means completed, the expected predecessor means not yet
/// done, anything else is a conflict.
pub open spec fn reconcile_sha_spec(
    plan: ReconcilePlan,
    observed: Option<String>,
    intent: EffectIntent,
    conflict_detail: Seq<char>,
) -> bool {
    if opt_chars(observed) == opt_chars(intent.expected_target) {
        plan_is(plan, VerdictShape::Completed(opt_chars(observed)), Some(("completed"@, opt_chars(observed))))
    } else if opt_chars(observed) == opt_chars(intent.expected_predecessor) {
        plan_is(plan, VerdictShape::NeedsReissue, None)
    } else {
        plan_is(plan, VerdictShape::Conflict(conflict_detail), Some(("conflict"@, None)))
    }
}

/// The full reconciliation decision. `merge_result_sha` is the result SHA of
/// the typed merge artifact recorded for the intent's run, when one exists.
pub open spec fn reconcile_spec(
    r: Result<ReconcilePlan, String>,
    intent: EffectIntent,
    observed: ObservedState,
    merge_result_sha: Option<String>,
) -> bool {
    if intent.status@ == "completed"@ {
        match r {
            Ok(plan) => plan_is(plan, VerdictShape::Completed(opt_chars(intent.observed_result)), None),
            Err(_) => false,
        }
    } else if intent.status@ == "conflict"@ {
        match r {
            Ok(plan) => plan_is(plan, VerdictShape::Conflict("prior conflict"@), None),
            Err(_) => false,
        }
    } else if intent.status@ == "prepared"@ {
        match r {
            Ok(plan) => match intent.effect_kind {
                EffectKind::Commit => reconcile_sha_spec(plan, observed.head_sha, intent, "unexpected HEAD"@),
                EffectKind::Push => reconcile_sha_spec(
                    plan,
                    observed.remote_ref_sha,
                    intent,
                    "remote ref diverged"@,
                ),
                EffectKind::OpenPr => match observed.matching_pr_number {
                    Some(n) => plan_is(
                        plan,
                        VerdictShape::Completed(Some(decimal(n as nat))),
                        Some(("completed"@, Some(decimal(n as nat)))),
                    ),
                    None => plan_is(plan, VerdictShape::NeedsReissue, None),
                },
                EffectKind::Merge => match merge_result_sha {
                    Some(sha) => plan_is(
                        plan,
                        VerdictShape::Completed(Some(sha@)),
                        Some(("completed"@, Some(sha@))),
                    ),
                    None => plan_is(plan, VerdictShape::NeedsReissue, None),
                },
            },
            Err(_) => false,
        }
    } else {
        match r {
            Ok(_) => false,
            Err(msg) => msg@ == "unknown effect intent status '"@ + intent.status@ + "'"@,
        }
    }
}

fn reconcile_sha(
    observed: &Option<String>,
    intent: &EffectIntent,
    conflict_detail: &'static str,
) -> (plan: ReconcilePlan)
    ensures
        reconcile_sha_spec(plan, *observed, *intent, conflict_detail@),
{
    let seen = opt_as_str(observed);
    if opt_str_eq(seen, opt_as_str(&intent.expected_target)) {
        ReconcilePlan {
            verdict: ReconcileVerdict::Completed { result: clone_opt_string(observed) },
            finalize: Some(EffectFinalize { status: "completed", observed_result: clone_opt_string(observed) }),
        }
    } else if opt_str_eq(seen, opt_as_str(&intent.expected_predecessor)) {
        ReconcilePlan { verdict: ReconcileVerdict::NeedsReissue, finalize: None }
    } else {
        ReconcilePlan {
            verdict: ReconcileVerdict::Conflict { detail: owned(conflict_detail) },
            finalize: Some(EffectFinalize { status: "conflict", observed_result: None }),
        }
    }
}

/// Reconcile an intent against observed external state.
///
/// A completed intent reports its recorded result; a conflicted one reports
/// the prior conflict. A prepared intent is judged per kind: commit by the
/// observed HEAD, push by the observed remote ref (the expected target means
/// completed, the expected predecessor means reissue, anything else
/// conflicts), open-PR by an observed matching PR, merge by a recorded typed
/// merge artifact. Any other stored status is refused.
pub fn plan_reconcile(
    intent: &EffectIntent,
    observed: &ObservedState,
    merge_result_sha: Option<String>,
) -> (r: Result<ReconcilePlan, String>)
    ensures
        reconcile_spec(r, *intent, *observed, merge_result_sha),
        intent.status@ == "conflict"@ ==> match r {
            Ok(plan) => plan.finalize is None && match plan.verdict {
                ReconcileVerdict::Conflict { detail } => detail@ == "prior conflict"@,
                _ => false,
            },
            Err(_) => false,
        },
        intent.status@ == "completed"@ ==> match r {
            Ok(plan) => plan.finalize is None && match plan.verdict {
                ReconcileVerdict::Completed { result } => opt_chars(result) == opt_chars(intent.observed_result),
                _ => false,
            },
            Err(_) => false,
        },
        r matches Ok(plan) && (plan.finalize is Some || plan.verdict is NeedsReissue) ==> intent.status@
            == "prepared"@,
        r is Err <==> (intent.status@ != "prepared"@ && intent.status@ != "completed"@ && intent.status@
            != "conflict"@),
{
    proof {
        reveal_strlit("prepared");
        reveal_strlit("completed");
        reveal_strlit("conflict");
        assert("prepared"@.len() == 8);
        assert("completed"@.len() == 9);
        assert("conflict"@.len() == 8);
        assert("prepared"@[0] != "conflict"@[0]);
    }
    if str_eq(intent.status.as_str(), "completed") {
        Ok(
            ReconcilePlan {
                verdict: ReconcileVerdict::Completed { result: clone_opt_string(&intent.observed_result) },
                finalize: None,
            },
        )
    } else if str_eq(intent.status.as_str(), "conflict") {
        Ok(
            ReconcilePlan {
                verdict: ReconcileVerdict::Conflict { detail: owned("prior conflict") },
                finalize: None,
            },
        )
    } else if str_eq(intent.status.as_str(), "prepared") {
        match intent.effect_kind {
            EffectKind::Commit => Ok(reconcile_sha(&observed.head_sha, intent, "unexpected HEAD")),
            EffectKind::Push => Ok(reconcile_sha(&observed.remote_ref_sha, intent, "remote ref diverged")),
            EffectKind::OpenPr => match observed.matching_pr_number {
                Some(pr_number) => {
                    let result = u64_to_string(pr_number);
                    Ok(
                        ReconcilePlan {
                            verdict: ReconcileVerdict::Completed { result: Some(result.clone()) },
                            finalize: Some(EffectFinalize { status: "completed", observed_result: Some(result) }),
                        },
                    )
                },
                None => Ok(ReconcilePlan { verdict: ReconcileVerdict::NeedsReissue, finalize: None }),
            },
            EffectKind::Merge => match merge_result_sha {
                Some(sha) => Ok(
                    ReconcilePlan {
                        verdict: ReconcileVerdict::Completed { result: Some(sha.clone()) },
                        finalize: Some(EffectFinalize { status: "completed", observed_result: Some(sha) }),
                    },
                ),
                None => Ok(ReconcilePlan { verdict: ReconcileVerdict::NeedsReissue, finalize: None }),
            },
        }
    } else {
        let mut msg = owned("unknown effect intent status '");
        push_str(&mut msg, intent.status.as_str());
        push_str(&mut msg, "'");
        Err(msg)
    }
}

/// Law: reconciling never reopens a settled intent: an intent recorded as a
/// conflict stays a conflict ("prior conflict") and one recorded as completed
/// reports its recorded result, neither with a transition; only a prepared
/// intent can be reissued or finalized.
pub proof fn lemma_settled_intents_stay_settled(
    r: Result<ReconcilePlan, String>,
    intent: EffectIntent,
    observed: ObservedState,
    merge_result_sha: Option<String>,
)
    requires
        reconcile_spec(r, intent, observed, merge_result_sha),
    ensures
        intent.status@ == "conflict"@ ==> match r {
            Ok(plan) => plan.finalize is None && match plan.verdict {
                ReconcileVerdict::Conflict { detail } => detail@ == "prior conflict"@,
                _ => false,
            },
            Err(_) => false,
        },
        intent.status@ == "completed"@ ==> match r {
            Ok(plan) => plan.finalize is None && match plan.verdict {
                ReconcileVerdict::Completed { result } => opt_chars(result) == opt_chars(intent.observed_result),
                _ => false,
            },
            Err(_) => false,
        },
        r matches Ok(plan) && (plan.finalize is Some || plan.verdict is NeedsReissue) ==> intent.status@
            == "prepared"@,
{
    reveal_strlit("prepared");
    reveal_strlit("completed");
    reveal_strlit("conflict");
    assert("prepared"@.len() == 8);
    assert("completed"@.len() == 9);
    assert("conflict"@.len() == 8);
    assert("prepared"@[0] != "conflict"@[0]);
}

/// Law: a prepared commit or push completes only when the observed SHA is
/// the expected target, and is reissued only when it is the expected
/// predecessor; whatever completes is finalized as completed with the
/// observed SHA.
pub proof fn lemma_sha_effects_complete_on_target(
    r: Result<ReconcilePlan, String>,
    intent: EffectIntent,
    observed: ObservedState,
    merge_result_sha: Option<String>,
)
    requires
        reconcile_spec(r, intent, observed, merge_result_sha),
        intent.status@ == "prepared"@,
        intent.effect_kind == EffectKind::Commit || intent.effect_kind == EffectKind::Push,
    ensures
        ({
            let seen = if intent.effect_kind == EffectKind::Commit {
                observed.head_sha
            } else {
                observed.remote_ref_sha
            };
            match r {
                Ok(plan) => {
                    &&& plan.verdict is Completed ==> opt_chars(seen) == opt_chars(intent.expected_target)
                        && match plan.finalize {
                        Some(f) => f.status@ == "completed"@ && opt_chars(f.observed_result) == opt_chars(seen),
                        None => false,
                    }
                    &&& plan.verdict is NeedsReissue ==> opt_chars(seen) == opt_chars(intent.expected_predecessor)
                    &&& plan.verdict is Conflict ==> opt_chars(seen) != opt_chars(intent.expected_target)
                        && opt_chars(seen) != opt_chars(intent.expected_predecessor)
                },
                Err(_) => false,
            }
        }),
{
    reveal_strlit("prepared");
    reveal_strlit("completed");
    reveal_strlit("conflict");
    assert("prepared"@.len() == 8);
    assert("completed"@.len() == 9);
    assert("conflict"@.len() == 8);
    assert("prepared"@[0] != "conflict"@[0]);
}

/// Law: effect keys are unique per binding: two bindings hash the same
/// bytes only when their operation, attempt, sequence and kind are all
/// equal.
pub proof fn lemma_effect_key_unambiguous(
    operation_a: Seq<char>,
    attempt_a: i64,
    sequence_a: i64,
    kind_a: Seq<char>,
    operation_b: Seq<char>,
    attempt_b: i64,
    sequence_b: i64,
    kind_b: Seq<char>,
)
    requires
        encode_utf8(operation_a).len() <= u64::MAX,
        encode_utf8(kind_a).len() <= u64::MAX,
        encode_utf8(operation_b).len() <= u64::MAX,
        encode_utf8(kind_b).len() <= u64::MAX,
        effect_key_bytes(operation_a, attempt_a, sequence_a, kind_a) == effect_key_bytes(
            operation_b,
            attempt_b,
            sequence_b,
            kind_b,
        ),
    ensures
        operation_a == operation_b,
        attempt_a == attempt_b,
        sequence_a == sequence_b,
        kind_a == kind_b,
{
    crate::digest::lemma_be_bytes_len((attempt_a as u64) as nat, 8);
    crate::digest::lemma_be_bytes_len((attempt_b as u64) as nat, 8);
    crate::digest::lemma_be_bytes_len((sequence_a as u64) as nat, 8);
    crate::digest::lemma_be_bytes_len((sequence_b as u64) as nat, 8);
    crate::digest::lemma_frames_split4(
        encode_utf8(operation_a),
        i64_be(attempt_a),
        i64_be(sequence_a),
        encode_utf8(kind_a),
        encode_utf8(operation_b),
        i64_be(attempt_b),
        i64_be(sequence_b),
        encode_utf8(kind_b),
    );
    vstd::utf8::encode_utf8_decode_utf8(operation_a);
    vstd::utf8::encode_utf8_decode_utf8(operation_b);
    vstd::utf8::encode_utf8_decode_utf8(kind_a);
    vstd::utf8::encode_utf8_decode_utf8(kind_b);
    crate::digest::lemma_i64_be_injective(attempt_a, attempt_b);
    crate::digest::lemma_i64_be_injective(sequence_a, sequence_b);
}

} // verus!
