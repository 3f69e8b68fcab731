//! Identities of the idempotent recovery operations ledger: the durable
//! `operation_id`, the `logical_request_key` that makes one operation per
//! logical request, and the operator-intent digest, each the SHA-256 of
//! length-prefixed binding fields.

use vstd::prelude::*;
use vstd::utf8::{decode_utf8, encode_utf8};
use crate::digest::{
    be_bytes, frame64, i64_be, i64_be_bytes, lemma_frame64_split, push_len_prefixed, sha256_hex,
    sha256_hex_spec,
};
use crate::text::str_eq;

verus! {

/// Table name for the idempotent recovery operations ledger.
pub const RECOVERY_OPERATIONS_TABLE: &'static str = "recovery_operations";

/// The durable status of a recovery operation.
#[derive(Debug, Clone, PartialEq, Eq)]
pub enum OperationStatus {
    /// Reserved but not yet finalized; carries a guarded owner/lease claim.
    Pending,
    /// Finalized with a serialized prior outcome.
    Completed,
    /// Finalized as refused.
    Refused,
    /// Finalized as a conflict.
    Conflict,
}

impl OperationStatus {
    /// The string stored in the `status` column.
    pub open spec fn label(self) -> Seq<char> {
        match self {
            OperationStatus::Pending => "pending"@,
            OperationStatus::Completed => "completed"@,
            OperationStatus::Refused => "refused"@,
            OperationStatus::Conflict => "conflict"@,
        }
    }

    /// The status a stored string denotes, if any.
    pub open spec fn from_label(s: Seq<char>) -> Option<OperationStatus> {
        if s == "pending"@ {
            Some(OperationStatus::Pending)
        } else if s == "completed"@ {
            Some(OperationStatus::Completed)
        } else if s == "refused"@ {
            Some(OperationStatus::Refused)
        } else if s == "conflict"@ {
            Some(OperationStatus::Conflict)
        } else {
            None
        }
    }

    /// The string stored in the `status` column.
    pub fn as_str(&self) -> (r: &'static str)
        ensures
            r@ == self.label(),
    {
        match self {
            OperationStatus::Pending => "pending",
            OperationStatus::Completed => "completed",
            OperationStatus::Refused => "refused",
            OperationStatus::Conflict => "conflict",
        }
    }

    /// Parse a persisted status string, `None` for unknown values.
    pub fn parse_str(s: &str) -> (r: Option<Self>)
        ensures
            r == Self::from_label(s@),
    {
        if str_eq(s, "pending") {
            Some(OperationStatus::Pending)
        } else if str_eq(s, "completed") {
            Some(OperationStatus::Completed)
        } else if str_eq(s, "refused") {
            Some(OperationStatus::Refused)
        } else if str_eq(s, "conflict") {
            Some(OperationStatus::Conflict)
        } else {
            None
        }
    }
}

/// Law: every status parses back from the string it is stored as.
pub proof fn lemma_operation_status_round_trip(status: OperationStatus)
    ensures
        OperationStatus::from_label(status.label()) == Some(status),
{
    reveal_strlit("pending");
    reveal_strlit("completed");
    reveal_strlit("refused");
    reveal_strlit("conflict");
    assert("pending"@.len() == 7);
    assert("completed"@.len() == 9);
    assert("refused"@.len() == 7);
    assert("conflict"@.len() == 8);
    assert("pending"@[0] != "refused"@[0]);
}

/// The outcome of attempting to adopt an expired-lease `Pending` operation.
#[derive(Debug, Clone, PartialEq, Eq)]
pub enum AdoptOutcome {
    /// The lease was expired and ownership was claimed by the caller.
    Adopted,
    /// The lease was still live; the caller must not execute or reconcile.
    StillOwned,
}

/// Classify the guarded adoption update by the number of rows it changed:
/// exactly one row means the caller adopted the operation.
pub fn adopt_outcome(affected: usize) -> (r: AdoptOutcome)
    ensures
        r == (if affected == 1 { AdoptOutcome::Adopted } else { AdoptOutcome::StillOwned }),
{
    if affected == 1 {
        AdoptOutcome::Adopted
    } else {
        AdoptOutcome::StillOwned
    }
}

/// The bytes that bind the source attempt: a `0` tag for a fresh run with
/// no source attempt, else a `1` tag and the attempt's big-endian id, so
/// that no source attempt and attempt `0` stay apart.
pub open spec fn source_attempt_bytes(source_attempt_id: Option<i64>) -> Seq<u8> {
    match source_attempt_id {
        Some(id) => seq![1u8] + i64_be(id),
        None => seq![0u8],
    }
}

/// The bytes the `operation_id` is the SHA-256 of.
pub open spec fn operation_id_bytes(
    run_id: Seq<char>,
    step_id: Seq<char>,
    capsule_envelope_digest: Seq<char>,
    source_attempt_id: Option<i64>,
    normalized_intent: Seq<char>,
) -> Seq<u8> {
    frame64(encode_utf8(run_id)) + frame64(encode_utf8(step_id)) + frame64(
        encode_utf8(capsule_envelope_digest),
    ) + frame64(source_attempt_bytes(source_attempt_id)) + frame64(encode_utf8(normalized_intent))
}

/// The bytes the `logical_request_key` is the SHA-256 of.
pub open spec fn logical_request_bytes(
    run_id: Seq<char>,
    source_attempt_id: Option<i64>,
    normalized_intent: Seq<char>,
) -> Seq<u8> {
    frame64(encode_utf8(run_id)) + frame64(source_attempt_bytes(source_attempt_id)) + frame64(
        encode_utf8(normalized_intent),
    )
}

fn source_attempt_vec(source_attempt_id: Option<i64>) -> (r: Vec<u8>)
    ensures
        r@ == source_attempt_bytes(source_attempt_id),
{
    let mut v: Vec<u8> = Vec::new();
    match source_attempt_id {
        Some(id) => {
            v.push(1u8);
            let be = i64_be_bytes(id);
            let mut i: usize = 0;
            while i < be.len()
                invariant
                    i <= be@.len(),
                    be@ == i64_be(id),
                    v@ == seq![1u8] + be@.take(i as int),
                decreases be@.len() - i,
            {
                v.push(be[i]);
                assert(be@.take(i + 1) =~= be@.take(i as int).push(be@[i as int]));
                i = i + 1;
            }
            assert(be@.take(be@.len() as int) =~= be@);
        },
        None => {
            v.push(0u8);
            assert(v@ =~= seq![0u8]);
        },
    }
    v
}

/// The durable row identity of a recovery operation: the lowercase hex
/// SHA-256 over the length-prefixed run, step, capsule envelope digest,
/// source attempt and normalized operator intent.
pub fn compute_operation_id(
    run_id: &str,
    step_id: &str,
    capsule_envelope_digest: &str,
    source_attempt_id: Option<i64>,
    normalized_intent: &str,
) -> (r: String)
    ensures
        r@ == sha256_hex_spec(
            operation_id_bytes(run_id@, step_id@, capsule_envelope_digest@, source_attempt_id, normalized_intent@),
        ),
        r@.len() == 64,
{
    let mut buf: Vec<u8> = Vec::new();
    push_len_prefixed(&mut buf, run_id.as_bytes());
    push_len_prefixed(&mut buf, step_id.as_bytes());
    push_len_prefixed(&mut buf, capsule_envelope_digest.as_bytes());
    let source = source_attempt_vec(source_attempt_id);
    push_len_prefixed(&mut buf, source.as_slice());
    push_len_prefixed(&mut buf, normalized_intent.as_bytes());
    assert(buf@ =~= operation_id_bytes(
        run_id@,
        step_id@,
        capsule_envelope_digest@,
        source_attempt_id,
        normalized_intent@,
    ));
    sha256_hex(buf.as_slice())
}

/// The normalized logical request key: the lowercase hex SHA-256 over the
/// length-prefixed run, source attempt and normalized operator intent.
pub fn compute_logical_request_key(
    run_id: &str,
    source_attempt_id: Option<i64>,
    normalized_intent: &str,
) -> (r: String)
    ensures
        r@ == sha256_hex_spec(logical_request_bytes(run_id@, source_attempt_id, normalized_intent@)),
        r@.len() == 64,
{
    let mut buf: Vec<u8> = Vec::new();
    push_len_prefixed(&mut buf, run_id.as_bytes());
    let source = source_attempt_vec(source_attempt_id);
    push_len_prefixed(&mut buf, source.as_slice());
    push_len_prefixed(&mut buf, normalized_intent.as_bytes());
    assert(buf@ =~= logical_request_bytes(run_id@, source_attempt_id, normalized_intent@));
    sha256_hex(buf.as_slice())
}

/// The lowercase hex SHA-256 of the normalized intent's UTF-8 bytes.
pub fn compute_intent_digest(normalized_intent: &str) -> (r: String)
    ensures
        r@ == sha256_hex_spec(encode_utf8(normalized_intent@)),
        r@.len() == 64,
{
    sha256_hex(normalized_intent.as_bytes())
}

/// Law: different source attempts (a fresh run with none among them) give
/// different bytes; equal bytes come from the same source attempt.
pub proof fn lemma_source_attempt_bytes(a: Option<i64>, b: Option<i64>)
    ensures
        source_attempt_bytes(a) == source_attempt_bytes(b) <==> a == b,
{
    if source_attempt_bytes(a) == source_attempt_bytes(b) {
        match (a, b) {
            (Some(x), Some(y)) => {
                assert(source_attempt_bytes(a).subrange(1, 9) =~= i64_be(x)) by {
                    crate::digest::lemma_be_bytes_len((x as u64) as nat, 8);
                }
                assert(source_attempt_bytes(b).subrange(1, 9) =~= i64_be(y)) by {
                    crate::digest::lemma_be_bytes_len((y as u64) as nat, 8);
                }
                crate::digest::lemma_i64_be_injective(x, y);
            },
            (Some(x), None) => {
                assert(source_attempt_bytes(a)[0] == 1u8);
                assert(source_attempt_bytes(b)[0] == 0u8);
            },
            (None, Some(y)) => {
                assert(source_attempt_bytes(a)[0] == 0u8);
                assert(source_attempt_bytes(b)[0] == 1u8);
            },
            (None, None) => {},
        }
    }
}

/// Law: the length-prefixed binding of an operation id keeps its fields
/// apart: two bindings hash the same bytes only when their run, step,
/// capsule envelope digest, source attempt and intent are all equal.
pub proof fn lemma_operation_binding_unambiguous(
    run_a: Seq<char>,
    step_a: Seq<char>,
    capsule_a: Seq<char>,
    source_a: Option<i64>,
    intent_a: Seq<char>,
    run_b: Seq<char>,
    step_b: Seq<char>,
    capsule_b: Seq<char>,
    source_b: Option<i64>,
    intent_b: Seq<char>,
)
    requires
        encode_utf8(run_a).len() <= u64::MAX,
        encode_utf8(step_a).len() <= u64::MAX,
        encode_utf8(capsule_a).len() <= u64::MAX,
        encode_utf8(intent_a).len() <= u64::MAX,
        encode_utf8(run_b).len() <= u64::MAX,
        encode_utf8(step_b).len() <= u64::MAX,
        encode_utf8(capsule_b).len() <= u64::MAX,
        encode_utf8(intent_b).len() <= u64::MAX,
        operation_id_bytes(run_a, step_a, capsule_a, source_a, intent_a) == operation_id_bytes(
            run_b,
            step_b,
            capsule_b,
            source_b,
            intent_b,
        ),
    ensures
        run_a == run_b,
        step_a == step_b,
        capsule_a == capsule_b,
        intent_a == intent_b,
        source_a == source_b,
{
    let (ra, rb) = (encode_utf8(run_a), encode_utf8(run_b));
    let (sa, sb) = (encode_utf8(step_a), encode_utf8(step_b));
    let (ca, cb) = (encode_utf8(capsule_a), encode_utf8(capsule_b));
    let (xa, xb) = (source_attempt_bytes(source_a), source_attempt_bytes(source_b));
    let (ia, ib) = (encode_utf8(intent_a), encode_utf8(intent_b));
    lemma_source_attempt_bytes_len(source_a);
    lemma_source_attempt_bytes_len(source_b);
    crate::digest::lemma_frames_split5(ra, sa, ca, xa, ia, rb, sb, cb, xb, ib);
    vstd::utf8::encode_utf8_decode_utf8(run_a);
    vstd::utf8::encode_utf8_decode_utf8(run_b);
    vstd::utf8::encode_utf8_decode_utf8(step_a);
    vstd::utf8::encode_utf8_decode_utf8(step_b);
    vstd::utf8::encode_utf8_decode_utf8(capsule_a);
    vstd::utf8::encode_utf8_decode_utf8(capsule_b);
    vstd::utf8::encode_utf8_decode_utf8(intent_a);
    vstd::utf8::encode_utf8_decode_utf8(intent_b);
    lemma_source_attempt_bytes(source_a, source_b);
}

/// The source-attempt bytes are at most 9 long.
proof fn lemma_source_attempt_bytes_len(a: Option<i64>)
    ensures
        source_attempt_bytes(a).len() <= 9,
{
    match a {
        Some(v) => crate::digest::lemma_be_bytes_len((v as u64) as nat, 8),
        None => {},
    }
}

/// Law: the logical request key's binding keeps its fields apart: two
/// requests hash the same bytes only when their run, source attempt and
/// intent are all equal.
pub proof fn lemma_logical_request_unambiguous(
    run_a: Seq<char>,
    source_a: Option<i64>,
    intent_a: Seq<char>,
    run_b: Seq<char>,
    source_b: Option<i64>,
    intent_b: Seq<char>,
)
    requires
        encode_utf8(run_a).len() <= u64::MAX,
        encode_utf8(intent_a).len() <= u64::MAX,
        encode_utf8(run_b).len() <= u64::MAX,
        encode_utf8(intent_b).len() <= u64::MAX,
        logical_request_bytes(run_a, source_a, intent_a) == logical_request_bytes(run_b, source_b, intent_b),
    ensures
        run_a == run_b,
        intent_a == intent_b,
        source_a == source_b,
{
    lemma_source_attempt_bytes_len(source_a);
    lemma_source_attempt_bytes_len(source_b);
    crate::digest::lemma_frames_split3(
        encode_utf8(run_a),
        source_attempt_bytes(source_a),
        encode_utf8(intent_a),
        encode_utf8(run_b),
        source_attempt_bytes(source_b),
        encode_utf8(intent_b),
    );
    vstd::utf8::encode_utf8_decode_utf8(run_a);
    vstd::utf8::encode_utf8_decode_utf8(run_b);
    vstd::utf8::encode_utf8_decode_utf8(intent_a);
    vstd::utf8::encode_utf8_decode_utf8(intent_b);
    lemma_source_attempt_bytes(source_a, source_b);
}

} // verus!
