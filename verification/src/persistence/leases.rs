//! Issue leases: the durable claim that keeps two daemons (or two restarts)
//! from working the same issue. The statements here are built with exactly
//! as many placeholders as values are bound to them.

use vstd::prelude::*;
use crate::text::{owned, push_str, push_u64, push_i64, str_eq, decimal, signed_decimal, opt_chars};
use crate::time::{seconds_before, utc_seconds_representable, Timestamp};

verus! {

/// Lifecycle status of an issue lease.
#[derive(Debug, Clone, Copy, PartialEq, Eq, Structural)]
pub enum LeaseStatus {
    Pending,
    Claimed,
    Running,
    WaitingExternal,
    ReadyToResume,
    Completed,
    Failed,
    Abandoned,
    Stale,
}

/// Result of a conditional lease transition together with the durable state
/// observed when the transition did not apply.
#[derive(Debug, Clone, PartialEq, Eq)]
pub enum ConditionalLeaseStatusOutcome {
    Applied,
    Rejected { current_status: LeaseStatus, current_run_id: Option<String> },
    Missing,
}

impl LeaseStatus {
    /// Terminal states whose lease may be superseded by a fresh claim.
    pub const RECLAIMABLE: [LeaseStatus; 4] = [
        LeaseStatus::Completed,
        LeaseStatus::Failed,
        LeaseStatus::Abandoned,
        LeaseStatus::Stale,
    ];

    /// The canonical lowercase string of a status.
    pub open spec fn label(self) -> Seq<char> {
        match self {
            LeaseStatus::Pending => "pending"@,
            LeaseStatus::Claimed => "claimed"@,
            LeaseStatus::Running => "running"@,
            LeaseStatus::WaitingExternal => "waiting_external"@,
            LeaseStatus::ReadyToResume => "ready_to_resume"@,
            LeaseStatus::Completed => "completed"@,
            LeaseStatus::Failed => "failed"@,
            LeaseStatus::Abandoned => "abandoned"@,
            LeaseStatus::Stale => "stale"@,
        }
    }

    /// The status a string denotes, if any.
    pub open spec fn from_label(s: Seq<char>) -> Option<LeaseStatus> {
        if s == "pending"@ {
            Some(LeaseStatus::Pending)
        } else if s == "claimed"@ {
            Some(LeaseStatus::Claimed)
        } else if s == "running"@ {
            Some(LeaseStatus::Running)
        } else if s == "waiting_external"@ {
            Some(LeaseStatus::WaitingExternal)
        } else if s == "ready_to_resume"@ {
            Some(LeaseStatus::ReadyToResume)
        } else if s == "completed"@ {
            Some(LeaseStatus::Completed)
        } else if s == "failed"@ {
            Some(LeaseStatus::Failed)
        } else if s == "abandoned"@ {
            Some(LeaseStatus::Abandoned)
        } else if s == "stale"@ {
            Some(LeaseStatus::Stale)
        } else {
            None
        }
    }

    /// Whether a status is one of [`LeaseStatus::RECLAIMABLE`].
    pub open spec fn reclaimable(self) -> bool {
        self == LeaseStatus::Completed || self == LeaseStatus::Failed || self
            == LeaseStatus::Abandoned || self == LeaseStatus::Stale
    }

    /// Canonical lowercase string, used for persistence and binding.
    pub fn as_str(self) -> (r: &'static str)
        ensures
            r@ == self.label(),
    {
        match self {
            LeaseStatus::Pending => "pending",
            LeaseStatus::Claimed => "claimed",
            LeaseStatus::Running => "running",
            LeaseStatus::WaitingExternal => "waiting_external",
            LeaseStatus::ReadyToResume => "ready_to_resume",
            LeaseStatus::Completed => "completed",
            LeaseStatus::Failed => "failed",
            LeaseStatus::Abandoned => "abandoned",
            LeaseStatus::Stale => "stale",
        }
    }

    /// The canonical string as an owned string.
    pub fn to_string(&self) -> (r: String)
        ensures
            r@ == self.label(),
    {
        owned(self.as_str())
    }

    /// Parse a status string; an unknown string is refused with
    /// `Unknown lease status: <s>`.
    pub fn parse_str(s: &str) -> (r: Result<LeaseStatus, String>)
        ensures
            match Self::from_label(s@) {
                Some(st) => r == Ok::<LeaseStatus, String>(st),
                None => r matches Err(msg) && msg@ == "Unknown lease status: "@ + s@,
            },
    {
        if str_eq(s, "pending") {
            Ok(LeaseStatus::Pending)
        } else if str_eq(s, "claimed") {
            Ok(LeaseStatus::Claimed)
        } else if str_eq(s, "running") {
            Ok(LeaseStatus::Running)
        } else if str_eq(s, "waiting_external") {
            Ok(LeaseStatus::WaitingExternal)
        } else if str_eq(s, "ready_to_resume") {
            Ok(LeaseStatus::ReadyToResume)
        } else if str_eq(s, "completed") {
            Ok(LeaseStatus::Completed)
        } else if str_eq(s, "failed") {
            Ok(LeaseStatus::Failed)
        } else if str_eq(s, "abandoned") {
            Ok(LeaseStatus::Abandoned)
        } else if str_eq(s, "stale") {
            Ok(LeaseStatus::Stale)
        } else {
            let mut msg = owned("Unknown lease status: ");
            push_str(&mut msg, s);
            Err(msg)
        }
    }

    /// Whether this lease occupies a concurrency slot (Claimed or Running).
    pub fn is_active(self) -> (r: bool)
        ensures
            r == (self == LeaseStatus::Claimed || self == LeaseStatus::Running),
    {
        match self {
            LeaseStatus::Claimed | LeaseStatus::Running => true,
            _ => false,
        }
    }

    /// Whether this lease retains duplicate-work protection for an issue:
    /// exactly when it is not reclaimable.
    pub fn blocks_duplicate_work(self) -> (r: bool)
        ensures
            r == !self.reclaimable(),
    {
        let reclaimable = Self::RECLAIMABLE;
        let mut i: usize = 0;
        while i < 4
            invariant
                reclaimable@ == seq![
                    LeaseStatus::Completed,
                    LeaseStatus::Failed,
                    LeaseStatus::Abandoned,
                    LeaseStatus::Stale,
                ],
                i <= 4,
                forall|j: int| 0 <= j < i ==> reclaimable@[j] != self,
            decreases 4 - i,
        {
            if reclaimable[i] == self {
                return false;
            }
            i = i + 1;
        }
        true
    }
}

impl std::str::FromStr for LeaseStatus {
    type Err = String;

    fn from_str(s: &str) -> (r: Result<Self, Self::Err>)
        ensures
            match LeaseStatus::from_label(s@) {
                Some(st) => r == Ok::<LeaseStatus, String>(st),
                None => r matches Err(msg) && msg@ == "Unknown lease status: "@ + s@,
            },
    {
        LeaseStatus::parse_str(s)
    }
}

/// Law: every status parses back from its canonical string.
pub proof fn lemma_lease_status_round_trip(status: LeaseStatus)
    ensures
        LeaseStatus::from_label(status.label()) == Some(status),
{
    reveal_strlit("pending");
    reveal_strlit("claimed");
    reveal_strlit("running");
    reveal_strlit("waiting_external");
    reveal_strlit("ready_to_resume");
    reveal_strlit("completed");
    reveal_strlit("failed");
    reveal_strlit("abandoned");
    reveal_strlit("stale");
    assert("pending"@.len() == 7);
    assert("claimed"@.len() == 7);
    assert("running"@.len() == 7);
    assert("waiting_external"@.len() == 16);
    assert("ready_to_resume"@.len() == 15);
    assert("completed"@.len() == 9);
    assert("failed"@.len() == 6);
    assert("abandoned"@.len() == 9);
    assert("stale"@.len() == 5);
    assert("pending"@[0] != "claimed"@[0]);
    assert("pending"@[0] != "running"@[0]);
    assert("claimed"@[0] != "running"@[0]);
    assert("completed"@[0] != "abandoned"@[0]);
}

/// Law: a lease protects its issue from duplicate work exactly while it is
/// not in a reclaimable terminal state, and every active lease protects it.
pub proof fn lemma_active_leases_block_duplicates(status: LeaseStatus)
    ensures
        (status == LeaseStatus::Claimed || status == LeaseStatus::Running) ==> !status.reclaimable(),
{
}

/// The number of `?` characters in a string.
pub open spec fn count_placeholders(s: Seq<char>) -> nat
    decreases s.len(),
{
    if s.len() == 0 {
        0
    } else {
        count_placeholders(s.drop_last()) + if s.last() == '?' { 1nat } else { 0nat }
    }
}

/// `count` anonymous placeholders separated by `", "`.
pub open spec fn placeholders(count: nat) -> Seq<char>
    decreases count,
{
    if count == 0 {
        Seq::empty()
    } else if count == 1 {
        seq!['?']
    } else {
        placeholders((count - 1) as nat) + seq![',', ' ', '?']
    }
}

/// The placeholders of two texts put together are those of each.
pub proof fn lemma_count_concat(a: Seq<char>, b: Seq<char>)
    ensures
        count_placeholders(a + b) == count_placeholders(a) + count_placeholders(b),
    decreases b.len(),
{
    if b.len() > 0 {
        lemma_count_concat(a, b.drop_last());
        assert((a + b).drop_last() =~= a + b.drop_last());
    } else {
        assert(a + b =~= a);
    }
}

/// Law: the placeholder list for `count` values holds exactly `count`
/// placeholders.
pub proof fn lemma_placeholders_count(count: nat)
    ensures
        count_placeholders(placeholders(count)) == count,
    decreases count,
{
    if count == 1 {
        assert(placeholders(1) == seq!['?']);
        assert(seq!['?'].drop_last() =~= Seq::<char>::empty());
        assert(count_placeholders(Seq::<char>::empty()) == 0);
        assert(count_placeholders(seq!['?']) == 1);
    } else if count > 1 {
        let sep = seq![',', ' ', '?'];
        lemma_placeholders_count((count - 1) as nat);
        lemma_count_concat(placeholders((count - 1) as nat), sep);
        assert(sep.drop_last() =~= seq![',', ' ']);
        assert(seq![',', ' '].drop_last() =~= seq![',']);
        assert(seq![','].drop_last() =~= Seq::<char>::empty());
        assert(count_placeholders(Seq::<char>::empty()) == 0);
        assert(count_placeholders(seq![',']) == 0);
        assert(count_placeholders(seq![',', ' ']) == 0);
        assert(count_placeholders(sep) == 1);
        assert(placeholders(count) == placeholders((count - 1) as nat) + sep);
    }
}

/// Render anonymous SQL placeholders for an ordered parameter group.
pub fn sql_placeholders(count: usize) -> (r: String)
    ensures
        r@ == placeholders(count as nat),
{
    let mut s = String::new();
    let mut i: usize = 0;
    while i < count
        invariant
            i <= count,
            s@ == placeholders(i as nat),
        decreases count - i,
    {
        if i > 0 {
            push_str(&mut s, ", ");
        }
        crate::text::push_char(&mut s, '?');
        proof {
            reveal_strlit(", ");
            if i > 0 {
                assert(s@ =~= placeholders((i + 1) as nat));
            } else {
                assert(s@ =~= placeholders(1));
            }
        }
        i = i + 1;
    }
    s
}

/// A string without placeholders has none.
pub proof fn lemma_no_placeholders(s: Seq<char>)
    requires
        forall|i: int| 0 <= i < s.len() ==> s[i] != '?',
    ensures
        count_placeholders(s) == 0,
    decreases s.len(),
{
    if s.len() > 0 {
        lemma_no_placeholders(s.drop_last());
    }
}

proof fn lemma_one_placeholder()
    ensures
        count_placeholders(seq!['?']) == 1,
{
    reveal_with_fuel(count_placeholders, 2);
    assert(seq!['?'].drop_last() =~= Seq::<char>::empty());
}

/// The head of the conditional status update, up to its expected-status list.
pub open spec fn conditional_update_head() -> Seq<char> {
    "UPDATE issue_leases SET status = "@ + seq!['?'] + ", run_id = COALESCE("@ + seq!['?']
        + ", run_id), updated_at = "@ + seq!['?'] + " WHERE lease_id = "@ + seq!['?']
        + " AND status IN ("@
}

/// The conditional status update for `expected` expected statuses, with the
/// ownership guard when an expected run id is given.
pub open spec fn conditional_update_sql(expected: nat, owner_guard: bool) -> Seq<char> {
    conditional_update_head() + placeholders(expected) + ")"@ + if owner_guard {
        " AND run_id = "@ + seq!['?']
    } else {
        Seq::empty()
    }
}

/// What a conditional lease status update does before touching the table.
#[derive(Debug, Clone, PartialEq, Eq)]
pub enum ConditionalUpdatePlan {
    /// A new run id was given but is empty: refused before any SQL runs.
    InvalidRunId,
    /// No expected status: nothing can match, so nothing is applied.
    NoOp,
    /// Run `sql`, binding (in order) the new status, the new run id (or NULL
    /// to keep the current one), the update time, the lease id, each expected
    /// status and, when guarded, the expected run id: `bind_count` values.
    Execute { sql: String, bind_count: usize },
}

/// Plan a conditional lease status update for `expected_count` expected
/// statuses, a possibly new run id, and whether an expected owner run id
/// guards the transition.
pub fn plan_conditional_update(
    expected_count: usize,
    new_run_id: Option<&str>,
    has_expected_run_id: bool,
) -> (r: ConditionalUpdatePlan)
    requires
        expected_count + 5 <= usize::MAX,
    ensures
        match new_run_id {
            Some(id) if id@.len() == 0 => r == ConditionalUpdatePlan::InvalidRunId,
            _ => if expected_count == 0 {
                r == ConditionalUpdatePlan::NoOp
            } else {
                r matches ConditionalUpdatePlan::Execute { sql, bind_count } && sql@
                    == conditional_update_sql(expected_count as nat, has_expected_run_id) && bind_count
                    == 4 + expected_count + if has_expected_run_id { 1usize } else { 0usize }
            },
        },
{
    match new_run_id {
        Some(id) => {
            if id.is_empty() {
                return ConditionalUpdatePlan::InvalidRunId;
            }
        },
        None => {},
    }
    if expected_count == 0 {
        return ConditionalUpdatePlan::NoOp;
    }
    let mut sql = owned("UPDATE issue_leases SET status = ");
    crate::text::push_char(&mut sql, '?');
    push_str(&mut sql, ", run_id = COALESCE(");
    crate::text::push_char(&mut sql, '?');
    push_str(&mut sql, ", run_id), updated_at = ");
    crate::text::push_char(&mut sql, '?');
    push_str(&mut sql, " WHERE lease_id = ");
    crate::text::push_char(&mut sql, '?');
    push_str(&mut sql, " AND status IN (");
    let list = sql_placeholders(expected_count);
    push_str(&mut sql, list.as_str());
    push_str(&mut sql, ")");
    if has_expected_run_id {
        push_str(&mut sql, " AND run_id = ");
        crate::text::push_char(&mut sql, '?');
    }
    assert(sql@ =~= conditional_update_sql(expected_count as nat, has_expected_run_id));
    ConditionalUpdatePlan::Execute {
        sql,
        bind_count: 4 + expected_count + if has_expected_run_id { 1 } else { 0 },
    }
}

/// Law: a conditional update statement holds exactly one placeholder per
/// value bound to it.
pub proof fn lemma_conditional_update_binds(expected: nat, owner_guard: bool)
    ensures
        count_placeholders(conditional_update_sql(expected, owner_guard)) == 4 + expected + if owner_guard {
            1nat
        } else {
            0nat
        },
{
    let p1 = "UPDATE issue_leases SET status = "@;
    let p2 = ", run_id = COALESCE("@;
    let p3 = ", run_id), updated_at = "@;
    let p4 = " WHERE lease_id = "@;
    let p5 = " AND status IN ("@;
    let p6 = ")"@;
    let p7 = " AND run_id = "@;
    reveal_strlit("UPDATE issue_leases SET status = ");
    reveal_strlit(", run_id = COALESCE(");
    reveal_strlit(", run_id), updated_at = ");
    reveal_strlit(" WHERE lease_id = ");
    reveal_strlit(" AND status IN (");
    reveal_strlit(")");
    reveal_strlit(" AND run_id = ");
    assert forall|i: int| 0 <= i < p1.len() implies p1[i] != '?' by {}
    assert forall|i: int| 0 <= i < p2.len() implies p2[i] != '?' by {}
    assert forall|i: int| 0 <= i < p3.len() implies p3[i] != '?' by {}
    assert forall|i: int| 0 <= i < p4.len() implies p4[i] != '?' by {}
    assert forall|i: int| 0 <= i < p5.len() implies p5[i] != '?' by {}
    assert forall|i: int| 0 <= i < p6.len() implies p6[i] != '?' by {}
    assert forall|i: int| 0 <= i < p7.len() implies p7[i] != '?' by {}
    lemma_no_placeholders(p1);
    lemma_no_placeholders(p2);
    lemma_no_placeholders(p3);
    lemma_no_placeholders(p4);
    lemma_no_placeholders(p5);
    lemma_no_placeholders(p6);
    lemma_no_placeholders(p7);
    lemma_one_placeholder();
    lemma_placeholders_count(expected);
    let q = seq!['?'];
    lemma_count_concat(p1, q);
    lemma_count_concat(p1 + q, p2);
    lemma_count_concat(p1 + q + p2, q);
    lemma_count_concat(p1 + q + p2 + q, p3);
    lemma_count_concat(p1 + q + p2 + q + p3, q);
    lemma_count_concat(p1 + q + p2 + q + p3 + q, p4);
    lemma_count_concat(p1 + q + p2 + q + p3 + q + p4, q);
    lemma_count_concat(p1 + q + p2 + q + p3 + q + p4 + q, p5);
    let head = conditional_update_head();
    assert(head == p1 + q + p2 + q + p3 + q + p4 + q + p5);
    lemma_count_concat(head, placeholders(expected));
    lemma_count_concat(head + placeholders(expected), p6);
    let tail = if owner_guard { p7 + q } else { Seq::<char>::empty() };
    lemma_count_concat(p7, q);
    lemma_no_placeholders(Seq::<char>::empty());
    lemma_count_concat(head + placeholders(expected) + p6, tail);
}

/// The claim statement: insert a fresh lease, or take over the existing one
/// only when its status is one of the reclaimable statuses.
pub open spec fn try_claim_sql() -> Seq<char> {
    "INSERT INTO issue_leases (lease_id, issue_repo, issue_number, config_id, run_id, status, claimed_at, updated_at, heartbeat_at) VALUES ("@
        + placeholders(9)
        + ") ON CONFLICT(issue_repo, issue_number) DO UPDATE SET lease_id = excluded.lease_id, config_id = excluded.config_id, run_id = excluded.run_id, status = excluded.status, claimed_at = excluded.claimed_at, updated_at = excluded.updated_at, heartbeat_at = excluded.heartbeat_at WHERE issue_leases.status IN ("@
        + placeholders(4) + ") RETURNING lease_id"@
}

/// The claim statement; it binds the nine lease columns, then the four
/// reclaimable statuses.
pub fn claim_statement() -> (r: String)
    ensures
        r@ == try_claim_sql(),
{
    let mut sql = owned(
        "INSERT INTO issue_leases (lease_id, issue_repo, issue_number, config_id, run_id, status, claimed_at, updated_at, heartbeat_at) VALUES (",
    );
    let insert = sql_placeholders(9);
    push_str(&mut sql, insert.as_str());
    push_str(
        &mut sql,
        ") ON CONFLICT(issue_repo, issue_number) DO UPDATE SET lease_id = excluded.lease_id, config_id = excluded.config_id, run_id = excluded.run_id, status = excluded.status, claimed_at = excluded.claimed_at, updated_at = excluded.updated_at, heartbeat_at = excluded.heartbeat_at WHERE issue_leases.status IN (",
    );
    let reclaimable = sql_placeholders(4);
    push_str(&mut sql, reclaimable.as_str());
    push_str(&mut sql, ") RETURNING lease_id");
    assert(sql@ =~= try_claim_sql());
    sql
}

/// Law: the claim statement holds one placeholder per bound value: nine
/// lease columns and the four reclaimable statuses.
pub proof fn lemma_claim_binds()
    ensures
        count_placeholders(try_claim_sql()) == 9 + LeaseStatus::RECLAIMABLE@.len(),
{
    let p1 = "INSERT INTO issue_leases (lease_id, issue_repo, issue_number, config_id, run_id, status, claimed_at, updated_at, heartbeat_at) VALUES ("@;
    let p2 = ") ON CONFLICT(issue_repo, issue_number) DO UPDATE SET lease_id = excluded.lease_id, config_id = excluded.config_id, run_id = excluded.run_id, status = excluded.status, claimed_at = excluded.claimed_at, updated_at = excluded.updated_at, heartbeat_at = excluded.heartbeat_at WHERE issue_leases.status IN ("@;
    let p3 = ") RETURNING lease_id"@;
    reveal_strlit(
        "INSERT INTO issue_leases (lease_id, issue_repo, issue_number, config_id, run_id, status, claimed_at, updated_at, heartbeat_at) VALUES (",
    );
    reveal_strlit(
        ") ON CONFLICT(issue_repo, issue_number) DO UPDATE SET lease_id = excluded.lease_id, config_id = excluded.config_id, run_id = excluded.run_id, status = excluded.status, claimed_at = excluded.claimed_at, updated_at = excluded.updated_at, heartbeat_at = excluded.heartbeat_at WHERE issue_leases.status IN (",
    );
    reveal_strlit(") RETURNING lease_id");
    assert forall|i: int| 0 <= i < p1.len() implies p1[i] != '?' by {}
    assert forall|i: int| 0 <= i < p2.len() implies p2[i] != '?' by {}
    assert forall|i: int| 0 <= i < p3.len() implies p3[i] != '?' by {}
    lemma_no_placeholders(p1);
    lemma_no_placeholders(p2);
    lemma_no_placeholders(p3);
    lemma_placeholders_count(9);
    lemma_placeholders_count(4);
    lemma_count_concat(p1, placeholders(9));
    lemma_count_concat(p1 + placeholders(9), p2);
    lemma_count_concat(p1 + placeholders(9) + p2, placeholders(4));
    lemma_count_concat(p1 + placeholders(9) + p2 + placeholders(4), p3);
}

/// The issue number as the signed integer SQLite stores, or the number
/// itself when it does not fit.
pub fn issue_number_to_sql_i64(issue_number: u64) -> (r: Result<i64, u64>)
    ensures
        issue_number <= i64::MAX ==> r == Ok::<i64, u64>(issue_number as i64),
        issue_number > i64::MAX ==> r == Err::<i64, u64>(issue_number),
{
    if issue_number <= 0x7fff_ffff_ffff_ffffu64 {
        Ok(issue_number as i64)
    } else {
        Err(issue_number)
    }
}

/// Nanoseconds since the epoch (`DateTime::timestamp_nanos_opt`): a
/// negative second count is first moved one second up, then the seconds are
/// scaled and the sub-second part added, each step checked; 0 when a step
/// does not fit a signed 64-bit integer.
pub open spec fn timestamp_nanos(t: Timestamp) -> i64 {
    let secs: int = if t.secs < 0 { t.secs + 1 } else { t.secs as int };
    let sub: int = if t.secs < 0 { t.nanos - 1_000_000_000 } else { t.nanos as int };
    let scaled = secs * 1_000_000_000;
    if i64::MIN <= scaled <= i64::MAX && i64::MIN <= scaled + sub <= i64::MAX {
        (scaled + sub) as i64
    } else {
        0
    }
}

/// Nanoseconds since the epoch, or 0 when they do not fit.
pub fn timestamp_nanos_or_zero(t: Timestamp) -> (r: i64)
    ensures
        r == timestamp_nanos(t),
{
    let mut secs = t.secs;
    let mut sub: i64 = t.nanos as i64;
    if secs < 0 {
        sub = sub - 1_000_000_000;
        secs = secs + 1;
    }
    match secs.checked_mul(1_000_000_000) {
        Some(base) => match base.checked_add(sub) {
            Some(n) => n,
            None => 0,
        },
        None => 0,
    }
}

/// A persisted claim on a single GitHub issue.
#[derive(Debug, Clone, PartialEq, Eq)]
pub struct IssueLease {
    pub lease_id: String,
    pub issue_repo: String,
    pub issue_number: u64,
    pub config_id: String,
    pub run_id: Option<String>,
    pub status: LeaseStatus,
    pub claimed_at: Timestamp,
    pub updated_at: Timestamp,
    pub heartbeat_at: Timestamp,
}

/// The id of a lease claimed at `now`: `lease-<repo>-<issue>-<nanos>`.
pub open spec fn claim_lease_id(repo: Seq<char>, issue_number: u64, now: Timestamp) -> Seq<char> {
    "lease-"@ + repo + "-"@ + decimal(issue_number as nat) + "-"@ + signed_decimal(
        timestamp_nanos(now) as int,
    )
}

impl IssueLease {
    /// A fresh `Claimed` lease on an issue for a config, claimed at `now`
    /// with no run yet.
    pub fn new_claim(repo: &str, issue_number: u64, config_id: &str, now: Timestamp) -> (r: IssueLease)
        ensures
            r.lease_id@ == claim_lease_id(repo@, issue_number, now),
            r.issue_repo@ == repo@,
            r.issue_number == issue_number,
            r.config_id@ == config_id@,
            r.run_id is None,
            r.status == LeaseStatus::Claimed,
            r.claimed_at == now,
            r.updated_at == now,
            r.heartbeat_at == now,
    {
        let mut lease_id = owned("lease-");
        push_str(&mut lease_id, repo);
        push_str(&mut lease_id, "-");
        push_u64(&mut lease_id, issue_number);
        push_str(&mut lease_id, "-");
        push_i64(&mut lease_id, timestamp_nanos_or_zero(now));
        IssueLease {
            lease_id,
            issue_repo: owned(repo),
            issue_number,
            config_id: owned(config_id),
            run_id: None,
            status: LeaseStatus::Claimed,
            claimed_at: now,
            updated_at: now,
            heartbeat_at: now,
        }
    }
}

/// Whether the claim statement handed back this claim's own lease id, i.e.
/// the claim won the row.
pub fn claim_won(returned_lease_id: &Option<String>, lease: &IssueLease) -> (r: bool)
    ensures
        r == (opt_chars(*returned_lease_id) == Some(lease.lease_id@)),
{
    match returned_lease_id {
        Some(id) => crate::text::string_eq(id, &lease.lease_id),
        None => false,
    }
}

/// A stored status, read as `Pending` when it is not a known status.
pub fn lease_status_or_pending(s: &str) -> (r: LeaseStatus)
    ensures
        r == match LeaseStatus::from_label(s@) {
            Some(st) => st,
            None => LeaseStatus::Pending,
        },
{
    match LeaseStatus::parse_str(s) {
        Ok(st) => st,
        Err(_) => LeaseStatus::Pending,
    }
}

/// Classify a conditional update: applied, rejected with the state the lease
/// is in, or missing when no lease row exists.
pub fn classify_conditional_update(
    applied: bool,
    current: Option<(LeaseStatus, Option<String>)>,
) -> (r: ConditionalLeaseStatusOutcome)
    ensures
        applied ==> r == ConditionalLeaseStatusOutcome::Applied,
        !applied ==> match current {
            Some((st, run)) => r == (ConditionalLeaseStatusOutcome::Rejected {
                current_status: st,
                current_run_id: run,
            }),
            None => r == ConditionalLeaseStatusOutcome::Missing,
        },
{
    if applied {
        ConditionalLeaseStatusOutcome::Applied
    } else {
        match current {
            Some((current_status, current_run_id)) => ConditionalLeaseStatusOutcome::Rejected {
                current_status,
                current_run_id,
            },
            None => ConditionalLeaseStatusOutcome::Missing,
        }
    }
}

/// Marks stale the active (claimed or running) leases whose heartbeat is
/// older than the cutoff; binds the time now (`?1`) and the cutoff (`?2`),
/// both as RFC 3339 text.
pub const MARK_STALE_ACTIVE_LEASES_SQL: &'static str = "UPDATE issue_leases SET status = 'stale', updated_at = ?1 WHERE status IN ('claimed', 'running') AND heartbeat_at < ?2";

/// Marks stale the ready-to-resume leases not updated since the cutoff,
/// leaving deliberate external waits alone; binds the time now (`?1`) and
/// the cutoff (`?2`).
pub const MARK_STALE_READY_TO_RESUME_LEASES_SQL: &'static str = "UPDATE issue_leases SET status = 'stale', updated_at = ?1 WHERE status = 'ready_to_resume' AND updated_at < ?2";

/// The cutoff of the stale-lease sweeps: `timeout_secs` seconds before
/// `now`, the timeout taken as a signed 64-bit count (its bits, as the sweep
/// always has). `None` where that span or the time it reaches is out of
/// chrono's range.
pub fn stale_cutoff(now: Timestamp, timeout_secs: u64) -> (r: Option<Timestamp>)
    requires
        now.nanos < 1_000_000_000,
    ensures
        ({
            let span = timeout_secs as i64;
            r == (if -9_223_372_036_854_775 <= span <= 9_223_372_036_854_775 && utc_seconds_representable(
                now.secs as int,
            ) && utc_seconds_representable(now.secs - span) {
                Some(Timestamp { secs: (now.secs - span) as i64, nanos: now.nanos })
            } else {
                None
            })
        }),
{
    seconds_before(now, timeout_secs as i64)
}

} // verus!
