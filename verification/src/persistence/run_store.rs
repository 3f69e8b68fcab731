//! Guarded run-status transitions of the run registry: the statements, the
//! classification of a write that did not apply, and the de-duplication of
//! requested run ids.

use vstd::prelude::*;
use crate::persistence::run_metadata::{RunMetadata, RunStatus};
use crate::time::Timestamp;
use crate::text::{owned, push_str, push_u64, str_eq, decimal};

verus! {

/// Typed outcome of a conditional status update.
#[derive(Debug, Clone, PartialEq, Eq)]
pub enum ConditionalStatusOutcome {
    /// The guarded update matched and transitioned the row.
    Updated,
    /// The run exists but is already terminal; carries its status.
    AlreadyTerminal(RunStatus),
    /// The run does not exist.
    RunMissing,
}

/// Whether the initial row of a launch was inserted or collided with an
/// existing row for the same run id.
#[derive(Debug, Clone, PartialEq, Eq)]
pub enum InitialRunInsert {
    Inserted,
    Collision,
}

/// Classify a conditional status update: updated when the guard matched,
/// else already terminal (with the status read back) or missing.
pub fn classify_conditional_status(updated: bool, current: Option<RunStatus>) -> (r: ConditionalStatusOutcome)
    ensures
        updated ==> r == ConditionalStatusOutcome::Updated,
        !updated ==> match current {
            Some(st) => r == ConditionalStatusOutcome::AlreadyTerminal(st),
            None => r == ConditionalStatusOutcome::RunMissing,
        },
{
    if updated {
        ConditionalStatusOutcome::Updated
    } else {
        match current {
            Some(st) => ConditionalStatusOutcome::AlreadyTerminal(st),
            None => ConditionalStatusOutcome::RunMissing,
        }
    }
}

/// The status-guarded update of a run: binds the new status, the new current
/// step (NULL keeps the current one), the update time, the run id, then the
/// five terminal statuses of [`RunStatus::TERMINAL_SQL`].
pub const CONDITIONAL_STATUS_UPDATE_SQL: &'static str = "UPDATE runs SET status = ?1, current_step = CASE WHEN ?2 IS NULL THEN current_step ELSE ?2 END, updated_at = ?3 WHERE run_id = ?4 AND status NOT IN (?5, ?6, ?7, ?8, ?9)";

/// Numbered placeholders `?first, ?first+1, ...` for `count` values.
pub open spec fn numbered_placeholders(first: nat, count: nat) -> Seq<char>
    decreases count,
{
    if count == 0 {
        Seq::empty()
    } else if count == 1 {
        seq!['?'] + decimal(first)
    } else {
        numbered_placeholders(first, (count - 1) as nat) + ", ?"@ + decimal((first + count - 1) as nat)
    }
}

/// The update of a run guarded by its expected current statuses.
pub open spec fn expected_status_update_sql(count: nat) -> Seq<char> {
    "UPDATE runs SET status = ?1, current_step = CASE WHEN ?2 IS NULL THEN current_step ELSE ?2 END, updated_at = ?3 WHERE run_id = ?4 AND status IN ("@
        + numbered_placeholders(5, count) + ")"@
}

/// The update of a run guarded by `count` expected current statuses, bound
/// after the new status, step, update time and run id as `?5` onwards.
pub fn expected_status_update_statement(count: usize) -> (r: String)
    requires
        count + 5 <= u64::MAX,
    ensures
        r@ == expected_status_update_sql(count as nat),
{
    let mut sql = owned(
        "UPDATE runs SET status = ?1, current_step = CASE WHEN ?2 IS NULL THEN current_step ELSE ?2 END, updated_at = ?3 WHERE run_id = ?4 AND status IN (",
    );
    let ghost head = sql@;
    let mut i: usize = 0;
    while i < count
        invariant
            i <= count,
            count + 5 <= u64::MAX,
            sql@ == head + numbered_placeholders(5, i as nat),
        decreases count - i,
    {
        if i > 0 {
            push_str(&mut sql, ", ?");
        } else {
            crate::text::push_char(&mut sql, '?');
        }
        push_u64(&mut sql, 5 + i as u64);
        proof {
            if i > 0 {
                assert(sql@ =~= head + numbered_placeholders(5, (i + 1) as nat));
            } else {
                assert(sql@ =~= head + numbered_placeholders(5, 1));
            }
        }
        i = i + 1;
    }
    push_str(&mut sql, ")");
    assert(sql@ =~= expected_status_update_sql(count as nat));
    sql
}

/// The characters of each string of a sequence.
pub open spec fn views(s: Seq<&str>) -> Seq<Seq<char>> {
    s.map_values(|x: &str| x@)
}

/// The distinct values of a sequence, each at its first occurrence.
pub open spec fn dedup(s: Seq<Seq<char>>) -> Seq<Seq<char>>
    decreases s.len(),
{
    if s.len() == 0 {
        Seq::empty()
    } else {
        let rest = dedup(s.drop_last());
        if rest.contains(s.last()) {
            rest
        } else {
            rest.push(s.last())
        }
    }
}

/// The requested run ids without repeats, in order of first request.
pub fn unique_run_ids<'a>(run_ids: &[&'a str]) -> (r: Vec<&'a str>)
    ensures
        views(r@) == dedup(views(run_ids@)),
{
    let mut out: Vec<&'a str> = Vec::new();
    let mut i: usize = 0;
    while i < run_ids.len()
        invariant
            i <= run_ids@.len(),
            views(out@) == dedup(views(run_ids@.take(i as int))),
        decreases run_ids@.len() - i,
    {
        let id = run_ids[i];
        let mut seen = false;
        let mut j: usize = 0;
        while j < out.len()
            invariant
                j <= out@.len(),
                seen == (exists|k: int| 0 <= k < j && out@[k]@ == id@),
            decreases out@.len() - j,
        {
            if str_eq(out[j], id) {
                seen = true;
            }
            j = j + 1;
        }
        proof {
            let prefix = views(run_ids@.take(i + 1));
            assert(prefix.drop_last() =~= views(run_ids@.take(i as int)));
            assert(prefix.last() == id@);
            if seen {
                let k = choose|k: int| 0 <= k < out@.len() && out@[k]@ == id@;
                assert(views(out@)[k] == id@);
            } else {
                assert forall|k: int| 0 <= k < views(out@).len() implies views(out@)[k] != id@ by {}
            }
        }
        if !seen {
            let ghost before = out@;
            out.push(id);
            proof {
                assert(views(out@) =~= views(before).push(id@));
            }
        }
        i = i + 1;
    }
    assert(run_ids@.take(run_ids@.len() as int) =~= run_ids@);
    out
}

/// Law: the de-duplicated ids hold no repeats, and hold exactly the ids
/// requested.
pub proof fn lemma_dedup_distinct_and_complete(s: Seq<Seq<char>>)
    ensures
        dedup(s).no_duplicates(),
        forall|x: Seq<char>| dedup(s).contains(x) <==> s.contains(x),
    decreases s.len(),
{
    if s.len() > 0 {
        lemma_dedup_distinct_and_complete(s.drop_last());
        let rest = dedup(s.drop_last());
        assert forall|x: Seq<char>| dedup(s).contains(x) <==> s.contains(x) by {
            if s.contains(x) && x != s.last() {
                let k = choose|k: int| 0 <= k < s.len() && s[k] == x;
                assert(s.drop_last()[k] == x);
            }
            if s.drop_last().contains(x) {
                let k = choose|k: int| 0 <= k < s.drop_last().len() && s.drop_last()[k] == x;
                assert(s[k] == x);
            }
            if !rest.contains(s.last()) {
                if rest.push(s.last()).contains(x) && x != s.last() {
                    let k = choose|k: int| 0 <= k < rest.push(s.last()).len() && rest.push(s.last())[k] == x;
                    assert(rest[k] == x);
                }
                if x == s.last() {
                    assert(rest.push(s.last())[rest.len() as int] == x);
                }
                if rest.contains(x) {
                    let k = choose|k: int| 0 <= k < rest.len() && rest[k] == x;
                    assert(rest.push(s.last())[k] == x);
                }
            }
        }
        if !rest.contains(s.last()) {
            assert(rest.push(s.last()).no_duplicates()) by {
                assert forall|a: int, b: int| 0 <= a < b < rest.len() + 1 implies rest.push(s.last())[a]
                    != rest.push(s.last())[b] by {
                    if b == rest.len() {
                        assert(rest[a] != s.last());
                    }
                }
            }
        }
    }
}

/// Whether `a` is at least as recent as `b`.
pub open spec fn not_older(a: Timestamp, b: Timestamp) -> bool {
    a.secs > b.secs || (a.secs == b.secs && a.nanos >= b.nanos)
}

/// The first position at or after `i` whose run is strictly older than `x`,
/// or the length when there is none.
pub open spec fn first_older(t: Seq<RunMetadata>, x: RunMetadata, i: int) -> int
    decreases t.len() - i,
{
    if i < 0 || i >= t.len() {
        t.len() as int
    } else if !not_older(t[i].created_at, x.created_at) {
        i
    } else {
        first_older(t, x, i + 1)
    }
}

/// Runs newest first, by creation time; runs created at the same time keep
/// their order. Each run goes after every run at least as new as it.
pub open spec fn newest_first(s: Seq<RunMetadata>) -> Seq<RunMetadata>
    decreases s.len(),
{
    if s.len() == 0 {
        s
    } else {
        let t = newest_first(s.drop_last());
        t.insert(first_older(t, s.last(), 0), s.last())
    }
}

/// Whether runs are ordered newest first.
pub open spec fn is_newest_first(s: Seq<RunMetadata>) -> bool {
    forall|i: int, j: int| 0 <= i < j < s.len() ==> not_older(#[trigger] s[i].created_at, #[trigger] s[j].created_at)
}

proof fn lemma_first_older(t: Seq<RunMetadata>, x: RunMetadata, i: int)
    requires
        0 <= i <= t.len(),
    ensures
        i <= first_older(t, x, i) <= t.len(),
        forall|j: int| i <= j < first_older(t, x, i) ==> not_older(#[trigger] t[j].created_at, x.created_at),
        first_older(t, x, i) < t.len() ==> !not_older(t[first_older(t, x, i)].created_at, x.created_at),
    decreases t.len() - i,
{
    if i < t.len() && not_older(t[i].created_at, x.created_at) {
        lemma_first_older(t, x, i + 1);
    }
}

/// Inserting a run where [`newest_first`] puts it keeps a newest-first list
/// newest first.
proof fn lemma_insert_keeps_order(t: Seq<RunMetadata>, x: RunMetadata)
    requires
        is_newest_first(t),
    ensures
        is_newest_first(t.insert(first_older(t, x, 0), x)),
{
    lemma_first_older(t, x, 0);
    let p = first_older(t, x, 0);
    let u = t.insert(p, x);
    assert forall|i: int, j: int| 0 <= i < j < u.len() implies not_older(#[trigger] u[i].created_at, #[trigger] u[j].created_at) by {
        if j < p {
            assert(u[i] == t[i] && u[j] == t[j]);
        } else if j == p {
            assert(u[j] == x && u[i] == t[i]);
        } else if i == p {
            assert(u[i] == x && u[j] == t[j - 1]);
            assert(not_older(t[p].created_at, t[j - 1].created_at) || p == j - 1);
        } else if i < p {
            assert(u[i] == t[i] && u[j] == t[j - 1]);
        } else {
            assert(u[i] == t[i - 1] && u[j] == t[j - 1]);
        }
    }
}

/// Law: [`newest_first`] orders runs newest first and keeps exactly the
/// runs it was given.
pub proof fn lemma_newest_first_sorted_permutation(s: Seq<RunMetadata>)
    ensures
        is_newest_first(newest_first(s)),
        newest_first(s).to_multiset() == s.to_multiset(),
    decreases s.len(),
{
    broadcast use vstd::seq_lib::group_to_multiset_ensures;
    if s.len() > 0 {
        let r = s.drop_last();
        let x = s.last();
        lemma_newest_first_sorted_permutation(r);
        let t = newest_first(r);
        lemma_insert_keeps_order(t, x);
        lemma_first_older(t, x, 0);
        let p = first_older(t, x, 0);
        let u = t.insert(p, x);
        assert(u.remove(p) =~= t);
        assert(u[p] == x);
        assert(s =~= r.push(x));
        assert(u.to_multiset().remove(x) == t.to_multiset());
        assert(u.to_multiset().count(x) > 0);
        assert(u.to_multiset() =~= t.to_multiset().insert(x));
    }
}

/// The runs created at time `at`, in their order.
pub open spec fn created_at_time(s: Seq<RunMetadata>, at: Timestamp) -> Seq<RunMetadata> {
    s.filter(|r: RunMetadata| r.created_at == at)
}

/// Law: ordering newest first is stable: the runs created at any one time
/// come out in the order they went in.
pub proof fn lemma_newest_first_stable(s: Seq<RunMetadata>, at: Timestamp)
    ensures
        created_at_time(newest_first(s), at) == created_at_time(s, at),
    decreases s.len(),
{
    let pred = |r: RunMetadata| r.created_at == at;
    if s.len() == 0 {
        return;
    }
    let r = s.drop_last();
    let x = s.last();
    lemma_newest_first_stable(r, at);
    lemma_newest_first_sorted_permutation(r);
    let t = newest_first(r);
    lemma_first_older(t, x, 0);
    let p = first_older(t, x, 0);
    let head = t.subrange(0, p);
    let tail = t.subrange(p, t.len() as int);
    assert(t =~= head + tail);
    assert(t.insert(p, x) =~= head + seq![x] + tail);
    assert(s =~= r + seq![x]);
    Seq::filter_distributes_over_add(head + seq![x], tail, pred);
    Seq::filter_distributes_over_add(head, seq![x], pred);
    Seq::filter_distributes_over_add(head, tail, pred);
    Seq::filter_distributes_over_add(r, seq![x], pred);
    reveal(Seq::filter);
    assert(seq![x].drop_last() =~= Seq::<RunMetadata>::empty());
    assert(Seq::<RunMetadata>::empty().filter(pred) =~= Seq::<RunMetadata>::empty());
    if x.created_at == at {
        assert forall|k: int| 0 <= k < tail.len() implies !pred(#[trigger] tail[k]) by {
            assert(tail[k] == t[p + k]);
            if k > 0 {
                assert(not_older(t[p].created_at, t[p + k].created_at));
            }
        }
        assert(tail.filter(pred) =~= Seq::<RunMetadata>::empty()) by {
            lemma_filter_none(tail, pred);
        }
    }
    assert(created_at_time(newest_first(s), at) =~= created_at_time(s, at));
}

proof fn lemma_filter_none(s: Seq<RunMetadata>, pred: spec_fn(RunMetadata) -> bool)
    requires
        forall|k: int| 0 <= k < s.len() ==> !pred(#[trigger] s[k]),
    ensures
        s.filter(pred) =~= Seq::<RunMetadata>::empty(),
    decreases s.len(),
{
    reveal(Seq::filter);
    if s.len() > 0 {
        lemma_filter_none(s.drop_last(), pred);
    }
}

/// Orders runs newest first by creation time, keeping the order of runs
/// created at the same time.
pub fn sort_runs_newest_first(runs: Vec<RunMetadata>) -> (r: Vec<RunMetadata>)
    ensures
        r@ == newest_first(runs@),
{
    let ghost s = runs@;
    let mut input = runs;
    let mut out: Vec<RunMetadata> = Vec::new();
    let n = input.len();
    let mut k: usize = 0;
    while k < n
        invariant
            n == s.len(),
            k <= n,
            input@ == s.skip(k as int),
            out@ == newest_first(s.take(k as int)),
        decreases n - k,
    {
        let x = input.remove(0);
        proof {
            assert(x == s[k as int]);
            assert(s.skip(k as int).remove(0) =~= s.skip(k + 1));
            assert(s.take(k + 1).drop_last() =~= s.take(k as int));
            assert(s.take(k + 1).last() == x);
        }
        let mut i: usize = 0;
        while i < out.len() && not_older_exec(&out[i].created_at, &x.created_at)
            invariant
                i <= out@.len(),
                first_older(out@, x, 0) == first_older(out@, x, i as int),
            decreases out@.len() - i,
        {
            i = i + 1;
        }
        out.insert(i, x);
        k = k + 1;
    }
    assert(s.take(n as int) =~= s);
    out
}

fn not_older_exec(a: &Timestamp, b: &Timestamp) -> (r: bool)
    ensures
        r == not_older(*a, *b),
{
    a.secs > b.secs || (a.secs == b.secs && a.nanos >= b.nanos)
}

/// Most run ids looked up by one statement.
pub const RUN_ID_QUERY_CHUNK_SIZE: usize = 500;

/// The columns every run query selects, in the order rows are read.
pub const RUN_SELECT_COLUMNS: &'static str = "run_id, workflow_type_id, config_id, status, created_at, updated_at, current_step, previous_step, previous_outcome, next_step_candidates, log_path, artifact_root, workspace_path, repository, issue_number, pr_number, head_sha, process_pid, child_pids, continuation_rearm_checkpoint_id, failure_cleanup, launch_provenance";

/// The lookup of `count` runs by id, newest first.
pub open spec fn runs_by_ids_sql(count: nat) -> Seq<char> {
    "SELECT "@ + RUN_SELECT_COLUMNS@ + " FROM runs WHERE run_id IN ("@
        + crate::persistence::leases::placeholders(count) + ") ORDER BY created_at DESC"@
}

/// Builds the lookup of `count` runs by id, newest first, binding the ids in
/// order.
pub fn runs_by_ids_statement(count: usize) -> (r: String)
    ensures
        r@ == runs_by_ids_sql(count as nat),
{
    let mut sql = owned("SELECT ");
    push_str(&mut sql, RUN_SELECT_COLUMNS);
    push_str(&mut sql, " FROM runs WHERE run_id IN (");
    let list = crate::persistence::leases::sql_placeholders(count);
    push_str(&mut sql, list.as_str());
    push_str(&mut sql, ") ORDER BY created_at DESC");
    sql
}

/// The `i`-th range `[start, end)` when `count` ids are split into chunks of
/// [`RUN_ID_QUERY_CHUNK_SIZE`] (500): the last one may be shorter.
pub open spec fn chunk_range(i: int, count: int) -> (int, int) {
    (i * 500, if (i + 1) * 500 <= count { (i + 1) * 500 } else { count })
}

/// Whether a list of ranges is exactly the chunking of `count` ids.
pub open spec fn is_chunking(r: Seq<(usize, usize)>, count: int) -> bool {
    forall|i: int| 0 <= i < r.len() ==> (#[trigger] r[i]).0 == chunk_range(i, count).0 && r[i].1
        == chunk_range(i, count).1
}

/// The consecutive ranges that split `count` ids into chunks of
/// [`RUN_ID_QUERY_CHUNK_SIZE`], in order.
pub fn run_id_chunk_bounds(count: usize) -> (r: Vec<(usize, usize)>)
    ensures
        r@.len() == (count + 500 - 1) / 500,
        is_chunking(r@, count as int),
{
    let mut out: Vec<(usize, usize)> = Vec::new();
    let mut start: usize = 0;
    while start < count
        invariant
            start <= count,
            start == (if out@.len() * 500 <= count { (out@.len() * 500) as int } else { count as int }),
            out@.len() * 500 < count + 500,
            is_chunking(out@, count as int),
        decreases count - start,
    {
        let end = if count - start > RUN_ID_QUERY_CHUNK_SIZE {
            start + RUN_ID_QUERY_CHUNK_SIZE
        } else {
            count
        };
        let ghost before = out@;
        out.push((start, end));
        proof {
            assert forall|i: int| 0 <= i < out@.len() implies (#[trigger] out@[i]).0 == chunk_range(
                i,
                count as int,
            ).0 && out@[i].1 == chunk_range(i, count as int).1 by {
                if i < before.len() {
                    assert(out@[i] == before[i]);
                } else {
                    assert(out@[i] == (start, end));
                }
            }
        }
        start = end;
    }
    assert(out@.len() == (count + 500 - 1) / 500) by (nonlinear_arith)
        requires
            out@.len() * 500 >= count,
            out@.len() * 500 < count + 500,
    ;
    out
}

} // verus!
