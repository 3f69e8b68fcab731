//! Decisions taken by the command-line front end: unresolved config tokens in
//! step parameters, heartbeat persistence failures, and the `runs ps` view of
//! monitor processes.

use vstd::prelude::*;
use vstd::string::*;
use crate::text::{decimal, joined, owned, push_str, push_u64};
use crate::monitor::process::{parse_u32, parse_u32_spec};

verus! {

/// The byte of `_`.
pub const CONFIG_TOKEN_UNDERSCORE: u8 = 95;

/// The byte of `.`.
pub const CONFIG_TOKEN_DOT: u8 = 46;

/// A byte that may appear in a config token name: an ASCII letter or digit,
/// `_` or `.`.
pub open spec fn token_byte(b: u8) -> bool {
    (48 <= b && b <= 57) || (65 <= b && b <= 90) || (97 <= b && b <= 122) || b == CONFIG_TOKEN_UNDERSCORE
        || b == CONFIG_TOKEN_DOT
}

/// A config token name: one or more token bytes.
pub open spec fn token_name(t: Seq<u8>) -> bool {
    t.len() > 0 && forall|i: int| 0 <= i < t.len() ==> token_byte(#[trigger] t[i])
}

/// The position of the first `}` at or after `from`.
pub open spec fn first_close(b: Seq<u8>, from: int) -> Option<int>
    decreases b.len() - from,
{
    if from < 0 || from >= b.len() {
        None
    } else if b[from] == 125 {
        Some(from)
    } else {
        first_close(b, from + 1)
    }
}

/// A `}` found from `from` lies at or after `from`, inside the bytes.
pub proof fn lemma_first_close_bounds(b: Seq<u8>, from: int)
    ensures
        first_close(b, from) matches Some(c) ==> from <= c < b.len() && b[c] == 125,
    decreases b.len() - from,
{
    if 0 <= from < b.len() && b[from] != 125 {
        lemma_first_close_bounds(b, from + 1);
    }
}

/// Whether an unresolved `{token}` occurs at or after `i`, scanning left to
/// right: a `{` with no `}` after it is unresolved; a `{name}` whose inside
/// is a token name is unresolved; any other `{...}` is skipped whole.
pub open spec fn unresolved_from(b: Seq<u8>, i: int) -> bool
    decreases b.len() - i,
{
    if i < 0 || i >= b.len() {
        false
    } else if b[i] != 123 {
        unresolved_from(b, i + 1)
    } else {
        match first_close(b, i + 1) {
            None => true,
            Some(c) => {
                proof {
                    lemma_first_close_bounds(b, i + 1);
                }
                token_name(b.subrange(i + 1, c)) || unresolved_from(b, c + 1)
            },
        }
    }
}

/// Whether a byte may appear in a config token name.
pub fn is_config_token_byte(byte: u8) -> (r: bool)
    ensures
        r == token_byte(byte),
{
    (48 <= byte && byte <= 57) || (65 <= byte && byte <= 90) || (97 <= byte && byte <= 122)
        || byte == CONFIG_TOKEN_UNDERSCORE || byte == CONFIG_TOKEN_DOT
}

/// Whether `bytes[lo..hi]` is a config token name.
fn is_token_name_in(bytes: &[u8], lo: usize, hi: usize) -> (r: bool)
    requires
        lo <= hi <= bytes@.len(),
    ensures
        r == token_name(bytes@.subrange(lo as int, hi as int)),
{
    if lo == hi {
        return false;
    }
    let mut k: usize = lo;
    while k < hi
        invariant
            lo <= k <= hi <= bytes@.len(),
            forall|i: int| lo <= i < k ==> token_byte(#[trigger] bytes@[i]),
        decreases hi - k,
    {
        if !is_config_token_byte(bytes[k]) {
            assert(bytes@.subrange(lo as int, hi as int)[k - lo] == bytes@[k as int]);
            return false;
        }
        k = k + 1;
    }
    assert forall|i: int| 0 <= i < hi - lo implies token_byte(
        #[trigger] bytes@.subrange(lo as int, hi as int)[i],
    ) by {
        assert(bytes@.subrange(lo as int, hi as int)[i] == bytes@[lo + i]);
    }
    true
}

/// Whether a token is a config token name: non-empty, and only ASCII letters,
/// digits, `_` and `.`.
pub fn is_config_token_name(token: &str) -> (r: bool)
    ensures
        r == token_name(token.spec_bytes()),
{
    let bytes = token.as_bytes();
    assert(bytes@.subrange(0, bytes@.len() as int) =~= bytes@);
    is_token_name_in(bytes, 0, bytes.len())
}

/// Whether a parameter value still holds a config placeholder: a `{name}`
/// whose name is a config token name, or a `{` that is never closed.
pub fn has_unresolved_config_token(value: &str) -> (r: bool)
    ensures
        r == unresolved_from(value.spec_bytes(), 0),
{
    let bytes = value.as_bytes();
    let mut index: usize = 0;
    while index < bytes.len()
        invariant
            index <= bytes@.len(),
            bytes@ == value.spec_bytes(),
            unresolved_from(bytes@, 0) == unresolved_from(bytes@, index as int),
        decreases bytes@.len() - index,
    {
        if bytes[index] != 123u8 {
            index = index + 1;
        } else {
            let mut close: usize = index + 1;
            while close < bytes.len() && bytes[close] != 125u8
                invariant
                    index < close <= bytes@.len(),
                    first_close(bytes@, index + 1) == first_close(bytes@, close as int),
                decreases bytes@.len() - close,
            {
                close = close + 1;
            }
            if close >= bytes.len() {
                return true;
            }
            if is_token_name_in(bytes, index + 1, close) {
                return true;
            }
            index = close + 1;
        }
    }
    false
}

/// Most consecutive heartbeat write failures a daemon tolerates.
pub const MAX_HEARTBEAT_WRITE_FAILURES: u32 = 3;

/// The message that stops a daemon whose heartbeat could not be written.
pub open spec fn heartbeat_failure_text(failures: u32, config_id: Seq<char>, error: Seq<char>) -> Seq<char> {
    "heartbeat persistence failed "@ + decimal(failures as nat) + " consecutive times for config '"@
        + config_id + "': "@ + error
}

/// Records the outcome of one heartbeat write: a success resets the count of
/// consecutive failures; a failure adds one (saturating), and once the count
/// reaches [`MAX_HEARTBEAT_WRITE_FAILURES`] the message to stop with is
/// returned.
pub fn record_heartbeat_write(
    consecutive_failures: &mut u32,
    config_id: &str,
    write_error: Option<&str>,
) -> (r: Option<String>)
    ensures
        match write_error {
            None => *final(consecutive_failures) == 0 && r is None,
            Some(e) => {
                &&& *final(consecutive_failures) == (if *old(consecutive_failures) == u32::MAX {
                    u32::MAX
                } else {
                    (*old(consecutive_failures) + 1) as u32
                })
                &&& (r is Some <==> *final(consecutive_failures) >= MAX_HEARTBEAT_WRITE_FAILURES)
                &&& (r matches Some(m) ==> m@ == heartbeat_failure_text(
                    *final(consecutive_failures),
                    config_id@,
                    e@,
                ))
            },
        },
{
    match write_error {
        None => {
            *consecutive_failures = 0;
            None
        },
        Some(e) => {
            *consecutive_failures = consecutive_failures.saturating_add(1);
            if *consecutive_failures >= MAX_HEARTBEAT_WRITE_FAILURES {
                let mut m = owned("heartbeat persistence failed ");
                push_u64(&mut m, *consecutive_failures as u64);
                push_str(&mut m, " consecutive times for config '");
                push_str(&mut m, config_id);
                push_str(&mut m, "': ");
                push_str(&mut m, e);
                Some(m)
            } else {
                None
            }
        },
    }
}

/// The pid of a monitor instance id `monitor-<pid>`.
pub open spec fn instance_pid_spec(instance_id: Seq<char>) -> Option<u32> {
    let prefix = "monitor-"@;
    if instance_id.len() >= prefix.len() && instance_id.take(prefix.len() as int) == prefix {
        parse_u32_spec(instance_id.skip(prefix.len() as int))
    } else {
        None
    }
}

/// Parses a monitor instance id (`monitor-<pid>`) into its pid.
pub fn instance_pid(instance_id: &str) -> (r: Option<u32>)
    ensures
        r == instance_pid_spec(instance_id@),
{
    let prefix = "monitor-";
    let n = instance_id.unicode_len();
    let m = prefix.unicode_len();
    if n < m {
        return None;
    }
    let head = instance_id.substring_char(0, m);
    if !crate::text::str_eq(head, prefix) {
        assert(head@ =~= instance_id@.take(m as int));
        return None;
    }
    assert(head@ =~= instance_id@.take(m as int));
    let rest = instance_id.substring_char(m, n);
    assert(rest@ =~= instance_id@.skip(m as int));
    parse_u32(rest)
}

/// One child pid in the `runs ps` table: the pid, marked when stale.
pub open spec fn child_pid_text(pid: u32, stale: Seq<u32>) -> Seq<char> {
    if stale.contains(pid) {
        decimal(pid as nat) + " (stale)"@
    } else {
        decimal(pid as nat)
    }
}

/// The child pids cell of the `runs ps` table: `-` when there are none, else
/// each pid, stale ones marked, joined by commas.
pub open spec fn child_pids_text(pids: Seq<u32>, stale: Seq<u32>) -> Seq<char> {
    if pids.len() == 0 {
        "-"@
    } else {
        joined(pids.map_values(|p: u32| child_pid_text(p, stale)), ", "@)
    }
}

pub(crate) fn contains_u32(items: &[u32], x: u32) -> (r: bool)
    ensures
        r == items@.contains(x),
{
    let mut i: usize = 0;
    while i < items.len()
        invariant
            i <= items@.len(),
            forall|k: int| 0 <= k < i ==> items@[k] != x,
        decreases items@.len() - i,
    {
        if items[i] == x {
            assert(items@[i as int] == x);
            return true;
        }
        i = i + 1;
    }
    false
}

fn push_child_pid(out: &mut String, pid: u32, stale: &[u32])
    ensures
        final(out)@ == old(out)@ + child_pid_text(pid, stale@),
{
    push_u64(out, pid as u64);
    if contains_u32(stale, pid) {
        push_str(out, " (stale)");
    }
}

/// Renders child pids for the `runs ps` table, marking stale ones.
pub fn format_child_pids(child_pids: &[u32], stale_child_pids: &[u32]) -> (r: String)
    ensures
        r@ == child_pids_text(child_pids@, stale_child_pids@),
{
    if child_pids.len() == 0 {
        return owned("-");
    }
    let ghost parts = child_pids@.map_values(|p: u32| child_pid_text(p, stale_child_pids@));
    let mut s = String::new();
    push_child_pid(&mut s, child_pids[0], stale_child_pids);
    proof {
        assert(parts.take(1).len() == 1);
        assert(parts.take(1)[0] == parts[0]);
        assert(s@ =~= joined(parts.take(1), ", "@));
    }
    let mut i: usize = 1;
    while i < child_pids.len()
        invariant
            1 <= i <= child_pids@.len(),
            parts == child_pids@.map_values(|p: u32| child_pid_text(p, stale_child_pids@)),
            s@ == joined(parts.take(i as int), ", "@),
        decreases child_pids@.len() - i,
    {
        push_str(&mut s, ", ");
        push_child_pid(&mut s, child_pids[i], stale_child_pids);
        proof {
            assert(parts.take(i + 1).drop_last() =~= parts.take(i as int));
            assert(parts.take(i + 1).last() == parts[i as int]);
            assert(s@ =~= joined(parts.take(i + 1), ", "@));
        }
        i = i + 1;
    }
    assert(parts.take(child_pids@.len() as int) =~= parts);
    s
}

/// Seconds after which a monitor's last heartbeat makes it stale.
pub const PS_HEARTBEAT_STALE_SECS: i64 = 60;

/// A monitor process in `runs ps` is stale when its process is not alive or
/// its last heartbeat is more than [`PS_HEARTBEAT_STALE_SECS`] old.
pub fn ps_row_is_stale(is_alive: bool, now: i64, heartbeat_timestamp: i64) -> (r: bool)
    ensures
        r == (!is_alive || now - heartbeat_timestamp > PS_HEARTBEAT_STALE_SECS),
{
    !is_alive || (now as i128) - (heartbeat_timestamp as i128) > (PS_HEARTBEAT_STALE_SECS as i128)
}

/// `s` with each occurrence of the non-empty `pat` replaced by `rep`,
/// scanning left to right without overlaps (`str::replace`).
pub open spec fn replace_all(s: Seq<char>, pat: Seq<char>, rep: Seq<char>) -> Seq<char>
    decreases s.len(),
{
    if pat.len() == 0 || s.len() < pat.len() {
        s
    } else if s.take(pat.len() as int) == pat {
        rep + replace_all(s.skip(pat.len() as int), pat, rep)
    } else {
        seq![s[0]] + replace_all(s.skip(1), pat, rep)
    }
}

/// Replaces each occurrence of `pat` in `s` by `rep`, left to right.
pub fn replace_all_occurrences(s: &str, pat: &str, rep: &str) -> (r: String)
    requires
        pat@.len() > 0,
    ensures
        r@ == replace_all(s@, pat@, rep@),
{
    let n = s.unicode_len();
    let m = pat.unicode_len();
    let mut out = String::new();
    let mut i: usize = 0;
    assert(s@.skip(0) =~= s@);
    while i < n
        invariant
            n == s@.len(),
            m == pat@.len(),
            m > 0,
            i <= n,
            out@ + replace_all(s@.skip(i as int), pat@, rep@) == replace_all(s@, pat@, rep@),
        decreases n - i,
    {
        let ghost rest = s@.skip(i as int);
        if n - i >= m && crate::text::str_eq(s.substring_char(i, i + m), pat) {
            proof {
                assert(rest.take(m as int) =~= s@.subrange(i as int, i + m));
                assert(rest.skip(m as int) =~= s@.skip(i + m));
            }
            push_str(&mut out, rep);
            proof {
                assert(out@ + replace_all(s@.skip(i + m), pat@, rep@) =~= replace_all(s@, pat@, rep@));
            }
            i = i + m;
        } else {
            let c = s.get_char(i);
            proof {
                assert(rest.skip(1) =~= s@.skip(i + 1));
                assert(rest[0] == c);
                if n - i >= m {
                    assert(rest.take(m as int) =~= s@.subrange(i as int, i + m));
                } else {
                    assert(replace_all(rest, pat@, rep@) == rest);
                    assert(replace_all(rest.skip(1), pat@, rep@) == rest.skip(1));
                    assert(rest =~= seq![c] + rest.skip(1));
                }
            }
            crate::text::push_char(&mut out, c);
            proof {
                assert(out@ + replace_all(s@.skip(i + 1), pat@, rep@) =~= replace_all(s@, pat@, rep@));
            }
            i = i + 1;
        }
    }
    proof {
        assert(s@.skip(n as int) =~= Seq::<char>::empty());
        assert(out@ + Seq::<char>::empty() =~= out@);
    }
    out
}

/// A config placeholder: the name in braces.
pub open spec fn placeholder_of(name: Seq<char>) -> Seq<char> {
    seq!['{'] + name + seq!['}']
}

/// The characters of each variable's name and value.
pub open spec fn variable_views(vars: Seq<(String, String)>) -> Seq<(Seq<char>, Seq<char>)> {
    vars.map_values(|v: (String, String)| (v.0@, v.1@))
}

/// One substitution pass: each variable's placeholder replaced by its value,
/// one variable after the other, in the order given.
pub open spec fn substitute_pass(value: Seq<char>, vars: Seq<(Seq<char>, Seq<char>)>) -> Seq<char>
    decreases vars.len(),
{
    if vars.len() == 0 {
        value
    } else {
        replace_all(substitute_pass(value, vars.drop_last()), placeholder_of(vars.last().0), vars.last().1)
    }
}

/// Repeats substitution passes, at most `rounds` of them, until a pass
/// changes nothing: whether that happened, and the value reached.
pub open spec fn settle(value: Seq<char>, vars: Seq<(Seq<char>, Seq<char>)>, rounds: nat) -> (bool, Seq<char>)
    decreases rounds,
{
    if rounds == 0 {
        (false, value)
    } else {
        let next = substitute_pass(value, vars);
        if next == value {
            (true, value)
        } else {
            settle(next, vars, (rounds - 1) as nat)
        }
    }
}

/// The message refusing a value that still holds a placeholder.
pub open spec fn unresolved_interpolation_text(value: Seq<char>) -> Seq<char> {
    "unresolved variable interpolation in artifact path: "@ + value
}

/// Interpolates config variables into a raw value: substitution passes (as
/// many as there are variables, at least one) until the value stops
/// changing. A value that settles is returned; one that does not is
/// returned only if it holds no unresolved placeholder.
pub open spec fn interpolation(raw: Seq<char>, vars: Seq<(Seq<char>, Seq<char>)>) -> Result<Seq<char>, Seq<char>> {
    let rounds: nat = if vars.len() > 1 { vars.len() } else { 1 };
    let (settled, value) = settle(raw, vars, rounds);
    if settled {
        Ok(value)
    } else if unresolved_from(vstd::utf8::encode_utf8(value), 0) {
        Err(unresolved_interpolation_text(value))
    } else {
        Ok(value)
    }
}

/// Interpolates config variables into a raw value. `variables` are the
/// config's variables in the order its map is walked.
pub fn interpolate_config_variables(raw: &str, variables: &[(String, String)]) -> (r: Result<String, String>)
    ensures
        match (r, interpolation(raw@, variable_views(variables@))) {
            (Ok(v), Ok(w)) => v@ == w,
            (Err(e), Err(f)) => e@ == f,
            _ => false,
        },
{
    let ghost vars = variable_views(variables@);
    let rounds: usize = if variables.len() > 1 { variables.len() } else { 1 };
    let mut value = owned(raw);
    let mut k: usize = 0;
    while k < rounds
        invariant
            vars == variable_views(variables@),
            rounds == (if vars.len() > 1 { vars.len() } else { 1 }),
            k <= rounds,
            settle(raw@, vars, rounds as nat) == settle(value@, vars, (rounds - k) as nat),
        decreases rounds - k,
    {
        let previous = value.clone();
        let mut j: usize = 0;
        assert(vars.take(0) =~= Seq::<(Seq<char>, Seq<char>)>::empty());
        while j < variables.len()
            invariant
                vars == variable_views(variables@),
                j <= variables@.len(),
                value@ == substitute_pass(previous@, vars.take(j as int)),
            decreases variables@.len() - j,
        {
            let mut pattern = String::new();
            crate::text::push_char(&mut pattern, '{');
            push_str(&mut pattern, variables[j].0.as_str());
            crate::text::push_char(&mut pattern, '}');
            proof {
                assert(pattern@ =~= placeholder_of(vars[j as int].0));
                assert(vars.take(j + 1).drop_last() =~= vars.take(j as int));
                assert(vars.take(j + 1).last() == vars[j as int]);
            }
            value = replace_all_occurrences(value.as_str(), pattern.as_str(), variables[j].1.as_str());
            j = j + 1;
        }
        assert(vars.take(variables@.len() as int) =~= vars);
        if crate::text::string_eq(&value, &previous) {
            return Ok(value);
        }
        k = k + 1;
    }
    if has_unresolved_config_token(value.as_str()) {
        let mut msg = owned("unresolved variable interpolation in artifact path: ");
        push_str(&mut msg, value.as_str());
        Err(msg)
    } else {
        Ok(value)
    }
}

/// The scheduler's poll interval when its config sets none.
pub const DEFAULT_POLL_INTERVAL_SECS: u64 = 300;

/// The poll interval of the daemon scheduler: the configured one, else
/// [`DEFAULT_POLL_INTERVAL_SECS`].
pub fn daemon_poll_interval_secs(configured: Option<u64>) -> (r: u64)
    ensures
        r == match configured {
            Some(p) => p,
            None => DEFAULT_POLL_INTERVAL_SECS,
        },
{
    match configured {
        Some(p) => p,
        None => DEFAULT_POLL_INTERVAL_SECS,
    }
}

/// How long a daemon lease may go without a heartbeat before it is stale:
/// four poll intervals, saturating.
pub fn daemon_stale_lease_timeout_secs(configured_poll: Option<u64>) -> (r: u64)
    ensures
        r == if 4 * daemon_poll_spec(configured_poll) <= u64::MAX {
            (4 * daemon_poll_spec(configured_poll)) as u64
        } else {
            u64::MAX
        },
{
    let poll = daemon_poll_interval_secs(configured_poll);
    if poll <= u64::MAX / 4 {
        poll * 4
    } else {
        u64::MAX
    }
}

/// The poll interval of the daemon scheduler, as [`daemon_poll_interval_secs`]
/// computes it.
pub open spec fn daemon_poll_spec(configured: Option<u64>) -> u64 {
    match configured {
        Some(p) => p,
        None => DEFAULT_POLL_INTERVAL_SECS,
    }
}

/// Which run `runs tail` follows: the run asked for; else, with `--current`,
/// the one run whose monitor is starting, running or degraded. No such run,
/// or several, is an error, as is asking for neither.
pub fn choose_tail_run_id(
    run_id: Option<String>,
    current: bool,
    heartbeats: &[crate::monitor::heartbeat::Heartbeat],
) -> (r: Result<String, String>)
    ensures
        match run_id {
            Some(id) => r == Ok::<String, String>(id),
            None => if !current {
                r matches Err(m) && m@ == "provide a RUN_ID or use --current"@
            } else {
                let active = active_run_ids(heartbeats@);
                if active.len() == 1 {
                    r matches Ok(id) && id@ == active[0]
                } else if active.len() == 0 {
                    r matches Err(m) && m@ == "no active run found for --current"@
                } else {
                    r matches Err(m) && m@ == "multiple active runs found; specify an explicit RUN_ID"@
                }
            },
        },
{
    match run_id {
        Some(id) => Ok(id),
        None => {
            if !current {
                return Err(owned("provide a RUN_ID or use --current"));
            }
            let ghost hbs = heartbeats@;
            let mut found: Option<String> = None;
            let mut count: usize = 0;
            let mut i: usize = 0;
            while i < heartbeats.len()
                invariant
                    i <= hbs.len(),
                    hbs == heartbeats@,
                    count == active_run_ids(hbs.take(i as int)).len(),
                    count <= i,
                    count >= 1 ==> (found matches Some(f) && f@ == active_run_ids(hbs.take(i as int))[0]),
                decreases hbs.len() - i,
            {
                let hb = &heartbeats[i];
                proof {
                    assert(hbs.take(i + 1).drop_last() =~= hbs.take(i as int));
                    assert(hbs.take(i + 1).last() == hbs[i as int]);
                    lemma_active_prefix(hbs.take(i + 1));
                }
                let live = match hb.state {
                    crate::monitor::heartbeat::MonitorState::Running
                    | crate::monitor::heartbeat::MonitorState::Starting
                    | crate::monitor::heartbeat::MonitorState::Degraded => true,
                    _ => false,
                };
                if live {
                    match &hb.run_id {
                        Some(id) => {
                            if count == 0 {
                                found = Some(id.clone());
                            }
                            count = count + 1;
                        },
                        None => {},
                    }
                }
                i = i + 1;
            }
            assert(hbs.take(hbs.len() as int) =~= hbs);
            if count == 0 {
                Err(owned("no active run found for --current"))
            } else if count == 1 {
                match found {
                    Some(f) => Ok(f),
                    None => Err(owned("no active run found for --current")),
                }
            } else {
                Err(owned("multiple active runs found; specify an explicit RUN_ID"))
            }
        },
    }
}

/// Whether a monitor state counts as active for `runs tail --current`.
pub open spec fn monitor_is_active(s: crate::monitor::heartbeat::MonitorState) -> bool {
    s == crate::monitor::heartbeat::MonitorState::Running || s
        == crate::monitor::heartbeat::MonitorState::Starting || s
        == crate::monitor::heartbeat::MonitorState::Degraded
}

/// The run ids of the heartbeats of active monitors that name a run, in
/// order.
pub open spec fn active_run_ids(hbs: Seq<crate::monitor::heartbeat::Heartbeat>) -> Seq<Seq<char>>
    decreases hbs.len(),
{
    if hbs.len() == 0 {
        Seq::empty()
    } else {
        let rest = active_run_ids(hbs.drop_last());
        let hb = hbs.last();
        if monitor_is_active(hb.state) && hb.run_id is Some {
            rest.push(hb.run_id.unwrap()@)
        } else {
            rest
        }
    }
}

proof fn lemma_active_prefix(hbs: Seq<crate::monitor::heartbeat::Heartbeat>)
    requires
        hbs.len() > 0,
    ensures
        active_run_ids(hbs.drop_last()).len() <= active_run_ids(hbs).len(),
        active_run_ids(hbs.drop_last()).len() >= 1 ==> active_run_ids(hbs)[0] == active_run_ids(hbs.drop_last())[0],
        active_run_ids(hbs.drop_last()).len() == 0 && active_run_ids(hbs).len() >= 1 ==> active_run_ids(hbs)[0]
            == hbs.last().run_id.unwrap()@,
{
}

/// Law: a value without a `{` holds no unresolved placeholder.
pub proof fn lemma_no_brace_resolved(b: Seq<u8>, i: int)
    requires
        forall|k: int| 0 <= k < b.len() ==> b[k] != 123,
    ensures
        !unresolved_from(b, i),
    decreases b.len() - i,
{
    if 0 <= i < b.len() {
        lemma_no_brace_resolved(b, i + 1);
    }
}

/// A text without `{` is left unchanged by replacing a pattern that starts
/// with `{`.
proof fn lemma_replace_without_brace(s: Seq<char>, pat: Seq<char>, rep: Seq<char>)
    requires
        pat.len() > 0,
        pat[0] == '{',
        forall|k: int| 0 <= k < s.len() ==> s[k] != '{',
    ensures
        replace_all(s, pat, rep) == s,
    decreases s.len(),
{
    if s.len() >= pat.len() {
        assert(s.take(pat.len() as int)[0] != pat[0]);
        lemma_replace_without_brace(s.skip(1), pat, rep);
        assert(s =~= seq![s[0]] + s.skip(1));
    }
}

/// A text without `{` is left unchanged by a substitution pass.
proof fn lemma_pass_without_brace(value: Seq<char>, vars: Seq<(Seq<char>, Seq<char>)>)
    requires
        forall|k: int| 0 <= k < value.len() ==> value[k] != '{',
    ensures
        substitute_pass(value, vars) == value,
    decreases vars.len(),
{
    if vars.len() > 0 {
        lemma_pass_without_brace(value, vars.drop_last());
        lemma_replace_without_brace(value, placeholder_of(vars.last().0), vars.last().1);
    }
}

/// Law: interpolating a value that holds no `{` gives the value back
/// unchanged, whatever the variables.
pub proof fn lemma_interpolation_without_placeholders(raw: Seq<char>, vars: Seq<(Seq<char>, Seq<char>)>)
    requires
        forall|k: int| 0 <= k < raw.len() ==> raw[k] != '{',
    ensures
        interpolation(raw, vars) == Ok::<Seq<char>, Seq<char>>(raw),
{
    lemma_pass_without_brace(raw, vars);
}

} // verus!
