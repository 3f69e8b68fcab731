//! Monitor process management: singleton lock decisions, restart policy and
//! backoff, and per-worker restart tracking.

use vstd::prelude::*;
use vstd::string::*;
use crate::text::{owned, push_str, push_char, push_u64, str_eq, decimal};

verus! {

/// Configuration for monitor process behavior.
#[derive(Debug, Clone)]
pub struct MonitorConfig {
    /// Restart policy: no_restart, always, on_failure.
    pub restart_policy: String,
    /// Backoff strategy: fixed, exponential.
    pub backoff_strategy: String,
    /// Initial backoff in seconds.
    pub initial_backoff_secs: u64,
    /// Maximum backoff in seconds.
    pub max_backoff_secs: u64,
    /// Maximum number of restart attempts.
    pub max_restarts: u32,
    /// Enable singleton mode.
    pub singleton_mode: bool,
    /// Path for PID/lock file.
    pub lock_file_path: Option<String>,
    /// Heartbeat interval in seconds.
    pub heartbeat_interval_secs: u64,
    /// Maximum missed heartbeats before considering the monitor dead.
    pub max_missed_heartbeats: u32,
}

impl Default for MonitorConfig {
    fn default() -> (r: Self)
        ensures
            r.restart_policy@ == "on_failure"@,
            r.backoff_strategy@ == "exponential"@,
            r.initial_backoff_secs == 1,
            r.max_backoff_secs == 60,
            r.max_restarts == 5,
            r.singleton_mode,
            r.lock_file_path is None,
            r.heartbeat_interval_secs == 1,
            r.max_missed_heartbeats == 3,
    {
        MonitorConfig {
            restart_policy: owned("on_failure"),
            backoff_strategy: owned("exponential"),
            initial_backoff_secs: 1,
            max_backoff_secs: 60,
            max_restarts: 5,
            singleton_mode: true,
            lock_file_path: None,
            heartbeat_interval_secs: 1,
            max_missed_heartbeats: 3,
        }
    }
}

/// Error type for monitor operations.
#[derive(Debug, Clone, PartialEq, Eq)]
pub enum MonitorError {
    LockError { message: String },
    LockHeld { pid: u32 },
    General { message: String },
    HeartbeatError { message: String },
    IpcError { message: String },
    AlreadyRunning,
}

impl MonitorError {
    /// The error message.
    pub fn to_string(&self) -> (r: String)
        ensures
            match self {
                MonitorError::LockError { message } => r@ == "Lock acquisition failed: "@ + message@,
                MonitorError::LockHeld { pid } => r@ == "Lock held by another process (PID: "@ + decimal(
                    *pid as nat,
                ) + ")"@,
                MonitorError::General { message } => r@ == "Monitor error: "@ + message@,
                MonitorError::HeartbeatError { message } => r@ == "Heartbeat error: "@ + message@,
                MonitorError::IpcError { message } => r@ == "IPC error: "@ + message@,
                MonitorError::AlreadyRunning => r@ == "Monitor already running"@,
            },
    {
        match self {
            MonitorError::LockError { message } => {
                let mut s = owned("Lock acquisition failed: ");
                push_str(&mut s, message.as_str());
                s
            },
            MonitorError::LockHeld { pid } => {
                let mut s = owned("Lock held by another process (PID: ");
                push_u64(&mut s, *pid as u64);
                push_str(&mut s, ")");
                s
            },
            MonitorError::General { message } => {
                let mut s = owned("Monitor error: ");
                push_str(&mut s, message.as_str());
                s
            },
            MonitorError::HeartbeatError { message } => {
                let mut s = owned("Heartbeat error: ");
                push_str(&mut s, message.as_str());
                s
            },
            MonitorError::IpcError { message } => {
                let mut s = owned("IPC error: ");
                push_str(&mut s, message.as_str());
                s
            },
            MonitorError::AlreadyRunning => owned("Monitor already running"),
        }
    }
}

/// Whether `s` ends with `suffix`.
pub open spec fn ends_with(s: Seq<char>, suffix: Seq<char>) -> bool {
    s.len() >= suffix.len() && s.subrange(s.len() - suffix.len(), s.len() as int) == suffix
}

/// `s` with every `/` replaced by `_`.
pub open spec fn slashes_to_underscores(s: Seq<char>) -> Seq<char> {
    Seq::new(s.len(), |i: int| if s[i] == '/' { '_' } else { s[i] })
}

/// The lock file of a scope: the scope itself when it already names a
/// `.lock` file, else `/tmp/<scope with / as _>.lock`.
pub open spec fn lock_path_spec(scope: Seq<char>) -> Seq<char> {
    if ends_with(scope, ".lock"@) {
        scope
    } else {
        "/tmp/"@ + slashes_to_underscores(scope) + ".lock"@
    }
}

/// The lock file of a scope.
pub fn lock_path_for_scope(scope: &str) -> (r: String)
    ensures
        r@ == lock_path_spec(scope@),
{
    let n = scope.unicode_len();
    let suffix = ".lock";
    proof {
        reveal_strlit(".lock");
    }
    if n >= 5 {
        let tail = scope.substring_char(n - 5, n);
        if str_eq(tail, suffix) {
            return owned(scope);
        }
    }
    let mut path = owned("/tmp/");
    let ghost head = path@;
    let mut i: usize = 0;
    while i < n
        invariant
            n == scope@.len(),
            i <= n,
            path@ == head + slashes_to_underscores(scope@).take(i as int),
        decreases n - i,
    {
        let c = scope.get_char(i);
        if c == '/' {
            push_char(&mut path, '_');
        } else {
            push_char(&mut path, c);
        }
        proof {
            assert(slashes_to_underscores(scope@).take(i + 1) =~= slashes_to_underscores(scope@).take(
                i as int,
            ).push(if c == '/' { '_' } else { c }));
        }
        i = i + 1;
    }
    push_str(&mut path, ".lock");
    proof {
        assert(slashes_to_underscores(scope@).take(n as int) =~= slashes_to_underscores(scope@));
        if n >= 5 {
            assert(scope@.subrange(n - 5, n as int) != ".lock"@);
        }
    }
    path
}

/// Whether a character is white space (`char::is_whitespace`: the Unicode
/// `White_Space` property).
pub open spec fn is_space(c: char) -> bool {
    ('\u{9}' <= c && c <= '\u{d}') || c == ' ' || c == '\u{85}' || c == '\u{a0}' || c == '\u{1680}'
        || ('\u{2000}' <= c && c <= '\u{200a}') || c == '\u{2028}' || c == '\u{2029}' || c == '\u{202f}'
        || c == '\u{205f}' || c == '\u{3000}'
}

fn char_is_space(c: char) -> (r: bool)
    ensures
        r == is_space(c),
{
    ('\u{9}' <= c && c <= '\u{d}') || c == ' ' || c == '\u{85}' || c == '\u{a0}' || c == '\u{1680}' || (
    '\u{2000}' <= c && c <= '\u{200a}') || c == '\u{2028}' || c == '\u{2029}' || c == '\u{202f}' || c
        == '\u{205f}' || c == '\u{3000}'
}

/// `s` without its leading white space.
pub open spec fn trim_start(s: Seq<char>) -> Seq<char>
    decreases s.len(),
{
    if s.len() > 0 && is_space(s[0]) {
        trim_start(s.subrange(1, s.len() as int))
    } else {
        s
    }
}

/// `s` without its trailing white space.
pub open spec fn trim_end(s: Seq<char>) -> Seq<char>
    decreases s.len(),
{
    if s.len() > 0 && is_space(s.last()) {
        trim_end(s.drop_last())
    } else {
        s
    }
}

/// `s` without leading and trailing white space (`str::trim`).
pub open spec fn trimmed(s: Seq<char>) -> Seq<char> {
    trim_end(trim_start(s))
}

/// `s` without leading and trailing white space (`str::trim`).
pub fn trim(s: &str) -> (r: &str)
    ensures
        r@ == trimmed(s@),
{
    let n = s.unicode_len();
    let mut lo: usize = 0;
    assert(s@.subrange(0, n as int) =~= s@);
    while lo < n && char_is_space(s.get_char(lo))
        invariant
            n == s@.len(),
            lo <= n,
            trim_start(s@) == trim_start(s@.subrange(lo as int, n as int)),
        decreases n - lo,
    {
        proof {
            assert(s@.subrange(lo as int, n as int).subrange(1, (n - lo) as int) =~= s@.subrange(
                lo + 1,
                n as int,
            ));
        }
        lo = lo + 1;
    }
    let mut hi: usize = n;
    while hi > lo && char_is_space(s.get_char(hi - 1))
        invariant
            n == s@.len(),
            lo <= hi <= n,
            trim_start(s@) == s@.subrange(lo as int, n as int),
            trim_end(s@.subrange(lo as int, n as int)) == trim_end(s@.subrange(lo as int, hi as int)),
        decreases hi - lo,
    {
        proof {
            assert(s@.subrange(lo as int, hi as int).drop_last() =~= s@.subrange(lo as int, hi - 1));
        }
        hi = hi - 1;
    }
    s.substring_char(lo, hi)
}

/// Whether every character is an ASCII digit.
pub open spec fn all_digits(s: Seq<char>) -> bool {
    forall|i: int| 0 <= i < s.len() ==> '0' <= #[trigger] s[i] && s[i] <= '9'
}

/// The value of a string of ASCII digits.
pub open spec fn digits_value(s: Seq<char>) -> nat
    decreases s.len(),
{
    if s.len() == 0 {
        0
    } else {
        digits_value(s.drop_last()) * 10 + ((s.last() as u32) - ('0' as u32)) as nat
    }
}

/// `u32::from_str`: an optional `+`, then one or more ASCII digits whose
/// value fits a `u32`.
pub open spec fn parse_u32_spec(s: Seq<char>) -> Option<u32> {
    let body = if s.len() > 0 && s[0] == '+' { s.drop_first() } else { s };
    if body.len() > 0 && all_digits(body) && digits_value(body) <= u32::MAX {
        Some(digits_value(body) as u32)
    } else {
        None
    }
}

/// Parse an unsigned 32-bit decimal (`u32::from_str`).
pub fn parse_u32(s: &str) -> (r: Option<u32>)
    ensures
        r == parse_u32_spec(s@),
{
    let n = s.unicode_len();
    let start: usize = if n > 0 && s.get_char(0) == '+' { 1 } else { 0 };
    let ghost body = if s@.len() > 0 && s@[0] == '+' { s@.drop_first() } else { s@ };
    assert(body =~= s@.subrange(start as int, n as int));
    if start >= n {
        return None;
    }
    let mut value: u64 = 0;
    let mut i: usize = start;
    while i < n
        invariant
            n == s@.len(),
            start <= i <= n,
            start == 0 || start == 1,
            body == s@.subrange(start as int, n as int),
            body == (if s@.len() > 0 && s@[0] == '+' { s@.drop_first() } else { s@ }),
            value <= u32::MAX,
            all_digits(body.take(i - start)),
            value == digits_value(body.take(i - start)),
        decreases n - i,
    {
        let c = s.get_char(i);
        if c < '0' || c > '9' {
            proof {
                assert(body[i - start] == c);
            }
            return None;
        }
        let d = (c as u32 - '0' as u32) as u64;
        let next = value * 10 + d;
        proof {
            let t = body.take(i - start + 1);
            assert(t.drop_last() =~= body.take(i - start));
            assert(t.last() == c);
        }
        if next > 0xffff_ffffu64 {
            proof {
                lemma_digits_value_prefix_monotone(body, (i - start + 1) as nat, body.len());
                assert(body.take(body.len() as int) =~= body);
                if all_digits(body) {
                    assert(all_digits(body.take(i - start + 1)));
                }
            }
            return None;
        }
        value = next;
        i = i + 1;
    }
    proof {
        assert(body.take(n - start) =~= body);
    }
    Some(value as u32)
}

/// A longer digit prefix is worth at least as much.
proof fn lemma_digits_value_prefix_monotone(s: Seq<char>, j: nat, k: nat)
    requires
        j <= k,
    ensures
        k <= s.len() && all_digits(s.take(k as int)) ==> digits_value(s.take(j as int)) <= digits_value(
            s.take(k as int),
        ),
    decreases k - j,
{
    if j < k && k <= s.len() && all_digits(s.take(k as int)) {
        let tk = s.take(k as int);
        assert(tk.drop_last() =~= s.take(k - 1));
        assert(all_digits(s.take(k - 1))) by {
            assert forall|i: int| 0 <= i < k - 1 implies '0' <= #[trigger] s.take(k - 1)[i] && s.take(k - 1)[i]
                <= '9' by {
                assert(s.take(k - 1)[i] == tk[i]);
            }
        }
        lemma_digits_value_prefix_monotone(s, j, (k - 1) as nat);
        assert(tk.last() >= '0');
    }
}

/// What an existing lock file means for a new acquisition: its content must
/// be the holder's PID (surrounding white space allowed); a live holder, or
/// this very process, keeps the lock; a dead holder's lock may be taken over.
pub fn existing_lock_verdict(contents: &str, process_exists: bool, own_pid: u32) -> (r: Result<(), MonitorError>)
    ensures
        match parse_u32_spec(trimmed(contents@)) {
            None => r matches Err(MonitorError::LockError { message }) && message@
                == "Lock file contains invalid PID"@,
            Some(pid) => if (process_exists && pid != own_pid) || pid == own_pid {
                r == Err::<(), MonitorError>(MonitorError::LockHeld { pid })
            } else {
                r == Ok::<(), MonitorError>(())
            },
        },
{
    let text = trim(contents);
    match parse_u32(text) {
        None => Err(MonitorError::LockError { message: owned("Lock file contains invalid PID") }),
        Some(pid) => {
            if process_exists && pid != own_pid {
                return Err(MonitorError::LockHeld { pid });
            }
            if pid == own_pid {
                return Err(MonitorError::LockHeld { pid: own_pid });
            }
            Ok(())
        },
    }
}

/// `2` to the power `e`.
pub open spec fn pow2(e: nat) -> nat
    decreases e,
{
    if e == 0 {
        1
    } else {
        2 * pow2((e - 1) as nat)
    }
}

/// `attempt - 1`, stopping at zero.
pub open spec fn attempt_exponent(attempt: u32) -> nat {
    if attempt == 0 { 0 } else { (attempt - 1) as nat }
}

/// Whether an exponential backoff for `attempt` is computable without
/// overflow (the exponent below 64 and the scaled delay within `u64`).
pub open spec fn backoff_in_range(initial_secs: u64, attempt: u32) -> bool {
    attempt_exponent(attempt) < 64 && initial_secs * pow2(attempt_exponent(attempt)) <= u64::MAX
}

/// The backoff delay in seconds: for `"exponential"`,
/// `initial * 2^(attempt-1)` capped at `max`; for any other strategy,
/// `initial`.
pub open spec fn backoff_secs(strategy: Seq<char>, initial_secs: u64, max_secs: u64, attempt: u32) -> u64 {
    if strategy == "exponential"@ {
        let delay = initial_secs * pow2(attempt_exponent(attempt));
        if delay <= max_secs { delay as u64 } else { max_secs }
    } else {
        initial_secs
    }
}

/// The duration of a whole number of seconds.
pub uninterp spec fn duration_of_secs(secs: u64) -> std::time::Duration;

/// Calls `std::time::Duration::from_secs`; claims the result is
/// [`duration_of_secs`] of `secs`.
#[verifier::external_body]
fn seconds(secs: u64) -> (d: std::time::Duration)
    ensures
        d == duration_of_secs(secs),
{
    std::time::Duration::from_secs(secs)
}

/// Calls `std::time::Instant::elapsed`. Nothing is claimed of the value (it
/// depends on the clock).
#[verifier::external_body]
fn elapsed_since(t: &std::time::Instant) -> std::time::Duration {
    t.elapsed()
}

/// The backoff delay in seconds for a strategy and attempt (1-indexed).
pub fn backoff_delay_secs(strategy: &str, initial_secs: u64, max_secs: u64, attempt: u32) -> (r: u64)
    requires
        strategy@ == "exponential"@ ==> backoff_in_range(initial_secs, attempt),
    ensures
        r == backoff_secs(strategy@, initial_secs, max_secs, attempt),
{
    if str_eq(strategy, "exponential") {
        let e: u32 = if attempt == 0 { 0 } else { attempt - 1 };
        let mut p: u64 = 1;
        let mut k: u32 = 0;
        proof {
            lemma_pow2_monotone(e as nat, 63);
        }
        while k < e
            invariant
                k <= e,
                e < 64,
                e == attempt_exponent(attempt),
                p == pow2(k as nat),
                pow2(e as nat) <= pow2(63),
                pow2(63) == 0x8000_0000_0000_0000u64,
            decreases e - k,
        {
            proof {
                lemma_pow2_monotone((k + 1) as nat, e as nat);
            }
            p = p * 2;
            k = k + 1;
        }
        proof {
            assert(initial_secs * pow2(e as nat) <= u64::MAX);
        }
        let delay = initial_secs * p;
        if delay <= max_secs {
            delay
        } else {
            max_secs
        }
    } else {
        initial_secs
    }
}

proof fn lemma_pow2_monotone(a: nat, b: nat)
    requires
        a <= b,
    ensures
        pow2(a) <= pow2(b),
        pow2(63) == 0x8000_0000_0000_0000u64,
    decreases b - a,
{
    reveal_with_fuel(pow2, 64);
    if a < b {
        lemma_pow2_monotone(a, (b - 1) as nat);
    }
}

/// Backoff delay for a strategy (`"fixed"` or `"exponential"`) and attempt
/// number (1-indexed).
pub fn calculate_backoff(strategy: &str, initial_secs: u64, max_secs: u64, attempt: u32) -> (r: std::time::Duration)
    requires
        strategy@ == "exponential"@ ==> backoff_in_range(initial_secs, attempt),
    ensures
        r == duration_of_secs(backoff_secs(strategy@, initial_secs, max_secs, attempt)),
{
    seconds(backoff_delay_secs(strategy, initial_secs, max_secs, attempt))
}

/// Law: a backoff never exceeds the cap, except a fixed (or initial-only)
/// delay that is itself configured above it.
pub proof fn lemma_backoff_capped(strategy: Seq<char>, initial_secs: u64, max_secs: u64, attempt: u32)
    ensures
        strategy == "exponential"@ ==> backoff_secs(strategy, initial_secs, max_secs, attempt) <= max_secs,
        strategy != "exponential"@ ==> backoff_secs(strategy, initial_secs, max_secs, attempt) == initial_secs,
{
}

/// Law: an exponential backoff does not shrink from one attempt to the next.
pub proof fn lemma_backoff_monotone(initial_secs: u64, max_secs: u64, attempt: u32)
    requires
        attempt < u32::MAX,
    ensures
        backoff_secs("exponential"@, initial_secs, max_secs, attempt) <= backoff_secs(
            "exponential"@,
            initial_secs,
            max_secs,
            (attempt + 1) as u32,
        ),
{
    let e = attempt_exponent(attempt);
    let e1 = attempt_exponent((attempt + 1) as u32);
    lemma_pow2_monotone(e, e1);
    assert(initial_secs * pow2(e) <= initial_secs * pow2(e1)) by (nonlinear_arith)
        requires
            pow2(e) <= pow2(e1),
    ;
}

/// Whether a restart policy restarts a worker that exited with `code`:
/// `"always"` does, `"on_failure"` does unless the code is 0, any other
/// policy does not.
pub open spec fn restarts_on(restart_policy: Seq<char>, code: Option<i32>) -> bool {
    if restart_policy == "always"@ {
        true
    } else if restart_policy == "on_failure"@ {
        code != Some(0i32)
    } else {
        false
    }
}

/// Whether a worker that exited with `code` is restarted under a restart
/// policy: always under `"always"`, on a non-zero or missing exit code under
/// `"on_failure"`, never otherwise.
pub fn should_restart(restart_policy: &str, code: Option<i32>) -> (r: bool)
    ensures
        r == restarts_on(restart_policy@, code),
        restart_policy@ == "always"@ ==> r,
        restart_policy@ == "on_failure"@ ==> (r <==> !(code == Some(0i32))),
        restart_policy@ != "always"@ && restart_policy@ != "on_failure"@ ==> !r,
{
    proof {
        reveal_strlit("always");
        reveal_strlit("on_failure");
        assert("always"@.len() == 6);
        assert("on_failure"@.len() == 10);
    }
    if str_eq(restart_policy, "always") {
        true
    } else if str_eq(restart_policy, "on_failure") {
        match code {
            Some(c) => c != 0,
            None => true,
        }
    } else {
        false
    }
}

/// Law: the `"always"` policy restarts a worker whatever its exit, a
/// signal (no exit code) and a clean exit included.
pub proof fn lemma_always_restarts_every_exit(code: Option<i32>)
    ensures
        restarts_on("always"@, code),
        restarts_on("always"@, None),
        restarts_on("always"@, Some(0i32)),
{
}

/// Law: `"on_failure"` restarts exactly the exits that are not a clean
/// exit 0, and `"always"` restarts at least every exit `"on_failure"` does.
pub proof fn lemma_on_failure_restarts_failures(code: Option<i32>)
    ensures
        restarts_on("on_failure"@, code) <==> code != Some(0i32),
        restarts_on("on_failure"@, code) ==> restarts_on("always"@, code),
{
    reveal_strlit("always");
    reveal_strlit("on_failure");
    assert("always"@.len() == 6);
    assert("on_failure"@.len() == 10);
}

/// Law: a policy other than `"always"` and `"on_failure"` never restarts.
pub proof fn lemma_other_policies_never_restart(restart_policy: Seq<char>, code: Option<i32>)
    requires
        restart_policy != "always"@,
        restart_policy != "on_failure"@,
    ensures
        !restarts_on(restart_policy, code),
{
}

/// Process state for tracking restart attempts.
#[derive(Debug)]
pub struct ProcessState {
    restart_count: u32,
    last_restart: Option<std::time::Instant>,
    config: MonitorConfig,
}

impl ProcessState {
    /// The number of restarts recorded.
    pub closed spec fn count(&self) -> u32 {
        self.restart_count
    }

    /// Whether a restart was ever recorded.
    pub closed spec fn restarted(&self) -> bool {
        self.last_restart is Some
    }

    /// The configuration the state was created with.
    pub closed spec fn settings(&self) -> MonitorConfig {
        self.config
    }

    /// A fresh state with no restarts.
    pub fn new(config: MonitorConfig) -> (r: Self)
        ensures
            r.count() == 0,
            !r.restarted(),
            r.settings() == config,
    {
        ProcessState { restart_count: 0, last_restart: None, config }
    }

    /// Record a restart attempt, now.
    pub fn record_restart(&mut self)
        requires
            old(self).count() < u32::MAX,
        ensures
            final(self).count() == old(self).count() + 1,
            final(self).restarted(),
            final(self).settings() == old(self).settings(),
    {
        self.restart_count = self.restart_count + 1;
        self.last_restart = Some(crate::time::instant_now());
    }

    /// The current restart count.
    pub fn restart_count(&self) -> (r: u32)
        ensures
            r == self.count(),
    {
        self.restart_count
    }

    /// Whether the restart limit has been reached.
    pub fn is_restart_limit_reached(&self) -> (r: bool)
        ensures
            r == (self.count() >= self.settings().max_restarts),
    {
        self.restart_count >= self.config.max_restarts
    }

    /// The backoff before the next restart: the configured strategy at the
    /// current restart count.
    pub fn current_backoff(&self) -> (r: std::time::Duration)
        requires
            self.settings().backoff_strategy@ == "exponential"@ ==> backoff_in_range(
                self.settings().initial_backoff_secs,
                self.count(),
            ),
        ensures
            r == duration_of_secs(
                backoff_secs(
                    self.settings().backoff_strategy@,
                    self.settings().initial_backoff_secs,
                    self.settings().max_backoff_secs,
                    self.count(),
                ),
            ),
    {
        calculate_backoff(
            self.config.backoff_strategy.as_str(),
            self.config.initial_backoff_secs,
            self.config.max_backoff_secs,
            self.restart_count,
        )
    }

    /// The time since the last restart, if any was recorded.
    pub fn time_since_last_restart(&self) -> (r: Option<std::time::Duration>)
        ensures
            r is Some == self.restarted(),
    {
        match &self.last_restart {
            Some(t) => Some(elapsed_since(t)),
            None => None,
        }
    }
}

/// Law: once a worker's restart limit is reached it stays reached: a later
/// state with the same settings and at least as many recorded restarts (as
/// [`ProcessState::record_restart`] gives) is still at its limit.
pub proof fn lemma_restart_limit_sticky(before: ProcessState, after: ProcessState)
    requires
        before.count() >= before.settings().max_restarts,
        after.settings() == before.settings(),
        after.count() >= before.count(),
    ensures
        after.count() >= after.settings().max_restarts,
{
}

/// Law: under the `"always"` policy a worker below its restart limit is
/// respawned on every exit, with or without an exit code.
pub proof fn lemma_always_respawns_below_limit(state: ProcessState, code: Option<i32>)
    requires
        state.settings().restart_policy@ == "always"@,
        state.count() < state.settings().max_restarts,
    ensures
        respawns(state, code),
{
}

/// What the supervisor does with a worker whose process exited.
#[derive(Debug, Clone, Copy, PartialEq, Eq)]
pub enum WorkerExitAction {
    /// Spawn it again after waiting `backoff`.
    Respawn { backoff: std::time::Duration },
    /// Stop supervising it; `degrade` puts the monitor in the degraded state.
    Retire { degrade: bool },
}

/// Whether a worker's exit leads to a respawn: its policy restarts on this
/// exit and its restart limit is not reached yet.
pub open spec fn respawns(state: ProcessState, code: Option<i32>) -> bool {
    restarts_on(state.settings().restart_policy@, code) && state.count() < state.settings().max_restarts
}

/// The decision on an exited worker: when the policy restarts on this exit
/// and the restart limit is not reached, the restart is recorded and the
/// worker is respawned after the backoff for the new restart count; otherwise
/// it is retired, and the monitor degrades exactly when the worker's restart
/// limit is reached.
pub fn on_worker_exit(state: &mut ProcessState, code: Option<i32>) -> (r: WorkerExitAction)
    requires
        respawns(*old(state), code) && old(state).settings().backoff_strategy@ == "exponential"@
            ==> backoff_in_range(old(state).settings().initial_backoff_secs, (old(state).count() + 1) as u32),
    ensures
        final(state).settings() == old(state).settings(),
        old(state).settings().restart_policy@ == "always"@ && old(state).count()
            < old(state).settings().max_restarts ==> r is Respawn,
        respawns(*old(state), code) ==> {
            &&& final(state).count() == old(state).count() + 1
            &&& final(state).restarted()
            &&& r == WorkerExitAction::Respawn {
                backoff: duration_of_secs(
                    backoff_secs(
                        old(state).settings().backoff_strategy@,
                        old(state).settings().initial_backoff_secs,
                        old(state).settings().max_backoff_secs,
                        final(state).count(),
                    ),
                ),
            }
        },
        !respawns(*old(state), code) ==> {
            &&& *final(state) == *old(state)
            &&& r == WorkerExitAction::Retire {
                degrade: old(state).count() >= old(state).settings().max_restarts,
            }
        },
{
    let restart = should_restart(state.config.restart_policy.as_str(), code);
    if restart && !state.is_restart_limit_reached() {
        state.record_restart();
        WorkerExitAction::Respawn { backoff: state.current_backoff() }
    } else {
        WorkerExitAction::Retire { degrade: state.is_restart_limit_reached() }
    }
}

} // verus!
