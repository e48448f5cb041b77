//! Health bookkeeping for registered tunnels.
//!
//! Timestamps are nanoseconds on a monotonic clock chosen by the caller.
use vstd::prelude::*;

verus! {

/// How a tunnel is doing, from best to worst.
#[derive(Clone, Copy, Debug, PartialEq, Eq, Structural)]
pub enum HealthStatus {
    Normal,
    Warning,
    Critical,
}

/// A health record older than this is stale.
pub const STALE_THRESHOLD_NS: u64 = 30_000_000_000;

/// Consecutive failures that push a tunnel to `Critical`.
pub const WARNING_TO_CRITICAL_FAILURES: u32 = 5;

/// Consecutive successes that bring a `Warning` tunnel back to `Normal`.
pub const SUCCESS_TO_NORMAL: u32 = 3;

/// Minimal time between two status transitions.
pub const HYSTERESIS_NS: u64 = 10_000_000_000;

/// A tunnel's health record: its status, its counters and the times at which
/// it last changed. The rolling latency and error-rate estimates that rank
/// tunnels are floating point and kept by the caller beside this record.
#[derive(Clone, Copy, Debug, PartialEq, Eq, Structural)]
pub struct TunnelHealth {
    pub status: HealthStatus,
    /// Last time any health information or outcome was recorded.
    pub last_update: u64,
    /// Last time a proxied request succeeded.
    pub last_success: Option<u64>,
    /// Last time a proxied request failed.
    pub last_failure: Option<u64>,
    pub consecutive_successes: u32,
    pub consecutive_failures: u32,
    /// Last time the status changed; `None` before the first change.
    pub last_transition: Option<u64>,
}

/// The severity order of statuses: `Normal` < `Warning` < `Critical`.
pub open spec fn severity(s: HealthStatus) -> int {
    match s {
        HealthStatus::Normal => 0,
        HealthStatus::Warning => 1,
        HealthStatus::Critical => 2,
    }
}

/// `now - since`, saturating at zero, as `Instant::duration_since` does.
pub open spec fn elapsed(since: u64, now: u64) -> int {
    if now >= since { now - since } else { 0 }
}

/// Whether enough time has passed since the last transition to allow another.
pub open spec fn hysteresis_elapsed(last_transition: Option<u64>, now: u64) -> bool {
    match last_transition {
        None => true,
        Some(t) => elapsed(t, now) >= HYSTERESIS_NS,
    }
}

pub open spec fn saturating_inc(n: u32) -> u32 {
    if n == u32::MAX { n } else { (n + 1) as u32 }
}

/// A fresh record created at `now`.
pub open spec fn fresh_health(now: u64) -> TunnelHealth {
    TunnelHealth {
        status: HealthStatus::Normal,
        last_update: now,
        last_success: None,
        last_failure: None,
        consecutive_successes: 0,
        consecutive_failures: 0,
        last_transition: None,
    }
}

/// The record after a proxied request through the tunnel succeeded at `now`.
///
/// A success on a `Critical` tunnel does not count towards recovery; a
/// `Warning` tunnel returns to `Normal` once it has enough consecutive
/// successes and the hysteresis time has passed.
pub open spec fn after_success(h: TunnelHealth, now: u64) -> TunnelHealth {
    let successes = if h.status == HealthStatus::Critical {
        h.consecutive_successes
    } else {
        saturating_inc(h.consecutive_successes)
    };
    let recovers = h.status == HealthStatus::Warning && successes >= SUCCESS_TO_NORMAL
        && hysteresis_elapsed(h.last_transition, now);
    TunnelHealth {
        status: if recovers { HealthStatus::Normal } else { h.status },
        last_update: now,
        last_success: Some(now),
        last_failure: h.last_failure,
        consecutive_successes: successes,
        consecutive_failures: 0,
        last_transition: if recovers { Some(now) } else { h.last_transition },
    }
}

/// The status a failure at `now` moves the record to, if it moves at all.
pub open spec fn failure_transition(h: TunnelHealth, failures: u32, now: u64) -> Option<HealthStatus> {
    if !hysteresis_elapsed(h.last_transition, now) {
        None
    } else if failures >= WARNING_TO_CRITICAL_FAILURES {
        Some(HealthStatus::Critical)
    } else if h.status != HealthStatus::Critical {
        Some(HealthStatus::Warning)
    } else {
        None
    }
}

/// The record after a proxied request through the tunnel failed at `now`.
pub open spec fn after_failure(h: TunnelHealth, now: u64) -> TunnelHealth {
    let failures = saturating_inc(h.consecutive_failures);
    let moved = failure_transition(h, failures, now);
    TunnelHealth {
        status: match moved { Some(s) => s, None => h.status },
        last_update: now,
        last_success: h.last_success,
        last_failure: Some(now),
        consecutive_successes: 0,
        consecutive_failures: failures,
        last_transition: if moved is Some { Some(now) } else { h.last_transition },
    }
}

/// The record after the tunnel itself reported `status` at `now`.
pub open spec fn after_report(h: TunnelHealth, status: HealthStatus, now: u64) -> TunnelHealth {
    TunnelHealth { status, last_update: now, ..h }
}

/// The record has not been updated for longer than the stale threshold.
pub open spec fn is_stale(h: TunnelHealth, now: u64) -> bool {
    elapsed(h.last_update, now) > STALE_THRESHOLD_NS
}

/// Fit to receive traffic: not `Critical` and updated within the stale
/// threshold. A tunnel with no record is given the benefit of the doubt.
pub open spec fn healthy(h: Option<TunnelHealth>, now: u64) -> bool {
    match h {
        None => true,
        Some(r) => r.status != HealthStatus::Critical && elapsed(r.last_update, now) < STALE_THRESHOLD_NS,
    }
}

fn elapsed_since(since: u64, now: u64) -> (d: u64)
    ensures
        d == elapsed(since, now),
{
    if now >= since {
        now - since
    } else {
        0
    }
}

fn hysteresis_respected(last_transition: Option<u64>, now: u64) -> (b: bool)
    ensures
        b == hysteresis_elapsed(last_transition, now),
{
    match last_transition {
        None => true,
        Some(t) => elapsed_since(t, now) >= HYSTERESIS_NS,
    }
}

impl TunnelHealth {
    /// A record for a tunnel first seen at `now`.
    pub fn new(now: u64) -> (h: TunnelHealth)
        ensures
            h == fresh_health(now),
    {
        TunnelHealth {
            status: HealthStatus::Normal,
            last_update: now,
            last_success: None,
            last_failure: None,
            consecutive_successes: 0,
            consecutive_failures: 0,
            last_transition: None,
        }
    }

    /// Records that a request proxied through the tunnel succeeded at `now`.
    pub fn mark_success(&mut self, now: u64)
        ensures
            *final(self) == after_success(*old(self), now),
    {
        let successes = if self.status == HealthStatus::Critical {
            self.consecutive_successes
        } else {
            self.consecutive_successes.saturating_add(1)
        };
        self.last_update = now;
        self.last_success = Some(now);
        self.consecutive_successes = successes;
        self.consecutive_failures = 0;
        if self.status == HealthStatus::Warning && successes >= SUCCESS_TO_NORMAL
            && hysteresis_respected(self.last_transition, now) {
            self.status = HealthStatus::Normal;
            self.last_transition = Some(now);
        }
    }

    /// Records that a request proxied through the tunnel failed (error or
    /// timeout) at `now`.
    pub fn mark_failure(&mut self, now: u64)
        ensures
            *final(self) == after_failure(*old(self), now),
    {
        let failures = self.consecutive_failures.saturating_add(1);
        self.last_update = now;
        self.last_failure = Some(now);
        self.consecutive_failures = failures;
        self.consecutive_successes = 0;
        if hysteresis_respected(self.last_transition, now) {
            if failures >= WARNING_TO_CRITICAL_FAILURES {
                self.status = HealthStatus::Critical;
                self.last_transition = Some(now);
            } else if self.status != HealthStatus::Critical {
                self.status = HealthStatus::Warning;
                self.last_transition = Some(now);
            }
        }
    }

    /// Records a status that the tunnel reported about itself at `now`.
    pub fn apply_report(&mut self, status: HealthStatus, now: u64)
        ensures
            *final(self) == after_report(*old(self), status, now),
    {
        self.status = status;
        self.last_update = now;
    }

    /// Whether the record is older than the stale threshold at `now`.
    pub fn stale(&self, now: u64) -> (b: bool)
        ensures
            b == is_stale(*self, now),
    {
        elapsed_since(self.last_update, now) > STALE_THRESHOLD_NS
    }
}

/// Whether a tunnel with record `h` may receive traffic at `now`.
pub fn is_healthy(h: Option<&TunnelHealth>, now: u64) -> (b: bool)
    ensures
        b == healthy(match h { Some(r) => Some(*r), None => None }, now),
{
    match h {
        None => true,
        Some(r) => r.status != HealthStatus::Critical
            && elapsed_since(r.last_update, now) < STALE_THRESHOLD_NS,
    }
}


/// The record after failures at each of `times`, in order.
pub open spec fn after_failures(h: TunnelHealth, times: Seq<u64>) -> TunnelHealth
    decreases times.len(),
{
    if times.len() == 0 {
        h
    } else {
        after_failure(after_failures(h, times.drop_last()), times.last())
    }
}

/// The record after successes at each of `times`, in order.
pub open spec fn after_successes(h: TunnelHealth, times: Seq<u64>) -> TunnelHealth
    decreases times.len(),
{
    if times.len() == 0 {
        h
    } else {
        after_success(after_successes(h, times.drop_last()), times.last())
    }
}

/// A tunnel's own report sets its status, whatever the status was before:
/// the report's time becomes the last update and nothing else in the record
/// changes.
pub proof fn lemma_report_sets_status(h: TunnelHealth, status: HealthStatus, now: u64)
    ensures
        after_report(h, status, now).status == status,
        after_report(h, status, now).last_update == now,
        after_report(h, status, now).last_success == h.last_success,
        after_report(h, status, now).last_failure == h.last_failure,
        after_report(h, status, now).consecutive_successes == h.consecutive_successes,
        after_report(h, status, now).consecutive_failures == h.consecutive_failures,
        after_report(h, status, now).last_transition == h.last_transition,
{
}

/// A tunnel that reports itself `Normal` or `Warning` is fit for traffic
/// again at once, even if it was `Critical` or stale before; one that
/// reports `Critical` is not.
pub proof fn lemma_report_restores_traffic(h: TunnelHealth, status: HealthStatus, now: u64)
    ensures
        healthy(Some(after_report(h, status, now)), now) <==> status != HealthStatus::Critical,
{
}

/// The last of several reports decides the status: a `Critical` report
/// followed by a `Normal` one leaves the tunnel `Normal`.
pub proof fn lemma_later_report_wins(
    h: TunnelHealth,
    first: HealthStatus,
    t1: u64,
    second: HealthStatus,
    t2: u64,
)
    ensures
        after_report(after_report(h, first, t1), second, t2).status == second,
        after_report(after_report(h, first, t1), second, t2).last_update == t2,
{
}

/// A failure never makes a tunnel's status better.
pub proof fn lemma_failure_never_improves(h: TunnelHealth, now: u64)
    ensures
        severity(after_failure(h, now).status) >= severity(h.status),
{
}

/// A success never makes a tunnel's status worse.
pub proof fn lemma_success_never_worsens(h: TunnelHealth, now: u64)
    ensures
        severity(after_success(h, now).status) <= severity(h.status),
{
}

/// Hysteresis: a success or a failure changes the status only when the
/// hysteresis time has passed since the last change, and a change records
/// its time.
pub proof fn lemma_transitions_respect_hysteresis(h: TunnelHealth, now: u64)
    ensures
        after_failure(h, now).status != h.status ==> hysteresis_elapsed(h.last_transition, now)
            && after_failure(h, now).last_transition == Some(now),
        after_success(h, now).status != h.status ==> hysteresis_elapsed(h.last_transition, now)
            && after_success(h, now).last_transition == Some(now),
{
}

/// The first failure of a tunnel that has not changed status yet puts it in
/// `Warning`.
pub proof fn lemma_first_failure_warns(created: u64, now: u64)
    ensures
        after_failure(fresh_health(created), now).status == HealthStatus::Warning,
        after_failure(fresh_health(created), now).consecutive_failures == 1,
{
}

/// Successes never bring a `Critical` tunnel back, however many there are.
pub proof fn lemma_critical_survives_successes(h: TunnelHealth, times: Seq<u64>)
    requires
        h.status == HealthStatus::Critical,
    ensures
        after_successes(h, times).status == HealthStatus::Critical,
    decreases times.len(),
{
    if times.len() > 0 {
        lemma_critical_survives_successes(h, times.drop_last());
    }
}

/// Escalation: a tunnel whose failures come at least the hysteresis time
/// apart (and after its last status change) is `Critical` once it has failed
/// `WARNING_TO_CRITICAL_FAILURES` times in a row.
pub proof fn lemma_spaced_failures_escalate(h: TunnelHealth, times: Seq<u64>)
    requires
        times.len() >= WARNING_TO_CRITICAL_FAILURES,
        hysteresis_elapsed(h.last_transition, times[0]),
        forall|i: int| 0 <= i < times.len() - 1 ==> times[i] + HYSTERESIS_NS <= #[trigger] times[i + 1],
    ensures
        after_failures(h, times).status == HealthStatus::Critical,
{
    lemma_spaced_failures_count(h, times);
}

proof fn lemma_spaced_failures_count(h: TunnelHealth, times: Seq<u64>)
    requires
        times.len() >= 1,
        hysteresis_elapsed(h.last_transition, times[0]),
        forall|i: int| 0 <= i < times.len() - 1 ==> times[i] + HYSTERESIS_NS <= #[trigger] times[i + 1],
    ensures
        after_failures(h, times).consecutive_failures >= if times.len() < u32::MAX {
            times.len() as int
        } else {
            u32::MAX as int
        },
        match after_failures(h, times).last_transition {
            Some(t) => t <= times.last(),
            None => true,
        },
        times.len() >= WARNING_TO_CRITICAL_FAILURES ==> after_failures(h, times).status
            == HealthStatus::Critical,
    decreases times.len(),
{
    let prev = times.drop_last();
    if prev.len() == 0 {
        assert(times.last() == times[0]);
    } else {
        assert forall|i: int| 0 <= i < prev.len() - 1 implies prev[i] + HYSTERESIS_NS <= #[trigger] prev[i + 1] by {
            assert(prev[i] == times[i] && prev[i + 1] == times[i + 1]);
        }
        assert(prev[0] == times[0]);
        lemma_spaced_failures_count(h, prev);
        let k = times.len() - 2;
        assert(times[k] + HYSTERESIS_NS <= times[k + 1]);
        assert(prev.last() == times[k]);
    }
}

/// Recovery: a `Warning` tunnel that succeeds `SUCCESS_TO_NORMAL` times in a
/// row, each time after the hysteresis time has passed since its last status
/// change, is `Normal` again.
pub proof fn lemma_warning_recovers(h: TunnelHealth, times: Seq<u64>)
    requires
        h.status == HealthStatus::Warning,
        times.len() >= SUCCESS_TO_NORMAL,
        forall|i: int| 0 <= i < times.len() ==> hysteresis_elapsed(h.last_transition, #[trigger] times[i]),
    ensures
        after_successes(h, times).status == HealthStatus::Normal,
{
    lemma_successes_progress(h, times);
}

proof fn lemma_successes_progress(h: TunnelHealth, times: Seq<u64>)
    requires
        h.status == HealthStatus::Warning,
        forall|i: int| 0 <= i < times.len() ==> hysteresis_elapsed(h.last_transition, #[trigger] times[i]),
    ensures
        after_successes(h, times).status == HealthStatus::Normal || (after_successes(h, times).status
            == HealthStatus::Warning && after_successes(h, times).consecutive_successes >= times.len()
            && after_successes(h, times).last_transition == h.last_transition),
        times.len() >= SUCCESS_TO_NORMAL ==> after_successes(h, times).status == HealthStatus::Normal,
    decreases times.len(),
{
    if times.len() > 0 {
        let prev = times.drop_last();
        assert forall|i: int| 0 <= i < prev.len() implies hysteresis_elapsed(h.last_transition, #[trigger] prev[i]) by {
            assert(prev[i] == times[i]);
        }
        lemma_successes_progress(h, prev);
        assert(hysteresis_elapsed(h.last_transition, times[times.len() - 1]));
    }
}

} // verus!
