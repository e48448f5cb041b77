//! Where a public request goes: through one of the local tunnels registered
//! for its subdomain, or to the cloud backend.
use vstd::prelude::*;
use vstd::string::*;
use axum::http::{HeaderMap, Uri};
use crate::cookies::{
    backend_cookie_name, cloud_backend, cookie_header_name, cookie_safe, get_cookie_value,
    backend_local_pair, host_header_name, host_subdomain, lemma_returned_pairs,
    lemma_tunnel_pair_has_no_backend, lemma_tunnel_pair_lookup, local_backend, pair_separator,
    request_cookie, request_subdomain, subdomain, subdomain_of, tunnel_cookie_name,
    tunnel_cookie_prefix,
};
use crate::headers::{header_contents, header_str, header_text_value};
use crate::health::{
    after_failures, after_report, healthy, hysteresis_elapsed, is_healthy, is_stale,
    lemma_spaced_failures_escalate, severity, HealthStatus, TunnelHealth, HYSTERESIS_NS,
    WARNING_TO_CRITICAL_FAILURES,
};
use crate::session::CloudEvent;
use crate::text::{chars_of, has_prefix_at, starts_with, string_of};

verus! {

broadcast use vstd::string::group_string_axioms;

/// A registered tunnel as the router sees it.
///
/// `error_rate_key` and `latency_key` stand for the tunnel's rolling error
/// rate and latency estimates: integers in the same order as the estimates
/// (smaller is better), with the caller's defaults for a tunnel that has no
/// estimate yet.
pub struct TunnelCandidate {
    pub id: String,
    pub health: Option<TunnelHealth>,
    pub error_rate_key: u64,
    pub latency_key: u64,
}

/// The rank of a tunnel's status: `Normal` 0, `Warning` 1, `Critical` 2; a
/// tunnel without a record ranks as `Warning`.
pub open spec fn status_rank(h: Option<TunnelHealth>) -> int {
    match h {
        None => 1,
        Some(r) => severity(r.status),
    }
}

/// `a` is at least as good as `b`: compared by status rank, then error rate,
/// then latency.
pub open spec fn ranks_no_worse(a: TunnelCandidate, b: TunnelCandidate) -> bool {
    let (sa, sb) = (status_rank(a.health), status_rank(b.health));
    sa < sb || (sa == sb && (a.error_rate_key < b.error_rate_key || (a.error_rate_key
        == b.error_rate_key && a.latency_key <= b.latency_key)))
}

/// Tunnel `id` serves `subdomain`: it is named after it, or is one of its
/// numbered instances `subdomain-...`.
pub open spec fn serves(id: Seq<char>, subdomain: Seq<char>) -> bool {
    id == subdomain || starts_with(id, subdomain.push('-'))
}

/// A candidate that may be chosen for `subdomain`: it serves it and is not
/// `Critical`.
pub open spec fn eligible(c: TunnelCandidate, subdomain: Seq<char>) -> bool {
    serves(c.id@, subdomain) && status_rank(c.health) != 2
}

/// `i` is the first of the best eligible candidates.
pub open spec fn is_best_at(cs: Seq<TunnelCandidate>, subdomain: Seq<char>, i: int) -> bool {
    &&& 0 <= i < cs.len()
    &&& eligible(cs[i], subdomain)
    &&& forall|j: int| 0 <= j < cs.len() && eligible(cs[j], subdomain) ==> ranks_no_worse(cs[i], cs[j])
    &&& forall|j: int| 0 <= j < i && eligible(cs[j], subdomain) ==> !ranks_no_worse(cs[j], cs[i])
}

/// The candidate chosen for `subdomain`: the first best eligible one.
pub open spec fn best_candidate(cs: Seq<TunnelCandidate>, subdomain: Seq<char>) -> Option<int> {
    if exists|i: int| is_best_at(cs, subdomain, i) {
        Some(choose|i: int| is_best_at(cs, subdomain, i))
    } else {
        None
    }
}

/// `i` is the first candidate named `id`.
pub open spec fn is_first_named(cs: Seq<TunnelCandidate>, id: Seq<char>, i: int) -> bool {
    0 <= i < cs.len() && cs[i].id@ == id && forall|j: int| 0 <= j < i ==> cs[j].id@ != id
}

/// The first candidate named `id`.
pub open spec fn named_candidate(cs: Seq<TunnelCandidate>, id: Seq<char>) -> Option<int> {
    if exists|i: int| is_first_named(cs, id, i) {
        Some(choose|i: int| is_first_named(cs, id, i))
    } else {
        None
    }
}

/// The tunnel a request goes through, or `None` for the cloud backend.
///
/// A client whose `backend` cookie is `cloud` stays on the cloud. A client
/// pinned by its `tunnel` cookie to a registered tunnel stays there
/// while that tunnel is healthy. Otherwise the best tunnel serving the
/// request's subdomain is used if it is healthy; else the request goes to the
/// cloud.
pub open spec fn planned_route(c: Seq<(Seq<char>, Seq<u8>)>, cs: Seq<TunnelCandidate>, now: u64) -> Option<int> {
    if request_cookie(c, backend_cookie_name()) == Some(cloud_backend()) {
        None
    } else {
        tunnel_route(c, cs, now)
    }
}

/// The tunnel chosen for a request that is not pinned to the cloud.
pub open spec fn tunnel_route(c: Seq<(Seq<char>, Seq<u8>)>, cs: Seq<TunnelCandidate>, now: u64) -> Option<int> {
    let pinned = match request_cookie(c, tunnel_cookie_name()) {
        Some(p) => match named_candidate(cs, p) {
            Some(i) => if healthy(cs[i].health, now) { Some(i) } else { None },
            None => None,
        },
        None => None,
    };
    match pinned {
        Some(i) => Some(i),
        None => match best_candidate(cs, request_subdomain(c)) {
            Some(i) => if healthy(cs[i].health, now) { Some(i) } else { None },
            None => None,
        },
    }
}

pub proof fn lemma_best_unique(cs: Seq<TunnelCandidate>, subdomain: Seq<char>, i: int, k: int)
    requires
        is_best_at(cs, subdomain, i),
        is_best_at(cs, subdomain, k),
    ensures
        i == k,
{
    if i < k {
        assert(ranks_no_worse(cs[i], cs[k]));
    } else if k < i {
        assert(ranks_no_worse(cs[k], cs[i]));
    }
}

pub proof fn lemma_named_unique(cs: Seq<TunnelCandidate>, id: Seq<char>, i: int, k: int)
    requires
        is_first_named(cs, id, i),
        is_first_named(cs, id, k),
    ensures
        i == k,
{
}

fn rank_of(h: &Option<TunnelHealth>) -> (r: u8)
    ensures
        r == status_rank(*h),
{
    match h {
        None => 1,
        Some(r) => match r.status {
            HealthStatus::Normal => 0,
            HealthStatus::Warning => 1,
            HealthStatus::Critical => 2,
        },
    }
}

fn no_worse(a: &TunnelCandidate, b: &TunnelCandidate) -> (r: bool)
    ensures
        r == ranks_no_worse(*a, *b),
{
    let sa = rank_of(&a.health);
    let sb = rank_of(&b.health);
    sa < sb || (sa == sb && (a.error_rate_key < b.error_rate_key || (a.error_rate_key
        == b.error_rate_key && a.latency_key <= b.latency_key)))
}

/// Whether tunnel `id` serves the subdomain whose text is `subdomain` and
/// whose instance prefix (`subdomain-`) is `instance_prefix`.
fn serves_subdomain(id: &String, subdomain: &String, instance_prefix: &Vec<char>) -> (r: bool)
    requires
        instance_prefix@ == subdomain@.push('-'),
    ensures
        r == serves(id@, subdomain@),
{
    if *id == *subdomain {
        return true;
    }
    let cs = chars_of(id.as_str());
    let r = has_prefix_at(&cs, 0, cs.len(), instance_prefix);
    assert(cs@.subrange(0, cs@.len() as int) =~= id@);
    r
}

/// The best tunnel for `subdomain`, as an index into `candidates`.
///
/// Only tunnels named `subdomain` or `subdomain-...` are considered, and a
/// `Critical` tunnel is never chosen. Among the rest the best status wins,
/// then the lower error rate, then the lower latency; of equals, the first.
pub fn choose_best_tunnel(candidates: &Vec<TunnelCandidate>, subdomain: &str) -> (r: Option<usize>)
    ensures
        match r {
            Some(i) => best_candidate(candidates@, subdomain@) == Some(i as int),
            None => best_candidate(candidates@, subdomain@) is None,
        },
{
    let sub = String::from_str(subdomain);
    let mut prefix = chars_of(subdomain);
    prefix.push('-');
    let ghost cs = candidates@;
    let mut best: Option<usize> = None;
    let mut i: usize = 0;
    while i < candidates.len()
        invariant
            0 <= i <= cs.len(),
            cs == candidates@,
            sub@ == subdomain@,
            prefix@ == subdomain@.push('-'),
            match best {
                Some(b) => b < i && is_best_at(cs.take(i as int), subdomain@, b as int),
                None => forall|j: int| 0 <= j < i ==> !eligible(#[trigger] cs[j], subdomain@),
            },
        decreases cs.len() - i,
    {
        let c = &candidates[i];
        let ok = serves_subdomain(&c.id, &sub, &prefix) && rank_of(&c.health) != 2;
        let ghost old_best = best;
        if ok {
            match best {
                None => {
                    best = Some(i);
                },
                Some(b) => {
                    if !no_worse(&candidates[b], c) {
                        best = Some(i);
                    }
                },
            }
        }
        proof {
            let t = cs.take(i + 1);
            assert forall|j: int| 0 <= j < i implies t[j] == cs.take(i as int)[j] by {}
            match best {
                Some(b) => {
                    match old_best {
                        Some(ob) => {
                            assert(is_best_at(cs.take(i as int), subdomain@, ob as int));
                            if b == i {
                                assert forall|j: int| 0 <= j < t.len() && eligible(t[j], subdomain@)
                                    implies ranks_no_worse(t[b as int], t[j]) by {
                                    if j < i {
                                        assert(ranks_no_worse(cs[ob as int], cs[j]));
                                    }
                                }
                                assert forall|j: int| 0 <= j < b && eligible(t[j], subdomain@)
                                    implies !ranks_no_worse(t[j], t[b as int]) by {
                                    assert(ranks_no_worse(cs[ob as int], cs[j]));
                                }
                            }
                        },
                        None => {},
                    }
                    assert(is_best_at(t, subdomain@, b as int));
                },
                None => {},
            }
        }
        i = i + 1;
    }
    assert(cs.take(cs.len() as int) =~= cs);
    match best {
        Some(b) => {
            proof {
                assert forall|k: int| is_best_at(cs, subdomain@, k) implies k == b by {
                    lemma_best_unique(cs, subdomain@, b as int, k);
                }
            }
            Some(b)
        },
        None => {
            assert(forall|k: int| !is_best_at(cs, subdomain@, k));
            None
        },
    }
}

/// The first candidate named `id`, as an index into `candidates`.
pub fn find_candidate(candidates: &Vec<TunnelCandidate>, id: &String) -> (r: Option<usize>)
    ensures
        match r {
            Some(i) => named_candidate(candidates@, id@) == Some(i as int),
            None => named_candidate(candidates@, id@) is None,
        },
{
    let mut i: usize = 0;
    while i < candidates.len()
        invariant
            0 <= i <= candidates@.len(),
            forall|j: int| 0 <= j < i ==> (#[trigger] candidates@[j]).id@ != id@,
        decreases candidates@.len() - i,
    {
        if candidates[i].id == *id {
            proof {
                assert(is_first_named(candidates@, id@, i as int));
                assert forall|k: int| is_first_named(candidates@, id@, k) implies k == i by {
                    lemma_named_unique(candidates@, id@, i as int, k);
                }
            }
            return Some(i);
        }
        i = i + 1;
    }
    None
}

/// Decides where a request with these headers goes at `now`: the index of
/// the tunnel in `candidates` (the registered tunnels) or `None` for the cloud
/// backend. See `planned_route`.
pub fn plan_route(headers: &HeaderMap, candidates: &Vec<TunnelCandidate>, now: u64) -> (r: Option<usize>)
    ensures
        match r {
            Some(i) => planned_route(header_contents(*headers), candidates@, now) == Some(i as int),
            None => planned_route(header_contents(*headers), candidates@, now) is None,
        },
{
    proof {
        reveal_strlit("tunnel");
        reveal_strlit("backend");
        reveal_strlit("cloud");
    }
    assert("tunnel"@ =~= tunnel_cookie_name());
    assert("backend"@ =~= backend_cookie_name());
    assert("cloud"@ =~= cloud_backend());
    if let Some(b) = get_cookie_value(headers, "backend") {
        if b == String::from_str("cloud") {
            return None;
        }
    }
    if let Some(pref) = get_cookie_value(headers, "tunnel") {
        if let Some(i) = find_candidate(candidates, &pref) {
            if is_healthy(candidates[i].health.as_ref(), now) {
                return Some(i);
            }
        }
    }
    let sub = host_subdomain(headers);
    match choose_best_tunnel(candidates, sub.as_str()) {
        Some(i) => {
            if is_healthy(candidates[i].health.as_ref(), now) {
                Some(i)
            } else {
                None
            }
        },
        None => None,
    }
}


/// Traffic switching: a request is only ever routed to a tunnel that is
/// healthy at that moment (not `Critical`, and heard from within the stale
/// threshold); otherwise it goes to the cloud.
pub proof fn lemma_route_only_healthy(c: Seq<(Seq<char>, Seq<u8>)>, cs: Seq<TunnelCandidate>, now: u64)
    ensures
        planned_route(c, cs, now) matches Some(i) ==> 0 <= i < cs.len() && healthy(cs[i].health, now),
{
    if let Some(p) = request_cookie(c, tunnel_cookie_name()) {
        if named_candidate(cs, p) is Some {
            let i = choose|i: int| is_first_named(cs, p, i);
            assert(is_first_named(cs, p, i));
        }
    }
    if best_candidate(cs, request_subdomain(c)) is Some {
        let i = choose|i: int| is_best_at(cs, request_subdomain(c), i);
        assert(is_best_at(cs, request_subdomain(c), i));
    }
}

/// A tunnel that has not been heard from for longer than the stale threshold
/// gets no traffic until it reports again.
pub proof fn lemma_stale_tunnel_bypassed(
    c: Seq<(Seq<char>, Seq<u8>)>,
    cs: Seq<TunnelCandidate>,
    now: u64,
    i: int,
)
    requires
        0 <= i < cs.len(),
        cs[i].health matches Some(h) && is_stale(h, now),
    ensures
        planned_route(c, cs, now) != Some(i),
{
    lemma_route_only_healthy(c, cs, now);
}

/// Traffic switches away from a tunnel that keeps failing: once it has failed
/// `WARNING_TO_CRITICAL_FAILURES` times in a row, spaced by the hysteresis
/// time, no request is routed to it.
pub proof fn lemma_failing_tunnel_loses_traffic(
    c: Seq<(Seq<char>, Seq<u8>)>,
    cs: Seq<TunnelCandidate>,
    now: u64,
    i: int,
    h: TunnelHealth,
    times: Seq<u64>,
)
    requires
        0 <= i < cs.len(),
        cs[i].health == Some(after_failures(h, times)),
        times.len() >= WARNING_TO_CRITICAL_FAILURES,
        hysteresis_elapsed(h.last_transition, times[0]),
        forall|k: int| 0 <= k < times.len() - 1 ==> times[k] + HYSTERESIS_NS <= #[trigger] times[k + 1],
    ensures
        planned_route(c, cs, now) != Some(i),
{
    lemma_spaced_failures_escalate(h, times);
    lemma_route_only_healthy(c, cs, now);
}

/// A tunnel whose client reports a `Critical` machine gets no traffic.
pub proof fn lemma_critical_report_diverts(
    c: Seq<(Seq<char>, Seq<u8>)>,
    cs: Seq<TunnelCandidate>,
    now: u64,
    i: int,
    h: TunnelHealth,
    reported_at: u64,
)
    requires
        0 <= i < cs.len(),
        cs[i].health == Some(after_report(h, HealthStatus::Critical, reported_at)),
    ensures
        planned_route(c, cs, now) != Some(i),
{
    lemma_route_only_healthy(c, cs, now);
}

/// A client whose `backend` cookie is `cloud` stays on the cloud, whatever
/// the state of the tunnels.
pub proof fn lemma_cloud_pin_sticks(c: Seq<(Seq<char>, Seq<u8>)>, cs: Seq<TunnelCandidate>, now: u64)
    requires
        request_cookie(c, backend_cookie_name()) == Some(cloud_backend()),
    ensures
        planned_route(c, cs, now) is None,
{
}

/// A client pinned by its `tunnel` cookie to a registered tunnel stays on it
/// while that tunnel is healthy.
pub proof fn lemma_tunnel_pin_sticks(
    c: Seq<(Seq<char>, Seq<u8>)>,
    cs: Seq<TunnelCandidate>,
    now: u64,
    i: int,
)
    requires
        request_cookie(c, backend_cookie_name()) != Some(cloud_backend()),
        request_cookie(c, tunnel_cookie_name()) == Some(cs[i].id@),
        0 <= i < cs.len(),
        forall|j: int| 0 <= j < cs.len() && j != i ==> cs[j].id@ != cs[i].id@,
        healthy(cs[i].health, now),
    ensures
        planned_route(c, cs, now) == Some(i),
{
    assert(is_first_named(cs, cs[i].id@, i));
    let k = choose|k: int| is_first_named(cs, cs[i].id@, k);
    lemma_named_unique(cs, cs[i].id@, i, k);
}

/// The `Cookie` header texts in which a client sends back what a response
/// from tunnel `id` set: the pair `tunnel=<id>` alone, or with the pair
/// `backend=local` after or before it.
pub open spec fn returned_cookie_header(h: Seq<char>, id: Seq<char>) -> bool {
    ||| h == tunnel_cookie_prefix() + id
    ||| h == tunnel_cookie_prefix() + id + pair_separator() + backend_local_pair()
    ||| h == backend_local_pair() + pair_separator() + tunnel_cookie_prefix() + id
}

/// Stickiness end to end: a client that sends back the cookies that a
/// response from tunnel `id` set stays on that tunnel while it is healthy.
pub proof fn lemma_returned_cookie_pins(
    c: Seq<(Seq<char>, Seq<u8>)>,
    cs: Seq<TunnelCandidate>,
    now: u64,
    i: int,
    h: Seq<char>,
)
    requires
        0 <= i < cs.len(),
        cookie_safe(cs[i].id@),
        header_str(c, cookie_header_name()) == Some(h),
        returned_cookie_header(h, cs[i].id@),
        forall|j: int| 0 <= j < cs.len() && j != i ==> cs[j].id@ != cs[i].id@,
        healthy(cs[i].health, now),
    ensures
        planned_route(c, cs, now) == Some(i),
{
    let id = cs[i].id@;
    if h == tunnel_cookie_prefix() + id {
        lemma_tunnel_pair_lookup(id, Seq::empty());
        assert(tunnel_cookie_prefix() + id + Seq::<char>::empty() =~= tunnel_cookie_prefix() + id);
        lemma_tunnel_pair_has_no_backend(id);
    } else {
        lemma_returned_pairs(id);
        assert(local_backend()[0] != cloud_backend()[0]);
    }
    lemma_tunnel_pin_sticks(c, cs, now, i);
}

proof fn lemma_best_of_prefix(cs: Seq<TunnelCandidate>, subdomain: Seq<char>, n: int)
    requires
        0 <= n <= cs.len(),
        exists|j: int| 0 <= j < n && eligible(#[trigger] cs[j], subdomain),
    ensures
        exists|i: int| is_best_at(cs.take(n), subdomain, i),
    decreases n,
{
    let t = cs.take(n);
    let m = n - 1;
    let p = cs.take(m);
    assert forall|j: int| 0 <= j < m implies #[trigger] p[j] == t[j] by {}
    if exists|j: int| 0 <= j < m && eligible(#[trigger] cs[j], subdomain) {
        lemma_best_of_prefix(cs, subdomain, m);
        let b = choose|i: int| is_best_at(p, subdomain, i);
        assert(is_best_at(p, subdomain, b));
        if !eligible(cs[m], subdomain) || ranks_no_worse(cs[b], cs[m]) {
            assert forall|j: int| 0 <= j < t.len() && eligible(t[j], subdomain) implies ranks_no_worse(
                t[b],
                t[j],
            ) by {
                if j < m {
                    assert(p[j] == t[j]);
                }
            }
            assert(is_best_at(t, subdomain, b));
        } else {
            assert forall|j: int| 0 <= j < t.len() && eligible(t[j], subdomain) implies ranks_no_worse(
                t[m],
                t[j],
            ) by {
                if j < m {
                    assert(p[j] == t[j]);
                    assert(ranks_no_worse(p[b], p[j]));
                }
            }
            assert forall|j: int| 0 <= j < m && eligible(t[j], subdomain) implies !ranks_no_worse(
                t[j],
                t[m],
            ) by {
                assert(p[j] == t[j]);
                assert(ranks_no_worse(p[b], p[j]));
            }
            assert(is_best_at(t, subdomain, m));
        }
    } else {
        assert forall|j: int| 0 <= j < t.len() && eligible(t[j], subdomain) implies j == m by {
            if j < m {
                assert(t[j] == cs[j]);
            }
        }
        assert(is_best_at(t, subdomain, m));
    }
}

/// A tunnel is chosen for a subdomain exactly when some tunnel may serve it
/// (serves the subdomain and is not `Critical`).
pub proof fn lemma_best_exists(cs: Seq<TunnelCandidate>, subdomain: Seq<char>)
    ensures
        best_candidate(cs, subdomain) is Some <==> exists|j: int| 0 <= j < cs.len() && eligible(
            #[trigger] cs[j],
            subdomain,
        ),
{
    if exists|j: int| 0 <= j < cs.len() && eligible(#[trigger] cs[j], subdomain) {
        lemma_best_of_prefix(cs, subdomain, cs.len() as int);
        assert(cs.take(cs.len() as int) =~= cs);
    }
    if best_candidate(cs, subdomain) is Some {
        let i = choose|i: int| is_best_at(cs, subdomain, i);
        assert(is_best_at(cs, subdomain, i));
        assert(eligible(cs[i], subdomain));
    }
}

/// The chosen tunnel is the best of those that may serve the subdomain:
/// no eligible tunnel has a better status; among those of the same status
/// none has a lower error rate; among those also of the same error rate none
/// has a lower latency; and of tunnels equal in all three the first is
/// chosen.
pub proof fn lemma_best_is_optimal(cs: Seq<TunnelCandidate>, subdomain: Seq<char>, i: int, j: int)
    requires
        best_candidate(cs, subdomain) == Some(i),
        0 <= j < cs.len(),
        eligible(cs[j], subdomain),
    ensures
        status_rank(cs[i].health) <= status_rank(cs[j].health),
        status_rank(cs[i].health) == status_rank(cs[j].health) ==> cs[i].error_rate_key
            <= cs[j].error_rate_key,
        status_rank(cs[i].health) == status_rank(cs[j].health) && cs[i].error_rate_key
            == cs[j].error_rate_key ==> cs[i].latency_key <= cs[j].latency_key,
        status_rank(cs[i].health) == status_rank(cs[j].health) && cs[i].error_rate_key
            == cs[j].error_rate_key && cs[i].latency_key == cs[j].latency_key ==> i <= j,
{
    assert(is_best_at(cs, subdomain, i));
    assert(ranks_no_worse(cs[i], cs[j]));
    if j < i {
        assert(!ranks_no_worse(cs[j], cs[i]));
    }
}

/// The route when the request is not pinned to a healthy tunnel (no
/// `tunnel` cookie, one naming no registered tunnel, or one naming a tunnel
/// that is not healthy) and not pinned to the cloud: the best tunnel serving
/// its subdomain when that tunnel is healthy, and the cloud otherwise.
pub proof fn lemma_unpinned_route(c: Seq<(Seq<char>, Seq<u8>)>, cs: Seq<TunnelCandidate>, now: u64)
    requires
        request_cookie(c, backend_cookie_name()) != Some(cloud_backend()),
        !(request_cookie(c, tunnel_cookie_name()) matches Some(p) && named_candidate(cs, p) matches Some(k)
            && healthy(cs[k].health, now)),
    ensures
        forall|b: int|
            best_candidate(cs, request_subdomain(c)) == Some(b) && healthy(#[trigger] cs[b].health, now)
                ==> planned_route(c, cs, now) == Some(b),
        !(best_candidate(cs, request_subdomain(c)) matches Some(b) && healthy(cs[b].health, now))
            ==> planned_route(c, cs, now) is None,
{
}

/// A pin to a tunnel that is not healthy counts for nothing: the request is
/// routed as the same request for the same subdomain without a `tunnel`
/// cookie would be, to the best healthy tunnel serving the subdomain, or to
/// the cloud.
pub proof fn lemma_unhealthy_pin_ignored(
    c: Seq<(Seq<char>, Seq<u8>)>,
    unpinned: Seq<(Seq<char>, Seq<u8>)>,
    cs: Seq<TunnelCandidate>,
    now: u64,
    k: int,
)
    requires
        request_cookie(c, backend_cookie_name()) != Some(cloud_backend()),
        request_cookie(c, tunnel_cookie_name()) matches Some(p) && named_candidate(cs, p) == Some(k),
        !healthy(cs[k].health, now),
        request_cookie(unpinned, backend_cookie_name()) != Some(cloud_backend()),
        request_cookie(unpinned, tunnel_cookie_name()) is None,
        request_subdomain(unpinned) == request_subdomain(c),
    ensures
        planned_route(c, cs, now) == planned_route(unpinned, cs, now),
{
    lemma_unpinned_route(c, cs, now);
    lemma_unpinned_route(unpinned, cs, now);
}

/// The tunnel chosen for a subdomain serves it and is never `Critical`; and
/// when a `Normal` tunnel serves it, a `Normal` one is chosen.
pub proof fn lemma_best_is_eligible(cs: Seq<TunnelCandidate>, subdomain: Seq<char>)
    ensures
        best_candidate(cs, subdomain) matches Some(i) ==> 0 <= i < cs.len() && serves(
            cs[i].id@,
            subdomain,
        ) && !(cs[i].health matches Some(h) && h.status == HealthStatus::Critical),
        best_candidate(cs, subdomain) matches Some(i) ==> forall|j: int|
            0 <= j < cs.len() && serves(cs[j].id@, subdomain) && (cs[j].health matches Some(h)
                && h.status == HealthStatus::Normal) ==> (cs[i].health matches Some(g) && g.status
                == HealthStatus::Normal),
{
    if best_candidate(cs, subdomain) is Some {
        let i = choose|i: int| is_best_at(cs, subdomain, i);
        assert(is_best_at(cs, subdomain, i));
        assert forall|j: int|
            0 <= j < cs.len() && serves(cs[j].id@, subdomain) && (cs[j].health matches Some(h)
                && h.status == HealthStatus::Normal) implies (cs[i].health matches Some(g)
            && g.status == HealthStatus::Normal) by {
            assert(eligible(cs[j], subdomain));
            assert(ranks_no_worse(cs[i], cs[j]));
        }
    }
}

/// How traffic for a tunnel should be routed given its health.
#[derive(Clone, Copy, Debug, PartialEq, Eq, Structural)]
pub enum RoutingDecision {
    RouteLocal,
    /// Prefer the cloud, but keep a client pinned to the tunnel there.
    HybridSticky,
    ForceCloud,
    RouteCloud,
}

/// The routing decision for a tunnel whose record is `h`: a stale or
/// `Critical` tunnel is bypassed, a `Warning` one is kept for pinned clients
/// only, and a `Normal` or unknown one takes traffic.
pub open spec fn routing_decision(h: Option<TunnelHealth>, now: u64) -> RoutingDecision {
    match h {
        None => RoutingDecision::RouteLocal,
        Some(r) => if is_stale(r, now) || r.status == HealthStatus::Critical {
            RoutingDecision::ForceCloud
        } else if r.status == HealthStatus::Warning {
            RoutingDecision::HybridSticky
        } else {
            RoutingDecision::RouteLocal
        },
    }
}

/// Decides how to route traffic for the tunnel whose health record (if any)
/// is `health`, at `now`.
pub fn decide_routing(health: Option<&TunnelHealth>, now: u64) -> (d: RoutingDecision)
    ensures
        d == routing_decision(match health { Some(r) => Some(*r), None => None }, now),
{
    match health {
        Some(h) => {
            if h.stale(now) {
                return RoutingDecision::ForceCloud;
            }
            if h.status == HealthStatus::Critical {
                return RoutingDecision::ForceCloud;
            }
            if h.status == HealthStatus::Warning {
                return RoutingDecision::HybridSticky;
            }
            RoutingDecision::RouteLocal
        },
        None => RoutingDecision::RouteLocal,
    }
}

/// `s` without the run of `c` at its end, as `str::trim_end_matches(c)`.
pub open spec fn strip_trailing(s: Seq<char>, c: char) -> Seq<char>
    decreases s.len(),
{
    if s.len() > 0 && s.last() == c {
        strip_trailing(s.drop_last(), c)
    } else {
        s
    }
}

/// The URL a request is forwarded to on the cloud backend: the backend's
/// base URL without trailing slashes, followed by the request's path and
/// query (`/` when it has none).
pub open spec fn cloud_url(backend: Seq<char>, path_and_query: Option<Seq<char>>) -> Seq<char> {
    strip_trailing(backend, '/') + match path_and_query {
        Some(p) => p,
        None => seq!['/'],
    }
}

proof fn lemma_strip_trailing(s: Seq<char>, c: char, b: int)
    requires
        0 <= b <= s.len(),
        forall|k: int| b <= k < s.len() ==> s[k] == c,
        b == 0 || s[b - 1] != c,
    ensures
        strip_trailing(s, c) == s.take(b),
    decreases s.len() - b,
{
    if b < s.len() {
        lemma_strip_trailing(s.drop_last(), c, b);
        assert(s.drop_last().take(b) =~= s.take(b));
    } else {
        assert(s.take(b) =~= s);
    }
}

/// The URL of the cloud backend `backend` for a request whose path and query
/// is `path_and_query`.
pub fn cloud_target(backend: &str, path_and_query: Option<&str>) -> (r: String)
    ensures
        r@ == cloud_url(backend@, match path_and_query { Some(p) => Some(p@), None => None }),
{
    let s = chars_of(backend);
    let mut b = s.len();
    while b > 0 && s[b - 1] == '/'
        invariant
            b <= s@.len(),
            forall|k: int| b <= k < s@.len() ==> s@[k] == '/',
        decreases b,
    {
        b = b - 1;
    }
    proof {
        lemma_strip_trailing(s@, '/', b as int);
    }
    let mut out: Vec<char> = Vec::new();
    let mut i: usize = 0;
    while i < b
        invariant
            b <= s@.len(),
            i <= b,
            out@ == s@.take(i as int),
        decreases b - i,
    {
        out.push(s[i]);
        i = i + 1;
        assert(out@ =~= s@.take(i as int));
    }
    let tail = match path_and_query {
        Some(p) => chars_of(p),
        None => {
            let mut v: Vec<char> = Vec::new();
            v.push('/');
            v
        },
    };
    let ghost head = out@;
    let mut j: usize = 0;
    while j < tail.len()
        invariant
            j <= tail@.len(),
            out@ == head + tail@.take(j as int),
        decreases tail@.len() - j,
    {
        out.push(tail[j]);
        j = j + 1;
        assert(out@ =~= head + tail@.take(j as int));
    }
    assert(tail@.take(tail@.len() as int) =~= tail@);
    proof {
        match path_and_query {
            Some(p) => {},
            None => { assert(tail@ =~= seq!['/']); },
        }
    }
    string_of(out.as_slice())
}

/// `http::Uri`, as re-exported by `axum`: opaque to the verifier.
#[verifier::external_type_specification]
#[verifier::external_body]
pub struct ExUri(Uri);

/// The `http::Uri` that `text` parses to (`<Uri as FromStr>::from_str`), or
/// `None` when it is not a URI.
pub uninterp spec fn parsed_uri(text: Seq<char>) -> Option<Uri>;

/// Calls `str::parse::<Uri>`, which checks `text` against the URI grammar
/// without panicking, and hands the error out as `None`. The contract claims
/// that the result is what `parsed_uri` names for the text: parsing depends
/// on the text alone.
#[verifier::external_body]
fn parse_uri(text: &str) -> (r: Option<Uri>)
    ensures
        r == parsed_uri(text@),
{
    text.parse::<Uri>().ok()
}

/// The URI a request is forwarded to on the cloud backend `backend`, for a
/// request whose path and query is `path_and_query`: `cloud_target` parsed,
/// or `CloudEvent::BadTarget` when that text is not a URI.
pub fn cloud_request_uri(backend: &str, path_and_query: Option<&str>) -> (r: Result<Uri, CloudEvent>)
    ensures
        match parsed_uri(
            cloud_url(backend@, match path_and_query { Some(p) => Some(p@), None => None }),
        ) {
            Some(u) => r == Ok::<Uri, CloudEvent>(u),
            None => r == Err::<Uri, CloudEvent>(CloudEvent::BadTarget),
        },
{
    let target = cloud_target(backend, path_and_query);
    match parse_uri(target.as_str()) {
        Some(u) => Ok(u),
        None => Err(CloudEvent::BadTarget),
    }
}

/// The relay's routing: a request whose `Host` header is text goes to the
/// registered tunnel named after the host's first label, if there is one;
/// every other request goes to the fallback backend (`None`).
pub open spec fn relay_route(c: Seq<(Seq<char>, Seq<u8>)>, registered: Seq<Seq<char>>) -> Option<Seq<char>> {
    match header_str(c, host_header_name()) {
        Some(h) => if registered.contains(subdomain_of(h)) {
            Some(subdomain_of(h))
        } else {
            None
        },
        None => None,
    }
}

/// The tunnel, among the registered ones, that the relay forwards a request
/// with these headers to; `None` for the fallback backend.
pub fn relay_target(headers: &HeaderMap, registered: &Vec<String>) -> (r: Option<String>)
    ensures
        match r {
            Some(id) => relay_route(
                header_contents(*headers),
                registered@.map_values(|s: String| s@),
            ) == Some(id@),
            None => relay_route(header_contents(*headers), registered@.map_values(|s: String| s@))
                is None,
        },
{
    proof {
        reveal_strlit("host");
    }
    assert("host"@ =~= host_header_name());
    let ghost names = registered@.map_values(|s: String| s@);
    match header_text_value(headers, "host") {
        None => None,
        Some(h) => {
            let sub = subdomain(h.as_str());
            let mut i: usize = 0;
            while i < registered.len()
                invariant
                    i <= registered@.len(),
                    names == registered@.map_values(|s: String| s@),
                    forall|j: int| 0 <= j < i ==> names[j] != sub@,
                    header_str(header_contents(*headers), host_header_name()) == Some(h@),
                    sub@ == subdomain_of(h@),
                decreases registered@.len() - i,
            {
                if registered[i] == sub {
                    assert(names[i as int] == sub@);
                    assert(names.contains(sub@));
                    return Some(sub);
                }
                i = i + 1;
            }
            None
        },
    }
}

} // verus!
