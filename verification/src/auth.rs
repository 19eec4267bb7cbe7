//! The request authenticator: the admission guard run before any API handler.
//!
//! Given a request's headers, the guard produces either an authenticated
//! application or a typed rejection, short-circuiting at the first failure in
//! a fixed order: header presence and parsing, then timestamp freshness —
//! both local — then the registry lookup, then the quota read, and finally
//! the quota commit. A request is admitted exactly when its quota increment
//! is recorded; no rejection touches the counter.

use vstd::prelude::*;
use crate::counter::{bumped, spec_add, spec_count, CounterRecord, CounterStore};
use crate::headers::{auth_headers_ok, header_app_id, header_timestamp, RequestHeaders};
use crate::models;
use crate::parse::{parse_i64, parse_u64};
use crate::registry::Registry;
use crate::rejection::Rejection;

verus! {

/// An authenticated caller: what a handler receives once its request has
/// been admitted. Created per request, discarded at request end.
#[derive(Debug, Clone, Copy, PartialEq, Eq, Structural)]
pub struct Application {
    /// The application's internal 128-bit ID.
    pub id: u128,
    /// Number of requests left for the rest of the hour.
    pub requests_left: i32,
}

/// An opaque failure of the registry or of the counter store. Its detail is
/// never echoed to the client.
#[derive(Debug, Clone, Copy, PartialEq, Eq, Structural)]
pub struct CollaboratorError;

/// Whether a request timestamp is fresh at `now`: strictly newer than five
/// minutes ago, and at most ten seconds ahead.
pub open spec fn timestamp_fresh(t: int, now: int) -> bool {
    now - 300 < t && t <= now + 10
}

/// Checks the freshness window on a request timestamp.
pub fn validate_timestamp(timestamp: i64, now: i64) -> (r: Result<(), Rejection>)
    ensures
        r is Ok <==> timestamp_fresh(timestamp as int, now as int),
        r is Err ==> r == Err::<(), Rejection>(Rejection::StaleOrFutureTimestamp),
{
    let t = timestamp as i128;
    let n = now as i128;
    if n - 300 < t && t <= n + 10 {
        Ok(())
    } else {
        Err(Rejection::StaleOrFutureTimestamp)
    }
}

/// Extracts and parses the three required authentication headers.
pub fn parse_auth_headers(headers: &RequestHeaders) -> (r: Result<(u64, i64), Rejection>)
    ensures
        auth_headers_ok(*headers) ==> r == Ok::<(u64, i64), Rejection>(
            (header_app_id(*headers), header_timestamp(*headers)),
        ),
        !auth_headers_ok(*headers) ==> r == Err::<(u64, i64), Rejection>(
            Rejection::MalformedRequest,
        ),
{
    let app_id = match &headers.app_id {
        Some(s) => match parse_u64(s.as_str()) {
            Some(v) => v,
            None => {
                return Err(Rejection::MalformedRequest);
            },
        },
        None => {
            return Err(Rejection::MalformedRequest);
        },
    };
    let timestamp = match &headers.timestamp {
        Some(s) => match parse_i64(s.as_str()) {
            Some(v) => v,
            None => {
                return Err(Rejection::MalformedRequest);
            },
        },
        None => {
            return Err(Rejection::MalformedRequest);
        },
    };
    match &headers.signature {
        Some(_) => Ok((app_id, timestamp)),
        None => Err(Rejection::MalformedRequest),
    }
}

/// Decides the lookup step from the registry's answer: a registry failure is
/// server-attributable, an unresolved identifier is the caller's fault.
pub fn resolve_application<'a>(
    outcome: Result<Option<&'a models::Application>, CollaboratorError>,
) -> (r: Result<&'a models::Application, Rejection>)
    ensures
        outcome matches Ok(Some(app)) ==> r matches Ok(a) && a == app,
        outcome matches Ok(None) ==> r == Err::<&'a models::Application, Rejection>(
            Rejection::UnknownApplication,
        ),
        outcome is Err ==> r == Err::<&'a models::Application, Rejection>(
            Rejection::CollaboratorFailure,
        ),
{
    match outcome {
        Ok(Some(app)) => Ok(app),
        Ok(None) => Err(Rejection::UnknownApplication),
        Err(_) => Err(Rejection::CollaboratorFailure),
    }
}

/// Decides the quota step from the counter store's answer: whether the
/// caller still has requests left this hour.
pub fn check_quota(outcome: Result<i32, CollaboratorError>, hourly_limit: i32) -> (r: Result<
    i32,
    Rejection,
>)
    requires
        outcome matches Ok(c) ==> c >= 0,
    ensures
        outcome matches Ok(c) ==> r == (if c < hourly_limit {
            Ok::<i32, Rejection>(c)
        } else {
            Err::<i32, Rejection>(Rejection::QuotaExceeded)
        }),
        outcome is Err ==> r == Err::<i32, Rejection>(Rejection::CollaboratorFailure),
{
    match outcome {
        Ok(count) => {
            if count < hourly_limit {
                Ok(count)
            } else {
                Err(Rejection::QuotaExceeded)
            }
        },
        Err(_) => Err(Rejection::CollaboratorFailure),
    }
}

/// Decides the commit step: a request is only admitted once its quota
/// increment was durably recorded, so a failed write rejects an otherwise
/// valid request rather than admit it uncounted.
pub fn commit_admission(
    outcome: Result<(), CollaboratorError>,
    id: u128,
    hourly_limit: i32,
    count: i32,
) -> (r: Result<Application, Rejection>)
    requires
        0 <= count < hourly_limit,
    ensures
        outcome is Ok ==> r == Ok::<Application, Rejection>(
            Application { id, requests_left: (hourly_limit - count - 1) as i32 },
        ),
        outcome is Err ==> r == Err::<Application, Rejection>(Rejection::CollaboratorFailure),
{
    match outcome {
        Ok(_) => Ok(Application { id, requests_left: hourly_limit - count - 1 }),
        Err(_) => Err(Rejection::CollaboratorFailure),
    }
}

/// The decision the authenticator reaches for a request, given the wall
/// clock and the registry and counter contents at its start.
pub open spec fn auth_result(
    h: RequestHeaders,
    now: int,
    reg: Registry,
    m: Map<u128, CounterRecord>,
) -> Result<Application, Rejection> {
    if !auth_headers_ok(h) {
        Err(Rejection::MalformedRequest)
    } else if !timestamp_fresh(header_timestamp(h) as int, now) {
        Err(Rejection::StaleOrFutureTimestamp)
    } else {
        match reg.spec_get(header_app_id(h)) {
            None => Err(Rejection::UnknownApplication),
            Some(app) => {
                let c = spec_count(m, app.id, now);
                if c < app.hourly_limit {
                    Ok(Application { id: app.id, requests_left: (app.hourly_limit - c - 1) as i32 })
                } else {
                    Err(Rejection::QuotaExceeded)
                }
            },
        }
    }
}

/// The counter contents after the authenticator ran: bumped for the
/// resolved application exactly when the request was admitted, and untouched
/// on every rejection.
pub open spec fn auth_counters(
    h: RequestHeaders,
    now: int,
    reg: Registry,
    m: Map<u128, CounterRecord>,
) -> Map<u128, CounterRecord> {
    if auth_result(h, now, reg, m) is Ok {
        spec_add(m, (reg.spec_get(header_app_id(h))->Some_0).id, now)
    } else {
        m
    }
}

/// Authenticates a request at wall-clock instant `now` against the given
/// registry and counter store.
pub fn authenticate(
    headers: &RequestHeaders,
    now: i64,
    registry: &Registry,
    store: &mut CounterStore,
) -> (r: Result<Application, Rejection>)
    requires
        registry.wf(),
        old(store).wf(),
        now + 3600 <= i64::MAX,
    ensures
        final(store).wf(),
        r == auth_result(*headers, now as int, *registry, old(store)@),
        final(store)@ == auth_counters(*headers, now as int, *registry, old(store)@),
{
    let (app_id, timestamp) = match parse_auth_headers(headers) {
        Ok(v) => v,
        Err(e) => {
            return Err(e);
        },
    };
    if let Err(e) = validate_timestamp(timestamp, now) {
        return Err(e);
    }
    let app = match resolve_application(Ok(registry.get_application(app_id))) {
        Ok(app) => app,
        Err(e) => {
            return Err(e);
        },
    };
    proof {
        registry.lemma_get_wf(app_id);
        store.lemma_wf_valid();
    }
    let count = match check_quota(Ok(store.get_request_count(app.id(), now)), app.hourly_limit()) {
        Ok(c) => c,
        Err(e) => {
            return Err(e);
        },
    };
    let id = app.id();
    let limit = app.hourly_limit();
    store.add_request(id, now);
    commit_admission(Ok(()), id, limit, count)
}

/// Relies on chrono's `Utc::now` and `DateTime::timestamp`: the current wall
/// clock as Unix seconds. The clock is no function of the program's state,
/// so nothing is assumed of the value beyond chrono's documented date range
/// of roughly ±262,000 years around the common epoch.
#[verifier::external_body]
fn now_unix() -> (r: i64)
    ensures
        -10_000_000_000_000 <= r <= 10_000_000_000_000,
{
    chrono::Utc::now().timestamp()
}

/// Authenticates a request against the wall clock: reads the current time
/// once and runs the pipeline at that instant.
pub fn authenticate_now(
    headers: &RequestHeaders,
    registry: &Registry,
    store: &mut CounterStore,
) -> (r: Result<Application, Rejection>)
    requires
        registry.wf(),
        old(store).wf(),
    ensures
        final(store).wf(),
        exists|now: int|
            -10_000_000_000_000 <= now <= 10_000_000_000_000 && r == #[trigger] auth_result(
                *headers,
                now,
                *registry,
                old(store)@,
            ) && final(store)@ == auth_counters(*headers, now, *registry, old(store)@),
{
    let now = now_unix();
    let r = authenticate(headers, now, registry, store);
    proof {
        assert(r == auth_result(*headers, now as int, *registry, old(store)@));
    }
    r
}

/// A request missing any required header, or whose `X-App-Id` or
/// `X-Timestamp` does not parse, is rejected as malformed with status 400,
/// and the counter store is not touched.
pub proof fn lemma_malformed_rejected(
    h: RequestHeaders,
    now: int,
    reg: Registry,
    m: Map<u128, CounterRecord>,
)
    requires
        !auth_headers_ok(h),
    ensures
        auth_result(h, now, reg, m) == Err::<Application, Rejection>(Rejection::MalformedRequest),
        Rejection::MalformedRequest.spec_status() == 400,
        auth_counters(h, now, reg, m) == m,
{
}

/// A stale or future timestamp is rejected with status 400 and leaves the
/// counter store untouched; both window boundaries fall as stated — five
/// minutes ago is excluded, one second within it and ten seconds ahead are
/// accepted, eleven seconds ahead is not.
pub proof fn lemma_freshness_window(
    h: RequestHeaders,
    now: int,
    reg: Registry,
    m: Map<u128, CounterRecord>,
)
    requires
        auth_headers_ok(h),
    ensures
        !timestamp_fresh(header_timestamp(h) as int, now) ==> auth_result(h, now, reg, m)
            == Err::<Application, Rejection>(Rejection::StaleOrFutureTimestamp),
        !timestamp_fresh(header_timestamp(h) as int, now) ==> auth_counters(h, now, reg, m) == m,
        timestamp_fresh(header_timestamp(h) as int, now) ==> auth_result(h, now, reg, m)
            != Err::<Application, Rejection>(Rejection::StaleOrFutureTimestamp),
        Rejection::StaleOrFutureTimestamp.spec_status() == 400,
        !timestamp_fresh(now - 300, now),
        timestamp_fresh(now - 299, now),
        timestamp_fresh(now + 10, now),
        !timestamp_fresh(now + 11, now),
{
}

/// An application identifier the registry does not know is rejected with
/// status 401, and the counter store is not touched.
pub proof fn lemma_unknown_application(
    h: RequestHeaders,
    now: int,
    reg: Registry,
    m: Map<u128, CounterRecord>,
)
    requires
        auth_headers_ok(h),
        timestamp_fresh(header_timestamp(h) as int, now),
        reg.spec_get(header_app_id(h)) is None,
    ensures
        auth_result(h, now, reg, m) == Err::<Application, Rejection>(
            Rejection::UnknownApplication,
        ),
        Rejection::UnknownApplication.spec_status() == 401,
        auth_counters(h, now, reg, m) == m,
{
}

/// The counter contents after a sequence of requests sharing headers `h`,
/// the `i`th arriving at `times[i]`, each authenticated in arrival order.
pub open spec fn auth_run(
    h: RequestHeaders,
    times: Seq<i64>,
    reg: Registry,
    m: Map<u128, CounterRecord>,
) -> Map<u128, CounterRecord>
    decreases times.len(),
{
    if times.len() == 0 {
        m
    } else {
        auth_counters(h, times.last() as int, reg, auth_run(h, times.drop_last(), reg, m))
    }
}

/// The authenticator's decision for the `i`th of a sequence of requests
/// sharing headers `h`.
pub open spec fn auth_outcome_at(
    h: RequestHeaders,
    times: Seq<i64>,
    reg: Registry,
    m: Map<u128, CounterRecord>,
    i: int,
) -> Result<Application, Rejection>
    recommends
        0 <= i < times.len(),
{
    auth_result(h, times[i] as int, reg, auth_run(h, times.take(i), reg, m))
}

/// The preconditions the quota laws share: the request is well formed and
/// fresh at each arrival, it resolves to `app`, the counter starts without a
/// record for `app`, and all arrivals fall, in order, within one hour of the
/// first.
pub open spec fn quota_scenario(
    h: RequestHeaders,
    times: Seq<i64>,
    reg: Registry,
    m: Map<u128, CounterRecord>,
    app: models::Application,
) -> bool {
    &&& auth_headers_ok(h)
    &&& reg.spec_get(header_app_id(h)) == Some(app)
    &&& app.wf()
    &&& !m.dom().contains(app.id)
    &&& forall|i: int|
        0 <= i < times.len() ==> timestamp_fresh(
            header_timestamp(h) as int,
            (#[trigger] times[i]) as int,
        )
    &&& forall|i: int, j: int|
        0 <= i <= j < times.len() ==> (#[trigger] times[i]) <= (#[trigger] times[j])
    &&& forall|i: int| 0 <= i < times.len() ==> (#[trigger] times[i]) < times.first() + 3600
}

proof fn lemma_quota_run(
    h: RequestHeaders,
    times: Seq<i64>,
    reg: Registry,
    m: Map<u128, CounterRecord>,
    app: models::Application,
    k: int,
)
    requires
        quota_scenario(h, times, reg, m, app),
        0 <= k <= times.len(),
    ensures
        auth_run(h, times.take(k), reg, m) == (if k == 0 {
            m
        } else {
            m.insert(
                app.id,
                CounterRecord {
                    count: if k < app.hourly_limit {
                        k
                    } else {
                        app.hourly_limit as int
                    },
                    expires_at: times.first() + 3600,
                },
            )
        }),
    decreases k,
{
    if k > 0 {
        lemma_quota_run(h, times, reg, m, app, k - 1);
        assert(times.take(k).drop_last() =~= times.take(k - 1));
        assert(times.take(k).last() == times[k - 1]);
        let prev = auth_run(h, times.take(k - 1), reg, m);
        let t = times[k - 1] as int;
        let n = app.hourly_limit as int;
        if k == 1 {
            assert(spec_count(prev, app.id, t) == 0);
            assert(auth_result(h, t, reg, prev) is Ok);
            assert(times.first() == times[0]);
        } else {
            let c = if k - 1 < n {
                k - 1
            } else {
                n
            };
            assert(prev[app.id] == CounterRecord { count: c, expires_at: times.first() + 3600 });
            assert(t < times.first() + 3600);
            assert(spec_count(prev, app.id, t) == c);
            if c < n {
                assert(auth_result(h, t, reg, prev) is Ok);
                assert(bumped(c) == c + 1);
                assert(spec_add(prev, app.id, t) =~= m.insert(
                    app.id,
                    CounterRecord { count: c + 1, expires_at: times.first() + 3600 },
                ));
            } else {
                assert(auth_result(h, t, reg, prev) == Err::<Application, Rejection>(
                    Rejection::QuotaExceeded,
                ));
            }
        }
    } else {
        assert(times.take(0) =~= Seq::<i64>::empty());
    }
}

/// With an hourly limit of `n` and no prior record, the first `n` requests
/// of the hour are admitted with `requests_left` strictly decreasing from
/// `n - 1` down to zero; every later request of that hour is rejected with
/// the quota outcome, and the counter, having reached `n`, is not bumped by
/// a rejected request.
pub proof fn lemma_hourly_quota(
    h: RequestHeaders,
    times: Seq<i64>,
    reg: Registry,
    m: Map<u128, CounterRecord>,
    app: models::Application,
)
    requires
        quota_scenario(h, times, reg, m, app),
    ensures
        forall|i: int|
            0 <= i < times.len() && i < app.hourly_limit ==> auth_outcome_at(h, times, reg, m, i)
                == Ok::<Application, Rejection>(
                Application { id: app.id, requests_left: (app.hourly_limit - i - 1) as i32 },
            ),
        forall|i: int|
            app.hourly_limit <= i < times.len() ==> auth_outcome_at(h, times, reg, m, i)
                == Err::<Application, Rejection>(Rejection::QuotaExceeded),
        forall|i: int|
            app.hourly_limit <= i < times.len() ==> #[trigger] auth_run(h, times.take(i + 1), reg, m)
                == auth_run(h, times.take(i), reg, m),
{
    assert forall|i: int| 0 <= i < times.len() implies (if i < app.hourly_limit {
        auth_outcome_at(h, times, reg, m, i) == Ok::<Application, Rejection>(
            Application { id: app.id, requests_left: (app.hourly_limit - i - 1) as i32 },
        )
    } else {
        auth_outcome_at(h, times, reg, m, i) == Err::<Application, Rejection>(
            Rejection::QuotaExceeded,
        ) && auth_run(h, times.take(i + 1), reg, m) == auth_run(h, times.take(i), reg, m)
    }) by {
        lemma_quota_run(h, times, reg, m, app, i);
        lemma_quota_run(h, times, reg, m, app, i + 1);
        let prev = auth_run(h, times.take(i), reg, m);
        let t = times[i] as int;
        let n = app.hourly_limit as int;
        if i == 0 {
            assert(spec_count(prev, app.id, t) == 0);
        } else {
            assert(t < times.first() + 3600);
            assert(spec_count(prev, app.id, t) == if i < n {
                i
            } else {
                n
            });
        }
        assert(times.take(i + 1).drop_last() =~= times.take(i));
        assert(times.take(i + 1).last() == times[i]);
    }
    assert forall|i: int|
        app.hourly_limit <= i < times.len() implies #[trigger] auth_run(
        h,
        times.take(i + 1),
        reg,
        m,
    ) == auth_run(h, times.take(i), reg, m) by {
        lemma_quota_run(h, times, reg, m, app, i);
        lemma_quota_run(h, times, reg, m, app, i + 1);
    }
}

/// How many of the first `k` requests of a shared-headers sequence are
/// admitted.
pub open spec fn admitted_count(
    h: RequestHeaders,
    times: Seq<i64>,
    reg: Registry,
    m: Map<u128, CounterRecord>,
    k: int,
) -> int
    decreases k,
{
    if k <= 0 {
        0
    } else {
        admitted_count(h, times, reg, m, k - 1) + (if auth_outcome_at(h, times, reg, m, k - 1)
            is Ok {
            1int
        } else {
            0int
        })
    }
}

proof fn lemma_admitted_count_value(
    h: RequestHeaders,
    times: Seq<i64>,
    reg: Registry,
    m: Map<u128, CounterRecord>,
    app: models::Application,
    k: int,
)
    requires
        quota_scenario(h, times, reg, m, app),
        0 <= k <= times.len(),
    ensures
        admitted_count(h, times, reg, m, k) == (if k < app.hourly_limit {
            k
        } else {
            app.hourly_limit as int
        }),
    decreases k,
{
    if k > 0 {
        lemma_admitted_count_value(h, times, reg, m, app, k - 1);
        lemma_hourly_quota(h, times, reg, m, app);
    }
}

/// Of `k` requests racing one application with hourly limit `n` over an
/// empty counter, where `k >= n`, exactly `n` are admitted and `k - n` are
/// rejected, however the race is interleaved: the store's read-and-bump is
/// atomic per request, so any interleaving is some arrival order, and every
/// arrival order admits exactly `n`.
pub proof fn lemma_no_over_admission(
    h: RequestHeaders,
    times: Seq<i64>,
    reg: Registry,
    m: Map<u128, CounterRecord>,
    app: models::Application,
)
    requires
        quota_scenario(h, times, reg, m, app),
        times.len() >= app.hourly_limit,
    ensures
        admitted_count(h, times, reg, m, times.len() as int) == app.hourly_limit,
{
    lemma_admitted_count_value(h, times, reg, m, app, times.len() as int);
}

} // verus!
