use web_core::auth::{
    authenticate, authenticate_now, check_quota, commit_admission, parse_auth_headers,
    resolve_application, validate_timestamp, CollaboratorError,
};
use web_core::counter::CounterStore;
use web_core::headers::RequestHeaders;
use web_core::models;
use web_core::registry::Registry;
use web_core::rejection::Rejection;

const NOW: i64 = 1_512_000_000;
const APP_KEY: u64 = 77;
const APP_ID: u128 = 0x0123_4567_89ab_cdef_0123_4567_89ab_cdef;

fn headers(app_id: Option<&str>, timestamp: Option<&str>, signature: Option<&str>) -> RequestHeaders {
    RequestHeaders {
        app_id: app_id.map(|s| s.to_string()),
        timestamp: timestamp.map(|s| s.to_string()),
        signature: signature.map(|s| s.to_string()),
        accept: None,
        accept_encoding: Vec::new(),
    }
}

fn good_headers() -> RequestHeaders {
    headers(Some("77"), Some("1512000000"), Some("sig"))
}

fn sample_registry(limit: i32) -> Registry {
    let mut registry = Registry::new();
    let app = models::Application::new(
        APP_ID,
        true,
        NOW - 86_400,
        NOW - 3_600,
        "test app".to_string(),
        "an application for the tests".to_string(),
        Some("https://app.example".to_string()),
        vec![0x61, 0x62, 0x63],
        limit,
        7,
    );
    assert!(registry.register(APP_KEY, app));
    registry
}

#[test]
fn rejects_missing_headers() {
    let registry = sample_registry(10);
    let mut store = CounterStore::new();
    let cases = [
        headers(None, Some("1512000000"), Some("sig")),
        headers(Some("77"), None, Some("sig")),
        headers(Some("77"), Some("1512000000"), None),
        headers(None, None, None),
    ];
    for h in cases {
        let r = authenticate(&h, NOW, &registry, &mut store);
        assert_eq!(r, Err(Rejection::MalformedRequest));
        assert_eq!(r.unwrap_err().status(), 400);
    }
    assert_eq!(store.get_request_count(APP_ID, NOW), 0);
}

#[test]
fn rejects_unparsable_headers() {
    let registry = sample_registry(10);
    let mut store = CounterStore::new();
    let cases = [
        headers(Some("abc"), Some("1512000000"), Some("sig")),
        headers(Some("-1"), Some("1512000000"), Some("sig")),
        headers(Some("18446744073709551616"), Some("1512000000"), Some("sig")),
        headers(Some("77"), Some("now"), Some("sig")),
        headers(Some("77"), Some(""), Some("sig")),
    ];
    for h in cases {
        let r = authenticate(&h, NOW, &registry, &mut store);
        assert_eq!(r, Err(Rejection::MalformedRequest));
        assert_eq!(
            r.unwrap_err().reason(),
            "Valid X-App-Id, X-Timestamp or X-Signature headers not found"
        );
    }
    assert_eq!(store.get_request_count(APP_ID, NOW), 0);
}

#[test]
fn freshness_window_boundaries() {
    assert_eq!(validate_timestamp(NOW - 300, NOW), Err(Rejection::StaleOrFutureTimestamp));
    assert_eq!(validate_timestamp(NOW - 299, NOW), Ok(()));
    assert_eq!(validate_timestamp(NOW, NOW), Ok(()));
    assert_eq!(validate_timestamp(NOW + 10, NOW), Ok(()));
    assert_eq!(validate_timestamp(NOW + 11, NOW), Err(Rejection::StaleOrFutureTimestamp));
    assert_eq!(Rejection::StaleOrFutureTimestamp.status(), 400);
    assert_eq!(Rejection::StaleOrFutureTimestamp.reason(), "Invalid timestamp");
}

#[test]
fn rejects_stale_and_future_timestamps() {
    let registry = sample_registry(10);
    let mut store = CounterStore::new();
    let stale = headers(Some("77"), Some(&(NOW - 300).to_string()), Some("sig"));
    let r = authenticate(&stale, NOW, &registry, &mut store);
    assert_eq!(r, Err(Rejection::StaleOrFutureTimestamp));
    let future = headers(Some("77"), Some(&(NOW + 11).to_string()), Some("sig"));
    let r = authenticate(&future, NOW, &registry, &mut store);
    assert_eq!(r, Err(Rejection::StaleOrFutureTimestamp));
    assert_eq!(store.get_request_count(APP_ID, NOW), 0);

    let barely_fresh = headers(Some("77"), Some(&(NOW - 299).to_string()), Some("sig"));
    assert!(authenticate(&barely_fresh, NOW, &registry, &mut store).is_ok());
    let ahead = headers(Some("77"), Some(&(NOW + 10).to_string()), Some("sig"));
    assert!(authenticate(&ahead, NOW, &registry, &mut store).is_ok());
}

#[test]
fn rejects_unknown_application_without_counting() {
    let registry = sample_registry(10);
    let mut store = CounterStore::new();
    let h = headers(Some("78"), Some("1512000000"), Some("sig"));
    let r = authenticate(&h, NOW, &registry, &mut store);
    assert_eq!(r, Err(Rejection::UnknownApplication));
    assert_eq!(r.unwrap_err().status(), 401);
    assert_eq!(r.unwrap_err().reason(), "Invalid application ID");
    assert_eq!(store.get_request_count(APP_ID, NOW), 0);
}

#[test]
fn admits_up_to_the_hourly_limit() {
    let registry = sample_registry(3);
    let mut store = CounterStore::new();
    let h = good_headers();
    for expected_left in [2, 1, 0] {
        let admitted = authenticate(&h, NOW, &registry, &mut store).unwrap();
        assert_eq!(admitted.id, APP_ID);
        assert_eq!(admitted.requests_left, expected_left);
    }
    let r = authenticate(&h, NOW, &registry, &mut store);
    assert_eq!(r, Err(Rejection::QuotaExceeded));
    assert_eq!(r.unwrap_err().status(), 429);
    assert_eq!(r.unwrap_err().reason(), "Hourly request limit reached");
    assert_eq!(store.get_request_count(APP_ID, NOW), 3);
}

#[test]
fn admits_exactly_the_limit_among_racing_requests() {
    let registry = sample_registry(3);
    let mut store = CounterStore::new();
    let h = good_headers();
    let mut admitted = 0;
    let mut rejected = 0;
    for _ in 0..5 {
        match authenticate(&h, NOW, &registry, &mut store) {
            Ok(_) => admitted += 1,
            Err(Rejection::QuotaExceeded) => rejected += 1,
            Err(other) => panic!("unexpected rejection {:?}", other),
        }
    }
    assert_eq!(admitted, 3);
    assert_eq!(rejected, 2);
    assert_eq!(store.get_request_count(APP_ID, NOW), 3);
}

#[test]
fn quota_spreads_over_the_rolling_hour() {
    let registry = sample_registry(2);
    let mut store = CounterStore::new();
    let first = headers(Some("77"), Some(&NOW.to_string()), Some("sig"));
    assert!(authenticate(&first, NOW, &registry, &mut store).is_ok());
    let later = NOW + 3_000;
    let second = headers(Some("77"), Some(&later.to_string()), Some("sig"));
    assert!(authenticate(&second, later, &registry, &mut store).is_ok());
    let third = headers(Some("77"), Some(&(later + 100).to_string()), Some("sig"));
    assert_eq!(
        authenticate(&third, later + 100, &registry, &mut store),
        Err(Rejection::QuotaExceeded)
    );
    let after_window = NOW + 3_600;
    let fourth = headers(Some("77"), Some(&after_window.to_string()), Some("sig"));
    let admitted = authenticate(&fourth, after_window, &registry, &mut store).unwrap();
    assert_eq!(admitted.requests_left, 1);
    assert_eq!(store.get_request_count(APP_ID, after_window), 1);
}

#[test]
fn authenticates_against_the_wall_clock() {
    let registry = sample_registry(5);
    let mut store = CounterStore::new();
    let now = chrono::Utc::now().timestamp();
    let h = headers(Some("77"), Some(&now.to_string()), Some("sig"));
    let admitted = authenticate_now(&h, &registry, &mut store).unwrap();
    assert_eq!(admitted.id, APP_ID);
    assert_eq!(admitted.requests_left, 4);
    assert_eq!(store.get_request_count(APP_ID, now), 1);
}

#[test]
fn pipeline_steps_decide_collaborator_failures() {
    let r = resolve_application(Err(CollaboratorError));
    assert_eq!(r.unwrap_err(), Rejection::CollaboratorFailure);
    assert_eq!(Rejection::CollaboratorFailure.status(), 500);
    assert_eq!(Rejection::CollaboratorFailure.reason(), "Unknown error");

    assert_eq!(check_quota(Err(CollaboratorError), 10), Err(Rejection::CollaboratorFailure));
    assert_eq!(check_quota(Ok(10), 10), Err(Rejection::QuotaExceeded));
    assert_eq!(check_quota(Ok(9), 10), Ok(9));

    let committed = commit_admission(Ok(()), APP_ID, 10, 9).unwrap();
    assert_eq!(committed.id, APP_ID);
    assert_eq!(committed.requests_left, 0);
    assert_eq!(
        commit_admission(Err(CollaboratorError), APP_ID, 10, 9),
        Err(Rejection::CollaboratorFailure)
    );
}

#[test]
fn inactive_applications_never_authenticate() {
    let mut registry = Registry::new();
    let dormant = models::Application::new(
        APP_ID,
        false,
        NOW - 86_400,
        NOW - 3_600,
        "dormant app".to_string(),
        "a deactivated application".to_string(),
        None,
        vec![1],
        10,
        7,
    );
    assert!(registry.register(APP_KEY, dormant));
    assert!(registry.get_application(APP_KEY).is_none());
    let mut store = CounterStore::new();
    let r = authenticate(&good_headers(), NOW, &registry, &mut store);
    assert_eq!(r, Err(Rejection::UnknownApplication));
    assert_eq!(store.get_request_count(APP_ID, NOW), 0);
}

#[test]
fn resolve_application_maps_lookup_results() {
    let registry = sample_registry(10);
    let found = registry.get_application(APP_KEY);
    assert!(found.is_some());
    assert_eq!(found.unwrap().id(), APP_ID);
    let resolved = resolve_application(Ok(found)).unwrap();
    assert_eq!(resolved.hourly_limit(), 10);
    assert_eq!(
        resolve_application(Ok(registry.get_application(99))),
        Err(Rejection::UnknownApplication)
    );
}

#[test]
fn parse_auth_headers_accepts_good_requests() {
    let h = good_headers();
    assert_eq!(parse_auth_headers(&h), Ok((77, 1_512_000_000)));
    let negative = headers(Some("77"), Some("-5"), Some("sig"));
    assert_eq!(parse_auth_headers(&negative), Ok((77, -5)));
}
