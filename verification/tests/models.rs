use web_core::counter::CounterStore;
use web_core::models::{Application, NewApplication};
use web_core::registry::Registry;

fn sample_app() -> Application {
    app_with_id(42)
}

fn app_with_id(id: u128) -> Application {
    Application::new(
        id,
        true,
        1_500_000_000,
        1_500_100_000,
        "gallery".to_string(),
        "an image gallery".to_string(),
        Some("https://gallery.example".to_string()),
        vec![9, 8, 7],
        120,
        3,
    )
}

#[test]
fn application_getters_return_the_record() {
    let app = sample_app();
    assert_eq!(app.id(), 42);
    assert!(app.is_active());
    assert_eq!(app.creation(), 1_500_000_000);
    assert_eq!(app.last_update(), 1_500_100_000);
    assert_eq!(app.name(), "gallery");
    assert_eq!(app.description(), "an image gallery");
    assert_eq!(app.url(), Some("https://gallery.example"));
    assert_eq!(app.api_secret(), &[9, 8, 7]);
    assert_eq!(app.hourly_limit(), 120);
    assert_eq!(app.manager_id(), 3);
}

#[test]
fn new_application_holds_its_fields() {
    let new_app = NewApplication::new(
        "gallery".to_string(),
        "an image gallery".to_string(),
        None,
        vec![1],
        60,
        3,
    );
    assert_eq!(new_app.name, "gallery");
    assert_eq!(new_app.hourly_limit, 60);
    assert!(new_app.url.is_none());
}

#[test]
fn registry_refuses_duplicate_keys_and_ids() {
    let mut registry = Registry::new();
    assert!(registry.register(7, app_with_id(42)));
    assert!(!registry.register(7, app_with_id(43)));
    assert!(!registry.register(8, app_with_id(42)));
    assert!(registry.register(8, app_with_id(43)));
    assert!(registry.get_application(7).is_some());
    assert_eq!(registry.get_application(8).unwrap().id(), 43);
    assert!(registry.get_application(9).is_none());
}

#[test]
fn counter_records_live_for_one_hour() {
    let mut store = CounterStore::new();
    let now = 1_512_000_000;
    assert_eq!(store.get_request_count(42, now), 0);
    store.add_request(42, now);
    store.add_request(42, now + 10);
    assert_eq!(store.get_request_count(42, now + 10), 2);
    assert_eq!(store.get_request_count(42, now + 3_599), 2);
    assert_eq!(store.get_request_count(42, now + 3_600), 0);
    store.add_request(42, now + 3_600);
    assert_eq!(store.get_request_count(42, now + 3_600), 1);
    assert_eq!(store.get_request_count(7, now), 0);
}

#[test]
fn counters_are_tracked_per_application() {
    let mut store = CounterStore::new();
    let now = 1_512_000_000;
    store.add_request(1, now);
    store.add_request(2, now);
    store.add_request(2, now);
    assert_eq!(store.get_request_count(1, now), 1);
    assert_eq!(store.get_request_count(2, now), 2);
}
