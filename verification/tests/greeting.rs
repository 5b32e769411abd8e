use release_healthcheck::greeting::{error_status, healthcheck, Healthcheck, REQUEST_TIMEOUT_SECS};

#[test]
fn greets_by_name() {
    let r = healthcheck(Some(Healthcheck {
        name: Some("Alice".to_string()),
    }));
    assert_eq!(r, "Hello, Alice!");
}

#[test]
fn greets_world_without_query() {
    assert_eq!(healthcheck(None), "Hello, world!");
}

#[test]
fn greets_world_without_name_field() {
    assert_eq!(healthcheck(Some(Healthcheck { name: None })), "Hello, world!");
}

#[test]
fn empty_name_is_kept_not_defaulted() {
    let r = healthcheck(Some(Healthcheck {
        name: Some(String::new()),
    }));
    assert_eq!(r, "Hello, !");
}

#[test]
fn timeout_translates_to_408_and_other_errors_to_500() {
    assert_eq!(error_status(true), 408);
    assert_eq!(error_status(false), 500);
    assert_eq!(REQUEST_TIMEOUT_SECS, 10);
}
