use cwl_pingora_gateway::runtime_isolation::{
    BodyLimitExceeded, RequestAdmissionBudget, RequestBodyBudget, RuntimeIsolationConfigError, RuntimeIsolationLimits,
};

#[test]
fn limits_fail_closed_on_zero_budgets_and_preserve_valid_values() {
    assert_eq!(
        RuntimeIsolationLimits::try_new(0, 1),
        Err(RuntimeIsolationConfigError::ZeroMaxRequestBodyBytes)
    );
    assert_eq!(
        RuntimeIsolationLimits::try_new(1, 0),
        Err(RuntimeIsolationConfigError::ZeroMaxInFlightRequests)
    );

    let limits = RuntimeIsolationLimits::try_new(1024, 2).expect("non-zero limits are valid");
    assert_eq!(limits.max_request_body_bytes(), 1024);
    assert_eq!(limits.max_in_flight_requests(), 2);
}

#[test]
fn admission_budget_recovers_after_request_release() {
    let limits = RuntimeIsolationLimits::try_new(1024, 1).expect("fixture limits are valid");
    let mut budget = RequestAdmissionBudget::new(limits);
    let first = budget.acquire().expect("first request is admitted");

    assert!(budget.acquire().is_none());
    budget.release(first);
    assert!(budget.acquire().is_some());
}

#[test]
fn body_budget_enforces_declared_and_streamed_limits() {
    let limits = RuntimeIsolationLimits::try_new(4, 1).expect("fixture limits are valid");
    let mut body = RequestBodyBudget::new(limits);

    assert!(body.reject_declared_length(4).is_ok());
    assert_eq!(
        body.reject_declared_length(5).unwrap_err(),
        BodyLimitExceeded { observed: 5, limit: 4 }
    );

    body.observe_chunk(2).expect("first chunk is within budget");
    body.observe_chunk(2).expect("exact limit remains admitted");
    assert_eq!(body.observed(), 4);
    assert_eq!(body.observe_chunk(1).unwrap_err(), BodyLimitExceeded { observed: 5, limit: 4 });
}

#[test]
fn admission_round_trip_restores_the_in_flight_count() {
    let limits = RuntimeIsolationLimits::try_new(1, 3).expect("fixture limits are valid");
    let mut budget = RequestAdmissionBudget::new(limits);
    let a = budget.acquire().expect("room for one");
    let b = budget.acquire().expect("room for two");
    assert_eq!(budget.in_flight(), 2);
    budget.release(b);
    assert_eq!(budget.in_flight(), 1);
    budget.release(a);
    assert_eq!(budget.in_flight(), 0);
}

#[test]
fn streamed_body_count_saturates() {
    let limits = RuntimeIsolationLimits::try_new(u64::MAX, 1).expect("fixture limits are valid");
    let mut body = RequestBodyBudget::new(limits);
    assert!(body.observe_chunk(u64::MAX - 1).is_ok());
    assert!(body.observe_chunk(10).is_ok());
    assert_eq!(body.observed(), u64::MAX);
}

#[test]
fn config_error_messages() {
    assert_eq!(
        RuntimeIsolationConfigError::ZeroMaxRequestBodyBytes.message(),
        "max_request_body_bytes must be greater than zero"
    );
    assert_eq!(
        RuntimeIsolationConfigError::ZeroMaxInFlightRequests.message(),
        "max_in_flight_requests must be greater than zero"
    );
}

#[test]
fn an_admission_frees_only_a_slot_its_budget_holds() {
    let limits = RuntimeIsolationLimits::try_new(1, 1).expect("fixture limits are valid");
    let mut granting = RequestAdmissionBudget::new(limits);
    let mut other = RequestAdmissionBudget::new(limits);
    let admission = granting.acquire().expect("room for one");
    other.release(admission);
    assert_eq!(other.in_flight(), 0);
    assert_eq!(granting.in_flight(), 1);
    assert!(granting.acquire().is_none());
}
