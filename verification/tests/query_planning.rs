use greeting_log::errors::{ApiError, StoreError, ValidationFault};
use greeting_log::query::{parse_direction, plan_query, Direction, LoggQuery};
use greeting_log::trace::TraceContext;

fn query(offset: i64, limit: i64, direction: &str) -> LoggQuery {
    LoggQuery { offset, limit, direction: direction.to_string() }
}

#[test]
fn plan_mirrors_query_and_carries_request_context() {
    let ctx = TraceContext { trace_id: 0xabc, parent_span_id: 0xd };
    let plan = plan_query(&query(17, 250, "backward"), ctx).expect("query is valid");
    assert_eq!(plan.offset, 17);
    assert_eq!(plan.limit, 250);
    assert_eq!(plan.direction, Direction::Backward);
    assert_eq!(plan.ctx, ctx);
}

#[test]
fn plan_accepts_both_limit_boundaries() {
    let ctx = TraceContext { trace_id: 1, parent_span_id: 1 };
    assert!(plan_query(&query(1, 1, "forward"), ctx).is_ok());
    assert!(plan_query(&query(1, 1000, "forward"), ctx).is_ok());
}

#[test]
fn plan_rejects_limits_outside_bounds() {
    let ctx = TraceContext { trace_id: 1, parent_span_id: 1 };
    let too_small = plan_query(&query(1, 0, "forward"), ctx).expect_err("limit 0");
    let too_large = plan_query(&query(1, 1001, "forward"), ctx).expect_err("limit 1001");
    assert_eq!(too_small, ApiError::Validation(ValidationFault::LimitOutOfRange));
    assert_eq!(too_large, ApiError::Validation(ValidationFault::LimitOutOfRange));
}

#[test]
fn direction_vocabulary_is_exactly_forward_and_backward() {
    assert_eq!(parse_direction(&"forward".to_string()), Some(Direction::Forward));
    assert_eq!(parse_direction(&"backward".to_string()), Some(Direction::Backward));
    for wrong in ["asc", "desc", "FORWARD", " forward", "forwards", ""] {
        assert_eq!(parse_direction(&wrong.to_string()), None);
    }
}

#[test]
fn store_errors_wrap_as_application_errors() {
    let e = StoreError { message: "timeout".to_string() };
    assert_eq!(ApiError::from(e.clone()), ApiError::ApplicationError(e));
}
