use greeting_log::errors::{ApiError, ValidationFault};
use greeting_log::log_table::{last_log_entry, list_log_entries, list_status, LogTable, LoggEntry};
use greeting_log::query::LoggQuery;
use greeting_log::trace::TraceContext;

fn entry(id: i64) -> LoggEntry {
    LoggEntry { id, greeting_id: id * 10, created: 1_700_000_000_000_000 + id }
}

fn table_with_ids(ids: &[i64]) -> LogTable {
    let mut table = LogTable::new();
    for &id in ids {
        table.append(entry(id));
    }
    table
}

fn query(offset: i64, limit: i64, direction: &str) -> LoggQuery {
    LoggQuery { offset, limit, direction: direction.to_string() }
}

fn ctx() -> TraceContext {
    TraceContext { trace_id: 7, parent_span_id: 11 }
}

fn page_ids(table: &LogTable, q: &LoggQuery) -> Vec<i64> {
    list_log_entries(table, q, ctx())
        .expect("query should be valid")
        .iter()
        .map(|e| e.id)
        .collect()
}

#[test]
fn forward_page_from_mid_cursor() {
    let table = table_with_ids(&[1, 2, 3, 4, 5]);
    assert_eq!(page_ids(&table, &query(3, 2, "forward")), vec![3, 4]);
}

#[test]
fn backward_page_from_mid_cursor() {
    let table = table_with_ids(&[1, 2, 3, 4, 5]);
    assert_eq!(page_ids(&table, &query(3, 2, "backward")), vec![3, 2]);
}

#[test]
fn forward_page_returns_all_when_under_limit() {
    let table = table_with_ids(&[1, 2, 3, 4, 5]);
    assert_eq!(page_ids(&table, &query(4, 1000, "forward")), vec![4, 5]);
}

#[test]
fn backward_page_returns_all_when_under_limit() {
    let table = table_with_ids(&[1, 2, 3, 4, 5]);
    assert_eq!(page_ids(&table, &query(2, 1000, "backward")), vec![2, 1]);
}

#[test]
fn pages_ignore_gaps_in_ids() {
    let table = table_with_ids(&[2, 5, 9, 14]);
    assert_eq!(page_ids(&table, &query(3, 2, "forward")), vec![5, 9]);
    assert_eq!(page_ids(&table, &query(8, 2, "backward")), vec![5, 2]);
}

#[test]
fn truncated_page_ends_at_limit_th_qualifying_id() {
    let table = table_with_ids(&[1, 2, 3, 4, 5, 6, 7, 8]);
    assert_eq!(page_ids(&table, &query(2, 3, "forward")), vec![2, 3, 4]);
    assert_eq!(page_ids(&table, &query(7, 3, "backward")), vec![7, 6, 5]);
}

#[test]
fn limit_boundaries_are_accepted() {
    let table = table_with_ids(&[1, 2, 3]);
    assert_eq!(page_ids(&table, &query(1, 1, "forward")), vec![1]);
    assert_eq!(page_ids(&table, &query(1, 1000, "forward")), vec![1, 2, 3]);
}

#[test]
fn limit_outside_bounds_is_rejected() {
    let table = table_with_ids(&[1, 2, 3]);
    assert_eq!(
        list_log_entries(&table, &query(1, 0, "forward"), ctx()),
        Err(ApiError::Validation(ValidationFault::LimitOutOfRange))
    );
    assert_eq!(
        list_log_entries(&table, &query(1, 1001, "forward"), ctx()),
        Err(ApiError::Validation(ValidationFault::LimitOutOfRange))
    );
}

#[test]
fn offset_below_one_is_rejected() {
    let table = table_with_ids(&[1, 2, 3]);
    assert_eq!(
        list_log_entries(&table, &query(0, 10, "forward"), ctx()),
        Err(ApiError::Validation(ValidationFault::OffsetOutOfRange))
    );
}

#[test]
fn unknown_direction_is_rejected_not_defaulted() {
    let table = table_with_ids(&[1, 2, 3]);
    for wrong in ["sideways", "asc", "desc", "Forward", ""] {
        assert_eq!(
            list_log_entries(&table, &query(1, 10, wrong), ctx()),
            Err(ApiError::Validation(ValidationFault::UnknownDirection))
        );
    }
}

#[test]
fn faults_are_reported_in_field_order() {
    let table = table_with_ids(&[1]);
    assert_eq!(
        list_log_entries(&table, &query(0, 0, "sideways"), ctx()),
        Err(ApiError::Validation(ValidationFault::OffsetOutOfRange))
    );
    assert_eq!(
        list_log_entries(&table, &query(1, 0, "sideways"), ctx()),
        Err(ApiError::Validation(ValidationFault::LimitOutOfRange))
    );
}

#[test]
fn empty_page_is_success_not_error() {
    let table = table_with_ids(&[1, 2, 3]);
    assert_eq!(page_ids(&table, &query(100, 10, "forward")), Vec::<i64>::new());
}

#[test]
fn empty_table_lists_empty_success() {
    let table = LogTable::new();
    assert_eq!(page_ids(&table, &query(1, 10, "forward")), Vec::<i64>::new());
}

#[test]
fn repeated_reads_return_identical_pages() {
    let table = table_with_ids(&[1, 3, 5, 7]);
    let q = query(3, 2, "backward");
    let first = list_log_entries(&table, &q, ctx());
    let second = list_log_entries(&table, &q, ctx());
    assert_eq!(first, second);
}

#[test]
fn list_statuses_distinguish_content_no_content_and_errors() {
    let table = table_with_ids(&[1, 2, 3]);
    assert_eq!(list_status(&list_log_entries(&table, &query(1, 10, "forward"), ctx())), 200);
    assert_eq!(list_status(&list_log_entries(&table, &query(9, 10, "forward"), ctx())), 204);
    assert_eq!(list_status(&list_log_entries(&table, &query(1, 0, "forward"), ctx())), 400);
}

#[test]
fn last_entry_of_empty_log_is_absent() {
    let table = LogTable::new();
    assert_eq!(last_log_entry(&table), None);
}

#[test]
fn last_entry_is_the_greatest_id() {
    let table = table_with_ids(&[1, 4, 9]);
    let last = last_log_entry(&table).expect("log is not empty");
    assert_eq!(last.id, 9);
    assert_eq!(last.greeting_id, 90);
}
