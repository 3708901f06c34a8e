use greeting_log::errors::StoreError;
use greeting_log::generator::{
    after_tick, start_generator, GenState, StoreCall, Tick, TickOutcome, TickPhase,
};
use greeting_log::trace::TraceContext;

fn ctx(trace_id: u128) -> TraceContext {
    TraceContext { trace_id, parent_span_id: 3 }
}

fn failure() -> Result<(), StoreError> {
    Err(StoreError { message: "connection refused".to_string() })
}

#[test]
fn successful_tick_issues_begin_run_commit_under_one_context() {
    let tick_ctx = ctx(42);
    let (tick, first_call) = Tick::start(tick_ctx);
    assert_eq!(first_call, StoreCall::BeginTransaction(tick_ctx));

    let (tick, second_call) = tick.on_store_reply(&Ok(()));
    assert_eq!(second_call, Some(StoreCall::RunLogGeneration(tick_ctx)));

    let (tick, third_call) = tick.on_store_reply(&Ok(()));
    assert_eq!(third_call, Some(StoreCall::CommitTransaction(tick_ctx)));

    let (tick, fourth_call) = tick.on_store_reply(&Ok(()));
    assert_eq!(fourth_call, None);
    assert_eq!(tick.outcome(), Some(TickOutcome::Committed));
}

#[test]
fn transaction_failure_ends_the_tick_without_further_calls() {
    let (tick, _) = Tick::start(ctx(1));
    let (tick, call) = tick.on_store_reply(&failure());
    assert_eq!(call, None);
    assert_eq!(tick.outcome(), Some(TickOutcome::TransactionFailed));
}

#[test]
fn procedure_failure_never_commits() {
    let (tick, _) = Tick::start(ctx(2));
    let (tick, _) = tick.on_store_reply(&Ok(()));
    let (tick, call) = tick.on_store_reply(&failure());
    assert_eq!(call, None);
    assert_eq!(tick.outcome(), Some(TickOutcome::ProcedureFailed));
}

#[test]
fn commit_failure_ends_the_tick() {
    let (tick, _) = Tick::start(ctx(3));
    let (tick, _) = tick.on_store_reply(&Ok(()));
    let (tick, _) = tick.on_store_reply(&Ok(()));
    let (tick, call) = tick.on_store_reply(&failure());
    assert_eq!(call, None);
    assert_eq!(tick.outcome(), Some(TickOutcome::CommitFailed));
}

#[test]
fn completed_tick_stays_completed_and_silent() {
    let (tick, _) = Tick::start(ctx(4));
    let (tick, _) = tick.on_store_reply(&failure());
    let (tick, call) = tick.on_store_reply(&Ok(()));
    assert_eq!(call, None);
    assert_eq!(tick.phase, TickPhase::Complete(TickOutcome::TransactionFailed));
}

#[test]
fn each_tick_carries_its_own_fresh_context() {
    let (_, first_call) = Tick::start(ctx(100));
    let (_, second_call) = Tick::start(ctx(200));
    assert_eq!(first_call, StoreCall::BeginTransaction(ctx(100)));
    assert_eq!(second_call, StoreCall::BeginTransaction(ctx(200)));
    assert_ne!(first_call, second_call);
}

#[test]
fn startup_success_starts_running() {
    let state = start_generator(&Ok(()), 5000);
    assert_eq!(state, GenState::Running { interval_ms: 5000, ticks_completed: 0 });
}

#[test]
fn startup_failure_is_fatal() {
    let state = start_generator(&failure(), 5000);
    assert_eq!(state, GenState::Fatal);
}

#[test]
fn failed_tick_still_schedules_the_next_one() {
    let state = start_generator(&Ok(()), 5000);
    let (state, pause) = after_tick(state, TickOutcome::TransactionFailed);
    assert_eq!(state, GenState::Running { interval_ms: 5000, ticks_completed: 1 });
    assert_eq!(pause, Some(5000));

    let (state, pause) = after_tick(state, TickOutcome::Committed);
    assert_eq!(state, GenState::Running { interval_ms: 5000, ticks_completed: 2 });
    assert_eq!(pause, Some(5000));
}

#[test]
fn every_outcome_keeps_the_generator_running() {
    let outcomes = [
        TickOutcome::Committed,
        TickOutcome::TransactionFailed,
        TickOutcome::ProcedureFailed,
        TickOutcome::CommitFailed,
    ];
    let mut state = start_generator(&Ok(()), 250);
    for (i, outcome) in outcomes.iter().enumerate() {
        let (next, pause) = after_tick(state, *outcome);
        assert_eq!(pause, Some(250));
        assert_eq!(next, GenState::Running { interval_ms: 250, ticks_completed: (i + 1) as u64 });
        state = next;
    }
}
