//! The decision core of the background log generator.
//!
//! A driver loop owns the clock and the store connection; this module owns
//! every decision. Each tick opens a transaction, runs the store-side
//! log-generation procedure inside it, and commits; the driver performs each
//! requested `StoreCall` and hands back the reply. Every failure ends the
//! tick — a procedure or commit failure leaves the transaction uncommitted,
//! so abort is implied — and none of them ends the loop: the generator's
//! contract is best-effort periodic materialization, and only startup failure
//! is fatal. Each tick carries one fresh trace context, attached to every
//! store call it issues.

use vstd::prelude::*;
use crate::errors::StoreError;
use crate::trace::TraceContext;

verus! {

/// A store operation the generator asks its driver to perform, tagged with
/// the trace context of the tick that issued it.
#[derive(Clone, Copy, Debug, PartialEq, Eq, Structural)]
pub enum StoreCall {
    /// Acquire a transaction.
    BeginTransaction(TraceContext),
    /// Invoke the store-side log-generation procedure inside the open
    /// transaction.
    RunLogGeneration(TraceContext),
    /// Commit the open transaction.
    CommitTransaction(TraceContext),
}

/// The trace context a store call carries.
pub open spec fn call_context(call: StoreCall) -> TraceContext {
    match call {
        StoreCall::BeginTransaction(ctx) => ctx,
        StoreCall::RunLogGeneration(ctx) => ctx,
        StoreCall::CommitTransaction(ctx) => ctx,
    }
}

/// How one tick ended. Every failure is confined to its tick.
#[derive(Clone, Copy, Debug, PartialEq, Eq, Structural)]
pub enum TickOutcome {
    /// The procedure ran and the transaction committed.
    Committed,
    /// The transaction could not be acquired; nothing else was attempted.
    TransactionFailed,
    /// The procedure failed inside the open transaction; it was not
    /// committed, so the tick's work is abandoned.
    ProcedureFailed,
    /// The procedure ran but the commit failed.
    CommitFailed,
}

/// Where a tick stands: which reply it is waiting for, or how it ended.
#[derive(Clone, Copy, Debug, PartialEq, Eq, Structural)]
pub enum TickPhase {
    AwaitingTransaction,
    AwaitingProcedure,
    AwaitingCommit,
    Complete(TickOutcome),
}

/// One generator tick: the trace context it was started with — fresh for
/// every tick, so ticks are not correlated to each other — and its phase.
#[derive(Clone, Copy, Debug, PartialEq, Eq, Structural)]
pub struct Tick {
    pub ctx: TraceContext,
    pub phase: TickPhase,
}

/// The phase a reply moves a tick to. A completed tick stays completed.
pub open spec fn next_phase(phase: TickPhase, ok: bool) -> TickPhase {
    match phase {
        TickPhase::AwaitingTransaction => if ok {
            TickPhase::AwaitingProcedure
        } else {
            TickPhase::Complete(TickOutcome::TransactionFailed)
        },
        TickPhase::AwaitingProcedure => if ok {
            TickPhase::AwaitingCommit
        } else {
            TickPhase::Complete(TickOutcome::ProcedureFailed)
        },
        TickPhase::AwaitingCommit => if ok {
            TickPhase::Complete(TickOutcome::Committed)
        } else {
            TickPhase::Complete(TickOutcome::CommitFailed)
        },
        TickPhase::Complete(outcome) => TickPhase::Complete(outcome),
    }
}

/// The store call a reply leads to, if any: the procedure only once the
/// transaction is open, the commit only once the procedure has succeeded,
/// nothing after a failure.
pub open spec fn next_call(phase: TickPhase, ok: bool, ctx: TraceContext) -> Option<StoreCall> {
    match phase {
        TickPhase::AwaitingTransaction => if ok {
            Some(StoreCall::RunLogGeneration(ctx))
        } else {
            None
        },
        TickPhase::AwaitingProcedure => if ok {
            Some(StoreCall::CommitTransaction(ctx))
        } else {
            None
        },
        _ => None,
    }
}

impl Tick {
    /// Begins a tick under a freshly generated trace context: the first store
    /// call acquires the transaction, tagged with that context.
    pub fn start(ctx: TraceContext) -> (r: (Tick, StoreCall))
        ensures
            r.0 == (Tick { ctx, phase: TickPhase::AwaitingTransaction }),
            r.1 == StoreCall::BeginTransaction(ctx),
    {
        (Tick { ctx, phase: TickPhase::AwaitingTransaction }, StoreCall::BeginTransaction(ctx))
    }

    /// Advances the tick on the driver's reply to the last store call. The
    /// error inside an `Err` reply is the driver's to log; the decision here
    /// depends only on success or failure.
    pub fn on_store_reply(self, reply: &Result<(), StoreError>) -> (r: (Tick, Option<StoreCall>))
        ensures
            r.0.ctx == self.ctx,
            r.0.phase == next_phase(self.phase, *reply is Ok),
            r.1 == next_call(self.phase, *reply is Ok, self.ctx),
    {
        let ok = reply.is_ok();
        let phase = match self.phase {
            TickPhase::AwaitingTransaction => if ok {
                TickPhase::AwaitingProcedure
            } else {
                TickPhase::Complete(TickOutcome::TransactionFailed)
            },
            TickPhase::AwaitingProcedure => if ok {
                TickPhase::AwaitingCommit
            } else {
                TickPhase::Complete(TickOutcome::ProcedureFailed)
            },
            TickPhase::AwaitingCommit => if ok {
                TickPhase::Complete(TickOutcome::Committed)
            } else {
                TickPhase::Complete(TickOutcome::CommitFailed)
            },
            TickPhase::Complete(outcome) => TickPhase::Complete(outcome),
        };
        let call = match self.phase {
            TickPhase::AwaitingTransaction => if ok {
                Some(StoreCall::RunLogGeneration(self.ctx))
            } else {
                None
            },
            TickPhase::AwaitingProcedure => if ok {
                Some(StoreCall::CommitTransaction(self.ctx))
            } else {
                None
            },
            _ => None,
        };
        (Tick { ctx: self.ctx, phase }, call)
    }

    /// How the tick ended, once it has.
    pub fn outcome(&self) -> (r: Option<TickOutcome>)
        ensures
            r == (match self.phase {
                TickPhase::Complete(outcome) => Some(outcome),
                _ => None::<TickOutcome>,
            }),
    {
        match self.phase {
            TickPhase::Complete(outcome) => Some(outcome),
            _ => None,
        }
    }
}

/// The calls a tick in `phase` goes on to issue, given the successes and
/// failures the driver replies with.
pub open spec fn phase_calls(phase: TickPhase, ctx: TraceContext, replies: Seq<bool>) -> Seq<
    StoreCall,
>
    decreases replies.len(),
{
    if replies.len() == 0 {
        Seq::empty()
    } else {
        let head = match next_call(phase, replies[0], ctx) {
            Some(call) => seq![call],
            None => Seq::empty(),
        };
        head + phase_calls(next_phase(phase, replies[0]), ctx, replies.drop_first())
    }
}

/// Every store call of one tick started under `ctx`, in order: the opening
/// transaction acquisition, then whatever the replies lead to.
pub open spec fn tick_calls(ctx: TraceContext, replies: Seq<bool>) -> Seq<StoreCall> {
    seq![StoreCall::BeginTransaction(ctx)] + phase_calls(
        TickPhase::AwaitingTransaction,
        ctx,
        replies,
    )
}

proof fn lemma_phase_calls_context(phase: TickPhase, ctx: TraceContext, replies: Seq<bool>)
    ensures
        forall|k: int|
            0 <= k < phase_calls(phase, ctx, replies).len() ==> call_context(
                #[trigger] phase_calls(phase, ctx, replies)[k],
            ) == ctx,
    decreases replies.len(),
{
    if replies.len() > 0 {
        let head = match next_call(phase, replies[0], ctx) {
            Some(call) => seq![call],
            None => Seq::empty(),
        };
        let rest = phase_calls(next_phase(phase, replies[0]), ctx, replies.drop_first());
        lemma_phase_calls_context(next_phase(phase, replies[0]), ctx, replies.drop_first());
        assert(phase_calls(phase, ctx, replies) == head + rest);
        assert forall|k: int|
            0 <= k < phase_calls(phase, ctx, replies).len() implies call_context(
            #[trigger] phase_calls(phase, ctx, replies)[k],
        ) == ctx by {
            if k < head.len() {
                assert(phase_calls(phase, ctx, replies)[k] == head[0]);
            } else {
                assert(phase_calls(phase, ctx, replies)[k] == rest[k - head.len()]);
            }
        }
    }
}

/// Trace propagation: whatever the driver replies, every store call issued
/// during a tick carries the trace context that was active when the tick
/// started.
pub proof fn lemma_trace_propagation(ctx: TraceContext, replies: Seq<bool>)
    ensures
        forall|k: int|
            0 <= k < tick_calls(ctx, replies).len() ==> call_context(
                #[trigger] tick_calls(ctx, replies)[k],
            ) == ctx,
{
    lemma_phase_calls_context(TickPhase::AwaitingTransaction, ctx, replies);
}

/// Ticks are not correlated: two ticks started under distinct trace contexts
/// share the context of no store call.
pub proof fn lemma_ticks_uncorrelated(
    first_ctx: TraceContext,
    second_ctx: TraceContext,
    first_replies: Seq<bool>,
    second_replies: Seq<bool>,
)
    requires
        first_ctx != second_ctx,
    ensures
        forall|i: int, j: int|
            0 <= i < tick_calls(first_ctx, first_replies).len() && 0 <= j < tick_calls(
                second_ctx,
                second_replies,
            ).len() ==> call_context(#[trigger] tick_calls(first_ctx, first_replies)[i])
                != call_context(#[trigger] tick_calls(second_ctx, second_replies)[j]),
{
    lemma_trace_propagation(first_ctx, first_replies);
    lemma_trace_propagation(second_ctx, second_replies);
}

/// The generator's supervision state: its steady state is `Running`; `Fatal`
/// is reached only when startup itself fails, never from a tick.
#[derive(Clone, Copy, Debug, PartialEq, Eq, Structural)]
pub enum GenState {
    Running { interval_ms: u64, ticks_completed: u64 },
    Fatal,
}

/// The fixed pause between ticks, or nothing once the generator is fatal.
pub open spec fn interval_of(s: GenState) -> u64 {
    match s {
        GenState::Running { interval_ms, .. } => interval_ms,
        GenState::Fatal => 0,
    }
}

/// How many ticks the generator has completed.
pub open spec fn ticks_of(s: GenState) -> u64 {
    match s {
        GenState::Running { ticks_completed, .. } => ticks_completed,
        GenState::Fatal => 0,
    }
}

/// Starts the generator from the one-time startup step: a database handle
/// that could not be established is not worth running degraded for, so a
/// startup failure is fatal and must keep the process from serving at all.
pub fn start_generator(startup: &Result<(), StoreError>, interval_ms: u64) -> (s: GenState)
    ensures
        *startup is Ok ==> s == (GenState::Running { interval_ms, ticks_completed: 0 }),
        *startup is Err ==> s == GenState::Fatal,
{
    match startup {
        Ok(_) => GenState::Running { interval_ms, ticks_completed: 0 },
        Err(_) => GenState::Fatal,
    }
}

/// The state one tick's end moves the generator to: still running, one more
/// tick completed, whatever the outcome was.
pub open spec fn after_tick_state(s: GenState, outcome: TickOutcome) -> GenState {
    match s {
        GenState::Running { interval_ms, ticks_completed } => GenState::Running {
            interval_ms,
            ticks_completed: (ticks_completed + 1) as u64,
        },
        GenState::Fatal => GenState::Fatal,
    }
}

/// One supervision decision, taken after a tick ends. The outcome — success
/// or any failure, already logged by the driver — never ends the loop: a
/// running generator stays running and sleeps the fixed interval before the
/// next tick. Only a fatal (startup-failed) generator schedules nothing.
pub fn after_tick(s: GenState, outcome: TickOutcome) -> (r: (GenState, Option<u64>))
    requires
        ticks_of(s) < u64::MAX,
    ensures
        r.0 == after_tick_state(s, outcome),
        s is Running ==> r.0 is Running && r.1 == Some(interval_of(s)),
        s is Fatal ==> r.1 is None,
{
    match s {
        GenState::Running { interval_ms, ticks_completed } => (
            GenState::Running { interval_ms, ticks_completed: ticks_completed + 1 },
            Some(interval_ms),
        ),
        GenState::Fatal => (GenState::Fatal, None),
    }
}

/// Where a running generator stands after a whole sequence of tick outcomes.
pub open spec fn run_generator(s: GenState, outcomes: Seq<TickOutcome>) -> GenState
    decreases outcomes.len(),
{
    if outcomes.len() == 0 {
        s
    } else {
        run_generator(after_tick_state(s, outcomes[0]), outcomes.drop_first())
    }
}

/// Generator resilience: however its ticks fare — transaction-acquisition
/// failures included — a running generator is still running after any finite
/// sequence of outcomes, keeps its interval, and has completed exactly one
/// tick per outcome: a failure on one tick never prevents the next.
pub proof fn lemma_generator_resilience(s: GenState, outcomes: Seq<TickOutcome>)
    requires
        s is Running,
        ticks_of(s) + outcomes.len() <= u64::MAX,
    ensures
        run_generator(s, outcomes) is Running,
        interval_of(run_generator(s, outcomes)) == interval_of(s),
        ticks_of(run_generator(s, outcomes)) == ticks_of(s) + outcomes.len(),
    decreases outcomes.len(),
{
    if outcomes.len() > 0 {
        lemma_generator_resilience(after_tick_state(s, outcomes[0]), outcomes.drop_first());
    }
}

} // verus!
