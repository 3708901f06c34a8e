//! Pagination request parameters and their validation.
//!
//! A `LoggQuery` arrives from untrusted input. `plan_query` validates it and
//! converts it into the internal `QueryPlan` the read path consumes, carrying
//! the trace context that was active when the request began. An unrecognized
//! `direction` is rejected with a typed fault, never defaulted and never a
//! panic.

use vstd::prelude::*;
use crate::errors::{ApiError, ValidationFault};
use crate::trace::TraceContext;

verus! {

/// The pagination parameters of a log read, as received from the caller.
///
/// `offset` is a keyset cursor (an `id` boundary value), not a row-skip
/// count.
#[derive(Clone, Debug)]
pub struct LoggQuery {
    pub offset: i64,
    pub limit: i64,
    pub direction: String,
}

/// The canonical direction vocabulary: `forward` pages ascending from the
/// cursor, `backward` pages descending from it.
#[derive(Clone, Copy, Debug, PartialEq, Eq, Structural)]
pub enum Direction {
    Forward,
    Backward,
}

/// A validated query, ready to run: the cursor, the row cap, the direction,
/// and the trace context every store call of this request must carry.
#[derive(Clone, Debug)]
pub struct QueryPlan {
    pub offset: i64,
    pub limit: i64,
    pub direction: Direction,
    pub ctx: TraceContext,
}

/// A plan as validation produces it: cursor and page size in range.
pub open spec fn plan_wf(plan: QueryPlan) -> bool {
    &&& offset_valid(plan.offset)
    &&& limit_valid(plan.limit)
}

/// The least admissible cursor value.
pub const MIN_OFFSET: i64 = 1;

/// The least admissible page size.
pub const MIN_LIMIT: i64 = 1;

/// The greatest admissible page size.
pub const MAX_LIMIT: i64 = 1000;

/// An `offset` is a cursor into ids, which start at 1.
pub open spec fn offset_valid(offset: i64) -> bool {
    offset >= MIN_OFFSET
}

/// A `limit` must lie in 1..=1000.
pub open spec fn limit_valid(limit: i64) -> bool {
    MIN_LIMIT <= limit <= MAX_LIMIT
}

/// The two recognized direction spellings.
pub open spec fn direction_valid(s: Seq<char>) -> bool {
    s == "forward"@ || s == "backward"@
}

/// Which `Direction` a recognized spelling denotes.
pub open spec fn direction_of(s: Seq<char>) -> Direction
    recommends
        direction_valid(s),
{
    if s == "forward"@ {
        Direction::Forward
    } else {
        Direction::Backward
    }
}

/// A query every field of which passes validation.
pub open spec fn query_valid(q: LoggQuery) -> bool {
    &&& offset_valid(q.offset)
    &&& limit_valid(q.limit)
    &&& direction_valid(q.direction@)
}

/// The fault an invalid query is rejected with: fields are checked in the
/// order offset, limit, direction.
pub open spec fn query_fault(q: LoggQuery) -> ValidationFault
    recommends
        !query_valid(q),
{
    if !offset_valid(q.offset) {
        ValidationFault::OffsetOutOfRange
    } else if !limit_valid(q.limit) {
        ValidationFault::LimitOutOfRange
    } else {
        ValidationFault::UnknownDirection
    }
}

/// Recognizes the direction vocabulary. `None` on anything else: the caller
/// must fail fast, not guess a default.
pub fn parse_direction(s: &String) -> (r: Option<Direction>)
    ensures
        r is Some <==> direction_valid(s@),
        r is Some ==> r->0 == direction_of(s@),
{
    let forward_word: String = "forward".to_owned();
    if *s == forward_word {
        Some(Direction::Forward)
    } else {
        let backward_word: String = "backward".to_owned();
        if *s == backward_word {
            Some(Direction::Backward)
        } else {
            None
        }
    }
}

/// Validates a raw query and converts it into the plan the read path runs,
/// tagged with the trace context active for this request.
pub fn plan_query(q: &LoggQuery, ctx: TraceContext) -> (r: Result<QueryPlan, ApiError>)
    ensures
        r is Ok <==> query_valid(*q),
        r is Ok ==> {
            let plan = r->Ok_0;
            &&& plan.offset == q.offset
            &&& plan.limit == q.limit
            &&& plan.direction == direction_of(q.direction@)
            &&& plan.ctx == ctx
            &&& plan_wf(plan)
        },
        r is Err ==> r->Err_0 == ApiError::Validation(query_fault(*q)),
{
    if q.offset < MIN_OFFSET {
        Err(ApiError::Validation(ValidationFault::OffsetOutOfRange))
    } else if q.limit < MIN_LIMIT || q.limit > MAX_LIMIT {
        Err(ApiError::Validation(ValidationFault::LimitOutOfRange))
    } else {
        match parse_direction(&q.direction) {
            Some(direction) => Ok(QueryPlan { offset: q.offset, limit: q.limit, direction, ctx }),
            None => Err(ApiError::Validation(ValidationFault::UnknownDirection)),
        }
    }
}

} // verus!
