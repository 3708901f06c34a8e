//! The append-only log and its direction-aware keyset pagination.
//!
//! `LogTable` models the store's log table: rows with strictly increasing
//! ids, never mutated after insertion. `list_log_entries` answers a paginated
//! read: rows whose id lies on the requested side of the `offset` cursor, in
//! the requested order, capped at `limit` — keyset pagination, so the cost is
//! bound by the page, not by the cursor position, and pages stay stable while
//! new rows are appended. An empty page is a valid success value, never an
//! error.

use vstd::prelude::*;
use vstd::math::min;
use crate::errors::ApiError;
use crate::query::{
    plan_query, direction_of, query_fault, query_valid, plan_wf, Direction, LoggQuery, QueryPlan,
};
use crate::trace::TraceContext;

verus! {

broadcast use vstd::seq_lib::group_seq_lib_default;

/// One row of the append-only log: a read-only projection.
#[derive(Clone, Copy, Debug, PartialEq, Eq, Structural)]
pub struct LoggEntry {
    /// Monotonically increasing primary key, assigned on insert, never reused.
    pub id: i64,
    /// The greeting that produced this log row.
    pub greeting_id: i64,
    /// Creation time, in microseconds since the Unix epoch. Ordering by `id`
    /// is equivalent to insertion-time ordering, so `id` alone orders pages.
    pub created: i64,
}

/// Ids grow strictly along the sequence: the append-only invariant.
pub open spec fn ids_strictly_increasing(rows: Seq<LoggEntry>) -> bool {
    forall|i: int, j: int| 0 <= i < j < rows.len() ==> rows[i].id < rows[j].id
}

/// Ids fall strictly along the sequence: the shape of a backward page.
pub open spec fn ids_strictly_decreasing(rows: Seq<LoggEntry>) -> bool {
    forall|i: int, j: int| 0 <= i < j < rows.len() ==> rows[i].id > rows[j].id
}

/// The log table: rows in insertion order, ids strictly increasing.
pub struct LogTable {
    rows: Vec<LoggEntry>,
}

impl View for LogTable {
    type V = Seq<LoggEntry>;

    closed spec fn view(&self) -> Seq<LoggEntry> {
        self.rows@
    }
}

impl LogTable {
    /// The table invariant: append-only rows, ids strictly increasing.
    pub open spec fn wf(&self) -> bool {
        ids_strictly_increasing(self@)
    }

    /// An empty log: the normal state at startup.
    pub fn new() -> (table: LogTable)
        ensures
            table@ == Seq::<LoggEntry>::empty(),
            table.wf(),
    {
        LogTable { rows: Vec::new() }
    }

    /// How many rows the log holds.
    pub fn len(&self) -> (n: usize)
        ensures
            n == self@.len(),
    {
        self.rows.len()
    }

    /// The row at position `i` in insertion order.
    pub fn row_at(&self, i: usize) -> (e: LoggEntry)
        requires
            i < self@.len(),
        ensures
            e == self@[i as int],
    {
        self.rows[i]
    }

    /// Appends one materialized row. The store assigns ids monotonically, so
    /// a new row's id exceeds every id already present.
    pub fn append(&mut self, e: LoggEntry)
        requires
            old(self).wf(),
            old(self)@.len() > 0 ==> e.id > old(self)@.last().id,
        ensures
            final(self)@ == old(self)@.push(e),
            final(self).wf(),
    {
        proof {
            let rows = self@;
            assert forall|i: int, j: int|
                0 <= i < j < rows.push(e).len() implies rows.push(e)[i].id < rows.push(e)[j].id by {
                if j < rows.len() {
                    assert(rows[i].id < rows[j].id);
                } else {
                    assert(rows.push(e)[j] == e);
                    if i < rows.len() - 1 {
                        assert(rows[i].id < rows[rows.len() - 1].id);
                    }
                }
            }
        }
        self.rows.push(e);
    }
}

/// Whether a row lies on the requested side of the cursor.
pub open spec fn qualifies(e: LoggEntry, offset: int, direction: Direction) -> bool {
    match direction {
        Direction::Forward => e.id >= offset,
        Direction::Backward => e.id <= offset,
    }
}

/// `qualifies`, packaged as a predicate on rows.
pub open spec fn qualifies_pred(offset: int, direction: Direction) -> spec_fn(LoggEntry) -> bool {
    |e: LoggEntry| qualifies(e, offset, direction)
}

/// The qualifying rows, still in insertion (ascending id) order.
pub open spec fn matching_rows(rows: Seq<LoggEntry>, offset: int, direction: Direction) -> Seq<
    LoggEntry,
> {
    rows.filter(qualifies_pred(offset, direction))
}

/// The qualifying rows in the requested sort order: ascending ids for
/// `forward`, descending for `backward`.
pub open spec fn ordered_matches(rows: Seq<LoggEntry>, offset: int, direction: Direction) -> Seq<
    LoggEntry,
> {
    match direction {
        Direction::Forward => matching_rows(rows, offset, direction),
        Direction::Backward => matching_rows(rows, offset, direction).reverse(),
    }
}

/// The page a read returns: the ordered qualifying rows, truncated to `limit`.
pub open spec fn page(rows: Seq<LoggEntry>, offset: int, limit: int, direction: Direction) -> Seq<
    LoggEntry,
> {
    let ordered = ordered_matches(rows, offset, direction);
    if ordered.len() <= limit {
        ordered
    } else {
        ordered.take(limit)
    }
}

/// What a log read returns for any raw query: the page for a valid query,
/// the typed validation fault otherwise.
pub open spec fn list_result(rows: Seq<LoggEntry>, q: LoggQuery) -> Result<Seq<LoggEntry>, ApiError> {
    if query_valid(q) {
        Ok(page(rows, q.offset as int, q.limit as int, direction_of(q.direction@)))
    } else {
        Err(ApiError::Validation(query_fault(q)))
    }
}

proof fn lemma_filter_push(s: Seq<LoggEntry>, p: spec_fn(LoggEntry) -> bool, x: LoggEntry)
    ensures
        s.push(x).filter(p) == if p(x) {
            s.filter(p).push(x)
        } else {
            s.filter(p)
        },
{
    reveal(Seq::filter);
    assert(s.push(x).drop_last() =~= s);
    assert(s.push(x).last() == x);
}

proof fn lemma_filter_singleton(x: LoggEntry, p: spec_fn(LoggEntry) -> bool)
    ensures
        seq![x].filter(p) == if p(x) {
            seq![x]
        } else {
            Seq::<LoggEntry>::empty()
        },
{
    reveal_with_fuel(Seq::filter, 2);
    assert(seq![x].drop_last() =~= Seq::<LoggEntry>::empty());
    assert(Seq::<LoggEntry>::empty().filter(p) =~= Seq::<LoggEntry>::empty());
    assert(seq![x].last() == x);
    if p(x) {
        assert(seq![x].filter(p) =~= seq![x]);
    }
}

proof fn lemma_reverse_add(a: Seq<LoggEntry>, b: Seq<LoggEntry>)
    ensures
        (a + b).reverse() =~= b.reverse() + a.reverse(),
{
}

/// Runs a validated plan against the table: one pass, touching at most the
/// rows of the page plus the rows the cursor skips on the qualifying side.
pub fn run_plan(table: &LogTable, plan: &QueryPlan) -> (r: Vec<LoggEntry>)
    requires
        table.wf(),
        plan_wf(*plan),
    ensures
        r@ == page(table@, plan.offset as int, plan.limit as int, plan.direction),
{
    let ghost rows = table@;
    let ghost offset = plan.offset as int;
    let ghost pred = qualifies_pred(plan.offset as int, plan.direction);
    let limit: usize = plan.limit as usize;
    let row_count: usize = table.len();
    let mut out: Vec<LoggEntry> = Vec::new();
    match plan.direction {
        Direction::Forward => {
            let mut i: usize = 0;
            while i < row_count && out.len() < limit
                invariant
                    table.wf(),
                    plan_wf(*plan),
                    rows == table@,
                    offset == plan.offset as int,
                    pred == qualifies_pred(plan.offset as int, plan.direction),
                    plan.direction == Direction::Forward,
                    limit == plan.limit as int,
                    row_count == rows.len(),
                    0 <= i <= row_count,
                    out@ == rows.take(i as int).filter(pred),
                    out@.len() <= limit,
                decreases row_count - i,
            {
                let e = table.row_at(i);
                proof {
                    assert(rows.take(i as int + 1) =~= rows.take(i as int).push(rows[i as int]));
                    lemma_filter_push(rows.take(i as int), pred, rows[i as int]);
                }
                if e.id >= plan.offset {
                    out.push(e);
                }
                i += 1;
            }
            proof {
                assert(rows.take(row_count as int) =~= rows);
                let full = rows.filter(pred);
                if i == row_count {
                    assert(out@ == full);
                    assert(page(rows, offset, limit as int, plan.direction) == out@);
                } else {
                    assert(out@.len() == limit);
                    assert(rows =~= rows.take(i as int) + rows.skip(i as int));
                    assert(full == rows.take(i as int).filter(pred) + rows.skip(i as int).filter(
                        pred,
                    ));
                    assert(full.take(limit as int) =~= out@);
                    if full.len() <= limit {
                        assert(full =~= out@);
                    }
                }
            }
        },
        Direction::Backward => {
            let mut j: usize = row_count;
            while j > 0 && out.len() < limit
                invariant
                    table.wf(),
                    plan_wf(*plan),
                    rows == table@,
                    offset == plan.offset as int,
                    pred == qualifies_pred(plan.offset as int, plan.direction),
                    plan.direction == Direction::Backward,
                    limit == plan.limit as int,
                    row_count == rows.len(),
                    0 <= j <= row_count,
                    out@ == rows.skip(j as int).filter(pred).reverse(),
                    out@.len() <= limit,
                decreases j,
            {
                let e = table.row_at(j - 1);
                proof {
                    let tail = rows.skip(j as int);
                    let tail_more = rows.skip(j as int - 1);
                    assert(tail_more =~= seq![rows[j as int - 1]] + tail);
                    lemma_filter_singleton(rows[j as int - 1], pred);
                    assert(tail_more.filter(pred) == seq![rows[j as int - 1]].filter(pred)
                        + tail.filter(pred));
                    lemma_reverse_add(seq![rows[j as int - 1]].filter(pred), tail.filter(pred));
                    if pred(rows[j as int - 1]) {
                        assert(seq![rows[j as int - 1]].filter(pred).reverse() =~= seq![
                            rows[j as int - 1],
                        ]);
                        assert(tail_more.filter(pred).reverse() =~= tail.filter(pred).reverse().push(
                            rows[j as int - 1],
                        ));
                    } else {
                        assert(seq![rows[j as int - 1]].filter(pred).reverse() =~= Seq::<
                            LoggEntry,
                        >::empty());
                        assert(tail_more.filter(pred).reverse() =~= tail.filter(pred).reverse());
                    }
                }
                if e.id <= plan.offset {
                    out.push(e);
                }
                j -= 1;
            }
            proof {
                assert(rows.skip(0) =~= rows);
                let full = rows.filter(pred);
                let ordered = full.reverse();
                if j == 0 {
                    assert(out@ == ordered);
                    assert(page(rows, offset, limit as int, plan.direction) == out@);
                } else {
                    assert(out@.len() == limit);
                    assert(rows =~= rows.take(j as int) + rows.skip(j as int));
                    assert(full == rows.take(j as int).filter(pred) + rows.skip(j as int).filter(
                        pred,
                    ));
                    lemma_reverse_add(rows.take(j as int).filter(pred), rows.skip(j as int).filter(
                        pred,
                    ));
                    assert(ordered =~= out@ + rows.take(j as int).filter(pred).reverse());
                    assert(ordered.take(limit as int) =~= out@);
                    if ordered.len() <= limit {
                        assert(ordered =~= out@);
                    }
                }
            }
        },
    }
    out
}

proof fn lemma_filter_keeps_order_and_membership(
    rows: Seq<LoggEntry>,
    p: spec_fn(LoggEntry) -> bool,
)
    requires
        ids_strictly_increasing(rows),
    ensures
        ids_strictly_increasing(rows.filter(p)),
        forall|k: int| 0 <= k < rows.filter(p).len() ==> rows.contains(#[trigger] rows.filter(p)[k]),
    decreases rows.len(),
{
    reveal(Seq::filter);
    if rows.len() > 0 {
        let prefix = rows.drop_last();
        let last = rows.last();
        assert(ids_strictly_increasing(prefix));
        lemma_filter_keeps_order_and_membership(prefix, p);
        let f_pre = prefix.filter(p);
        assert forall|k: int| 0 <= k < f_pre.len() implies rows.contains(#[trigger] f_pre[k]) by {
            assert(prefix.contains(f_pre[k]));
            let idx = choose|idx: int| 0 <= idx < prefix.len() && prefix[idx] == f_pre[k];
            assert(rows[idx] == f_pre[k]);
        }
        if p(last) {
            assert(rows.filter(p) == f_pre.push(last));
            assert forall|k: int| 0 <= k < f_pre.len() implies f_pre[k].id < last.id by {
                assert(prefix.contains(f_pre[k]));
                let idx = choose|idx: int| 0 <= idx < prefix.len() && prefix[idx] == f_pre[k];
                assert(rows[idx] == f_pre[k]);
                assert(rows[idx].id < rows[rows.len() - 1].id);
            }
            assert(rows.contains(last)) by {
                assert(rows[rows.len() - 1] == last);
            }
        } else {
            assert(rows.filter(p) == f_pre);
        }
    }
}

/// Pagination correctness. For any table obeying the append-only invariant,
/// the forward page at cursor `offset` holds exactly the first `limit`
/// qualifying rows — those with `id >= offset` — in ascending id order: every
/// returned row qualifies and comes from the table, no qualifying row is
/// omitted unless the page is full, and a truncated page ends at the row with
/// the `limit`-th smallest qualifying id.
pub proof fn lemma_pagination_correctness(rows: Seq<LoggEntry>, offset: int, limit: int)
    requires
        ids_strictly_increasing(rows),
        limit >= 1,
    ensures
        ({
            let matches = matching_rows(rows, offset, Direction::Forward);
            let pg = page(rows, offset, limit, Direction::Forward);
            &&& pg.len() == min(limit, matches.len() as int)
            &&& (forall|k: int| 0 <= k < pg.len() ==> #[trigger] pg[k] == matches[k])
            &&& (forall|k: int|
                0 <= k < pg.len() ==> (#[trigger] pg[k]).id >= offset && rows.contains(pg[k]))
            &&& ids_strictly_increasing(pg)
            &&& (matches.len() <= limit ==> forall|i: int|
                0 <= i < rows.len() && rows[i].id >= offset ==> pg.contains(#[trigger] rows[i]))
            &&& (matches.len() > limit ==> pg.last() == matches[limit - 1])
        }),
{
    let p = qualifies_pred(offset, Direction::Forward);
    lemma_filter_keeps_order_and_membership(rows, p);
    let matches = matching_rows(rows, offset, Direction::Forward);
    let pg = page(rows, offset, limit, Direction::Forward);
    assert forall|k: int| 0 <= k < pg.len() implies (#[trigger] pg[k]).id >= offset
        && rows.contains(pg[k]) by {
        assert(pg[k] == matches[k]);
        assert(p(matches[k]));
    }
    if matches.len() <= limit {
        assert forall|i: int|
            0 <= i < rows.len() && rows[i].id >= offset implies pg.contains(
            #[trigger] rows[i],
        ) by {
            assert(p(rows[i]));
            assert(rows.filter(p).contains(rows[i]));
        }
    }
}

/// Direction symmetry. The backward page at cursor `offset` holds exactly
/// the first `limit` of the rows with `id <= offset`, taken from the greatest
/// id downward: every returned row qualifies and comes from the table, ids
/// fall strictly along the page, and no qualifying row is omitted unless the
/// page is full.
pub proof fn lemma_direction_symmetry(rows: Seq<LoggEntry>, offset: int, limit: int)
    requires
        ids_strictly_increasing(rows),
        limit >= 1,
    ensures
        ({
            let matches = matching_rows(rows, offset, Direction::Backward);
            let pg = page(rows, offset, limit, Direction::Backward);
            &&& pg.len() == min(limit, matches.len() as int)
            &&& (forall|k: int|
                0 <= k < pg.len() ==> #[trigger] pg[k] == matches[matches.len() - 1 - k])
            &&& (forall|k: int|
                0 <= k < pg.len() ==> (#[trigger] pg[k]).id <= offset && rows.contains(pg[k]))
            &&& ids_strictly_decreasing(pg)
            &&& (matches.len() <= limit ==> forall|i: int|
                0 <= i < rows.len() && rows[i].id <= offset ==> pg.contains(#[trigger] rows[i]))
        }),
{
    let p = qualifies_pred(offset, Direction::Backward);
    lemma_filter_keeps_order_and_membership(rows, p);
    let matches = matching_rows(rows, offset, Direction::Backward);
    let ordered = matches.reverse();
    let pg = page(rows, offset, limit, Direction::Backward);
    assert forall|k: int| 0 <= k < pg.len() implies #[trigger] pg[k] == matches[matches.len() - 1
        - k] by {
        assert(pg[k] == ordered[k]);
    }
    assert forall|k: int| 0 <= k < pg.len() implies (#[trigger] pg[k]).id <= offset
        && rows.contains(pg[k]) by {
        assert(pg[k] == matches[matches.len() - 1 - k]);
        assert(p(matches[matches.len() - 1 - k]));
    }
    if matches.len() <= limit {
        assert forall|i: int|
            0 <= i < rows.len() && rows[i].id <= offset implies pg.contains(
            #[trigger] rows[i],
        ) by {
            assert(p(rows[i]));
            assert(rows.filter(p).contains(rows[i]));
            let idx = choose|idx: int| 0 <= idx < matches.len() && matches[idx] == rows[i];
            assert(pg[matches.len() - 1 - idx] == rows[i]);
        }
    }
}

/// Idempotent read. A log read is a function of the table contents and the
/// query alone: `list_log_entries` pins its result to `list_result`, so two
/// reads of an unchanged table with identical queries return identical
/// sequences — there is no hidden mutation on the read path.
pub proof fn lemma_idempotent_read(
    rows: Seq<LoggEntry>,
    q: LoggQuery,
    first: Result<Seq<LoggEntry>, ApiError>,
    second: Result<Seq<LoggEntry>, ApiError>,
)
    requires
        first == list_result(rows, q),
        second == list_result(rows, q),
    ensures
        first == second,
{
}

/// Answers a paginated log read. A valid query yields its page — possibly
/// empty, which is success, not an error; an invalid one yields the typed
/// validation fault, never a default and never a panic. The plan handed to
/// the store carries `ctx`, the trace context active for this request.
pub fn list_log_entries(table: &LogTable, query: &LoggQuery, ctx: TraceContext) -> (r: Result<
    Vec<LoggEntry>,
    ApiError,
>)
    requires
        table.wf(),
    ensures
        r is Ok <==> query_valid(*query),
        r is Ok ==> r->Ok_0@ == page(
            table@,
            query.offset as int,
            query.limit as int,
            direction_of(query.direction@),
        ),
        r is Err ==> r->Err_0 == ApiError::Validation(query_fault(*query)),
        list_result(table@, *query) == (match r {
            Ok(v) => Ok::<Seq<LoggEntry>, ApiError>(v@),
            Err(e) => Err::<Seq<LoggEntry>, ApiError>(e),
        }),
{
    match plan_query(query, ctx) {
        Ok(plan) => Ok(run_plan(table, &plan)),
        Err(fault) => Err(fault),
    }
}

/// The status class of a list response: an empty page is plain no-content —
/// a list endpoint never reports not-found — and an error maps through its
/// own status class.
pub fn list_status(r: &Result<Vec<LoggEntry>, ApiError>) -> (code: u16)
    ensures
        code == (match *r {
            Ok(rows) => if rows@.len() == 0 {
                204u16
            } else {
                200u16
            },
            Err(e) => crate::errors::spec_status_code(e),
        }),
{
    match r {
        Ok(rows) => if rows.len() == 0 {
            204
        } else {
            200
        },
        Err(e) => e.status_code(),
    }
}

/// The single most recent entry — the greatest id — or `None` on an empty
/// log. Absence is a normal state, distinct from any error.
pub fn last_log_entry(table: &LogTable) -> (r: Option<LoggEntry>)
    requires
        table.wf(),
    ensures
        r is None <==> table@.len() == 0,
        table@.len() > 0 ==> r == Some(table@.last()),
        r is Some ==> forall|k: int|
            0 <= k < table@.len() ==> table@[k].id <= r->0.id,
{
    let n = table.len();
    if n == 0 {
        None
    } else {
        Some(table.row_at(n - 1))
    }
}

} // verus!
