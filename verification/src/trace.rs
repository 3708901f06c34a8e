//! The distributed-trace context attached to every store call.
//!
//! The context is handed in by the caller (the HTTP layer for a request, the
//! generator's driver for a tick); the core never reaches into ambient
//! globals. The identifiers are carried as their numeric values: a trace id
//! is 128 bits wide, a span id 64.

use vstd::prelude::*;

verus! {

/// The (trace id, parent span id) pair active for one request or one
/// generator tick.
#[derive(Clone, Copy, Debug, PartialEq, Eq, Structural)]
pub struct TraceContext {
    pub trace_id: u128,
    pub parent_span_id: u64,
}

} // verus!
