use vstd::prelude::*;

use crate::json::JsonValue;
use crate::ErrorCode;

verus! {

/// Ephemeral per-request correlation data: one value per inbound message,
/// alive only for the duration of that dispatch.
pub struct RequestContext {
    pub connection_id: u32,
    pub user_id: u64,
    pub seq: u32,
    pub method: u32,
    pub log_id: u64,
    pub role: u32,
    pub ip_addr: String,
}

/// What a handler answers: a success payload, or a structured business
/// error. Either way the dispatch pipeline treats the computation as having
/// completed normally.
pub enum HandlerOutcome {
    Success(JsonValue),
    Failure(ErrorCode, String),
}

/// A strongly-typed endpoint handler, supplied by the embedding application.
/// The dispatch pipeline only invokes it on bodies that passed schema
/// validation; business failures travel through the outcome, never through a
/// panic.
pub trait RequestHandler {
    fn handle(&self, ctx: &RequestContext, req: &JsonValue) -> HandlerOutcome;
}

} // verus!
