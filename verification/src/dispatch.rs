use vstd::prelude::*;

use crate::handler::{HandlerOutcome, RequestContext, RequestHandler};
use crate::json::JsonValue;
use crate::registry::Endpoint;
use crate::response::{request_error_to_resp, WsResponseValue, BAD_REQUEST_CODE};
use crate::validate::{params_mismatch, validate_params};
use crate::ErrorCode;

verus! {

/// The text appended after the offending field path in a bad-request
/// message.
pub open spec fn bad_request_suffix() -> Seq<char> {
    ": value does not match the endpoint schema"@
}

/// The message of a bad-request error: the dotted/indexed path to the
/// offending field, then the reason.
pub open spec fn bad_request_message(path: Seq<char>) -> Seq<char> {
    path + bad_request_suffix()
}

/// Encodes a completed handler computation as the wire response answering
/// the request described by `ctx`: a success payload becomes an immediate
/// response, a business failure becomes a structured error, both correlated
/// to the request's sequence number.
pub fn encode_response(ctx: &RequestContext, outcome: HandlerOutcome) -> (r: WsResponseValue)
    ensures
        r == match outcome {
            HandlerOutcome::Success(params) => WsResponseValue::Immediate {
                method: ctx.method,
                seq: ctx.seq,
                params,
            },
            HandlerOutcome::Failure(code, message) => WsResponseValue::Error {
                method: ctx.method,
                seq: ctx.seq,
                code: code.code,
                message,
            },
        },
{
    match outcome {
        HandlerOutcome::Success(params) => WsResponseValue::Immediate {
            method: ctx.method,
            seq: ctx.seq,
            params,
        },
        HandlerOutcome::Failure(code, message) => request_error_to_resp(ctx, code, message),
    }
}

/// Dispatches one decoded request to a matched endpoint: validates the body
/// against the schema, invokes the handler only on success, and encodes the
/// completed outcome. A body that fails validation answers a bad-request
/// error naming the offending field path, and the handler is never invoked;
/// every response carries the request's sequence number.
pub fn dispatch_request<H: RequestHandler>(
    endpoint: &Endpoint<H>,
    ctx: &RequestContext,
    body: &JsonValue,
) -> (r: WsResponseValue)
    ensures
        r.spec_seq() == Some(ctx.seq),
        match params_mismatch(endpoint.schema.parameters@, *body) {
            Some(path) => r matches WsResponseValue::Error { method, seq, code, message }
                && method == ctx.method && seq == ctx.seq && code == BAD_REQUEST_CODE && message@
                == bad_request_message(path),
            None => match r {
                WsResponseValue::Immediate { method, seq, .. } => method == ctx.method && seq
                    == ctx.seq,
                WsResponseValue::Error { method, seq, .. } => method == ctx.method && seq
                    == ctx.seq,
                WsResponseValue::Stream { .. } => false,
            },
        },
{
    match validate_params(&endpoint.schema, body) {
        Err(path) => {
            proof {
                reveal_strlit(": value does not match the endpoint schema");
            }
            let mut message = path;
            message.append(": value does not match the endpoint schema");
            request_error_to_resp(ctx, ErrorCode::new(BAD_REQUEST_CODE), message)
        },
        Ok(()) => {
            let outcome = endpoint.handler.handle(ctx, body);
            encode_response(ctx, outcome)
        },
    }
}

} // verus!
