use vstd::prelude::*;

use crate::handler::RequestContext;
use crate::json::JsonValue;
use crate::ErrorCode;

verus! {

/// The numeric code carried by a response to a request whose body failed
/// schema validation.
pub const BAD_REQUEST_CODE: u32 = 100400;

/// The numeric code carried by a response to a request whose method is not
/// registered.
pub const NOT_FOUND_CODE: u32 = 100404;

/// A response value on its way out: an immediate success payload, a
/// structured error, or a server-initiated streaming payload. Produced by the
/// dispatch pipeline, consumed by the delivery path.
pub enum WsResponseValue {
    Immediate { method: u32, seq: u32, params: JsonValue },
    Error { method: u32, seq: u32, code: u32, message: String },
    Stream { method: u32, params: JsonValue },
}

impl WsResponseValue {
    /// The sequence number a peer correlates this response by; a stream
    /// payload answers no particular request.
    pub open spec fn spec_seq(&self) -> Option<u32> {
        match self {
            WsResponseValue::Immediate { seq, .. } => Some(*seq),
            WsResponseValue::Error { seq, .. } => Some(*seq),
            WsResponseValue::Stream { .. } => None,
        }
    }
}

/// The structured error response answering the request described by `ctx`,
/// correlated to the request's sequence number.
pub fn request_error_to_resp(ctx: &RequestContext, code: ErrorCode, message: String) -> (r:
    WsResponseValue)
    ensures
        r == (WsResponseValue::Error {
            method: ctx.method,
            seq: ctx.seq,
            code: code.code,
            message,
        }),
{
    WsResponseValue::Error { method: ctx.method, seq: ctx.seq, code: code.code, message }
}

/// The JSON frame shape of an outbound structured error: an object carrying
/// the method code, the correlation sequence number, the error code and the
/// message text.
pub open spec fn error_frame_ok(
    frame: JsonValue,
    method: u32,
    seq: u32,
    code: u32,
    message: Seq<char>,
) -> bool {
    frame matches JsonValue::Obj(fs) && fs@.len() == 4 && fs@[0].0@ == "method"@ && fs@[0].1
        == JsonValue::Int(method as i64) && fs@[1].0@ == "seq"@ && fs@[1].1 == JsonValue::Int(
        seq as i64,
    ) && fs@[2].0@ == "code"@ && fs@[2].1 == JsonValue::Int(code as i64) && fs@[3].0@ == "message"@
        && (fs@[3].1 matches JsonValue::Str(m) && m@ == message)
}

/// The JSON frame shape of an outbound response: an object carrying the
/// method code, the correlation sequence number where one exists, and the
/// payload or the error fields.
pub open spec fn response_frame_ok(resp: WsResponseValue, frame: JsonValue) -> bool {
    match resp {
        WsResponseValue::Immediate { method, seq, params } => frame matches JsonValue::Obj(fs)
            && fs@.len() == 3 && fs@[0].0@ == "method"@ && fs@[0].1 == JsonValue::Int(
            method as i64,
        ) && fs@[1].0@ == "seq"@ && fs@[1].1 == JsonValue::Int(seq as i64) && fs@[2].0@
            == "params"@ && fs@[2].1 == params,
        WsResponseValue::Error { method, seq, code, message } => error_frame_ok(
            frame,
            method,
            seq,
            code,
            message@,
        ),
        WsResponseValue::Stream { method, params } => frame matches JsonValue::Obj(fs) && fs@.len()
            == 2 && fs@[0].0@ == "method"@ && fs@[0].1 == JsonValue::Int(method as i64) && fs@[1].0@
            == "params"@ && fs@[1].1 == params,
    }
}

/// Encodes a response value as the JSON object written to the wire.
pub fn response_to_json(resp: WsResponseValue) -> (frame: JsonValue)
    ensures
        response_frame_ok(resp, frame),
{
    match resp {
        WsResponseValue::Immediate { method, seq, params } => {
            let mut fields: Vec<(String, JsonValue)> = Vec::new();
            fields.push((String::from_str("method"), JsonValue::Int(method as i64)));
            fields.push((String::from_str("seq"), JsonValue::Int(seq as i64)));
            fields.push((String::from_str("params"), params));
            JsonValue::Obj(fields)
        },
        WsResponseValue::Error { method, seq, code, message } => {
            let mut fields: Vec<(String, JsonValue)> = Vec::new();
            fields.push((String::from_str("method"), JsonValue::Int(method as i64)));
            fields.push((String::from_str("seq"), JsonValue::Int(seq as i64)));
            fields.push((String::from_str("code"), JsonValue::Int(code as i64)));
            fields.push((String::from_str("message"), JsonValue::Str(message)));
            JsonValue::Obj(fields)
        },
        WsResponseValue::Stream { method, params } => {
            let mut fields: Vec<(String, JsonValue)> = Vec::new();
            fields.push((String::from_str("method"), JsonValue::Int(method as i64)));
            fields.push((String::from_str("params"), params));
            JsonValue::Obj(fields)
        },
    }
}

} // verus!
