use vstd::prelude::*;

use crate::config::WsServerConfig;
use crate::connection::WsConnection;
use crate::dispatch::dispatch_request;
use crate::handler::{RequestContext, RequestHandler};
use crate::json::JsonValue;
use crate::dispatch::bad_request_message;
use crate::registry::{has_code, has_name, named_endpoint, DuplicateEndpoint, Endpoint, EndpointRegistry};
use crate::response::{error_frame_ok, response_frame_ok, response_to_json, WsResponseValue, BAD_REQUEST_CODE};
use crate::schema::EndpointSchema;
use crate::text::dec_str;
use crate::validate::params_mismatch;
use crate::ws_server::check_handler;
use crate::ServerError;

verus! {

/// The body of an HTTP answer: a JSON document to serialize, or plain text.
pub enum HttpBody {
    Json(JsonValue),
    Text(String),
}

/// One HTTP answer: its status code and its body.
pub struct HttpResponse {
    pub status: u16,
    pub body: HttpBody,
}

/// The plain-text body of the answer to an unregistered path.
pub open spec fn not_found_text(path: Seq<char>) -> Seq<char> {
    "Endpoint "@ + path + " not found"@
}

/// The plain-text body of the answer to an unhandled internal failure,
/// carrying the connection's correlation id for operator cross-referencing.
pub open spec fn internal_error_text(log_id: nat) -> Seq<char> {
    "Internal Server Error: log_id="@ + dec_str(log_id)
}

/// Builds the internal-failure body for a connection's correlation id.
pub fn internal_error_body(log_id: u64) -> (r: String)
    ensures
        r@ == internal_error_text(log_id as nat),
{
    proof {
        reveal_strlit("Internal Server Error: log_id=");
    }
    let mut s = String::from_str("Internal Server Error: log_id=");
    crate::text::push_dec(log_id, &mut s);
    s
}

/// How a completed dispatch answers over HTTP: a success payload is the
/// whole 200 body; a structured error, or a stream payload no single request
/// can consume, is serialized as the 400 body — business failures travel
/// in-band on the same channel a success would use.
pub open spec fn http_answer_rel(resp: WsResponseValue, r: HttpResponse) -> bool {
    match resp {
        WsResponseValue::Immediate { params, .. } => r.status == 200 && r.body == HttpBody::Json(
            params,
        ),
        WsResponseValue::Error { .. } => r.status == 400 && (r.body matches HttpBody::Json(frame)
            && response_frame_ok(resp, frame)),
        WsResponseValue::Stream { .. } => r.status == 400 && (r.body matches HttpBody::Json(frame)
            && response_frame_ok(resp, frame)),
    }
}

/// Renders a completed dispatch as the HTTP answer `http_answer_rel`
/// prescribes for it.
pub fn http_answer(resp: WsResponseValue) -> (r: HttpResponse)
    ensures
        http_answer_rel(resp, r),
{
    match resp {
        WsResponseValue::Immediate { params, .. } => HttpResponse {
            status: 200,
            body: HttpBody::Json(params),
        },
        WsResponseValue::Error { .. } => HttpResponse {
            status: 400,
            body: HttpBody::Json(response_to_json(resp)),
        },
        WsResponseValue::Stream { .. } => HttpResponse {
            status: 400,
            body: HttpBody::Json(response_to_json(resp)),
        },
    }
}

/// The HTTP server: the endpoint registry keyed by endpoint name — the
/// request path — and its configuration. Each accepted connection serves one
/// request/response pair.
pub struct HttpServer<H> {
    pub handlers: EndpointRegistry<H>,
    pub config: WsServerConfig,
}

impl<H> HttpServer<H> {
    /// A server with no endpoints.
    pub fn new(config: WsServerConfig) -> (r: Self)
        ensures
            r.handlers.wf(),
            r.handlers.eps().len() == 0,
            r.config == config,
    {
        HttpServer { handlers: EndpointRegistry::new(), config }
    }

    /// Registers a handler after checking the naming convention binding it
    /// to the schema; a broken convention or a duplicate code or name is a
    /// startup error and leaves the registry unchanged.
    pub fn add_handler(
        &mut self,
        schema: EndpointSchema,
        handler_name: &str,
        request_name: &str,
        handler: H,
    ) -> (r: Result<(), ServerError>)
        requires
            old(self).handlers.wf(),
        ensures
            final(self).handlers.wf(),
            final(self).config == old(self).config,
            r is Ok <==> {
                &&& crate::text::contains_seq(handler_name@, "Method"@ + schema.name@)
                &&& crate::text::contains_seq(request_name@, schema.name@ + "Request"@)
                &&& !has_code(old(self).handlers.eps(), schema.code)
                &&& !has_name(old(self).handlers.eps(), schema.name@)
            },
            r is Ok ==> final(self).handlers.eps() == old(self).handlers.eps().push(
                Endpoint { schema, handler },
            ),
            r is Err ==> final(self).handlers == old(self).handlers,
    {
        check_handler(&schema, handler_name, request_name)?;
        match self.handlers.register(schema, handler) {
            Ok(()) => Ok(()),
            Err(dup) => {
                proof {
                    reveal_strlit("duplicate endpoint ");
                }
                let mut message = String::from_str("duplicate endpoint ");
                message.append(dup.name.as_str());
                Err(ServerError { message })
            },
        }
    }

    /// Registers a handler under its schema without the naming check; a
    /// duplicate code or name is refused and the registry is unchanged.
    pub fn add_handler_erased(&mut self, schema: EndpointSchema, handler: H) -> (r: Result<
        (),
        DuplicateEndpoint,
    >)
        requires
            old(self).handlers.wf(),
        ensures
            final(self).handlers.wf(),
            final(self).config == old(self).config,
            r is Ok <==> !has_code(old(self).handlers.eps(), schema.code) && !has_name(
                old(self).handlers.eps(),
                schema.name@,
            ),
            r is Ok ==> final(self).handlers.eps() == old(self).handlers.eps().push(
                Endpoint { schema, handler },
            ),
            r is Err ==> final(self).handlers == old(self).handlers,
    {
        self.handlers.register(schema, handler)
    }
}

impl<H: RequestHandler> HttpServer<H> {
    /// Serves one request: `path` is the request path with the leading slash
    /// trimmed, `body` the result of reading and parsing the body as JSON.
    /// An unregistered path answers 404 with a plain-text body naming it and
    /// no handler runs; a body that did not parse answers 400 carrying the
    /// parse error text; a dispatched request answers 200 with the success
    /// payload or 400 with the serialized structured error — all failures
    /// in-band on the same channel a success would use.
    pub fn handle_request(&self, conn: &WsConnection, seq: u32, path: &str, body: Result<
        JsonValue,
        String,
    >) -> (r: HttpResponse)
        ensures
            !has_name(self.handlers.eps(), path@) ==> r.status == 404 && (
            r.body matches HttpBody::Text(t) && t@ == not_found_text(path@)),
            has_name(self.handlers.eps(), path@) && body is Err ==> r.status == 400 && (
            r.body matches HttpBody::Text(t) && body matches Err(e) && t == e),
            has_name(self.handlers.eps(), path@) && body is Ok ==> (r.status == 200 || r.status
                == 400) && r.body is Json,
            ({
                let eps = self.handlers.eps();
                has_name(eps, path@) && body is Ok ==> {
                    let e = named_endpoint(eps, path@).unwrap();
                    match params_mismatch(e.schema.parameters@, body.unwrap()) {
                        Some(p) => r.status == 400 && (r.body matches HttpBody::Json(frame)
                            && error_frame_ok(
                            frame,
                            e.schema.code,
                            seq,
                            BAD_REQUEST_CODE,
                            bad_request_message(p),
                        )),
                        None => true,
                    }
                }
            }),
            ({
                let eps = self.handlers.eps();
                has_name(eps, path@) && body is Ok ==> exists|resp: WsResponseValue|
                    {
                        &&& #[trigger] http_answer_rel(resp, r)
                        &&& resp.spec_seq() == Some(seq)
                        &&& !(resp is Stream)
                        &&& match resp {
                            WsResponseValue::Immediate { method, .. } => method == named_endpoint(
                                eps,
                                path@,
                            ).unwrap().schema.code,
                            WsResponseValue::Error { method, .. } => method == named_endpoint(
                                eps,
                                path@,
                            ).unwrap().schema.code,
                            WsResponseValue::Stream { .. } => false,
                        }
                    }
            }),
    {
        let endpoint = match self.handlers.lookup_name(path) {
            Some(e) => e,
            None => {
                proof {
                    reveal_strlit("Endpoint ");
                    reveal_strlit(" not found");
                }
                let mut t = String::from_str("Endpoint ");
                t.append(path);
                t.append(" not found");
                return HttpResponse { status: 404, body: HttpBody::Text(t) };
            },
        };
        let req = match body {
            Ok(v) => v,
            Err(e) => {
                return HttpResponse { status: 400, body: HttpBody::Text(e) };
            },
        };
        let ctx = RequestContext {
            connection_id: conn.connection_id,
            user_id: conn.get_user_id(),
            seq,
            method: endpoint.schema.code,
            log_id: conn.log_id,
            role: conn.role,
            ip_addr: crate::text::host_of(conn.address.as_str()),
        };
        let resp = dispatch_request(endpoint, &ctx, &req);
        let ghost gresp = resp;
        let answer = http_answer(resp);
        proof {
            assert(http_answer_rel(gresp, answer));
        }
        answer
    }
}

} // verus!
