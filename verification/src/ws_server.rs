use vstd::prelude::*;

use crate::config::WsServerConfig;
use crate::connection::WsConnection;
use crate::dispatch::dispatch_request;
use crate::handler::{RequestContext, RequestHandler};
use crate::json::{obj_get, JsonValue};
use crate::dispatch::bad_request_message;
use crate::registry::{coded_endpoint, has_code, has_name, DuplicateEndpoint, Endpoint, EndpointRegistry};
use crate::response::{WsResponseValue, BAD_REQUEST_CODE, NOT_FOUND_CODE};
use crate::schema::EndpointSchema;
use crate::text::{chars_vec, contains_chars, contains_seq};
use crate::validate::params_mismatch;
use crate::ServerError;

verus! {

/// The message of the error a name-convention check answers with.
pub open spec fn check_name_message(
    cat: Seq<char>,
    should_name: Seq<char>,
    be_name: Seq<char>,
) -> Seq<char> {
    cat + " name should be "@ + should_name + " but got "@ + be_name
}

/// Checks the naming convention of one category: the supplied name must
/// contain the expected one, else the check fails with a message naming both.
pub fn check_name(cat: &str, be_name: &str, should_name: &str) -> (r: Result<(), ServerError>)
    ensures
        match r {
            Ok(()) => contains_seq(be_name@, should_name@),
            Err(e) => !contains_seq(be_name@, should_name@) && e.message@ == check_name_message(
                cat@,
                should_name@,
                be_name@,
            ),
        },
{
    let hay = chars_vec(be_name);
    let needle = chars_vec(should_name);
    if contains_chars(&hay, &needle) {
        Ok(())
    } else {
        proof {
            reveal_strlit(" name should be ");
            reveal_strlit(" but got ");
        }
        let mut message = String::from_str(cat);
        message.append(" name should be ");
        message.append(should_name);
        message.append(" but got ");
        message.append(be_name);
        Err(ServerError { message })
    }
}

/// Validates the naming convention binding a handler to its schema: the
/// handler's type name must contain `Method<Name>` and its request type name
/// `<Name>Request`, for the schema's own name. A convention check, not a
/// structural guarantee.
pub fn check_handler(schema: &EndpointSchema, handler_name: &str, request_name: &str) -> (r: Result<
    (),
    ServerError,
>)
    ensures
        r is Ok <==> contains_seq(handler_name@, "Method"@ + schema.name@) && contains_seq(
            request_name@,
            schema.name@ + "Request"@,
        ),
{
    proof {
        reveal_strlit("Method");
        reveal_strlit("Request");
    }
    let mut should_handler = String::from_str("Method");
    should_handler.append(schema.name.as_str());
    check_name("Method", handler_name, should_handler.as_str())?;
    let mut should_request = schema.name.clone();
    should_request.append("Request");
    check_name("Request", request_name, should_request.as_str())?;
    Ok(())
}

/// Relies on tungstenite's `Error` implementing `Display`: the message text
/// of a transport error, for wrapping it into the library's error type.
#[verifier::external_body]
fn ws_error_text(err: &tokio_tungstenite::tungstenite::Error) -> String {
    err.to_string()
}

/// Declares tungstenite's `Error` so transport results can cross the
/// library's signatures; the value stays opaque.
#[verifier::external_type_specification]
#[verifier::external_body]
pub struct ExWsError(tokio_tungstenite::tungstenite::Error);

/// Wraps a transport-layer result into the library's error type; the success
/// value passes through unchanged.
pub fn wrap_ws_error<T>(err: Result<T, tokio_tungstenite::tungstenite::Error>) -> (r: Result<
    T,
    ServerError,
>)
    ensures
        r is Ok <==> err is Ok,
        r matches Ok(v) ==> err matches Ok(w) && v == w,
{
    match err {
        Ok(v) => Ok(v),
        Err(e) => {
            let message = ws_error_text(&e);
            Err(ServerError { message })
        },
    }
}

/// The authentication policy run once per connection after the transport
/// handshake: it may assign the connection's identity and role; failure must
/// keep the connection out of the registry.
pub trait AuthController {
    fn auth(&self, conn: &mut WsConnection, headers: &Vec<(String, String)>) -> Result<
        (),
        ServerError,
    >;
}

/// The trivial policy: every connection is accepted as a guest, nothing on
/// the connection changes.
pub struct SimpleAuthController;

impl AuthController for SimpleAuthController {
    fn auth(&self, conn: &mut WsConnection, headers: &Vec<(String, String)>) -> (r: Result<
        (),
        ServerError,
    >)
        ensures
            r is Ok,
            *final(conn) == *old(conn),
    {
        Ok(())
    }
}

/// The method code named by an inbound frame: frames are objects whose
/// `method` field holds the numeric endpoint code.
pub open spec fn frame_method(frame: JsonValue) -> Option<u32> {
    match frame {
        JsonValue::Obj(fs) => match obj_get(fs@, "method"@) {
            Some(m) => match m {
                JsonValue::Int(code) => if 0 <= code <= 0xffff_ffffi64 {
                    Some(code as u32)
                } else {
                    None
                },
                _ => None,
            },
            None => None,
        },
        _ => None,
    }
}

/// The request payload carried by an inbound frame: its `params` field, or
/// a null value when the field is absent.
pub open spec fn frame_params(frame: JsonValue) -> JsonValue {
    match frame {
        JsonValue::Obj(fs) => match obj_get(fs@, "params"@) {
            Some(p) => p,
            None => JsonValue::Null,
        },
        _ => JsonValue::Null,
    }
}

/// Reads the method code of a frame.
pub fn read_frame_method(frame: &JsonValue) -> (r: Option<u32>)
    ensures
        r == frame_method(*frame),
{
    match frame.get("method") {
        Some(m) => match m {
            JsonValue::Int(code) => {
                if 0i64 <= *code && *code <= 0xffff_ffffi64 {
                    Some(*code as u32)
                } else {
                    None
                }
            },
            _ => None,
        },
        None => None,
    }
}

/// The WebSocket server: its authentication policy, the endpoint registry
/// keyed by numeric method code, and its configuration.
pub struct WebsocketServer<A, H> {
    pub auth_controller: A,
    pub handlers: EndpointRegistry<H>,
    pub config: WsServerConfig,
}

impl<H> WebsocketServer<SimpleAuthController, H> {
    /// A server with the trivial authentication policy and no endpoints.
    pub fn new(config: WsServerConfig) -> (r: Self)
        ensures
            r.handlers.wf(),
            r.handlers.eps().len() == 0,
            r.config == config,
    {
        WebsocketServer {
            auth_controller: SimpleAuthController,
            handlers: EndpointRegistry::new(),
            config,
        }
    }
}

impl<A, H> WebsocketServer<A, H> {
    /// Replaces the authentication policy.
    pub fn set_auth_controller<A2>(self, controller: A2) -> (r: WebsocketServer<A2, H>)
        ensures
            r.auth_controller == controller,
            r.handlers == self.handlers,
            r.config == self.config,
    {
        WebsocketServer {
            auth_controller: controller,
            handlers: self.handlers,
            config: self.config,
        }
    }

    /// Registers a handler after checking the naming convention binding it
    /// to the schema; a name that breaks the convention, or a schema whose
    /// code or name is already taken, is a startup error and leaves the
    /// registry unchanged.
    pub fn add_handler(
        &mut self,
        schema: EndpointSchema,
        handler_name: &str,
        request_name: &str,
        handler: H,
    ) -> (r: Result<(), ServerError>)
        requires
            old(self).handlers.wf(),
        ensures
            final(self).handlers.wf(),
            final(self).config == old(self).config,
            final(self).auth_controller == old(self).auth_controller,
            r is Ok <==> {
                &&& contains_seq(handler_name@, "Method"@ + schema.name@)
                &&& contains_seq(request_name@, schema.name@ + "Request"@)
                &&& !has_code(old(self).handlers.eps(), schema.code)
                &&& !has_name(old(self).handlers.eps(), schema.name@)
            },
            r is Ok ==> final(self).handlers.eps() == old(self).handlers.eps().push(
                Endpoint { schema, handler },
            ),
            r is Err ==> final(self).handlers == old(self).handlers,
    {
        let ghost code = schema.code;
        let ghost name = schema.name@;
        check_handler(&schema, handler_name, request_name)?;
        match self.handlers.register(schema, handler) {
            Ok(()) => Ok(()),
            Err(dup) => Err(duplicate_error(dup)),
        }
    }

    /// Registers a handler under its schema without the naming check; a
    /// schema whose code or name is already taken is refused and the
    /// registry is unchanged.
    pub fn add_handler_erased(&mut self, schema: EndpointSchema, handler: H) -> (r: Result<
        (),
        DuplicateEndpoint,
    >)
        requires
            old(self).handlers.wf(),
        ensures
            final(self).handlers.wf(),
            final(self).config == old(self).config,
            final(self).auth_controller == old(self).auth_controller,
            r is Ok <==> !has_code(old(self).handlers.eps(), schema.code) && !has_name(
                old(self).handlers.eps(),
                schema.name@,
            ),
            r is Ok ==> final(self).handlers.eps() == old(self).handlers.eps().push(
                Endpoint { schema, handler },
            ),
            r is Err ==> final(self).handlers == old(self).handlers,
    {
        self.handlers.register(schema, handler)
    }

    /// The names of all registered endpoints, sorted ascending: what an
    /// endpoint dump writes out. A sorted permutation of the registered
    /// names.
    pub fn schema_names(&self) -> (r: Vec<String>)
        ensures
            r@.len() == self.handlers.eps().len(),
            r@.to_multiset() == Seq::new(
                self.handlers.eps().len(),
                |i: int| self.handlers.eps()[i].schema.name,
            ).to_multiset(),
            forall|i: int, j: int|
                #![trigger r@[i], r@[j]]
                0 <= i <= j < r@.len() ==> crate::text::seq_le(r@[i]@, r@[j]@),
    {
        let mut names: Vec<String> = Vec::new();
        let n = self.handlers.len();
        let mut i: usize = 0;
        while i < n
            invariant
                n == self.handlers.eps().len(),
                i <= n,
                names@.len() == i,
                forall|j: int|
                    0 <= j < i ==> #[trigger] names@[j]
                        == self.handlers.eps()[j].schema.name,
            decreases n - i,
        {
            names.push(self.handlers.endpoint_at(i).schema.name.clone());
            i += 1;
        }
        proof {
            assert(names@ =~= Seq::new(
                self.handlers.eps().len(),
                |i: int| self.handlers.eps()[i].schema.name,
            ));
        }
        crate::text::sort_strings(names)
    }
}

/// The message of the error refusing a duplicate registration.
fn duplicate_error(dup: DuplicateEndpoint) -> (r: ServerError)
    ensures
        r.message@ == "duplicate endpoint "@ + crate::text::dec_str(dup.code as nat) + " "@
            + dup.name@,
{
    proof {
        reveal_strlit("duplicate endpoint ");
        reveal_strlit(" ");
    }
    let mut message = String::from_str("duplicate endpoint ");
    crate::text::push_dec(dup.code as u64, &mut message);
    message.append(" ");
    message.append(dup.name.as_str());
    ServerError { message }
}

/// Handles one decoded frame of an active session: a frame that names no
/// method is answered with a bad-request error, an unregistered method code
/// with a structured not-found error that no handler ever sees, and a
/// registered one is dispatched; every answer carries the session's sequence
/// number for the frame.
pub fn handle_ws_frame<A, H: RequestHandler>(
    server: &WebsocketServer<A, H>,
    conn: &WsConnection,
    seq: u32,
    frame: &JsonValue,
) -> (r: WsResponseValue)
    ensures
        r.spec_seq() == Some(seq),
        !(r is Stream),
        frame_method(*frame) is None ==> (r matches WsResponseValue::Error {
            method,
            seq: s,
            code,
            ..
        } && method == 0 && s == seq && code == BAD_REQUEST_CODE),
        (frame_method(*frame) matches Some(m) && !has_code(server.handlers.eps(), m)) ==> (
        r matches WsResponseValue::Error { method, seq: s, code, .. } && method
            == frame_method(*frame).unwrap() && s == seq && code == NOT_FOUND_CODE),
        (frame_method(*frame) is Some && has_code(
            server.handlers.eps(),
            frame_method(*frame).unwrap(),
        )) ==> match r {
            WsResponseValue::Immediate { method, .. } => method == frame_method(*frame).unwrap(),
            WsResponseValue::Error { method, .. } => method == frame_method(*frame).unwrap(),
            WsResponseValue::Stream { .. } => false,
        },
        ({
            let eps = server.handlers.eps();
            (frame_method(*frame) is Some && has_code(eps, frame_method(*frame).unwrap())) ==> {
                let m = frame_method(*frame).unwrap();
                let e = coded_endpoint(eps, m).unwrap();
                match params_mismatch(e.schema.parameters@, frame_params(*frame)) {
                    Some(p) => r matches WsResponseValue::Error { method, seq: s, code, message }
                        && method == m && s == seq && code == BAD_REQUEST_CODE && message@
                        == bad_request_message(p),
                    None => true,
                }
            }
        }),
{
    proof {
        reveal_strlit("the frame names no method");
        reveal_strlit("endpoint not found");
    }
    let method = match read_frame_method(frame) {
        Some(m) => m,
        None => {
            return WsResponseValue::Error {
                method: 0,
                seq,
                code: BAD_REQUEST_CODE,
                message: String::from_str("the frame names no method"),
            };
        },
    };
    let endpoint = match server.handlers.lookup_code(method) {
        Some(e) => e,
        None => {
            return WsResponseValue::Error {
                method,
                seq,
                code: NOT_FOUND_CODE,
                message: String::from_str("endpoint not found"),
            };
        },
    };
    let ctx = RequestContext {
        connection_id: conn.connection_id,
        user_id: conn.get_user_id(),
        seq,
        method,
        log_id: conn.log_id,
        role: conn.role,
        ip_addr: crate::text::host_of(conn.address.as_str()),
    };
    let null_params = JsonValue::Null;
    let params = match frame.get("params") {
        Some(p) => p,
        None => &null_params,
    };
    dispatch_request(endpoint, &ctx, params)
}

} // verus!
