use std::cell::Cell;
use std::rc::Rc;

use endpoint_gen::dispatch::dispatch_request;
use endpoint_gen::handler::{HandlerOutcome, RequestContext, RequestHandler};
use endpoint_gen::json::JsonValue;
use endpoint_gen::registry::{Endpoint, EndpointRegistry};
use endpoint_gen::schema::{EndpointSchema, Field, Type};
use endpoint_gen::response::WsResponseValue;
use endpoint_gen::ws_server::{handle_ws_frame, WebsocketServer};
use endpoint_gen::config::WsServerConfig;

fn config() -> WsServerConfig {
    WsServerConfig {
        name: "test".to_string(),
        address: "127.0.0.1:0".to_string(),
        pub_certs: None,
        priv_key: None,
        debug: false,
        header_only: false,
        allow_cors_urls: None,
    }
}

fn field(name: &str, ty: Type) -> Field {
    Field {
        name: name.to_string(),
        ty,
        description: String::new(),
    }
}

fn authorize_schema() -> EndpointSchema {
    EndpointSchema {
        name: "Authorize".to_string(),
        code: 10030,
        parameters: vec![
            field("username", Type::Text),
            field("token", Type::UUID),
            field("service", Type::EnumRef("service".to_string())),
            field("device_id", Type::Text),
            field("device_os", Type::Text),
        ],
        returns: vec![field("success", Type::Boolean)],
        stream_response: None,
        description: String::new(),
        roles: vec![],
    }
}

/// Converts a parsed serde_json value into the library's JSON model.
fn to_json_value(v: &serde_json::Value) -> JsonValue {
    match v {
        serde_json::Value::Null => JsonValue::Null,
        serde_json::Value::Bool(b) => JsonValue::Bool(*b),
        serde_json::Value::Number(n) => JsonValue::Int(n.as_i64().expect("integral number")),
        serde_json::Value::String(s) => JsonValue::Str(s.clone()),
        serde_json::Value::Array(items) => {
            JsonValue::Arr(items.iter().map(to_json_value).collect())
        }
        serde_json::Value::Object(fields) => JsonValue::Obj(
            fields
                .iter()
                .map(|(k, v)| (k.clone(), to_json_value(v)))
                .collect(),
        ),
    }
}

/// Converts the library's JSON model back to a serde_json value.
fn from_json_value(v: &JsonValue) -> serde_json::Value {
    match v {
        JsonValue::Null => serde_json::Value::Null,
        JsonValue::Bool(b) => serde_json::Value::Bool(*b),
        JsonValue::Int(i) => serde_json::Value::from(*i),
        JsonValue::Str(s) => serde_json::Value::String(s.clone()),
        JsonValue::Arr(items) => {
            serde_json::Value::Array(items.iter().map(from_json_value).collect())
        }
        JsonValue::Obj(fields) => serde_json::Value::Object(
            fields
                .iter()
                .map(|(k, v)| (k.clone(), from_json_value(v)))
                .collect(),
        ),
    }
}

struct CountingHandler {
    calls: Rc<Cell<u32>>,
    result: bool,
}

impl RequestHandler for CountingHandler {
    fn handle(&self, _ctx: &RequestContext, _req: &JsonValue) -> HandlerOutcome {
        self.calls.set(self.calls.get() + 1);
        HandlerOutcome::Success(JsonValue::Obj(vec![(
            "success".to_string(),
            JsonValue::Bool(self.result),
        )]))
    }
}

fn context(seq: u32, method: u32) -> RequestContext {
    RequestContext {
        connection_id: 7,
        user_id: 0,
        seq,
        method,
        log_id: 42,
        role: 0,
        ip_addr: "127.0.0.1".to_string(),
    }
}

#[test]
fn duplicate_code_fails_at_registration() {
    let calls = Rc::new(Cell::new(0));
    let mut reg: EndpointRegistry<CountingHandler> = EndpointRegistry::new();
    reg.register(
        authorize_schema(),
        CountingHandler { calls: calls.clone(), result: true },
    )
    .expect("first registration succeeds");
    let mut other = authorize_schema();
    other.name = "Other".to_string();
    let err = reg
        .register(other, CountingHandler { calls: calls.clone(), result: true })
        .expect_err("same code must be rejected");
    assert_eq!(err.code, 10030);
    assert_eq!(reg.len(), 1);
}

#[test]
fn duplicate_name_fails_at_registration() {
    let calls = Rc::new(Cell::new(0));
    let mut reg: EndpointRegistry<CountingHandler> = EndpointRegistry::new();
    reg.register(
        authorize_schema(),
        CountingHandler { calls: calls.clone(), result: true },
    )
    .expect("first registration succeeds");
    let mut other = authorize_schema();
    other.code = 10031;
    let err = reg
        .register(other, CountingHandler { calls: calls.clone(), result: true })
        .expect_err("same name must be rejected");
    assert_eq!(&err.name, "Authorize");
    assert_eq!(reg.len(), 1);
}

#[test]
fn missing_required_field_is_bad_request_and_handler_never_runs() {
    let calls = Rc::new(Cell::new(0));
    let endpoint = Endpoint {
        schema: authorize_schema(),
        handler: CountingHandler { calls: calls.clone(), result: true },
    };
    let body = to_json_value(&serde_json::from_str(
        r#"{"username":"a","service":"guest","deviceId":"d1","deviceOs":"ios"}"#,
    ).unwrap());
    let ctx = context(1, 10030);
    let resp = dispatch_request(&endpoint, &ctx, &body);
    match resp {
        WsResponseValue::Error { method, seq, code, message } => {
            assert_eq!(method, 10030);
            assert_eq!(seq, 1);
            assert_eq!(code, 100400);
            assert!(message.contains("token"), "message must name the path: {message}");
        }
        _ => panic!("expected a bad-request error"),
    }
    assert_eq!(calls.get(), 0, "handler must never run on a bad request");
}

#[test]
fn nested_mismatch_path_is_dotted_and_indexed() {
    let calls = Rc::new(Cell::new(0));
    let schema = EndpointSchema {
        name: "Nested".to_string(),
        code: 1,
        parameters: vec![field(
            "entries",
            Type::List(Box::new(Type::Struct {
                name: "Entry".to_string(),
                fields: vec![field("device_id", Type::Text)],
            })),
        )],
        returns: vec![],
        stream_response: None,
        description: String::new(),
        roles: vec![],
    };
    let endpoint = Endpoint {
        schema,
        handler: CountingHandler { calls: calls.clone(), result: true },
    };
    let body = to_json_value(&serde_json::from_str(
        r#"{"entries":[{"deviceId":"a"},{"deviceId":5}]}"#,
    ).unwrap());
    let ctx = context(3, 1);
    match dispatch_request(&endpoint, &ctx, &body) {
        WsResponseValue::Error { message, .. } => {
            assert!(
                message.starts_with("entries[1].deviceId"),
                "unexpected path in: {message}"
            );
        }
        _ => panic!("expected a bad-request error"),
    }
    assert_eq!(calls.get(), 0);
}

#[test]
fn unregistered_method_is_not_found_and_no_handler_runs() {
    let calls = Rc::new(Cell::new(0));
    let mut server = WebsocketServer::new(config());
    server
        .add_handler_erased(
            authorize_schema(),
            CountingHandler { calls: calls.clone(), result: true },
        )
        .expect("registration succeeds");
    let conn = endpoint_gen::connection::WsConnection::new(9, "10.0.0.1:1".to_string(), 5);
    let frame = to_json_value(&serde_json::from_str(
        r#"{"method":99999,"params":{}}"#,
    ).unwrap());
    match handle_ws_frame(&server, &conn, 4, &frame) {
        WsResponseValue::Error { method, seq, code, .. } => {
            assert_eq!(method, 99999);
            assert_eq!(seq, 4);
            assert_eq!(code, 100404);
        }
        _ => panic!("expected a structured not-found error"),
    }
    assert_eq!(calls.get(), 0, "an unmatched request must not reach any handler");
}

#[test]
fn authorize_end_to_end_invokes_handler_once_and_correlates_seq() {
    let calls = Rc::new(Cell::new(0));
    let mut server = WebsocketServer::new(config());
    server
        .add_handler(
            authorize_schema(),
            "app::MethodAuthorize",
            "model::AuthorizeRequest",
            CountingHandler { calls: calls.clone(), result: true },
        )
        .expect("registration succeeds");
    let conn = endpoint_gen::connection::WsConnection::new(9, "10.0.0.1:1".to_string(), 5);
    let frame = to_json_value(&serde_json::from_str(
        r#"{"method":10030,"params":{"username":"a","token":"3fa85f64-5717-4562-b3fc-2c963f66afa6","service":"guest","deviceId":"d1","deviceOs":"ios"}}"#,
    ).unwrap());
    let resp = handle_ws_frame(&server, &conn, 17, &frame);
    assert_eq!(calls.get(), 1, "the handler must run exactly once");
    match resp {
        WsResponseValue::Immediate { method, seq, params } => {
            assert_eq!(method, 10030);
            assert_eq!(seq, 17, "the response must carry the request's sequence number");
            let text = serde_json::to_string(&from_json_value(&params)).unwrap();
            assert_eq!(text, r#"{"success":true}"#);
        }
        _ => panic!("expected an immediate success response"),
    }
}

#[test]
fn handler_convention_checked_at_registration() {
    let calls = Rc::new(Cell::new(0));
    let mut server = WebsocketServer::new(config());
    let err = server
        .add_handler(
            authorize_schema(),
            "app::MethodLogin",
            "model::AuthorizeRequest",
            CountingHandler { calls: calls.clone(), result: true },
        )
        .expect_err("a handler name that breaks the convention is refused");
    assert_eq!(
        &err.message,
        "Method name should be MethodAuthorize but got app::MethodLogin"
    );
    assert_eq!(server.handlers.len(), 0);
}

#[test]
fn frame_without_method_is_bad_request() {
    let calls = Rc::new(Cell::new(0));
    let mut server = WebsocketServer::new(config());
    server
        .add_handler_erased(
            authorize_schema(),
            CountingHandler { calls: calls.clone(), result: true },
        )
        .expect("registration succeeds");
    let conn = endpoint_gen::connection::WsConnection::new(9, "10.0.0.1:1".to_string(), 5);
    let frame = to_json_value(&serde_json::from_str(r#"{"params":{}}"#).unwrap());
    match handle_ws_frame(&server, &conn, 2, &frame) {
        WsResponseValue::Error { method, seq, code, .. } => {
            assert_eq!(method, 0);
            assert_eq!(seq, 2);
            assert_eq!(code, 100400);
        }
        _ => panic!("expected a bad-request error"),
    }
    assert_eq!(calls.get(), 0);
}

#[test]
fn schema_names_lists_registered_endpoints_sorted() {
    let calls = Rc::new(Cell::new(0));
    let mut server = WebsocketServer::new(config());
    let mut logout = authorize_schema();
    logout.code = 10031;
    logout.name = "Logout".to_string();
    server
        .add_handler_erased(logout, CountingHandler { calls: calls.clone(), result: true })
        .expect("registration succeeds");
    server
        .add_handler_erased(
            authorize_schema(),
            CountingHandler { calls: calls.clone(), result: true },
        )
        .expect("registration succeeds");
    let mut bye = authorize_schema();
    bye.code = 10032;
    bye.name = "Bye".to_string();
    server
        .add_handler_erased(bye, CountingHandler { calls: calls.clone(), result: true })
        .expect("registration succeeds");
    // The dump lists the names sorted ascending, not in registration order.
    assert_eq!(
        server.schema_names(),
        vec!["Authorize".to_string(), "Bye".to_string(), "Logout".to_string()]
    );
}
