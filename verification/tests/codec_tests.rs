use endpoint_gen::config::WsServerConfig;
use endpoint_gen::docs::default_error_messages;
use endpoint_gen::gen::collect_rust_recursive_types;
use endpoint_gen::handler::{HandlerOutcome, RequestContext, RequestHandler};
use endpoint_gen::http_server::{internal_error_body, HttpBody, HttpServer};
use endpoint_gen::json::JsonValue;
use endpoint_gen::response::{response_to_json, WsResponseValue};
use endpoint_gen::schema::{camel_case, EndpointSchema, Field, Type};
use endpoint_gen::service::get_systemd_service;
use endpoint_gen::text::{dec_string, to_ascii_lowercase};
use endpoint_gen::utils::{encode_header, get_time_milliseconds, get_time_seconds, hex_decode, HexError};
use endpoint_gen::ws_server::{check_name, wrap_ws_error};

fn config() -> WsServerConfig {
    WsServerConfig {
        name: "t".to_string(),
        address: "127.0.0.1:0".to_string(),
        pub_certs: None,
        priv_key: None,
        debug: false,
        header_only: false,
        allow_cors_urls: None,
    }
}

struct EchoHandler;

impl RequestHandler for EchoHandler {
    fn handle(&self, _ctx: &RequestContext, req: &JsonValue) -> HandlerOutcome {
        match req {
            JsonValue::Obj(_) => HandlerOutcome::Success(JsonValue::Obj(vec![(
                "ok".to_string(),
                JsonValue::Bool(true),
            )])),
            _ => HandlerOutcome::Failure(
                endpoint_gen::ErrorCode::new(100400),
                "not an object".to_string(),
            ),
        }
    }
}

fn ping_schema() -> EndpointSchema {
    EndpointSchema {
        name: "Ping".to_string(),
        code: 1,
        parameters: vec![Field {
            name: "note".to_string(),
            ty: Type::Text,
            description: String::new(),
        }],
        returns: vec![],
        stream_response: None,
        description: String::new(),
        roles: vec![],
    }
}

#[test]
fn http_unknown_path_is_404_with_exact_text() {
    let server: HttpServer<EchoHandler> = HttpServer::new(config());
    let conn = endpoint_gen::connection::WsConnection::new(1, "a".to_string(), 2);
    let resp = server.handle_request(&conn, 1, "Missing", Ok(JsonValue::Obj(vec![])));
    assert_eq!(resp.status, 404);
    match resp.body {
        HttpBody::Text(t) => assert_eq!(t, "Endpoint Missing not found"),
        _ => panic!("a 404 carries plain text"),
    }
}

#[test]
fn http_parse_failure_is_400_with_parse_text() {
    let mut server: HttpServer<EchoHandler> = HttpServer::new(config());
    server.add_handler_erased(ping_schema(), EchoHandler).unwrap();
    let conn = endpoint_gen::connection::WsConnection::new(1, "a".to_string(), 2);
    let resp = server.handle_request(&conn, 1, "Ping", Err("boom at line 1".to_string()));
    assert_eq!(resp.status, 400);
    match resp.body {
        HttpBody::Text(t) => assert_eq!(t, "boom at line 1"),
        _ => panic!("a parse failure carries the parser's text"),
    }
}

#[test]
fn http_success_is_200_with_payload() {
    let mut server: HttpServer<EchoHandler> = HttpServer::new(config());
    server.add_handler_erased(ping_schema(), EchoHandler).unwrap();
    let conn = endpoint_gen::connection::WsConnection::new(1, "a".to_string(), 2);
    let body = JsonValue::Obj(vec![("note".to_string(), JsonValue::Str("hi".to_string()))]);
    let resp = server.handle_request(&conn, 1, "Ping", Ok(body));
    assert_eq!(resp.status, 200);
    assert!(matches!(resp.body, HttpBody::Json(JsonValue::Obj(_))));
}

#[test]
fn internal_error_text_names_log_id() {
    assert_eq!(internal_error_body(42), "Internal Server Error: log_id=42");
}

#[test]
fn response_frame_carries_correlation_fields() {
    let frame = response_to_json(WsResponseValue::Error {
        method: 7,
        seq: 9,
        code: 100400,
        message: "m".to_string(),
    });
    match frame {
        JsonValue::Obj(fields) => {
            assert_eq!(fields.len(), 4);
            assert_eq!(fields[0].0, "method");
            assert!(matches!(fields[0].1, JsonValue::Int(7)));
            assert_eq!(fields[1].0, "seq");
            assert!(matches!(fields[1].1, JsonValue::Int(9)));
            assert_eq!(fields[2].0, "code");
            assert!(matches!(fields[2].1, JsonValue::Int(100400)));
            assert_eq!(fields[3].0, "message");
        }
        _ => panic!("a frame is an object"),
    }
}

#[test]
fn hex_decode_accepts_prefix_and_reports_errors() {
    assert_eq!(hex_decode(b"0xdeadBEEF").unwrap(), vec![0xde, 0xad, 0xbe, 0xef]);
    assert_eq!(hex_decode(b"6b697769").unwrap(), b"kiwi".to_vec());
    assert!(matches!(hex_decode(b"abc"), Err(HexError::OddLength)));
    match hex_decode(b"0xag") {
        Err(HexError::InvalidHexCharacter { c, index }) => {
            assert_eq!(c, 'g');
            assert_eq!(index, 1);
        }
        _ => panic!("an invalid digit must be named"),
    }
}

#[test]
fn encode_header_renders_positions_and_values() {
    let schema = EndpointSchema {
        name: "Authorize".to_string(),
        code: 10030,
        parameters: vec![
            Field { name: "username".to_string(), ty: Type::Text, description: String::new() },
            Field { name: "device_id".to_string(), ty: Type::Text, description: String::new() },
            Field { name: "count".to_string(), ty: Type::Int, description: String::new() },
            Field {
                name: "note".to_string(),
                ty: Type::Optional(Box::new(Type::Text)),
                description: String::new(),
            },
        ],
        returns: vec![],
        stream_response: None,
        description: String::new(),
        roles: vec![],
    };
    let v = JsonValue::Obj(vec![
        ("username".to_string(), JsonValue::Str("a b".to_string())),
        ("deviceId".to_string(), JsonValue::Str("d1".to_string())),
        ("count".to_string(), JsonValue::Int(-3)),
        ("note".to_string(), JsonValue::Null),
    ]);
    let header = encode_header(&v, &schema).expect("all parameters are present");
    assert_eq!(header, "0authorize, 1a%20b, 2d1, 3-3");

    let missing = JsonValue::Obj(vec![("username".to_string(), JsonValue::Str("a".to_string()))]);
    let err = encode_header(&missing, &schema).expect_err("a parameter key is absent");
    assert_eq!(err.message, "key: deviceId");
}

#[test]
fn encode_header_renders_nested_values_as_quoteless_json() {
    let schema = EndpointSchema {
        name: "Tag".to_string(),
        code: 2,
        parameters: vec![Field {
            name: "tags".to_string(),
            ty: Type::List(Box::new(Type::Text)),
            description: String::new(),
        }],
        returns: vec![],
        stream_response: None,
        description: String::new(),
        roles: vec![],
    };
    let v = JsonValue::Obj(vec![(
        "tags".to_string(),
        JsonValue::Arr(vec![
            JsonValue::Str("a".to_string()),
            JsonValue::Str("b".to_string()),
        ]),
    )]);
    // The value's JSON text with quotes removed is `[a,b]`, then url-encoded.
    let header = encode_header(&v, &schema).expect("the parameter is present");
    assert_eq!(header, "0tag, 1%5Ba%2Cb%5D");
}

#[test]
fn render_json_matches_the_reference_serializer() {
    let v = JsonValue::Obj(vec![
        ("a".to_string(), JsonValue::Str("x\"y\n".to_string())),
        (
            "b".to_string(),
            JsonValue::Arr(vec![JsonValue::Int(-7), JsonValue::Null, JsonValue::Bool(true)]),
        ),
        ("c".to_string(), JsonValue::Obj(vec![])),
        ("d".to_string(), JsonValue::Str("\u{1}".to_string())),
    ]);
    let rendered = endpoint_gen::json::render_json(&v);
    assert_eq!(
        rendered,
        "{\"a\":\"x\\\"y\\n\",\"b\":[-7,null,true],\"c\":{},\"d\":\"\\u0001\"}"
    );
    // The reference serializer agrees: parsing the rendered text and writing
    // it back reproduces it exactly.
    let parsed: serde_json::Value = serde_json::from_str(&rendered).unwrap();
    assert_eq!(serde_json::to_string(&parsed).unwrap(), rendered);
}

#[test]
fn camel_case_matches_wire_keys() {
    assert_eq!(camel_case("device_id"), "deviceId");
    assert_eq!(camel_case("token"), "token");
}

#[test]
fn text_helpers_render_exactly() {
    assert_eq!(dec_string(0), "0");
    assert_eq!(dec_string(10030), "10030");
    assert_eq!(to_ascii_lowercase("AuthOrize9"), "authorize9");
}

#[test]
fn check_name_reports_exact_message() {
    assert!(check_name("Method", "app::MethodAuthorize", "MethodAuthorize").is_ok());
    let err = check_name("Request", "LoginRequest", "AuthorizeRequest").unwrap_err();
    assert_eq!(
        err.message,
        "Request name should be AuthorizeRequest but got LoginRequest"
    );
}

#[test]
fn wrap_ws_error_passes_values_and_wraps_errors() {
    let ok: Result<u32, tokio_tungstenite::tungstenite::Error> = Ok(5);
    assert_eq!(wrap_ws_error(ok).unwrap(), 5);
    let err: Result<u32, tokio_tungstenite::tungstenite::Error> =
        Err(tokio_tungstenite::tungstenite::Error::ConnectionClosed);
    let wrapped = wrap_ws_error(err).unwrap_err();
    assert!(!wrapped.message.is_empty());
}

#[test]
fn clock_readings_are_plausible() {
    let s = get_time_seconds();
    let ms = get_time_milliseconds();
    assert!(s > 1_600_000_000);
    assert!(ms > 1_600_000_000_000);
}

#[test]
fn collect_walks_structs_tables_lists_and_options() {
    let inner = Type::Struct {
        name: "Inner".to_string(),
        fields: vec![Field {
            name: "x".to_string(),
            ty: Type::Int,
            description: String::new(),
        }],
    };
    let outer = Type::Struct {
        name: "Outer".to_string(),
        fields: vec![
            Field {
                name: "items".to_string(),
                ty: Type::List(Box::new(inner.clone_like())),
                description: String::new(),
            },
            Field {
                name: "maybe".to_string(),
                ty: Type::Optional(Box::new(Type::DataTable {
                    name: "Rows".to_string(),
                    fields: vec![],
                })),
                description: String::new(),
            },
        ],
    };
    let collected = collect_rust_recursive_types(outer);
    let names: Vec<String> = collected
        .iter()
        .map(|t| match t {
            Type::Struct { name, .. } => name.clone(),
            _ => panic!("only struct records are collected"),
        })
        .collect();
    assert_eq!(names, vec!["Outer".to_string(), "Inner".to_string(), "Rows".to_string()]);
}

trait CloneLike {
    fn clone_like(&self) -> Type;
}

impl CloneLike for Type {
    fn clone_like(&self) -> Type {
        endpoint_gen::gen::clone_type(self)
    }
}

#[test]
fn systemd_unit_contains_paths_and_sections() {
    let unit = get_systemd_service("trading", "gateway", "ops");
    assert!(unit.starts_with("[Unit]\nDescription=trading gateway\n"));
    assert!(unit.contains("WorkingDirectory=/home/ops/trading\n"));
    assert!(unit.contains("ExecStart=/home/ops/trading/bin/gateway --config=etc/config.json\n"));
    assert!(unit.contains("StandardError=append:/home/ops/trading/log/trading_gateway.log\n"));
    assert!(unit.ends_with("[Install]\nWantedBy=default.target\n\n"));
}

#[test]
fn default_error_catalog_is_the_placeholder() {
    let msgs = default_error_messages();
    assert_eq!(msgs.language, "TODO");
    assert_eq!(msgs.codes.len(), 1);
    assert_eq!(msgs.codes[0].code, 0);
    assert_eq!(msgs.codes[0].symbol, "XXX");
    assert_eq!(msgs.codes[0].message, "Please populate error_codes.json");
    assert_eq!(msgs.codes[0].source, "None");
}
