use endpoint_gen::config::{origin_allowed, select_transport, TransportChoice, WsServerConfig};
use endpoint_gen::ws_server::AuthController;
use endpoint_gen::connection::{ConnectionRegistry, Toolbox, WsConnection};
use endpoint_gen::session::{SessionAction, SessionEvent, SessionState};

fn config_with(certs: Option<Vec<String>>, key: Option<String>) -> WsServerConfig {
    WsServerConfig {
        name: "t".to_string(),
        address: "127.0.0.1:0".to_string(),
        pub_certs: certs,
        priv_key: key,
        debug: false,
        header_only: false,
        allow_cors_urls: None,
    }
}

#[test]
fn tls_config_must_be_both_or_neither() {
    assert!(matches!(
        select_transport(&config_with(None, None)),
        Ok(TransportChoice::Plain)
    ));
    match select_transport(&config_with(
        Some(vec!["cert".to_string()]),
        Some("key".to_string()),
    )) {
        Ok(TransportChoice::Tls { certs, key }) => {
            assert_eq!(certs, vec!["cert".to_string()]);
            assert_eq!(key, "key");
        }
        _ => panic!("full TLS configuration must be accepted"),
    }
    assert!(select_transport(&config_with(Some(vec!["cert".to_string()]), None)).is_err());
    assert!(select_transport(&config_with(None, Some("key".to_string()))).is_err());
}

#[test]
fn origin_allow_list() {
    assert!(origin_allowed(&None, &"https://a".to_string()));
    let list = Some(vec!["https://a".to_string(), "https://b".to_string()]);
    assert!(origin_allowed(&list, &"https://b".to_string()));
    assert!(!origin_allowed(&list, &"https://c".to_string()));
}

fn active_session() -> SessionState {
    let mut s = SessionState::new();
    assert!(matches!(s.step(SessionEvent::TransportAccepted), SessionAction::Proceed));
    assert!(matches!(s.step(SessionEvent::UpgradeComplete), SessionAction::Proceed));
    assert!(matches!(s.step(SessionEvent::AuthSucceeded), SessionAction::Register));
    s
}

#[test]
fn two_slow_requests_both_answered_out_of_order() {
    let mut s = active_session();
    let a = match s.step(SessionEvent::FrameArrived) {
        SessionAction::DispatchFrame(seq) => seq,
        other => panic!("expected a dispatch, got {:?}", discriminant_name(&other)),
    };
    let b = match s.step(SessionEvent::FrameArrived) {
        SessionAction::DispatchFrame(seq) => seq,
        other => panic!("expected a dispatch, got {:?}", discriminant_name(&other)),
    };
    assert_ne!(a, b, "each request gets its own sequence number");
    // The second request finishes first; both must still be delivered.
    assert!(matches!(
        s.step(SessionEvent::DispatchCompleted(b)),
        SessionAction::Deliver(seq) if seq == b
    ));
    assert!(matches!(
        s.step(SessionEvent::DispatchCompleted(a)),
        SessionAction::Deliver(seq) if seq == a
    ));
    assert!(s.delivered.contains(&a));
    assert!(s.delivered.contains(&b));
}

fn discriminant_name(a: &SessionAction) -> &'static str {
    match a {
        SessionAction::Proceed => "Proceed",
        SessionAction::Register => "Register",
        SessionAction::Reject => "Reject",
        SessionAction::DispatchFrame(_) => "DispatchFrame",
        SessionAction::Deliver(_) => "Deliver",
        SessionAction::Discard(_) => "Discard",
        SessionAction::Remove => "Remove",
        SessionAction::Ignore => "Ignore",
    }
}

#[test]
fn auth_failure_never_registers() {
    let mut s = SessionState::new();
    s.step(SessionEvent::TransportAccepted);
    s.step(SessionEvent::UpgradeComplete);
    assert!(matches!(s.step(SessionEvent::AuthFailed), SessionAction::Reject));
    assert!(!s.registered);
}

#[test]
fn close_during_handler_discards_late_response_and_push_is_noop() {
    let mut s = active_session();
    let seq = match s.step(SessionEvent::FrameArrived) {
        SessionAction::DispatchFrame(seq) => seq,
        _ => panic!("expected a dispatch"),
    };

    let mut toolbox: Toolbox<Vec<String>> = Toolbox::new();
    let conn = WsConnection::new(11, "10.0.0.1:2".to_string(), 3);
    assert!(toolbox.states.insert(11, Vec::new(), conn));
    assert!(toolbox.send(11).is_some());

    // The peer closes while the handler still runs.
    assert!(matches!(s.step(SessionEvent::PeerClosed), SessionAction::Remove));
    assert!(toolbox.states.remove(11));
    assert!(!s.registered);

    // The late completion is discarded, not delivered, and nothing is
    // inserted back.
    assert!(matches!(
        s.step(SessionEvent::DispatchCompleted(seq)),
        SessionAction::Discard(d) if d == seq
    ));
    assert!(!s.registered);
    assert!(toolbox.states.get(11).is_none());

    // A subsequent push to that connection id is a silent no-op.
    assert!(toolbox.push(11).is_none());
    assert!(toolbox.states.len() == 0);
}

#[test]
fn connection_registry_keeps_other_sessions_on_remove() {
    let mut reg: ConnectionRegistry<u8> = ConnectionRegistry::new();
    assert!(reg.insert(1, 10, WsConnection::new(1, "a".to_string(), 0)));
    assert!(reg.insert(2, 20, WsConnection::new(2, "b".to_string(), 0)));
    assert!(!reg.insert(1, 30, WsConnection::new(1, "c".to_string(), 0)));
    assert_eq!(reg.len(), 2);
    assert!(reg.remove(1));
    assert!(!reg.remove(1));
    assert!(reg.get(1).is_none());
    let entry = reg.get(2).expect("the other session stays registered");
    assert_eq!(entry.sink, 20);
}

#[test]
fn user_id_set_once_and_read_often() {
    let mut conn = WsConnection::new(5, "addr".to_string(), 9);
    assert_eq!(conn.get_user_id(), 0);
    conn.set_user_id(77);
    assert_eq!(conn.get_user_id(), 77);
    conn.set_role(2);
    assert_eq!(conn.role, 2);
}

struct StaticAuth;

impl endpoint_gen::ws_server::AuthController for StaticAuth {
    fn auth(
        &self,
        conn: &mut WsConnection,
        _headers: &Vec<(String, String)>,
    ) -> Result<(), endpoint_gen::ServerError> {
        if conn.user_id.is_none() {
            conn.set_user_id(99);
        }
        conn.set_role(2);
        Ok(())
    }
}

#[test]
fn auth_controller_assigns_identity_and_role_once() {
    let mut conn = WsConnection::new(3, "addr".to_string(), 1);
    StaticAuth.auth(&mut conn, &vec![]).unwrap();
    assert_eq!(conn.get_user_id(), 99);
    assert_eq!(conn.role, 2);
}
