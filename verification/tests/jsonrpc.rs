use mcp_server::json::Json;
use mcp_server::jsonrpc::{IdMux, Inbound, Outbound};

fn json(text: &str) -> Json {
    Json::parse(text).expect("json")
}

#[test]
fn request_gets_rewritten_id_and_pending_entry() {
    let mut mux = IdMux::new();
    let inbound = mux.rewrite_inbound("sess-A", json(r#"{"jsonrpc":"2.0","id":7,"method":"tools/list"}"#));
    match inbound {
        Inbound::Request { original_id, outbound_id, payload } => {
            assert_eq!(original_id.as_u64(), Some(7));
            assert_eq!(payload.get("id").unwrap().as_u64(), Some(outbound_id));
            assert_eq!(mux.pending_count(), 1);
        }
        _ => panic!("expected Request"),
    }
}

#[test]
fn notification_passes_through() {
    let mut mux = IdMux::new();
    let n = mux.rewrite_inbound("sess-A", json(r#"{"jsonrpc":"2.0","method":"notifications/initialized"}"#));
    assert!(matches!(n, Inbound::Passthrough(_)));
    assert_eq!(mux.pending_count(), 0);
}

#[test]
fn response_routes_back_to_session() {
    let mut mux = IdMux::new();
    let inbound = mux.rewrite_inbound("sess-B", json(r#"{"jsonrpc":"2.0","id":42,"method":"ping"}"#));
    let outbound_id = match inbound {
        Inbound::Request { outbound_id, .. } => outbound_id,
        _ => unreachable!(),
    };
    let outbound = mux.classify_outbound(json(&format!(
        r#"{{"jsonrpc":"2.0","id":{},"result":{{"ok":true}}}}"#,
        outbound_id
    )));
    match outbound {
        Outbound::RoutedResponse { session_id, payload } => {
            assert_eq!(session_id, "sess-B");
            assert_eq!(payload.get("id").unwrap().as_u64(), Some(42));
            assert_eq!(payload.get("result").unwrap().get("ok").unwrap().to_text(), "true");
        }
        _ => panic!("expected RoutedResponse"),
    }
    assert_eq!(mux.pending_count(), 0);
}

#[test]
fn server_initiated_notification_is_broadcast() {
    let mut mux = IdMux::new();
    let out = mux.classify_outbound(json(r#"{"jsonrpc":"2.0","method":"notifications/tools/list_changed"}"#));
    assert!(matches!(out, Outbound::Broadcast(_)));
}

fn request(mux: &mut IdMux, session: &str, text: &str) -> (u64, String) {
    match mux.rewrite_inbound(session, json(text)) {
        Inbound::Request { outbound_id, payload, .. } => (outbound_id, payload.to_text()),
        Inbound::Passthrough(_) => panic!("expected Request"),
    }
}

#[test]
fn numbers_begin_at_one_and_are_fresh() {
    let mut mux = IdMux::default();
    assert_eq!(
        request(&mut mux, "a", r#"{"id":"x","method":"m","params":[1]}"#),
        (1, r#"{"id":1,"method":"m","params":[1]}"#.to_string())
    );
    assert_eq!(request(&mut mux, "b", r#"{"id":"x","method":"m"}"#).0, 2);
    assert_eq!(request(&mut mux, "a", r#"{"id":-3,"method":"m"}"#).0, 3);
    assert_eq!(mux.pending_count(), 3);
}

#[test]
fn answers_find_their_sessions_in_any_order() {
    let mut mux = IdMux::new();
    request(&mut mux, "a", r#"{"id":"x","method":"m"}"#);
    request(&mut mux, "b", r#"{"id":{"k":1},"method":"m"}"#);
    mux.rewrite_inbound("c", json(r#"{"method":"note"}"#));
    assert!(matches!(mux.classify_outbound(json(r#"{"id":2,"method":"ask"}"#)), Outbound::Broadcast(_)));
    match mux.classify_outbound(json(r#"{"id":2,"error":{}}"#)) {
        Outbound::RoutedResponse { session_id, payload } => {
            assert_eq!(session_id, "b");
            assert_eq!(payload.to_text(), r#"{"error":{},"id":{"k":1}}"#);
        }
        _ => panic!("expected RoutedResponse"),
    }
    match mux.classify_outbound(json(r#"{"id":1}"#)) {
        Outbound::RoutedResponse { session_id, payload } => {
            assert_eq!(session_id, "a");
            assert_eq!(payload.to_text(), r#"{"id":"x"}"#);
        }
        _ => panic!("expected RoutedResponse"),
    }
}

#[test]
fn an_answer_is_routed_once() {
    let mut mux = IdMux::new();
    request(&mut mux, "a", r#"{"id":1,"method":"m"}"#);
    assert!(matches!(
        mux.classify_outbound(json(r#"{"id":1,"result":0}"#)),
        Outbound::RoutedResponse { .. }
    ));
    match mux.classify_outbound(json(r#"{"id":1,"result":0}"#)) {
        Outbound::UnknownResponse(payload) => assert_eq!(payload.to_text(), r#"{"id":1,"result":0}"#),
        _ => panic!("expected UnknownResponse"),
    }
}

#[test]
fn other_ids_are_unknown() {
    let mut mux = IdMux::new();
    request(&mut mux, "a", r#"{"id":1,"method":"m"}"#);
    for text in [r#"{"id":"1"}"#, r#"{"id":null}"#, r#"{"id":-1}"#, r#"{"id":1.0}"#, "{}", "[1]", "1", r#"{"id":2}"#] {
        assert!(matches!(mux.classify_outbound(json(text)), Outbound::UnknownResponse(_)), "{}", text);
    }
    assert_eq!(mux.pending_count(), 1);
}

#[test]
fn a_null_id_makes_a_notification() {
    let mut mux = IdMux::new();
    match mux.rewrite_inbound("a", json(r#"{"id":null,"method":"m"}"#)) {
        Inbound::Passthrough(payload) => assert_eq!(payload.to_text(), r#"{"id":null,"method":"m"}"#),
        _ => panic!("expected Passthrough"),
    }
    assert!(matches!(mux.rewrite_inbound("a", json(r#"{"id":5,"result":1}"#)), Inbound::Passthrough(_)));
    assert_eq!(mux.pending_count(), 0);
}

#[test]
fn an_answered_number_stays_unknown() {
    let mut mux = IdMux::new();
    request(&mut mux, "a", r#"{"id":1,"method":"m"}"#);
    mux.classify_outbound(json(r#"{"id":1,"result":0}"#));
    request(&mut mux, "a", r#"{"id":1,"method":"m"}"#);
    mux.classify_outbound(json(r#"{"method":"note"}"#));
    mux.rewrite_inbound("b", json(r#"{"method":"note"}"#));
    assert!(matches!(mux.classify_outbound(json(r#"{"id":1,"result":0}"#)), Outbound::UnknownResponse(_)));
    assert_eq!(mux.pending_count(), 1);
}

#[test]
fn requests_are_numbered_in_turn() {
    let mut mux = IdMux::new();
    for k in 1..=5 {
        mux.rewrite_inbound("b", json(r#"{"method":"note"}"#));
        assert_eq!(request(&mut mux, "a", r#"{"id":1,"method":"m"}"#).0, k);
    }
    mux.close_all();
    assert_eq!(mux.pending_count(), 0);
    assert_eq!(request(&mut mux, "a", r#"{"id":1,"method":"m"}"#).0, 6);
}
