use mcp_server::config::{Config, McpEntry, ServerSection};
use mcp_server::error::ProxyError;
use mcp_server::json::Json;
use mcp_server::proxy::{ChildProxy, Delivery, Dispatch};
use mcp_server::routes::{
    close_mcp_sse, close_sse, delete_api_server, delete_mcp_session, done, finish_mcp_message,
    get_api_config, get_mcp_sse, health, list_servers, named_session, open_sse, open_sse_as,
    plan_mcp_post, post_api_reload, post_api_server, post_mcp_message, post_message,
    send_mcp_message, unavailable, AddServerPayload, Body, McpPlan, McpStep, Reply,
};
use mcp_server::state::AppState;
use mcp_server::table::Table;

type Proxy = ChildProxy<&'static str, u32>;

fn entry(command: &str) -> McpEntry {
    McpEntry { command: command.to_string(), args: vec![], env: Table::new(), cwd: None, is_http: false }
}

fn empty_state() -> AppState<u32> {
    AppState::new(Config { server: ServerSection::default(), mcp: Table::new() })
}

fn proxy() -> Proxy {
    Proxy::spawn("echo", &entry("echo_fixture")).0
}

fn json(text: &str) -> Json {
    Json::parse(text).expect("json")
}

fn text(reply: &Reply) -> &str {
    match &reply.body {
        Body::Text(text) => text,
        Body::Empty => "",
        Body::Json(_) => panic!("expected a text"),
    }
}

#[test]
fn health_returns_ok() {
    assert_eq!(health(), "ok");
}

#[test]
fn list_returns_configured_ids() {
    let mut mcp = Table::new();
    mcp.insert("mcp-foo".to_string(), entry("true"));
    let mut state: AppState<u32> = AppState::new(Config { server: ServerSection::default(), mcp });
    let v = list_servers(&state).to_value();
    assert_eq!(v["servers"][0]["id"], serde_json::Value::from("mcp-foo"));
    assert_eq!(v["servers"][0]["sse"], serde_json::Value::from("/mcp-foo/sse"));
    assert_eq!(
        list_servers(&state).to_text(),
        r#"{"servers":[{"id":"mcp-foo","live":false,"messages":"/mcp-foo/messages","sse":"/mcp-foo/sse"}]}"#
    );
    state.add_server("a".to_string(), entry("x"));
    state.settle("a", 1);
    let v = list_servers(&state).to_value();
    assert_eq!(v["servers"][0]["id"], serde_json::Value::from("a"));
    assert_eq!(v["servers"][0]["live"], serde_json::Value::from(true));
    assert_eq!(v["servers"][1]["live"], serde_json::Value::from(false));
}

#[test]
fn unknown_id_returns_404_on_sse() {
    let state = empty_state();
    let e = match state.get_or_spawn("nope") {
        Err(e) => e,
        Ok(_) => panic!("expected an error"),
    };
    let reply = unavailable(&e);
    assert_eq!(reply.status, 404);
    assert_eq!(text(&reply), "unknown server: nope");
}

#[test]
fn settings_are_shown_whole() {
    let mut state = empty_state();
    assert_eq!(get_api_config(&state).to_text(), r#"{"servers":[]}"#);
    let mut env = Table::new();
    env.insert("KEY".to_string(), "abc".to_string());
    let payload = AddServerPayload {
        command: "npx".to_string(),
        args: vec!["-y".to_string(), "x".to_string()],
        env,
        cwd: Some("/tmp".to_string()),
    };
    assert!(post_api_server(&mut state, "brave".to_string(), payload).is_none());
    assert_eq!(
        get_api_config(&state).to_text(),
        r#"{"servers":[{"args":["-y","x"],"command":"npx","cwd":"/tmp","env":{"KEY":"abc"},"id":"brave","is_http":false,"live":false}]}"#
    );
}

#[test]
fn servers_are_added_and_deleted() {
    let mut state = empty_state();
    let payload = |command: &str| AddServerPayload {
        command: command.to_string(),
        args: vec![],
        env: Table::new(),
        cwd: None,
    };
    let refusal = post_api_server(&mut state, "not ok".to_string(), payload("x")).unwrap();
    assert_eq!(refusal.status, 400);
    assert_eq!(text(&refusal), "Invalid slug: invalid server id: not ok");
    assert!(state.ids().is_empty());
    assert!(post_api_server(&mut state, "web".to_string(), payload("https://example.com/mcp")).is_none());
    assert!(state.settings().mcp.get("web").unwrap().is_http);
    state.settle("web", 8);
    let deletion = delete_api_server(&mut state, "web");
    assert_eq!((deletion.reply.status, deletion.save, deletion.proxy), (200, true, Some(8)));
    let deletion = delete_api_server(&mut state, "web");
    assert_eq!((deletion.reply.status, deletion.save, deletion.proxy), (404, false, None));
}

#[test]
fn outcomes_become_replies() {
    assert_eq!(done(Ok(())).status, 200);
    let reply = done(Err(ProxyError::Io("disk full".to_string())));
    assert_eq!(reply.status, 500);
    assert_eq!(text(&reply), "io error: disk full");
    assert_eq!(post_api_reload(Ok(())).status, 200);
    let reply = post_api_reload(Err(ProxyError::Config("c".to_string())));
    assert_eq!((reply.status, text(&reply)), (500, "config error: c"));
}

#[test]
fn a_stream_begins_with_its_endpoint() {
    let mut p = proxy();
    let (session_id, path) = open_sse(&mut p, "mcp-echo", "stream-1");
    assert!(path.starts_with("/mcp-echo/messages?sessionId="), "got {path}");
    assert_eq!(path, format!("/mcp-echo/messages?sessionId={session_id}"));
    assert!(p.has_active_session(&session_id));
    assert_eq!(open_sse_as(&mut p, "x", "s", "stream-2"), "/x/messages?sessionId=s");
    assert_eq!(p.session_count(), 2);
    let (line, reply) = post_message(&mut p, "s", json(r#"{"id":99,"method":"ping"}"#));
    assert_eq!(line, r#"{"id":1,"method":"ping"}"#);
    assert_eq!(reply.status, 202);
    let delivery = p.child_line(r#"{"id":1,"result":{}}"#);
    assert_eq!(p.recipients(&delivery), vec![&"stream-2"]);
    match delivery {
        Delivery::Session { text, .. } => assert_eq!(text, r#"{"id":99,"result":{}}"#),
        _ => panic!("expected Session"),
    }
    close_sse(&mut p, "s");
    assert_eq!(p.session_count(), 1);
}

#[test]
fn a_message_without_a_session_must_open_one() {
    match post_mcp_message(None, &json(r#"{"id":1,"method":"tools/list"}"#)) {
        McpPlan::Refuse(reply) => {
            assert_eq!(reply.status, 400);
            assert_eq!(text(&reply), "Missing or invalid session ID for non-initialize request");
        }
        McpPlan::Send { .. } => panic!("expected Refuse"),
    }
    match post_mcp_message(None, &json(r#"{"id":1,"method":"initialize"}"#)) {
        McpPlan::Send { session_id, opens } => {
            assert!(opens);
            assert_eq!(session_id.len(), 36);
        }
        McpPlan::Refuse(_) => panic!("expected Send"),
    }
    match plan_mcp_post(Some("s".to_string()), &json("{}"), "fresh".to_string()) {
        McpPlan::Send { session_id, opens } => assert_eq!((session_id.as_str(), opens), ("s", false)),
        McpPlan::Refuse(_) => panic!("expected Send"),
    }
    match plan_mcp_post(None, &json(r#"{"method":"initialize"}"#), "fresh".to_string()) {
        McpPlan::Send { session_id, opens } => assert_eq!((session_id.as_str(), opens), ("fresh", true)),
        McpPlan::Refuse(_) => panic!("expected Send"),
    }
}

#[test]
fn a_session_lives_from_initialize_to_delete() {
    let mut p = proxy();
    let step = send_mcp_message(&mut p, "s", true, json(r#"{"id":0,"method":"initialize"}"#), 7);
    assert!(matches!(step, McpStep::Ask(Dispatch::Request { outbound_id: 1, .. })));
    let answer = match p.child_line(r#"{"id":1,"result":"hi"}"#) {
        Delivery::Answer { waiter: 7, payload } => payload,
        _ => panic!("expected Answer"),
    };
    let reply = finish_mcp_message(&mut p, "s", true, Ok(answer));
    assert_eq!(reply.status, 200);
    assert_eq!(
        reply.headers,
        vec![
            ("mcp-session-id".to_string(), "s".to_string()),
            ("Access-Control-Expose-Headers".to_string(), "mcp-session-id, MCP-Session-Id".to_string()),
        ]
    );
    match &reply.body {
        Body::Json(body) => assert_eq!(body.to_text(), r#"{"id":0,"result":"hi"}"#),
        _ => panic!("expected Json"),
    }

    match send_mcp_message(&mut p, "s", false, json(r#"{"method":"notifications/initialized"}"#), 8) {
        McpStep::Tell { line, reply } => {
            assert_eq!(line, r#"{"method":"notifications/initialized"}"#);
            assert_eq!(reply.status, 202);
        }
        _ => panic!("expected Tell"),
    }
    assert!(matches!(
        send_mcp_message(&mut p, "s", false, json(r#"{"id":5,"method":"m"}"#), 9),
        McpStep::Ask(Dispatch::Request { outbound_id: 2, .. })
    ));
    let reply = finish_mcp_message(&mut p, "s", false, Ok(json("null")));
    assert_eq!(reply.status, 200);
    assert!(reply.headers.is_empty());

    assert!(get_mcp_sse(&mut p, "s", "stream").is_none());
    assert_eq!(p.session_count(), 1);
    assert_eq!(delete_mcp_session(&mut p, "s").status, 200);
    match send_mcp_message(&mut p, "s", false, json(r#"{"id":6,"method":"m"}"#), 10) {
        McpStep::Reply(reply) => assert_eq!((reply.status, text(&reply)), (404, "Session expired or invalid")),
        _ => panic!("expected Reply"),
    }
    let refusal = get_mcp_sse(&mut p, "s", "stream").unwrap();
    assert_eq!((refusal.status, text(&refusal)), (404, "Session expired or invalid"));
}

#[test]
fn a_session_that_fails_to_open_is_let_go() {
    let mut p = proxy();
    send_mcp_message(&mut p, "s", true, json(r#"{"id":0,"method":"initialize"}"#), 7);
    assert!(p.has_active_session("s"));
    let failure = p.request_written(1, false).unwrap_err();
    let reply = finish_mcp_message(&mut p, "s", true, Err(failure));
    assert_eq!(reply.status, 500);
    assert_eq!(text(&reply), "child process for echo exited unexpectedly: stdin channel closed");
    assert!(!p.has_active_session("s"));

    p.add_active_session("t".to_string());
    let failure = p.request_answered(None).unwrap_err();
    assert_eq!(finish_mcp_message(&mut p, "t", false, Err(failure)).status, 500);
    assert!(p.has_active_session("t"));
}

#[test]
fn an_initialize_without_an_id_has_no_answer() {
    let mut p = proxy();
    match send_mcp_message(&mut p, "s", true, json(r#"{"method":"initialize"}"#), 7) {
        McpStep::Ask(Dispatch::Passthrough { line }) => assert_eq!(line, r#"{"method":"initialize"}"#),
        _ => panic!("expected Passthrough"),
    }
}

#[test]
fn a_stream_names_its_session() {
    assert_eq!(named_session(Some("s".to_string())).unwrap(), "s");
    let refusal = named_session(None).unwrap_err();
    assert_eq!((refusal.status, text(&refusal)), (400, "Missing mcp-session-id header"));
    let mut p = proxy();
    p.add_active_session("s".to_string());
    assert!(get_mcp_sse(&mut p, "s", "stream").is_none());
    close_mcp_sse(&mut p, "s");
    assert!(!p.has_active_session("s"));
    assert_eq!(p.session_count(), 0);
}
