use mcp_server::config::McpEntry;
use mcp_server::json::Json;
use mcp_server::proxy::{ChildProxy, Delivery, Dispatch, HttpPost, Launch};
use mcp_server::table::Table;
use tokio::sync::mpsc;

fn entry(command: &str, is_http: bool) -> McpEntry {
    McpEntry { command: command.to_string(), args: vec!["-v".to_string()], env: Table::new(), cwd: None, is_http }
}

fn json(text: &str) -> Json {
    Json::parse(text).expect("json")
}

/// What a child answers that sends back the parameters of each request.
fn echo(line: &str) -> String {
    let message: serde_json::Value = serde_json::from_str(line).unwrap();
    format!(r#"{{"jsonrpc":"2.0","id":{},"result":{{"echoed":{}}}}}"#, message["id"], message["params"])
}

#[test]
fn proxy_routes_response_back_to_originating_session() {
    let (mut proxy, _) = ChildProxy::<mpsc::Sender<String>, u32>::spawn("echo", &entry("echo_fixture", false));

    let (tx_a, mut rx_a) = mpsc::channel::<String>(4);
    let (tx_b, mut rx_b) = mpsc::channel::<String>(4);
    proxy.register_session("sess-a".into(), tx_a);
    proxy.register_session("sess-b".into(), tx_b);

    let line = proxy.send_from_session(
        "sess-a",
        json(r#"{"jsonrpc":"2.0","id":1,"method":"ping","params":{"who":"a"}}"#),
    );
    let delivery = proxy.child_line(&echo(&line));
    let to = proxy.recipients(&delivery);
    match &delivery {
        Delivery::Session { text, .. } => {
            for tx in to {
                tx.try_send(text.clone()).unwrap();
            }
        }
        _ => panic!("expected Session"),
    }

    let line = rx_a.try_recv().expect("closed");
    let v: serde_json::Value = serde_json::from_str(&line).unwrap();
    assert_eq!(v["id"], serde_json::Value::from(1));
    assert_eq!(v["result"]["echoed"]["who"], serde_json::Value::from("a"));

    // session B should not have received anything
    assert!(rx_b.try_recv().is_err());
}

type Proxy = ChildProxy<&'static str, u32>;

fn proxy() -> Proxy {
    Proxy::spawn("echo", &entry("echo_fixture", false)).0
}

#[test]
fn a_process_is_started_or_a_url_is_posted_to() {
    let e = entry("npx", false);
    let (p, launch) = Proxy::spawn("a", &e);
    assert_eq!(p.id, "a");
    assert!(!p.is_http);
    match launch {
        Launch::Stdio { program, args, env, cwd } => {
            assert_eq!(program, "npx");
            assert_eq!(args, &vec!["-v".to_string()]);
            assert!(env.is_empty());
            assert!(cwd.is_none());
        }
        Launch::Http { .. } => panic!("expected Stdio"),
    }
    let e = entry("http://localhost:1/mcp", true);
    let (p, launch) = Proxy::spawn("b", &e);
    assert!(p.is_http);
    match launch {
        Launch::Http { url } => assert_eq!(url, "http://localhost:1/mcp"),
        Launch::Stdio { .. } => panic!("expected Http"),
    }
}

#[test]
fn a_caller_that_waits_is_woken() {
    let mut p = proxy();
    match p.send_request_from_session("s", json(r#"{"id":"q","method":"m"}"#), 77) {
        Dispatch::Request { outbound_id, line } => {
            assert_eq!(outbound_id, 1);
            assert_eq!(line, r#"{"id":1,"method":"m"}"#);
        }
        Dispatch::Passthrough { .. } => panic!("expected Request"),
    }
    assert!(p.request_written(1, true).is_ok());
    match p.child_line(r#"{"id":1,"result":5}"#) {
        Delivery::Answer { waiter, payload } => {
            assert_eq!(waiter, 77);
            assert_eq!(payload.to_text(), r#"{"id":"q","result":5}"#);
            assert_eq!(p.request_answered(Some(payload)).unwrap().to_text(), r#"{"id":"q","result":5}"#);
        }
        _ => panic!("expected Answer"),
    }
    assert!(matches!(p.child_line(r#"{"id":1,"result":5}"#), Delivery::Unmapped(_)));
}

#[test]
fn a_request_of_the_child_is_broadcast_under_any_id() {
    let mut p = proxy();
    p.register_session("a".to_string(), "stream-a");
    p.register_session("b".to_string(), "stream-b");
    p.send_request_from_session("s", json(r#"{"id":"q","method":"m"}"#), 77);
    let delivery = p.child_line(r#"{"id":1,"method":"roots/list"}"#);
    match &delivery {
        Delivery::AllSessions { text } => assert_eq!(text, r#"{"id":1,"method":"roots/list"}"#),
        _ => panic!("expected AllSessions"),
    }
    let mut to = p.recipients(&delivery);
    to.sort();
    assert_eq!(to, vec![&"stream-a", &"stream-b"]);
    assert!(matches!(p.child_line(r#"{"id":1,"result":5}"#), Delivery::Answer { waiter: 77, .. }));
}

#[test]
fn a_line_that_could_not_be_written_ends_its_request() {
    let mut p = proxy();
    p.send_request_from_session("s", json(r#"{"id":"q","method":"m"}"#), 77);
    assert_eq!(
        p.request_written(1, false).unwrap_err().to_string(),
        "child process for echo exited unexpectedly: stdin channel closed"
    );
    assert!(matches!(p.child_line(r#"{"id":1,"result":5}"#), Delivery::Session { .. }));
    assert_eq!(
        p.request_answered(None).unwrap_err().to_string(),
        "child process for echo exited unexpectedly: oneshot receiver hung up (child exited?)"
    );
}

#[test]
fn a_notification_has_no_answer() {
    let mut p = proxy();
    match p.send_request_from_session("s", json(r#"{"method":"note"}"#), 77) {
        Dispatch::Passthrough { line } => assert_eq!(line, r#"{"method":"note"}"#),
        Dispatch::Request { .. } => panic!("expected Passthrough"),
    }
    assert_eq!(p.send_from_session("s", json(r#"{"method":"note"}"#)), r#"{"method":"note"}"#);
}

#[test]
fn lines_that_are_no_json_are_dropped() {
    let mut p = proxy();
    assert!(matches!(p.child_line("starting up..."), Delivery::NotJson));
    let delivery = p.child_line("[]");
    assert!(matches!(delivery, Delivery::Unmapped(_)));
    assert!(p.recipients(&delivery).is_empty());
}

#[test]
fn an_answer_to_a_session_without_a_stream_reaches_nobody() {
    let mut p = proxy();
    p.send_from_session("gone", json(r#"{"id":9,"method":"m"}"#));
    let delivery = p.child_line(r#"{"id":1,"result":5}"#);
    match &delivery {
        Delivery::Session { session_id, text } => {
            assert_eq!(session_id, "gone");
            assert_eq!(text, r#"{"id":9,"result":5}"#);
        }
        _ => panic!("expected Session"),
    }
    assert!(p.recipients(&delivery).is_empty());
}

#[test]
fn sessions_speak_until_let_go() {
    let mut p = proxy();
    assert!(!p.has_active_session("a"));
    p.register_session("a".to_string(), "stream-a");
    assert_eq!(p.session_count(), 1);
    assert!(p.has_active_session("a"));
    p.drop_active_session("a");
    assert!(p.has_active_session("a"));
    p.add_active_session("a".to_string());
    p.drop_session("a");
    assert_eq!(p.session_count(), 0);
    assert!(p.has_active_session("a"));
    p.drop_active_session("a");
    assert!(!p.has_active_session("a"));
}

#[test]
fn an_http_reply_wakes_its_caller() {
    let mut p = Proxy::spawn("web", &entry("http://localhost:1", true)).0;
    let line = match p.send_request_from_session("s", json(r#"{"id":"q","method":"m"}"#), 77) {
        Dispatch::Request { line, .. } => line,
        Dispatch::Passthrough { .. } => panic!("expected Request"),
    };
    let post = HttpPost::read(&line).unwrap();
    assert_eq!(post.outbound_id, Some(1));
    assert_eq!(post.body.to_text(), line);
    assert!(matches!(p.http_reply(Some(1), 500, Some(json("{}"))), Delivery::Nobody));
    assert!(matches!(p.http_reply(Some(1), 300, Some(json("{}"))), Delivery::Nobody));
    assert!(matches!(p.http_reply(Some(1), 199, Some(json("{}"))), Delivery::Nobody));
    assert!(matches!(p.http_reply(Some(1), 200, None), Delivery::Nobody));
    assert!(matches!(p.http_reply(None, 200, Some(json("{}"))), Delivery::Nobody));
    match p.http_reply(Some(1), 299, Some(json(r#"{"id":1,"result":5}"#))) {
        Delivery::Answer { waiter, payload } => {
            assert_eq!(waiter, 77);
            assert_eq!(payload.to_text(), r#"{"id":"q","result":5}"#);
        }
        _ => panic!("expected Answer"),
    }
    assert!(matches!(p.http_reply(Some(1), 200, Some(json("{}"))), Delivery::Nobody));
}

#[test]
fn an_http_reply_to_something_else_hangs_up() {
    let mut p = Proxy::spawn("web", &entry("http://localhost:1", true)).0;
    p.send_request_from_session("s", json(r#"{"id":"q","method":"m"}"#), 77);
    assert!(matches!(
        p.http_reply(Some(1), 200, Some(json(r#"{"id":"other"}"#))),
        Delivery::HangUp { waiter: 77 }
    ));
    assert!(HttpPost::read("no json").is_none());
    assert_eq!(HttpPost::read(r#"{"id":"x"}"#).unwrap().outbound_id, None);
    assert_eq!(HttpPost::new(json(r#"{"id":3}"#)).outbound_id, Some(3));
}

#[test]
fn sessions_outlast_the_child() {
    let mut p = proxy();
    assert!(!p.child_exited());
    p.register_session("a".to_string(), "stream-a");
    p.send_request_from_session("a", json(r#"{"id":"q","method":"m"}"#), 77);
    p.send_from_session("a", json(r#"{"id":"r","method":"m"}"#));
    assert!(p.child_exited());
    assert!(matches!(p.child_line(r#"{"id":1,"result":5}"#), Delivery::Unmapped(_)));
    assert!(matches!(p.child_line(r#"{"id":2,"result":5}"#), Delivery::Unmapped(_)));
    assert!(p.has_active_session("a"));
    assert_eq!(p.send_from_session("a", json(r#"{"id":"s","method":"m"}"#)), r#"{"id":3,"method":"m"}"#);
    let delivery = p.child_line(r#"{"id":3,"result":5}"#);
    assert_eq!(p.recipients(&delivery), vec![&"stream-a"]);
    assert!(matches!(p.child_line(r#"{"id":3,"result":5}"#), Delivery::Unmapped(_)));
}

#[test]
fn a_message_without_an_answer_comes_to_null() {
    assert!(Proxy::unanswered().is_null());
}

#[test]
fn sessions_hear_one_line() {
    let mut p = proxy();
    p.send_from_session("a", json(r#"{"id":"q","method":"m"}"#));
    match p.child_line("{\"id\":1,\"error\":{\"code\":-32601,\"message\":\"a\\nb\"}}") {
        Delivery::Session { text, .. } => {
            assert!(!text.contains('\n'));
            assert_eq!(text, "{\"error\":{\"code\":-32601,\"message\":\"a\\nb\"},\"id\":\"q\"}");
            assert_eq!(json(&text).to_text(), text);
        }
        _ => panic!("expected Session"),
    }
    match p.child_line("{\"method\":\"a\\nb\"}") {
        Delivery::AllSessions { text } => assert_eq!(text, "{\"method\":\"a\\nb\"}"),
        _ => panic!("expected AllSessions"),
    }
}
