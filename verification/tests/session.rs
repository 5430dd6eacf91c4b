use mcp_server::session::{new_session_id, SessionRegistry, SseSession};
use tokio::sync::mpsc;

#[test]
fn register_get_remove() {
    let mut reg: SessionRegistry<mpsc::Sender<String>> = SessionRegistry::new();
    let (tx, mut rx) = mpsc::channel(4);
    reg.register("s1".into(), tx);
    assert_eq!(reg.len(), 1);

    let sender = reg.get("s1").unwrap();
    sender.try_send("hello".into()).unwrap();
    assert_eq!(rx.try_recv().unwrap(), "hello");

    reg.remove("s1");
    assert!(reg.is_empty());
    assert!(reg.get("s1").is_none());
}

#[test]
fn all_returns_every_sender() {
    let mut reg: SessionRegistry<mpsc::Sender<String>> = SessionRegistry::new();
    let (tx1, _r1) = mpsc::channel(1);
    let (tx2, _r2) = mpsc::channel(1);
    reg.register("a".into(), tx1);
    reg.register("b".into(), tx2);
    assert_eq!(reg.all().len(), 2);
}

#[test]
fn a_later_stream_takes_the_place_of_the_earlier() {
    let mut reg: SessionRegistry<u32> = SessionRegistry::default();
    let s = SseSession { id: "a".to_string(), tx: 1 };
    reg.register(s.id, s.tx);
    reg.register("a".to_string(), 2);
    assert_eq!(reg.len(), 1);
    assert_eq!(reg.all(), vec![&2]);
    reg.remove("b");
    assert_eq!(reg.get("a"), Some(&2));
}

#[test]
fn session_ids_are_random_uuids() {
    let a = new_session_id();
    let b = new_session_id();
    assert_ne!(a, b);
    assert_eq!(a.len(), 36);
    let parsed = uuid::Uuid::parse_str(&a).unwrap();
    assert_eq!(parsed.get_version_num(), 4);
    assert_eq!(parsed.to_string(), a);
}
