use mcp_server::error::ProxyError;

#[test]
fn unknown_server_carries_id() {
    let e = ProxyError::UnknownServer("mcp-brave".into());
    assert!(e.to_string().contains("mcp-brave"));
}

#[test]
fn io_error_converts() {
    let io = std::io::Error::new(std::io::ErrorKind::NotFound, "x");
    let e: ProxyError = io.into();
    assert!(matches!(e, ProxyError::Io(_)));
}

#[test]
fn every_error_has_its_sentence() {
    assert_eq!(ProxyError::UnknownServer("a".into()).to_string(), "unknown server: a");
    assert_eq!(ProxyError::InvalidServerId("a b".into()).to_string(), "invalid server id: a b");
    assert_eq!(
        ProxyError::ChildExited { id: "a".into(), reason: "why".into() }.to_string(),
        "child process for a exited unexpectedly: why"
    );
    assert_eq!(ProxyError::UnknownSession("s".into()).to_string(), "session s not found");
    assert_eq!(ProxyError::Config("c".into()).to_string(), "config error: c");
    let io: ProxyError = std::io::Error::new(std::io::ErrorKind::NotFound, "x").into();
    assert_eq!(io.to_string(), "io error: x");
    let json: ProxyError = serde_json::from_str::<serde_json::Value>("{").unwrap_err().into();
    assert!(json.to_string().starts_with("json error: EOF"));
    let toml_error = toml::from_str::<toml::Value>("= 1").unwrap_err();
    let expected = format!("toml error: {}", toml_error);
    let toml: ProxyError = toml_error.into();
    assert_eq!(toml.to_string(), expected);
    let ser_error = toml::to_string(&1u8).unwrap_err();
    let expected = format!("toml serialization error: {}", ser_error);
    let ser: ProxyError = ser_error.into();
    assert_eq!(ser.to_string(), expected);
}
