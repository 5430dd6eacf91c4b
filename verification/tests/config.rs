use mcp_server::config::{
    bind_addr, default_host, default_port, is_false, is_http_url, override_listener, same_entry,
    validate_ids, validate_slug, Config, McpEntry, ServerSection,
};
use mcp_server::error::ProxyError;
use mcp_server::table::Table;

fn entry(command: &str, args: &[&str]) -> McpEntry {
    McpEntry {
        command: command.to_string(),
        args: args.iter().map(|a| a.to_string()).collect(),
        env: Table::new(),
        cwd: None,
        is_http: false,
    }
}

#[test]
fn rejects_invalid_slug() {
    assert!(validate_slug("ok-id_1").is_ok());
    assert!(validate_slug("").is_err());
    assert!(validate_slug("-bad").is_err());
    assert!(validate_slug("with space").is_err());
    assert!(validate_slug("with/slash").is_err());
}

#[test]
fn slugs_are_ascii() {
    assert!(validate_slug("9").is_ok());
    assert!(validate_slug("Z").is_ok());
    assert!(validate_slug("_a").is_err());
    assert!(validate_slug("a\u{e9}").is_err());
    match validate_slug("no!") {
        Err(ProxyError::InvalidServerId(id)) => assert_eq!(id, "no!"),
        _ => panic!("expected InvalidServerId"),
    }
}

#[test]
fn defaults_of_the_listener() {
    let s = ServerSection::default();
    assert_eq!(s.host, "127.0.0.1");
    assert_eq!(s.port, 9000);
    assert_eq!(default_host(), "127.0.0.1");
    assert_eq!(default_port(), 9000);
    assert_eq!(bind_addr(&s), "127.0.0.1:9000");
    assert!(is_false(&false));
    assert!(!is_false(&true));
}

#[test]
fn command_line_overrides_the_listener() {
    let mut s = ServerSection::default();
    override_listener(&mut s, None, Some(9100));
    assert_eq!(bind_addr(&s), "127.0.0.1:9100");
    override_listener(&mut s, Some("0.0.0.0".to_string()), None);
    assert_eq!(bind_addr(&s), "0.0.0.0:9100");
}

#[test]
fn every_id_must_be_a_slug() {
    let mut config = Config { server: ServerSection::default(), mcp: Table::new() };
    assert!(validate_ids(&config).is_ok());
    config.mcp.insert("mcp-echo".to_string(), entry("echo", &[]));
    assert!(validate_ids(&config).is_ok());
    config.mcp.insert("with space".to_string(), entry("echo", &[]));
    match validate_ids(&config) {
        Err(ProxyError::InvalidServerId(id)) => assert_eq!(id, "with space"),
        _ => panic!("expected InvalidServerId"),
    }
}

#[test]
fn urls_are_told_from_commands() {
    assert!(is_http_url("http://localhost:1/mcp"));
    assert!(is_http_url("https://example.com"));
    assert!(!is_http_url("httpd"));
    assert!(!is_http_url("HTTP://x"));
    assert!(!is_http_url("npx"));
}

#[test]
fn entries_differ_in_any_setting() {
    let a = entry("npx", &["-y", "x"]);
    assert!(same_entry(&a, &entry("npx", &["-y", "x"])));
    assert!(!same_entry(&a, &entry("node", &["-y", "x"])));
    assert!(!same_entry(&a, &entry("npx", &["x", "-y"])));
    assert!(!same_entry(&a, &entry("npx", &["-y"])));
    let mut b = entry("npx", &["-y", "x"]);
    b.env.insert("K".to_string(), "v".to_string());
    assert!(!same_entry(&a, &b));
    let mut c = entry("npx", &["-y", "x"]);
    c.env.insert("K".to_string(), "w".to_string());
    assert!(!same_entry(&b, &c));
    c.env.insert("K".to_string(), "v".to_string());
    assert!(same_entry(&b, &c));
    c.cwd = Some("/tmp".to_string());
    assert!(!same_entry(&b, &c));
    b.cwd = Some("/tmp".to_string());
    assert!(same_entry(&b, &c));
    b.is_http = true;
    assert!(!same_entry(&b, &c));
}

#[test]
fn clones_say_the_same() {
    let mut e = entry("npx", &["-y", "x"]);
    e.env.insert("K".to_string(), "v".to_string());
    e.cwd = Some("/tmp".to_string());
    e.is_http = true;
    assert!(same_entry(&e, &e.clone()));
    let mut config = Config { server: ServerSection::default(), mcp: Table::new() };
    config.mcp.insert("a".to_string(), e);
    config.mcp.insert("b".to_string(), entry("node", &[]));
    let copy = config.clone();
    assert_eq!((copy.server.host.as_str(), copy.server.port), ("127.0.0.1", 9000));
    assert_eq!(copy.mcp.keys(), vec!["a", "b"]);
    assert!(same_entry(copy.mcp.get("a").unwrap(), config.mcp.get("a").unwrap()));
    assert!(!same_entry(copy.mcp.get("b").unwrap(), config.mcp.get("a").unwrap()));
}
