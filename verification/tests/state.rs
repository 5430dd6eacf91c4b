use std::path::PathBuf;
use std::sync::Arc;

use mcp_server::config::{Config, McpEntry, ServerSection};
use mcp_server::error::ProxyError;
use mcp_server::state::{AppState, Lookup};
use mcp_server::table::Table;

fn entry(command: &str) -> McpEntry {
    McpEntry { command: command.to_string(), args: vec![], env: Table::new(), cwd: None, is_http: false }
}

fn config(ids: &[(&str, &str)]) -> Config {
    let mut mcp = Table::new();
    for (id, command) in ids {
        mcp.insert(id.to_string(), entry(command));
    }
    Config { server: Default::default(), mcp }
}

/// The proxy of `id`, made where it is not live.
fn get(state: &mut AppState<Arc<String>>, id: &str) -> Result<Arc<String>, ProxyError> {
    let made = match state.get_or_spawn(id)? {
        Lookup::Live(proxy) => return Ok(proxy.clone()),
        Lookup::Spawn(entry) => Arc::new(entry.command.clone()),
    };
    state.settle(id, made.clone());
    Ok(made)
}

#[test]
fn unknown_server_returns_error() {
    let mut state = AppState::new(config(&[("mcp-echo", "echo_fixture")]));
    let err = get(&mut state, "nope").unwrap_err();
    assert!(matches!(err, ProxyError::UnknownServer(_)));
}

#[test]
fn second_get_returns_same_proxy() {
    let mut state = AppState::new(config(&[("mcp-echo", "echo_fixture")]));
    let p1 = get(&mut state, "mcp-echo").unwrap();
    let p2 = get(&mut state, "mcp-echo").unwrap();
    assert!(Arc::ptr_eq(&p1, &p2));
}

#[test]
fn ids_are_in_alphabetical_order() {
    let state: AppState<u32> = AppState::new(config(&[("b", "x"), ("a", "x"), ("c", "x"), ("B", "x")]));
    assert_eq!(state.ids(), vec!["B", "a", "b", "c"]);
    assert!(state.live_ids().is_empty());
}

#[test]
fn added_servers_are_listed_and_disabled_ones_are_not() {
    let mut state: AppState<u32> = AppState::new(config(&[]));
    state.add_server("x".to_string(), entry("one"));
    state.add_server("x".to_string(), entry("two"));
    assert_eq!(state.ids(), vec!["x"]);
    assert_eq!(state.settings().mcp.get("x").unwrap().command, "two");
    state.settle("x", 5);
    assert!(state.is_live("x"));
    assert_eq!(state.live_ids(), vec!["x"]);
    let first = state.disable_server("x");
    assert!(first.found && first.save);
    assert_eq!(first.proxy, Some(5));
    let second = state.disable_server("x");
    assert!(!second.found && !second.save);
    assert_eq!(second.proxy, None);
    assert!(state.ids().is_empty());
    assert!(!state.is_live("x"));
    state.settle("y", 6);
    let live_only = state.disable_server("y");
    assert!(live_only.found && !live_only.save);
    assert_eq!(live_only.proxy, Some(6));
}

#[test]
fn a_configuration_is_saved_where_it_came_from() {
    let state: AppState<u32> = AppState::new(config(&[("a", "x")]));
    assert!(state.save_to_disk().is_none());
    assert_eq!(
        state.reload_source().unwrap_err().to_string(),
        "config error: No configuration path tracking available to reload"
    );
    let state = state.with_path(PathBuf::from("config.toml"));
    let (path, saved) = state.save_to_disk().unwrap();
    assert_eq!(path, &PathBuf::from("config.toml"));
    assert!(saved.mcp.contains_key("a"));
    assert_eq!(state.reload_source().unwrap(), &PathBuf::from("config.toml"));
    assert_eq!(state.config_path, Some(PathBuf::from("config.toml")));
}

#[test]
fn a_reload_recycles_what_changed() {
    let mut state: AppState<u32> =
        AppState::new(config(&[("same", "x"), ("changed", "x"), ("deleted", "x"), ("http", "x")]));
    for (n, id) in ["same", "changed", "deleted", "http", "unlisted"].iter().enumerate() {
        state.settle(id, n as u32);
    }
    let mut next = config(&[("same", "x"), ("changed", "y"), ("http", "x"), ("unlisted", "x"), ("new", "x")]);
    let mut http = entry("x");
    http.is_http = true;
    next.mcp.insert("http".to_string(), http);
    next.server = ServerSection { host: "0.0.0.0".to_string(), port: 1 };
    let stopped = state.reload_from_disk(next);
    assert_eq!(stopped.len(), 3);
    assert_eq!(stopped.get("changed"), Some(&1));
    assert_eq!(stopped.get("deleted"), Some(&2));
    assert_eq!(stopped.get("http"), Some(&3));
    let mut live = state.live_ids();
    live.sort();
    assert_eq!(live, vec!["same", "unlisted"]);
    assert!(matches!(state.get_or_spawn("same"), Ok(Lookup::Live(&0))));
    assert_eq!(state.ids(), vec!["changed", "http", "new", "same", "unlisted"]);
    assert_eq!(state.settings().server.host, "0.0.0.0");
    assert_eq!(state.config.server.port, 1);
}

#[test]
fn a_reload_of_the_same_changes_nothing() {
    let mut state: AppState<u32> = AppState::new(config(&[("a", "x"), ("b", "y")]));
    state.settle("b", 2);
    assert!(state.reload_from_disk(config(&[("b", "y"), ("a", "x")])).is_empty());
    assert_eq!(state.live_ids(), vec!["b"]);
    assert_eq!(state.ids(), vec!["a", "b"]);
}

#[test]
fn disabling_undoes_adding() {
    let mut state: AppState<u32> = AppState::new(config(&[("a", "x")]));
    state.add_server("b".to_string(), entry("y"));
    assert!(state.disable_server("b").found);
    assert_eq!(state.ids(), vec!["a"]);
    assert!(matches!(state.get_or_spawn("b"), Err(ProxyError::UnknownServer(_))));
}

#[test]
fn a_server_whose_child_exited_is_started_again() {
    let mut state = AppState::new(config(&[("mcp-echo", "echo_fixture"), ("other", "x")]));
    let p1 = get(&mut state, "mcp-echo").unwrap();
    let other = get(&mut state, "other").unwrap();
    state.child_exited("mcp-echo");
    assert!(!state.is_live("mcp-echo"));
    assert!(matches!(state.get_or_spawn("mcp-echo"), Ok(Lookup::Spawn(_))));
    let p2 = get(&mut state, "mcp-echo").unwrap();
    assert!(!Arc::ptr_eq(&p1, &p2));
    assert!(Arc::ptr_eq(&other, &get(&mut state, "other").unwrap()));
}

#[test]
fn there_is_one_proxy_per_server() {
    let mut state: AppState<u32> = AppState::new(config(&[("a", "x")]));
    assert_eq!(state.settle("a", 1), None);
    assert_eq!(state.settle("a", 2), Some(2));
    assert!(matches!(state.get_or_spawn("a"), Ok(Lookup::Live(&1))));
    state.child_exited("a");
    assert_eq!(state.settle("a", 3), None);
    assert!(matches!(state.get_or_spawn("a"), Ok(Lookup::Live(&3))));
}

#[test]
fn an_exited_child_is_restarted_for_its_sessions() {
    let mut state: AppState<u32> = AppState::new(config(&[("a", "x")]));
    state.settle("a", 1);
    assert!(state.restart("a", false, true).is_none());
    assert!(state.is_live("a"));
    assert_eq!(state.restart("a", true, true).unwrap().command, "x");
    assert!(!state.is_live("a"));
    state.settle("a", 1);
    assert!(state.restart("a", true, false).is_none());
    assert!(!state.is_live("a"));
    state.settle("gone", 2);
    assert!(state.restart("gone", true, true).is_none());
    assert!(!state.is_live("gone"));
}
