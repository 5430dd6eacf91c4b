use mcp_server::command::{parse_arguments, parse_command, Command};
use mcp_server::config::{Config, McpEntry, ServerSection};
use mcp_server::console::{
    banner, handle_command, handle_line, help, list_line, prompt, reload_report, save_failed,
    server_list, status, status_page, Action,
};
use mcp_server::error::ProxyError;
use mcp_server::state::AppState;
use mcp_server::table::Table;
use mcp_server::text::chars_of;

fn state() -> AppState<u32> {
    AppState::new(Config { server: ServerSection::default(), mcp: Table::new() })
}

fn complaint(line: &str) -> String {
    match parse_command(line) {
        Command::Complaint(text) => text,
        other => panic!("expected a complaint, got {:?}", other),
    }
}

fn add(line: &str) -> (String, String, Vec<String>) {
    match parse_command(line) {
        Command::Add { name, command, args } => (name, command, args),
        other => panic!("expected Add, got {:?}", other),
    }
}

fn args(text: &str) -> Vec<String> {
    parse_arguments(&chars_of(text))
}

#[test]
fn words_of_commands() {
    for line in ["/help", " /mcp help\t", "help"] {
        assert!(matches!(parse_command(line), Command::Help));
    }
    for line in ["/mcp server reload", "/server reload"] {
        assert!(matches!(parse_command(line), Command::Reload));
    }
    for line in ["/list", "/mcp list", "list"] {
        assert!(matches!(parse_command(line), Command::List));
    }
    for line in ["/status", "/mcp status", "status"] {
        assert!(matches!(parse_command(line), Command::Status));
    }
    for line in ["/exit", "/shutdown", "exit"] {
        assert!(matches!(parse_command(line), Command::Exit));
    }
    assert_eq!(
        complaint("  bogus  "),
        "Unknown command: 'bogus'. Type /help for all available control commands."
    );
}

#[test]
fn servers_to_disable_are_named() {
    for line in ["/mcp disable \"mcp-x\"", "/mcp disable mcp-x", "/mcp disable   mcp-x  "] {
        match parse_command(line) {
            Command::Disable { name } => assert_eq!(name, "mcp-x"),
            other => panic!("expected Disable, got {:?}", other),
        }
    }
    for line in ["/mcp disable", "/mcp disable \"\""] {
        assert_eq!(
            complaint(line),
            "Error: please specify a tool name to disable, e.g.: /mcp disable \"mcp-filesystem\""
        );
    }
    match parse_command("/mcp disable \"") {
        Command::Disable { name } => assert_eq!(name, "\""),
        other => panic!("expected Disable, got {:?}", other),
    }
}

#[test]
fn servers_to_add_are_read() {
    assert_eq!(
        add("/mcp add \"fs\" npx \"-y\", \"a b\""),
        ("fs".to_string(), "npx".to_string(), vec!["-y".to_string(), "a b".to_string()])
    );
    assert_eq!(add("/mcp add fs npx"), ("fs".to_string(), "npx".to_string(), vec![]));
    assert_eq!(
        add("/mcp add \" fs \"   npx   <[a,b  c]>"),
        ("fs".to_string(), "npx".to_string(), vec!["a".to_string(), "b".to_string(), "c".to_string()])
    );
    assert_eq!(
        add("/mcp add web https://example.com/mcp"),
        ("web".to_string(), "https://example.com/mcp".to_string(), vec![])
    );
}

#[test]
fn servers_that_cannot_be_added_are_complained_of() {
    assert_eq!(complaint("/mcp add \"fs npx"), "Error: unclosed double quotes in tool name.");
    assert_eq!(
        complaint("/mcp add"),
        "Error: please specify a tool name, e.g.: /mcp add \"mcp-filesystem\" npx \"args\""
    );
    assert_eq!(
        complaint("/mcp add \"\" npx"),
        "Error: please specify a tool name, e.g.: /mcp add \"mcp-filesystem\" npx \"args\""
    );
    assert_eq!(
        complaint("/mcp add fs"),
        "Error: missing command for tool \"fs\". Usage: /mcp add \"tool_name\" <command> [args]"
    );
    assert_eq!(
        complaint("/mcp add \"f s\" npx"),
        "Error: invalid tool name 'f s': invalid server id: f s"
    );
}

#[test]
fn arguments_are_split() {
    assert!(args("").is_empty());
    assert!(args(" ,, \t").is_empty());
    assert_eq!(args("a b,c"), vec!["a", "b", "c"]);
    assert_eq!(args("\"a b\" c"), vec!["a b", "c"]);
    assert_eq!(args("a\"b\"c"), vec!["a", "b", "c"]);
    assert_eq!(args("\"\""), vec![""]);
    assert_eq!(args("\"open"), vec!["open"]);
    assert_eq!(args("\"back\\"), vec!["back"]);
    assert_eq!(args("C:\\dir"), vec!["C:\\dir"]);
    assert_eq!(args("\"C:\\\\dir\""), vec!["C:\\dir"]);
}

#[test]
fn quoted_arguments_read_back() {
    for arg in ["", "plain", "a b,c", "say \"hi\"", "back\\slash", "\\\"", " \u{3000} "] {
        let quoted = format!("\"{}\"", arg.replace('\\', "\\\\").replace('"', "\\\""));
        assert_eq!(args(&quoted), vec![arg.to_string()]);
    }
}

#[test]
fn commands_read_back_as_the_help_writes_them() {
    let list = ["-y", "a b", "say \"hi\"", "<x>", ""];
    let mut line = "/mcp add \"fs-1\" npx".to_string();
    for arg in list {
        line.push_str(&format!(" \"{}\"", arg.replace('\\', "\\\\").replace('"', "\\\"")));
    }
    let expected: Vec<String> = list.iter().map(|a| a.to_string()).collect();
    assert_eq!(add(&line), ("fs-1".to_string(), "npx".to_string(), expected));
    match parse_command("/mcp disable \" odd name \"") {
        Command::Disable { name } => assert_eq!(name, " odd name "),
        other => panic!("expected Disable, got {:?}", other),
    }
}

#[test]
fn shown_texts_stand_in_their_places() {
    assert_eq!(list_line("id", true, "npx", "ARGS"), "  - id                 [ACTIVE]   command: npx ARGS\n");
    assert_eq!(
        list_line("id", false, "npx", "ARGS"),
        "  - id                 [INACTIVE] command: npx ARGS\n"
    );
    assert_eq!(
        status_page(&ServerSection::default(), 3, 2, "IDS"),
        "\nProxy Status:\n  - Address:       http://127.0.0.1:9000\n  - Total Tools:   3\n  - Live Proxies:  2\n  - Active Slugs:  IDS\n"
    );
}

#[test]
fn adding_and_disabling_change_the_state() {
    let mut s = state();
    match handle_command("/mcp add fs npx -y", &mut s) {
        Action::SaveAndShow(text) => assert_eq!(
            text,
            "Success: tool \"fs\" has been added/updated and saved successfully with command 'npx'. Connect to it at http://localhost:9000/fs/sse or /fs/mcp"
        ),
        other => panic!("unexpected {:?}", other),
    }
    let entry: &McpEntry = s.settings().mcp.get("fs").unwrap();
    assert_eq!((entry.command.as_str(), entry.args.len(), entry.is_http), ("npx", 1, false));
    match handle_command("/mcp add web http://h/mcp", &mut s) {
        Action::SaveAndShow(text) => assert_eq!(
            text,
            "Success: gateway HTTP/Streamable tool \"web\" added and saved successfully. Proxying to external: http://h/mcp"
        ),
        other => panic!("unexpected {:?}", other),
    }
    assert!(s.settings().mcp.get("web").unwrap().is_http);
    s.settle("fs", 4);
    match handle_command("/mcp disable fs", &mut s) {
        Action::StopAndShow { text, save, proxy } => {
            assert!(save);
            assert_eq!(proxy, Some(4));
            assert_eq!(text, "Success: tool \"fs\" has been disabled and stopped successfully.");
        }
        other => panic!("unexpected {:?}", other),
    }
    match handle_command("/mcp disable fs", &mut s) {
        Action::StopAndShow { text, save, proxy } => {
            assert!(!save);
            assert_eq!(proxy, None);
            assert_eq!(text, "Error: tool \"fs\" not found in active configurations.");
        }
        other => panic!("unexpected {:?}", other),
    }
    assert!(matches!(handle_command("/server reload", &mut s), Action::Reload));
    match handle_command("/exit", &mut s) {
        Action::ShowAndExit(text) => assert_eq!(text, "Shutting down mcp-server gracefully..."),
        other => panic!("unexpected {:?}", other),
    }
    match handle_command("/mcp add fs", &mut s) {
        Action::Show(text) => assert!(text.starts_with("Error: missing command")),
        other => panic!("unexpected {:?}", other),
    }
    assert!(matches!(handle_command("/help", &mut s), Action::Show(_)));
    assert_eq!(s.ids(), vec!["web"]);
}

#[test]
fn blank_lines_do_nothing() {
    let mut s = state();
    assert!(handle_line(" \t ", &mut s).is_none());
    assert!(handle_line("", &mut s).is_none());
    assert!(matches!(handle_line(" /list ", &mut s), Some(Action::Show(_))));
}

#[test]
fn the_list_shows_every_server() {
    let mut s = state();
    assert_eq!(server_list(&s), "\nConfigured MCP Tools (0 total):\n  (No tools configured)\n");
    handle_command("/mcp add fs npx -y \"a\\\"b\"", &mut s);
    handle_command("/mcp add a-very-long-server-name node", &mut s);
    s.settle("fs", 1);
    assert_eq!(
        server_list(&s),
        "\nConfigured MCP Tools (2 total):\n  - a-very-long-server-name [INACTIVE] command: node []\n  - fs                 [ACTIVE]   command: npx [\"-y\", \"a\\\"b\"]\n"
    );
    let expected = format!(
        "  - {:<18} {:<10} command: {} {:?}\n",
        "fs", "[ACTIVE]", "npx", vec!["-y".to_string(), "a\"b".to_string()]
    );
    assert!(server_list(&s).ends_with(&expected));
}

#[test]
fn the_status_counts() {
    let mut s = state();
    assert_eq!(
        status(&s),
        "\nProxy Status:\n  - Address:       http://127.0.0.1:9000\n  - Total Tools:   0\n  - Live Proxies:  0\n"
    );
    handle_command("/mcp add fs npx", &mut s);
    handle_command("/mcp add web node", &mut s);
    s.settle("fs", 1);
    assert_eq!(
        status(&s),
        "\nProxy Status:\n  - Address:       http://127.0.0.1:9000\n  - Total Tools:   2\n  - Live Proxies:  1\n  - Active Slugs:  [\"fs\"]\n"
    );
}

#[test]
fn fixed_texts() {
    assert_eq!(prompt(), "mcp-server> ");
    assert_eq!(banner().lines().count(), 7);
    assert!(banner().contains("       MCP-SERVER INTERACTIVE POWER CONSOLE / TUI       \n"));
    assert_eq!(help().lines().count(), 10);
    assert!(help().contains("  /mcp disable \"slug\"            Stop and disable an active MCP tool\n"));
    assert_eq!(reload_report(Ok(())), "Success: configuration reloaded from disk.");
    assert_eq!(
        reload_report(Err(ProxyError::Config("c".to_string()))),
        "Error reloading config: config error: c"
    );
    assert_eq!(
        save_failed(&ProxyError::Io("disk full".to_string())),
        "Error saving configuration change to disk: io error: disk full"
    );
}
